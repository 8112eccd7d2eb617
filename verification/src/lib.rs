//! Metadata extraction for contract-binding code generation.
//!
//! Given a method's attribute list and its declared signature, both as plain
//! values handed over by a language front-end, the library produces a
//! validated, normalized description (`AttrSigInfo`) of the method, or fails
//! with a descriptive error when the declaration cannot safely be exposed as
//! a contract entry point.

pub mod arg_info;
pub mod attr_sig_info;
pub mod error;
pub mod laws;
pub mod model;
pub mod serializer_attr;

pub use arg_info::{ArgInfo, BindgenArgType};
pub use attr_sig_info::AttrSigInfo;
pub use error::{AnalysisError, ErrorKind};
pub use model::{Attribute, FnArg, Receiver, ReturnType, Signature, TypedParam};
pub use serializer_attr::SerializerType;
