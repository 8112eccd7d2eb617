use vstd::prelude::*;

verus! {

/// A raw attribute attached to a method declaration or to one of its
/// parameters: the attribute's path and the raw tokens of its payload,
/// both as source text handed over by the language front-end.
#[derive(Debug, PartialEq, Eq)]
pub struct Attribute {
    pub path: String,
    pub tokens: String,
}

/// The mathematical value of an `Attribute`.
#[verifier::ext_equal]
pub struct AttrModel {
    pub path: Seq<char>,
    pub tokens: Seq<char>,
}

impl View for Attribute {
    type V = AttrModel;

    open spec fn view(&self) -> AttrModel {
        AttrModel { path: self.path@, tokens: self.tokens@ }
    }
}

impl DeepView for Attribute {
    type V = AttrModel;

    open spec fn deep_view(&self) -> AttrModel {
        self@
    }
}

/// The shape of a method's self-parameter: `self`, `mut self`, `&self`,
/// or `&mut self`.
#[derive(Clone, Copy, Debug, PartialEq, Eq, Structural)]
pub struct Receiver {
    pub is_reference: bool,
    pub is_mutable: bool,
}

/// A typed (non-receiver) parameter of a declared method: the name it binds
/// and the attributes attached to the parameter itself.
#[derive(Debug, PartialEq, Eq)]
pub struct TypedParam {
    pub ident: String,
    pub attrs: Vec<Attribute>,
}

/// The mathematical value of a `TypedParam`.
#[verifier::ext_equal]
pub struct ParamModel {
    pub ident: Seq<char>,
    pub attrs: Seq<AttrModel>,
}

impl View for TypedParam {
    type V = ParamModel;

    open spec fn view(&self) -> ParamModel {
        ParamModel { ident: self.ident@, attrs: self.attrs.deep_view() }
    }
}

impl DeepView for TypedParam {
    type V = ParamModel;

    open spec fn deep_view(&self) -> ParamModel {
        self@
    }
}

/// One formal parameter of a declared signature: either the receiver or a
/// typed parameter.
#[derive(Debug, PartialEq, Eq)]
pub enum FnArg {
    Receiver(Receiver),
    Typed(TypedParam),
}

/// The mathematical value of a `FnArg`.
#[verifier::ext_equal]
pub enum FnArgModel {
    Receiver(Receiver),
    Typed(ParamModel),
}

impl View for FnArg {
    type V = FnArgModel;

    open spec fn view(&self) -> FnArgModel {
        match self {
            FnArg::Receiver(r) => FnArgModel::Receiver(*r),
            FnArg::Typed(p) => FnArgModel::Typed(p@),
        }
    }
}

impl DeepView for FnArg {
    type V = FnArgModel;

    open spec fn deep_view(&self) -> FnArgModel {
        self@
    }
}

/// The declared return type of a method: either no return value at all, or
/// the declared type as source text.
#[derive(Debug, PartialEq, Eq)]
pub enum ReturnType {
    Unit,
    Declared(String),
}

/// The mathematical value of a `ReturnType`.
#[verifier::ext_equal]
pub enum ReturnTypeModel {
    Unit,
    Declared(Seq<char>),
}

impl View for ReturnType {
    type V = ReturnTypeModel;

    open spec fn view(&self) -> ReturnTypeModel {
        match self {
            ReturnType::Unit => ReturnTypeModel::Unit,
            ReturnType::Declared(t) => ReturnTypeModel::Declared(t@),
        }
    }
}

impl DeepView for ReturnType {
    type V = ReturnTypeModel;

    open spec fn deep_view(&self) -> ReturnTypeModel {
        self@
    }
}

/// A method's full declared signature, as handed over by the front-end:
/// its name, the structural markers the analysis gates on, its formal
/// parameters in declaration order, and its return type.
#[derive(Debug, PartialEq, Eq)]
pub struct Signature {
    pub ident: String,
    pub is_async: bool,
    pub has_abi: bool,
    pub has_generics: bool,
    pub is_variadic: bool,
    pub inputs: Vec<FnArg>,
    pub output: ReturnType,
}

/// The mathematical value of a `Signature`.
#[verifier::ext_equal]
pub struct SigModel {
    pub ident: Seq<char>,
    pub is_async: bool,
    pub has_abi: bool,
    pub has_generics: bool,
    pub is_variadic: bool,
    pub inputs: Seq<FnArgModel>,
    pub output: ReturnTypeModel,
}

impl View for Signature {
    type V = SigModel;

    open spec fn view(&self) -> SigModel {
        SigModel {
            ident: self.ident@,
            is_async: self.is_async,
            has_abi: self.has_abi,
            has_generics: self.has_generics,
            is_variadic: self.is_variadic,
            inputs: self.inputs.deep_view(),
            output: self.output@,
        }
    }
}

impl DeepView for Signature {
    type V = SigModel;

    open spec fn deep_view(&self) -> SigModel {
        self@
    }
}

/// Compare an attribute path or other piece of source text against a fixed
/// name.
pub fn text_eq(text: &String, name: &str) -> (r: bool)
    ensures
        r == (text@ == name@),
{
    *text == name.to_owned()
}

} // verus!
