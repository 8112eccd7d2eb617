use vstd::prelude::*;

use crate::error::{AnalysisError, ErrorKind};
use crate::model::{AttrModel, ParamModel, TypedParam};
use crate::model::text_eq;
use crate::serializer_attr::{parse_serializer, spec_parse_serializer, SerializerType};

verus! {

/// How a parameter is fed to the method at the contract boundary: a regular
/// argument is decoded from the standard contract input channel, while a
/// callback argument is injected by the runtime and never read from it.
#[derive(Clone, Copy, Debug, PartialEq, Eq, Structural)]
pub enum BindgenArgType {
    Regular,
    CallbackArg,
}

/// The classification of one typed parameter: the name it binds, whether it
/// is a regular or an injected argument, and the serialization format used
/// to decode it when it is regular.
#[derive(Debug, PartialEq, Eq)]
pub struct ArgInfo {
    pub ident: String,
    pub bindgen_ty: BindgenArgType,
    pub serializer_ty: SerializerType,
}

/// The mathematical value of an `ArgInfo`.
#[verifier::ext_equal]
pub struct ArgModel {
    pub ident: Seq<char>,
    pub bindgen_ty: BindgenArgType,
    pub serializer_ty: SerializerType,
}

impl View for ArgInfo {
    type V = ArgModel;

    open spec fn view(&self) -> ArgModel {
        ArgModel {
            ident: self.ident@,
            bindgen_ty: self.bindgen_ty,
            serializer_ty: self.serializer_ty,
        }
    }
}

impl DeepView for ArgInfo {
    type V = ArgModel;

    open spec fn deep_view(&self) -> ArgModel {
        self@
    }
}

/// Whether an attribute on a parameter marks it as a callback argument.
pub open spec fn is_callback_attr(a: AttrModel) -> bool {
    a.path == "callback"@
}

/// Whether an attribute on a parameter selects its serialization format.
pub open spec fn is_param_serializer_attr(a: AttrModel) -> bool {
    a.path == "serializer"@
}

/// Whether every serializer attribute among a parameter's attributes carries
/// a payload that parses into a serialization format.
pub open spec fn param_attrs_ok(attrs: Seq<AttrModel>) -> bool
    decreases attrs.len(),
{
    if attrs.len() == 0 {
        true
    } else {
        &&& (is_param_serializer_attr(attrs.last()) ==> spec_parse_serializer(
            attrs.last().tokens,
        ) is Some)
        &&& param_attrs_ok(attrs.drop_last())
    }
}

/// The argument kind a parameter's attributes select: a callback marker
/// anywhere among them makes the parameter a callback argument; otherwise it
/// is a regular argument.
pub open spec fn param_kind(attrs: Seq<AttrModel>) -> BindgenArgType
    decreases attrs.len(),
{
    if attrs.len() == 0 {
        BindgenArgType::Regular
    } else if is_callback_attr(attrs.last()) {
        BindgenArgType::CallbackArg
    } else {
        param_kind(attrs.drop_last())
    }
}

/// The serialization format a parameter's attributes select: the payload of
/// the last serializer attribute, or JSON when there is none.
pub open spec fn param_serializer(attrs: Seq<AttrModel>) -> SerializerType
    decreases attrs.len(),
{
    if attrs.len() == 0 {
        SerializerType::JSON
    } else if is_param_serializer_attr(attrs.last()) {
        spec_parse_serializer(attrs.last().tokens).unwrap()
    } else {
        param_serializer(attrs.drop_last())
    }
}

/// Whether the classification of a parameter succeeds.
pub open spec fn param_ok(p: ParamModel) -> bool {
    param_attrs_ok(p.attrs)
}

/// The classification of a parameter whose analysis succeeds.
pub open spec fn analyzed(p: ParamModel) -> ArgModel {
    ArgModel {
        ident: p.ident,
        bindgen_ty: param_kind(p.attrs),
        serializer_ty: param_serializer(p.attrs),
    }
}

impl ArgInfo {
    /// Classify one typed parameter: a `callback` marker makes it an injected
    /// callback argument, a `serializer` attribute selects its serialization
    /// format (JSON when absent), and a serializer payload that does not
    /// parse makes the whole parameter malformed.
    pub fn new(param: &TypedParam) -> (r: Result<ArgInfo, AnalysisError>)
        ensures
            r is Ok <==> param_ok(param@),
            r is Ok ==> r->Ok_0@ == analyzed(param@),
            r is Err ==> r->Err_0.kind == ErrorKind::MalformedParameter,
    {
        let ghost attrs_m: Seq<AttrModel> = param.attrs.deep_view();
        let mut bindgen_ty = BindgenArgType::Regular;
        let mut serializer_ty = SerializerType::JSON;
        let mut i: usize = 0;
        while i < param.attrs.len()
            invariant
                i <= param.attrs.len(),
                attrs_m == param.attrs.deep_view(),
                param_attrs_ok(attrs_m.take(i as int)),
                bindgen_ty == param_kind(attrs_m.take(i as int)),
                serializer_ty == param_serializer(attrs_m.take(i as int)),
            decreases param.attrs.len() - i,
        {
            proof {
                reveal_strlit("callback");
                reveal_strlit("serializer");
                assert(("callback")@.len() == 8);
                assert(("serializer")@.len() == 10);
                assert(("callback")@ != ("serializer")@);
            }
            let attr = &param.attrs[i];
            if text_eq(&attr.path, "callback") {
                bindgen_ty = BindgenArgType::CallbackArg;
            } else if text_eq(&attr.path, "serializer") {
                match parse_serializer(&attr.tokens) {
                    Some(t) => {
                        serializer_ty = t;
                    },
                    None => {
                        proof {
                            lemma_param_attrs_bad_index(attrs_m, i as int);
                        }
                        return Err(
                            AnalysisError::new(
                                ErrorKind::MalformedParameter,
                                "A serializer attribute on a parameter carries an unsupported payload.",
                            ),
                        );
                    },
                }
            }
            proof {
                let pre = attrs_m.take(i as int);
                let post = attrs_m.take(i as int + 1);
                assert(post.drop_last() =~= pre);
                assert(post.last() == attrs_m[i as int]);
            }
            i += 1;
        }
        proof {
            assert(attrs_m.take(param.attrs.len() as int) =~= attrs_m);
        }
        Ok(ArgInfo { ident: param.ident.clone(), bindgen_ty, serializer_ty })
    }
}

/// A serializer attribute with an unparseable payload anywhere among a
/// parameter's attributes makes the whole attribute list malformed.
proof fn lemma_param_attrs_bad_index(attrs: Seq<AttrModel>, j: int)
    requires
        0 <= j < attrs.len(),
        is_param_serializer_attr(attrs[j]),
        spec_parse_serializer(attrs[j].tokens) is None,
    ensures
        !param_attrs_ok(attrs),
    decreases attrs.len(),
{
    if j < attrs.len() - 1 {
        assert(attrs.drop_last()[j] == attrs[j]);
        lemma_param_attrs_bad_index(attrs.drop_last(), j);
    }
}

} // verus!
