use vstd::prelude::*;

use crate::arg_info::{analyzed, param_attrs_ok, ArgInfo, ArgModel, BindgenArgType};
use crate::error::{AnalysisError, ErrorKind};
use crate::model::{
    AttrModel, Attribute, FnArg, FnArgModel, ParamModel, Receiver, ReturnType, ReturnTypeModel,
    SigModel, Signature,
};
use crate::model::text_eq;
use crate::serializer_attr::{parse_serializer, spec_parse_serializer, SerializerType};

verus! {

/// Whether an attribute is the directive that marks a method as an
/// initializer.
pub open spec fn is_init_attr(a: AttrModel) -> bool {
    a.path == "init"@
}

/// Whether an attribute is the directive that overrides the serialization
/// format of the return value.
pub open spec fn is_result_serializer_attr(a: AttrModel) -> bool {
    a.path == "result_serializer"@
}

/// Whether an attribute belongs to the closed directive vocabulary.
pub open spec fn is_directive(a: AttrModel) -> bool {
    is_init_attr(a) || is_result_serializer_attr(a)
}

/// Whether the declaration passes the structural gate: a contract entry
/// point must be a plain, synchronous, non-generic, fixed-arity function.
pub open spec fn gate_ok(sig: SigModel) -> bool {
    !sig.is_async && !sig.has_abi && !sig.has_generics && !sig.is_variadic
}

/// Whether every result-serializer directive among a method's attributes
/// carries a payload that parses into a serialization format.
pub open spec fn attrs_ok(attrs: Seq<AttrModel>) -> bool
    decreases attrs.len(),
{
    if attrs.len() == 0 {
        true
    } else {
        &&& (is_result_serializer_attr(attrs.last()) ==> spec_parse_serializer(
            attrs.last().tokens,
        ) is Some)
        &&& attrs_ok(attrs.drop_last())
    }
}

/// Whether an `init` directive appears among a method's attributes.
pub open spec fn has_init(attrs: Seq<AttrModel>) -> bool
    decreases attrs.len(),
{
    if attrs.len() == 0 {
        false
    } else {
        is_init_attr(attrs.last()) || has_init(attrs.drop_last())
    }
}

/// The serialization format of the return value: the payload of the last
/// result-serializer directive, or JSON when there is none.
pub open spec fn result_format_of(attrs: Seq<AttrModel>) -> SerializerType
    decreases attrs.len(),
{
    if attrs.len() == 0 {
        SerializerType::JSON
    } else if is_result_serializer_attr(attrs.last()) {
        spec_parse_serializer(attrs.last().tokens).unwrap()
    } else {
        result_format_of(attrs.drop_last())
    }
}

/// The attributes that are not directives, preserved verbatim and in their
/// original order.
pub open spec fn passthrough_of(attrs: Seq<AttrModel>) -> Seq<AttrModel>
    decreases attrs.len(),
{
    if attrs.len() == 0 {
        Seq::empty()
    } else {
        let rest = passthrough_of(attrs.drop_last());
        if is_directive(attrs.last()) {
            rest
        } else {
            rest.push(attrs.last())
        }
    }
}

/// The receiver of the declaration: the last receiver parameter among its
/// formal parameters, or none for a free function.
pub open spec fn receiver_of(inputs: Seq<FnArgModel>) -> Option<Receiver>
    decreases inputs.len(),
{
    if inputs.len() == 0 {
        None
    } else {
        match inputs.last() {
            FnArgModel::Receiver(r) => Some(r),
            FnArgModel::Typed(_) => receiver_of(inputs.drop_last()),
        }
    }
}

/// The typed parameters of the declaration, in declaration order, with the
/// receiver excluded.
pub open spec fn typed_params_of(inputs: Seq<FnArgModel>) -> Seq<ParamModel>
    decreases inputs.len(),
{
    if inputs.len() == 0 {
        Seq::empty()
    } else {
        let rest = typed_params_of(inputs.drop_last());
        match inputs.last() {
            FnArgModel::Typed(p) => rest.push(p),
            FnArgModel::Receiver(_) => rest,
        }
    }
}

/// Whether the classification succeeds on every typed parameter.
pub open spec fn params_ok(inputs: Seq<FnArgModel>) -> bool
    decreases inputs.len(),
{
    if inputs.len() == 0 {
        true
    } else {
        &&& (match inputs.last() {
            FnArgModel::Typed(p) => param_attrs_ok(p.attrs),
            FnArgModel::Receiver(_) => true,
        })
        &&& params_ok(inputs.drop_last())
    }
}

/// The classified arguments of the declaration, in declaration order, with
/// the receiver excluded.
pub open spec fn args_of(inputs: Seq<FnArgModel>) -> Seq<ArgModel>
    decreases inputs.len(),
{
    if inputs.len() == 0 {
        Seq::empty()
    } else {
        let rest = args_of(inputs.drop_last());
        match inputs.last() {
            FnArgModel::Typed(p) => rest.push(analyzed(p)),
            FnArgModel::Receiver(_) => rest,
        }
    }
}

/// Whether every regular argument uses the given serialization format.
pub open spec fn regular_all(args: Seq<ArgModel>, t: SerializerType) -> bool
    decreases args.len(),
{
    if args.len() == 0 {
        true
    } else {
        &&& (args.last().bindgen_ty is Regular ==> args.last().serializer_ty == t)
        &&& regular_all(args.drop_last(), t)
    }
}

/// The regular arguments, in declaration order: the subset of the arguments
/// that is decoded from the standard contract input channel.
pub open spec fn regular_of(args: Seq<ArgModel>) -> Seq<ArgModel>
    decreases args.len(),
{
    if args.len() == 0 {
        Seq::empty()
    } else {
        let rest = regular_of(args.drop_last());
        if args.last().bindgen_ty is Regular {
            rest.push(args.last())
        } else {
            rest
        }
    }
}

/// The single serialization format shared by all regular arguments: JSON
/// when they all use JSON (vacuously so when there are none), Borsh when
/// they all use Borsh, and undefined when the formats are mixed.
pub open spec fn input_format_of(args: Seq<ArgModel>) -> Option<SerializerType> {
    if regular_all(args, SerializerType::JSON) {
        Some(SerializerType::JSON)
    } else if regular_all(args, SerializerType::Borsh) {
        Some(SerializerType::Borsh)
    } else {
        None
    }
}

/// The mathematical value of an `AttrSigInfo`.
#[verifier::ext_equal]
pub struct InfoModel {
    pub ident: Seq<char>,
    pub non_bindgen_attrs: Seq<AttrModel>,
    pub args: Seq<ArgModel>,
    pub is_init: bool,
    pub input_serializer: SerializerType,
    pub result_serializer: SerializerType,
    pub receiver: Option<Receiver>,
    pub return_ty: ReturnTypeModel,
    pub original_sig: SigModel,
}

/// The outcome of analyzing one declaration: the validated description, or
/// the kind of failure that aborts construction. The checks are applied in
/// a fixed order: the structural gate first, then the directive attributes,
/// then the parameters, and the serializer-format reconciliation last.
pub open spec fn analysis_result(attrs: Seq<AttrModel>, sig: SigModel) -> Result<
    InfoModel,
    ErrorKind,
> {
    if !gate_ok(sig) {
        Err(ErrorKind::StructuralViolation)
    } else if !attrs_ok(attrs) {
        Err(ErrorKind::MalformedDirective)
    } else if !params_ok(sig.inputs) {
        Err(ErrorKind::MalformedParameter)
    } else if input_format_of(args_of(sig.inputs)) is None {
        Err(ErrorKind::SerializerFormatConflict)
    } else {
        Ok(
            InfoModel {
                ident: sig.ident,
                non_bindgen_attrs: passthrough_of(attrs),
                args: args_of(sig.inputs),
                is_init: has_init(attrs),
                input_serializer: input_format_of(args_of(sig.inputs)).unwrap(),
                result_serializer: result_format_of(attrs),
                receiver: receiver_of(sig.inputs),
                return_ty: sig.output,
                original_sig: sig,
            },
        )
    }
}

/// Information extracted from a method's attributes and signature: the
/// validated description of one method eligible for contract exposure.
#[derive(Debug)]
pub struct AttrSigInfo {
    /// The name of the method.
    pub ident: String,
    /// The attributes that are not directives, preserved verbatim.
    pub non_bindgen_attrs: Vec<Attribute>,
    /// All arguments of the method, in declaration order, receiver excluded.
    pub args: Vec<ArgInfo>,
    /// Whether the method can be used as an initializer.
    pub is_init: bool,
    /// The serialization format used to decode the regular input arguments.
    pub input_serializer: SerializerType,
    /// The serialization format used to encode the return value.
    pub result_serializer: SerializerType,
    /// The receiver, like `mut self`, `self`, `&mut self`, `&self`, or none.
    pub receiver: Option<Receiver>,
    /// What the method gives back.
    pub return_ty: ReturnType,
    /// The unmodified declared signature of the method.
    pub original_sig: Signature,
}

impl View for AttrSigInfo {
    type V = InfoModel;

    open spec fn view(&self) -> InfoModel {
        InfoModel {
            ident: self.ident@,
            non_bindgen_attrs: self.non_bindgen_attrs.deep_view(),
            args: self.args.deep_view(),
            is_init: self.is_init,
            input_serializer: self.input_serializer,
            result_serializer: self.result_serializer,
            receiver: self.receiver,
            return_ty: self.return_ty@,
            original_sig: self.original_sig@,
        }
    }
}

impl DeepView for AttrSigInfo {
    type V = InfoModel;

    open spec fn deep_view(&self) -> InfoModel {
        self@
    }
}

/// A result-serializer directive with an unparseable payload anywhere among
/// a method's attributes makes the whole attribute list malformed.
proof fn lemma_attrs_bad_index(attrs: Seq<AttrModel>, j: int)
    requires
        0 <= j < attrs.len(),
        is_result_serializer_attr(attrs[j]),
        spec_parse_serializer(attrs[j].tokens) is None,
    ensures
        !attrs_ok(attrs),
    decreases attrs.len(),
{
    if j < attrs.len() - 1 {
        assert(attrs.drop_last()[j] == attrs[j]);
        lemma_attrs_bad_index(attrs.drop_last(), j);
    }
}

/// A typed parameter that the classification rejects anywhere among the
/// formal parameters makes the whole parameter list malformed.
proof fn lemma_params_bad_index(inputs: Seq<FnArgModel>, j: int)
    requires
        0 <= j < inputs.len(),
        inputs[j] is Typed,
        !param_attrs_ok(inputs[j]->Typed_0.attrs),
    ensures
        !params_ok(inputs),
    decreases inputs.len(),
{
    if j < inputs.len() - 1 {
        assert(inputs.drop_last()[j] == inputs[j]);
        lemma_params_bad_index(inputs.drop_last(), j);
    }
}

impl AttrSigInfo {
    /// Process one method declaration and extract the information needed to
    /// expose it as a contract entry point. It yields the validated
    /// description exactly when `analysis_result` does, and otherwise fails
    /// with the kind of error that `analysis_result` assigns.
    #[verifier::loop_isolation(false)]
    pub fn new(original_attrs: Vec<Attribute>, original_sig: Signature) -> (res: Result<
        AttrSigInfo,
        AnalysisError,
    >)
        ensures
            res is Ok <==> analysis_result(
                original_attrs.deep_view(),
                original_sig.deep_view(),
            ) is Ok,
            res is Ok ==> res->Ok_0.deep_view() == analysis_result(
                original_attrs.deep_view(),
                original_sig.deep_view(),
            )->Ok_0,
            res is Err ==> res->Err_0.kind == analysis_result(
                original_attrs.deep_view(),
                original_sig.deep_view(),
            )->Err_0,
    {
        let ghost attrs_m: Seq<AttrModel> = original_attrs.deep_view();
        let ghost sig_m: SigModel = original_sig.deep_view();

        if original_sig.is_async {
            return Err(
                AnalysisError::new(
                    ErrorKind::StructuralViolation,
                    "Contract API is not allowed to be async.",
                ),
            );
        }
        if original_sig.has_abi {
            return Err(
                AnalysisError::new(
                    ErrorKind::StructuralViolation,
                    "Contract API is not allowed to have binary interface.",
                ),
            );
        }
        if original_sig.has_generics {
            return Err(
                AnalysisError::new(
                    ErrorKind::StructuralViolation,
                    "Contract API is not allowed to have generics.",
                ),
            );
        }
        if original_sig.is_variadic {
            return Err(
                AnalysisError::new(
                    ErrorKind::StructuralViolation,
                    "Contract API is not allowed to have variadic arguments.",
                ),
            );
        }

        proof {
            reveal_strlit("init");
            reveal_strlit("result_serializer");
            assert(("init")@.len() == 4);
            assert(("result_serializer")@.len() == 17);
            assert(("init")@ != ("result_serializer")@);
        }

        let ident = original_sig.ident.clone();
        let mut non_bindgen_attrs: Vec<Attribute> = Vec::new();
        let mut is_init = false;
        // By default the result is serialized with JSON.
        let mut result_serializer = SerializerType::JSON;

        let mut i: usize = 0;
        while i < original_attrs.len()
            invariant
                i <= original_attrs.len(),
                attrs_ok(attrs_m.take(i as int)),
                is_init == has_init(attrs_m.take(i as int)),
                result_serializer == result_format_of(attrs_m.take(i as int)),
                non_bindgen_attrs.deep_view() == passthrough_of(attrs_m.take(i as int)),
            decreases original_attrs.len() - i,
        {
            let ghost nb_pre = non_bindgen_attrs.deep_view();
            let attr = &original_attrs[i];
            if text_eq(&attr.path, "init") {
                is_init = true;
            } else if text_eq(&attr.path, "result_serializer") {
                match parse_serializer(&attr.tokens) {
                    Some(t) => {
                        result_serializer = t;
                    },
                    None => {
                        proof {
                            lemma_attrs_bad_index(attrs_m, i as int);
                        }
                        return Err(
                            AnalysisError::new(
                                ErrorKind::MalformedDirective,
                                "Unsupported payload of the result serializer attribute.",
                            ),
                        );
                    },
                }
            } else {
                non_bindgen_attrs.push(
                    Attribute { path: attr.path.clone(), tokens: attr.tokens.clone() },
                );
            }
            proof {
                let pre = attrs_m.take(i as int);
                let post = attrs_m.take(i as int + 1);
                assert(post.drop_last() =~= pre);
                assert(post.last() == attrs_m[i as int]);
                if !is_directive(attrs_m[i as int]) {
                    assert(non_bindgen_attrs.deep_view() =~= nb_pre.push(attrs_m[i as int]));
                }
            }
            i += 1;
        }
        proof {
            assert(attrs_m.take(original_attrs.len() as int) =~= attrs_m);
        }

        let return_ty = match &original_sig.output {
            ReturnType::Unit => ReturnType::Unit,
            ReturnType::Declared(t) => ReturnType::Declared(t.clone()),
        };
        let ghost inputs_m: Seq<FnArgModel> = sig_m.inputs;
        let mut receiver: Option<Receiver> = None;
        let mut args: Vec<ArgInfo> = Vec::new();

        let mut j: usize = 0;
        while j < original_sig.inputs.len()
            invariant
                j <= original_sig.inputs.len(),
                params_ok(inputs_m.take(j as int)),
                receiver == receiver_of(inputs_m.take(j as int)),
                args.deep_view() == args_of(inputs_m.take(j as int)),
            decreases original_sig.inputs.len() - j,
        {
            let ghost args_pre = args.deep_view();
            match &original_sig.inputs[j] {
                FnArg::Receiver(r) => {
                    receiver = Some(*r);
                },
                FnArg::Typed(param) => {
                    match ArgInfo::new(param) {
                        Ok(a) => {
                            args.push(a);
                        },
                        Err(e) => {
                            proof {
                                lemma_params_bad_index(inputs_m, j as int);
                            }
                            return Err(e);
                        },
                    }
                },
            }
            proof {
                let pre = inputs_m.take(j as int);
                let post = inputs_m.take(j as int + 1);
                assert(post.drop_last() =~= pre);
                assert(post.last() == inputs_m[j as int]);
                if inputs_m[j as int] is Typed {
                    assert(args.deep_view() =~= args_pre.push(
                        analyzed(inputs_m[j as int]->Typed_0),
                    ));
                }
            }
            j += 1;
        }
        proof {
            assert(inputs_m.take(original_sig.inputs.len() as int) =~= inputs_m);
        }

        let ghost args_m: Seq<ArgModel> = args.deep_view();
        let mut all_json = true;
        let mut all_borsh = true;
        let mut k: usize = 0;
        while k < args.len()
            invariant
                k <= args.len(),
                all_json == regular_all(args_m.take(k as int), SerializerType::JSON),
                all_borsh == regular_all(args_m.take(k as int), SerializerType::Borsh),
            decreases args.len() - k,
        {
            let arg = &args[k];
            if arg.bindgen_ty == BindgenArgType::Regular {
                if arg.serializer_ty != SerializerType::JSON {
                    all_json = false;
                }
                if arg.serializer_ty != SerializerType::Borsh {
                    all_borsh = false;
                }
            }
            proof {
                let pre = args_m.take(k as int);
                let post = args_m.take(k as int + 1);
                assert(post.drop_last() =~= pre);
                assert(post.last() == args_m[k as int]);
            }
            k += 1;
        }
        proof {
            assert(args_m.take(args.len() as int) =~= args_m);
        }

        let input_serializer = if all_json {
            SerializerType::JSON
        } else if all_borsh {
            SerializerType::Borsh
        } else {
            return Err(
                AnalysisError::new(
                    ErrorKind::SerializerFormatConflict,
                    "Input arguments should be all of the same serialization type.",
                ),
            );
        };

        let info = AttrSigInfo {
            ident,
            non_bindgen_attrs,
            args,
            is_init,
            input_serializer,
            result_serializer,
            receiver,
            return_ty,
            original_sig,
        };
        proof {
            assert(info.deep_view() =~~= analysis_result(attrs_m, sig_m)->Ok_0);
        }
        Ok(info)
    }

    /// Only the arguments that are decoded from the contract input channel:
    /// the regular arguments, in declaration order.
    pub fn input_args(&self) -> (res: Vec<ArgInfo>)
        ensures
            res.deep_view() == regular_of(self.args.deep_view()),
    {
        let ghost args_m: Seq<ArgModel> = self.args.deep_view();
        let mut res: Vec<ArgInfo> = Vec::new();
        let mut i: usize = 0;
        while i < self.args.len()
            invariant
                i <= self.args.len(),
                args_m == self.args.deep_view(),
                res.deep_view() == regular_of(args_m.take(i as int)),
            decreases self.args.len() - i,
        {
            let ghost res_pre = res.deep_view();
            let arg = &self.args[i];
            if arg.bindgen_ty == BindgenArgType::Regular {
                res.push(
                    ArgInfo {
                        ident: arg.ident.clone(),
                        bindgen_ty: arg.bindgen_ty,
                        serializer_ty: arg.serializer_ty,
                    },
                );
            }
            proof {
                let pre = args_m.take(i as int);
                let post = args_m.take(i as int + 1);
                assert(post.drop_last() =~= pre);
                assert(post.last() == args_m[i as int]);
                if args_m[i as int].bindgen_ty is Regular {
                    assert(res.deep_view() =~= res_pre.push(args_m[i as int]));
                }
            }
            i += 1;
        }
        proof {
            assert(args_m.take(self.args.len() as int) =~= args_m);
        }
        res
    }
}

} // verus!
