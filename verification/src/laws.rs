use vstd::prelude::*;

use crate::arg_info::{analyzed, ArgModel};
use crate::attr_sig_info::{
    analysis_result, args_of, attrs_ok, gate_ok, has_init, is_directive, is_init_attr,
    is_result_serializer_attr, params_ok, passthrough_of, regular_all, result_format_of,
    typed_params_of, InfoModel,
};
use crate::error::ErrorKind;
use crate::model::{AttrModel, FnArgModel, SigModel};
use crate::serializer_attr::{spec_parse_serializer, SerializerType};

verus! {

/// A declaration that is asynchronous, has a binary calling interface, is
/// generic, or is variadic is always rejected with a structural violation,
/// and no description is produced.
pub proof fn lemma_structural_gate_rejects(attrs: Seq<AttrModel>, sig: SigModel)
    requires
        sig.is_async || sig.has_abi || sig.has_generics || sig.is_variadic,
    ensures
        analysis_result(attrs, sig) == Err::<InfoModel, ErrorKind>(ErrorKind::StructuralViolation),
{
}

/// With no directive among its attributes, a declaration is never an
/// initializer and its result is serialized with JSON.
proof fn lemma_no_directives_rec(attrs: Seq<AttrModel>)
    requires
        forall|i: int| 0 <= i < attrs.len() ==> !is_directive(#[trigger] attrs[i]),
    ensures
        !has_init(attrs),
        result_format_of(attrs) == SerializerType::JSON,
    decreases attrs.len(),
{
    if attrs.len() > 0 {
        assert forall|i: int|
            0 <= i < attrs.drop_last().len() implies !is_directive(
            #[trigger] attrs.drop_last()[i],
        ) by {
            assert(attrs.drop_last()[i] == attrs[i]);
        }
        lemma_no_directives_rec(attrs.drop_last());
        assert(!is_directive(attrs[attrs.len() - 1]));
    }
}

/// A declaration with zero directive attributes that the analysis accepts
/// is described with `is_init` false and the JSON result format.
pub proof fn lemma_no_directives_defaults(attrs: Seq<AttrModel>, sig: SigModel)
    requires
        forall|i: int| 0 <= i < attrs.len() ==> !is_directive(#[trigger] attrs[i]),
    ensures
        analysis_result(attrs, sig) is Ok ==> analysis_result(attrs, sig)->Ok_0.is_init == false,
        analysis_result(attrs, sig) is Ok ==> analysis_result(attrs, sig)->Ok_0.result_serializer
            == SerializerType::JSON,
{
    lemma_no_directives_rec(attrs);
}

/// Adding an `init` directive anywhere among a declaration's attributes
/// marks the description as an initializer and leaves everything else
/// unaffected: the same attributes pass through, the same result format is
/// chosen, and the analysis succeeds on the same declarations.
pub proof fn lemma_init_directive(attrs: Seq<AttrModel>, a: AttrModel, k: int, sig: SigModel)
    requires
        is_init_attr(a),
        0 <= k <= attrs.len(),
    ensures
        has_init(attrs.insert(k, a)),
        passthrough_of(attrs.insert(k, a)) == passthrough_of(attrs),
        result_format_of(attrs.insert(k, a)) == result_format_of(attrs),
        attrs_ok(attrs.insert(k, a)) == attrs_ok(attrs),
        analysis_result(attrs.insert(k, a), sig) is Ok <==> analysis_result(attrs, sig) is Ok,
        analysis_result(attrs.insert(k, a), sig) is Ok ==> ({
            let described = analysis_result(attrs.insert(k, a), sig)->Ok_0;
            let plain = analysis_result(attrs, sig)->Ok_0;
            &&& described.is_init == true
            &&& described.non_bindgen_attrs == plain.non_bindgen_attrs
            &&& described.result_serializer == plain.result_serializer
            &&& described.args == plain.args
            &&& described.input_serializer == plain.input_serializer
            &&& described.receiver == plain.receiver
        }),
    decreases attrs.len(),
{
    reveal_strlit("init");
    reveal_strlit("result_serializer");
    assert(("init")@.len() == 4);
    assert(("result_serializer")@.len() == 17);
    assert(!is_result_serializer_attr(a));
    let s = attrs.insert(k, a);
    attrs.insert_ensures(k, a);
    if k == attrs.len() {
        assert(s =~= attrs.push(a));
        assert(s.drop_last() =~= attrs);
        assert(s.last() == a);
    } else {
        attrs.drop_last().insert_ensures(k, a);
        assert(s.last() == attrs.last());
        assert(s.drop_last() =~= attrs.drop_last().insert(k, a));
        lemma_init_directive(attrs.drop_last(), a, k, sig);
    }
}

/// A result-serializer directive whose payload names a format makes that
/// format the result format of the description; whether the analysis
/// succeeds is unchanged.
pub proof fn lemma_result_serializer_directive(
    attrs: Seq<AttrModel>,
    a: AttrModel,
    sig: SigModel,
    f: SerializerType,
)
    requires
        is_result_serializer_attr(a),
        spec_parse_serializer(a.tokens) == Some(f),
    ensures
        result_format_of(attrs.push(a)) == f,
        attrs_ok(attrs.push(a)) == attrs_ok(attrs),
        analysis_result(attrs.push(a), sig) is Ok <==> analysis_result(attrs, sig) is Ok,
        analysis_result(attrs.push(a), sig) is Ok ==> analysis_result(
            attrs.push(a),
            sig,
        )->Ok_0.result_serializer == f,
{
    assert(attrs.push(a).drop_last() =~= attrs);
    assert(attrs.push(a).last() == a);
}

/// When the only result-serializer directive of a declaration names a
/// format, that format becomes the result format, wherever among the
/// attributes the directive stands.
pub proof fn lemma_sole_result_serializer(
    attrs: Seq<AttrModel>,
    a: AttrModel,
    k: int,
    sig: SigModel,
    f: SerializerType,
)
    requires
        is_result_serializer_attr(a),
        spec_parse_serializer(a.tokens) == Some(f),
        forall|i: int| 0 <= i < attrs.len() ==> !is_result_serializer_attr(#[trigger] attrs[i]),
        0 <= k <= attrs.len(),
    ensures
        result_format_of(attrs.insert(k, a)) == f,
        attrs_ok(attrs.insert(k, a)),
        analysis_result(attrs.insert(k, a), sig) is Ok ==> analysis_result(
            attrs.insert(k, a),
            sig,
        )->Ok_0.result_serializer == f,
    decreases attrs.len(),
{
    let s = attrs.insert(k, a);
    attrs.insert_ensures(k, a);
    if k == attrs.len() {
        assert(s =~= attrs.push(a));
        assert(s.drop_last() =~= attrs);
        assert(s.last() == a);
        lemma_no_rs_attrs_ok(attrs);
    } else {
        attrs.drop_last().insert_ensures(k, a);
        assert(s.last() == attrs.last());
        assert(s.drop_last() =~= attrs.drop_last().insert(k, a));
        assert(!is_result_serializer_attr(attrs[attrs.len() - 1]));
        assert forall|i: int|
            0 <= i < attrs.drop_last().len() implies !is_result_serializer_attr(
            #[trigger] attrs.drop_last()[i],
        ) by {
            assert(attrs.drop_last()[i] == attrs[i]);
        }
        lemma_sole_result_serializer(attrs.drop_last(), a, k, sig, f);
    }
}

/// With no result-serializer directive at all, the attribute list is sound.
proof fn lemma_no_rs_attrs_ok(attrs: Seq<AttrModel>)
    requires
        forall|i: int| 0 <= i < attrs.len() ==> !is_result_serializer_attr(#[trigger] attrs[i]),
    ensures
        attrs_ok(attrs),
    decreases attrs.len(),
{
    if attrs.len() > 0 {
        assert forall|i: int|
            0 <= i < attrs.drop_last().len() implies !is_result_serializer_attr(
            #[trigger] attrs.drop_last()[i],
        ) by {
            assert(attrs.drop_last()[i] == attrs[i]);
        }
        lemma_no_rs_attrs_ok(attrs.drop_last());
        assert(!is_result_serializer_attr(attrs[attrs.len() - 1]));
    }
}

/// A result-serializer directive whose payload does not parse makes the
/// analysis of an otherwise structurally sound declaration fail with a
/// malformed directive.
pub proof fn lemma_malformed_result_serializer_rejects(
    attrs: Seq<AttrModel>,
    a: AttrModel,
    sig: SigModel,
)
    requires
        is_result_serializer_attr(a),
        spec_parse_serializer(a.tokens) is None,
        gate_ok(sig),
    ensures
        analysis_result(attrs.push(a), sig) == Err::<InfoModel, ErrorKind>(
            ErrorKind::MalformedDirective,
        ),
{
    assert(attrs.push(a).last() == a);
    assert(!attrs_ok(attrs.push(a)));
}

/// All regular arguments share a format exactly when each regular argument,
/// taken by its position, uses that format.
pub proof fn lemma_regular_all_iff(args: Seq<ArgModel>, t: SerializerType)
    ensures
        regular_all(args, t) <==> (forall|i: int|
            0 <= i < args.len() ==> ((#[trigger] args[i]).bindgen_ty is Regular
                ==> args[i].serializer_ty == t)),
    decreases args.len(),
{
    if args.len() > 0 {
        lemma_regular_all_iff(args.drop_last(), t);
        assert(args.last() == args[args.len() - 1]);
        if regular_all(args, t) {
            assert forall|i: int|
                0 <= i < args.len() implies ((#[trigger] args[i]).bindgen_ty is Regular ==> args[i].serializer_ty
                == t) by {
                if i < args.len() - 1 {
                    assert(args.drop_last()[i] == args[i]);
                }
            }
        }
        if forall|i: int|
            0 <= i < args.len() ==> ((#[trigger] args[i]).bindgen_ty is Regular
                ==> args[i].serializer_ty == t) {
            assert forall|i: int|
                0 <= i < args.drop_last().len() implies ((#[trigger] args.drop_last()[i]).bindgen_ty
                is Regular ==> args.drop_last()[i].serializer_ty == t) by {
                assert(args.drop_last()[i] == args[i]);
            }
            assert(regular_all(args.drop_last(), t));
            assert(regular_all(args, t));
        }
    }
}

/// When every regular argument uses JSON — vacuously so when there is no
/// regular argument at all — the analysis accepts the declaration (the
/// directives and parameters being sound) and decodes the input with JSON.
pub proof fn lemma_uniform_json_input(attrs: Seq<AttrModel>, sig: SigModel)
    requires
        gate_ok(sig),
        attrs_ok(attrs),
        params_ok(sig.inputs),
        forall|i: int|
            0 <= i < args_of(sig.inputs).len() ==> ((#[trigger] args_of(sig.inputs)[i]).bindgen_ty
                is Regular ==> args_of(sig.inputs)[i].serializer_ty == SerializerType::JSON),
    ensures
        analysis_result(attrs, sig) is Ok,
        analysis_result(attrs, sig)->Ok_0.input_serializer == SerializerType::JSON,
{
    lemma_regular_all_iff(args_of(sig.inputs), SerializerType::JSON);
}

/// When every regular argument uses Borsh and at least one regular argument
/// exists, the analysis accepts the declaration (the directives and
/// parameters being sound) and decodes the input with Borsh.
pub proof fn lemma_uniform_borsh_input(attrs: Seq<AttrModel>, sig: SigModel)
    requires
        gate_ok(sig),
        attrs_ok(attrs),
        params_ok(sig.inputs),
        forall|i: int|
            0 <= i < args_of(sig.inputs).len() ==> ((#[trigger] args_of(sig.inputs)[i]).bindgen_ty
                is Regular ==> args_of(sig.inputs)[i].serializer_ty == SerializerType::Borsh),
        exists|i: int|
            0 <= i < args_of(sig.inputs).len() && (#[trigger] args_of(sig.inputs)[i]).bindgen_ty
                is Regular,
    ensures
        analysis_result(attrs, sig) is Ok,
        analysis_result(attrs, sig)->Ok_0.input_serializer == SerializerType::Borsh,
{
    let args = args_of(sig.inputs);
    lemma_regular_all_iff(args, SerializerType::JSON);
    lemma_regular_all_iff(args, SerializerType::Borsh);
    let w = choose|i: int| 0 <= i < args.len() && (#[trigger] args[i]).bindgen_ty is Regular;
    assert(args[w].serializer_ty == SerializerType::Borsh);
    assert(!regular_all(args, SerializerType::JSON));
}

/// Two regular arguments, one decoded with JSON and one with Borsh, make
/// the analysis of an otherwise sound declaration fail with a serializer
/// format conflict.
pub proof fn lemma_mixed_formats_conflict(
    attrs: Seq<AttrModel>,
    sig: SigModel,
    i: int,
    j: int,
)
    requires
        gate_ok(sig),
        attrs_ok(attrs),
        params_ok(sig.inputs),
        0 <= i < args_of(sig.inputs).len(),
        args_of(sig.inputs)[i].bindgen_ty is Regular,
        args_of(sig.inputs)[i].serializer_ty == SerializerType::JSON,
        0 <= j < args_of(sig.inputs).len(),
        args_of(sig.inputs)[j].bindgen_ty is Regular,
        args_of(sig.inputs)[j].serializer_ty == SerializerType::Borsh,
    ensures
        analysis_result(attrs, sig) == Err::<InfoModel, ErrorKind>(
            ErrorKind::SerializerFormatConflict,
        ),
{
    let args = args_of(sig.inputs);
    lemma_regular_all_iff(args, SerializerType::JSON);
    lemma_regular_all_iff(args, SerializerType::Borsh);
    assert(!regular_all(args, SerializerType::JSON));
    assert(!regular_all(args, SerializerType::Borsh));
}

/// Appending an attribute extends the passthrough attributes at the end
/// when it is not a directive and leaves them unchanged when it is one:
/// passthrough keeps the original order.
pub proof fn lemma_passthrough_step(attrs: Seq<AttrModel>, a: AttrModel)
    ensures
        is_directive(a) ==> passthrough_of(attrs.push(a)) == passthrough_of(attrs),
        !is_directive(a) ==> passthrough_of(attrs.push(a)) == passthrough_of(attrs).push(a),
{
    assert(attrs.push(a).drop_last() =~= attrs);
    assert(attrs.push(a).last() == a);
}

/// The passthrough attributes are exactly the non-directive attributes of
/// the declaration: every one of them is a non-directive attribute, every
/// non-directive attribute is kept, and none is invented.
pub proof fn lemma_passthrough_identity(attrs: Seq<AttrModel>)
    ensures
        passthrough_of(attrs).len() <= attrs.len(),
        forall|i: int|
            0 <= i < passthrough_of(attrs).len() ==> !is_directive(
                #[trigger] passthrough_of(attrs)[i],
            ),
        forall|i: int|
            0 <= i < attrs.len() && !is_directive(#[trigger] attrs[i]) ==> passthrough_of(
                attrs,
            ).contains(attrs[i]),
    decreases attrs.len(),
{
    if attrs.len() > 0 {
        lemma_passthrough_identity(attrs.drop_last());
        let rest = passthrough_of(attrs.drop_last());
        let out = passthrough_of(attrs);
        assert(attrs.last() == attrs[attrs.len() - 1]);
        assert forall|i: int| 0 <= i < out.len() implies !is_directive(out[i]) by {
            if is_directive(attrs.last()) || i < out.len() - 1 {
                assert(out[i] == rest[i]);
            }
        }
        assert forall|i: int|
            0 <= i < attrs.len() && !is_directive(attrs[i]) implies out.contains(attrs[i]) by {
            if i == attrs.len() - 1 {
                assert(out[out.len() - 1] == attrs[i]);
            } else {
                assert(attrs.drop_last()[i] == attrs[i]);
                assert(rest.contains(attrs[i]));
                let k = choose|k: int| 0 <= k < rest.len() && rest[k] == attrs[i];
                assert(out[k] == attrs[i]);
            }
        }
    }
}

/// The described arguments correspond one to one, in declaration order, to
/// the typed parameters of the signature, the receiver excluded: the
/// argument at each position is the classification of the parameter
/// declared at that position.
pub proof fn lemma_argument_order(inputs: Seq<FnArgModel>)
    ensures
        args_of(inputs).len() == typed_params_of(inputs).len(),
        forall|i: int|
            0 <= i < args_of(inputs).len() ==> #[trigger] args_of(inputs)[i] == analyzed(
                typed_params_of(inputs)[i],
            ),
    decreases inputs.len(),
{
    if inputs.len() > 0 {
        lemma_argument_order(inputs.drop_last());
        let ta = typed_params_of(inputs);
        let aa = args_of(inputs);
        let tr = typed_params_of(inputs.drop_last());
        let ar = args_of(inputs.drop_last());
        assert forall|i: int| 0 <= i < aa.len() implies #[trigger] aa[i] == analyzed(ta[i]) by {
            if inputs.last() is Receiver || i < aa.len() - 1 {
                assert(aa[i] == ar[i]);
                assert(ta[i] == tr[i]);
            }
        }
    }
}

} // verus!
