use near_bindgen_core::{
    AnalysisError, ArgInfo, AttrSigInfo, Attribute, BindgenArgType, ErrorKind, FnArg, Receiver,
    ReturnType, SerializerType, Signature, TypedParam,
};
use near_bindgen_core::serializer_attr::parse_serializer;

fn attr(path: &str, tokens: &str) -> Attribute {
    Attribute { path: path.to_string(), tokens: tokens.to_string() }
}

fn param(ident: &str, attrs: Vec<Attribute>) -> TypedParam {
    TypedParam { ident: ident.to_string(), attrs }
}

fn plain_sig(ident: &str, inputs: Vec<FnArg>, output: ReturnType) -> Signature {
    Signature {
        ident: ident.to_string(),
        is_async: false,
        has_abi: false,
        has_generics: false,
        is_variadic: false,
        inputs,
        output,
    }
}

fn kind_of(res: Result<AttrSigInfo, AnalysisError>) -> ErrorKind {
    res.err().expect("analysis was expected to fail").kind
}

#[test]
fn async_declaration_is_rejected() {
    let mut sig = plain_sig("m", vec![], ReturnType::Unit);
    sig.is_async = true;
    assert_eq!(kind_of(AttrSigInfo::new(vec![], sig)), ErrorKind::StructuralViolation);
}

#[test]
fn binary_interface_declaration_is_rejected() {
    let mut sig = plain_sig("m", vec![], ReturnType::Unit);
    sig.has_abi = true;
    assert_eq!(kind_of(AttrSigInfo::new(vec![], sig)), ErrorKind::StructuralViolation);
}

#[test]
fn generic_declaration_is_rejected() {
    let mut sig = plain_sig("m", vec![], ReturnType::Unit);
    sig.has_generics = true;
    assert_eq!(kind_of(AttrSigInfo::new(vec![], sig)), ErrorKind::StructuralViolation);
}

#[test]
fn variadic_declaration_is_rejected() {
    let mut sig = plain_sig("m", vec![], ReturnType::Unit);
    sig.is_variadic = true;
    assert_eq!(kind_of(AttrSigInfo::new(vec![], sig)), ErrorKind::StructuralViolation);
}

#[test]
fn no_directives_yields_defaults() {
    let attrs = vec![attr("doc", "(a plain note)")];
    let sig = plain_sig("m", vec![], ReturnType::Unit);
    let info = AttrSigInfo::new(attrs, sig).unwrap();
    assert!(!info.is_init);
    assert_eq!(info.result_serializer, SerializerType::JSON);
    assert_eq!(info.input_serializer, SerializerType::JSON);
}

#[test]
fn init_directive_marks_initializer_and_leaves_the_rest() {
    let attrs = vec![attr("doc", "(one)"), attr("init", ""), attr("inline", "")];
    let sig = plain_sig("new", vec![], ReturnType::Unit);
    let info = AttrSigInfo::new(attrs, sig).unwrap();
    assert!(info.is_init);
    assert_eq!(info.result_serializer, SerializerType::JSON);
    assert_eq!(
        info.non_bindgen_attrs,
        vec![attr("doc", "(one)"), attr("inline", "")]
    );
}

#[test]
fn result_serializer_borsh_overrides_the_default() {
    let attrs = vec![attr("result_serializer", "(borsh)")];
    let sig = plain_sig("m", vec![], ReturnType::Unit);
    let info = AttrSigInfo::new(attrs, sig).unwrap();
    assert_eq!(info.result_serializer, SerializerType::Borsh);
    assert_eq!(info.input_serializer, SerializerType::JSON);
}

#[test]
fn malformed_result_serializer_payload_fails() {
    let attrs = vec![attr("result_serializer", "(base64)")];
    let sig = plain_sig("m", vec![], ReturnType::Unit);
    assert_eq!(kind_of(AttrSigInfo::new(attrs, sig)), ErrorKind::MalformedDirective);
}

#[test]
fn empty_regular_argument_set_defaults_to_json() {
    let sig = plain_sig("m", vec![], ReturnType::Unit);
    let info = AttrSigInfo::new(vec![], sig).unwrap();
    assert_eq!(info.input_serializer, SerializerType::JSON);
    assert!(info.args.is_empty());
    assert!(info.receiver.is_none());
}

#[test]
fn all_json_regular_arguments_decode_with_json() {
    let inputs = vec![
        FnArg::Typed(param("a", vec![])),
        FnArg::Typed(param("b", vec![attr("serializer", "(json)")])),
    ];
    let sig = plain_sig("m", inputs, ReturnType::Unit);
    let info = AttrSigInfo::new(vec![], sig).unwrap();
    assert_eq!(info.input_serializer, SerializerType::JSON);
}

#[test]
fn all_borsh_regular_arguments_decode_with_borsh() {
    let inputs = vec![
        FnArg::Typed(param("a", vec![attr("serializer", "(borsh)")])),
        FnArg::Typed(param("b", vec![attr("serializer", "(borsh)")])),
    ];
    let sig = plain_sig("m", inputs, ReturnType::Unit);
    let info = AttrSigInfo::new(vec![], sig).unwrap();
    assert_eq!(info.input_serializer, SerializerType::Borsh);
}

#[test]
fn mixed_serializer_formats_conflict() {
    let inputs = vec![
        FnArg::Typed(param("a", vec![attr("serializer", "(json)")])),
        FnArg::Typed(param("b", vec![attr("serializer", "(borsh)")])),
    ];
    let sig = plain_sig("m", inputs, ReturnType::Unit);
    assert_eq!(kind_of(AttrSigInfo::new(vec![], sig)), ErrorKind::SerializerFormatConflict);
}

#[test]
fn malformed_parameter_serializer_payload_fails() {
    let inputs = vec![FnArg::Typed(param("a", vec![attr("serializer", "(proto)")]))];
    let sig = plain_sig("m", inputs, ReturnType::Unit);
    assert_eq!(kind_of(AttrSigInfo::new(vec![], sig)), ErrorKind::MalformedParameter);
}

#[test]
fn passthrough_attributes_keep_identity_and_order() {
    let attrs = vec![
        attr("doc", "(first)"),
        attr("init", ""),
        attr("doc", "(second)"),
        attr("result_serializer", "(borsh)"),
        attr("cold", ""),
        attr("doc", "(first)"),
    ];
    let sig = plain_sig("m", vec![], ReturnType::Unit);
    let info = AttrSigInfo::new(attrs, sig).unwrap();
    assert_eq!(
        info.non_bindgen_attrs,
        vec![
            attr("doc", "(first)"),
            attr("doc", "(second)"),
            attr("cold", ""),
            attr("doc", "(first)"),
        ]
    );
}

#[test]
fn argument_order_matches_declaration_order() {
    let inputs = vec![
        FnArg::Typed(param("first", vec![])),
        FnArg::Receiver(Receiver { is_reference: true, is_mutable: false }),
        FnArg::Typed(param("second", vec![attr("callback", "")])),
        FnArg::Typed(param("third", vec![])),
    ];
    let sig = plain_sig("m", inputs, ReturnType::Unit);
    let info = AttrSigInfo::new(vec![], sig).unwrap();
    let idents: Vec<&str> = info.args.iter().map(|a| a.ident.as_str()).collect();
    assert_eq!(idents, vec!["first", "second", "third"]);
}

#[test]
fn input_args_keeps_only_regular_arguments_in_order() {
    let inputs = vec![
        FnArg::Typed(param("a", vec![])),
        FnArg::Typed(param("cb", vec![attr("callback", "")])),
        FnArg::Typed(param("b", vec![])),
    ];
    let sig = plain_sig("m", inputs, ReturnType::Unit);
    let info = AttrSigInfo::new(vec![], sig).unwrap();
    assert_eq!(info.args.len(), 3);
    let regular = info.input_args();
    let idents: Vec<&str> = regular.iter().map(|a| a.ident.as_str()).collect();
    assert_eq!(idents, vec!["a", "b"]);
    assert_eq!(info.args[1].bindgen_ty, BindgenArgType::CallbackArg);
}

#[test]
fn set_method_scenario() {
    let inputs = vec![
        FnArg::Receiver(Receiver { is_reference: true, is_mutable: true }),
        FnArg::Typed(param("key", vec![])),
        FnArg::Typed(param("value", vec![])),
    ];
    let sig = plain_sig("set", inputs, ReturnType::Unit);
    let info = AttrSigInfo::new(vec![], sig).unwrap();
    assert_eq!(info.ident, "set");
    assert_eq!(info.receiver, Some(Receiver { is_reference: true, is_mutable: true }));
    assert_eq!(
        info.args,
        vec![
            ArgInfo {
                ident: "key".to_string(),
                bindgen_ty: BindgenArgType::Regular,
                serializer_ty: SerializerType::JSON,
            },
            ArgInfo {
                ident: "value".to_string(),
                bindgen_ty: BindgenArgType::Regular,
                serializer_ty: SerializerType::JSON,
            },
        ]
    );
    assert_eq!(info.input_serializer, SerializerType::JSON);
    assert_eq!(info.result_serializer, SerializerType::JSON);
    assert!(!info.is_init);
    assert_eq!(info.return_ty, ReturnType::Unit);
}

#[test]
fn init_constructor_scenario() {
    let inputs = vec![FnArg::Typed(param("owner", vec![]))];
    let sig = plain_sig("new", inputs, ReturnType::Declared("Self".to_string()));
    let info = AttrSigInfo::new(vec![attr("init", "")], sig).unwrap();
    assert!(info.is_init);
    assert_eq!(info.input_serializer, SerializerType::JSON);
    assert_eq!(info.return_ty, ReturnType::Declared("Self".to_string()));
    assert!(info.receiver.is_none());
    assert_eq!(info.original_sig.ident, "new");
}

#[test]
fn serializer_payload_parsing_exact_values() {
    assert_eq!(parse_serializer(&"(json)".to_string()), Some(SerializerType::JSON));
    assert_eq!(parse_serializer(&"(borsh)".to_string()), Some(SerializerType::Borsh));
    assert_eq!(parse_serializer(&"borsh".to_string()), None);
    assert_eq!(parse_serializer(&"".to_string()), None);
    assert_eq!(parse_serializer(&"( borsh )".to_string()), None);
}

#[test]
fn parameter_classification_reads_its_attributes() {
    let p = param("ctx", vec![attr("callback", ""), attr("serializer", "(borsh)")]);
    let a = ArgInfo::new(&p).unwrap();
    assert_eq!(a.ident, "ctx");
    assert_eq!(a.bindgen_ty, BindgenArgType::CallbackArg);
    assert_eq!(a.serializer_ty, SerializerType::Borsh);

    let bad = param("x", vec![attr("serializer", "json")]);
    let e = ArgInfo::new(&bad).err().expect("classification was expected to fail");
    assert_eq!(e.kind, ErrorKind::MalformedParameter);
}

#[test]
fn last_result_serializer_directive_wins() {
    let attrs = vec![
        attr("result_serializer", "(borsh)"),
        attr("result_serializer", "(json)"),
    ];
    let sig = plain_sig("m", vec![], ReturnType::Unit);
    let info = AttrSigInfo::new(attrs, sig).unwrap();
    assert_eq!(info.result_serializer, SerializerType::JSON);
}
