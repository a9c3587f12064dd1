use tryfol::ipc::declaration::{
    call_fields, parse_method, parse_methods, parse_protocol, parse_protocol_args, ProtocolArgs, trait_messages, Arg, ArgPlace, ArgValue, MethodKind, MethodPlace,
    Param, ProtocolItem, Severity, StreamArg, StreamAttr, TraitPlace,
};

fn arg(name: &str, value: ArgValue) -> Arg {
    Arg { name: name.to_string(), value }
}

fn stream_arg(name: &str, ty: &str) -> StreamArg {
    StreamArg { name: name.to_string(), ty: ty.to_string() }
}

#[test]
fn protocol_args_are_read() {
    let args = vec![
        arg("abstract_socket", ArgValue::Text("tryfol".to_string())),
        arg("client_name", ArgValue::Ident("BarClient".to_string())),
    ];
    let (parsed, messages) = parse_protocol_args(&args);
    assert_eq!(parsed.abstract_socket.as_deref(), Some("tryfol"));
    assert_eq!(parsed.client_name.as_deref(), Some("BarClient"));
    assert_eq!(parsed.server_name, None);
    assert!(messages.is_empty());
}

#[test]
fn protocol_args_errors_and_duplicates() {
    let args = vec![
        arg("server_name", ArgValue::Ident("A".to_string())),
        arg("abstract_socket", ArgValue::Ident("x".to_string())),
        arg("color", ArgValue::Other),
        arg("server_name", ArgValue::Text("B".to_string())),
        arg("server_name", ArgValue::Ident("C".to_string())),
    ];
    let (parsed, messages) = parse_protocol_args(&args);
    assert_eq!(parsed.abstract_socket, None);
    assert_eq!(parsed.server_name.as_deref(), Some("C"));
    assert_eq!(messages.len(), 4);
    assert_eq!(messages[0].severity, Severity::Error);
    assert_eq!(messages[0].place, ArgPlace::Value(1));
    assert_eq!(messages[0].text, "abstract_socket must be a string literal");
    assert_eq!(messages[1].place, ArgPlace::Name(2));
    assert_eq!(messages[1].text, "unknown argument: color");
    assert_eq!(messages[2].place, ArgPlace::Value(3));
    assert_eq!(messages[2].text, "server_name must be an identifier");
    assert_eq!(messages[3].severity, Severity::Warning);
    assert_eq!(messages[3].place, ArgPlace::Whole(4));
    assert_eq!(
        messages[3].text,
        "multiple declaration of `server_name`, the latest declaration will shadow previous ones"
    );
    assert_eq!(messages[3].previous, vec![0, 3]);
}

#[test]
fn invalid_later_value_keeps_earlier_one() {
    let args = vec![
        arg("client_name", ArgValue::Ident("First".to_string())),
        arg("client_name", ArgValue::Other),
    ];
    let (parsed, messages) = parse_protocol_args(&args);
    assert_eq!(parsed.client_name.as_deref(), Some("First"));
    assert_eq!(messages.len(), 2);
    assert_eq!(messages[1].previous, vec![0]);
}

#[test]
fn method_kinds() {
    let (kind, messages) = parse_method(&ProtocolItem::Method { is_async: true, stream: None });
    assert!(matches!(kind, Some(MethodKind::Simple)));
    assert!(messages.is_empty());

    let (kind, _) = parse_method(&ProtocolItem::Method { is_async: true, stream: Some(StreamAttr::Bare) });
    assert!(matches!(kind, Some(MethodKind::Streaming { early_error: None })));

    let attr = StreamAttr::Args(vec![stream_arg("early_error", "String"), stream_arg("early_error", "io::Error")]);
    let (kind, messages) = parse_method(&ProtocolItem::Method { is_async: true, stream: Some(attr) });
    assert!(matches!(kind, Some(MethodKind::Streaming { early_error: Some(ref t) }) if t == "io::Error"));
    assert_eq!(messages.len(), 1);
    assert_eq!(messages[0].severity, Severity::Warning);
    assert_eq!(messages[0].place, MethodPlace::Arg(1));
    assert_eq!(messages[0].previous, vec![0]);
}

#[test]
fn method_errors() {
    let attr = StreamAttr::Args(vec![stream_arg("buffer", "u8")]);
    let (kind, messages) = parse_method(&ProtocolItem::Method { is_async: false, stream: Some(attr) });
    assert!(matches!(kind, Some(MethodKind::Streaming { early_error: None })));
    assert_eq!(messages.len(), 2);
    assert_eq!(messages[0].place, MethodPlace::Signature);
    assert_eq!(messages[0].text, "protocol method must be async");
    assert_eq!(messages[1].place, MethodPlace::ArgName(0));
    assert_eq!(messages[1].text, "unknown argument: buffer");

    let attr = StreamAttr::Unparsable("expected `=`".to_string());
    let (_, messages) = parse_method(&ProtocolItem::Method { is_async: true, stream: Some(attr) });
    assert_eq!(messages.len(), 1);
    assert_eq!(messages[0].place, MethodPlace::StreamArgs);
    assert_eq!(messages[0].text, "expected `=`");

    let (kind, messages) = parse_method(&ProtocolItem::Other);
    assert!(kind.is_none());
    assert_eq!(messages[0].text, "unsupported item in protocol");
    assert_eq!(messages[0].note.as_deref(), Some("consider moving this item to a new supertrait"));
}

#[test]
fn trait_errors() {
    let messages = trait_messages(true, false, true, &vec![false, true, false, true]);
    let places: Vec<TraitPlace> = messages.iter().map(|m| m.place).collect();
    assert_eq!(
        places,
        vec![TraitPlace::Unsafety, TraitPlace::Generics, TraitPlace::MethodGenerics(1), TraitPlace::MethodGenerics(3)]
    );
    assert_eq!(messages[0].text, "protocol trait cannot be unsafe");
    assert_eq!(messages[2].text, "protocol methods cannot contain generics or lifetimes");
    assert!(trait_messages(false, false, false, &vec![false]).is_empty());
    assert_eq!(trait_messages(false, true, false, &vec![])[0].text, "protocol trait cannot an auto trait");
}

#[test]
fn call_structure_fields() {
    let params = vec![Param::Receiver, Param::Named("id".to_string()), Param::Pattern, Param::Named("text".to_string())];
    let (fields, patterns) = call_fields("renameCall", &params);
    assert_eq!(
        fields,
        vec![
            ("id".to_string(), "renameCall_id".to_string()),
            ("text".to_string(), "renameCall_text".to_string())
        ]
    );
    assert_eq!(patterns, vec![2]);
}

#[test]
fn method_list_follows_the_items() {
    let items = vec![
        ProtocolItem::Method { is_async: true, stream: None },
        ProtocolItem::Other,
        ProtocolItem::Method { is_async: true, stream: Some(StreamAttr::Bare) },
    ];
    let (methods, messages) = parse_methods(&items);
    assert_eq!(methods.len(), 2);
    assert_eq!(methods[0].0, 0);
    assert!(matches!(methods[0].1, MethodKind::Simple));
    assert_eq!(methods[1].0, 2);
    assert!(matches!(methods[1].1, MethodKind::Streaming { early_error: None }));
    assert_eq!(messages.len(), 3);
    assert!(messages[0].is_empty());
    assert_eq!(messages[1][0].text, "unsupported item in protocol");
}

#[test]
fn protocol_names_and_methods() {
    let args = ProtocolArgs { abstract_socket: None, client_name: Some("Front".to_string()), server_name: None };
    let (names, methods, _) = parse_protocol("Bar", &args, &vec![ProtocolItem::Other]);
    assert_eq!(names.client, "Front");
    assert_eq!(names.server, "BarServer");
    assert_eq!(names.module, "__Bar_inner");
    assert!(methods.is_empty());
}
