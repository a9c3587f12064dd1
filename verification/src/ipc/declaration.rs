//! What a protocol declaration says. The arguments of the `protocol`
//! attribute give the abstract socket and the names of the client and the
//! server, each as its latest valid declaration; each item of the trait is a
//! simple method, a streaming method (marked `stream`, perhaps with the type
//! of an early error), or no method at all; and a malformed declaration gets
//! messages that say what is wrong and where.

use vstd::prelude::*;

use crate::text::{chars_eq_str, chars_of};
use super::protocol::{protocol_names, ProtocolNames};

verus! {

/// The value of an argument `name = value`, as far as the declaration
/// cares.
#[derive(Clone, Debug)]
pub enum ArgValue {
    /// A string literal, with the text it stands for.
    Text(String),
    /// A single identifier.
    Ident(String),
    /// Anything else.
    Other,
}

/// An argument `name = value` of the attribute; `name` is the text of its
/// path.
#[derive(Clone, Debug)]
pub struct Arg {
    pub name: String,
    pub value: ArgValue,
}

/// How grave a message is.
#[derive(Clone, Copy, Debug, PartialEq, Eq, Structural)]
pub enum Severity {
    Error,
    Warning,
}

/// Which part of which argument of the attribute a message points at.
#[derive(Clone, Copy, Debug, PartialEq, Eq, Structural)]
pub enum ArgPlace {
    /// The name of the argument at this index.
    Name(usize),
    /// The value of the argument at this index.
    Value(usize),
    /// The whole argument at this index.
    Whole(usize),
}

/// A message about the declaration, at the place `place`. `previous` are
/// the indices of the earlier arguments it points back to, each with the
/// note "previous declaration here"; `note` is a hint with no place.
#[derive(Clone, Debug)]
pub struct Message<P> {
    pub severity: Severity,
    pub place: P,
    pub text: String,
    pub previous: Vec<usize>,
    pub note: Option<String>,
}

/// What the arguments declare.
#[derive(Clone, Debug)]
pub struct ProtocolArgs {
    pub abstract_socket: Option<String>,
    pub client_name: Option<String>,
    pub server_name: Option<String>,
}

pub open spec fn socket_key() -> Seq<char> {
    "abstract_socket"@
}

pub open spec fn client_key() -> Seq<char> {
    "client_name"@
}

pub open spec fn server_key() -> Seq<char> {
    "server_name"@
}

/// The value that the argument `a` gives the key `key`, if it is of the
/// right form: a string literal for the socket, an identifier for a name.
pub open spec fn accepted(a: Arg, key: Seq<char>) -> Option<Seq<char>> {
    if a.name@ != key {
        None
    } else if key == socket_key() {
        match a.value {
            ArgValue::Text(s) => Some(s@),
            _ => None,
        }
    } else {
        match a.value {
            ArgValue::Ident(s) => Some(s@),
            _ => None,
        }
    }
}

/// The latest value of the right form that the first `n` arguments give the
/// key `key`.
pub open spec fn latest(args: Seq<Arg>, key: Seq<char>, n: int) -> Option<Seq<char>>
    decreases n,
{
    if n <= 0 {
        None
    } else {
        match accepted(args[n - 1], key) {
            Some(v) => Some(v),
            None => latest(args, key, n - 1),
        }
    }
}

/// A message in specifications: its severity, place, text, the earlier
/// arguments it points back to, and its note.
pub type MessageView<P> = (Severity, P, Seq<char>, Seq<usize>, Option<Seq<char>>);

pub open spec fn message_view<P>(m: Message<P>) -> MessageView<P> {
    (m.severity, m.place, m.text@, m.previous@, opt_view(m.note))
}

pub open spec fn messages_view<P>(v: Seq<Message<P>>) -> Seq<MessageView<P>> {
    Seq::new(v.len(), |i: int| message_view(v[i]))
}

/// The error that the argument `a`, at index `i`, gets on its own: a value
/// of the wrong form for a known key, or an unknown key.
pub open spec fn arg_messages(a: Arg, i: usize) -> Seq<MessageView<ArgPlace>> {
    if a.name@ == socket_key() {
        if a.value is Text {
            seq![]
        } else {
            seq![
                (
                    Severity::Error,
                    ArgPlace::Value(i),
                    "abstract_socket must be a string literal"@,
                    seq![],
                    None,
                ),
            ]
        }
    } else if a.name@ == client_key() || a.name@ == server_key() {
        if a.value is Ident {
            seq![]
        } else {
            seq![(Severity::Error, ArgPlace::Value(i), a.name@ + " must be an identifier"@, seq![], None)]
        }
    } else {
        seq![(Severity::Error, ArgPlace::Name(i), "unknown argument: "@ + a.name@, seq![], None)]
    }
}

/// The errors of the first `n` arguments, in order.
pub open spec fn errors_upto(args: Seq<Arg>, n: int) -> Seq<MessageView<ArgPlace>>
    decreases n,
{
    if n <= 0 {
        seq![]
    } else {
        errors_upto(args, n - 1) + arg_messages(args[n - 1], (n - 1) as usize)
    }
}

/// The names of the arguments `args`.
pub open spec fn arg_names(args: Seq<Arg>) -> Seq<Seq<char>> {
    Seq::new(args.len(), |i: int| args[i].name@)
}

/// The indices among the first `n` names of `names` of those equal to `key`.
pub open spec fn positions(names: Seq<Seq<char>>, key: Seq<char>, n: int) -> Seq<usize>
    decreases n,
{
    if n <= 0 {
        seq![]
    } else if names[n - 1] == key {
        positions(names, key, n - 1).push((n - 1) as usize)
    } else {
        positions(names, key, n - 1)
    }
}

/// The text of the warning for `key` declared more than once.
pub open spec fn duplicate_text(key: Seq<char>) -> Seq<char> {
    "multiple declaration of `"@ + key + "`, the latest declaration will shadow previous ones"@
}

/// The warning for a key declared more than once, at the positions `pos`:
/// on the latest declaration, pointing back to the others.
pub open spec fn duplicate_warning(key: Seq<char>, pos: Seq<usize>) -> Seq<MessageView<ArgPlace>> {
    if pos.len() >= 2 {
        seq![(Severity::Warning, ArgPlace::Whole(pos.last()), duplicate_text(key), pos.drop_last(), None)]
    } else {
        seq![]
    }
}

/// The messages that the arguments `args` get: the error of each argument
/// in order, then the warnings for the socket, the client name and the
/// server name declared more than once.
pub open spec fn spec_arg_messages(args: Seq<Arg>) -> Seq<MessageView<ArgPlace>> {
    let n = args.len() as int;
    let names = arg_names(args);
    errors_upto(args, n) + duplicate_warning(socket_key(), positions(names, socket_key(), n))
        + duplicate_warning(client_key(), positions(names, client_key(), n)) + duplicate_warning(
        server_key(),
        positions(names, server_key(), n),
    )
}

pub open spec fn opt_view(o: Option<String>) -> Option<Seq<char>> {
    match o {
        Some(s) => Some(s@),
        None => None,
    }
}

/// For `key` declared at the positions `pos`, more than once: the latest
/// position, the text of the warning, and the earlier positions.
fn duplicate_parts(key: &str, pos: &Vec<usize>) -> (r: Option<(usize, String, Vec<usize>)>)
    ensures
        match r {
            Some((last, text, previous)) => pos@.len() >= 2 && last == pos@.last() && text@
                == duplicate_text(key@) && previous@ == pos@.drop_last(),
            None => pos@.len() < 2,
        },
{
    if pos.len() < 2 {
        return None;
    }
    let last = pos[pos.len() - 1];
    let mut previous: Vec<usize> = Vec::new();
    let mut i: usize = 0;
    while i < pos.len() - 1
        invariant
            pos@.len() >= 2,
            i <= pos@.len() - 1,
            previous@ == pos@.take(i as int),
        decreases pos.len() - 1 - i,
    {
        previous.push(pos[i]);
        assert(previous@ =~= pos@.take(i + 1));
        i = i + 1;
    }
    let mut text = "multiple declaration of `".to_owned();
    text.append(key);
    text.append("`, the latest declaration will shadow previous ones");
    proof {
        reveal_strlit("multiple declaration of `");
        reveal_strlit("`, the latest declaration will shadow previous ones");
    }
    assert(previous@ =~= pos@.drop_last());
    assert(text@ =~= duplicate_text(key@));
    Some((last, text, previous))
}

/// The warning for `key` declared at the positions `pos`.
fn duplicate_message(key: &str, pos: &Vec<usize>) -> (r: Vec<Message<ArgPlace>>)
    ensures
        messages_view(r@) == duplicate_warning(key@, pos@),
{
    let mut r: Vec<Message<ArgPlace>> = Vec::new();
    match duplicate_parts(key, pos) {
        Some((last, text, previous)) => r.push(
            Message { severity: Severity::Warning, place: ArgPlace::Whole(last), text, previous, note: None },
        ),
        None => {},
    }
    assert(messages_view(r@) =~= duplicate_warning(key@, pos@));
    r
}

/// Appends the messages `more` to `out`.
fn append_messages<P>(out: &mut Vec<Message<P>>, more: Vec<Message<P>>)
    ensures
        messages_view(final(out)@) == messages_view(old(out)@) + messages_view(more@),
{
    let ghost start = out@;
    let mut rest = more;
    let ghost all = rest@;
    let ghost mut done: int = 0;
    while rest.len() > 0
        invariant
            0 <= done <= all.len(),
            rest@ == all.skip(done),
            messages_view(out@) == messages_view(start) + messages_view(all.take(done)),
        decreases rest.len(),
    {
        let m = rest.remove(0);
        assert(m == all[done]);
        let ghost before = out@;
        out.push(m);
        proof {
            assert(messages_view(out@) =~= messages_view(before).push(message_view(m)));
            assert(all.take(done + 1) =~= all.take(done).push(m));
            assert(messages_view(all.take(done + 1)) =~= messages_view(all.take(done)).push(
                message_view(m),
            ));
            done = done + 1;
        }
        assert(rest@ =~= all.skip(done));
        assert(messages_view(out@) =~= messages_view(start) + messages_view(all.take(done)));
    }
    assert(all.take(done) =~= all);
}

/// Reads the arguments of the `protocol` attribute: each key keeps its
/// latest declaration of the right form, and the messages are those of
/// [`spec_arg_messages`].
pub fn parse_protocol_args(args: &Vec<Arg>) -> (r: (ProtocolArgs, Vec<Message<ArgPlace>>))
    ensures
        opt_view(r.0.abstract_socket) == latest(args@, socket_key(), args@.len() as int),
        opt_view(r.0.client_name) == latest(args@, client_key(), args@.len() as int),
        opt_view(r.0.server_name) == latest(args@, server_key(), args@.len() as int),
        messages_view(r.1@) == spec_arg_messages(args@),
{
    let mut socket: Option<String> = None;
    let mut client: Option<String> = None;
    let mut server: Option<String> = None;
    let mut socket_pos: Vec<usize> = Vec::new();
    let mut client_pos: Vec<usize> = Vec::new();
    let mut server_pos: Vec<usize> = Vec::new();
    let mut messages: Vec<Message<ArgPlace>> = Vec::new();
    let mut i: usize = 0;
    while i < args.len()
        invariant
            i <= args@.len(),
            opt_view(socket) == latest(args@, socket_key(), i as int),
            opt_view(client) == latest(args@, client_key(), i as int),
            opt_view(server) == latest(args@, server_key(), i as int),
            socket_pos@ == positions(arg_names(args@), socket_key(), i as int),
            client_pos@ == positions(arg_names(args@), client_key(), i as int),
            server_pos@ == positions(arg_names(args@), server_key(), i as int),
            messages_view(messages@) == errors_upto(args@, i as int),
        decreases args.len() - i,
    {
        proof {
            reveal_strlit("abstract_socket");
            reveal_strlit("client_name");
            reveal_strlit("server_name");
            assert(client_key()[0] != server_key()[0]);
        }
        let arg = &args[i];
        let name = chars_of(arg.name.as_str());
        let mut own: Vec<Message<ArgPlace>> = Vec::new();
        if chars_eq_str(name.as_slice(), "abstract_socket") {
            match &arg.value {
                ArgValue::Text(s) => socket = Some(s.clone()),
                _ => own.push(
                    Message {
                        severity: Severity::Error,
                        place: ArgPlace::Value(i),
                        text: "abstract_socket must be a string literal".to_owned(),
                        previous: Vec::new(),
                        note: None,
                    },
                ),
            }
            socket_pos.push(i);
        } else if chars_eq_str(name.as_slice(), "client_name") || chars_eq_str(
            name.as_slice(),
            "server_name",
        ) {
            let is_client = chars_eq_str(name.as_slice(), "client_name");
            match &arg.value {
                ArgValue::Ident(s) => if is_client {
                    client = Some(s.clone());
                } else {
                    server = Some(s.clone());
                },
                _ => {
                    let mut text = arg.name.clone();
                    text.append(" must be an identifier");
                    own.push(
                        Message {
                            severity: Severity::Error,
                            place: ArgPlace::Value(i),
                            text,
                            previous: Vec::new(),
                            note: None,
                        },
                    );
                },
            }
            if is_client {
                client_pos.push(i);
            } else {
                server_pos.push(i);
            }
        } else {
            let mut text = "unknown argument: ".to_owned();
            text.append(arg.name.as_str());
            own.push(
                Message {
                    severity: Severity::Error,
                    place: ArgPlace::Name(i),
                    text,
                    previous: Vec::new(),
                    note: None,
                },
            );
        }
        proof {
            reveal_strlit("abstract_socket must be a string literal");
            reveal_strlit(" must be an identifier");
            reveal_strlit("unknown argument: ");
            assert(messages_view(own@) =~= arg_messages(args@[i as int], i));
        }
        append_messages(&mut messages, own);
        i = i + 1;
    }
    let w = duplicate_message("abstract_socket", &socket_pos);
    append_messages(&mut messages, w);
    let w = duplicate_message("client_name", &client_pos);
    append_messages(&mut messages, w);
    let w = duplicate_message("server_name", &server_pos);
    append_messages(&mut messages, w);
    (ProtocolArgs { abstract_socket: socket, client_name: client, server_name: server }, messages)
}


/// An argument `name = Type` of a `stream` attribute: the text of its path
/// and the text of the type.
#[derive(Clone, Debug)]
pub struct StreamArg {
    pub name: String,
    pub ty: String,
}

/// The first `stream` attribute of a method, as written.
#[derive(Clone, Debug)]
pub enum StreamAttr {
    /// `#[stream]`.
    Bare,
    /// `#[stream(name = Type, ..)]`, with its arguments.
    Args(Vec<StreamArg>),
    /// Arguments that do not parse, with the parser's message.
    Unparsable(String),
}

/// An item of the protocol trait, as far as the declaration cares.
#[derive(Clone, Debug)]
pub enum ProtocolItem {
    /// A method: whether it is `async`, and its first `stream` attribute.
    Method { is_async: bool, stream: Option<StreamAttr> },
    /// Any other item.
    Other,
}

/// How a method of the protocol answers.
#[derive(Clone, Debug)]
pub enum MethodKind {
    /// With one response.
    Simple,
    /// With a stream of responses, which may instead fail at once with an
    /// error of the type `early_error`.
    Streaming { early_error: Option<String> },
}

/// Where in an item a message about it points.
#[derive(Clone, Copy, Debug, PartialEq, Eq, Structural)]
pub enum MethodPlace {
    /// The method's signature.
    Signature,
    /// The whole item.
    Item,
    /// Where the arguments of the `stream` attribute stop parsing.
    StreamArgs,
    /// The name of the argument of the `stream` attribute at this index.
    ArgName(usize),
    /// The whole argument of the `stream` attribute at this index.
    Arg(usize),
}

pub open spec fn early_error_key() -> Seq<char> {
    "early_error"@
}

/// The names of the arguments `v` of a `stream` attribute.
pub open spec fn stream_arg_names(v: Seq<StreamArg>) -> Seq<Seq<char>> {
    Seq::new(v.len(), |i: int| v[i].name@)
}

/// The type of the latest `early_error` among the first `n` arguments `v`.
pub open spec fn latest_early_error(v: Seq<StreamArg>, n: int) -> Option<Seq<char>>
    decreases n,
{
    if n <= 0 {
        None
    } else if v[n - 1].name@ == early_error_key() {
        Some(v[n - 1].ty@)
    } else {
        latest_early_error(v, n - 1)
    }
}

/// A method kind in specifications: whether it streams, and the type of
/// its early error.
pub open spec fn kind_view(k: MethodKind) -> (bool, Option<Seq<char>>) {
    match k {
        MethodKind::Simple => (false, None),
        MethodKind::Streaming { early_error } => (true, opt_view(early_error)),
    }
}

/// The kind of the method that the item `item` declares; none for an item
/// that is no method. A `stream` attribute makes it streaming, with the
/// latest `early_error` type it names.
pub open spec fn spec_method_kind(item: ProtocolItem) -> Option<(bool, Option<Seq<char>>)> {
    match item {
        ProtocolItem::Method { stream, .. } => match stream {
            None => Some((false, None)),
            Some(StreamAttr::Args(v)) => Some((true, latest_early_error(v@, v@.len() as int))),
            Some(_) => Some((true, None)),
        },
        ProtocolItem::Other => None,
    }
}

/// The errors of the first `n` arguments `v` of a `stream` attribute: an
/// argument other than `early_error` is unknown.
pub open spec fn stream_arg_errors(v: Seq<StreamArg>, n: int) -> Seq<MessageView<MethodPlace>>
    decreases n,
{
    if n <= 0 {
        seq![]
    } else if v[n - 1].name@ == early_error_key() {
        stream_arg_errors(v, n - 1)
    } else {
        stream_arg_errors(v, n - 1).push(
            (
                Severity::Error,
                MethodPlace::ArgName((n - 1) as usize),
                "unknown argument: "@ + v[n - 1].name@,
                seq![],
                None,
            ),
        )
    }
}

/// The messages about the `stream` attribute `attr`.
pub open spec fn stream_messages(attr: Option<StreamAttr>) -> Seq<MessageView<MethodPlace>> {
    match attr {
        Some(StreamAttr::Args(v)) => {
            let n = v@.len() as int;
            let pos = positions(stream_arg_names(v@), early_error_key(), n);
            stream_arg_errors(v@, n) + if pos.len() >= 2 {
                seq![
                    (
                        Severity::Warning,
                        MethodPlace::Arg(pos.last()),
                        duplicate_text(early_error_key()),
                        pos.drop_last(),
                        None,
                    ),
                ]
            } else {
                seq![]
            }
        },
        Some(StreamAttr::Unparsable(m)) => seq![(Severity::Error, MethodPlace::StreamArgs, m@, seq![], None)],
        _ => seq![],
    }
}

/// The messages about the item `item`: a method that is not `async`, then
/// what is wrong with its `stream` attribute; an item that is no method.
pub open spec fn spec_method_messages(item: ProtocolItem) -> Seq<MessageView<MethodPlace>> {
    match item {
        ProtocolItem::Method { is_async, stream } => (if is_async {
            seq![]
        } else {
            seq![(Severity::Error, MethodPlace::Signature, "protocol method must be async"@, seq![], None)]
        }) + stream_messages(stream),
        ProtocolItem::Other => seq![
            (
                Severity::Error,
                MethodPlace::Item,
                "unsupported item in protocol"@,
                seq![],
                Some("consider moving this item to a new supertrait"@),
            ),
        ],
    }
}

/// Reads the `stream` attribute of a method: its kind, and the messages.
fn parse_stream_attr(attr: &StreamAttr) -> (r: (Option<String>, Vec<Message<MethodPlace>>))
    ensures
        opt_view(r.0) == match attr {
            StreamAttr::Args(v) => latest_early_error(v@, v@.len() as int),
            _ => None,
        },
        messages_view(r.1@) == stream_messages(Some(*attr)),
{
    let mut messages: Vec<Message<MethodPlace>> = Vec::new();
    match attr {
        StreamAttr::Bare => {
            assert(messages_view(messages@) =~= stream_messages(Some(*attr)));
            (None, messages)
        },
        StreamAttr::Unparsable(m) => {
            messages.push(
                Message {
                    severity: Severity::Error,
                    place: MethodPlace::StreamArgs,
                    text: m.clone(),
                    previous: Vec::new(),
                    note: None,
                },
            );
            assert(messages_view(messages@) =~= stream_messages(Some(*attr)));
            (None, messages)
        },
        StreamAttr::Args(v) => {
            let mut early_error: Option<String> = None;
            let mut pos: Vec<usize> = Vec::new();
            let mut i: usize = 0;
            while i < v.len()
                invariant
                    i <= v@.len(),
                    opt_view(early_error) == latest_early_error(v@, i as int),
                    pos@ == positions(stream_arg_names(v@), early_error_key(), i as int),
                    messages_view(messages@) == stream_arg_errors(v@, i as int),
                decreases v.len() - i,
            {
                let name = chars_of(v[i].name.as_str());
                if chars_eq_str(name.as_slice(), "early_error") {
                    early_error = Some(v[i].ty.clone());
                    pos.push(i);
                } else {
                    let mut text = "unknown argument: ".to_owned();
                    text.append(v[i].name.as_str());
                    let ghost before = messages@;
                    messages.push(
                        Message {
                            severity: Severity::Error,
                            place: MethodPlace::ArgName(i),
                            text,
                            previous: Vec::new(),
                            note: None,
                        },
                    );
                    proof {
                        reveal_strlit("unknown argument: ");
                        assert(messages_view(messages@) =~= messages_view(before).push(
                            message_view(messages@.last()),
                        ));
                    }
                }
                i = i + 1;
            }
            match duplicate_parts("early_error", &pos) {
                Some((last, text, previous)) => {
                    let ghost before = messages@;
                    messages.push(
                        Message {
                            severity: Severity::Warning,
                            place: MethodPlace::Arg(last),
                            text,
                            previous,
                            note: None,
                        },
                    );
                    assert(messages_view(messages@) =~= messages_view(before).push(
                        message_view(messages@.last()),
                    ));
                },
                None => {},
            }
            assert(messages_view(messages@) =~= stream_messages(Some(*attr)));
            (early_error, messages)
        },
    }
}

/// Reads an item of the protocol trait: the kind of the method it declares
/// (none when it is no method), and the messages it gets.
pub fn parse_method(item: &ProtocolItem) -> (r: (Option<MethodKind>, Vec<Message<MethodPlace>>))
    ensures
        match r.0 {
            Some(k) => spec_method_kind(*item) == Some(kind_view(k)),
            None => spec_method_kind(*item) is None,
        },
        messages_view(r.1@) == spec_method_messages(*item),
{
    match item {
        ProtocolItem::Method { is_async, stream } => {
            let mut messages: Vec<Message<MethodPlace>> = Vec::new();
            if !*is_async {
                messages.push(
                    Message {
                        severity: Severity::Error,
                        place: MethodPlace::Signature,
                        text: "protocol method must be async".to_owned(),
                        previous: Vec::new(),
                        note: None,
                    },
                );
            }
            proof {
                reveal_strlit("protocol method must be async");
            }
            match stream {
                None => {
                    assert(messages_view(messages@) =~= spec_method_messages(*item));
                    (Some(MethodKind::Simple), messages)
                },
                Some(attr) => {
                    let (early_error, more) = parse_stream_attr(attr);
                    append_messages(&mut messages, more);
                    assert(messages_view(messages@) =~= spec_method_messages(*item));
                    (Some(MethodKind::Streaming { early_error }), messages)
                },
            }
        },
        ProtocolItem::Other => {
            let mut messages: Vec<Message<MethodPlace>> = Vec::new();
            messages.push(
                Message {
                    severity: Severity::Error,
                    place: MethodPlace::Item,
                    text: "unsupported item in protocol".to_owned(),
                    previous: Vec::new(),
                    note: Some("consider moving this item to a new supertrait".to_owned()),
                },
            );
            proof {
                reveal_strlit("unsupported item in protocol");
                reveal_strlit("consider moving this item to a new supertrait");
            }
            assert(messages_view(messages@) =~= spec_method_messages(*item));
            (None, messages)
        },
    }
}


/// Where in the protocol trait a message about the trait points.
#[derive(Clone, Copy, Debug, PartialEq, Eq, Structural)]
pub enum TraitPlace {
    /// The `unsafe` keyword.
    Unsafety,
    /// The `auto` keyword.
    Auto,
    /// The generics of the trait.
    Generics,
    /// The generics of the method at this index among the methods.
    MethodGenerics(usize),
}

/// The messages about the protocol trait: it cannot be `unsafe` nor an auto
/// trait, nor have generics; nor can its methods, of which
/// `method_generics` says in order whether each has generics.
pub open spec fn spec_trait_messages(
    is_unsafe: bool,
    is_auto: bool,
    has_generics: bool,
    method_generics: Seq<bool>,
) -> Seq<MessageView<TraitPlace>> {
    (if is_unsafe {
        seq![(Severity::Error, TraitPlace::Unsafety, "protocol trait cannot be unsafe"@, seq![], None)]
    } else {
        seq![]
    }) + (if is_auto {
        seq![(Severity::Error, TraitPlace::Auto, "protocol trait cannot an auto trait"@, seq![], None)]
    } else {
        seq![]
    }) + (if has_generics {
        seq![(Severity::Error, TraitPlace::Generics, "protocols cannot have generics yet"@, seq![], None)]
    } else {
        seq![]
    }) + method_generics_errors(method_generics, method_generics.len() as int)
}

/// The errors of the first `n` methods, of which `method_generics` says
/// whether each has generics.
pub open spec fn method_generics_errors(method_generics: Seq<bool>, n: int) -> Seq<MessageView<TraitPlace>>
    decreases n,
{
    if n <= 0 {
        seq![]
    } else if method_generics[n - 1] {
        method_generics_errors(method_generics, n - 1).push(
            (
                Severity::Error,
                TraitPlace::MethodGenerics((n - 1) as usize),
                "protocol methods cannot contain generics or lifetimes"@,
                seq![],
                None,
            ),
        )
    } else {
        method_generics_errors(method_generics, n - 1)
    }
}

fn error_message<P>(place: P, text: &str) -> (r: Message<P>)
    ensures
        message_view(r) == (Severity::Error, place, text@, Seq::<usize>::empty(), None::<Seq<char>>),
{
    let r = Message { severity: Severity::Error, place, text: text.to_owned(), previous: Vec::new(), note: None };
    assert(r.previous@ =~= Seq::<usize>::empty());
    r
}

/// The messages about the protocol trait itself.
pub fn trait_messages(is_unsafe: bool, is_auto: bool, has_generics: bool, method_generics: &Vec<bool>) -> (r: Vec<
    Message<TraitPlace>,
>)
    ensures
        messages_view(r@) == spec_trait_messages(is_unsafe, is_auto, has_generics, method_generics@),
{
    let mut r: Vec<Message<TraitPlace>> = Vec::new();
    if is_unsafe {
        r.push(error_message(TraitPlace::Unsafety, "protocol trait cannot be unsafe"));
    }
    if is_auto {
        r.push(error_message(TraitPlace::Auto, "protocol trait cannot an auto trait"));
    }
    if has_generics {
        r.push(error_message(TraitPlace::Generics, "protocols cannot have generics yet"));
    }
    let ghost head = messages_view(r@);
    assert(head =~= spec_trait_messages(is_unsafe, is_auto, has_generics, seq![]));
    let mut i: usize = 0;
    while i < method_generics.len()
        invariant
            i <= method_generics@.len(),
            messages_view(r@) == head + method_generics_errors(method_generics@, i as int),
        decreases method_generics.len() - i,
    {
        if method_generics[i] {
            let ghost before = r@;
            r.push(error_message(TraitPlace::MethodGenerics(i), "protocol methods cannot contain generics or lifetimes"));
            assert(messages_view(r@) =~= messages_view(before).push(message_view(r@.last())));
        }
        i = i + 1;
    }
    proof {
        reveal_strlit("protocol trait cannot be unsafe");
        reveal_strlit("protocol trait cannot an auto trait");
        reveal_strlit("protocols cannot have generics yet");
        reveal_strlit("protocol methods cannot contain generics or lifetimes");
    }
    assert(messages_view(r@) =~= spec_trait_messages(is_unsafe, is_auto, has_generics, method_generics@));
    r
}

/// A parameter of a protocol method, as far as the call structure cares.
#[derive(Clone, Debug)]
pub enum Param {
    /// The receiver, `&self`.
    Receiver,
    /// A parameter bound to a plain identifier.
    Named(String),
    /// A parameter bound to another pattern.
    Pattern,
}

/// The field name and generic type name that the parameter `p` of the
/// method whose call structure is `call` gets in that structure: the
/// receiver gets none, and neither does a pattern, which is an error.
pub open spec fn spec_call_field(call: Seq<char>, p: Param) -> Option<(Seq<char>, Seq<char>)> {
    match p {
        Param::Named(name) => Some((name@, call + "_"@ + name@)),
        _ => None,
    }
}

/// The fields of the call structure named `call` for the first `n`
/// parameters `params`.
pub open spec fn spec_call_fields(call: Seq<char>, params: Seq<Param>, n: int) -> Seq<(Seq<char>, Seq<char>)>
    decreases n,
{
    if n <= 0 {
        seq![]
    } else {
        match spec_call_field(call, params[n - 1]) {
            Some(f) => spec_call_fields(call, params, n - 1).push(f),
            None => spec_call_fields(call, params, n - 1),
        }
    }
}

/// The indices of the parameters among the first `n` that are patterns.
pub open spec fn pattern_params(params: Seq<Param>, n: int) -> Seq<usize>
    decreases n,
{
    if n <= 0 {
        seq![]
    } else if params[n - 1] is Pattern {
        pattern_params(params, n - 1).push((n - 1) as usize)
    } else {
        pattern_params(params, n - 1)
    }
}

pub open spec fn field_views(v: Seq<(String, String)>) -> Seq<(Seq<char>, Seq<char>)> {
    Seq::new(v.len(), |i: int| (v[i].0@, v[i].1@))
}

/// The fields of the call structure named `call` of a method with the
/// parameters `params`: each parameter bound to an identifier gives a field
/// of that name, whose type is the generic `<call>_<name>`. The second part
/// holds the indices of the parameters bound to other patterns, which only
/// simple identifiers may be.
pub fn call_fields(call: &str, params: &Vec<Param>) -> (r: (Vec<(String, String)>, Vec<usize>))
    ensures
        field_views(r.0@) == spec_call_fields(call@, params@, params@.len() as int),
        r.1@ == pattern_params(params@, params@.len() as int),
{
    let mut fields: Vec<(String, String)> = Vec::new();
    let mut patterns: Vec<usize> = Vec::new();
    let mut i: usize = 0;
    while i < params.len()
        invariant
            i <= params@.len(),
            field_views(fields@) == spec_call_fields(call@, params@, i as int),
            patterns@ == pattern_params(params@, i as int),
        decreases params.len() - i,
    {
        match &params[i] {
            Param::Named(name) => {
                let mut generic = call.to_owned();
                generic.append("_");
                generic.append(name.as_str());
                proof {
                    reveal_strlit("_");
                }
                let ghost before = fields@;
                fields.push((name.clone(), generic));
                assert(field_views(fields@) =~= field_views(before).push(
                    (fields@.last().0@, fields@.last().1@),
                ));
            },
            Param::Pattern => {
                patterns.push(i);
            },
            Param::Receiver => {},
        }
        i = i + 1;
    }
    (fields, patterns)
}


/// The methods that the first `n` items `items` of the protocol trait
/// declare, in order: for each item that is a method, its index among the
/// items and its kind; the other items are left out.
pub open spec fn spec_methods(items: Seq<ProtocolItem>, n: int) -> Seq<(usize, (bool, Option<Seq<char>>))>
    decreases n,
{
    if n <= 0 {
        seq![]
    } else {
        match spec_method_kind(items[n - 1]) {
            Some(k) => spec_methods(items, n - 1).push(((n - 1) as usize, k)),
            None => spec_methods(items, n - 1),
        }
    }
}

/// The methods read, in specifications.
pub open spec fn methods_view(v: Seq<(usize, MethodKind)>) -> Seq<(usize, (bool, Option<Seq<char>>))> {
    Seq::new(v.len(), |i: int| (v[i].0, kind_view(v[i].1)))
}

/// Reads the items `items` of the protocol trait: the list of its methods,
/// one for each item that is a method, in the order of the items, each with
/// the index of its item and its kind; and, for each item in order, the
/// messages it gets (an item that is no method is left out of the list with
/// an error).
pub fn parse_methods(items: &Vec<ProtocolItem>) -> (r: (Vec<(usize, MethodKind)>, Vec<Vec<Message<MethodPlace>>>))
    ensures
        methods_view(r.0@) == spec_methods(items@, items@.len() as int),
        r.1@.len() == items@.len(),
        forall|i: int|
            0 <= i < items@.len() ==> messages_view(#[trigger] r.1@[i]@) == spec_method_messages(
                items@[i],
            ),
{
    let mut methods: Vec<(usize, MethodKind)> = Vec::new();
    let mut messages: Vec<Vec<Message<MethodPlace>>> = Vec::new();
    let mut i: usize = 0;
    while i < items.len()
        invariant
            i <= items@.len(),
            methods_view(methods@) == spec_methods(items@, i as int),
            messages@.len() == i,
            forall|k: int|
                0 <= k < i ==> messages_view(#[trigger] messages@[k]@) == spec_method_messages(
                    items@[k],
                ),
        decreases items.len() - i,
    {
        let (kind, own) = parse_method(&items[i]);
        match kind {
            Some(k) => {
                let ghost before = methods@;
                methods.push((i, k));
                assert(methods_view(methods@) =~= methods_view(before).push((i, kind_view(k))));
            },
            None => {},
        }
        messages.push(own);
        i = i + 1;
    }
    (methods, messages)
}


/// Reads a protocol declaration: the trait named `base`, with the
/// arguments `args` of its attribute and its items `items`. The client and
/// the server are named as the arguments say, else `<base>Client` and
/// `<base>Server`; the module is `__<base>_inner`; the methods and the
/// messages of the items are those of [`parse_methods`].
pub fn parse_protocol(base: &str, args: &ProtocolArgs, items: &Vec<ProtocolItem>) -> (r: (
    ProtocolNames,
    Vec<(usize, MethodKind)>,
    Vec<Vec<Message<MethodPlace>>>,
))
    ensures
        r.0.client@ == match opt_view(args.client_name) {
            Some(g) => g,
            None => base@ + "Client"@,
        },
        r.0.server@ == match opt_view(args.server_name) {
            Some(g) => g,
            None => base@ + "Server"@,
        },
        r.0.module@ == "__"@ + base@ + "_inner"@,
        methods_view(r.1@) == spec_methods(items@, items@.len() as int),
        r.2@.len() == items@.len(),
        forall|i: int|
            0 <= i < items@.len() ==> messages_view(#[trigger] r.2@[i]@) == spec_method_messages(
                items@[i],
            ),
{
    let client = match &args.client_name {
        Some(c) => Some(c.as_str()),
        None => None,
    };
    let server = match &args.server_name {
        Some(c) => Some(c.as_str()),
        None => None,
    };
    let names = protocol_names(base, client, server);
    let (methods, messages) = parse_methods(items);
    (names, methods, messages)
}

} // verus!
