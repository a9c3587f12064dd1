//! The events of the compositor's event socket, in the form that carries a
//! whole [`Workspace`] for the workspace events, and the splitting of the
//! socket's byte stream into event lines.

use vstd::prelude::*;

use super::names::{event_name, lemma_event_name_chars, spec_event_name, EventName};
use super::{spec_window_address, spec_workspace_from_raw, ParseError, WindowAddress, Workspace};
use vstd::utf8::{decode_utf8, encode_utf8, valid_utf8};

use crate::text::{extend_bytes, lemma_decode_utf8_concat, lemma_split_once_pair, lemma_rfind_char, lemma_rfind_char_concat, lemma_split_concat, rfind_char, rfind_char_exec, split, split_positions, string_from_utf8, chars_of, split_once, split_tail_at_char, split_tail_once, slice_of, substring};

verus! {

/// An event announced on the compositor's event socket.
/// `S` is the type of the texts: `String`, or `Seq<char>` in specifications.
#[derive(Clone, Debug)]
pub enum Event<S = String> {
    Workspace { name: S },
    WorkspaceV2(Workspace<S>),
    FocusedMonitor,
    ActiveWindow { class: S, title: S },
    ActiveWindowV2,
    Fullscreen,
    MonitorRemoved,
    MonitorAdded,
    MonitorAddedV2,
    CreateWorkspace,
    CreateWorkspaceV2(Workspace<S>),
    DestroyWorkspace,
    DestroyWorkspaceV2(Workspace<S>),
    MoveWorkspace,
    MoveWorkspaceV2,
    RenameWorkspace,
    ActiveSpecial,
    ActiveLayout,
    OpenWindow { address: WindowAddress, class: S, title: S, workspace_name: S },
    CloseWindow,
    MoveWindow,
    MoveWindowV2,
    OpenLayer,
    CloseLayer,
    Submap,
    ChangeFloatingMode,
    Urgent,
    Minimize,
    Screencast,
    WindowTitle,
    ToggleGroup,
    MoveIntoGroup,
    MoveOutOfGroup,
    IgnoreGroupLock,
    LockGroups,
    ConfigReloaded,
    Pin,
}

impl View for Event {
    type V = Event<Seq<char>>;

    open spec fn view(&self) -> Event<Seq<char>> {
        match self {
            Event::Workspace { name } => Event::Workspace { name: name@ },
            Event::WorkspaceV2(w) => Event::WorkspaceV2(w@),
            Event::FocusedMonitor => Event::FocusedMonitor,
            Event::ActiveWindow { class, title } => Event::ActiveWindow { class: class@, title: title@ },
            Event::ActiveWindowV2 => Event::ActiveWindowV2,
            Event::Fullscreen => Event::Fullscreen,
            Event::MonitorRemoved => Event::MonitorRemoved,
            Event::MonitorAdded => Event::MonitorAdded,
            Event::MonitorAddedV2 => Event::MonitorAddedV2,
            Event::CreateWorkspace => Event::CreateWorkspace,
            Event::CreateWorkspaceV2(w) => Event::CreateWorkspaceV2(w@),
            Event::DestroyWorkspace => Event::DestroyWorkspace,
            Event::DestroyWorkspaceV2(w) => Event::DestroyWorkspaceV2(w@),
            Event::MoveWorkspace => Event::MoveWorkspace,
            Event::MoveWorkspaceV2 => Event::MoveWorkspaceV2,
            Event::RenameWorkspace => Event::RenameWorkspace,
            Event::ActiveSpecial => Event::ActiveSpecial,
            Event::ActiveLayout => Event::ActiveLayout,
            Event::OpenWindow { address, class, title, workspace_name } => Event::OpenWindow { address: *address, class: class@, title: title@, workspace_name: workspace_name@ },
            Event::CloseWindow => Event::CloseWindow,
            Event::MoveWindow => Event::MoveWindow,
            Event::MoveWindowV2 => Event::MoveWindowV2,
            Event::OpenLayer => Event::OpenLayer,
            Event::CloseLayer => Event::CloseLayer,
            Event::Submap => Event::Submap,
            Event::ChangeFloatingMode => Event::ChangeFloatingMode,
            Event::Urgent => Event::Urgent,
            Event::Minimize => Event::Minimize,
            Event::Screencast => Event::Screencast,
            Event::WindowTitle => Event::WindowTitle,
            Event::ToggleGroup => Event::ToggleGroup,
            Event::MoveIntoGroup => Event::MoveIntoGroup,
            Event::MoveOutOfGroup => Event::MoveOutOfGroup,
            Event::IgnoreGroupLock => Event::IgnoreGroupLock,
            Event::LockGroups => Event::LockGroups,
            Event::ConfigReloaded => Event::ConfigReloaded,
            Event::Pin => Event::Pin,
        }
    }
}

/// The workspace that the arguments `id,name` describe.
pub open spec fn spec_parse_full_workspace(arguments: Seq<char>) -> Result<
    Workspace<Seq<char>>,
    ParseError,
> {
    match split_once(arguments, seq![',']) {
        Some((id, name)) => spec_workspace_from_raw(id, name),
        None => Err(ParseError::MalformedArguments),
    }
}

/// The `openwindow` event that the arguments `address,workspace,class,title`
/// describe; the title is all that follows the third `,`.
pub open spec fn spec_open_window(arguments: Seq<char>) -> Result<Event<Seq<char>>, ParseError> {
    match split_once(arguments, seq![',']) {
        None => Err(ParseError::MalformedArguments),
        Some((address, r1)) => match split_once(r1, seq![',']) {
            None => Err(ParseError::MalformedArguments),
            Some((workspace_name, r2)) => match split_once(r2, seq![',']) {
                None => Err(ParseError::MalformedArguments),
                Some((class, title)) => match spec_window_address(address) {
                    Ok(address) => Ok(Event::OpenWindow { address, class, title, workspace_name }),
                    Err(e) => Err(e),
                },
            },
        },
    }
}

/// The event of kind `name` with the arguments `arguments`.
pub open spec fn spec_event_of(name: EventName, arguments: Seq<char>) -> Result<
    Event<Seq<char>>,
    ParseError,
> {
    match name {
        EventName::Workspace => Ok(Event::Workspace { name: arguments }),
        EventName::WorkspaceV2 => match spec_parse_full_workspace(arguments) {
            Ok(w) => Ok(Event::WorkspaceV2(w)),
            Err(e) => Err(e),
        },
        EventName::FocusedMonitor => Ok(Event::FocusedMonitor),
        EventName::ActiveWindow => match split_once(arguments, seq![',']) {
            Some((class, title)) => Ok(Event::ActiveWindow { class, title }),
            None => Err(ParseError::MalformedArguments),
        },
        EventName::ActiveWindowV2 => Ok(Event::ActiveWindowV2),
        EventName::Fullscreen => Ok(Event::Fullscreen),
        EventName::MonitorRemoved => Ok(Event::MonitorRemoved),
        EventName::MonitorAdded => Ok(Event::MonitorAdded),
        EventName::MonitorAddedV2 => Ok(Event::MonitorAddedV2),
        EventName::CreateWorkspace => Ok(Event::CreateWorkspace),
        EventName::CreateWorkspaceV2 => match spec_parse_full_workspace(arguments) {
            Ok(w) => Ok(Event::CreateWorkspaceV2(w)),
            Err(e) => Err(e),
        },
        EventName::DestroyWorkspace => Ok(Event::DestroyWorkspace),
        EventName::DestroyWorkspaceV2 => match spec_parse_full_workspace(arguments) {
            Ok(w) => Ok(Event::DestroyWorkspaceV2(w)),
            Err(e) => Err(e),
        },
        EventName::MoveWorkspace => Ok(Event::MoveWorkspace),
        EventName::MoveWorkspaceV2 => Ok(Event::MoveWorkspaceV2),
        EventName::RenameWorkspace => Ok(Event::RenameWorkspace),
        EventName::ActiveSpecial => Ok(Event::ActiveSpecial),
        EventName::ActiveLayout => Ok(Event::ActiveLayout),
        EventName::OpenWindow => spec_open_window(arguments),
        EventName::CloseWindow => Ok(Event::CloseWindow),
        EventName::MoveWindow => Ok(Event::MoveWindow),
        EventName::MoveWindowV2 => Ok(Event::MoveWindowV2),
        EventName::OpenLayer => Ok(Event::OpenLayer),
        EventName::CloseLayer => Ok(Event::CloseLayer),
        EventName::Submap => Ok(Event::Submap),
        EventName::ChangeFloatingMode => Ok(Event::ChangeFloatingMode),
        EventName::Urgent => Ok(Event::Urgent),
        EventName::Minimize => Ok(Event::Minimize),
        EventName::Screencast => Ok(Event::Screencast),
        EventName::WindowTitle => Ok(Event::WindowTitle),
        EventName::ToggleGroup => Ok(Event::ToggleGroup),
        EventName::MoveIntoGroup => Ok(Event::MoveIntoGroup),
        EventName::MoveOutOfGroup => Ok(Event::MoveOutOfGroup),
        EventName::IgnoreGroupLock => Ok(Event::IgnoreGroupLock),
        EventName::LockGroups => Ok(Event::LockGroups),
        EventName::ConfigReloaded => Ok(Event::ConfigReloaded),
        EventName::Pin => Ok(Event::Pin),
    }
}

/// The event that the line `s` announces: `name>>arguments`.
pub open spec fn spec_event_from(s: Seq<char>) -> Result<Event<Seq<char>>, ParseError> {
    match split_once(s, seq!['>', '>']) {
        None => Err(ParseError::MalformedEvent),
        Some((name, arguments)) => match spec_event_name(name) {
            None => Err(ParseError::UnknownEvent),
            Some(k) => spec_event_of(k, arguments),
        },
    }
}

/// Whether the events named `k` take no arguments: all but the workspace,
/// active window and window opening events, and the workspace events of the
/// second form.
pub open spec fn takes_no_arguments(k: EventName) -> bool {
    !(k is Workspace || k is WorkspaceV2 || k is ActiveWindow || k is CreateWorkspaceV2
        || k is DestroyWorkspaceV2 || k is OpenWindow)
}

/// Law: the line of an event that takes no arguments gives that event
/// whatever follows the `>>`: `closewindow>>80a6c0` and `closewindow>>`
/// both give `CloseWindow`.
pub proof fn law_fieldless_events(name: Seq<char>, arguments: Seq<char>)
    requires
        spec_event_name(name) matches Some(k) && takes_no_arguments(k),
    ensures
        spec_event_from(name + seq!['>', '>'] + arguments) == spec_event_from(name + seq!['>', '>']),
        spec_event_from(name + seq!['>', '>'] + arguments) is Ok,
{
    lemma_event_name_chars(name);
    lemma_split_once_pair(name, '>', arguments);
    lemma_split_once_pair(name, '>', seq![]);
    assert(name + seq!['>', '>'] + Seq::<char>::empty() =~= name + seq!['>', '>']);
}

impl Event {
    /// Reads an event line `name>>arguments` of the compositor's event socket.
    pub fn from(string: &str) -> (r: Result<Self, ParseError>)
        ensures
            match spec_event_from(string@) {
                Ok(e) => r matches Ok(x) && x@ == e,
                Err(e) => r == Err::<Self, ParseError>(e),
            },
    {
        let chars = chars_of(string);
        let s = chars.as_slice();
        let sep: [char; 2] = ['>', '>'];
        assert(sep@ =~= seq!['>', '>']);
        assert(s@.skip(0) =~= s@);
        let i = match split_tail_once(s, 0, sep.as_slice()) {
            Some(i) => i,
            None => return Err(ParseError::MalformedEvent),
        };
        let name = slice_of(s, 0, i);
        let kind = match event_name(name) {
            Some(k) => k,
            None => return Err(ParseError::UnknownEvent),
        };
        let a = i + 2;
        match kind {
            EventName::Workspace => Ok(Event::Workspace { name: substring(string, a, s.len()) }),
            EventName::WorkspaceV2 => match Self::parse_full_workspace(string, s, a) {
                Ok(w) => Ok(Event::WorkspaceV2(w)),
                Err(e) => Err(e),
            },
            EventName::FocusedMonitor => Ok(Event::FocusedMonitor),
            EventName::ActiveWindow => match split_tail_at_char(s, a, ',') {
                Some(j) => Ok(
                    Event::ActiveWindow {
                        class: substring(string, a, j),
                        title: substring(string, j + 1, s.len()),
                    },
                ),
                None => Err(ParseError::MalformedArguments),
            },
            EventName::ActiveWindowV2 => Ok(Event::ActiveWindowV2),
            EventName::Fullscreen => Ok(Event::Fullscreen),
            EventName::MonitorRemoved => Ok(Event::MonitorRemoved),
            EventName::MonitorAdded => Ok(Event::MonitorAdded),
            EventName::MonitorAddedV2 => Ok(Event::MonitorAddedV2),
            EventName::CreateWorkspace => Ok(Event::CreateWorkspace),
            EventName::CreateWorkspaceV2 => match Self::parse_full_workspace(string, s, a) {
                Ok(w) => Ok(Event::CreateWorkspaceV2(w)),
                Err(e) => Err(e),
            },
            EventName::DestroyWorkspace => Ok(Event::DestroyWorkspace),
            EventName::DestroyWorkspaceV2 => match Self::parse_full_workspace(string, s, a) {
                Ok(w) => Ok(Event::DestroyWorkspaceV2(w)),
                Err(e) => Err(e),
            },
            EventName::MoveWorkspace => Ok(Event::MoveWorkspace),
            EventName::MoveWorkspaceV2 => Ok(Event::MoveWorkspaceV2),
            EventName::RenameWorkspace => Ok(Event::RenameWorkspace),
            EventName::ActiveSpecial => Ok(Event::ActiveSpecial),
            EventName::ActiveLayout => Ok(Event::ActiveLayout),
            EventName::OpenWindow => Self::parse_open_window(string, s, a),
            EventName::CloseWindow => Ok(Event::CloseWindow),
            EventName::MoveWindow => Ok(Event::MoveWindow),
            EventName::MoveWindowV2 => Ok(Event::MoveWindowV2),
            EventName::OpenLayer => Ok(Event::OpenLayer),
            EventName::CloseLayer => Ok(Event::CloseLayer),
            EventName::Submap => Ok(Event::Submap),
            EventName::ChangeFloatingMode => Ok(Event::ChangeFloatingMode),
            EventName::Urgent => Ok(Event::Urgent),
            EventName::Minimize => Ok(Event::Minimize),
            EventName::Screencast => Ok(Event::Screencast),
            EventName::WindowTitle => Ok(Event::WindowTitle),
            EventName::ToggleGroup => Ok(Event::ToggleGroup),
            EventName::MoveIntoGroup => Ok(Event::MoveIntoGroup),
            EventName::MoveOutOfGroup => Ok(Event::MoveOutOfGroup),
            EventName::IgnoreGroupLock => Ok(Event::IgnoreGroupLock),
            EventName::LockGroups => Ok(Event::LockGroups),
            EventName::ConfigReloaded => Ok(Event::ConfigReloaded),
            EventName::Pin => Ok(Event::Pin),
        }
    }

    /// Reads the arguments `id,name` of a workspace event, which start at
    /// position `a` of `string`, whose characters are `s`.
    fn parse_full_workspace(string: &str, s: &[char], a: usize) -> (r: Result<Workspace, ParseError>)
        requires
            s@ == string@,
            a <= s@.len(),
        ensures
            match spec_parse_full_workspace(string@.skip(a as int)) {
                Ok(w) => r matches Ok(x) && x@ == w,
                Err(e) => r == Err::<Workspace, ParseError>(e),
            },
    {
        match split_tail_at_char(s, a, ',') {
            Some(j) => Workspace::from_chars(slice_of(s, a, j), substring(string, j + 1, s.len())),
            None => Err(ParseError::MalformedArguments),
        }
    }

    /// Reads the arguments `address,workspace,class,title` of an `openwindow`
    /// event, which start at position `a` of `string`, whose characters are `s`.
    fn parse_open_window(string: &str, s: &[char], a: usize) -> (r: Result<Self, ParseError>)
        requires
            s@ == string@,
            a <= s@.len(),
        ensures
            match spec_open_window(string@.skip(a as int)) {
                Ok(e) => r matches Ok(x) && x@ == e,
                Err(e) => r == Err::<Self, ParseError>(e),
            },
    {
        let j1 = match split_tail_at_char(s, a, ',') {
            Some(j) => j,
            None => return Err(ParseError::MalformedArguments),
        };
        let j2 = match split_tail_at_char(s, j1 + 1, ',') {
            Some(j) => j,
            None => return Err(ParseError::MalformedArguments),
        };
        let j3 = match split_tail_at_char(s, j2 + 1, ',') {
            Some(j) => j,
            None => return Err(ParseError::MalformedArguments),
        };
        let address = match WindowAddress::from_chars(slice_of(s, a, j1)) {
            Ok(x) => x,
            Err(e) => return Err(e),
        };
        Ok(
            Event::OpenWindow {
                address,
                class: substring(string, j2 + 1, j3),
                title: substring(string, j3 + 1, s.len()),
                workspace_name: substring(string, j1 + 1, j2),
            },
        )
    }
}

/// Why the bytes received from the event socket could not be read.
#[derive(Clone, Copy, Debug, PartialEq, Eq, Structural)]
pub enum StreamError {
    /// The received bytes are not UTF-8.
    InvalidUtf8,
}

/// Whether `r` is what the specification `s` of a parse gives.
pub open spec fn event_result_matches(
    r: Result<Event, ParseError>,
    s: Result<Event<Seq<char>>, ParseError>,
) -> bool {
    match s {
        Ok(e) => r matches Ok(x) && x@ == e,
        Err(e) => r == Err::<Event, ParseError>(e),
    }
}

/// The complete lines of the received text `text` (those ended by a
/// `\n`), and the incomplete rest that waits for more bytes.
pub open spec fn spec_complete_lines(text: Seq<char>) -> (Seq<Seq<char>>, Seq<char>) {
    match rfind_char(text, '\n') {
        None => (seq![], text),
        Some(i) => (
            if i == 0 {
                seq![]
            } else {
                split(text.take(i), '\n')
            },
            text.skip(i + 1),
        ),
    }
}

/// The complete lines that `drain_events` reads from the received bytes
/// `data`, when they are valid UTF-8.
pub open spec fn drained_lines(data: Seq<u8>) -> Seq<Seq<char>> {
    spec_complete_lines(decode_utf8(data)).0
}

/// The bytes of the incomplete last line that `drain_events` keeps of the
/// received bytes `data`, when they are valid UTF-8.
pub open spec fn kept_bytes(data: Seq<u8>) -> Seq<u8> {
    encode_utf8(spec_complete_lines(decode_utf8(data)).1)
}

/// Whether the only complete line of `data` is an empty one, which
/// `drain_events` does not report.
pub open spec fn lone_empty_line(data: Seq<u8>) -> bool {
    rfind_char(decode_utf8(data), '\n') == Some(0int)
}

/// Reads the events whose lines are complete in the bytes `data` received
/// from the event socket, and keeps in `data` the bytes of the incomplete
/// last line. Bytes that are not UTF-8 are dropped with an error.
pub fn drain_events(data: &mut Vec<u8>) -> (r: Result<Vec<Result<Event, ParseError>>, StreamError>)
    ensures
        !valid_utf8(old(data)@) ==> r == Err::<Vec<Result<Event, ParseError>>, StreamError>(
            StreamError::InvalidUtf8,
        ) && final(data)@ == Seq::<u8>::empty(),
        valid_utf8(old(data)@) ==> {
            let lines = drained_lines(old(data)@);
            &&& r matches Ok(events)
            &&& final(data)@ == kept_bytes(old(data)@)
            &&& events@.len() == lines.len()
            &&& forall|k: int|
                0 <= k < lines.len() ==> event_result_matches(
                    #[trigger] events@[k],
                    spec_event_from(lines[k]),
                )
        },
{
    let mut copy: Vec<u8> = Vec::new();
    extend_bytes(&mut copy, data.as_slice());
    assert(copy@ =~= data@);
    let text = match string_from_utf8(copy) {
        Some(t) => t,
        None => {
            data.clear();
            return Err(StreamError::InvalidUtf8);
        },
    };
    let ghost old_data = data@;
    let text = text.as_str();
    let chars = chars_of(text);
    let s = chars.as_slice();
    match rfind_char_exec(s, '\n') {
        None => {
            proof {
                vstd::utf8::decode_utf8_encode_utf8(old_data);
            }
            Ok(Vec::new())
        },
        Some(i) => {
            proof {
                crate::text::lemma_rfind_char(s@, '\n');
            }
            let end = substring(text, i + 1, s.len());
            let mut events: Vec<Result<Event, ParseError>> = Vec::new();
            let ghost lines = spec_complete_lines(s@).0;
            if i > 0 {
                let head = slice_of(s, 0, i);
                assert(head@ =~= s@.take(i as int));
                let pieces = split_positions(head, '\n');
                let mut k: usize = 0;
                while k < pieces.len()
                    invariant
                        k <= pieces@.len(),
                        pieces@.len() == lines.len(),
                        s@ == text@,
                        head@ == s@.take(i as int),
                        i < s@.len(),
                        lines == split(head@, '\n'),
                        forall|m: int|
                            0 <= m < pieces@.len() ==> #[trigger] pieces@[m].0 <= pieces@[m].1
                                <= head@.len(),
                        forall|m: int|
                            0 <= m < pieces@.len() ==> head@.subrange(
                                pieces@[m].0 as int,
                                pieces@[m].1 as int,
                            ) == #[trigger] split(head@, '\n')[m],
                        events@.len() == k,
                        forall|m: int|
                            0 <= m < k ==> event_result_matches(
                                #[trigger] events@[m],
                                spec_event_from(lines[m]),
                            ),
                    decreases pieces.len() - k,
                {
                    let (a, b) = pieces[k];
                    assert(pieces@[k as int].0 <= pieces@[k as int].1 <= head@.len());
                    let line = substring(text, a, b);
                    assert(line@ =~= lines[k as int]);
                    events.push(Event::from(line.as_str()));
                    k = k + 1;
                }
            }
            data.clear();
            extend_bytes(data, end.as_str().as_bytes());
            Ok(events)
        },
    }
}


/// Reading the text `t1` and then, once `t2` has come, the kept rest
/// followed by `t2`, gives the lines and the rest that reading `t1 + t2`
/// at once gives, but where a lone empty line is dropped in one reading and
/// not in the other.
proof fn lemma_complete_lines_concat(t1: Seq<char>, t2: Seq<char>)
    requires
        rfind_char(t1, '\n') == Some(0int) || rfind_char(spec_complete_lines(t1).1 + t2, '\n')
            == Some(0int) ==> rfind_char(t1 + t2, '\n') == Some(0int),
    ensures
        spec_complete_lines(t1).0 + spec_complete_lines(spec_complete_lines(t1).1 + t2).0
            == spec_complete_lines(t1 + t2).0,
        spec_complete_lines(spec_complete_lines(t1).1 + t2).1 == spec_complete_lines(t1 + t2).1,
{
    let r1 = spec_complete_lines(t1).1;
    lemma_rfind_char(t1, '\n');
    lemma_rfind_char(r1, '\n');
    lemma_rfind_char(t2, '\n');
    lemma_rfind_char_concat(t1, t2, '\n');
    lemma_rfind_char_concat(r1, t2, '\n');
    match rfind_char(t1, '\n') {
        None => {
            assert(spec_complete_lines(t1).0 + spec_complete_lines(r1 + t2).0
                =~= spec_complete_lines(t1 + t2).0);
        },
        Some(i1) => {
            assert(rfind_char(r1, '\n') is None) by {
                if let Some(j) = rfind_char(r1, '\n') {
                    assert(t1[i1 + 1 + j] == r1[j]);
                }
            }
            let p = t1.take(i1);
            assert(t1 =~= p + seq!['\n'] + r1);
            match rfind_char(t2, '\n') {
                None => {
                    assert((t1 + t2).take(i1) =~= p);
                    assert((t1 + t2).skip(i1 + 1) =~= r1 + t2);
                    assert(spec_complete_lines(t1).0 + spec_complete_lines(r1 + t2).0
                        =~= spec_complete_lines(t1 + t2).0);
                },
                Some(j) => {
                    assert((r1 + t2).skip(r1.len() + j + 1) =~= t2.skip(j + 1));
                    assert((t1 + t2).skip(t1.len() + j + 1) =~= t2.skip(j + 1));
                    let q = r1 + t2.take(j);
                    assert((r1 + t2).take(r1.len() + j) =~= q);
                    assert((t1 + t2).take(t1.len() + j) =~= p + seq!['\n'] + q);
                    lemma_split_concat(p, q, '\n');
                },
            }
        },
    }
}

/// Law: cutting the byte stream into reads at any character boundary
/// changes nothing. Draining the bytes `a`, and then draining the bytes
/// kept of `a` followed by the next bytes `b`, reports the lines, and keeps
/// the bytes, that draining `a + b` at once does; both being valid UTF-8.
/// A lone empty line that one way drops and the other does not is the one
/// exception.
pub proof fn law_drain_chunking(a: Seq<u8>, b: Seq<u8>)
    requires
        valid_utf8(a),
        valid_utf8(b),
        lone_empty_line(a) || lone_empty_line(kept_bytes(a) + b) ==> lone_empty_line(a + b),
    ensures
        valid_utf8(kept_bytes(a) + b),
        valid_utf8(a + b),
        drained_lines(a) + drained_lines(kept_bytes(a) + b) == drained_lines(a + b),
        kept_bytes(kept_bytes(a) + b) == kept_bytes(a + b),
{
    let r1 = spec_complete_lines(decode_utf8(a)).1;
    vstd::utf8::encode_utf8_valid_utf8(r1);
    vstd::utf8::encode_utf8_decode_utf8(r1);
    lemma_decode_utf8_concat(a, b);
    lemma_decode_utf8_concat(kept_bytes(a), b);
    lemma_complete_lines_concat(decode_utf8(a), decode_utf8(b));
}

} // verus!
