//! The events of the compositor's event socket, in the earlier form that
//! carries a workspace id and name for the workspace events.

use vstd::prelude::*;

use crate::hyprland::names::{event_name, spec_event_name, EventName};
use crate::hyprland::ParseError;
use crate::numparse::{hex_text, parse_hex_u32, parse_i32, push_hex, spec_parse_hex_u32, spec_parse_i32};
use crate::text::{chars_of, slice_of, split, split_once, split_positions, split_tail_at_char, split_tail_once, substring};

verus! {

/// The id of a workspace; special workspaces have negative ids.
#[derive(Clone, Copy, Debug, PartialEq, Eq, Structural)]
pub struct WorkspaceId(pub i32);

/// The address of a window, as the compositor prints it in hexadecimal.
#[derive(Clone, Copy, Debug, PartialEq, Eq, Structural)]
pub struct WindowAddress(pub u32);

/// The workspace id that the decimal text `id` names.
pub open spec fn spec_workspace_id(id: Seq<char>) -> Result<WorkspaceId, ParseError> {
    match spec_parse_i32(id) {
        Some(n) => Ok(WorkspaceId(n)),
        None => Err(ParseError::InvalidWorkspaceId),
    }
}

/// The window address that the hexadecimal text `address` names.
pub open spec fn spec_window_address(address: Seq<char>) -> Result<WindowAddress, ParseError> {
    match spec_parse_hex_u32(address) {
        Some(a) => Ok(WindowAddress(a)),
        None => Err(ParseError::InvalidWindowAddress),
    }
}

impl WorkspaceId {
    /// Reads a workspace id written in decimal, as `str::parse::<i32>` does.
    pub fn from(id: &str) -> (r: Result<Self, ParseError>)
        ensures
            r == spec_workspace_id(id@),
    {
        let chars = chars_of(id);
        Self::from_chars(chars.as_slice())
    }

    /// As [`Self::from`], with the id given as characters.
    pub fn from_chars(id: &[char]) -> (r: Result<Self, ParseError>)
        ensures
            r == spec_workspace_id(id@),
    {
        match parse_i32(id) {
            Some(n) => Ok(WorkspaceId(n)),
            None => Err(ParseError::InvalidWorkspaceId),
        }
    }

    /// Whether this is the id of a special workspace.
    pub fn is_special(self) -> (r: bool)
        ensures
            r == (self.0 < 0),
    {
        self.0 < 0
    }
}

impl WindowAddress {
    /// The address as the compositor writes it: `0x` and lowercase
    /// hexadecimal digits, as the `{:#x}` format gives it.
    pub fn to_hex_string(&self) -> (r: String)
        ensures
            r@ == "0x"@ + hex_text(self.0 as nat),
    {
        let mut out = "0x".to_owned();
        push_hex(&mut out, self.0);
        out
    }

    /// Reads a window address written in hexadecimal, as
    /// `u32::from_str_radix(address, 16)` does.
    pub fn from(address: &str) -> (r: Result<Self, ParseError>)
        ensures
            r == spec_window_address(address@),
    {
        let chars = chars_of(address);
        Self::from_chars(chars.as_slice())
    }

    /// As [`Self::from`], with the address given as characters.
    pub fn from_chars(address: &[char]) -> (r: Result<Self, ParseError>)
        ensures
            r == spec_window_address(address@),
    {
        match parse_hex_u32(address) {
            Some(a) => Ok(WindowAddress(a)),
            None => Err(ParseError::InvalidWindowAddress),
        }
    }
}

/// An event announced on the compositor's event socket.
/// `S` is the type of the texts: `String`, or `Seq<char>` in specifications.
#[derive(Clone, Debug)]
pub enum Event<S = String> {
    Workspace { name: S },
    WorkspaceV2 { id: WorkspaceId, name: S },
    FocusedMonitor,
    ActiveWindow { class: S, title: S },
    ActiveWindowV2,
    Fullscreen,
    MonitorRemoved,
    MonitorAdded,
    MonitorAddedV2,
    CreateWorkspace,
    CreateWorkspaceV2 { id: WorkspaceId, name: S },
    DestroyWorkspace,
    DestroyWorkspaceV2 { id: WorkspaceId, name: S },
    MoveWorkspace,
    MoveWorkspaceV2,
    RenameWorkspace,
    ActiveSpecial,
    ActiveLayout,
    OpenWindow { address: WindowAddress, class: S, title: S, workspace_name: S },
    CloseWindow,
    MoveWindow,
    MoveWindowV2,
    OpenLayer,
    CloseLayer,
    Submap,
    ChangeFloatingMode,
    Urgent,
    Minimize,
    Screencast,
    WindowTitle,
    ToggleGroup,
    MoveIntoGroup,
    MoveOutOfGroup,
    IgnoreGroupLock,
    LockGroups,
    ConfigReloaded,
    Pin,
}

impl View for Event {
    type V = Event<Seq<char>>;

    open spec fn view(&self) -> Event<Seq<char>> {
        match self {
            Event::Workspace { name } => Event::Workspace { name: name@ },
            Event::WorkspaceV2 { id, name } => Event::WorkspaceV2 { id: *id, name: name@ },
            Event::FocusedMonitor => Event::FocusedMonitor,
            Event::ActiveWindow { class, title } => Event::ActiveWindow { class: class@, title: title@ },
            Event::ActiveWindowV2 => Event::ActiveWindowV2,
            Event::Fullscreen => Event::Fullscreen,
            Event::MonitorRemoved => Event::MonitorRemoved,
            Event::MonitorAdded => Event::MonitorAdded,
            Event::MonitorAddedV2 => Event::MonitorAddedV2,
            Event::CreateWorkspace => Event::CreateWorkspace,
            Event::CreateWorkspaceV2 { id, name } => Event::CreateWorkspaceV2 { id: *id, name: name@ },
            Event::DestroyWorkspace => Event::DestroyWorkspace,
            Event::DestroyWorkspaceV2 { id, name } => Event::DestroyWorkspaceV2 { id: *id, name: name@ },
            Event::MoveWorkspace => Event::MoveWorkspace,
            Event::MoveWorkspaceV2 => Event::MoveWorkspaceV2,
            Event::RenameWorkspace => Event::RenameWorkspace,
            Event::ActiveSpecial => Event::ActiveSpecial,
            Event::ActiveLayout => Event::ActiveLayout,
            Event::OpenWindow { address, class, title, workspace_name } => Event::OpenWindow { address: *address, class: class@, title: title@, workspace_name: workspace_name@ },
            Event::CloseWindow => Event::CloseWindow,
            Event::MoveWindow => Event::MoveWindow,
            Event::MoveWindowV2 => Event::MoveWindowV2,
            Event::OpenLayer => Event::OpenLayer,
            Event::CloseLayer => Event::CloseLayer,
            Event::Submap => Event::Submap,
            Event::ChangeFloatingMode => Event::ChangeFloatingMode,
            Event::Urgent => Event::Urgent,
            Event::Minimize => Event::Minimize,
            Event::Screencast => Event::Screencast,
            Event::WindowTitle => Event::WindowTitle,
            Event::ToggleGroup => Event::ToggleGroup,
            Event::MoveIntoGroup => Event::MoveIntoGroup,
            Event::MoveOutOfGroup => Event::MoveOutOfGroup,
            Event::IgnoreGroupLock => Event::IgnoreGroupLock,
            Event::LockGroups => Event::LockGroups,
            Event::ConfigReloaded => Event::ConfigReloaded,
            Event::Pin => Event::Pin,
        }
    }
}

/// The workspace id and name that the arguments `id,name` describe.
pub open spec fn spec_parse_full_workspace(arguments: Seq<char>) -> Result<
    (WorkspaceId, Seq<char>),
    ParseError,
> {
    match split_once(arguments, seq![',']) {
        Some((id, name)) => match spec_workspace_id(id) {
            Ok(i) => Ok((i, name)),
            Err(e) => Err(e),
        },
        None => Err(ParseError::MalformedArguments),
    }
}

/// The `openwindow` event that the arguments `address,workspace,class,title`
/// describe; the title is all that follows the third `,`.
pub open spec fn spec_open_window(arguments: Seq<char>) -> Result<Event<Seq<char>>, ParseError> {
    match split_once(arguments, seq![',']) {
        None => Err(ParseError::MalformedArguments),
        Some((address, r1)) => match split_once(r1, seq![',']) {
            None => Err(ParseError::MalformedArguments),
            Some((workspace_name, r2)) => match split_once(r2, seq![',']) {
                None => Err(ParseError::MalformedArguments),
                Some((class, title)) => match spec_window_address(address) {
                    Ok(address) => Ok(Event::OpenWindow { address, class, title, workspace_name }),
                    Err(e) => Err(e),
                },
            },
        },
    }
}

/// The event of kind `name` with the arguments `arguments`.
pub open spec fn spec_event_of(name: EventName, arguments: Seq<char>) -> Result<
    Event<Seq<char>>,
    ParseError,
> {
    match name {
        EventName::Workspace => Ok(Event::Workspace { name: arguments }),
        EventName::WorkspaceV2 => match spec_parse_full_workspace(arguments) {
            Ok((id, name)) => Ok(Event::WorkspaceV2 { id, name }),
            Err(e) => Err(e),
        },
        EventName::FocusedMonitor => Ok(Event::FocusedMonitor),
        EventName::ActiveWindow => match split_once(arguments, seq![',']) {
            Some((class, title)) => Ok(Event::ActiveWindow { class, title }),
            None => Err(ParseError::MalformedArguments),
        },
        EventName::ActiveWindowV2 => Ok(Event::ActiveWindowV2),
        EventName::Fullscreen => Ok(Event::Fullscreen),
        EventName::MonitorRemoved => Ok(Event::MonitorRemoved),
        EventName::MonitorAdded => Ok(Event::MonitorAdded),
        EventName::MonitorAddedV2 => Ok(Event::MonitorAddedV2),
        EventName::CreateWorkspace => Ok(Event::CreateWorkspace),
        EventName::CreateWorkspaceV2 => match spec_parse_full_workspace(arguments) {
            Ok((id, name)) => Ok(Event::CreateWorkspaceV2 { id, name }),
            Err(e) => Err(e),
        },
        EventName::DestroyWorkspace => Ok(Event::DestroyWorkspace),
        EventName::DestroyWorkspaceV2 => match spec_parse_full_workspace(arguments) {
            Ok((id, name)) => Ok(Event::DestroyWorkspaceV2 { id, name }),
            Err(e) => Err(e),
        },
        EventName::MoveWorkspace => Ok(Event::MoveWorkspace),
        EventName::MoveWorkspaceV2 => Ok(Event::MoveWorkspaceV2),
        EventName::RenameWorkspace => Ok(Event::RenameWorkspace),
        EventName::ActiveSpecial => Ok(Event::ActiveSpecial),
        EventName::ActiveLayout => Ok(Event::ActiveLayout),
        EventName::OpenWindow => spec_open_window(arguments),
        EventName::CloseWindow => Ok(Event::CloseWindow),
        EventName::MoveWindow => Ok(Event::MoveWindow),
        EventName::MoveWindowV2 => Ok(Event::MoveWindowV2),
        EventName::OpenLayer => Ok(Event::OpenLayer),
        EventName::CloseLayer => Ok(Event::CloseLayer),
        EventName::Submap => Ok(Event::Submap),
        EventName::ChangeFloatingMode => Ok(Event::ChangeFloatingMode),
        EventName::Urgent => Ok(Event::Urgent),
        EventName::Minimize => Ok(Event::Minimize),
        EventName::Screencast => Ok(Event::Screencast),
        EventName::WindowTitle => Ok(Event::WindowTitle),
        EventName::ToggleGroup => Ok(Event::ToggleGroup),
        EventName::MoveIntoGroup => Ok(Event::MoveIntoGroup),
        EventName::MoveOutOfGroup => Ok(Event::MoveOutOfGroup),
        EventName::IgnoreGroupLock => Ok(Event::IgnoreGroupLock),
        EventName::LockGroups => Ok(Event::LockGroups),
        EventName::ConfigReloaded => Ok(Event::ConfigReloaded),
        EventName::Pin => Ok(Event::Pin),
    }
}

/// The event that the line `s` announces: `name>>arguments`.
pub open spec fn spec_event_from(s: Seq<char>) -> Result<Event<Seq<char>>, ParseError> {
    match split_once(s, seq!['>', '>']) {
        None => Err(ParseError::MalformedEvent),
        Some((name, arguments)) => match spec_event_name(name) {
            None => Err(ParseError::UnknownEvent),
            Some(k) => spec_event_of(k, arguments),
        },
    }
}

impl Event {
    /// Reads an event line `name>>arguments` of the compositor's event socket.
    pub fn from(string: &str) -> (r: Result<Self, ParseError>)
        ensures
            match spec_event_from(string@) {
                Ok(e) => r matches Ok(x) && x@ == e,
                Err(e) => r == Err::<Self, ParseError>(e),
            },
    {
        let chars = chars_of(string);
        let s = chars.as_slice();
        let sep: [char; 2] = ['>', '>'];
        assert(sep@ =~= seq!['>', '>']);
        assert(s@.skip(0) =~= s@);
        let i = match split_tail_once(s, 0, sep.as_slice()) {
            Some(i) => i,
            None => return Err(ParseError::MalformedEvent),
        };
        let name = slice_of(s, 0, i);
        let kind = match event_name(name) {
            Some(k) => k,
            None => return Err(ParseError::UnknownEvent),
        };
        let a = i + 2;
        match kind {
            EventName::Workspace => Ok(Event::Workspace { name: substring(string, a, s.len()) }),
            EventName::WorkspaceV2 => match Self::parse_full_workspace(string, s, a) {
                Ok((id, name)) => Ok(Event::WorkspaceV2 { id, name }),
                Err(e) => Err(e),
            },
            EventName::FocusedMonitor => Ok(Event::FocusedMonitor),
            EventName::ActiveWindow => match split_tail_at_char(s, a, ',') {
                Some(j) => Ok(
                    Event::ActiveWindow {
                        class: substring(string, a, j),
                        title: substring(string, j + 1, s.len()),
                    },
                ),
                None => Err(ParseError::MalformedArguments),
            },
            EventName::ActiveWindowV2 => Ok(Event::ActiveWindowV2),
            EventName::Fullscreen => Ok(Event::Fullscreen),
            EventName::MonitorRemoved => Ok(Event::MonitorRemoved),
            EventName::MonitorAdded => Ok(Event::MonitorAdded),
            EventName::MonitorAddedV2 => Ok(Event::MonitorAddedV2),
            EventName::CreateWorkspace => Ok(Event::CreateWorkspace),
            EventName::CreateWorkspaceV2 => match Self::parse_full_workspace(string, s, a) {
                Ok((id, name)) => Ok(Event::CreateWorkspaceV2 { id, name }),
                Err(e) => Err(e),
            },
            EventName::DestroyWorkspace => Ok(Event::DestroyWorkspace),
            EventName::DestroyWorkspaceV2 => match Self::parse_full_workspace(string, s, a) {
                Ok((id, name)) => Ok(Event::DestroyWorkspaceV2 { id, name }),
                Err(e) => Err(e),
            },
            EventName::MoveWorkspace => Ok(Event::MoveWorkspace),
            EventName::MoveWorkspaceV2 => Ok(Event::MoveWorkspaceV2),
            EventName::RenameWorkspace => Ok(Event::RenameWorkspace),
            EventName::ActiveSpecial => Ok(Event::ActiveSpecial),
            EventName::ActiveLayout => Ok(Event::ActiveLayout),
            EventName::OpenWindow => Self::parse_open_window(string, s, a),
            EventName::CloseWindow => Ok(Event::CloseWindow),
            EventName::MoveWindow => Ok(Event::MoveWindow),
            EventName::MoveWindowV2 => Ok(Event::MoveWindowV2),
            EventName::OpenLayer => Ok(Event::OpenLayer),
            EventName::CloseLayer => Ok(Event::CloseLayer),
            EventName::Submap => Ok(Event::Submap),
            EventName::ChangeFloatingMode => Ok(Event::ChangeFloatingMode),
            EventName::Urgent => Ok(Event::Urgent),
            EventName::Minimize => Ok(Event::Minimize),
            EventName::Screencast => Ok(Event::Screencast),
            EventName::WindowTitle => Ok(Event::WindowTitle),
            EventName::ToggleGroup => Ok(Event::ToggleGroup),
            EventName::MoveIntoGroup => Ok(Event::MoveIntoGroup),
            EventName::MoveOutOfGroup => Ok(Event::MoveOutOfGroup),
            EventName::IgnoreGroupLock => Ok(Event::IgnoreGroupLock),
            EventName::LockGroups => Ok(Event::LockGroups),
            EventName::ConfigReloaded => Ok(Event::ConfigReloaded),
            EventName::Pin => Ok(Event::Pin),
        }
    }

    /// Reads the arguments `id,name` of a workspace event, which start at
    /// position `a` of `string`, whose characters are `s`.
    fn parse_full_workspace(string: &str, s: &[char], a: usize) -> (r: Result<
        (WorkspaceId, String),
        ParseError,
    >)
        requires
            s@ == string@,
            a <= s@.len(),
        ensures
            match spec_parse_full_workspace(string@.skip(a as int)) {
                Ok((id, name)) => r matches Ok(x) && x.0 == id && x.1@ == name,
                Err(e) => r == Err::<(WorkspaceId, String), ParseError>(e),
            },
    {
        match split_tail_at_char(s, a, ',') {
            Some(j) => match WorkspaceId::from_chars(slice_of(s, a, j)) {
                Ok(id) => Ok((id, substring(string, j + 1, s.len()))),
                Err(e) => Err(e),
            },
            None => Err(ParseError::MalformedArguments),
        }
    }

    /// Reads the arguments `address,workspace,class,title` of an `openwindow`
    /// event, which start at position `a` of `string`, whose characters are `s`.
    fn parse_open_window(string: &str, s: &[char], a: usize) -> (r: Result<Self, ParseError>)
        requires
            s@ == string@,
            a <= s@.len(),
        ensures
            match spec_open_window(string@.skip(a as int)) {
                Ok(e) => r matches Ok(x) && x@ == e,
                Err(e) => r == Err::<Self, ParseError>(e),
            },
    {
        let j1 = match split_tail_at_char(s, a, ',') {
            Some(j) => j,
            None => return Err(ParseError::MalformedArguments),
        };
        let j2 = match split_tail_at_char(s, j1 + 1, ',') {
            Some(j) => j,
            None => return Err(ParseError::MalformedArguments),
        };
        let j3 = match split_tail_at_char(s, j2 + 1, ',') {
            Some(j) => j,
            None => return Err(ParseError::MalformedArguments),
        };
        let address = match WindowAddress::from_chars(slice_of(s, a, j1)) {
            Ok(x) => x,
            Err(e) => return Err(e),
        };
        Ok(
            Event::OpenWindow {
                address,
                class: substring(string, j2 + 1, j3),
                title: substring(string, j3 + 1, s.len()),
                workspace_name: substring(string, j1 + 1, j2),
            },
        )
    }
}

/// Whether `r` is what the specification `s` of a parse gives.
pub open spec fn event_result_matches(
    r: Result<Event, ParseError>,
    s: Result<Event<Seq<char>>, ParseError>,
) -> bool {
    match s {
        Ok(e) => r matches Ok(x) && x@ == e,
        Err(e) => r == Err::<Event, ParseError>(e),
    }
}

/// Reads the events of the text `data` received from the event socket: one
/// for each of its pieces between `\n` characters.
pub fn events_of(data: &str) -> (r: Vec<Result<Event, ParseError>>)
    ensures
        r@.len() == split(data@, '\n').len(),
        forall|k: int|
            0 <= k < r@.len() ==> event_result_matches(
                #[trigger] r@[k],
                spec_event_from(split(data@, '\n')[k]),
            ),
{
    let chars = chars_of(data);
    let s = chars.as_slice();
    let pieces = split_positions(s, '\n');
    let ghost lines = split(s@, '\n');
    let mut events: Vec<Result<Event, ParseError>> = Vec::new();
    let mut k: usize = 0;
    while k < pieces.len()
        invariant
            k <= pieces@.len(),
            s@ == data@,
            pieces@.len() == lines.len(),
            lines == split(s@, '\n'),
            forall|m: int|
                0 <= m < pieces@.len() ==> #[trigger] pieces@[m].0 <= pieces@[m].1 <= s@.len(),
            forall|m: int|
                0 <= m < pieces@.len() ==> s@.subrange(pieces@[m].0 as int, pieces@[m].1 as int)
                    == #[trigger] split(s@, '\n')[m],
            events@.len() == k,
            forall|m: int|
                0 <= m < k ==> event_result_matches(#[trigger] events@[m], spec_event_from(lines[m])),
        decreases pieces.len() - k,
    {
        let (a, b) = pieces[k];
        assert(pieces@[k as int].0 <= pieces@[k as int].1 <= s@.len());
        let line = substring(data, a, b);
        assert(line@ =~= lines[k as int]);
        events.push(Event::from(line.as_str()));
        k = k + 1;
    }
    events
}

} // verus!
