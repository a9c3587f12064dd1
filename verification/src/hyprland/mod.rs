//! The compositor's event socket: workspaces, window addresses and the
//! events that the socket announces, parsed from its text lines.

use vstd::prelude::*;

use crate::numparse::{hex_text, law_hex_forms_roundtrip, parse_hex_u32, parse_i32, push_hex, spec_parse_hex_u32, spec_parse_i32, upper_hex_text, zeros};
use crate::text::chars_of;

pub mod events;
pub mod legacy;
pub mod names;

verus! {

/// Why an event line could not be read.
#[derive(Clone, Copy, Debug, PartialEq, Eq, Structural)]
pub enum ParseError {
    /// The line has no `>>` between the event name and its arguments.
    MalformedEvent,
    /// The arguments lack a `,` that the event needs.
    MalformedArguments,
    /// A workspace id is not a decimal `i32`.
    InvalidWorkspaceId,
    /// A window address is not a hexadecimal `u32`.
    InvalidWindowAddress,
    /// The event name is none that the compositor documents.
    UnknownEvent,
}

/// A workspace: regular ones have a nonnegative id, special ones a negative id.
/// `S` is the type of the name: `String`, or `Seq<char>` in specifications.
#[derive(Clone, Debug)]
pub enum Workspace<S = String> {
    Regular { id: u32, name: S },
    Special { id: i32, name: S },
}

impl View for Workspace {
    type V = Workspace<Seq<char>>;

    open spec fn view(&self) -> Workspace<Seq<char>> {
        match self {
            Workspace::Regular { id, name } => Workspace::Regular { id: *id, name: name@ },
            Workspace::Special { id, name } => Workspace::Special { id: *id, name: name@ },
        }
    }
}

/// The workspace with id `id` and name `name`.
pub open spec fn spec_workspace(id: i32, name: Seq<char>) -> Workspace<Seq<char>> {
    if id >= 0 {
        Workspace::Regular { id: id as u32, name }
    } else {
        Workspace::Special { id, name }
    }
}

/// The workspace that the id text `id` and the name `name` describe.
pub open spec fn spec_workspace_from_raw(id: Seq<char>, name: Seq<char>) -> Result<
    Workspace<Seq<char>>,
    ParseError,
> {
    match spec_parse_i32(id) {
        Some(n) => Ok(spec_workspace(n, name)),
        None => Err(ParseError::InvalidWorkspaceId),
    }
}

impl Workspace {
    /// The workspace with id `id`: regular when the id is nonnegative.
    pub fn from(id: i32, name: String) -> (r: Self)
        ensures
            r@ == spec_workspace(id, name@),
    {
        if id >= 0 {
            Workspace::Regular { id: id as u32, name }
        } else {
            Workspace::Special { id, name }
        }
    }

    /// The workspace whose id is written in decimal in `id`.
    pub fn from_raw(id: &str, name: String) -> (r: Result<Self, ParseError>)
        ensures
            match spec_workspace_from_raw(id@, name@) {
                Ok(w) => r matches Ok(x) && x@ == w,
                Err(e) => r == Err::<Self, ParseError>(e),
            },
    {
        let chars = chars_of(id);
        Self::from_chars(chars.as_slice(), name)
    }

    /// As [`Self::from_raw`], with the id given as characters.
    pub fn from_chars(id: &[char], name: String) -> (r: Result<Self, ParseError>)
        ensures
            match spec_workspace_from_raw(id@, name@) {
                Ok(w) => r matches Ok(x) && x@ == w,
                Err(e) => r == Err::<Self, ParseError>(e),
            },
    {
        match parse_i32(id) {
            Some(n) => Ok(Self::from(n, name)),
            None => Err(ParseError::InvalidWorkspaceId),
        }
    }
}

/// The address of a window, as the compositor prints it in hexadecimal.
#[derive(Clone, Copy, Debug, PartialEq, Eq, Structural)]
pub struct WindowAddress(pub u32);

/// The window address that the hexadecimal text `address` names.
pub open spec fn spec_window_address(address: Seq<char>) -> Result<WindowAddress, ParseError> {
    match spec_parse_hex_u32(address) {
        Some(a) => Ok(WindowAddress(a)),
        None => Err(ParseError::InvalidWindowAddress),
    }
}

impl WindowAddress {
    /// The address as the compositor writes it: `0x` and lowercase
    /// hexadecimal digits, as the `{:#x}` format gives it.
    pub fn to_hex_string(&self) -> (r: String)
        ensures
            r@ == "0x"@ + hex_text(self.0 as nat),
    {
        let mut out = "0x".to_owned();
        push_hex(&mut out, self.0);
        out
    }

    /// Reads a window address written in hexadecimal, as
    /// `u32::from_str_radix(address, 16)` does.
    pub fn from(address: &str) -> (r: Result<Self, ParseError>)
        ensures
            r == spec_window_address(address@),
    {
        let chars = chars_of(address);
        Self::from_chars(chars.as_slice())
    }

    /// As [`Self::from`], with the address given as characters.
    pub fn from_chars(address: &[char]) -> (r: Result<Self, ParseError>)
        ensures
            r == spec_window_address(address@),
    {
        match parse_hex_u32(address) {
            Some(a) => Ok(WindowAddress(a)),
            None => Err(ParseError::InvalidWindowAddress),
        }
    }
}

/// Law: an address written in hexadecimal by `{:x}`, `{:X}`, or with zeros
/// in front as `{:08x}` and `{:08X}` write it, reads back as that address.
pub proof fn law_window_address_roundtrip(n: u32, k: nat)
    ensures
        spec_window_address(zeros(k) + hex_text(n as nat)) == Ok::<WindowAddress, ParseError>(
            WindowAddress(n),
        ),
        spec_window_address(zeros(k) + upper_hex_text(n as nat)) == Ok::<WindowAddress, ParseError>(
            WindowAddress(n),
        ),
{
    law_hex_forms_roundtrip(n, k);
}

/// The request text sent to the compositor's control socket: the flags,
/// a `/`, then the command.
pub fn control_request(flags: &[char], command: &str) -> (r: String)
    ensures
        r@ == flags@ + seq!['/'] + command@,
{
    let mut out = crate::text::string_from_chars(flags);
    out.append("/");
    out.append(command);
    proof {
        reveal_strlit("/");
    }
    assert(out@ =~= flags@ + seq!['/'] + command@);
    out
}

} // verus!
