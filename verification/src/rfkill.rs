//! The records of the kernel's radio kill switch device: each announces a
//! switch (by index), its radio type, what happened to it, and whether it is
//! blocked by software or by hardware.

use vstd::prelude::*;

verus! {

/// The radio type of a kill switch, numbered as the kernel numbers it.
#[derive(Clone, Copy, Debug, PartialEq, Eq, Structural)]
pub enum Type {
    All,
    Wlan,
    Bluetooth,
    Uwb,
    Wimax,
    Wwan,
    Gps,
    Fm,
    Nfc,
    ThisShouldNotBeHere,
}

/// What a record announces about a switch, numbered as the kernel numbers it.
#[derive(Clone, Copy, Debug, PartialEq, Eq, Structural)]
pub enum Operation {
    Add,
    Del,
    Change,
    ChangeAll,
    ThisShouldNotBeHere,
}

/// The radio type numbered `b`.
pub open spec fn spec_type_from_u8(b: u8) -> Option<Type> {
    if b == 0 {
        Some(Type::All)
    } else if b == 1 {
        Some(Type::Wlan)
    } else if b == 2 {
        Some(Type::Bluetooth)
    } else if b == 3 {
        Some(Type::Uwb)
    } else if b == 4 {
        Some(Type::Wimax)
    } else if b == 5 {
        Some(Type::Wwan)
    } else if b == 6 {
        Some(Type::Gps)
    } else if b == 7 {
        Some(Type::Fm)
    } else if b == 8 {
        Some(Type::Nfc)
    } else if b == 9 {
        Some(Type::ThisShouldNotBeHere)
    } else {
        None
    }
}

/// The number of the radio type `t`.
pub open spec fn spec_type_to_u8(t: Type) -> u8 {
    match t {
        Type::All => 0,
        Type::Wlan => 1,
        Type::Bluetooth => 2,
        Type::Uwb => 3,
        Type::Wimax => 4,
        Type::Wwan => 5,
        Type::Gps => 6,
        Type::Fm => 7,
        Type::Nfc => 8,
        Type::ThisShouldNotBeHere => 9,
    }
}

/// The operation numbered `b`.
pub open spec fn spec_operation_from_u8(b: u8) -> Option<Operation> {
    if b == 0 {
        Some(Operation::Add)
    } else if b == 1 {
        Some(Operation::Del)
    } else if b == 2 {
        Some(Operation::Change)
    } else if b == 3 {
        Some(Operation::ChangeAll)
    } else if b == 4 {
        Some(Operation::ThisShouldNotBeHere)
    } else {
        None
    }
}

/// The number of the operation `o`.
pub open spec fn spec_operation_to_u8(o: Operation) -> u8 {
    match o {
        Operation::Add => 0,
        Operation::Del => 1,
        Operation::Change => 2,
        Operation::ChangeAll => 3,
        Operation::ThisShouldNotBeHere => 4,
    }
}

impl Type {
    /// The radio type numbered `b`, if there is one.
    pub fn from_u8(b: u8) -> (r: Option<Type>)
        ensures
            r == spec_type_from_u8(b),
    {
        if b == 0 {
            Some(Type::All)
        } else if b == 1 {
            Some(Type::Wlan)
        } else if b == 2 {
            Some(Type::Bluetooth)
        } else if b == 3 {
            Some(Type::Uwb)
        } else if b == 4 {
            Some(Type::Wimax)
        } else if b == 5 {
            Some(Type::Wwan)
        } else if b == 6 {
            Some(Type::Gps)
        } else if b == 7 {
            Some(Type::Fm)
        } else if b == 8 {
            Some(Type::Nfc)
        } else if b == 9 {
            Some(Type::ThisShouldNotBeHere)
        } else {
            None
        }
    }

    /// The number of this radio type.
    pub fn to_u8(self) -> (r: u8)
        ensures
            r == spec_type_to_u8(self),
    {
        match self {
            Type::All => 0,
            Type::Wlan => 1,
            Type::Bluetooth => 2,
            Type::Uwb => 3,
            Type::Wimax => 4,
            Type::Wwan => 5,
            Type::Gps => 6,
            Type::Fm => 7,
            Type::Nfc => 8,
            Type::ThisShouldNotBeHere => 9,
        }
    }
}

impl Default for Type {
    fn default() -> (r: Self)
        ensures
            r == Type::ThisShouldNotBeHere,
    {
        Type::ThisShouldNotBeHere
    }
}

impl Operation {
    /// The operation numbered `b`, if there is one.
    pub fn from_u8(b: u8) -> (r: Option<Operation>)
        ensures
            r == spec_operation_from_u8(b),
    {
        if b == 0 {
            Some(Operation::Add)
        } else if b == 1 {
            Some(Operation::Del)
        } else if b == 2 {
            Some(Operation::Change)
        } else if b == 3 {
            Some(Operation::ChangeAll)
        } else if b == 4 {
            Some(Operation::ThisShouldNotBeHere)
        } else {
            None
        }
    }

    /// The number of this operation.
    pub fn to_u8(self) -> (r: u8)
        ensures
            r == spec_operation_to_u8(self),
    {
        match self {
            Operation::Add => 0,
            Operation::Del => 1,
            Operation::Change => 2,
            Operation::ChangeAll => 3,
            Operation::ThisShouldNotBeHere => 4,
        }
    }
}

impl Default for Operation {
    fn default() -> (r: Self)
        ensures
            r == Operation::ThisShouldNotBeHere,
    {
        Operation::ThisShouldNotBeHere
    }
}

/// The size in bytes of one record of the device.
pub const EVENT_SIZE: usize = 8;

/// One record of the device.
#[derive(Clone, Copy, Debug, PartialEq, Eq, Structural)]
pub struct Event {
    /// The index of the switch.
    pub index: u32,
    /// Its radio type.
    pub kind: Type,
    /// What happened to it.
    pub operation: Operation,
    /// Whether software blocks it.
    pub soft: bool,
    /// Whether hardware blocks it.
    pub hard: bool,
}

impl Default for Event {
    fn default() -> (r: Self)
        ensures
            r == (Event {
                index: 0,
                kind: Type::ThisShouldNotBeHere,
                operation: Operation::ThisShouldNotBeHere,
                soft: false,
                hard: false,
            }),
    {
        Event {
            index: 0,
            kind: Type::ThisShouldNotBeHere,
            operation: Operation::ThisShouldNotBeHere,
            soft: false,
            hard: false,
        }
    }
}

/// The flag that the byte `b` stands for: zero or one.
pub open spec fn spec_flag(b: u8) -> Option<bool> {
    if b == 0 {
        Some(false)
    } else if b == 1 {
        Some(true)
    } else {
        None
    }
}

/// The little-endian number of four bytes.
pub open spec fn le_u32(b0: u8, b1: u8, b2: u8, b3: u8) -> int {
    b0 + 256 * b1 + 65536 * b2 + 16777216 * b3
}

/// The record that the eight bytes `b` hold: the switch index in
/// little-endian order, then the radio type, the operation and the two flags,
/// one byte each. `None` where a byte holds no valid value.
pub open spec fn spec_event_from_bytes(b: Seq<u8>) -> Option<Event> {
    if b.len() != 8 {
        None
    } else {
        match (spec_type_from_u8(b[4]), spec_operation_from_u8(b[5]), spec_flag(b[6]), spec_flag(b[7])) {
            (Some(kind), Some(operation), Some(soft), Some(hard)) => Some(
                Event {
                    index: le_u32(b[0], b[1], b[2], b[3]) as u32,
                    kind,
                    operation,
                    soft,
                    hard,
                },
            ),
            _ => None,
        }
    }
}

/// The eight bytes of the record `e`.
pub open spec fn spec_event_bytes(e: Event) -> Seq<u8> {
    seq![
        (e.index % 256) as u8,
        (e.index / 256 % 256) as u8,
        (e.index / 65536 % 256) as u8,
        (e.index / 16777216) as u8,
        spec_type_to_u8(e.kind),
        spec_operation_to_u8(e.operation),
        if e.soft { 1u8 } else { 0u8 },
        if e.hard { 1u8 } else { 0u8 },
    ]
}

proof fn lemma_le_u32_bound(b0: u8, b1: u8, b2: u8, b3: u8)
    ensures
        0 <= le_u32(b0, b1, b2, b3) <= u32::MAX,
{
}

proof fn lemma_le_u32_split(n: u32)
    ensures
        le_u32(
            (n % 256) as u8,
            (n / 256 % 256) as u8,
            (n / 65536 % 256) as u8,
            (n / 16777216) as u8,
        ) == n,
{
    assert(n == n % 256 + 256 * (n / 256 % 256) + 65536 * (n / 65536 % 256) + 16777216 * (n
        / 16777216)) by (nonlinear_arith);
}

proof fn lemma_le_u32_join(b0: u8, b1: u8, b2: u8, b3: u8)
    ensures
        ({
            let n = le_u32(b0, b1, b2, b3);
            &&& n % 256 == b0
            &&& n / 256 % 256 == b1
            &&& n / 65536 % 256 == b2
            &&& n / 16777216 == b3
        }),
{
    let n = le_u32(b0, b1, b2, b3);
    assert(n % 256 == b0 && n / 256 % 256 == b1 && n / 65536 % 256 == b2 && n / 16777216 == b3)
        by (nonlinear_arith)
        requires
            n == b0 + 256 * b1 + 65536 * b2 + 16777216 * b3,
            0 <= b0 < 256,
            0 <= b1 < 256,
            0 <= b2 < 256,
            0 <= b3 < 256,
    ;
}

impl Event {
    /// The record held by `bytes`, if they are the eight bytes of a valid
    /// record.
    pub fn from_bytes(bytes: &[u8]) -> (r: Option<Event>)
        ensures
            r == spec_event_from_bytes(bytes@),
    {
        if bytes.len() != 8 {
            return None;
        }
        let kind = match Type::from_u8(bytes[4]) {
            Some(t) => t,
            None => return None,
        };
        let operation = match Operation::from_u8(bytes[5]) {
            Some(o) => o,
            None => return None,
        };
        let soft = if bytes[6] == 0 {
            false
        } else if bytes[6] == 1 {
            true
        } else {
            return None;
        };
        let hard = if bytes[7] == 0 {
            false
        } else if bytes[7] == 1 {
            true
        } else {
            return None;
        };
        proof {
            lemma_le_u32_bound(bytes[0], bytes[1], bytes[2], bytes[3]);
        }
        let index: u32 = bytes[0] as u32 + 256 * (bytes[1] as u32) + 65536 * (bytes[2] as u32)
            + 16777216 * (bytes[3] as u32);
        Some(Event { index, kind, operation, soft, hard })
    }

    /// The eight bytes of this record.
    pub fn to_bytes(&self) -> (r: Vec<u8>)
        ensures
            r@ == spec_event_bytes(*self),
    {
        let mut out: Vec<u8> = Vec::new();
        out.push((self.index % 256) as u8);
        out.push((self.index / 256 % 256) as u8);
        out.push((self.index / 65536 % 256) as u8);
        out.push((self.index / 16777216) as u8);
        out.push(self.kind.to_u8());
        out.push(self.operation.to_u8());
        out.push(if self.soft { 1u8 } else { 0u8 });
        out.push(if self.hard { 1u8 } else { 0u8 });
        assert(out@ =~= spec_event_bytes(*self));
        out
    }
}

/// Reading a record's bytes gives the record back.
pub proof fn law_event_roundtrip(e: Event)
    ensures
        spec_event_from_bytes(spec_event_bytes(e)) == Some(e),
{
    lemma_le_u32_split(e.index);
}

/// Writing a record read from bytes gives those bytes back.
pub proof fn law_bytes_roundtrip(b: Seq<u8>)
    requires
        spec_event_from_bytes(b) is Some,
    ensures
        spec_event_bytes(spec_event_from_bytes(b)->0) == b,
{
    lemma_le_u32_join(b[0], b[1], b[2], b[3]);
    lemma_le_u32_bound(b[0], b[1], b[2], b[3]);
    assert(spec_event_bytes(spec_event_from_bytes(b)->0) =~= b);
}

/// The records read from `data` one after the other, up to the first one
/// that is incomplete or invalid.
pub open spec fn spec_events_from_bytes(data: Seq<u8>) -> Seq<Event>
    decreases data.len(),
{
    if data.len() < 8 {
        seq![]
    } else {
        match spec_event_from_bytes(data.take(8)) {
            Some(e) => seq![e] + spec_events_from_bytes(data.skip(8)),
            None => seq![],
        }
    }
}

/// The records read from `data` one after the other, up to the first one
/// that is incomplete or invalid.
pub fn events_from_bytes(data: &[u8]) -> (r: Vec<Event>)
    ensures
        r@ == spec_events_from_bytes(data@),
{
    let mut out: Vec<Event> = Vec::new();
    let mut pos: usize = 0;
    assert(data@.skip(0) =~= data@);
    assert(out@ + spec_events_from_bytes(data@) =~= spec_events_from_bytes(data@));
    while 8 <= data.len() - pos
        invariant
            pos <= data@.len(),
            out@ + spec_events_from_bytes(data@.skip(pos as int)) == spec_events_from_bytes(data@),
        decreases data.len() - pos,
    {
        let chunk = &data[pos..pos + 8];
        assert(data@.skip(pos as int).take(8) =~= chunk@);
        assert(data@.skip(pos as int).skip(8) =~= data@.skip(pos + 8));
        match Event::from_bytes(chunk) {
            Some(e) => {
                out.push(e);
                assert(out@ + spec_events_from_bytes(data@.skip(pos + 8)) =~= spec_events_from_bytes(data@));
                pos = pos + 8;
            },
            None => {
                assert(out@ =~= spec_events_from_bytes(data@));
                return out;
            },
        }
    }
    assert(out@ =~= spec_events_from_bytes(data@));
    out
}


/// Law: a record is laid out and numbered as the kernel's `rfkill.h` lays
/// out `struct rfkill_event`: the switch index as four little-endian bytes,
/// then the radio type numbered in the order all, WLAN, Bluetooth, UWB,
/// WiMAX, WWAN, GPS, FM, NFC (from 0), the operation numbered add, delete,
/// change, change all (from 0), and the soft and hard flags as 0 or 1.
/// Writing a type or an operation gives its number in that order back.
pub proof fn law_kernel_layout(b: Seq<u8>)
    requires
        b.len() == 8,
    ensures
        ({
            let types = seq![
                Type::All,
                Type::Wlan,
                Type::Bluetooth,
                Type::Uwb,
                Type::Wimax,
                Type::Wwan,
                Type::Gps,
                Type::Fm,
                Type::Nfc,
                Type::ThisShouldNotBeHere,
            ];
            let operations = seq![
                Operation::Add,
                Operation::Del,
                Operation::Change,
                Operation::ChangeAll,
                Operation::ThisShouldNotBeHere,
            ];
            &&& spec_event_from_bytes(b) is Some <==> (b[4] < 10 && b[5] < 5 && b[6] <= 1 && b[7] <= 1)
            &&& spec_event_from_bytes(b) matches Some(e) ==> {
                &&& e.kind == types[b[4] as int]
                &&& e.operation == operations[b[5] as int]
                &&& e.soft == (b[6] == 1)
                &&& e.hard == (b[7] == 1)
                &&& e.index == b[0] + 256 * b[1] + 65536 * b[2] + 16777216 * b[3]
            }
            &&& forall|i: int| 0 <= i < 10 ==> spec_type_to_u8(#[trigger] types[i]) == i
            &&& forall|i: int| 0 <= i < 5 ==> spec_operation_to_u8(#[trigger] operations[i]) == i
        }),
{
    lemma_le_u32_bound(b[0], b[1], b[2], b[3]);
}

} // verus!
