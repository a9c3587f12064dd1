//! The wire format of the IPC protocol: how each value is written as bytes
//! and read back. Integers are big-endian; lengths and enum discriminants
//! are `u64`; texts are UTF-8 after their byte length.

use std::borrow::Cow;
use vstd::prelude::*;
use vstd::utf8::{decode_utf8, encode_utf8, valid_utf8};

use crate::number::{decimal_text, push_decimal};
use crate::text::{extend_bytes, string_from_utf8};

verus! {

/// An enum discriminant that names no variant of the type being read.
#[derive(Clone, Copy, Debug, PartialEq, Eq)]
pub struct InvalidDiscriminantError {
    pub enum_name: &'static str,
    pub value: usize,
}

impl InvalidDiscriminantError {
    /// The message of the error: `Invalid discriminant for <enum>: <value>`.
    pub fn message(&self) -> (r: String)
        ensures
            r@ == "Invalid discriminant for "@ + self.enum_name@ + ": "@ + decimal_text(
                self.value as nat,
            ),
    {
        let mut out = "Invalid discriminant for ".to_owned();
        out.append(self.enum_name);
        out.append(": ");
        push_decimal(&mut out, self.value as u64);
        out
    }
}

/// Why a value could not be read from bytes.
#[derive(Clone, Copy, Debug, PartialEq, Eq)]
pub enum ReadError {
    /// The bytes end before the value does.
    UnexpectedEof,
    /// A length does not fit in `usize`.
    LengthOverflow,
    /// A text is not UTF-8.
    InvalidUtf8,
    /// An enum discriminant names no variant.
    InvalidDiscriminant(InvalidDiscriminantError),
}

/// A value that can be written in the wire format.
pub trait Write {
    /// The mathematical value that the bytes stand for.
    type Model;

    /// The value that `self` stands for.
    spec fn model(&self) -> Self::Model;

    /// The values that can be written: lengths fit in `usize`.
    spec fn spec_wf(m: Self::Model) -> bool;

    /// The bytes that stand for `m`.
    spec fn spec_encode(m: Self::Model) -> Seq<u8>;

    /// Appends the bytes that stand for `self` to `out`.
    fn write(&self, out: &mut Vec<u8>)
        ensures
            final(out)@ == old(out)@ + Self::spec_encode(self.model()),
            Self::spec_wf(self.model()),
    ;
}

/// Whether `r` is what reading from position `pos` gives when the
/// specification of the read is `s`.
pub open spec fn read_matches<T: Write>(
    r: Result<(T, usize), ReadError>,
    s: Result<(T::Model, nat), ReadError>,
    pos: usize,
) -> bool {
    match s {
        Ok((m, n)) => r matches Ok((v, p)) && v.model() == m && p == pos + n,
        Err(e) => r matches Err(x) && x == e,
    }
}

/// A value that can be read from the wire format.
pub trait Read: Write + Sized {
    /// What reading from the start of `s` gives: the value and the number of
    /// bytes it takes, or why it cannot be read.
    spec fn spec_decode(s: Seq<u8>) -> Result<(Self::Model, nat), ReadError>;

    /// A read never takes more bytes than there are.
    proof fn lemma_decode_length(s: Seq<u8>)
        ensures
            Self::spec_decode(s) matches Ok((_, n)) ==> n <= s.len(),
    ;

    /// Unless the bytes ended too early, more bytes after them change nothing.
    proof fn lemma_decode_prefix(s: Seq<u8>, t: Seq<u8>)
        ensures
            Self::spec_decode(s) != Err::<(Self::Model, nat), ReadError>(ReadError::UnexpectedEof)
                ==> Self::spec_decode(s + t) == Self::spec_decode(s),
    ;

    /// Reading what was written gives back the value and takes exactly its
    /// bytes.
    proof fn lemma_roundtrip(m: Self::Model, rest: Seq<u8>)
        requires
            Self::spec_wf(m),
        ensures
            Self::spec_decode(Self::spec_encode(m) + rest) == Ok::<(Self::Model, nat), ReadError>(
                (m, Self::spec_encode(m).len()),
            ),
    ;

    /// Reads a value from `buf` at position `pos`, giving it and the position
    /// after it.
    fn read(buf: &[u8], pos: usize) -> (r: Result<(Self, usize), ReadError>)
        requires
            pos <= buf@.len(),
        ensures
            read_matches(r, Self::spec_decode(buf@.skip(pos as int)), pos),
    ;
}

/// The `u8` whose big-endian bytes are the arguments.
pub open spec fn be_u8(b0: u8) -> u8 {
    b0 as u8
}

impl Write for u8 {
    type Model = u8;

    open spec fn model(&self) -> u8 {
        *self
    }

    open spec fn spec_wf(m: u8) -> bool {
        true
    }

    open spec fn spec_encode(v: u8) -> Seq<u8> {
        seq![v as u8]
    }

    fn write(&self, out: &mut Vec<u8>) {
        out.push(*self as u8);
        assert(out@ =~= old(out)@ + Self::spec_encode(*self));
    }
}

impl Read for u8 {
    open spec fn spec_decode(s: Seq<u8>) -> Result<(u8, nat), ReadError> {
        if s.len() < 1 {
            Err(ReadError::UnexpectedEof)
        } else {
            Ok((be_u8(s[0]), 1))
        }
    }

    proof fn lemma_decode_length(s: Seq<u8>) {
    }

    proof fn lemma_decode_prefix(s: Seq<u8>, t: Seq<u8>) {
        if s.len() >= 1 {
            assert forall|i: int| 0 <= i < 1 implies (s + t)[i] == s[i] by {}
        }
    }

    proof fn lemma_roundtrip(v: u8, rest: Seq<u8>) {
        let s = Self::spec_encode(v) + rest;
        assert forall|i: int| 0 <= i < 1 implies s[i] == Self::spec_encode(v)[i] by {}
        assert(be_u8(v as u8) == v) by (bit_vector);
    }

    fn read(buf: &[u8], pos: usize) -> (r: Result<(Self, usize), ReadError>) {
        if buf.len() - pos < 1 {
            return Err(ReadError::UnexpectedEof);
        }
        let v: u8 = buf[pos];
        proof {
            let s = buf@.skip(pos as int);
            assert forall|i: int| 0 <= i < 1 implies s[i] == buf@[pos + i] by {}
        }
        Ok((v, pos + 1))
    }
}

/// The `u16` whose big-endian bytes are the arguments.
pub open spec fn be_u16(b0: u8, b1: u8) -> u16 {
    ((b0 as u16) << 8) | (b1 as u16)
}

impl Write for u16 {
    type Model = u16;

    open spec fn model(&self) -> u16 {
        *self
    }

    open spec fn spec_wf(m: u16) -> bool {
        true
    }

    open spec fn spec_encode(v: u16) -> Seq<u8> {
        seq![(v >> 8) as u8, v as u8]
    }

    fn write(&self, out: &mut Vec<u8>) {
        out.push((*self >> 8) as u8);
        out.push(*self as u8);
        assert(out@ =~= old(out)@ + Self::spec_encode(*self));
    }
}

impl Read for u16 {
    open spec fn spec_decode(s: Seq<u8>) -> Result<(u16, nat), ReadError> {
        if s.len() < 2 {
            Err(ReadError::UnexpectedEof)
        } else {
            Ok((be_u16(s[0], s[1]), 2))
        }
    }

    proof fn lemma_decode_length(s: Seq<u8>) {
    }

    proof fn lemma_decode_prefix(s: Seq<u8>, t: Seq<u8>) {
        if s.len() >= 2 {
            assert forall|i: int| 0 <= i < 2 implies (s + t)[i] == s[i] by {}
        }
    }

    proof fn lemma_roundtrip(v: u16, rest: Seq<u8>) {
        let s = Self::spec_encode(v) + rest;
        assert forall|i: int| 0 <= i < 2 implies s[i] == Self::spec_encode(v)[i] by {}
        assert(be_u16((v >> 8) as u8, v as u8) == v) by (bit_vector);
    }

    fn read(buf: &[u8], pos: usize) -> (r: Result<(Self, usize), ReadError>) {
        if buf.len() - pos < 2 {
            return Err(ReadError::UnexpectedEof);
        }
        let v: u16 = ((buf[pos + 0] as u16) << 8) | (buf[pos + 1] as u16);
        proof {
            let s = buf@.skip(pos as int);
            assert forall|i: int| 0 <= i < 2 implies s[i] == buf@[pos + i] by {}
        }
        Ok((v, pos + 2))
    }
}

/// The `u32` whose big-endian bytes are the arguments.
pub open spec fn be_u32(b0: u8, b1: u8, b2: u8, b3: u8) -> u32 {
    ((b0 as u32) << 24) | ((b1 as u32) << 16) | ((b2 as u32) << 8) | (b3 as u32)
}

impl Write for u32 {
    type Model = u32;

    open spec fn model(&self) -> u32 {
        *self
    }

    open spec fn spec_wf(m: u32) -> bool {
        true
    }

    open spec fn spec_encode(v: u32) -> Seq<u8> {
        seq![(v >> 24) as u8, (v >> 16) as u8, (v >> 8) as u8, v as u8]
    }

    fn write(&self, out: &mut Vec<u8>) {
        out.push((*self >> 24) as u8);
        out.push((*self >> 16) as u8);
        out.push((*self >> 8) as u8);
        out.push(*self as u8);
        assert(out@ =~= old(out)@ + Self::spec_encode(*self));
    }
}

impl Read for u32 {
    open spec fn spec_decode(s: Seq<u8>) -> Result<(u32, nat), ReadError> {
        if s.len() < 4 {
            Err(ReadError::UnexpectedEof)
        } else {
            Ok((be_u32(s[0], s[1], s[2], s[3]), 4))
        }
    }

    proof fn lemma_decode_length(s: Seq<u8>) {
    }

    proof fn lemma_decode_prefix(s: Seq<u8>, t: Seq<u8>) {
        if s.len() >= 4 {
            assert forall|i: int| 0 <= i < 4 implies (s + t)[i] == s[i] by {}
        }
    }

    proof fn lemma_roundtrip(v: u32, rest: Seq<u8>) {
        let s = Self::spec_encode(v) + rest;
        assert forall|i: int| 0 <= i < 4 implies s[i] == Self::spec_encode(v)[i] by {}
        assert(be_u32((v >> 24) as u8, (v >> 16) as u8, (v >> 8) as u8, v as u8) == v) by (bit_vector);
    }

    fn read(buf: &[u8], pos: usize) -> (r: Result<(Self, usize), ReadError>) {
        if buf.len() - pos < 4 {
            return Err(ReadError::UnexpectedEof);
        }
        let v: u32 = ((buf[pos + 0] as u32) << 24) | ((buf[pos + 1] as u32) << 16) | ((buf[pos + 2] as u32) << 8) | (buf[pos + 3] as u32);
        proof {
            let s = buf@.skip(pos as int);
            assert forall|i: int| 0 <= i < 4 implies s[i] == buf@[pos + i] by {}
        }
        Ok((v, pos + 4))
    }
}

/// The `u64` whose big-endian bytes are the arguments.
pub open spec fn be_u64(b0: u8, b1: u8, b2: u8, b3: u8, b4: u8, b5: u8, b6: u8, b7: u8) -> u64 {
    ((b0 as u64) << 56) | ((b1 as u64) << 48) | ((b2 as u64) << 40) | ((b3 as u64) << 32) | ((b4 as u64) << 24) | ((b5 as u64) << 16) | ((b6 as u64) << 8) | (b7 as u64)
}

impl Write for u64 {
    type Model = u64;

    open spec fn model(&self) -> u64 {
        *self
    }

    open spec fn spec_wf(m: u64) -> bool {
        true
    }

    open spec fn spec_encode(v: u64) -> Seq<u8> {
        seq![(v >> 56) as u8, (v >> 48) as u8, (v >> 40) as u8, (v >> 32) as u8, (v >> 24) as u8, (v >> 16) as u8, (v >> 8) as u8, v as u8]
    }

    fn write(&self, out: &mut Vec<u8>) {
        out.push((*self >> 56) as u8);
        out.push((*self >> 48) as u8);
        out.push((*self >> 40) as u8);
        out.push((*self >> 32) as u8);
        out.push((*self >> 24) as u8);
        out.push((*self >> 16) as u8);
        out.push((*self >> 8) as u8);
        out.push(*self as u8);
        assert(out@ =~= old(out)@ + Self::spec_encode(*self));
    }
}

impl Read for u64 {
    open spec fn spec_decode(s: Seq<u8>) -> Result<(u64, nat), ReadError> {
        if s.len() < 8 {
            Err(ReadError::UnexpectedEof)
        } else {
            Ok((be_u64(s[0], s[1], s[2], s[3], s[4], s[5], s[6], s[7]), 8))
        }
    }

    proof fn lemma_decode_length(s: Seq<u8>) {
    }

    proof fn lemma_decode_prefix(s: Seq<u8>, t: Seq<u8>) {
        if s.len() >= 8 {
            assert forall|i: int| 0 <= i < 8 implies (s + t)[i] == s[i] by {}
        }
    }

    proof fn lemma_roundtrip(v: u64, rest: Seq<u8>) {
        let s = Self::spec_encode(v) + rest;
        assert forall|i: int| 0 <= i < 8 implies s[i] == Self::spec_encode(v)[i] by {}
        assert(be_u64((v >> 56) as u8, (v >> 48) as u8, (v >> 40) as u8, (v >> 32) as u8, (v >> 24) as u8, (v >> 16) as u8, (v >> 8) as u8, v as u8) == v) by (bit_vector);
    }

    fn read(buf: &[u8], pos: usize) -> (r: Result<(Self, usize), ReadError>) {
        if buf.len() - pos < 8 {
            return Err(ReadError::UnexpectedEof);
        }
        let v: u64 = ((buf[pos + 0] as u64) << 56) | ((buf[pos + 1] as u64) << 48) | ((buf[pos + 2] as u64) << 40) | ((buf[pos + 3] as u64) << 32) | ((buf[pos + 4] as u64) << 24) | ((buf[pos + 5] as u64) << 16) | ((buf[pos + 6] as u64) << 8) | (buf[pos + 7] as u64);
        proof {
            let s = buf@.skip(pos as int);
            assert forall|i: int| 0 <= i < 8 implies s[i] == buf@[pos + i] by {}
        }
        Ok((v, pos + 8))
    }
}

impl Write for i8 {
    type Model = i8;

    open spec fn model(&self) -> i8 {
        *self
    }

    open spec fn spec_wf(m: i8) -> bool {
        true
    }

    /// The bytes of the two's complement of `v`.
    open spec fn spec_encode(v: i8) -> Seq<u8> {
        <u8 as Write>::spec_encode(v as u8)
    }

    fn write(&self, out: &mut Vec<u8>) {
        (*self as u8).write(out);
    }
}

impl Read for i8 {
    open spec fn spec_decode(s: Seq<u8>) -> Result<(i8, nat), ReadError> {
        match <u8 as Read>::spec_decode(s) {
            Ok((v, n)) => Ok((v as i8, n)),
            Err(e) => Err(e),
        }
    }

    proof fn lemma_decode_length(s: Seq<u8>) {
    }

    proof fn lemma_decode_prefix(s: Seq<u8>, t: Seq<u8>) {
        <u8 as Read>::lemma_decode_prefix(s, t);
    }

    proof fn lemma_roundtrip(v: i8, rest: Seq<u8>) {
        <u8 as Read>::lemma_roundtrip(v as u8, rest);
        assert((v as u8) as i8 == v) by (bit_vector);
    }

    fn read(buf: &[u8], pos: usize) -> (r: Result<(Self, usize), ReadError>) {
        match u8::read(buf, pos) {
            Ok((v, p)) => Ok((v as i8, p)),
            Err(e) => Err(e),
        }
    }
}

impl Write for i16 {
    type Model = i16;

    open spec fn model(&self) -> i16 {
        *self
    }

    open spec fn spec_wf(m: i16) -> bool {
        true
    }

    /// The bytes of the two's complement of `v`.
    open spec fn spec_encode(v: i16) -> Seq<u8> {
        <u16 as Write>::spec_encode(v as u16)
    }

    fn write(&self, out: &mut Vec<u8>) {
        (*self as u16).write(out);
    }
}

impl Read for i16 {
    open spec fn spec_decode(s: Seq<u8>) -> Result<(i16, nat), ReadError> {
        match <u16 as Read>::spec_decode(s) {
            Ok((v, n)) => Ok((v as i16, n)),
            Err(e) => Err(e),
        }
    }

    proof fn lemma_decode_length(s: Seq<u8>) {
    }

    proof fn lemma_decode_prefix(s: Seq<u8>, t: Seq<u8>) {
        <u16 as Read>::lemma_decode_prefix(s, t);
    }

    proof fn lemma_roundtrip(v: i16, rest: Seq<u8>) {
        <u16 as Read>::lemma_roundtrip(v as u16, rest);
        assert((v as u16) as i16 == v) by (bit_vector);
    }

    fn read(buf: &[u8], pos: usize) -> (r: Result<(Self, usize), ReadError>) {
        match u16::read(buf, pos) {
            Ok((v, p)) => Ok((v as i16, p)),
            Err(e) => Err(e),
        }
    }
}

impl Write for i32 {
    type Model = i32;

    open spec fn model(&self) -> i32 {
        *self
    }

    open spec fn spec_wf(m: i32) -> bool {
        true
    }

    /// The bytes of the two's complement of `v`.
    open spec fn spec_encode(v: i32) -> Seq<u8> {
        <u32 as Write>::spec_encode(v as u32)
    }

    fn write(&self, out: &mut Vec<u8>) {
        (*self as u32).write(out);
    }
}

impl Read for i32 {
    open spec fn spec_decode(s: Seq<u8>) -> Result<(i32, nat), ReadError> {
        match <u32 as Read>::spec_decode(s) {
            Ok((v, n)) => Ok((v as i32, n)),
            Err(e) => Err(e),
        }
    }

    proof fn lemma_decode_length(s: Seq<u8>) {
    }

    proof fn lemma_decode_prefix(s: Seq<u8>, t: Seq<u8>) {
        <u32 as Read>::lemma_decode_prefix(s, t);
    }

    proof fn lemma_roundtrip(v: i32, rest: Seq<u8>) {
        <u32 as Read>::lemma_roundtrip(v as u32, rest);
        assert((v as u32) as i32 == v) by (bit_vector);
    }

    fn read(buf: &[u8], pos: usize) -> (r: Result<(Self, usize), ReadError>) {
        match u32::read(buf, pos) {
            Ok((v, p)) => Ok((v as i32, p)),
            Err(e) => Err(e),
        }
    }
}

impl Write for i64 {
    type Model = i64;

    open spec fn model(&self) -> i64 {
        *self
    }

    open spec fn spec_wf(m: i64) -> bool {
        true
    }

    /// The bytes of the two's complement of `v`.
    open spec fn spec_encode(v: i64) -> Seq<u8> {
        <u64 as Write>::spec_encode(v as u64)
    }

    fn write(&self, out: &mut Vec<u8>) {
        (*self as u64).write(out);
    }
}

impl Read for i64 {
    open spec fn spec_decode(s: Seq<u8>) -> Result<(i64, nat), ReadError> {
        match <u64 as Read>::spec_decode(s) {
            Ok((v, n)) => Ok((v as i64, n)),
            Err(e) => Err(e),
        }
    }

    proof fn lemma_decode_length(s: Seq<u8>) {
    }

    proof fn lemma_decode_prefix(s: Seq<u8>, t: Seq<u8>) {
        <u64 as Read>::lemma_decode_prefix(s, t);
    }

    proof fn lemma_roundtrip(v: i64, rest: Seq<u8>) {
        <u64 as Read>::lemma_roundtrip(v as u64, rest);
        assert((v as u64) as i64 == v) by (bit_vector);
    }

    fn read(buf: &[u8], pos: usize) -> (r: Result<(Self, usize), ReadError>) {
        match u64::read(buf, pos) {
            Ok((v, p)) => Ok((v as i64, p)),
            Err(e) => Err(e),
        }
    }
}

impl Write for () {
    type Model = ();

    open spec fn model(&self) -> () {
        ()
    }

    open spec fn spec_wf(m: ()) -> bool {
        true
    }

    open spec fn spec_encode(m: ()) -> Seq<u8> {
        seq![]
    }

    fn write(&self, out: &mut Vec<u8>) {
        assert(out@ =~= old(out)@ + Self::spec_encode(()));
    }
}

impl Read for () {
    open spec fn spec_decode(s: Seq<u8>) -> Result<((), nat), ReadError> {
        Ok(((), 0))
    }

    proof fn lemma_decode_length(s: Seq<u8>) {
    }

    proof fn lemma_decode_prefix(s: Seq<u8>, t: Seq<u8>) {
    }

    proof fn lemma_roundtrip(m: (), rest: Seq<u8>) {
    }

    fn read(buf: &[u8], pos: usize) -> (r: Result<(Self, usize), ReadError>) {
        Ok(((), pos))
    }
}

/// The bytes that stand for the text `m`: its UTF-8 byte length, then its
/// UTF-8 bytes.
pub open spec fn encode_text(m: Seq<char>) -> Seq<u8> {
    <u64 as Write>::spec_encode(encode_utf8(m).len() as u64) + encode_utf8(m)
}

impl<'a> Write for &'a str {
    type Model = Seq<char>;

    open spec fn model(&self) -> Seq<char> {
        (*self)@
    }

    open spec fn spec_wf(m: Seq<char>) -> bool {
        encode_utf8(m).len() <= usize::MAX
    }

    open spec fn spec_encode(m: Seq<char>) -> Seq<u8> {
        encode_text(m)
    }

    fn write(&self, out: &mut Vec<u8>) {
        let bytes = (*self).as_bytes();
        let n = bytes.len();
        (n as u64).write(out);
        extend_bytes(out, bytes);
        assert(out@ =~= old(out)@ + Self::spec_encode(self.model()));
    }
}

impl Write for String {
    type Model = Seq<char>;

    open spec fn model(&self) -> Seq<char> {
        self@
    }

    open spec fn spec_wf(m: Seq<char>) -> bool {
        encode_utf8(m).len() <= usize::MAX
    }

    open spec fn spec_encode(m: Seq<char>) -> Seq<u8> {
        encode_text(m)
    }

    fn write(&self, out: &mut Vec<u8>) {
        self.as_str().write(out);
    }
}

impl Read for String {
    open spec fn spec_decode(s: Seq<u8>) -> Result<(Seq<char>, nat), ReadError> {
        match <u64 as Read>::spec_decode(s) {
            Err(e) => Err(e),
            Ok((len, k)) => if len > usize::MAX {
                Err(ReadError::LengthOverflow)
            } else if s.len() - k < len {
                Err(ReadError::UnexpectedEof)
            } else if valid_utf8(s.subrange(k as int, k + len)) {
                Ok((decode_utf8(s.subrange(k as int, k + len)), (k + len) as nat))
            } else {
                Err(ReadError::InvalidUtf8)
            },
        }
    }

    proof fn lemma_decode_length(s: Seq<u8>) {
    }

    proof fn lemma_decode_prefix(s: Seq<u8>, t: Seq<u8>) {
        <u64 as Read>::lemma_decode_prefix(s, t);
        if let Ok((len, k)) = <u64 as Read>::spec_decode(s) {
            if len <= usize::MAX && s.len() - k >= len {
                assert((s + t).subrange(k as int, k + len) =~= s.subrange(k as int, k + len));
            }
        }
    }

    proof fn lemma_roundtrip(m: Seq<char>, rest: Seq<u8>) {
        let b = encode_utf8(m);
        <u64 as Read>::lemma_roundtrip(b.len() as u64, b + rest);
        let s = Self::spec_encode(m) + rest;
        assert(s =~= <u64 as Write>::spec_encode(b.len() as u64) + (b + rest));
        assert(s.subrange(8, 8 + b.len() as int) =~= b);
        vstd::utf8::encode_utf8_valid_utf8(m);
        vstd::utf8::encode_utf8_decode_utf8(m);
    }

    fn read(buf: &[u8], pos: usize) -> (r: Result<(Self, usize), ReadError>) {
        let (len, p) = match u64::read(buf, pos) {
            Ok(x) => x,
            Err(e) => return Err(e),
        };
        if len > usize::MAX as u64 {
            return Err(ReadError::LengthOverflow);
        }
        let len = len as usize;
        if buf.len() - p < len {
            return Err(ReadError::UnexpectedEof);
        }
        let mut bytes: Vec<u8> = Vec::new();
        extend_bytes(&mut bytes, &buf[p..p + len]);
        proof {
            let s = buf@.skip(pos as int);
            assert(s.subrange(8, 8 + len) =~= bytes@);
        }
        match string_from_utf8(bytes) {
            Some(text) => Ok((text, p + len)),
            None => Err(ReadError::InvalidUtf8),
        }
    }
}

/// A text that is borrowed or owned is written as the text it holds.
impl<'a> Write for Cow<'a, str> {
    type Model = Seq<char>;

    open spec fn model(&self) -> Seq<char> {
        self@
    }

    open spec fn spec_wf(m: Seq<char>) -> bool {
        encode_utf8(m).len() <= usize::MAX
    }

    open spec fn spec_encode(m: Seq<char>) -> Seq<u8> {
        encode_text(m)
    }

    fn write(&self, out: &mut Vec<u8>) {
        match self {
            Cow::Borrowed(b) => b.write(out),
            Cow::Owned(o) => o.write(out),
        }
    }
}

/// A text read as borrowed-or-owned is read as an owned `String`: the read
/// always gives `Cow::Owned`.
impl<'a> Read for Cow<'a, str> {
    open spec fn spec_decode(s: Seq<u8>) -> Result<(Seq<char>, nat), ReadError> {
        <String as Read>::spec_decode(s)
    }

    proof fn lemma_decode_length(s: Seq<u8>) {
        <String as Read>::lemma_decode_length(s);
    }

    proof fn lemma_decode_prefix(s: Seq<u8>, t: Seq<u8>) {
        <String as Read>::lemma_decode_prefix(s, t);
    }

    proof fn lemma_roundtrip(m: Seq<char>, rest: Seq<u8>) {
        <String as Read>::lemma_roundtrip(m, rest);
    }

    fn read(buf: &[u8], pos: usize) -> (r: Result<(Self, usize), ReadError>)
        ensures
            r matches Ok((c, _)) ==> c is Owned,
    {
        match String::read(buf, pos) {
            Ok((text, p)) => Ok((Cow::Owned(text), p)),
            Err(e) => Err(e),
        }
    }
}

/// The bytes of the values `m`, one after the other.
pub open spec fn encode_all<T: Write>(m: Seq<T::Model>) -> Seq<u8>
    decreases m.len(),
{
    if m.len() == 0 {
        seq![]
    } else {
        encode_all::<T>(m.drop_last()) + T::spec_encode(m.last())
    }
}

/// What reading `n` values one after the other from the start of `s` gives.
pub open spec fn decode_all<T: Read>(s: Seq<u8>, n: nat) -> Result<(Seq<T::Model>, nat), ReadError>
    decreases n,
{
    if n == 0 {
        Ok((seq![], 0))
    } else {
        match decode_all::<T>(s, (n - 1) as nat) {
            Err(e) => Err(e),
            Ok((vs, k)) => if k > s.len() {
                Err(ReadError::UnexpectedEof)
            } else {
                match T::spec_decode(s.skip(k as int)) {
                    Ok((v, k2)) => Ok((vs.push(v), k + k2)),
                    Err(e) => Err(e),
                }
            },
        }
    }
}

/// The bytes that stand for the sequence `m`: its length, then its values.
pub open spec fn encode_seq<T: Write>(m: Seq<T::Model>) -> Seq<u8> {
    <u64 as Write>::spec_encode(m.len() as u64) + encode_all::<T>(m)
}

/// Whether every value of `m` can be written, and their number fits in `usize`.
pub open spec fn seq_wf<T: Write>(m: Seq<T::Model>) -> bool {
    m.len() <= usize::MAX && forall|i: int| 0 <= i < m.len() ==> T::spec_wf(#[trigger] m[i])
}

proof fn lemma_decode_all_length<T: Read>(s: Seq<u8>, n: nat)
    ensures
        decode_all::<T>(s, n) matches Ok((vs, k)) ==> k <= s.len() && vs.len() == n,
    decreases n,
{
    if n > 0 {
        lemma_decode_all_length::<T>(s, (n - 1) as nat);
        if let Ok((vs, k)) = decode_all::<T>(s, (n - 1) as nat) {
            if k <= s.len() {
                T::lemma_decode_length(s.skip(k as int));
            }
        }
    }
}

proof fn lemma_decode_all_error<T: Read>(s: Seq<u8>, j: nat, n: nat)
    requires
        j <= n,
        decode_all::<T>(s, j) is Err,
    ensures
        decode_all::<T>(s, n) == decode_all::<T>(s, j),
    decreases n,
{
    if j < n {
        lemma_decode_all_error::<T>(s, j, (n - 1) as nat);
    }
}

proof fn lemma_decode_all_prefix<T: Read>(s: Seq<u8>, t: Seq<u8>, n: nat)
    ensures
        decode_all::<T>(s, n) != Err::<(Seq<T::Model>, nat), ReadError>(ReadError::UnexpectedEof)
            ==> decode_all::<T>(s + t, n) == decode_all::<T>(s, n),
    decreases n,
{
    if n > 0 {
        lemma_decode_all_prefix::<T>(s, t, (n - 1) as nat);
        lemma_decode_all_length::<T>(s, (n - 1) as nat);
        if let Ok((vs, k)) = decode_all::<T>(s, (n - 1) as nat) {
            assert((s + t).skip(k as int) =~= s.skip(k as int) + t);
            T::lemma_decode_prefix(s.skip(k as int), t);
        }
    }
}

proof fn lemma_decode_all_roundtrip<T: Read>(m: Seq<T::Model>, rest: Seq<u8>)
    requires
        forall|i: int| 0 <= i < m.len() ==> T::spec_wf(#[trigger] m[i]),
    ensures
        decode_all::<T>(encode_all::<T>(m) + rest, m.len()) == Ok::<(Seq<T::Model>, nat), ReadError>(
            (m, encode_all::<T>(m).len()),
        ),
    decreases m.len(),
{
    if m.len() > 0 {
        let init = m.drop_last();
        let x = m.last();
        let s = encode_all::<T>(m) + rest;
        let tail = T::spec_encode(x) + rest;
        assert(s =~= encode_all::<T>(init) + tail);
        assert forall|i: int| 0 <= i < init.len() implies T::spec_wf(#[trigger] init[i]) by {
            assert(init[i] == m[i]);
        }
        lemma_decode_all_roundtrip::<T>(init, tail);
        assert(s.skip(encode_all::<T>(init).len() as int) =~= tail);
        assert(T::spec_wf(m[m.len() - 1]));
        T::lemma_roundtrip(x, rest);
        assert(init.push(x) =~= m);
    } else {
        assert(m =~= seq![]);
    }
}

/// What reading a sequence from the start of `s` gives: its length, then
/// that many values.
pub open spec fn decode_seq<T: Read>(s: Seq<u8>) -> Result<(Seq<T::Model>, nat), ReadError> {
    match <u64 as Read>::spec_decode(s) {
        Err(e) => Err(e),
        Ok((n, k)) => if n > usize::MAX {
            Err(ReadError::LengthOverflow)
        } else {
            match decode_all::<T>(s.skip(k as int), n as nat) {
                Ok((vs, k2)) => Ok((vs, k + k2)),
                Err(e) => Err(e),
            }
        },
    }
}

/// The values that the elements of `v` stand for.
pub open spec fn models<T: Write>(v: Seq<T>) -> Seq<T::Model> {
    Seq::new(v.len(), |i: int| v[i].model())
}

impl<'a, T: Write> Write for &'a [T] {
    type Model = Seq<T::Model>;

    open spec fn model(&self) -> Seq<T::Model> {
        models((*self)@)
    }

    open spec fn spec_wf(m: Seq<T::Model>) -> bool {
        seq_wf::<T>(m)
    }

    open spec fn spec_encode(m: Seq<T::Model>) -> Seq<u8> {
        encode_seq::<T>(m)
    }

    fn write(&self, out: &mut Vec<u8>) {
        let s: &[T] = *self;
        let n = s.len();
        let ghost m = models(s@);
        (n as u64).write(out);
        let ghost start = out@;
        let mut i: usize = 0;
        while i < n
            invariant
                n == s@.len(),
                m == models(s@),
                i <= n,
                out@ == start + encode_all::<T>(m.take(i as int)),
                forall|j: int| 0 <= j < i ==> T::spec_wf(#[trigger] m[j]),
            decreases n - i,
        {
            s[i].write(out);
            assert(m.take(i + 1).drop_last() =~= m.take(i as int));
            assert(m.take(i + 1).last() == s@[i as int].model());
            i = i + 1;
        }
        assert(m.take(n as int) =~= m);
    }
}

impl<T: Write> Write for Vec<T> {
    type Model = Seq<T::Model>;

    open spec fn model(&self) -> Seq<T::Model> {
        models(self@)
    }

    open spec fn spec_wf(m: Seq<T::Model>) -> bool {
        seq_wf::<T>(m)
    }

    open spec fn spec_encode(m: Seq<T::Model>) -> Seq<u8> {
        encode_seq::<T>(m)
    }

    fn write(&self, out: &mut Vec<u8>) {
        self.as_slice().write(out);
    }
}

impl<T: Read> Read for Vec<T> {
    open spec fn spec_decode(s: Seq<u8>) -> Result<(Seq<T::Model>, nat), ReadError> {
        decode_seq::<T>(s)
    }

    proof fn lemma_decode_length(s: Seq<u8>) {
        if let Ok((n, k)) = <u64 as Read>::spec_decode(s) {
            lemma_decode_all_length::<T>(s.skip(k as int), n as nat);
        }
    }

    proof fn lemma_decode_prefix(s: Seq<u8>, t: Seq<u8>) {
        <u64 as Read>::lemma_decode_prefix(s, t);
        if let Ok((n, k)) = <u64 as Read>::spec_decode(s) {
            assert((s + t).skip(k as int) =~= s.skip(k as int) + t);
            lemma_decode_all_prefix::<T>(s.skip(k as int), t, n as nat);
        }
    }

    proof fn lemma_roundtrip(m: Seq<T::Model>, rest: Seq<u8>) {
        let body = encode_all::<T>(m);
        <u64 as Read>::lemma_roundtrip(m.len() as u64, body + rest);
        let s = Self::spec_encode(m) + rest;
        assert(s =~= <u64 as Write>::spec_encode(m.len() as u64) + (body + rest));
        assert(s.skip(8) =~= body + rest);
        lemma_decode_all_roundtrip::<T>(m, rest);
    }

    fn read(buf: &[u8], pos: usize) -> (r: Result<(Self, usize), ReadError>) {
        let (n64, p) = match u64::read(buf, pos) {
            Ok(x) => x,
            Err(e) => return Err(e),
        };
        if n64 > usize::MAX as u64 {
            return Err(ReadError::LengthOverflow);
        }
        let n = n64 as usize;
        let ghost s = buf@.skip(p as int);
        let mut result: Vec<T> = Vec::new();
        let mut cur = p;
        let mut i: usize = 0;
        assert(models(result@) =~= Seq::<T::Model>::empty());
        assert(buf@.skip(pos as int).skip(8) =~= s);
        while i < n
            invariant
                pos + 8 == p,
                n == n64,
                <u64 as Read>::spec_decode(buf@.skip(pos as int)) == Ok::<(u64, nat), ReadError>(
                    (n64, 8),
                ),
                p <= cur <= buf@.len(),
                i <= n,
                s == buf@.skip(p as int),
                buf@.skip(pos as int).skip(8) == s,
                decode_all::<T>(s, i as nat) == Ok::<(Seq<T::Model>, nat), ReadError>(
                    (models(result@), (cur - p) as nat),
                ),
            decreases n - i,
        {
            proof {
                assert(buf@.skip(cur as int) =~= s.skip(cur - p));
            }
            match T::read(buf, cur) {
                Ok((v, c2)) => {
                    proof {
                        T::lemma_decode_length(s.skip(cur - p));
                    }
                    let ghost before = models(result@);
                    result.push(v);
                    assert(models(result@) =~= before.push(v.model()));
                    cur = c2;
                },
                Err(e) => {
                    proof {
                        assert(decode_all::<T>(s, (i + 1) as nat) == Err::<
                            (Seq<T::Model>, nat),
                            ReadError,
                        >(e));
                        lemma_decode_all_error::<T>(s, (i + 1) as nat, n as nat);
                        let whole = buf@.skip(pos as int);
                        assert(<u64 as Read>::spec_decode(whole) matches Ok((m, k)) && m == n && k
                            == 8);
                        assert(decode_all::<T>(whole.skip(8), n as nat) == Err::<
                            (Seq<T::Model>, nat),
                            ReadError,
                        >(e));
                    }
                    return Err(e);
                },
            }
            i = i + 1;
        }
        Ok((result, cur))
    }
}

/// What reading a value of type `T` after the first `k` bytes of `s` gives,
/// with the count of bytes taken counted from the start of `s`.
pub open spec fn decode_after<T: Read>(s: Seq<u8>, k: nat) -> Result<(T::Model, nat), ReadError> {
    if k > s.len() {
        Err(ReadError::UnexpectedEof)
    } else {
        match T::spec_decode(s.skip(k as int)) {
            Ok((v, k2)) => Ok((v, k + k2)),
            Err(e) => Err(e),
        }
    }
}

/// The error for a discriminant `value` that names no variant of `enum_name`.
pub open spec fn invalid_discriminant(enum_name: &'static str, value: u64) -> ReadError {
    ReadError::InvalidDiscriminant(InvalidDiscriminantError { enum_name, value: value as usize })
}

proof fn lemma_decode_after_length<T: Read>(s: Seq<u8>, k: nat)
    ensures
        decode_after::<T>(s, k) matches Ok((_, n)) ==> k <= n <= s.len(),
{
    if k <= s.len() {
        T::lemma_decode_length(s.skip(k as int));
    }
}

proof fn lemma_decode_after_prefix<T: Read>(s: Seq<u8>, t: Seq<u8>, k: nat)
    requires
        k <= s.len(),
    ensures
        decode_after::<T>(s, k) != Err::<(T::Model, nat), ReadError>(ReadError::UnexpectedEof)
            ==> decode_after::<T>(s + t, k) == decode_after::<T>(s, k),
{
    assert((s + t).skip(k as int) =~= s.skip(k as int) + t);
    T::lemma_decode_prefix(s.skip(k as int), t);
}

proof fn lemma_decode_after_roundtrip<T: Read>(head: Seq<u8>, m: T::Model, rest: Seq<u8>)
    requires
        T::spec_wf(m),
    ensures
        decode_after::<T>(head + T::spec_encode(m) + rest, head.len()) == Ok::<
            (T::Model, nat),
            ReadError,
        >((m, head.len() + T::spec_encode(m).len())),
{
    assert((head + T::spec_encode(m) + rest).skip(head.len() as int) =~= T::spec_encode(m) + rest);
    T::lemma_roundtrip(m, rest);
}

/// Reads a value of type `T` at position `pos`, where the bytes from `start`
/// to `pos` were already taken.
fn read_after<T: Read>(buf: &[u8], start: usize, pos: usize) -> (r: Result<(T, usize), ReadError>)
    requires
        start <= pos <= buf@.len(),
    ensures
        read_matches(r, decode_after::<T>(buf@.skip(start as int), (pos - start) as nat), start),
{
    assert(buf@.skip(start as int).skip(pos - start) =~= buf@.skip(pos as int));
    proof {
        T::lemma_decode_length(buf@.skip(pos as int));
    }
    T::read(buf, pos)
}

impl<T: Write> Write for Option<T> {
    type Model = Option<T::Model>;

    open spec fn model(&self) -> Option<T::Model> {
        match self {
            Some(v) => Some(v.model()),
            None => None,
        }
    }

    open spec fn spec_wf(m: Option<T::Model>) -> bool {
        match m {
            Some(v) => T::spec_wf(v),
            None => true,
        }
    }

    /// `Some` has discriminant 0 and `None` discriminant 1.
    open spec fn spec_encode(m: Option<T::Model>) -> Seq<u8> {
        match m {
            Some(v) => <u64 as Write>::spec_encode(0) + T::spec_encode(v),
            None => <u64 as Write>::spec_encode(1),
        }
    }

    fn write(&self, out: &mut Vec<u8>) {
        match self {
            Some(v) => {
                0u64.write(out);
                v.write(out);
            },
            None => {
                1u64.write(out);
            },
        }
        assert(out@ =~= old(out)@ + Self::spec_encode(self.model()));
    }
}

impl<T: Read> Read for Option<T> {
    open spec fn spec_decode(s: Seq<u8>) -> Result<(Option<T::Model>, nat), ReadError> {
        match <u64 as Read>::spec_decode(s) {
            Err(e) => Err(e),
            Ok((d, k)) => if d as usize == 0 {
                match decode_after::<T>(s, k) {
                    Ok((v, n)) => Ok((Some(v), n)),
                    Err(e) => Err(e),
                }
            } else if d as usize == 1 {
                Ok((None, k))
            } else {
                Err(invalid_discriminant("Option", d))
            },
        }
    }

    proof fn lemma_decode_length(s: Seq<u8>) {
        if let Ok((d, k)) = <u64 as Read>::spec_decode(s) {
            lemma_decode_after_length::<T>(s, k);
        }
    }

    proof fn lemma_decode_prefix(s: Seq<u8>, t: Seq<u8>) {
        <u64 as Read>::lemma_decode_prefix(s, t);
        if let Ok((d, k)) = <u64 as Read>::spec_decode(s) {
            lemma_decode_after_prefix::<T>(s, t, k);
        }
    }

    proof fn lemma_roundtrip(m: Option<T::Model>, rest: Seq<u8>) {
        match m {
            Some(v) => {
                let h = <u64 as Write>::spec_encode(0);
                <u64 as Read>::lemma_roundtrip(0, T::spec_encode(v) + rest);
                assert(Self::spec_encode(m) + rest =~= h + (T::spec_encode(v) + rest));
                assert(h + T::spec_encode(v) + rest =~= h + (T::spec_encode(v) + rest));
                lemma_decode_after_roundtrip::<T>(h, v, rest);
            },
            None => {
                <u64 as Read>::lemma_roundtrip(1, rest);
            },
        }
    }

    fn read(buf: &[u8], pos: usize) -> (r: Result<(Self, usize), ReadError>) {
        let (d, p) = match u64::read(buf, pos) {
            Ok(x) => x,
            Err(e) => return Err(e),
        };
        match d as usize {
            0 => match read_after::<T>(buf, pos, p) {
                Ok((v, q)) => Ok((Some(v), q)),
                Err(e) => Err(e),
            },
            1 => Ok((None, p)),
            value => Err(
                ReadError::InvalidDiscriminant(InvalidDiscriminantError { enum_name: "Option", value }),
            ),
        }
    }
}

impl<T: Write, E: Write> Write for Result<T, E> {
    type Model = Result<T::Model, E::Model>;

    open spec fn model(&self) -> Result<T::Model, E::Model> {
        match self {
            Ok(v) => Ok(v.model()),
            Err(e) => Err(e.model()),
        }
    }

    open spec fn spec_wf(m: Result<T::Model, E::Model>) -> bool {
        match m {
            Ok(v) => T::spec_wf(v),
            Err(e) => E::spec_wf(e),
        }
    }

    /// `Ok` has discriminant 0 and `Err` discriminant 1.
    open spec fn spec_encode(m: Result<T::Model, E::Model>) -> Seq<u8> {
        match m {
            Ok(v) => <u64 as Write>::spec_encode(0) + T::spec_encode(v),
            Err(e) => <u64 as Write>::spec_encode(1) + E::spec_encode(e),
        }
    }

    fn write(&self, out: &mut Vec<u8>) {
        match self {
            Ok(v) => {
                0u64.write(out);
                v.write(out);
            },
            Err(e) => {
                1u64.write(out);
                e.write(out);
            },
        }
        assert(out@ =~= old(out)@ + Self::spec_encode(self.model()));
    }
}

impl<T: Read, E: Read> Read for Result<T, E> {
    open spec fn spec_decode(s: Seq<u8>) -> Result<(Result<T::Model, E::Model>, nat), ReadError> {
        match <u64 as Read>::spec_decode(s) {
            Err(e) => Err(e),
            Ok((d, k)) => if d as usize == 0 {
                match decode_after::<T>(s, k) {
                    Ok((v, n)) => Ok((Ok(v), n)),
                    Err(e) => Err(e),
                }
            } else if d as usize == 1 {
                match decode_after::<E>(s, k) {
                    Ok((v, n)) => Ok((Err(v), n)),
                    Err(e) => Err(e),
                }
            } else {
                Err(invalid_discriminant("Result", d))
            },
        }
    }

    proof fn lemma_decode_length(s: Seq<u8>) {
        if let Ok((d, k)) = <u64 as Read>::spec_decode(s) {
            lemma_decode_after_length::<T>(s, k);
            lemma_decode_after_length::<E>(s, k);
        }
    }

    proof fn lemma_decode_prefix(s: Seq<u8>, t: Seq<u8>) {
        <u64 as Read>::lemma_decode_prefix(s, t);
        if let Ok((d, k)) = <u64 as Read>::spec_decode(s) {
            lemma_decode_after_prefix::<T>(s, t, k);
            lemma_decode_after_prefix::<E>(s, t, k);
        }
    }

    proof fn lemma_roundtrip(m: Result<T::Model, E::Model>, rest: Seq<u8>) {
        match m {
            Ok(v) => {
                let h = <u64 as Write>::spec_encode(0);
                <u64 as Read>::lemma_roundtrip(0, T::spec_encode(v) + rest);
                assert(Self::spec_encode(m) + rest =~= h + (T::spec_encode(v) + rest));
                assert(h + T::spec_encode(v) + rest =~= h + (T::spec_encode(v) + rest));
                lemma_decode_after_roundtrip::<T>(h, v, rest);
            },
            Err(e) => {
                let h = <u64 as Write>::spec_encode(1);
                <u64 as Read>::lemma_roundtrip(1, E::spec_encode(e) + rest);
                assert(Self::spec_encode(m) + rest =~= h + (E::spec_encode(e) + rest));
                assert(h + E::spec_encode(e) + rest =~= h + (E::spec_encode(e) + rest));
                lemma_decode_after_roundtrip::<E>(h, e, rest);
            },
        }
    }

    fn read(buf: &[u8], pos: usize) -> (r: Result<(Self, usize), ReadError>) {
        let (d, p) = match u64::read(buf, pos) {
            Ok(x) => x,
            Err(e) => return Err(e),
        };
        match d as usize {
            0 => match read_after::<T>(buf, pos, p) {
                Ok((v, q)) => Ok((Ok(v), q)),
                Err(e) => Err(e),
            },
            1 => match read_after::<E>(buf, pos, p) {
                Ok((v, q)) => Ok((Err(v), q)),
                Err(e) => Err(e),
            },
            value => Err(
                ReadError::InvalidDiscriminant(InvalidDiscriminantError { enum_name: "Result", value }),
            ),
        }
    }
}

/// The bytes that stand for `v`.
pub fn encode<T: Write>(v: &T) -> (r: Vec<u8>)
    ensures
        r@ == T::spec_encode(v.model()),
        T::spec_wf(v.model()),
{
    let mut out: Vec<u8> = Vec::new();
    v.write(&mut out);
    assert(out@ =~= T::spec_encode(v.model()));
    out
}

/// Reads a value from the start of `bytes`, giving it and the number of bytes
/// it took.
pub fn decode<T: Read>(bytes: &[u8]) -> (r: Result<(T, usize), ReadError>)
    ensures
        read_matches(r, T::spec_decode(bytes@), 0),
{
    assert(bytes@.skip(0) =~= bytes@);
    T::read(bytes, 0)
}

/// Reading what was written gives back the value written, and takes exactly
/// the bytes written, whatever follows them.
pub proof fn law_read_after_write<T: Read>(m: T::Model, rest: Seq<u8>)
    requires
        T::spec_wf(m),
    ensures
        T::spec_decode(T::spec_encode(m) + rest) == Ok::<(T::Model, nat), ReadError>(
            (m, T::spec_encode(m).len()),
        ),
{
    T::lemma_roundtrip(m, rest);
}

/// A read that did not run out of bytes gives the same result whatever bytes
/// come after: a value is read as soon as its bytes have arrived.
pub proof fn law_read_ignores_later_bytes<T: Read>(s: Seq<u8>, t: Seq<u8>)
    requires
        T::spec_decode(s) != Err::<(T::Model, nat), ReadError>(ReadError::UnexpectedEof),
    ensures
        T::spec_decode(s + t) == T::spec_decode(s),
{
    T::lemma_decode_prefix(s, t);
}

/// A read never takes more bytes than it was given.
pub proof fn law_read_within_bytes<T: Read>(s: Seq<u8>)
    ensures
        T::spec_decode(s) matches Ok((_, n)) ==> n <= s.len(),
{
    T::lemma_decode_length(s);
}

/// Values written one after the other are read back one after the other.
pub proof fn law_consecutive_values<A: Read, B: Read>(a: A::Model, b: B::Model, rest: Seq<u8>)
    requires
        A::spec_wf(a),
        B::spec_wf(b),
    ensures
        A::spec_decode(A::spec_encode(a) + B::spec_encode(b) + rest) == Ok::<(A::Model, nat), ReadError>(
            (a, A::spec_encode(a).len()),
        ),
        (A::spec_encode(a) + B::spec_encode(b) + rest).skip(A::spec_encode(a).len() as int)
            == B::spec_encode(b) + rest,
        B::spec_decode(B::spec_encode(b) + rest) == Ok::<(B::Model, nat), ReadError>(
            (b, B::spec_encode(b).len()),
        ),
{
    let s = A::spec_encode(a) + B::spec_encode(b) + rest;
    assert(s =~= A::spec_encode(a) + (B::spec_encode(b) + rest));
    A::lemma_roundtrip(a, B::spec_encode(b) + rest);
    assert(s.skip(A::spec_encode(a).len() as int) =~= B::spec_encode(b) + rest);
    B::lemma_roundtrip(b, rest);
}

} // verus!
