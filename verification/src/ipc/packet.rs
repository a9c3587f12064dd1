//! The packets of the IPC protocol and their wire format: a method call
//! going to the server, its response coming back, and the packets of a
//! streamed response.

use vstd::prelude::*;

use super::rw::{
    decode_after, invalid_discriminant, read_matches, InvalidDiscriminantError, Read, ReadError,
    Write,
};

verus! {

/// Packet going from the client to the server.
#[derive(Clone, Debug, PartialEq, Eq)]
pub struct Clientbound<T> {
    /// A unique id identifying this method call.
    pub call_id: u64,
    pub payload: T,
}

/// Packet going from the server to the client.
#[derive(Clone, Debug, PartialEq, Eq)]
pub struct Serverbound<T> {
    /// Id of the method call that this packet is a response to.
    pub call_id: u64,
    pub payload: T,
}

/// Packet wrapper for streamed responses.
#[derive(Clone, Debug, PartialEq, Eq)]
pub enum StreamPacket<T, E> {
    /// A value from the stream.
    Value(T),
    /// The early error, if any (only ever the first packet).
    Error(E),
    /// The stream has ended normally.
    EndOfStream,
}

/// Why a call could not be answered.
#[derive(Clone, Debug, PartialEq, Eq)]
pub enum Error {
    /// The response could not be read.
    Read(ReadError),
    /// The connection to the server was broken or the server closed.
    ConnectionBroken,
}

/// Why a call made through a connection failed.
#[derive(Clone, Debug, PartialEq, Eq)]
pub enum ClientError<T, U = String> {
    /// The method call could not be sent; the text says why.
    Call(String),
    /// The response has another type than the method's.
    Type(T),
    /// The server answered with an error.
    Server(U),
    /// The connection to the server was broken or the server closed.
    Connection,
}

/// The bytes of a call id followed by those of a payload.
pub open spec fn encode_tagged<T: Write>(call_id: u64, payload: T::Model) -> Seq<u8> {
    <u64 as Write>::spec_encode(call_id) + T::spec_encode(payload)
}

/// What reading a call id and then a payload gives.
pub open spec fn decode_tagged<T: Read>(s: Seq<u8>) -> Result<(u64, T::Model, nat), ReadError> {
    match <u64 as Read>::spec_decode(s) {
        Err(e) => Err(e),
        Ok((id, k)) => match decode_after::<T>(s, k) {
            Ok((v, n)) => Ok((id, v, n)),
            Err(e) => Err(e),
        },
    }
}

proof fn lemma_decode_tagged_length<T: Read>(s: Seq<u8>)
    ensures
        decode_tagged::<T>(s) matches Ok((_, _, n)) ==> n <= s.len(),
{
    if let Ok((id, k)) = <u64 as Read>::spec_decode(s) {
        if k <= s.len() {
            T::lemma_decode_length(s.skip(k as int));
        }
    }
}

proof fn lemma_decode_tagged_prefix<T: Read>(s: Seq<u8>, t: Seq<u8>)
    ensures
        decode_tagged::<T>(s) != Err::<(u64, T::Model, nat), ReadError>(ReadError::UnexpectedEof)
            ==> decode_tagged::<T>(s + t) == decode_tagged::<T>(s),
{
    <u64 as Read>::lemma_decode_prefix(s, t);
    if let Ok((id, k)) = <u64 as Read>::spec_decode(s) {
        assert((s + t).skip(k as int) =~= s.skip(k as int) + t);
        T::lemma_decode_prefix(s.skip(k as int), t);
    }
}

proof fn lemma_decode_tagged_roundtrip<T: Read>(call_id: u64, payload: T::Model, rest: Seq<u8>)
    requires
        T::spec_wf(payload),
    ensures
        decode_tagged::<T>(encode_tagged::<T>(call_id, payload) + rest) == Ok::<
            (u64, T::Model, nat),
            ReadError,
        >((call_id, payload, encode_tagged::<T>(call_id, payload).len())),
{
    let h = <u64 as Write>::spec_encode(call_id);
    let s = encode_tagged::<T>(call_id, payload) + rest;
    <u64 as Read>::lemma_roundtrip(call_id, T::spec_encode(payload) + rest);
    assert(s =~= h + (T::spec_encode(payload) + rest));
    assert(s.skip(8) =~= T::spec_encode(payload) + rest);
    T::lemma_roundtrip(payload, rest);
}

/// Reads a call id and then a payload from `buf` at `pos`.
fn read_tagged<T: Read>(buf: &[u8], pos: usize) -> (r: Result<(u64, T, usize), ReadError>)
    requires
        pos <= buf@.len(),
    ensures
        match decode_tagged::<T>(buf@.skip(pos as int)) {
            Ok((id, m, n)) => r matches Ok((i, v, p)) && i == id && v.model() == m && p == pos + n,
            Err(e) => r matches Err(x) && x == e,
        },
{
    let (id, p) = match u64::read(buf, pos) {
        Ok(x) => x,
        Err(e) => return Err(e),
    };
    assert(buf@.skip(pos as int).skip(8) =~= buf@.skip(p as int));
    proof {
        T::lemma_decode_length(buf@.skip(p as int));
    }
    match T::read(buf, p) {
        Ok((v, q)) => Ok((id, v, q)),
        Err(e) => Err(e),
    }
}

impl<T: Write> Write for Clientbound<T> {
    type Model = Clientbound<T::Model>;

    open spec fn model(&self) -> Clientbound<T::Model> {
        Clientbound { call_id: self.call_id, payload: self.payload.model() }
    }

    open spec fn spec_wf(m: Clientbound<T::Model>) -> bool {
        T::spec_wf(m.payload)
    }

    /// The call id, then the payload.
    open spec fn spec_encode(m: Clientbound<T::Model>) -> Seq<u8> {
        encode_tagged::<T>(m.call_id, m.payload)
    }

    fn write(&self, out: &mut Vec<u8>) {
        self.call_id.write(out);
        self.payload.write(out);
        assert(out@ =~= old(out)@ + Self::spec_encode(self.model()));
    }
}

impl<T: Read> Read for Clientbound<T> {
    open spec fn spec_decode(s: Seq<u8>) -> Result<(Clientbound<T::Model>, nat), ReadError> {
        match decode_tagged::<T>(s) {
            Ok((call_id, payload, n)) => Ok((Clientbound { call_id, payload }, n)),
            Err(e) => Err(e),
        }
    }

    proof fn lemma_decode_length(s: Seq<u8>) {
        lemma_decode_tagged_length::<T>(s);
    }

    proof fn lemma_decode_prefix(s: Seq<u8>, t: Seq<u8>) {
        lemma_decode_tagged_prefix::<T>(s, t);
    }

    proof fn lemma_roundtrip(m: Clientbound<T::Model>, rest: Seq<u8>) {
        lemma_decode_tagged_roundtrip::<T>(m.call_id, m.payload, rest);
    }

    fn read(buf: &[u8], pos: usize) -> (r: Result<(Self, usize), ReadError>) {
        match read_tagged::<T>(buf, pos) {
            Ok((call_id, payload, p)) => Ok((Clientbound { call_id, payload }, p)),
            Err(e) => Err(e),
        }
    }
}

impl<T: Write> Write for Serverbound<T> {
    type Model = Serverbound<T::Model>;

    open spec fn model(&self) -> Serverbound<T::Model> {
        Serverbound { call_id: self.call_id, payload: self.payload.model() }
    }

    open spec fn spec_wf(m: Serverbound<T::Model>) -> bool {
        T::spec_wf(m.payload)
    }

    /// The call id, then the payload.
    open spec fn spec_encode(m: Serverbound<T::Model>) -> Seq<u8> {
        encode_tagged::<T>(m.call_id, m.payload)
    }

    fn write(&self, out: &mut Vec<u8>) {
        self.call_id.write(out);
        self.payload.write(out);
        assert(out@ =~= old(out)@ + Self::spec_encode(self.model()));
    }
}

impl<T: Read> Read for Serverbound<T> {
    open spec fn spec_decode(s: Seq<u8>) -> Result<(Serverbound<T::Model>, nat), ReadError> {
        match decode_tagged::<T>(s) {
            Ok((call_id, payload, n)) => Ok((Serverbound { call_id, payload }, n)),
            Err(e) => Err(e),
        }
    }

    proof fn lemma_decode_length(s: Seq<u8>) {
        lemma_decode_tagged_length::<T>(s);
    }

    proof fn lemma_decode_prefix(s: Seq<u8>, t: Seq<u8>) {
        lemma_decode_tagged_prefix::<T>(s, t);
    }

    proof fn lemma_roundtrip(m: Serverbound<T::Model>, rest: Seq<u8>) {
        lemma_decode_tagged_roundtrip::<T>(m.call_id, m.payload, rest);
    }

    fn read(buf: &[u8], pos: usize) -> (r: Result<(Self, usize), ReadError>) {
        match read_tagged::<T>(buf, pos) {
            Ok((call_id, payload, p)) => Ok((Serverbound { call_id, payload }, p)),
            Err(e) => Err(e),
        }
    }
}

impl<T: Write, E: Write> Write for StreamPacket<T, E> {
    type Model = StreamPacket<T::Model, E::Model>;

    open spec fn model(&self) -> StreamPacket<T::Model, E::Model> {
        match self {
            StreamPacket::Value(v) => StreamPacket::Value(v.model()),
            StreamPacket::Error(e) => StreamPacket::Error(e.model()),
            StreamPacket::EndOfStream => StreamPacket::EndOfStream,
        }
    }

    open spec fn spec_wf(m: StreamPacket<T::Model, E::Model>) -> bool {
        match m {
            StreamPacket::Value(v) => T::spec_wf(v),
            StreamPacket::Error(e) => E::spec_wf(e),
            StreamPacket::EndOfStream => true,
        }
    }

    /// `Value` has discriminant 0, `Error` 1 and `EndOfStream` 2.
    open spec fn spec_encode(m: StreamPacket<T::Model, E::Model>) -> Seq<u8> {
        match m {
            StreamPacket::Value(v) => <u64 as Write>::spec_encode(0) + T::spec_encode(v),
            StreamPacket::Error(e) => <u64 as Write>::spec_encode(1) + E::spec_encode(e),
            StreamPacket::EndOfStream => <u64 as Write>::spec_encode(2),
        }
    }

    fn write(&self, out: &mut Vec<u8>) {
        match self {
            StreamPacket::Value(v) => {
                0u64.write(out);
                v.write(out);
            },
            StreamPacket::Error(e) => {
                1u64.write(out);
                e.write(out);
            },
            StreamPacket::EndOfStream => {
                2u64.write(out);
            },
        }
        assert(out@ =~= old(out)@ + Self::spec_encode(self.model()));
    }
}

impl<T: Read, E: Read> Read for StreamPacket<T, E> {
    open spec fn spec_decode(s: Seq<u8>) -> Result<(StreamPacket<T::Model, E::Model>, nat), ReadError> {
        match <u64 as Read>::spec_decode(s) {
            Err(e) => Err(e),
            Ok((d, k)) => if d as usize == 0 {
                match decode_after::<T>(s, k) {
                    Ok((v, n)) => Ok((StreamPacket::Value(v), n)),
                    Err(e) => Err(e),
                }
            } else if d as usize == 1 {
                match decode_after::<E>(s, k) {
                    Ok((v, n)) => Ok((StreamPacket::Error(v), n)),
                    Err(e) => Err(e),
                }
            } else if d as usize == 2 {
                Ok((StreamPacket::EndOfStream, k))
            } else {
                Err(invalid_discriminant("StreamPacket", d))
            },
        }
    }

    proof fn lemma_decode_length(s: Seq<u8>) {
        if let Ok((d, k)) = <u64 as Read>::spec_decode(s) {
            if k <= s.len() {
                T::lemma_decode_length(s.skip(k as int));
                E::lemma_decode_length(s.skip(k as int));
            }
        }
    }

    proof fn lemma_decode_prefix(s: Seq<u8>, t: Seq<u8>) {
        <u64 as Read>::lemma_decode_prefix(s, t);
        if let Ok((d, k)) = <u64 as Read>::spec_decode(s) {
            assert((s + t).skip(k as int) =~= s.skip(k as int) + t);
            T::lemma_decode_prefix(s.skip(k as int), t);
            E::lemma_decode_prefix(s.skip(k as int), t);
        }
    }

    proof fn lemma_roundtrip(m: StreamPacket<T::Model, E::Model>, rest: Seq<u8>) {
        match m {
            StreamPacket::Value(v) => {
                let s = Self::spec_encode(m) + rest;
                <u64 as Read>::lemma_roundtrip(0, T::spec_encode(v) + rest);
                assert(s =~= <u64 as Write>::spec_encode(0) + (T::spec_encode(v) + rest));
                assert(s.skip(8) =~= T::spec_encode(v) + rest);
                T::lemma_roundtrip(v, rest);
            },
            StreamPacket::Error(e) => {
                let s = Self::spec_encode(m) + rest;
                <u64 as Read>::lemma_roundtrip(1, E::spec_encode(e) + rest);
                assert(s =~= <u64 as Write>::spec_encode(1) + (E::spec_encode(e) + rest));
                assert(s.skip(8) =~= E::spec_encode(e) + rest);
                E::lemma_roundtrip(e, rest);
            },
            StreamPacket::EndOfStream => {
                <u64 as Read>::lemma_roundtrip(2, rest);
            },
        }
    }

    fn read(buf: &[u8], pos: usize) -> (r: Result<(Self, usize), ReadError>) {
        let (d, p) = match u64::read(buf, pos) {
            Ok(x) => x,
            Err(e) => return Err(e),
        };
        assert(buf@.skip(pos as int).skip(8) =~= buf@.skip(p as int));
        match d as usize {
            0 => match T::read(buf, p) {
                Ok((v, q)) => Ok((StreamPacket::Value(v), q)),
                Err(e) => Err(e),
            },
            1 => match E::read(buf, p) {
                Ok((v, q)) => Ok((StreamPacket::Error(v), q)),
                Err(e) => Err(e),
            },
            2 => Ok((StreamPacket::EndOfStream, p)),
            value => Err(
                ReadError::InvalidDiscriminant(
                    InvalidDiscriminantError { enum_name: "StreamPacket", value },
                ),
            ),
        }
    }
}

} // verus!
