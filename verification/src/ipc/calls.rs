//! The bookkeeping of a client's calls: the id each call gets, the calls
//! that still wait for an answer, and how the packets of an answer decide
//! what the caller sees.

use std::collections::HashMap;
use vstd::prelude::*;

use super::packet::{ClientError, Error, StreamPacket};

verus! {

broadcast use vstd::std_specs::hash::group_hash_axioms;

/// What answer a pending call waits for.
#[derive(Clone, Copy, Debug, PartialEq, Eq, Structural)]
pub enum CallKind {
    /// One response.
    Single,
    /// A stream of packets, up to its end.
    Stream,
}

/// The calls of a client that still wait for an answer, and the id that
/// the next call gets.
#[derive(Debug)]
pub struct CallTable {
    next_call_id: u64,
    pending: HashMap<u64, CallKind>,
}

/// The id after `id`; after the greatest id, ids start again from zero.
pub open spec fn following_id(id: u64) -> u64 {
    if id == u64::MAX {
        0
    } else {
        (id + 1) as u64
    }
}

impl CallTable {
    /// The id that the next call gets.
    pub closed spec fn next_id(&self) -> u64 {
        self.next_call_id
    }

    /// The pending calls, by id.
    pub closed spec fn pending(&self) -> Map<u64, CallKind> {
        self.pending@
    }

    /// Every pending call has an id below the next one: no id was handed out
    /// twice.
    pub open spec fn fresh(&self) -> bool {
        forall|id: u64| #[trigger] self.pending().contains_key(id) ==> id < self.next_id()
    }

    /// A table with no call, whose first call gets the id zero.
    pub fn new() -> (r: Self)
        ensures
            r.next_id() == 0,
            r.pending() == Map::<u64, CallKind>::empty(),
            r.fresh(),
    {
        CallTable { next_call_id: 0, pending: HashMap::new() }
    }

    /// Registers a call waiting for an answer of kind `kind`: it gets the
    /// next id, and the next id moves on by one.
    pub fn register(&mut self, kind: CallKind) -> (id: u64)
        ensures
            id == old(self).next_id(),
            final(self).next_id() == following_id(old(self).next_id()),
            final(self).pending() == old(self).pending().insert(id, kind),
            old(self).fresh() ==> !old(self).pending().contains_key(id),
            old(self).fresh() && old(self).next_id() < u64::MAX ==> final(self).fresh(),
    {
        let id = self.next_call_id;
        self.next_call_id = self.next_call_id.wrapping_add(1);
        self.pending.insert(id, kind);
        proof {
            if old(self).fresh() && id < u64::MAX {
                assert forall|k: u64| #[trigger] self.pending().contains_key(k) implies k
                    < self.next_id() by {
                    if k != id {
                        assert(old(self).pending().contains_key(k));
                    }
                }
            }
        }
        id
    }

    /// Forgets the call `id`: its packet could not be sent, it is answered,
    /// or nobody waits for its answer any more.
    pub fn forget(&mut self, id: u64)
        ensures
            final(self).next_id() == old(self).next_id(),
            final(self).pending() == old(self).pending().remove(id),
            old(self).fresh() ==> final(self).fresh(),
    {
        self.pending.remove(&id);
    }

    /// The kind of the pending call `id`, if one waits.
    pub fn lookup(&self, id: u64) -> (r: Option<CallKind>)
        ensures
            r == (if self.pending().contains_key(id) {
                Some(self.pending()[id])
            } else {
                None
            }),
    {
        match self.pending.get(&id) {
            Some(kind) => Some(*kind),
            None => None,
        }
    }

    /// After the answer packet of call `id` was handled: the call is
    /// forgotten when `done`.
    pub fn after_packet(&mut self, id: u64, done: bool)
        ensures
            final(self).next_id() == old(self).next_id(),
            final(self).pending() == (if done {
                old(self).pending().remove(id)
            } else {
                old(self).pending()
            }),
            old(self).fresh() ==> final(self).fresh(),
    {
        if done {
            self.forget(id);
        }
    }

    /// The connection is lost: every pending call is dropped, so that each
    /// caller learns it.
    pub fn clear(&mut self)
        ensures
            final(self).next_id() == old(self).next_id(),
            final(self).pending() == Map::<u64, CallKind>::empty(),
            final(self).fresh(),
    {
        self.pending.clear();
    }
}

/// The id that the call registered `j`th in a row gets, counting from
/// zero, when the next id was `start`: [`CallTable::register`] hands out the
/// next id and moves it on to [`following_id`].
pub open spec fn nth_id(start: u64, j: nat) -> u64
    decreases j,
{
    if j == 0 {
        start
    } else {
        following_id(nth_id(start, (j - 1) as nat))
    }
}

proof fn lemma_nth_id(start: u64, j: nat)
    requires
        j <= u64::MAX,
    ensures
        nth_id(start, j) == if start + j <= u64::MAX {
            start + j
        } else {
            start + j - u64::MAX - 1
        },
    decreases j,
{
    if j > 0 {
        lemma_nth_id(start, (j - 1) as nat);
    }
}

/// Law: calls registered one after another get ids that follow each other,
/// so that any two of 2^64 calls in a row get different ids: each answer
/// goes back to one call.
pub proof fn law_call_ids_distinct(start: u64, i: nat, j: nat)
    requires
        i < j <= u64::MAX,
    ensures
        nth_id(start, i) != nth_id(start, j),
{
    lemma_nth_id(start, i);
    lemma_nth_id(start, j);
}

/// Law: a call registered and then forgotten leaves the pending calls as
/// they were. [`CallTable::register`] gives a call an id that no pending call
/// has, when no id was handed out twice.
pub proof fn law_register_then_forget(pending: Map<u64, CallKind>, id: u64, kind: CallKind)
    requires
        !pending.contains_key(id),
    ensures
        pending.insert(id, kind).remove(id) == pending,
{
    assert(pending.insert(id, kind).remove(id) =~= pending);
}

/// Whether a packet of a streamed answer is its last: a packet that could
/// not be read, the end of the stream, or an error.
pub open spec fn spec_is_end_packet<T, E>(value: Result<StreamPacket<T, E>, Error>) -> bool {
    match value {
        Err(_) => true,
        Ok(StreamPacket::EndOfStream) => true,
        Ok(StreamPacket::Error(_)) => true,
        Ok(StreamPacket::Value(_)) => false,
    }
}

/// Whether `value` is the last packet of a streamed answer.
pub fn is_end_packet<T, E>(value: &Result<StreamPacket<T, E>, Error>) -> (r: bool)
    ensures
        r == spec_is_end_packet(*value),
{
    match value {
        Err(_) => true,
        Ok(StreamPacket::EndOfStream) => true,
        Ok(StreamPacket::Error(_)) => true,
        Ok(StreamPacket::Value(_)) => false,
    }
}

/// Whether a call is done once one of its packets was handled: a single
/// answer always is; a stream is done at its last packet, or when the
/// caller no longer takes packets (`delivered` false).
pub fn call_done<T, E>(kind: CallKind, value: &Result<StreamPacket<T, E>, Error>, delivered: bool) -> (r: bool)
    ensures
        r == match kind {
            CallKind::Single => true,
            CallKind::Stream => !delivered || spec_is_end_packet(*value),
        },
{
    match kind {
        CallKind::Single => true,
        CallKind::Stream => !delivered || is_end_packet(value),
    }
}

/// The answer of a single call: what the reader handed over, or a broken
/// connection when nothing came.
pub fn call_result<R>(received: Option<Result<R, Error>>) -> (r: Result<R, Error>)
    ensures
        r == match received {
            Some(x) => x,
            None => Err(Error::ConnectionBroken),
        },
{
    match received {
        Some(x) => x,
        None => Err(Error::ConnectionBroken),
    }
}

/// How a streamed answer starts, after its first packet.
#[derive(Clone, Debug, PartialEq, Eq)]
pub enum StreamStart<T, E> {
    /// The stream yields this value first, then reads on.
    Value(T),
    /// The stream is empty.
    Empty,
    /// The server refused the call with this error.
    Refused(E),
}

/// How a streamed answer starts: a broken connection or an unreadable
/// packet fails the call; otherwise the first packet says.
pub fn stream_start<T, E>(received: Option<Result<StreamPacket<T, E>, Error>>) -> (r: Result<
    StreamStart<T, E>,
    Error,
>)
    ensures
        r == match received {
            None => Err(Error::ConnectionBroken),
            Some(Err(e)) => Err(e),
            Some(Ok(StreamPacket::Value(x))) => Ok(StreamStart::Value(x)),
            Some(Ok(StreamPacket::EndOfStream)) => Ok(StreamStart::<T, E>::Empty),
            Some(Ok(StreamPacket::Error(e))) => Ok(StreamStart::Refused(e)),
        },
{
    match received {
        None => Err(Error::ConnectionBroken),
        Some(Err(e)) => Err(e),
        Some(Ok(StreamPacket::Value(x))) => Ok(StreamStart::Value(x)),
        Some(Ok(StreamPacket::EndOfStream)) => Ok(StreamStart::Empty),
        Some(Ok(StreamPacket::Error(e))) => Ok(StreamStart::Refused(e)),
    }
}

/// What a streamed answer does with a later packet.
#[derive(Clone, Debug, PartialEq, Eq)]
pub enum StreamStep<T> {
    /// Yield this value and read on.
    Yield(T),
    /// Yield this error and end.
    Fail(Error),
    /// End.
    Stop,
}

/// What a streamed answer does with a packet after the first: a value is
/// yielded; a broken connection or an unreadable packet is yielded as an
/// error and ends the stream; the end, or an error (which only a first
/// packet may carry), ends it.
pub fn stream_step<T, E>(received: Option<Result<StreamPacket<T, E>, Error>>) -> (r: StreamStep<T>)
    ensures
        r == match received {
            None => StreamStep::Fail(Error::ConnectionBroken),
            Some(Err(e)) => StreamStep::Fail(e),
            Some(Ok(StreamPacket::Value(x))) => StreamStep::Yield(x),
            Some(Ok(StreamPacket::EndOfStream)) => StreamStep::<T>::Stop,
            Some(Ok(StreamPacket::Error(_))) => StreamStep::<T>::Stop,
        },
{
    match received {
        None => StreamStep::Fail(Error::ConnectionBroken),
        Some(Err(e)) => StreamStep::Fail(e),
        Some(Ok(StreamPacket::Value(x))) => StreamStep::Yield(x),
        Some(Ok(StreamPacket::EndOfStream)) => StreamStep::Stop,
        Some(Ok(StreamPacket::Error(_))) => StreamStep::Stop,
    }
}

/// One step of a streamed answer of a [`ClientError`] connection, from
/// whether the broken connection was already reported and what the reader
/// handed over (`None` once nothing more comes; `Ok(None)` at the end of
/// the stream): whether it is reported now, and what the stream yields
/// (`None` to end).
pub fn connection_stream_step<R, T, U>(
    error_sent: bool,
    received: Option<Result<Option<R>, ClientError<T, U>>>,
) -> (r: (bool, Option<Result<R, ClientError<T, U>>>))
    ensures
        r == match received {
            None => if error_sent {
                (true, None)
            } else {
                (true, Some(Err(ClientError::<T, U>::Connection)))
            },
            Some(Err(e)) => (error_sent, Some(Err(e))),
            Some(Ok(None)) => (error_sent, None),
            Some(Ok(Some(x))) => (error_sent, Some(Ok(x))),
        },
{
    match received {
        None => if error_sent {
            (true, None)
        } else {
            (true, Some(Err(ClientError::Connection)))
        },
        Some(Err(e)) => (error_sent, Some(Err(e))),
        Some(Ok(None)) => (error_sent, None),
        Some(Ok(Some(x))) => (error_sent, Some(Ok(x))),
    }
}

/// The packets that a server sends for the stream of `items` answering
/// call `id`: each item as a value, then the end of the stream.
pub fn stream_with_id<T, E>(id: u64, items: Vec<T>) -> (r: Vec<(u64, StreamPacket<T, E>)>)
    ensures
        r@.len() == items@.len() + 1,
        forall|i: int| 0 <= i < items@.len() ==> #[trigger] r@[i] == (id, StreamPacket::<T, E>::Value(items@[i])),
        r@[items@.len() as int] == (id, StreamPacket::<T, E>::EndOfStream),
{
    let mut out: Vec<(u64, StreamPacket<T, E>)> = Vec::new();
    let mut rest = items;
    let ghost all = rest@;
    while rest.len() > 0
        invariant
            out@.len() + rest@.len() == all.len(),
            rest@ == all.skip(out@.len() as int),
            forall|i: int| 0 <= i < out@.len() ==> #[trigger] out@[i] == (id, StreamPacket::<T, E>::Value(all[i])),
        decreases rest.len(),
    {
        let item = rest.remove(0);
        proof {
            assert(item == all[out@.len() as int]);
        }
        out.push((id, StreamPacket::Value(item)));
        assert(rest@ =~= all.skip(out@.len() as int));
    }
    out.push((id, StreamPacket::EndOfStream));
    out
}

} // verus!
