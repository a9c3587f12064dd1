//! Values that may be sent where a value of another type is expected,
//! because they are written with the same bytes.

use vstd::prelude::*;

use super::rw::Write;

verus! {

/// A value that is written as a `T` of the same value would be.
pub trait Writable<T: Write>: Write {
    /// The `T` value that `m` is written as.
    spec fn as_target(m: Self::Model) -> T::Model;

    /// Writing `m` gives the bytes of writing its `T` value.
    proof fn lemma_writes_as_target(m: Self::Model)
        ensures
            Self::spec_encode(m) == T::spec_encode(Self::as_target(m)),
            Self::spec_wf(m) == T::spec_wf(Self::as_target(m)),
    ;
}

impl<T: Write> Writable<T> for T {
    open spec fn as_target(m: T::Model) -> T::Model {
        m
    }

    proof fn lemma_writes_as_target(m: T::Model) {
    }
}

impl<'a> Writable<String> for &'a str {
    open spec fn as_target(m: Seq<char>) -> Seq<char> {
        m
    }

    proof fn lemma_writes_as_target(m: Seq<char>) {
    }
}

impl<'a, T: Write> Writable<Vec<T>> for &'a [T] {
    open spec fn as_target(m: Seq<T::Model>) -> Seq<T::Model> {
        m
    }

    proof fn lemma_writes_as_target(m: Seq<T::Model>) {
    }
}

/// A value may stand in for a `T` on the wire: it is written with the bytes
/// of the `T` that it stands for.
pub proof fn law_writable_same_bytes<T: Write, W: Writable<T>>(m: W::Model)
    ensures
        W::spec_encode(m) == T::spec_encode(W::as_target(m)),
{
    W::lemma_writes_as_target(m);
}

} // verus!
