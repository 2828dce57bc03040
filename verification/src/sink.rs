//! A destination for a sequential stream of bytes, with a bound on how many it takes.

use vstd::prelude::*;
use vstd::slice::slice_subrange;

verus! {

/// How many more bytes a sink that holds `held` bytes takes before it has `capacity` of them.
pub open spec fn room(held: nat, capacity: nat) -> nat {
    if held <= capacity {
        (capacity - held) as nat
    } else {
        0
    }
}

/// Whether a sink that holds `held` and takes `capacity` bytes at most has room for all of `data`.
pub open spec fn fits(held: Seq<u8>, data: Seq<u8>, capacity: nat) -> bool {
    held.len() + data.len() <= capacity
}

/// What a sink that holds `held` and takes `capacity` bytes at most holds once
/// `data` was offered to it: `held`, followed by all of `data` if there is room
/// for it, and else by as long a prefix of `data` as there is room for.
pub open spec fn absorbed(held: Seq<u8>, data: Seq<u8>, capacity: nat) -> Seq<u8> {
    if data.len() <= room(held.len(), capacity) {
        held + data
    } else {
        held + data.take(room(held.len(), capacity) as int)
    }
}

/// What `absorbed` comes to. A sink that has room for all of `data` holds it
/// after what it held. One that has not is filled to its capacity, with as
/// many bytes from the front of `data` as it had room for: no other bytes, and
/// none fewer.
pub proof fn lemma_absorbed(held: Seq<u8>, data: Seq<u8>, capacity: nat)
    requires
        held.len() <= capacity,
    ensures
        fits(held, data, capacity) ==> absorbed(held, data, capacity) == held + data,
        !fits(held, data, capacity) ==> {
            &&& absorbed(held, data, capacity) == held + data.take(capacity - held.len())
            &&& absorbed(held, data, capacity) == (held + data).take(capacity as int)
            &&& absorbed(held, data, capacity).len() == capacity
        },
{
}

/// A sink in memory: the bytes written to it so far, in order, and the number
/// of bytes that it takes at most.
pub struct Sink {
    bytes: Vec<u8>,
    capacity: usize,
}

impl View for Sink {
    type V = Seq<u8>;

    /// The bytes that the sink holds, in the order in which they were written.
    closed spec fn view(&self) -> Seq<u8> {
        self.bytes@
    }
}

impl Sink {
    /// The sink holds no more bytes than it takes: true of every sink that
    /// this library hands out or has written to.
    pub open spec fn wf(&self) -> bool {
        self@.len() <= self.capacity()
    }

    /// The number of bytes that the sink takes at most.
    pub closed spec fn spec_capacity(&self) -> usize {
        self.capacity
    }

    /// An empty sink that takes as many bytes as memory can hold.
    pub fn new() -> (sink: Sink)
        ensures
            sink.wf(),
            sink@ == Seq::<u8>::empty(),
            sink.capacity() == usize::MAX,
    {
        Sink { bytes: Vec::new(), capacity: usize::MAX }
    }

    /// An empty sink that takes `capacity` bytes and refuses what comes after them.
    pub fn bounded(capacity: usize) -> (sink: Sink)
        ensures
            sink.wf(),
            sink@ == Seq::<u8>::empty(),
            sink.capacity() == capacity,
    {
        Sink { bytes: Vec::new(), capacity }
    }

    /// The number of bytes that the sink takes at most.
    #[verifier::when_used_as_spec(spec_capacity)]
    pub fn capacity(&self) -> (capacity: usize)
        ensures
            capacity == self.capacity(),
    {
        self.capacity
    }

    /// The number of bytes that the sink holds.
    pub fn len(&self) -> (len: usize)
        ensures
            len == self@.len(),
    {
        self.bytes.len()
    }

    /// The bytes that the sink holds.
    pub fn as_slice(&self) -> (bytes: &[u8])
        ensures
            bytes@ == self@,
    {
        self.bytes.as_slice()
    }

    /// Gives up the sink for the bytes that it holds.
    pub fn into_bytes(self) -> (bytes: Vec<u8>)
        ensures
            bytes@ == self@,
    {
        self.bytes
    }

    /// Offers `data` to the sink, which takes as long a prefix of it as it has
    /// room for, and returns the length of that prefix. Nothing that the sink
    /// held before is changed.
    pub fn write(&mut self, data: &[u8]) -> (taken: usize)
        requires
            old(self).wf(),
        ensures
            final(self).wf(),
            final(self)@ == absorbed(old(self)@, data@, old(self).capacity() as nat),
            final(self).capacity() == old(self).capacity(),
            taken == final(self)@.len() - old(self)@.len(),
            taken == data@.len() <==> fits(old(self)@, data@, old(self).capacity() as nat),
    {
        let room: usize = self.capacity - self.bytes.len();
        let taken: usize = if data.len() <= room {
            data.len()
        } else {
            room
        };
        let head = slice_subrange(data, 0, taken);
        let ghost held = self.bytes@;
        self.bytes.extend_from_slice(head);
        taken
    }
}

} // verus!
