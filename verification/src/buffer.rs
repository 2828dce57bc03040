//! A staging buffer of fixed capacity in front of a sink, and the laws of
//! writing through it.

use crate::error::ExtractError;
use crate::sink::absorbed;
use crate::sink::fits;
use crate::sink::Sink;
use vstd::prelude::*;

verus! {

/// A sink together with the buffer in front of it, as mathematical values:
/// the bytes that the sink holds, the bytes that wait in the buffer, and
/// whether every byte written so far still has its place in one of the two.
pub struct Pipe {
    pub held: Seq<u8>,
    pub staged: Seq<u8>,
    pub ok: bool,
}

/// The pipe of a sink that holds `held`, with nothing waiting in the buffer.
pub open spec fn fresh(held: Seq<u8>) -> Pipe {
    Pipe { held, staged: Seq::<u8>::empty(), ok: true }
}

/// Whether `data` is put into a buffer of `capacity` bytes that holds `staged`
/// without anything being passed on to the sink: it must be shorter than the
/// buffer and find room beside what waits there.
pub open spec fn stages(staged: Seq<u8>, data: Seq<u8>, capacity: nat) -> bool {
    data.len() < capacity && staged.len() + data.len() <= capacity
}

/// The pipe after a flush: the sink, which takes `limit` bytes at most, is
/// offered what waits in the buffer, and the buffer is emptied. The pipe stays
/// `ok` if the sink had room for all of it.
pub open spec fn flushed(pipe: Pipe, limit: nat) -> Pipe {
    Pipe {
        held: absorbed(pipe.held, pipe.staged, limit),
        staged: Seq::<u8>::empty(),
        ok: pipe.ok && fits(pipe.held, pipe.staged, limit),
    }
}

/// The pipe after `data` is written through a buffer of `capacity` bytes to a
/// sink that takes `limit` bytes at most.
///
/// Where `data` finds room in the buffer it waits there. Otherwise the buffer
/// is flushed first; if the sink took all of that, `data` waits in the emptied
/// buffer if it is shorter than the buffer, and is offered to the sink at once
/// if it is not. A pipe that is no longer `ok` takes nothing more.
pub open spec fn written(pipe: Pipe, data: Seq<u8>, capacity: nat, limit: nat) -> Pipe {
    if !pipe.ok {
        pipe
    } else if stages(pipe.staged, data, capacity) {
        Pipe { staged: pipe.staged + data, ..pipe }
    } else {
        let emptied = flushed(pipe, limit);
        if !emptied.ok {
            emptied
        } else if data.len() < capacity {
            Pipe { staged: data, ..emptied }
        } else {
            Pipe {
                held: absorbed(emptied.held, data, limit),
                staged: Seq::<u8>::empty(),
                ok: fits(emptied.held, data, limit),
            }
        }
    }
}

/// The chunks laid end to end.
pub open spec fn joined(chunks: Seq<Seq<u8>>) -> Seq<u8>
    decreases chunks.len(),
{
    if chunks.len() == 0 {
        Seq::<u8>::empty()
    } else {
        joined(chunks.drop_last()) + chunks.last()
    }
}

/// The pipe after the chunks are written to it one after the other.
pub open spec fn fed(pipe: Pipe, chunks: Seq<Seq<u8>>, capacity: nat, limit: nat) -> Pipe
    decreases chunks.len(),
{
    if chunks.len() == 0 {
        pipe
    } else {
        written(fed(pipe, chunks.drop_last(), capacity, limit), chunks.last(), capacity, limit)
    }
}

/// The pipe at the end of a delivery: the chunks are written one after the
/// other through an empty buffer of `capacity` bytes to a sink that holds
/// `held` and takes `limit` bytes at most, and the buffer is flushed.
pub open spec fn delivered(held: Seq<u8>, chunks: Seq<Seq<u8>>, capacity: nat, limit: nat) -> Pipe {
    flushed(fed(fresh(held), chunks, capacity, limit), limit)
}

/// Offering `first` and then `second` to a sink leaves in it what offering
/// them in one piece does; and a sink that had no room for all of `first`
/// holds the same whatever is offered after it.
pub proof fn lemma_absorbed_twice(held: Seq<u8>, first: Seq<u8>, second: Seq<u8>, limit: nat)
    requires
        held.len() <= limit,
    ensures
        absorbed(absorbed(held, first, limit), second, limit) == absorbed(
            held,
            first + second,
            limit,
        ),
        absorbed(held, first, limit).len() <= limit,
        !fits(held, first, limit) ==> absorbed(held, first, limit) == absorbed(
            held,
            first + second,
            limit,
        ),
{
}

/// Flushing a pipe that is `ok` and holds, in sink and buffer together, what
/// the sink held at first and then `sent`, leaves in the sink what offering
/// `sent` at once to the sink as it was at first would have left.
pub proof fn lemma_settled(held: Seq<u8>, sent: Seq<u8>, pipe: Pipe, limit: nat)
    requires
        held.len() <= limit,
        pipe.held.len() <= limit,
        pipe.ok,
        pipe.held + pipe.staged == held + sent,
    ensures
        flushed(pipe, limit).held == absorbed(held, sent, limit),
        flushed(pipe, limit).ok == fits(held, sent, limit),
{
    let whole = held + sent;
    assert(whole.len() == pipe.held.len() + pipe.staged.len());
    if !fits(held, sent, limit) {
        assert(pipe.held + pipe.staged.take(limit - pipe.held.len()) == whole.take(limit as int));
    }
}

/// What writing chunks through a buffer preserves. While the pipe is `ok`, the
/// sink and the buffer together hold what the sink held at first and every
/// chunk written since, in order, and the buffer holds no more than its
/// capacity. Once it is not, the chunks did not fit, the sink is filled with as
/// much of them as it had room for, and the buffer is empty.
pub proof fn lemma_fed(held: Seq<u8>, chunks: Seq<Seq<u8>>, capacity: nat, limit: nat)
    requires
        held.len() <= limit,
    ensures
        ({
            let pipe = fed(fresh(held), chunks, capacity, limit);
            &&& pipe.held.len() <= limit
            &&& pipe.staged.len() <= capacity
            &&& pipe.ok ==> pipe.held + pipe.staged == held + joined(chunks)
            &&& !pipe.ok ==> {
                &&& pipe.staged.len() == 0
                &&& !fits(held, joined(chunks), limit)
                &&& pipe.held == absorbed(held, joined(chunks), limit)
            }
        }),
    decreases chunks.len(),
{
    if chunks.len() > 0 {
        let data = chunks.last();
        let sent = joined(chunks.drop_last());
        let pipe = fed(fresh(held), chunks.drop_last(), capacity, limit);
        lemma_fed(held, chunks.drop_last(), capacity, limit);
        lemma_absorbed_twice(held, sent, data, limit);
        if pipe.ok {
            assert((held + sent) + data == held + (sent + data));
            if !stages(pipe.staged, data, capacity) {
                lemma_settled(held, sent, pipe, limit);
            }
        }
    }
}

/// Delivery is exact: once the chunks are written and the buffer is flushed,
/// the sink holds what it held at first, followed by the chunks laid end to
/// end as far as it has room for them; the pipe is `ok` if it had room for all
/// of them; and nothing waits in the buffer.
pub proof fn lemma_delivered(held: Seq<u8>, chunks: Seq<Seq<u8>>, capacity: nat, limit: nat)
    requires
        held.len() <= limit,
    ensures
        delivered(held, chunks, capacity, limit).held == absorbed(held, joined(chunks), limit),
        delivered(held, chunks, capacity, limit).ok == fits(held, joined(chunks), limit),
        delivered(held, chunks, capacity, limit).staged == Seq::<u8>::empty(),
{
    let pipe = fed(fresh(held), chunks, capacity, limit);
    lemma_fed(held, chunks, capacity, limit);
    if pipe.ok {
        lemma_settled(held, joined(chunks), pipe, limit);
    }
}

/// A delivery does not depend on the size of the buffer nor on where the
/// bytes are cut into chunks: two deliveries of the same bytes to the same
/// sink end alike, whatever the two capacities and the two cuts.
pub proof fn lemma_buffer_size_is_immaterial(
    held: Seq<u8>,
    limit: nat,
    chunks: Seq<Seq<u8>>,
    capacity: nat,
    other_chunks: Seq<Seq<u8>>,
    other_capacity: nat,
)
    requires
        held.len() <= limit,
        joined(chunks) == joined(other_chunks),
    ensures
        delivered(held, chunks, capacity, limit) == delivered(
            held,
            other_chunks,
            other_capacity,
            limit,
        ),
{
    lemma_delivered(held, chunks, capacity, limit);
    lemma_delivered(held, other_chunks, other_capacity, limit);
}

/// A buffer of fixed capacity in which bytes wait on their way to a sink, so
/// that the sink is written to in few large pieces.
pub struct WriteBuffer {
    staged: Vec<u8>,
    capacity: usize,
}

impl View for WriteBuffer {
    type V = Seq<u8>;

    /// The bytes that wait in the buffer, in the order in which they came.
    closed spec fn view(&self) -> Seq<u8> {
        self.staged@
    }
}

impl WriteBuffer {
    /// The number of bytes that the buffer holds at most.
    pub closed spec fn spec_capacity(&self) -> usize {
        self.capacity
    }

    /// The buffer holds no more bytes than its capacity: true of every
    /// buffer that this library hands out or has written through.
    pub open spec fn wf(&self) -> bool {
        self@.len() <= self.capacity()
    }

    /// The buffer and the sink behind it as a pipe.
    pub open spec fn pipe(&self, sink: &Sink, ok: bool) -> Pipe {
        Pipe { held: sink@, staged: self@, ok }
    }

    /// An empty buffer that holds `capacity` bytes at most. With a capacity
    /// of 0 nothing ever waits in it: every write goes to the sink at once.
    pub fn new(capacity: usize) -> (buffer: WriteBuffer)
        ensures
            buffer.wf(),
            buffer@ == Seq::<u8>::empty(),
            buffer.capacity() == capacity,
    {
        WriteBuffer { staged: Vec::new(), capacity }
    }

    /// The number of bytes that the buffer holds at most.
    #[verifier::when_used_as_spec(spec_capacity)]
    pub fn capacity(&self) -> (capacity: usize)
        ensures
            capacity == self.capacity(),
    {
        self.capacity
    }

    /// Offers what waits in the buffer to `sink` and empties the buffer.
    /// Fails with `Write` if the sink had no room for all of it; the sink
    /// then holds as much of it as it had room for, and the rest is dropped.
    pub fn flush(&mut self, sink: &mut Sink) -> (r: Result<(), ExtractError>)
        requires
            old(self).wf(),
            old(sink).wf(),
        ensures
            final(self).wf(),
            final(sink).wf(),
            final(self).capacity() == old(self).capacity(),
            final(sink).capacity() == old(sink).capacity(),
            final(self).pipe(final(sink), r is Ok) == flushed(
                old(self).pipe(old(sink), true),
                old(sink).capacity() as nat,
            ),
            r is Err ==> r == Err::<(), ExtractError>(ExtractError::Write),
    {
        let taken = sink.write(self.staged.as_slice());
        let whole = taken == self.staged.len();
        self.staged.clear();
        if whole {
            Ok(())
        } else {
            Err(ExtractError::Write)
        }
    }

    /// Writes `data` through the buffer to `sink`: `data` waits in the
    /// buffer where there is room for it, and otherwise the buffer is flushed
    /// and `data` either waits in it or, if it is as long as the buffer or
    /// longer, is offered to the sink at once. Fails with `Write` as soon as
    /// the sink is offered bytes that it has no room for; the sink then holds
    /// as many of the bytes offered as it had room for.
    pub fn write(&mut self, data: &[u8], sink: &mut Sink) -> (r: Result<(), ExtractError>)
        requires
            old(self).wf(),
            old(sink).wf(),
        ensures
            final(self).wf(),
            final(sink).wf(),
            final(self).capacity() == old(self).capacity(),
            final(sink).capacity() == old(sink).capacity(),
            final(self).pipe(final(sink), r is Ok) == written(
                old(self).pipe(old(sink), true),
                data@,
                old(self).capacity() as nat,
                old(sink).capacity() as nat,
            ),
            r is Err ==> r == Err::<(), ExtractError>(ExtractError::Write),
    {
        let spare: usize = self.capacity - self.staged.len();
        if data.len() < self.capacity && data.len() <= spare {
            let ghost waiting = self.staged@;
            self.staged.extend_from_slice(data);
            assert(self.staged@ == waiting + data@);
            return Ok(());
        }
        match self.flush(sink) {
            Ok(()) => {},
            Err(error) => {
                return Err(error);
            },
        }
        if data.len() < self.capacity {
            self.staged.extend_from_slice(data);
            assert(self.staged@ == data@);
            Ok(())
        } else {
            let taken = sink.write(data);
            if taken == data.len() {
                Ok(())
            } else {
                Err(ExtractError::Write)
            }
        }
    }
}

} // verus!
