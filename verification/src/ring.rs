//! The ring buffer, its exclusive write guard, and the shared reader cursor.
//!
//! The buffer keeps, besides its slots, a ghost log of every message ever
//! appended. All contracts are stated over that log, the append count
//! (`generation`), and the [`latest_stamp`] model of which append each slot
//! currently holds.

use vstd::prelude::*;
use crate::stamp::CAPACITY;
use crate::stamp::latest_stamp;
use crate::stamp::lemma_stamp_bounds;
use crate::stamp::lemma_stamp_at_least;
use crate::stamp::lemma_delivery_in_order;
use crate::stamp::lemma_overrun_freshness;
use vstd::pervasive::VecAdditionalExecFns;

verus! {

/// One storage cell: an 8-byte message and the generation that last wrote it.
#[derive(Clone, Copy)]
struct Block {
    version: usize,
    message: [u8; 8],
}

/// A fixed-size, non-write-blocking ring buffer that behaves like an SPMC
/// queue: one exclusive writer appends, any number of reader cursors poll.
/// Slow readers are overrun rather than ever slowing the writer down.
pub struct RingBuffer {
    index: usize,
    version: usize,
    locked: bool,
    data: Vec<Block>,
    log: Ghost<Seq<Seq<u8>>>,
}

/// Provides exclusive write access to a [`RingBuffer`]: at most one guard is
/// outstanding per buffer at any time. Dropping write access is explicit,
/// through [`WriteGuard::release`], which consumes the guard.
pub struct WriteGuard {
    exclusive: (),
}

/// Shared read access to a buffer. A cursor tracks its own position in the
/// message stream: cursors created independently each observe the full
/// stream, while a copied cursor starts from its original's position and
/// advances independently from then on.
#[derive(Clone, Copy)]
pub struct SharedReader {
    index: usize,
    version: usize,
}

impl RingBuffer {
    /// Every message ever appended, in push order — including those already
    /// overwritten in the ring.
    pub closed spec fn history(&self) -> Seq<Seq<u8>> {
        self.log@
    }

    /// The number of appends performed so far.
    pub closed spec fn generation(&self) -> nat {
        self.version as nat
    }

    /// Whether a [`WriteGuard`] is currently outstanding.
    pub closed spec fn is_locked(&self) -> bool {
        self.locked
    }

    /// The buffer's internal invariant: the write cursor and the generation
    /// counter move in lockstep with the log, and every slot carries the
    /// stamp and the payload of the last append that landed in it.
    pub closed spec fn inv(&self) -> bool {
        &&& self.data@.len() == CAPACITY
        &&& self.index == self.version
        &&& self.version as nat == self.log@.len()
        &&& forall|i: int|
            0 <= i < CAPACITY ==> (#[trigger] self.data@[i]).version as nat == latest_stamp(
                self.version as nat,
                i as nat,
            )
        &&& forall|i: int|
            0 <= i < CAPACITY && (#[trigger] self.data@[i]).version > 0
                ==> self.data@[i].message@ == self.log@[self.data@[i].version - 1]
        &&& forall|i: int| 0 <= i < self.log@.len() ==> (#[trigger] self.log@[i]).len() == 8
    }

    /// Constructs a new, empty buffer: no appends yet, no writer outstanding,
    /// all slot stamps zero.
    pub fn new() -> (buffer: RingBuffer)
        ensures
            buffer.inv(),
            buffer.generation() == 0,
            buffer.history() == Seq::<Seq<u8>>::empty(),
            !buffer.is_locked(),
    {
        let mut data: Vec<Block> = Vec::new();
        let mut i: usize = 0;
        while i < CAPACITY
            invariant
                i <= CAPACITY,
                data@.len() == i as nat,
                forall|j: int| 0 <= j < i ==> (#[trigger] data@[j]).version == 0,
            decreases CAPACITY - i,
        {
            data.push(Block { version: 0, message: [0u8, 0u8, 0u8, 0u8, 0u8, 0u8, 0u8, 0u8] });
            i += 1;
        }
        RingBuffer { index: 0, version: 0, locked: false, data, log: Ghost(Seq::empty()) }
    }

    /// Tries to acquire the buffer's [`WriteGuard`]. As there can only ever
    /// be one outstanding guard, this fails — immediately, without blocking —
    /// while another guard is live.
    pub fn try_lock(&mut self) -> (result: Result<WriteGuard, ()>)
        requires
            old(self).inv(),
        ensures
            final(self).inv(),
            final(self).generation() == old(self).generation(),
            final(self).history() == old(self).history(),
            result is Ok <==> !old(self).is_locked(),
            final(self).is_locked(),
            result is Err ==> *final(self) == *old(self),
    {
        if self.locked {
            Err(())
        } else {
            self.locked = true;
            Ok(WriteGuard { exclusive: () })
        }
    }

    /// Creates a new [`SharedReader`] starting at the buffer's current
    /// generation: it observes exactly the messages appended from this point
    /// on. Distinct readers do not share progress.
    pub fn reader(&self) -> (reader: SharedReader)
        requires
            self.inv(),
        ensures
            reader.inv(),
            reader.progress() == self.generation(),
    {
        SharedReader { index: self.index, version: self.version }
    }
}

impl WriteGuard {
    /// Pushes a value to the back of the queue. This never blocks and never
    /// fails: once the ring has wrapped, the oldest slot is unconditionally
    /// overwritten, whether or not every reader has consumed it.
    pub fn push_back(&mut self, buffer: &mut RingBuffer, value: [u8; 8])
        requires
            old(buffer).inv(),
            old(buffer).is_locked(),
            old(buffer).generation() < usize::MAX,
        ensures
            final(buffer).inv(),
            final(buffer).is_locked(),
            final(buffer).generation() == old(buffer).generation() + 1,
            final(buffer).history() == old(buffer).history().push(value@),
    {
        let slot: usize = buffer.index % CAPACITY;
        let stamp: usize = buffer.version + 1;
        buffer.data.set(slot, Block { version: stamp, message: value });
        buffer.version = stamp;
        buffer.index = buffer.index + 1;
        buffer.log = Ghost(buffer.log@.push(value@));
        proof {
            let v = old(buffer).version as nat;
            assert forall|i: int| 0 <= i < CAPACITY implies (#[trigger] buffer.data@[i]).version
                as nat == latest_stamp((v + 1) as nat, i as nat) by {
                if i != slot as int {
                    assert(latest_stamp((v + 1) as nat, i as nat) == latest_stamp(v, i as nat));
                }
            }
            assert forall|i: int|
                0 <= i < CAPACITY && (#[trigger] buffer.data@[i]).version > 0 implies buffer.data@[
                i].message@ == buffer.log@[buffer.data@[i].version - 1] by {
                if i != slot as int {
                    // an untouched slot's stamp points below the old log's end
                    lemma_stamp_bounds(v, i as nat);
                }
            }
            assert(value@.len() == 8);
        }
    }

    /// Releases write access, consuming the guard: the buffer becomes
    /// lockable again, and nothing else about it changes.
    pub fn release(self, buffer: &mut RingBuffer)
        requires
            old(buffer).inv(),
            old(buffer).is_locked(),
        ensures
            final(buffer).inv(),
            !final(buffer).is_locked(),
            final(buffer).generation() == old(buffer).generation(),
            final(buffer).history() == old(buffer).history(),
    {
        buffer.locked = false;
    }
}

impl SharedReader {
    /// The generation this cursor has consumed up to: it has seen every
    /// message it claimed, the last of them being append number `progress()`.
    pub closed spec fn progress(&self) -> nat {
        self.version as nat
    }

    /// The cursor's internal invariant: its read index and its expected
    /// generation move in lockstep.
    pub closed spec fn inv(&self) -> bool {
        self.index == self.version
    }

    /// Pops the next element from the front of the queue, for this cursor
    /// only: other cursors still see the element. Returns `None` when nothing
    /// unseen has been published yet. A cursor that the writer has lapped is
    /// resynchronized to the oldest generation the buffer still holds —
    /// silently, dropping the overwritten messages — and then claims that
    /// one; it never returns a stale or torn payload.
    pub fn pop_front(&mut self, buffer: &RingBuffer) -> (result: Option<[u8; 8]>)
        requires
            buffer.inv(),
            old(self).inv(),
            old(self).progress() <= buffer.generation(),
        ensures
            final(self).inv(),
            final(self).progress() <= buffer.generation(),
            old(self).progress() == buffer.generation() ==> result is None && *final(self) == *old(
                self,
            ),
            old(self).progress() < buffer.generation() ==> {
                &&& result is Some
                &&& final(self).progress() == latest_stamp(
                    buffer.generation(),
                    old(self).progress() % (CAPACITY as nat),
                )
                &&& final(self).progress() > old(self).progress()
            },
            result matches Some(message) ==> message@ == buffer.history()[final(self).progress()
                - 1],
            old(self).progress() < buffer.generation() <= old(self).progress() + CAPACITY ==> {
                &&& final(self).progress() == old(self).progress() + 1
                &&& (result matches Some(message) && message@ == buffer.history()[old(self).progress() as int])
            },
            buffer.generation() > old(self).progress() + CAPACITY ==> final(self).progress()
                + CAPACITY > buffer.generation(),
    {
        let slot: usize = self.index % CAPACITY;
        let observed: usize = buffer.data[slot].version;
        proof {
            lemma_stamp_bounds(buffer.generation(), slot as nat);
        }
        if observed <= self.version {
            // nothing has been published into this slot since the cursor
            // last owned it: the queue holds nothing new for this cursor
            proof {
                if old(self).progress() < buffer.generation() {
                    lemma_stamp_at_least(buffer.generation(), old(self).progress());
                    assert(false);
                }
            }
            return None;
        }
        if observed > self.version + 1 {
            // the writer has overrun this cursor: resynchronize to the oldest
            // generation the buffer still holds, dropping what was overwritten
            self.index = observed - 1;
            self.version = observed - 1;
        }
        // the slot holds exactly the append this cursor now awaits: claim it
        let message: [u8; 8] = buffer.data[slot].message;
        self.index = observed;
        self.version = observed;
        proof {
            if buffer.generation() <= old(self).progress() + CAPACITY {
                lemma_delivery_in_order(buffer.generation(), old(self).progress());
            } else {
                lemma_overrun_freshness(buffer.generation(), old(self).progress());
            }
        }
        Some(message)
    }
}

} // verus!
