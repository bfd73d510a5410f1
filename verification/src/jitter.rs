//! The jitter buffer: a ring of slots that gives packets out in the order in
//! which they came.

use vstd::prelude::*;

verus! {

/// Samples in one frame of audio.
pub const AUDIO_FRAME_SIZE: usize = 960;

/// Fewest slots of a jitter buffer.
pub const MIN_JITTER_SLOTS: usize = 5;

/// Most slots of a jitter buffer.
pub const MAX_JITTER_SLOTS: usize = 50;

/// Number of slots for a target delay in milliseconds at a sample rate in
/// hertz: the frames that make up the delay, rounded up, but no fewer than 5
/// and no more than 50.
pub open spec fn slots_for(target_delay_ms: u32, sample_rate: u32) -> int {
    let samples_thousandfold = target_delay_ms * sample_rate;
    let frames = (samples_thousandfold + 960_000 - 1) / 960_000;
    if frames < 5 {
        5
    } else if frames > 50 {
        50
    } else {
        frames
    }
}

/// A ring of slots that delays packets between arrival and playback.
pub struct JitterBuffer<T> {
    frames: Vec<Option<T>>,
    write_idx: usize,
    read_idx: usize,
}

impl<T> JitterBuffer<T> {
    /// The slots of the ring.
    pub closed spec fn slots(&self) -> Seq<Option<T>> {
        self.frames@
    }

    /// Number of packets written so far.
    pub closed spec fn written(&self) -> nat {
        self.write_idx as nat
    }

    /// Number of reads that found the buffer non-empty so far.
    pub closed spec fn read(&self) -> nat {
        self.read_idx as nat
    }

    /// The ring has its slots.
    pub open spec fn wf(&self) -> bool {
        5 <= self.slots().len() <= 50
    }

    /// Number of packets written and not yet read.
    pub open spec fn depth(&self) -> nat {
        if self.written() >= self.read() {
            (self.written() - self.read()) as nat
        } else {
            0
        }
    }

    /// A buffer sized for a target delay in milliseconds at a sample rate in hertz.
    pub fn new(target_delay_ms: u32, sample_rate: u32) -> (b: Self)
        ensures
            b.wf(),
            b.slots().len() == slots_for(target_delay_ms, sample_rate),
            forall|i: int| 0 <= i < b.slots().len() ==> b.slots()[i] is None,
            b.written() == 0,
            b.read() == 0,
    {
        assert(target_delay_ms * sample_rate <= 0xffff_ffff * 0xffff_ffff) by (nonlinear_arith)
            requires
                target_delay_ms <= 0xffff_ffff,
                sample_rate <= 0xffff_ffff,
        ;
        let samples_thousandfold: u64 = (target_delay_ms as u64) * (sample_rate as u64);
        let frames: u64 = (samples_thousandfold + 959_999) / 960_000;
        let size: usize = if frames < 5 {
            5
        } else if frames > 50 {
            50
        } else {
            frames as usize
        };
        let mut slots: Vec<Option<T>> = Vec::new();
        let mut i: usize = 0;
        while i < size
            invariant
                i <= size,
                slots@.len() == i,
                forall|j: int| 0 <= j < i ==> slots@[j] is None,
            decreases size - i,
        {
            slots.push(None);
            i += 1;
        }
        Self { frames: slots, write_idx: 0, read_idx: 0 }
    }

    /// Writes `packet` into the slot after the one written last, over what
    /// that slot held. The buffer must not have taken as many packets as the
    /// machine can count.
    pub fn push(&mut self, packet: T)
        requires
            old(self).wf(),
            old(self).written() < usize::MAX,
        ensures
            final(self).wf(),
            final(self).slots() == old(self).slots().update(
                (old(self).written() % old(self).slots().len()) as int,
                Some(packet),
            ),
            final(self).written() == old(self).written() + 1,
            final(self).read() == old(self).read(),
    {
        let len = self.frames.len();
        let idx = self.write_idx % len;
        self.frames[idx] = Some(packet);
        self.write_idx += 1;
    }

    /// Takes the packet out of the slot after the one read last, if more was
    /// written than read. An empty buffer gives nothing and stays as it is.
    pub fn pop(&mut self) -> (packet: Option<T>)
        requires
            old(self).wf(),
        ensures
            final(self).wf(),
            final(self).written() == old(self).written(),
            if old(self).written() > old(self).read() {
                let idx = (old(self).read() % old(self).slots().len()) as int;
                &&& packet == old(self).slots()[idx]
                &&& final(self).slots() == old(self).slots().update(idx, None)
                &&& final(self).read() == old(self).read() + 1
            } else {
                &&& packet is None
                &&& final(self).slots() == old(self).slots()
                &&& final(self).read() == old(self).read()
            },
    {
        if self.write_idx <= self.read_idx {
            return None;
        }
        let len = self.frames.len();
        let idx = self.read_idx % len;
        let mut taken: Option<T> = None;
        std::mem::swap(&mut self.frames[idx], &mut taken);
        self.read_idx += 1;
        taken
    }

    /// Number of packets written and not yet read.
    pub fn buffer_depth(&self) -> (d: usize)
        ensures
            d == self.depth(),
    {
        self.write_idx.saturating_sub(self.read_idx)
    }

    /// Empties every slot and starts counting anew.
    pub fn clear(&mut self)
        requires
            old(self).wf(),
        ensures
            final(self).wf(),
            final(self).slots().len() == old(self).slots().len(),
            forall|i: int| 0 <= i < final(self).slots().len() ==> final(self).slots()[i] is None,
            final(self).written() == 0,
            final(self).read() == 0,
    {
        let len = self.frames.len();
        let mut i: usize = 0;
        while i < len
            invariant
                i <= len,
                len == self.frames@.len(),
                len == old(self).frames@.len(),
                forall|j: int| 0 <= j < i ==> self.frames@[j] is None,
            decreases len - i,
        {
            self.frames[i] = None;
            i += 1;
        }
        self.write_idx = 0;
        self.read_idx = 0;
    }
}

/// Whether the packets `queue` are what a buffer holds unread, oldest
/// first: as many as were written and not read, no more than there are
/// slots, each in the slot that its turn falls on.
pub open spec fn holds<T>(b: JitterBuffer<T>, queue: Seq<T>) -> bool {
    &&& b.wf()
    &&& b.written() == b.read() + queue.len()
    &&& queue.len() <= b.slots().len()
    &&& forall|i: int|
        0 <= i < queue.len() ==> b.slots()[(b.read() + i) % (b.slots().len() as int)] == Some(
            #[trigger] queue[i],
        )
}

proof fn lemma_turns_fall_on_different_slots(a: int, b: int, len: int)
    requires
        0 <= a < b < a + len,
    ensures
        a % len != b % len,
{
    vstd::arithmetic::div_mod::lemma_fundamental_div_mod(a, len);
    vstd::arithmetic::div_mod::lemma_fundamental_div_mod(b, len);
    vstd::arithmetic::div_mod::lemma_mod_bound(a, len);
    vstd::arithmetic::div_mod::lemma_mod_bound(b, len);
    if a % len == b % len {
        let qa = a / len;
        let qb = b / len;
        assert(b - a == len * qb - len * qa);
        assert(len * qb - len * qa == len * (qb - qa)) by (nonlinear_arith);
        assert(false) by (nonlinear_arith)
            requires
                0 < len * (qb - qa) < len,
                len > 0,
        ;
    }
}

/// First in, first out, the writing half: a packet written to a buffer that
/// has a slot to spare joins the unread packets at the end.
pub proof fn lemma_push_joins_the_queue<T>(
    before: JitterBuffer<T>,
    queue: Seq<T>,
    packet: T,
    after: JitterBuffer<T>,
)
    requires
        holds(before, queue),
        queue.len() < before.slots().len(),
        after.slots() == before.slots().update(
            (before.written() % before.slots().len()) as int,
            Some(packet),
        ),
        after.written() == before.written() + 1,
        after.read() == before.read(),
    ensures
        holds(after, queue.push(packet)),
{
    let len = before.slots().len() as int;
    let w = before.written() as int;
    assert forall|i: int| 0 <= i < queue.push(packet).len() implies after.slots()[(after.read() + i)
        % len] == Some(#[trigger] queue.push(packet)[i]) by {
        vstd::arithmetic::div_mod::lemma_mod_bound(before.read() + i, len);
        vstd::arithmetic::div_mod::lemma_mod_bound(w, len);
        if i < queue.len() {
            lemma_turns_fall_on_different_slots(before.read() + i, w, len);
            assert(queue.push(packet)[i] == queue[i]);
        }
    }
}

/// First in, first out, the reading half: reading from a buffer that holds
/// unread packets gives the oldest of them and leaves the others in order;
/// reading from one that holds none gives nothing.
pub proof fn lemma_pop_takes_the_oldest<T>(
    before: JitterBuffer<T>,
    queue: Seq<T>,
    packet: Option<T>,
    after: JitterBuffer<T>,
)
    requires
        holds(before, queue),
        after.written() == before.written(),
        if before.written() > before.read() {
            let idx = (before.read() % before.slots().len()) as int;
            &&& packet == before.slots()[idx]
            &&& after.slots() == before.slots().update(idx, None)
            &&& after.read() == before.read() + 1
        } else {
            &&& packet is None
            &&& after.slots() == before.slots()
            &&& after.read() == before.read()
        },
    ensures
        queue.len() == 0 ==> packet is None && holds(after, queue),
        queue.len() > 0 ==> packet == Some(queue[0]) && holds(after, queue.drop_first()),
        after.depth() == if queue.len() > 0 {
            queue.len() - 1
        } else {
            0
        },
{
    let len = before.slots().len() as int;
    let r = before.read() as int;
    if queue.len() > 0 {
        assert(before.slots()[(r + 0) % len] == Some(queue[0]));
        assert forall|i: int| 0 <= i < queue.drop_first().len() implies after.slots()[(after.read()
            + i) % len] == Some(#[trigger] queue.drop_first()[i]) by {
            vstd::arithmetic::div_mod::lemma_mod_bound(r + 1 + i, len);
            vstd::arithmetic::div_mod::lemma_mod_bound(r, len);
            lemma_turns_fall_on_different_slots(r, r + 1 + i, len);
            assert(queue.drop_first()[i] == queue[i + 1]);
            assert(before.slots()[(r + (i + 1)) % len] == Some(queue[i + 1]));
        }
    }
}

} // verus!
