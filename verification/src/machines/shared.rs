//! The table of four shared RAM banks through which a recorder hands a
//! buffer to a player that holds no reference to it. The table itself is
//! plain data: whoever shares it between threads wraps each bank in a lock
//! and calls the bank's operations under it.

use vstd::prelude::*;

verus! {

/// Number of shared banks.
pub const SLOT_COUNT: usize = 4;

/// Capacity of a bank in samples: ten seconds at 44.1 kHz.
pub const SLOT_MAX_LENGTH: usize = 441000;

/// One shared bank.
#[derive(Clone)]
pub struct SharedBuffer {
    /// 12-bit audio codes in 16-bit storage.
    pub samples: Vec<i16>,
    /// Where the next sample is written.
    pub write_position: usize,
    /// Most samples that the bank grows to by writing.
    pub max_length: usize,
}

/// The mathematical content of a bank.
#[verifier::ext_equal]
pub struct SlotState {
    /// The stored samples.
    pub samples: Seq<i16>,
    /// Where the next sample is written.
    pub write_position: nat,
    /// Most samples that the bank grows to by writing.
    pub max_length: nat,
}

impl SlotState {
    /// Validity: the write position lies inside or just past the samples.
    pub open spec fn wf(self) -> bool {
        self.write_position <= self.samples.len()
    }

    /// Whether a write is taken: there is a sample to overwrite at the write
    /// position, or room to grow.
    pub open spec fn accepts(self) -> bool {
        self.write_position < self.samples.len() || self.samples.len() < self.max_length
    }

    /// The bank after a write that was taken: the sample stands at the write
    /// position, which has moved on by one.
    pub open spec fn written(self, sample: i16) -> SlotState {
        SlotState {
            samples: if self.write_position < self.samples.len() {
                self.samples.update(self.write_position as int, sample)
            } else {
                self.samples.push(sample)
            },
            write_position: self.write_position + 1,
            ..self
        }
    }

    /// The bank after its contents were replaced: the write position stands
    /// at the end of the new samples.
    pub open spec fn replaced(self, samples: Seq<i16>) -> SlotState {
        SlotState { samples, write_position: samples.len(), ..self }
    }

    /// The bank after a clear: no samples, write position zero.
    pub open spec fn cleared(self) -> SlotState {
        SlotState { samples: Seq::empty(), write_position: 0, ..self }
    }

    /// The bank after a rewind: same samples, write position zero.
    pub open spec fn rewound(self) -> SlotState {
        SlotState { write_position: 0, ..self }
    }
}

impl View for SharedBuffer {
    type V = SlotState;

    open spec fn view(&self) -> SlotState {
        SlotState {
            samples: self.samples@,
            write_position: self.write_position as nat,
            max_length: self.max_length as nat,
        }
    }
}

/// An empty bank of the standard capacity.
pub open spec fn empty_slot() -> SlotState {
    SlotState { samples: Seq::empty(), write_position: 0, max_length: SLOT_MAX_LENGTH as nat }
}

impl SharedBuffer {
    /// An empty bank of the standard capacity.
    pub fn new() -> (bank: Self)
        ensures
            bank@ == empty_slot(),
            bank@.wf(),
    {
        Self {
            samples: Vec::with_capacity(SLOT_MAX_LENGTH),
            write_position: 0,
            max_length: SLOT_MAX_LENGTH,
        }
    }

    /// Removes every sample and rewinds the write position.
    pub fn clear(&mut self)
        ensures
            final(self)@ == old(self)@.cleared(),
            final(self)@.wf(),
    {
        self.samples.clear();
        self.write_position = 0;
    }

    /// Number of samples in the bank.
    pub fn len(&self) -> (len: usize)
        ensures
            len == self@.samples.len(),
    {
        self.samples.len()
    }

    /// Whether the bank holds no sample.
    pub fn is_empty(&self) -> (empty: bool)
        ensures
            empty == (self@.samples.len() == 0),
    {
        self.samples.len() == 0
    }

    /// Writes `sample` at the write position: over the sample that stands
    /// there, or at the end if the bank may still grow. A full bank refuses
    /// the write and stays as it is.
    pub fn write(&mut self, sample: i16) -> (taken: bool)
        requires
            old(self)@.wf(),
        ensures
            taken == old(self)@.accepts(),
            taken ==> final(self)@ == old(self)@.written(sample),
            !taken ==> final(self)@ == old(self)@,
            final(self)@.wf(),
    {
        let at: usize = self.write_position;
        if at < self.samples.len() {
            self.samples[at] = sample;
        } else if self.samples.len() < self.max_length {
            self.samples.push(sample);
        } else {
            return false;
        }
        self.write_position = at + 1;
        true
    }

    /// Replaces the contents and moves the write position to their end.
    pub fn replace(&mut self, samples: Vec<i16>)
        ensures
            final(self)@ == old(self)@.replaced(samples@),
            final(self)@.wf(),
    {
        self.samples = samples;
        self.write_position = self.samples.len();
    }

    /// Rewinds the write position and keeps the samples.
    pub fn reset_write_position(&mut self)
        ensures
            final(self)@ == old(self)@.rewound(),
            final(self)@.wf(),
    {
        self.write_position = 0;
    }

    /// A copy of the samples.
    pub fn snapshot(&self) -> (samples: Vec<i16>)
        ensures
            samples@ == self@.samples,
    {
        let copy: Vec<i16> = self.samples.clone();
        copy
    }
}

/// The banks after a write to bank `channel`: unchanged if there is no such
/// bank or the bank refuses the write, else only that bank is written.
pub open spec fn slots_after_write(slots: Seq<SlotState>, channel: int, sample: i16) -> Seq<SlotState> {
    if 0 <= channel < slots.len() && slots[channel].accepts() {
        slots.update(channel, slots[channel].written(sample))
    } else {
        slots
    }
}

/// A write to a bank that does not exist changes nothing.
pub proof fn write_outside_table_changes_nothing(slots: Seq<SlotState>, channel: int, sample: i16)
    requires
        slots.len() == SLOT_COUNT,
        channel >= SLOT_COUNT,
    ensures
        slots_after_write(slots, channel, sample) == slots,
{
}

/// Writes to two different banks do not disturb each other: either order
/// leaves the same table, and each bank is as if written alone.
pub proof fn writes_to_distinct_slots_commute(
    slots: Seq<SlotState>,
    first: int,
    first_sample: i16,
    second: int,
    second_sample: i16,
)
    requires
        first != second,
    ensures
        slots_after_write(slots_after_write(slots, first, first_sample), second, second_sample)
            == slots_after_write(slots_after_write(slots, second, second_sample), first, first_sample),
        0 <= first < slots.len() ==> slots_after_write(
            slots_after_write(slots, first, first_sample),
            second,
            second_sample,
        )[first] == slots_after_write(slots, first, first_sample)[first],
{
}

/// The table of shared banks.
pub struct BufferRegistry {
    buffers: [SharedBuffer; 4],
}

impl View for BufferRegistry {
    type V = Seq<SlotState>;

    closed spec fn view(&self) -> Seq<SlotState> {
        Seq::new(4, |c: int| self.buffers[c]@)
    }
}

impl BufferRegistry {
    /// Validity: there are four banks and each is valid.
    pub open spec fn wf(&self) -> bool {
        &&& self@.len() == SLOT_COUNT
        &&& forall|c: int| 0 <= c < 4 ==> (#[trigger] self@[c]).wf()
    }

    /// A table of four empty banks.
    pub fn new() -> (registry: Self)
        ensures
            registry.wf(),
            forall|c: int| 0 <= c < 4 ==> #[trigger] registry@[c] == empty_slot(),
    {
        Self {
            buffers: [
                SharedBuffer::new(),
                SharedBuffer::new(),
                SharedBuffer::new(),
                SharedBuffer::new(),
            ],
        }
    }

    /// A copy of the samples of bank `channel`, or `None` if there is no
    /// such bank.
    pub fn read_buffer(&self, channel: usize) -> (samples: Option<Vec<i16>>)
        ensures
            channel < SLOT_COUNT ==> samples.is_some() && samples.unwrap()@ == self@[channel as int].samples,
            channel >= SLOT_COUNT ==> samples.is_none(),
    {
        if channel >= 4 {
            return None;
        }
        Some(self.buffers[channel].snapshot())
    }

    /// Writes `sample` to bank `channel`. Returns whether the sample was
    /// taken: there must be such a bank and it must accept the write. A
    /// write that is not taken changes nothing, and no write touches any
    /// other bank.
    pub fn write_sample(&mut self, channel: usize, sample: i16) -> (taken: bool)
        requires
            old(self).wf(),
        ensures
            final(self).wf(),
            taken == (channel < SLOT_COUNT && old(self)@[channel as int].accepts()),
            final(self)@ == slots_after_write(old(self)@, channel as int, sample),
            channel >= SLOT_COUNT ==> !taken && final(self)@ == old(self)@,
    {
        if channel >= 4 {
            return false;
        }
        assert(self@[channel as int].wf());
        let taken: bool = self.buffers[channel].write(sample);
        assert forall|c: int| 0 <= c < 4 implies (#[trigger] self@[c]).wf() by {
            assert(old(self)@[c].wf());
        }
        taken
    }

    /// Replaces the contents of bank `channel`. Returns whether there is such
    /// a bank; if not, nothing changes.
    pub fn replace_buffer(&mut self, channel: usize, samples: Vec<i16>) -> (done: bool)
        requires
            old(self).wf(),
        ensures
            final(self).wf(),
            done == (channel < SLOT_COUNT),
            done ==> final(self)@ == old(self)@.update(
                channel as int,
                old(self)@[channel as int].replaced(samples@),
            ),
            !done ==> final(self)@ == old(self)@,
    {
        if channel >= 4 {
            return false;
        }
        self.buffers[channel].replace(samples);
        assert(self@ =~= old(self)@.update(
            channel as int,
            old(self)@[channel as int].replaced(samples@),
        ));
        true
    }

    /// Number of samples in bank `channel`, zero if there is no such bank.
    pub fn buffer_len(&self, channel: usize) -> (len: usize)
        ensures
            channel < SLOT_COUNT ==> len == self@[channel as int].samples.len(),
            channel >= SLOT_COUNT ==> len == 0,
    {
        if channel >= 4 {
            return 0;
        }
        self.buffers[channel].len()
    }

    /// Empties bank `channel`. Returns whether there is such a bank; if not,
    /// nothing changes.
    pub fn clear_buffer(&mut self, channel: usize) -> (done: bool)
        requires
            old(self).wf(),
        ensures
            final(self).wf(),
            done == (channel < SLOT_COUNT),
            done ==> final(self)@ == old(self)@.update(
                channel as int,
                old(self)@[channel as int].cleared(),
            ),
            !done ==> final(self)@ == old(self)@,
    {
        if channel >= 4 {
            return false;
        }
        self.buffers[channel].clear();
        assert forall|c: int| 0 <= c < 4 implies (#[trigger] self@[c]).wf() by {
            assert(old(self)@[c].wf());
        }
        true
    }

    /// Empties every bank.
    pub fn clear_all(&mut self)
        requires
            old(self).wf(),
        ensures
            final(self).wf(),
            forall|c: int| 0 <= c < 4 ==> #[trigger] final(self)@[c] == old(self)@[c].cleared(),
    {
        let mut channel: usize = 0;
        while channel < 4
            invariant
                0 <= channel <= 4,
                forall|c: int| 0 <= c < channel ==> (#[trigger] self.buffers[c])@ == old(self).buffers[c]@.cleared(),
                forall|c: int| channel <= c < 4 ==> (#[trigger] self.buffers[c]) == old(self).buffers[c],
            decreases 4 - channel,
        {
            self.buffers[channel].clear();
            channel = channel + 1;
        }
    }

    /// Rewinds the write position of bank `channel` and keeps its samples.
    /// Returns whether there is such a bank; if not, nothing changes.
    pub fn reset_write_position(&mut self, channel: usize) -> (done: bool)
        requires
            old(self).wf(),
        ensures
            final(self).wf(),
            done == (channel < SLOT_COUNT),
            done ==> final(self)@ == old(self)@.update(
                channel as int,
                old(self)@[channel as int].rewound(),
            ),
            !done ==> final(self)@ == old(self)@,
    {
        if channel >= 4 {
            return false;
        }
        self.buffers[channel].reset_write_position();
        assert forall|c: int| 0 <= c < 4 implies (#[trigger] self@[c]).wf() by {
            assert(old(self)@[c].wf());
        }
        true
    }
}

} // verus!
