use vstd::prelude::*;

use std::collections::VecDeque;

verus! {

/// What a thread was given when it tried to reschedule a process; `T` is
/// the timeout the process was suspended with.
pub enum RescheduleRights<T> {
    /// The rescheduling rights were not obtained.
    Failed,
    /// The rescheduling rights were obtained.
    Acquired,
    /// The rescheduling rights were obtained, and the process was using a
    /// timeout.
    AcquiredWithTimeout(T),
}

impl<T> RescheduleRights<T> {
    pub fn are_acquired(&self) -> (r: bool)
        ensures
            r == !(*self is Failed),
    {
        match self {
            RescheduleRights::Failed => false,
            _ => true,
        }
    }

    pub fn process_had_timeout(&self) -> (r: bool)
        ensures
            r == (*self is AcquiredWithTimeout),
    {
        match self {
            RescheduleRights::AcquiredWithTimeout(_) => true,
            _ => false,
        }
    }
}

/// The messages sent to a process, received in the order they were sent.
pub struct Mailbox<M> {
    messages: VecDeque<M>,
}

impl<M> Mailbox<M> {
    /// The messages waiting, oldest first.
    pub closed spec fn view(&self) -> Seq<M> {
        self.messages@
    }

    pub fn new() -> (r: Self)
        ensures
            r@ == Seq::<M>::empty(),
    {
        Mailbox { messages: VecDeque::new() }
    }

    pub fn send(&mut self, message: M)
        ensures
            final(self)@ == old(self)@.push(message),
    {
        self.messages.push_back(message);
    }

    /// Takes the oldest message, if any.
    pub fn receive(&mut self) -> (r: Option<M>)
        ensures
            old(self)@.len() == 0 ==> r is None && final(self)@ == old(self)@,
            old(self)@.len() > 0 ==> r == Some(old(self)@[0]) && final(self)@ == old(self)@.drop_first(),
    {
        self.messages.pop_front()
    }

    pub fn has_messages(&self) -> (r: bool)
        ensures
            r == (self@.len() > 0),
    {
        self.messages.len() != 0
    }
}

/// A regular process.
const STATUS_NORMAL: u8 = 0b0;

/// The main process.
const STATUS_MAIN: u8 = 0b1;

/// The process is performing a blocking operation.
const STATUS_BLOCKING: u8 = 0b10;

/// The process is terminated.
const STATUS_TERMINATED: u8 = 0b100;

/// Whether every bit of `bit` is set in `bits`.
pub open spec fn has_bits(bits: u8, bit: u8) -> bool {
    bits & bit == bit
}

/// The status of a process, represented as a set of bits. Multiple bits may
/// be set in order to combine different statuses: a blocking main process
/// has both bits set.
pub struct ProcessStatus {
    bits: u8,
}

impl ProcessStatus {
    /// The status bits.
    pub closed spec fn view(&self) -> u8 {
        self.bits
    }

    pub open spec fn main_spec(&self) -> bool {
        has_bits(self@, 1)
    }

    pub open spec fn blocking_spec(&self) -> bool {
        has_bits(self@, 2)
    }

    pub open spec fn terminated_spec(&self) -> bool {
        has_bits(self@, 4)
    }

    /// A regular process: no bit set.
    pub fn new() -> (r: Self)
        ensures
            r@ == 0,
            !r.main_spec() && !r.blocking_spec() && !r.terminated_spec(),
    {
        proof {
            assert(0u8 & 1u8 == 0u8 && 0u8 & 2u8 == 0u8 && 0u8 & 4u8 == 0u8) by (bit_vector);
        }
        ProcessStatus { bits: STATUS_NORMAL }
    }

    pub fn set_main(&mut self)
        ensures
            final(self)@ == old(self)@ | 1u8,
            final(self).main_spec(),
            final(self).blocking_spec() == old(self).blocking_spec(),
            final(self).terminated_spec() == old(self).terminated_spec(),
    {
        self.update_bits(STATUS_MAIN, true);
    }

    pub fn is_main(&self) -> (r: bool)
        ensures
            r == self.main_spec(),
    {
        self.bit_is_set(STATUS_MAIN)
    }

    pub fn set_blocking(&mut self, enable: bool)
        ensures
            final(self)@ == (if enable { old(self)@ | 2u8 } else { old(self)@ & !2u8 }),
            final(self).blocking_spec() == enable,
            final(self).main_spec() == old(self).main_spec(),
            final(self).terminated_spec() == old(self).terminated_spec(),
    {
        self.update_bits(STATUS_BLOCKING, enable);
    }

    pub fn is_blocking(&self) -> (r: bool)
        ensures
            r == self.blocking_spec(),
    {
        self.bit_is_set(STATUS_BLOCKING)
    }

    pub fn set_terminated(&mut self)
        ensures
            final(self)@ == old(self)@ | 4u8,
            final(self).terminated_spec(),
            final(self).main_spec() == old(self).main_spec(),
            final(self).blocking_spec() == old(self).blocking_spec(),
    {
        self.update_bits(STATUS_TERMINATED, true);
    }

    pub fn is_terminated(&self) -> (r: bool)
        ensures
            r == self.terminated_spec(),
    {
        self.bit_is_set(STATUS_TERMINATED)
    }

    /// Sets (or clears) the bits of `mask`, leaving the others alone.
    fn update_bits(&mut self, mask: u8, enable: bool)
        requires
            mask == 1 || mask == 2 || mask == 4,
        ensures
            final(self)@ == (if enable { old(self)@ | mask } else { old(self)@ & !mask }),
            forall|b: u8| (b == 1 || b == 2 || b == 4) && b != mask ==> has_bits(final(self)@, b) == has_bits(old(self)@, b),
            has_bits(final(self)@, mask) == enable,
    {
        let bits = self.bits;
        let new_bits = if enable {
            bits | mask
        } else {
            bits & !mask
        };
        proof {
            assert(forall|b: u8| (b == 1 || b == 2 || b == 4) && b != mask ==> ((bits | mask) & b == b) == (bits & b == b)) by (bit_vector)
                requires
                    mask == 1 || mask == 2 || mask == 4,
            ;
            assert(forall|b: u8| (b == 1 || b == 2 || b == 4) && b != mask ==> ((bits & !mask) & b == b) == (bits & b == b)) by (bit_vector)
                requires
                    mask == 1 || mask == 2 || mask == 4,
            ;
            assert((bits | mask) & mask == mask) by (bit_vector);
            assert((bits & !mask) & mask != mask) by (bit_vector)
                requires
                    mask == 1 || mask == 2 || mask == 4,
            ;
        }
        self.bits = new_bits;
    }

    fn bit_is_set(&self, bit: u8) -> (r: bool)
        ensures
            r == has_bits(self@, bit),
    {
        self.bits & bit == bit
    }
}

} // verus!
