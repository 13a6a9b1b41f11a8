//! Futex commands and the table of futex wait queues.
use vstd::prelude::*;
use std::collections::BTreeMap;
use crate::errno::SysError;

verus! {

/// Wait while the word holds the value given.
pub const FUTEX_WAIT: u32 = 0;

/// Wake waiters.
pub const FUTEX_WAKE: u32 = 1;

/// Wake waiters and move the rest to another word's queue.
pub const FUTEX_REQUEUE: u32 = 3;

/// As `FUTEX_REQUEUE`, if the word holds the value given.
pub const FUTEX_CMP_REQUEUE: u32 = 4;

/// The option bit telling that the futex is private to the process.
pub const FUTEX_PRIVATE_FLAG: u32 = 128;

/// The option bit telling that a timeout is measured by the real-time clock.
pub const FUTEX_CLOCK_REALTIME: u32 = 256;

/// The bits of a futex operation that name the command.
pub const FUTEX_CMD_MASK: u32 = !(FUTEX_PRIVATE_FLAG | FUTEX_CLOCK_REALTIME);

/// What `futex` is asked to do.
#[derive(Debug, Clone, Copy, PartialEq, Eq, Structural)]
pub enum FutexCommand {
    /// Wait on the word if it holds `expected`.
    Wait { expected: u32 },
    /// Wake at most `max_wake` waiters.
    Wake { max_wake: u32 },
    /// Wake at most `max_wake` waiters; if that many were woken, move at most
    /// `max_requeue` more to the second word's queue. With `expected`, only
    /// if the word holds it.
    Requeue { max_wake: u32, max_requeue: u32, expected: Option<u32> },
}

/// The command a futex operation names.
pub open spec fn futex_command_spec(futex_op: u32, value: u32, value2: u32, value3: u32) -> Result<FutexCommand, SysError> {
    let command = futex_op & FUTEX_CMD_MASK;
    if command == FUTEX_WAIT {
        Ok(FutexCommand::Wait { expected: value })
    } else if command == FUTEX_WAKE {
        Ok(FutexCommand::Wake { max_wake: value })
    } else if command == FUTEX_REQUEUE {
        Ok(FutexCommand::Requeue { max_wake: value, max_requeue: value2, expected: None })
    } else if command == FUTEX_CMP_REQUEUE {
        Ok(FutexCommand::Requeue { max_wake: value, max_requeue: value2, expected: Some(value3) })
    } else {
        Err(SysError::ENOSYS)
    }
}

/// Reads a futex operation: its command bits, and the arguments that go
/// with them. For a requeue, the number of waiters to move is passed in
/// place of the timeout pointer, and arrives here as that pointer's address
/// cut to 32 bits. An unknown command is `ENOSYS`.
pub fn futex_command(futex_op: u32, value: u32, timeout_addr: usize, value3: u32) -> (r: Result<FutexCommand, SysError>)
    ensures
        r == futex_command_spec(futex_op, value, timeout_addr as u32, value3),
{
    let command = futex_op & FUTEX_CMD_MASK;
    let value2 = timeout_addr as u32;
    if command == FUTEX_WAIT {
        Ok(FutexCommand::Wait { expected: value })
    } else if command == FUTEX_WAKE {
        Ok(FutexCommand::Wake { max_wake: value })
    } else if command == FUTEX_REQUEUE {
        Ok(FutexCommand::Requeue { max_wake: value, max_requeue: value2, expected: None })
    } else if command == FUTEX_CMP_REQUEUE {
        Ok(FutexCommand::Requeue { max_wake: value, max_requeue: value2, expected: Some(value3) })
    } else {
        Err(SysError::ENOSYS)
    }
}

/// Whether a waiting or comparing command may go on, given what the futex
/// word holds: `EAGAIN` when it does not hold the value expected.
pub fn futex_value_check(current: u32, expected: Option<u32>) -> (r: Result<(), SysError>)
    ensures
        r == match expected {
            Some(e) => if current == e { Ok::<(), SysError>(()) } else { Err(SysError::EAGAIN) },
            None => Ok(()),
        },
{
    match expected {
        Some(e) => if current == e {
            Ok(())
        } else {
            Err(SysError::EAGAIN)
        },
        None => Ok(()),
    }
}

/// Whether waking goes on after `count` waiters were woken and the last
/// attempt woke one (`woke`): at most `max_wake` are woken, and the first
/// attempt that finds no waiter ends the waking.
pub fn futex_wake_continue(count: u32, max_wake: u32, woke: bool) -> (r: bool)
    ensures
        r == (woke && count < max_wake),
{
    woke && count < max_wake
}

/// What a requeue reports: the waiters woken, plus those moved when as many
/// were woken as were asked for.
pub fn futex_requeue_result(woken: u32, max_wake: u32, requeued: usize) -> (r: isize)
    requires
        woken + requeued <= isize::MAX,
    ensures
        r == if woken == max_wake { woken + requeued } else { woken as int },
{
    let mut count = woken as isize;
    if woken == max_wake {
        count = count + requeued as isize;
    }
    count
}

/// The futex wait queues of a process, each at the address of its word.
pub struct FutexTable<Q> {
    queues: BTreeMap<usize, Q>,
}

impl<Q> View for FutexTable<Q> {
    type V = Map<usize, Q>;

    closed spec fn view(&self) -> Map<usize, Q> {
        self.queues@
    }
}

impl<Q> FutexTable<Q> {
    /// A table with no queue.
    pub fn new() -> (t: Self)
        ensures
            t@ == Map::<usize, Q>::empty(),
    {
        FutexTable { queues: BTreeMap::new() }
    }

    /// The queue at `addr`, if there is one.
    pub fn get(&self, addr: usize) -> (r: Option<&Q>)
        ensures
            r == if self@.contains_key(addr) { Some(&self@[addr]) } else { None::<&Q> },
    {
        broadcast use vstd::std_specs::btree::group_btree_axioms;
        self.queues.get(&addr)
    }

    /// Makes sure there is a queue at `addr`: `fresh` becomes it when there is
    /// none.
    pub fn get_or_insert(&mut self, addr: usize, fresh: Q)
        ensures
            final(self)@ == if old(self)@.contains_key(addr) { old(self)@ } else { old(self)@.insert(addr, fresh) },
            final(self)@.contains_key(addr),
    {
        broadcast use vstd::std_specs::btree::group_btree_axioms;
        if !self.queues.contains_key(&addr) {
            self.queues.insert(addr, fresh);
        }
    }

    /// Lets go of the queue at `addr`: it leaves the table when nobody else
    /// holds it and no task waits in it (`unused`).
    pub fn release(&mut self, addr: usize, unused: bool)
        ensures
            final(self)@ == if unused { old(self)@.remove(addr) } else { old(self)@ },
    {
        broadcast use vstd::std_specs::btree::group_btree_axioms;
        if unused {
            self.queues.remove(&addr);
        }
    }
}

} // verus!

verus! {

/// A futex operation is decided by its command bits alone: adding the
/// private flag or the real-time clock flag to an operation changes nothing,
/// so a private wait is a wait on the word holding `value`, a private wake
/// wakes at most `value` waiters, and so on; an operation whose command
/// bits name no command is `ENOSYS`.
pub proof fn lemma_futex_command_by_command_bits(op: u32, value: u32, value2: u32, value3: u32)
    ensures
        futex_command_spec(op | FUTEX_PRIVATE_FLAG, value, value2, value3) == futex_command_spec(
            op,
            value,
            value2,
            value3,
        ),
        futex_command_spec(op | FUTEX_CLOCK_REALTIME, value, value2, value3) == futex_command_spec(
            op,
            value,
            value2,
            value3,
        ),
        op & FUTEX_CMD_MASK == 0 ==> futex_command_spec(op, value, value2, value3) == Ok::<FutexCommand, SysError>(
            FutexCommand::Wait { expected: value },
        ),
        op & FUTEX_CMD_MASK == 1 ==> futex_command_spec(op, value, value2, value3) == Ok::<FutexCommand, SysError>(
            FutexCommand::Wake { max_wake: value },
        ),
        op & FUTEX_CMD_MASK == 3 ==> futex_command_spec(op, value, value2, value3) == Ok::<FutexCommand, SysError>(
            FutexCommand::Requeue { max_wake: value, max_requeue: value2, expected: None },
        ),
        op & FUTEX_CMD_MASK == 4 ==> futex_command_spec(op, value, value2, value3) == Ok::<FutexCommand, SysError>(
            FutexCommand::Requeue { max_wake: value, max_requeue: value2, expected: Some(value3) },
        ),
        (op & FUTEX_CMD_MASK != 0 && op & FUTEX_CMD_MASK != 1 && op & FUTEX_CMD_MASK != 3 && op & FUTEX_CMD_MASK
            != 4) ==> futex_command_spec(op, value, value2, value3) == Err::<FutexCommand, SysError>(SysError::ENOSYS),
        futex_command_spec(128, value, value2, value3) == Ok::<FutexCommand, SysError>(
            FutexCommand::Wait { expected: value },
        ),
{
    assert(FUTEX_CMD_MASK == 0xffff_fe7fu32) by (bit_vector);
    assert((op | 128u32) & 0xffff_fe7fu32 == op & 0xffff_fe7fu32) by (bit_vector);
    assert((op | 256u32) & 0xffff_fe7fu32 == op & 0xffff_fe7fu32) by (bit_vector);
    assert(128u32 & 0xffff_fe7fu32 == 0u32) by (bit_vector);
}

} // verus!
