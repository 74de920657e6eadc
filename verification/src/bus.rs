//! The schedule of bus transactions that a driver hands to its host.
//!
//! A driver owns one [`Bus`] per slave device. Driver operations append to
//! it; the host performs the pending transactions in order, front first,
//! and tells the bus how each one went.

use vstd::prelude::*;
use vstd::slice::slice_to_vec;
use crate::errors::CommunicationError;

verus! {

/// One step for the host to perform on the device at [`Bus::address`].
#[derive(Debug, PartialEq, Eq)]
pub enum Transaction {
    /// Send the single byte `command`.
    SendByte { command: u8 },
    /// Write `data` as one block, addressed to `register`.
    BlockWrite { register: u8, data: Vec<u8> },
    /// Read `length` bytes as one block from `register`, and hand them to
    /// the driver operation that asked for them.
    BlockRead { register: u8, length: usize },
    /// Leave the bus idle for at least `micros` microseconds.
    Delay { micros: u64 },
}

/// What a [`Transaction`] says, as a mathematical value.
pub enum TransactionView {
    SendByte { command: u8 },
    BlockWrite { register: u8, data: Seq<u8> },
    BlockRead { register: u8, length: nat },
    Delay { micros: u64 },
}

impl View for Transaction {
    type V = TransactionView;

    open spec fn view(&self) -> TransactionView {
        match *self {
            Transaction::SendByte { command } => TransactionView::SendByte { command },
            Transaction::BlockWrite { register, data } => TransactionView::BlockWrite {
                register,
                data: data@,
            },
            Transaction::BlockRead { register, length } => TransactionView::BlockRead {
                register,
                length: length as nat,
            },
            Transaction::Delay { micros } => TransactionView::Delay { micros },
        }
    }
}

impl DeepView for Transaction {
    type V = TransactionView;

    open spec fn deep_view(&self) -> TransactionView {
        self@
    }
}

/// How the host saw a transaction fail.
#[derive(Debug, Clone, Copy, PartialEq, Eq, Structural)]
pub enum Fault {
    /// The transport named the failure as one of the bus itself.
    Bus,
    /// The transport could not tell what went wrong.
    Unknown,
}

/// The error that surfaces when the front transaction of `pending` fails
/// with `cause`.
pub open spec fn failure_of(pending: Seq<TransactionView>, cause: Fault) -> CommunicationError {
    match cause {
        Fault::Bus => CommunicationError::BusError,
        Fault::Unknown => if pending.len() > 0 && pending[0] is BlockRead {
            CommunicationError::ReadError
        } else {
            CommunicationError::WriteError
        },
    }
}

/// The schedule `pending` after its front transaction was performed. With
/// nothing pending it stays empty.
pub open spec fn after_front(pending: Seq<TransactionView>) -> Seq<TransactionView> {
    if pending.len() > 0 {
        pending.drop_first()
    } else {
        pending
    }
}

/// The transactions scheduled for one slave device and not yet performed.
///
/// Its view is the sequence of pending transactions, oldest first.
pub struct Bus {
    address: u8,
    pending: Vec<Transaction>,
}

impl View for Bus {
    type V = Seq<TransactionView>;

    closed spec fn view(&self) -> Seq<TransactionView> {
        self.pending.deep_view()
    }
}

impl Bus {
    /// The slave address, as a specification value.
    pub closed spec fn slave_address(&self) -> u8 {
        self.address
    }

    /// A bus for the device at `address`, with nothing pending.
    pub(crate) fn new(address: u8) -> (bus: Bus)
        ensures
            bus@ == Seq::<TransactionView>::empty(),
            bus.slave_address() == address,
    {
        let bus = Bus { address, pending: Vec::new() };
        assert(bus@ =~= Seq::<TransactionView>::empty());
        bus
    }

    /// The address of the slave device that the transactions are for.
    pub fn address(&self) -> (address: u8)
        ensures
            address == self.slave_address(),
    {
        self.address
    }

    /// The pending transactions, oldest first.
    pub fn pending(&self) -> (pending: &Vec<Transaction>)
        ensures
            pending.deep_view() == self@,
    {
        &self.pending
    }

    /// Schedules the single command byte `command`.
    pub(crate) fn send_byte(&mut self, command: u8)
        ensures
            final(self)@ == old(self)@.push(TransactionView::SendByte { command }),
            final(self).slave_address() == old(self).slave_address(),
    {
        self.pending.push(Transaction::SendByte { command });
        assert(self@ =~= old(self)@.push(TransactionView::SendByte { command }));
    }

    /// Schedules a block write of `data` to `register`.
    pub(crate) fn block_write(&mut self, register: u8, data: &[u8])
        ensures
            final(self)@ == old(self)@.push(TransactionView::BlockWrite { register, data: data@ }),
            final(self).slave_address() == old(self).slave_address(),
    {
        let data = slice_to_vec(data);
        self.pending.push(Transaction::BlockWrite { register, data });
        assert(self@ =~= old(self)@.push(TransactionView::BlockWrite { register, data: data@ }));
    }

    /// Schedules a block read of `length` bytes from `register`.
    pub(crate) fn block_read(&mut self, register: u8, length: usize)
        ensures
            final(self)@ == old(self)@.push(
                TransactionView::BlockRead { register, length: length as nat },
            ),
            final(self).slave_address() == old(self).slave_address(),
    {
        self.pending.push(Transaction::BlockRead { register, length });
        assert(self@ =~= old(self)@.push(
            TransactionView::BlockRead { register, length: length as nat },
        ));
    }

    /// Schedules an idle time of `micros` microseconds.
    pub(crate) fn delay(&mut self, micros: u64)
        ensures
            final(self)@ == old(self)@.push(TransactionView::Delay { micros }),
            final(self).slave_address() == old(self).slave_address(),
    {
        self.pending.push(Transaction::Delay { micros });
        assert(self@ =~= old(self)@.push(TransactionView::Delay { micros }));
    }

    /// Hands the whole schedule to the host and leaves nothing pending.
    pub fn take_pending(&mut self) -> (taken: Vec<Transaction>)
        ensures
            taken.deep_view() == old(self)@,
            final(self)@ == Seq::<TransactionView>::empty(),
            final(self).slave_address() == old(self).slave_address(),
    {
        let mut taken: Vec<Transaction> = Vec::new();
        taken.append(&mut self.pending);
        assert(taken@ =~= old(self).pending@);
        assert(self@ =~= Seq::<TransactionView>::empty());
        taken
    }

    /// Records that the front transaction was performed: it leaves the
    /// schedule and is handed back. With nothing pending, nothing changes.
    pub fn acknowledge(&mut self) -> (performed: Option<Transaction>)
        ensures
            final(self)@ == after_front(old(self)@),
            final(self).slave_address() == old(self).slave_address(),
            old(self)@.len() == 0 ==> performed is None,
            old(self)@.len() > 0 ==> (performed matches Some(transaction)
                && transaction@ == old(self)@[0]),
    {
        if self.pending.len() > 0 {
            let transaction = self.pending.remove(0);
            assert(self@ =~= old(self)@.drop_first());
            Some(transaction)
        } else {
            None
        }
    }

    /// Records that the front transaction failed with `cause`. The rest of
    /// the schedule is dropped, so that nothing after the failure reaches
    /// the device, and the error to surface is returned.
    pub fn abort(&mut self, cause: Fault) -> (error: CommunicationError)
        ensures
            error == failure_of(old(self)@, cause),
            final(self)@ == Seq::<TransactionView>::empty(),
            final(self).slave_address() == old(self).slave_address(),
    {
        let reading = self.pending.len() > 0 && match self.pending[0] {
            Transaction::BlockRead { .. } => true,
            _ => false,
        };
        self.pending.clear();
        assert(self@ =~= Seq::<TransactionView>::empty());
        match cause {
            Fault::Bus => CommunicationError::BusError,
            Fault::Unknown => if reading {
                CommunicationError::ReadError
            } else {
                CommunicationError::WriteError
            },
        }
    }
}

/// The register blocks of a device, by register address, after the host
/// has performed `transaction` on it: a block write stores its data,
/// nothing else changes a register.
pub open spec fn perform(registers: Map<u8, Seq<u8>>, transaction: TransactionView) -> Map<
    u8,
    Seq<u8>,
> {
    match transaction {
        TransactionView::BlockWrite { register, data } => registers.insert(register, data),
        _ => registers,
    }
}

/// The register blocks of a device after the host has performed
/// `schedule` on it, front first.
pub open spec fn perform_all(registers: Map<u8, Seq<u8>>, schedule: Seq<TransactionView>) -> Map<
    u8,
    Seq<u8>,
>
    decreases schedule.len(),
{
    if schedule.len() == 0 {
        registers
    } else {
        perform(perform_all(registers, schedule.drop_last()), schedule.last())
    }
}

/// Performing the front transaction and then the rest is performing the
/// schedule.
pub proof fn lemma_perform_front(registers: Map<u8, Seq<u8>>, schedule: Seq<TransactionView>)
    requires
        schedule.len() > 0,
    ensures
        perform_all(perform(registers, schedule[0]), schedule.drop_first()) == perform_all(
            registers,
            schedule,
        ),
    decreases schedule.len(),
{
    let nothing = Seq::<TransactionView>::empty();
    let started = perform(registers, schedule[0]);
    if schedule.len() == 1 {
        assert(schedule.drop_first() =~= nothing);
        assert(schedule.drop_last() =~= nothing);
        assert(perform_all(started, nothing) == started);
        assert(perform_all(registers, nothing) == registers);
    } else {
        let rest = schedule.drop_first();
        lemma_perform_front(registers, schedule.drop_last());
        assert(rest.drop_last() =~= schedule.drop_last().drop_first());
        assert(rest.last() == schedule.last());
        assert(perform_all(started, rest) == perform(
            perform_all(started, rest.drop_last()),
            rest.last(),
        ));
    }
}

/// Performing a schedule with one more transaction at its end is
/// performing the schedule and then that transaction.
pub proof fn lemma_perform_push(
    registers: Map<u8, Seq<u8>>,
    schedule: Seq<TransactionView>,
    transaction: TransactionView,
)
    ensures
        perform_all(registers, schedule.push(transaction)) == perform(
            perform_all(registers, schedule),
            transaction,
        ),
{
    assert(schedule.push(transaction).drop_last() =~= schedule);
}

} // verus!
