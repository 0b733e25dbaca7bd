//! The decisions of the poller that follows the client's circular log.
//!
//! The client keeps three cells: a count of lines, a pointer to the end of a
//! table of offsets, and the base of the buffer that the offsets point into.
//! Following the log alternates reads of that memory with decisions on what
//! to read next. The reads are the caller's; the decisions are [`Scanner::step`],
//! which takes what the last action brought and says what to do next.
//!
//! A poll reads the count, then the pointer, then walks the table backward
//! from the pointer, one slot for each line. It then hands on the message of
//! each slot that is new, in ascending order of offset.

use vstd::prelude::*;
use vstd::slice::slice_subrange;
use crate::messages::grammar::le_value;
use crate::messages::text::read_u32_le;

verus! {

/// Number of table slots before the client starts over.
pub const TABLE_CAPACITY: u32 = 1000;

/// Where the client keeps its log, and how the poller ends.
#[derive(Debug, Clone, Copy, PartialEq, Eq, Structural)]
pub struct ScanConfig {
    /// Address of the cell that counts the lines.
    pub lines_address: usize,
    /// Address of the cell that points behind the last table slot.
    pub index_pointer: usize,
    /// Address of the first byte of the buffer.
    pub chat_address: usize,
    /// End when a poll finds nothing new, instead of waiting.
    pub one_shot: bool,
}

/// What the poller waits for.
#[derive(Debug, Clone, Copy, PartialEq, Eq, Structural)]
pub enum Phase {
    /// The next poll.
    Ready,
    /// The pointer cell.
    Pointer,
    /// The count cell.
    Count,
    /// A table slot.
    Walk,
    /// The bytes of a message.
    Deliver,
    /// The consumer's receipt of a message.
    Sending,
    /// Nothing: the poller has ended.
    Stopped,
}

/// What the caller reports to the poller.
#[derive(Debug, Clone, PartialEq, Eq)]
pub enum Event {
    /// A poll is due.
    Poll,
    /// The read that was asked for brought these bytes.
    Bytes(Vec<u8>),
    /// The read that was asked for failed.
    Failed,
    /// The consumer took the message.
    Sent,
    /// The consumer is gone.
    Closed,
}

/// What the poller asks of the caller.
#[derive(Debug, Clone, PartialEq, Eq)]
pub enum Action {
    /// Read `len` bytes at `address`, and report them or the failure.
    Read { address: usize, len: usize },
    /// Hand this message to the consumer, and report whether it was taken.
    Emit(Vec<u8>),
    /// Nothing is new: wait a moment, then poll.
    Sleep,
    /// The poll is done: poll again.
    Continue,
    /// End: close the stream.
    Stop,
}

/// The mathematical value of an [`Event`].
pub enum EventModel {
    Poll,
    Bytes(Seq<u8>),
    Failed,
    Sent,
    Closed,
}

/// The mathematical value of an [`Action`].
pub enum ActionModel {
    Read { address: int, len: int },
    Emit(Seq<u8>),
    Sleep,
    Continue,
    Stop,
}

impl View for Event {
    type V = EventModel;

    open spec fn view(&self) -> EventModel {
        match self {
            Event::Poll => EventModel::Poll,
            Event::Bytes(b) => EventModel::Bytes(b@),
            Event::Failed => EventModel::Failed,
            Event::Sent => EventModel::Sent,
            Event::Closed => EventModel::Closed,
        }
    }
}

impl View for Action {
    type V = ActionModel;

    open spec fn view(&self) -> ActionModel {
        match self {
            Action::Read { address, len } => ActionModel::Read {
                address: *address as int,
                len: *len as int,
            },
            Action::Emit(b) => ActionModel::Emit(b@),
            Action::Sleep => ActionModel::Sleep,
            Action::Continue => ActionModel::Continue,
            Action::Stop => ActionModel::Stop,
        }
    }
}

/// The poller: its configuration and what it has seen so far.
#[derive(Debug)]
pub struct Scanner {
    pub config: ScanConfig,
    /// Number of table slots that the last finished poll found.
    pub last_count: usize,
    pub phase: Phase,
    /// The table pointer that this poll read.
    pub pointer: u32,
    /// The line count that this poll read, reduced to the table's capacity.
    pub num_lines: usize,
    /// The table slots that this poll has read, in ascending order of address.
    pub indices: Vec<u32>,
    /// The slot whose message is delivered next.
    pub next: usize,
}

/// The mathematical value of a [`Scanner`].
pub struct ScannerModel {
    pub config: ScanConfig,
    pub last_count: int,
    pub phase: Phase,
    pub pointer: int,
    pub num_lines: int,
    pub indices: Seq<u32>,
    pub next: int,
}

impl View for Scanner {
    type V = ScannerModel;

    open spec fn view(&self) -> ScannerModel {
        ScannerModel {
            config: self.config,
            last_count: self.last_count as int,
            phase: self.phase,
            pointer: self.pointer as int,
            num_lines: self.num_lines as int,
            indices: self.indices@,
            next: self.next as int,
        }
    }
}

/// The count of table slots in use that a raw line counter stands for.
pub open spec fn line_count_spec(raw: int) -> int {
    raw % (TABLE_CAPACITY as int)
}

/// The address of the slot that is read after `k` slots: the walk goes
/// backward from the pointer, four bytes at a time.
pub open spec fn walk_address(pointer: int, k: int) -> int {
    pointer - 4 * (k + 1)
}

/// The slot from which delivery starts: the first one not yet delivered, or
/// the first of all where the table holds fewer slots than were delivered,
/// which means that the client has started over.
pub open spec fn cursor_after(last_count: int, n: int) -> int {
    if n < last_count {
        0
    } else {
        last_count
    }
}

/// The offset at which the message of slot `k` starts: where the slot before
/// it ends, or the start of the buffer for the first slot.
pub open spec fn offset_before(indices: Seq<u32>, k: int) -> int {
    if 0 < k <= indices.len() {
        indices[k - 1] as int
    } else {
        0
    }
}

/// The poller has ended.
pub open spec fn stopped(m: ScannerModel) -> (ScannerModel, ActionModel) {
    (ScannerModel { phase: Phase::Stopped, ..m }, ActionModel::Stop)
}

/// Asks for the next table slot; ends where its address would lie below zero.
pub open spec fn request_walk(m: ScannerModel) -> (ScannerModel, ActionModel) {
    let address = walk_address(m.pointer, m.indices.len() as int);
    if address < 0 {
        stopped(m)
    } else {
        (ScannerModel { phase: Phase::Walk, ..m }, ActionModel::Read { address: address, len: 4 })
    }
}

/// Asks for the message of the slot `m.next`, or closes the poll where no
/// slot is left. Ends where the offsets do not ascend or the address does
/// not fit the machine.
pub open spec fn deliver(m: ScannerModel) -> (ScannerModel, ActionModel) {
    if m.next < 0 || m.next >= m.indices.len() {
        (ScannerModel { phase: Phase::Ready, ..m }, ActionModel::Continue)
    } else {
        let prev = offset_before(m.indices, m.next);
        let idx = m.indices[m.next] as int;
        if idx < prev || m.config.chat_address + prev > usize::MAX {
            stopped(m)
        } else {
            (
                ScannerModel { phase: Phase::Deliver, ..m },
                ActionModel::Read { address: m.config.chat_address + prev, len: idx - prev },
            )
        }
    }
}

/// The table is read: compares its size with that of the last poll. Equal
/// sizes mean nothing new, so the poller waits, or ends in one-shot mode.
/// Else the size is remembered and delivery starts at the cursor.
pub open spec fn conclude(m: ScannerModel) -> (ScannerModel, ActionModel) {
    let n = m.indices.len() as int;
    if n == m.last_count {
        if m.config.one_shot {
            stopped(m)
        } else {
            (ScannerModel { phase: Phase::Ready, ..m }, ActionModel::Sleep)
        }
    } else {
        deliver(ScannerModel { last_count: n, next: cursor_after(m.last_count, n), ..m })
    }
}

/// Either the table is complete, or the next slot is asked for.
pub open spec fn walk_on(m: ScannerModel) -> (ScannerModel, ActionModel) {
    if m.indices.len() == m.num_lines {
        conclude(m)
    } else {
        request_walk(m)
    }
}

/// The first four bytes as an integer, least significant byte first.
pub open spec fn cell(bytes: Seq<u8>) -> int {
    le_value(bytes.subrange(0, 4))
}

/// The poller's next state and action, for each state and event. An event
/// that the state does not wait for, a failed read and a read that brought
/// fewer than the four bytes of a cell all end the poller.
pub open spec fn step_spec(m: ScannerModel, e: EventModel) -> (ScannerModel, ActionModel) {
    match (m.phase, e) {
        (Phase::Ready, EventModel::Poll) => (
            ScannerModel { phase: Phase::Count, ..m },
            ActionModel::Read { address: m.config.lines_address as int, len: 4 },
        ),
        (Phase::Count, EventModel::Bytes(b)) => if b.len() < 4 {
            stopped(m)
        } else {
            (
                ScannerModel { phase: Phase::Pointer, num_lines: line_count_spec(cell(b)), ..m },
                ActionModel::Read { address: m.config.index_pointer as int, len: 4 },
            )
        },
        (Phase::Pointer, EventModel::Bytes(b)) => if b.len() < 4 {
            stopped(m)
        } else {
            walk_on(ScannerModel { pointer: cell(b), indices: Seq::empty(), ..m })
        },
        (Phase::Walk, EventModel::Bytes(b)) => if b.len() < 4 || m.indices.len() >= m.num_lines {
            stopped(m)
        } else {
            walk_on(ScannerModel { indices: m.indices.insert(0, cell(b) as u32), ..m })
        },
        (Phase::Deliver, EventModel::Bytes(b)) => (
            ScannerModel { phase: Phase::Sending, ..m },
            ActionModel::Emit(b),
        ),
        (Phase::Sending, EventModel::Sent) => if m.next < 0 || m.next >= m.indices.len() {
            stopped(m)
        } else {
            deliver(ScannerModel { next: m.next + 1, ..m })
        },
        _ => stopped(m),
    }
}

/// The read that brings the message of slot `k`: from where the slot before
/// it ends to where it ends itself.
pub open spec fn read_of_slot(m: ScannerModel, k: int) -> ActionModel {
    ActionModel::Read {
        address: m.config.chat_address + offset_before(m.indices, k),
        len: m.indices[k] - offset_before(m.indices, k),
    }
}

/// The table can be delivered: its offsets ascend, and the buffer up to the
/// last of them lies within the machine's addresses.
pub open spec fn deliverable(m: ScannerModel) -> bool {
    &&& forall|i: int, j: int|
        0 <= i <= j < m.indices.len() ==> m.indices[i] <= m.indices[j]
    &&& forall|i: int|
        0 <= i < m.indices.len() ==> m.config.chat_address + m.indices[i] <= usize::MAX
}

/// Delivery asks for the message of the next slot, whichever it is.
pub proof fn lemma_deliver_reads_next(m: ScannerModel)
    requires
        deliverable(m),
        0 <= m.next < m.indices.len(),
    ensures
        deliver(m) == (ScannerModel { phase: Phase::Deliver, ..m }, read_of_slot(m, m.next)),
{
    if m.next > 0 {
        assert(m.indices[m.next - 1] <= m.indices[m.next]);
        assert(m.config.chat_address + m.indices[m.next - 1] <= usize::MAX);
    }
}

/// One round of delivery: the bytes that were read are handed on as they
/// are; once the consumer has them, the next slot is asked for, or the poll
/// closes after the last one. The table and the count stay as they are.
pub proof fn lemma_delivery_round(m: ScannerModel, bytes: Seq<u8>)
    requires
        deliverable(m),
        m.phase == Phase::Deliver,
        0 <= m.next < m.indices.len(),
    ensures
        step_spec(m, EventModel::Bytes(bytes)) == (
            ScannerModel { phase: Phase::Sending, ..m },
            ActionModel::Emit(bytes),
        ),
        step_spec(ScannerModel { phase: Phase::Sending, ..m }, EventModel::Sent) == if m.next + 1
            < m.indices.len() {
            (
                ScannerModel { phase: Phase::Deliver, next: m.next + 1, ..m },
                read_of_slot(m, m.next + 1),
            )
        } else {
            (ScannerModel { phase: Phase::Ready, next: m.next + 1, ..m }, ActionModel::Continue)
        },
{
    let sent = ScannerModel { phase: Phase::Sending, next: m.next + 1, ..m };
    if m.next + 1 < m.indices.len() {
        lemma_deliver_reads_next(sent);
    }
}

/// A table that has grown is delivered from the first slot that is new.
pub proof fn lemma_growth_delivers_new(m: ScannerModel)
    requires
        deliverable(m),
        0 <= m.last_count < m.indices.len(),
    ensures
        conclude(m) == (
            ScannerModel {
                phase: Phase::Deliver,
                last_count: m.indices.len() as int,
                next: m.last_count,
                ..m
            },
            read_of_slot(m, m.last_count),
        ),
{
    lemma_deliver_reads_next(
        ScannerModel { last_count: m.indices.len() as int, next: m.last_count, ..m },
    );
}

/// Wraparound: a table that holds fewer slots than were delivered is taken
/// as new from its first slot, whatever the count was before.
pub proof fn lemma_wraparound_restarts(m: ScannerModel)
    requires
        deliverable(m),
        0 < m.indices.len() < m.last_count,
    ensures
        conclude(m) == (
            ScannerModel {
                phase: Phase::Deliver,
                last_count: m.indices.len() as int,
                next: 0,
                ..m
            },
            ActionModel::Read {
                address: m.config.chat_address as int,
                len: m.indices[0] as int,
            },
        ),
{
    lemma_deliver_reads_next(ScannerModel { last_count: m.indices.len() as int, next: 0, ..m });
}

/// A table of the size that the last poll found brings no read at all.
pub proof fn lemma_same_size_is_idle(m: ScannerModel)
    requires
        m.indices.len() == m.last_count,
    ensures
        conclude(m).1 == if m.config.one_shot {
            ActionModel::Stop
        } else {
            ActionModel::Sleep
        },
        conclude(m).0.last_count == m.last_count,
{
}

/// Once ended, the poller stays ended.
pub proof fn lemma_stopped_stays(m: ScannerModel, e: EventModel)
    requires
        m.phase == Phase::Stopped,
    ensures
        step_spec(m, e) == (m, ActionModel::Stop),
{
}

/// Offset of the cell that holds the buffer's base, from the line counter.
pub const CHAT_POINTER_OFFSET: usize = 52;

/// Offset of the cell that points behind the table, from the line counter.
pub const INDEX_POINTER_OFFSET: usize = 40;

/// What a sum of addresses gave, as a mathematical integer.
pub open spec fn address_sum(base: usize, offset: usize) -> Option<usize> {
    if base + offset <= usize::MAX {
        Some((base + offset) as usize)
    } else {
        None
    }
}

/// The address of the cell that holds the buffer's base, where it fits the
/// machine.
pub fn get_chat_pointer(lines_address: usize) -> (r: Option<usize>)
    ensures
        r == address_sum(lines_address, CHAT_POINTER_OFFSET),
{
    lines_address.checked_add(CHAT_POINTER_OFFSET)
}

/// The address of the cell that points behind the table, where it fits the
/// machine.
pub fn get_index_pointer(lines_address: usize) -> (r: Option<usize>)
    ensures
        r == address_sum(lines_address, INDEX_POINTER_OFFSET),
{
    lines_address.checked_add(INDEX_POINTER_OFFSET)
}

/// The address that a cell holds, moved on by `offset`: one link of the chain
/// of pointers that leads to the line counter. None where the cell is short
/// or the sum does not fit the machine.
pub fn follow_pointer(cell_bytes: &[u8], offset: usize) -> (r: Option<usize>)
    ensures
        r == if cell_bytes@.len() < 4 {
            None
        } else {
            address_sum(cell(cell_bytes@) as usize, offset)
        },
{
    if cell_bytes.len() < 4 {
        return None;
    }
    let value = read_u32_le(cell_bytes);
    (value as usize).checked_add(offset)
}

/// Reduces a raw line counter to the number of table slots in use.
pub fn line_count(raw: u32) -> (n: u32)
    ensures
        n as int == line_count_spec(raw as int),
        n < TABLE_CAPACITY,
{
    raw % TABLE_CAPACITY
}

impl Scanner {
    /// A poller that has seen nothing yet and waits for its first poll.
    pub fn new(config: ScanConfig) -> (scanner: Scanner)
        ensures
            scanner@ == (ScannerModel {
                config: config,
                last_count: 0,
                phase: Phase::Ready,
                pointer: 0,
                num_lines: 0,
                indices: Seq::empty(),
                next: 0,
            }),
    {
        Scanner {
            config,
            last_count: 0,
            phase: Phase::Ready,
            pointer: 0,
            num_lines: 0,
            indices: Vec::new(),
            next: 0,
        }
    }

    /// The poller has ended and will ask for nothing more.
    pub fn is_stopped(&self) -> (b: bool)
        ensures
            b == (self.phase == Phase::Stopped),
    {
        self.phase == Phase::Stopped
    }

    fn stop(&mut self) -> (action: Action)
        ensures
            (final(self)@, action@) == stopped(old(self)@),
    {
        self.phase = Phase::Stopped;
        Action::Stop
    }

    fn request_walk(&mut self) -> (action: Action)
        ensures
            (final(self)@, action@) == request_walk(old(self)@),
    {
        let k = self.indices.len();
        let pointer = self.pointer as usize;
        if k >= pointer / 4 {
            return self.stop();
        }
        let address: usize = pointer - 4 * (k + 1);
        self.phase = Phase::Walk;
        Action::Read { address, len: 4 }
    }

    fn deliver(&mut self) -> (action: Action)
        ensures
            (final(self)@, action@) == deliver(old(self)@),
    {
        if self.next >= self.indices.len() {
            self.phase = Phase::Ready;
            return Action::Continue;
        }
        let prev: u32 = if self.next > 0 {
            self.indices[self.next - 1]
        } else {
            0
        };
        let idx: u32 = self.indices[self.next];
        if idx < prev {
            return self.stop();
        }
        match self.config.chat_address.checked_add(prev as usize) {
            None => self.stop(),
            Some(address) => {
                self.phase = Phase::Deliver;
                Action::Read { address, len: (idx - prev) as usize }
            },
        }
    }

    fn conclude(&mut self) -> (action: Action)
        ensures
            (final(self)@, action@) == conclude(old(self)@),
    {
        let n = self.indices.len();
        if n == self.last_count {
            if self.config.one_shot {
                self.stop()
            } else {
                self.phase = Phase::Ready;
                Action::Sleep
            }
        } else {
            self.next = if n < self.last_count {
                0
            } else {
                self.last_count
            };
            self.last_count = n;
            self.deliver()
        }
    }

    fn walk_on(&mut self) -> (action: Action)
        ensures
            (final(self)@, action@) == walk_on(old(self)@),
    {
        if self.indices.len() == self.num_lines {
            self.conclude()
        } else {
            self.request_walk()
        }
    }

    /// Takes what the last action brought and says what to do next.
    pub fn step(&mut self, event: Event) -> (action: Action)
        ensures
            (final(self)@, action@) == step_spec(old(self)@, event@),
    {
        match (self.phase, event) {
            (Phase::Ready, Event::Poll) => {
                self.phase = Phase::Count;
                Action::Read { address: self.config.lines_address, len: 4 }
            },
            (Phase::Count, Event::Bytes(b)) => {
                if b.len() < 4 {
                    return self.stop();
                }
                self.num_lines = line_count(read_u32_le(b.as_slice())) as usize;
                self.phase = Phase::Pointer;
                Action::Read { address: self.config.index_pointer, len: 4 }
            },
            (Phase::Pointer, Event::Bytes(b)) => {
                if b.len() < 4 {
                    return self.stop();
                }
                self.pointer = read_u32_le(b.as_slice());
                self.indices = Vec::new();
                self.walk_on()
            },
            (Phase::Walk, Event::Bytes(b)) => {
                if b.len() < 4 || self.indices.len() >= self.num_lines {
                    return self.stop();
                }
                let index = read_u32_le(b.as_slice());
                self.indices.insert(0, index);
                self.walk_on()
            },
            (Phase::Deliver, Event::Bytes(b)) => {
                self.phase = Phase::Sending;
                Action::Emit(b)
            },
            (Phase::Sending, Event::Sent) => {
                if self.next >= self.indices.len() {
                    return self.stop();
                }
                self.next = self.next + 1;
                self.deliver()
            },
            _ => self.stop(),
        }
    }
}

} // verus!
