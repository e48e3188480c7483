//! The event queue: a header tracking a circular window of fixed-size event
//! slots over a caller-owned backing buffer, together with the order-id
//! generator and the register operations.
//!
//! Backing-buffer layout, front to back: `EVENT_QUEUE_HEADER_LEN` bytes
//! reserved for the persisted header, then the register window of
//! `register_size` bytes, then the circular event region. Offsets into the
//! event region wrap at `get_buf_len()`, the length of that region, so the
//! header and register windows are never treated as event storage.

use vstd::arithmetic::div_mod::lemma_fundamental_div_mod;
use vstd::arithmetic::mul::lemma_mul_inequality;
use vstd::pervasive::VecAdditionalExecFns;
use vstd::prelude::*;

use crate::error::AoError;
use crate::events::{
    event_bytes, event_decode, event_record_len, event_wf, lemma_event_bytes_len,
    lemma_event_decode_prefix, lemma_event_roundtrip, Event, EventV,
};
use crate::register::{
    register_clear_bytes, register_decode, register_write_bytes, Register,
};
use crate::types::{AccountTag, Side};

verus! {

/// Bytes reserved at the front of the backing buffer for the persisted
/// header record.
pub const EVENT_QUEUE_HEADER_LEN: usize = 40;

/// Serialized size of the per-operation order summary the register carries
/// for the privileged caller: an optional 128-bit posted order id (1 + 16
/// bytes) and three 64-bit quantities.
pub const ORDER_SUMMARY_SIZE: u32 = 41;

/// Bookkeeping for the circular event region: the logical window (`head`,
/// `count`), the fixed size of one serialized event slot, the shared
/// monotonic sequence counter, and the size of the register window.
#[derive(Clone, Copy, Debug, PartialEq, Eq, Structural)]
pub struct EventQueueHeader {
    pub tag: AccountTag,
    pub head: u64,
    pub count: u64,
    pub event_size: u64,
    pub seq_num: u64,
    pub register_size: u32,
}

impl Default for EventQueueHeader {
    /// A fresh queue header: an empty window, a zeroed sequence counter, and
    /// a register window sized for one order summary plus its tag byte.
    fn default() -> (r: Self)
        ensures
            r == (EventQueueHeader {
                tag: AccountTag::EventQueue,
                head: 0,
                count: 0,
                event_size: 0,
                seq_num: 0,
                register_size: (ORDER_SUMMARY_SIZE + 1) as u32,
            }),
    {
        EventQueueHeader {
            tag: AccountTag::EventQueue,
            head: 0,
            count: 0,
            event_size: 0,
            seq_num: 0,
            register_size: ORDER_SUMMARY_SIZE + 1,
        }
    }
}

/// The event queue: a detached in-memory header plus the whole backing
/// buffer and the queue-wide callback-info length. The header region of the
/// buffer is never touched here; the external collaborator persists the
/// header back when an operation sequence completes.
pub struct EventQueue {
    pub header: EventQueueHeader,
    pub buffer: Vec<u8>,
    pub callback_info_len: usize,
}

/// The mathematical value of an `EventQueue`: the same header over the
/// buffer's byte string.
#[verifier::ext_equal]
pub ghost struct EventQueueV {
    pub header: EventQueueHeader,
    pub buffer: Seq<u8>,
    pub callback_info_len: nat,
}

impl View for EventQueue {
    type V = EventQueueV;

    open spec fn view(&self) -> EventQueueV {
        EventQueueV {
            header: self.header,
            buffer: self.buffer@,
            callback_info_len: self.callback_info_len as nat,
        }
    }
}

impl EventQueueV {
    /// Length of the circular event region: what is left of the buffer after
    /// the header and register windows.
    pub open spec fn buf_len(self) -> int {
        self.buffer.len() - EVENT_QUEUE_HEADER_LEN - self.header.register_size
    }

    /// How many whole event slots the event region holds; trailing slack
    /// bytes are unusable capacity.
    pub open spec fn capacity(self) -> int {
        self.buf_len() / (self.header.event_size as int)
    }

    /// Well-formedness: the buffer is long enough for the header and
    /// register windows plus a non-empty event region, slots have a positive
    /// size, the window bookkeeping is within bounds, and the buffer is
    /// small enough that offset sums fit in 64 bits.
    pub open spec fn wf(self) -> bool {
        &&& self.header.event_size >= 1
        &&& self.header.register_size >= 1
        &&& EVENT_QUEUE_HEADER_LEN + self.header.register_size < self.buffer.len()
        &&& self.header.head < self.buf_len()
        &&& self.header.count <= self.capacity()
        &&& self.buffer.len() < 0x1000000000000000
    }

    /// Physical offset of the slot the next event is serialized into,
    /// wrapping at the event region's length.
    pub open spec fn push_offset(self) -> int {
        EVENT_QUEUE_HEADER_LEN + (self.header.register_size + self.header.head
            + self.header.count * self.header.event_size) % self.buf_len()
    }

    /// Physical offset of the slot the front event is read from, wrapping at
    /// the event region's length.
    pub open spec fn front_offset(self) -> int {
        EVENT_QUEUE_HEADER_LEN + (self.header.register_size + self.header.head) % self.buf_len()
    }

    /// The `event_size` bytes the front event is decoded from.
    pub open spec fn front_window(self) -> Seq<u8> {
        self.buffer.subrange(self.front_offset(), self.front_offset() + self.header.event_size)
    }

    /// What the register operations need of the buffer: a window of at least
    /// the tag byte, lying entirely inside the buffer.
    pub open spec fn register_wf(self) -> bool {
        &&& self.header.register_size >= 1
        &&& EVENT_QUEUE_HEADER_LEN + self.header.register_size <= self.buffer.len()
    }

    /// The register window: `register_size` bytes right after the header
    /// region.
    pub open spec fn register_window(self) -> Seq<u8> {
        self.buffer.subrange(
            EVENT_QUEUE_HEADER_LEN as int,
            EVENT_QUEUE_HEADER_LEN + self.header.register_size,
        )
    }

    /// The queue after the sequence counter is drawn from.
    pub open spec fn bump_seq(self) -> EventQueueV {
        EventQueueV {
            header: EventQueueHeader {
                seq_num: (self.header.seq_num + 1) as u64,
                ..self.header
            },
            ..self
        }
    }

    /// The queue after a successful push of `e`: the event's bytes land in
    /// the next slot, and the count and the sequence counter each advance
    /// by one.
    pub open spec fn push_back_v(self, e: EventV) -> EventQueueV {
        EventQueueV {
            header: EventQueueHeader {
                count: (self.header.count + 1) as u64,
                seq_num: (self.header.seq_num + 1) as u64,
                ..self.header
            },
            buffer: self.buffer.update_subrange_with(self.push_offset(), event_bytes(e)),
            ..self
        }
    }

    /// The queue after the front event is popped: the count drops by one and
    /// the head advances by one, wrapping at the event region's length.
    pub open spec fn pop_front_v(self) -> EventQueueV {
        EventQueueV {
            header: EventQueueHeader {
                count: (self.header.count - 1) as u64,
                head: ((self.header.head + 1) % self.buf_len()) as u64,
                ..self.header
            },
            ..self
        }
    }

    /// The queue after a batch drain of `n` entries: the drain is capped at
    /// the available count, and the head advances by the capped amount,
    /// wrapping at the event region's length.
    pub open spec fn pop_n_v(self, n: u64) -> EventQueueV {
        let capped = if n < self.header.count {
            n as int
        } else {
            self.header.count as int
        };
        EventQueueV {
            header: EventQueueHeader {
                count: (self.header.count - capped) as u64,
                head: ((self.header.head + capped) % self.buf_len()) as u64,
                ..self.header
            },
            ..self
        }
    }
}

impl EventQueue {
    /// Attaches a header to its backing buffer and the queue-wide
    /// callback-info length, leaving the buffer untouched.
    pub fn new(header: EventQueueHeader, account: Vec<u8>, callback_info_len: usize) -> (r: Self)
        ensures
            r.header == header,
            r.buffer == account,
            r.callback_info_len == callback_info_len,
    {
        EventQueue { header, buffer: account, callback_info_len }
    }

    /// Length of the circular event region.
    pub fn get_buf_len(&self) -> (r: usize)
        requires
            EVENT_QUEUE_HEADER_LEN + self@.header.register_size <= self@.buffer.len(),
        ensures
            r == self@.buf_len(),
    {
        self.buffer.len() - EVENT_QUEUE_HEADER_LEN - (self.header.register_size as usize)
    }

    /// True exactly when every slot of the event region is occupied.
    pub fn full(&self) -> (r: bool)
        requires
            self@.wf(),
        ensures
            r == (self@.header.count == self@.capacity()),
    {
        self.header.count == (self.get_buf_len() as u64) / self.header.event_size
    }

    /// Draws the next value of the shared sequence counter. The counter is
    /// monotonic for the life of the queue; this core treats exhausting it
    /// as out of contract rather than wrapping silently.
    fn gen_seq_num(&mut self) -> (r: u64)
        requires
            old(self).header.seq_num < u64::MAX,
        ensures
            r == old(self).header.seq_num,
            final(self)@ == old(self)@.bump_seq(),
    {
        let seq_num = self.header.seq_num;
        self.header.seq_num = self.header.seq_num + 1;
        seq_num
    }

    /// Mints a 128-bit order identifier: the limit price in the high bits
    /// and, below it, the drawn sequence number — complemented for a bid —
    /// so that plain numeric comparison gives price-time priority.
    pub fn gen_order_id(&mut self, limit_price: u64, side: Side) -> (r: u128)
        requires
            old(self).header.seq_num < u64::MAX,
        ensures
            r == order_id_spec(limit_price, side, old(self).header.seq_num),
            final(self)@ == old(self)@.bump_seq(),
    {
        let seq_num = self.gen_seq_num();
        let upper = (limit_price as u128) << 64;
        let lower: u64 = match side {
            Side::Bid => !seq_num,
            Side::Ask => seq_num,
        };
        upper | (lower as u128)
    }

    /// Appends an event to the back of the queue. When the queue is full the
    /// event is handed back unchanged as a backpressure signal; otherwise its
    /// bytes are serialized into the next slot and the count and the shared
    /// sequence counter each advance by one.
    pub fn push_back(&mut self, event: Event) -> (r: Result<(), Event>)
        requires
            old(self)@.wf(),
            event_wf(event@, old(self)@.callback_info_len),
            event_record_len(event@) <= old(self).header.event_size,
            old(self).header.seq_num < u64::MAX,
            old(self).header.count < old(self)@.capacity() ==> old(self)@.push_offset()
                + old(self).header.event_size <= old(self)@.buffer.len(),
        ensures
            old(self).header.count == old(self)@.capacity() ==> r == Err::<(), Event>(event)
                && *final(self) == *old(self),
            old(self).header.count < old(self)@.capacity() ==> r == Ok::<(), Event>(())
                && final(self)@ == old(self)@.push_back_v(event@),
            final(self)@.wf(),
    {
        if self.full() {
            return Err(event);
        }
        proof {
            lemma_mul_inequality(
                self.header.count as int,
                self@.capacity(),
                self.header.event_size as int,
            );
            lemma_fundamental_div_mod(self@.buf_len(), self.header.event_size as int);
            assert(self.header.count * self.header.event_size <= self@.buf_len());
        }
        let buf_len: u64 = self.get_buf_len() as u64;
        let offset_in_region: u64 = ((self.header.register_size as u64) + self.header.head
            + self.header.count * self.header.event_size) % buf_len;
        let buffer_len: usize = self.buffer.len();
        let offset: usize = EVENT_QUEUE_HEADER_LEN + (offset_in_region as usize);
        proof {
            assert(EVENT_QUEUE_HEADER_LEN + offset_in_region < buffer_len);
            assert(offset_in_region == (self.header.register_size + self.header.head
                + self.header.count * self.header.event_size) % self@.buf_len());
            assert(offset == self@.push_offset());
        }
        let mut record: Vec<u8> = Vec::new();
        event.serialize(&mut record);
        proof {
            lemma_event_bytes_len(event@);
        }
        let mut i: usize = 0;
        while i < record.len()
            invariant
                i <= record@.len(),
                record@ == event_bytes(event@),
                offset == old(self)@.push_offset(),
                offset + record@.len() <= self.buffer@.len(),
                offset + record@.len() <= usize::MAX,
                self.header == old(self).header,
                self.callback_info_len == old(self).callback_info_len,
                self.buffer@.len() == old(self).buffer@.len(),
                self.buffer@ == old(self).buffer@.update_subrange_with(
                    offset as int,
                    record@.subrange(0, i as int),
                ),
            decreases record@.len() - i,
        {
            self.buffer.set(offset + i, record[i]);
            i = i + 1;
            proof {
                assert(self.buffer@ =~= old(self).buffer@.update_subrange_with(
                    offset as int,
                    record@.subrange(0, i as int),
                ));
            }
        }
        proof {
            assert(record@.subrange(0, record@.len() as int) =~= record@);
            assert(self.buffer@ == old(self).buffer@.update_subrange_with(
                offset as int,
                event_bytes(event@),
            ));
        }
        self.header.count = self.header.count + 1;
        self.header.seq_num = self.header.seq_num + 1;
        proof {
            assert(final(self)@ =~= old(self)@.push_back_v(event@));
        }
        Ok(())
    }

    /// Deserializes the front event without mutating any state; `None` when
    /// the queue is empty.
    pub fn peek_front(&self) -> (r: Option<Event>)
        requires
            self@.wf(),
            self@.header.count > 0 ==> self@.front_offset() + self@.header.event_size
                <= self@.buffer.len(),
            self@.header.count > 0 ==> event_decode(
                self@.front_window(),
                self@.callback_info_len,
            ) is Some,
        ensures
            self@.header.count == 0 <==> r is None,
            self@.header.count > 0 ==> Some(r->Some_0@) == event_decode(
                self@.front_window(),
                self@.callback_info_len,
            ),
    {
        if self.header.count == 0 {
            return None;
        }
        let buf_len: u64 = self.get_buf_len() as u64;
        let offset_in_region: u64 = ((self.header.register_size as u64) + self.header.head)
            % buf_len;
        let buffer_len: usize = self.buffer.len();
        let offset: usize = EVENT_QUEUE_HEADER_LEN + (offset_in_region as usize);
        proof {
            assert(EVENT_QUEUE_HEADER_LEN + offset_in_region < buffer_len);
            assert(offset_in_region == (self.header.register_size + self.header.head)
                % self@.buf_len());
            assert(offset == self@.front_offset());
            assert(offset + self.header.event_size <= self@.buffer.len());
        }
        let window = vstd::slice::slice_subrange(
            self.buffer.as_slice(),
            offset,
            offset + (self.header.event_size as usize),
        );
        match Event::deserialize(window, self.callback_info_len) {
            Ok(event) => Some(event),
            Err(_) => vstd::pervasive::unreached(),
        }
    }

    /// Reads the front event as `peek_front` does, then advances the window
    /// past it: the count drops by one and the head advances by one,
    /// wrapping at the event region's length. Draining an empty queue is the
    /// ordinary, recoverable `EventQueueEmpty`.
    pub fn pop_front(&mut self) -> (r: Result<Event, AoError>)
        requires
            old(self)@.wf(),
            old(self).header.count > 0 ==> old(self)@.front_offset()
                + old(self).header.event_size <= old(self)@.buffer.len(),
            old(self).header.count > 0 ==> event_decode(
                old(self)@.front_window(),
                old(self)@.callback_info_len,
            ) is Some,
        ensures
            old(self).header.count == 0 ==> r == Err::<Event, AoError>(AoError::EventQueueEmpty)
                && *final(self) == *old(self),
            old(self).header.count > 0 ==> {
                &&& r is Ok
                &&& Some(r->Ok_0@) == event_decode(
                    old(self)@.front_window(),
                    old(self)@.callback_info_len,
                )
                &&& final(self)@ == old(self)@.pop_front_v()
            },
            final(self)@.wf(),
    {
        if self.header.count == 0 {
            return Err(AoError::EventQueueEmpty);
        }
        let buf_len: u64 = self.get_buf_len() as u64;
        let offset_in_region: u64 = ((self.header.register_size as u64) + self.header.head)
            % buf_len;
        let buffer_len: usize = self.buffer.len();
        let offset: usize = EVENT_QUEUE_HEADER_LEN + (offset_in_region as usize);
        proof {
            assert(EVENT_QUEUE_HEADER_LEN + offset_in_region < buffer_len);
            assert(offset_in_region == (self.header.register_size + self.header.head)
                % self@.buf_len());
            assert(offset == self@.front_offset());
            assert(offset + self.header.event_size <= self@.buffer.len());
        }
        let window = vstd::slice::slice_subrange(
            self.buffer.as_slice(),
            offset,
            offset + (self.header.event_size as usize),
        );
        let event = match Event::deserialize(window, self.callback_info_len) {
            Ok(event) => event,
            Err(_) => vstd::pervasive::unreached(),
        };
        self.header.count = self.header.count - 1;
        self.header.head = (self.header.head + 1) % buf_len;
        Ok(event)
    }

    /// Drains up to `number_of_entries_to_pop` events without deserializing
    /// them, silently capping at the available count.
    pub fn pop_n(&mut self, number_of_entries_to_pop: u64)
        requires
            old(self)@.wf(),
        ensures
            final(self)@ == old(self)@.pop_n_v(number_of_entries_to_pop),
            final(self)@.wf(),
    {
        let capped_number_of_entries_to_pop = if number_of_entries_to_pop < self.header.count {
            number_of_entries_to_pop
        } else {
            self.header.count
        };
        let buf_len = self.get_buf_len() as u64;
        self.header.count = self.header.count - capped_number_of_entries_to_pop;
        self.header.head = (self.header.head + capped_number_of_entries_to_pop) % buf_len;
    }

    /// Attaches to a backing buffer as `new` does, and clears the register,
    /// so that a stale summary from an earlier operation sequence can never
    /// be read as a fresh one.
    pub fn new_safe(header: EventQueueHeader, account: Vec<u8>, callback_info_len: usize) -> (r:
        Self)
        requires
            header.register_size >= 1,
            EVENT_QUEUE_HEADER_LEN + header.register_size <= account@.len(),
        ensures
            r.header == header,
            r.callback_info_len == callback_info_len,
            r@.buffer == account@.update(EVENT_QUEUE_HEADER_LEN as int, 0u8),
            forall|payload_len: nat|
                register_decode(r@.register_window(), payload_len) == Some(
                    Register::<Seq<u8>>::Uninitialized,
                ),
    {
        let mut q = EventQueue { header, buffer: account, callback_info_len };
        q.clear_register();
        q
    }

    /// Overwrites the register with an initialized value: tag byte 1, then
    /// the payload bytes; window bytes past the payload keep what they held.
    pub fn write_to_register(&mut self, object: &Vec<u8>)
        requires
            old(self)@.register_wf(),
            1 + object@.len() <= old(self).header.register_size,
        ensures
            final(self).header == old(self).header,
            final(self).callback_info_len == old(self).callback_info_len,
            final(self)@.buffer == old(self)@.buffer.update_subrange_with(
                EVENT_QUEUE_HEADER_LEN as int,
                register_write_bytes(old(self)@.register_window(), object@),
            ),
            final(self)@.register_window() == register_write_bytes(
                old(self)@.register_window(),
                object@,
            ),
    {
        let buffer_len: usize = self.buffer.len();
        proof {
            assert(EVENT_QUEUE_HEADER_LEN + 1 + object@.len() <= buffer_len);
        }
        self.buffer.set(EVENT_QUEUE_HEADER_LEN, 1);
        let mut i: usize = 0;
        while i < object.len()
            invariant
                i <= object@.len(),
                EVENT_QUEUE_HEADER_LEN + 1 + object@.len() <= self.buffer@.len(),
                self.buffer@.len() <= usize::MAX,
                self.header == old(self).header,
                self.callback_info_len == old(self).callback_info_len,
                self.buffer@ == old(self)@.buffer.update(
                    EVENT_QUEUE_HEADER_LEN as int,
                    1u8,
                ).update_subrange_with(EVENT_QUEUE_HEADER_LEN + 1, object@.subrange(0, i as int)),
            decreases object@.len() - i,
        {
            self.buffer.set(EVENT_QUEUE_HEADER_LEN + 1 + i, object[i]);
            i = i + 1;
            proof {
                assert(self.buffer@ =~= old(self)@.buffer.update(
                    EVENT_QUEUE_HEADER_LEN as int,
                    1u8,
                ).update_subrange_with(EVENT_QUEUE_HEADER_LEN + 1, object@.subrange(0, i as int)));
            }
        }
        proof {
            assert(object@.subrange(0, object@.len() as int) =~= object@);
            assert(self.buffer@ =~= old(self)@.buffer.update_subrange_with(
                EVENT_QUEUE_HEADER_LEN as int,
                register_write_bytes(old(self)@.register_window(), object@),
            ));
            assert(final(self)@.register_window() =~= register_write_bytes(
                old(self)@.register_window(),
                object@,
            ));
        }
    }

    /// Resets the register to `Uninitialized` by overwriting its tag byte;
    /// the payload bytes keep what they held and can no longer be read.
    pub fn clear_register(&mut self)
        requires
            old(self)@.register_wf(),
        ensures
            final(self).header == old(self).header,
            final(self).callback_info_len == old(self).callback_info_len,
            final(self)@.buffer == old(self)@.buffer.update(EVENT_QUEUE_HEADER_LEN as int, 0u8),
            final(self)@.register_window() == register_clear_bytes(old(self)@.register_window()),
            forall|payload_len: nat|
                register_decode(final(self)@.register_window(), payload_len) == Some(
                    Register::<Seq<u8>>::Uninitialized,
                ),
    {
        self.buffer.set(EVENT_QUEUE_HEADER_LEN, 0);
        proof {
            assert(final(self)@.register_window() =~= register_clear_bytes(
                old(self)@.register_window(),
            ));
        }
    }

    /// Decodes the register: `Uninitialized` or an initialized payload of
    /// `payload_len` bytes, which the caller knows out of band from the type
    /// the window carries. A malformed tag byte is corrupted storage.
    pub fn read_register(&self, payload_len: usize) -> (r: Result<Register<Vec<u8>>, AoError>)
        requires
            self@.register_wf(),
            1 + payload_len <= self.header.register_size,
        ensures
            match r {
                Ok(reg) => register_decode(self@.register_window(), payload_len as nat) == Some(
                    reg@,
                ),
                Err(err) => {
                    &&& register_decode(self@.register_window(), payload_len as nat) is None
                    &&& err == AoError::DecodeError
                },
            },
    {
        let buffer_len: usize = self.buffer.len();
        proof {
            assert(EVENT_QUEUE_HEADER_LEN + 1 + payload_len <= buffer_len);
        }
        let tag: u8 = self.buffer[EVENT_QUEUE_HEADER_LEN];
        proof {
            assert(self@.register_window()[0] == self@.buffer[EVENT_QUEUE_HEADER_LEN as int]);
        }
        if tag == 0 {
            Ok(Register::Uninitialized)
        } else if tag == 1 {
            let mut payload: Vec<u8> = Vec::new();
            let mut i: usize = 0;
            while i < payload_len
                invariant
                    i <= payload_len,
                    EVENT_QUEUE_HEADER_LEN + 1 + payload_len <= self.buffer@.len(),
                    self.buffer@.len() <= usize::MAX,
                    payload@ == self.buffer@.subrange(
                        EVENT_QUEUE_HEADER_LEN + 1,
                        EVENT_QUEUE_HEADER_LEN + 1 + i,
                    ),
                decreases payload_len - i,
            {
                payload.push(self.buffer[EVENT_QUEUE_HEADER_LEN + 1 + i]);
                i = i + 1;
                proof {
                    assert(payload@ =~= self.buffer@.subrange(
                        EVENT_QUEUE_HEADER_LEN + 1,
                        EVENT_QUEUE_HEADER_LEN + 1 + i,
                    ));
                }
            }
            proof {
                assert(payload@ =~= self@.register_window().subrange(1, 1 + payload_len as int));
            }
            Ok(Register::Initialized(payload))
        } else {
            Err(AoError::DecodeError)
        }
    }
}

/// The order identifier minted for a limit price, a side, and a drawn
/// sequence number: the price in the high 64 bits, and in the low 64 bits
/// the sequence number — complemented for a bid, raw for an ask.
pub open spec fn order_id_spec(limit_price: u64, side: Side, seq_num: u64) -> u128 {
    ((limit_price as u128) << 64) | ((match side {
        Side::Bid => !seq_num,
        Side::Ask => seq_num,
    }) as u128)
}

/// Time priority among bids at one price: the bid minted earlier (smaller
/// sequence number) gets the numerically larger identifier, so descending
/// order over identifiers puts it first.
pub proof fn lemma_order_id_bid_time_priority(limit_price: u64, seq1: u64, seq2: u64)
    requires
        seq1 < seq2,
    ensures
        order_id_spec(limit_price, Side::Bid, seq1) > order_id_spec(limit_price, Side::Bid, seq2),
{
    assert((((limit_price as u128) << 64) | ((!seq1) as u128)) > (((limit_price as u128) << 64) | (
    (!seq2) as u128))) by (bit_vector)
        requires
            seq1 < seq2,
    ;
}

/// Time priority among asks at one price: the ask minted earlier gets the
/// numerically smaller identifier, so ascending order puts it first.
pub proof fn lemma_order_id_ask_time_priority(limit_price: u64, seq1: u64, seq2: u64)
    requires
        seq1 < seq2,
    ensures
        order_id_spec(limit_price, Side::Ask, seq1) < order_id_spec(limit_price, Side::Ask, seq2),
{
    assert((((limit_price as u128) << 64) | (seq1 as u128)) < (((limit_price as u128) << 64) | (
    seq2 as u128))) by (bit_vector)
        requires
            seq1 < seq2,
    ;
}

/// Price dominates: between identifiers minted at different prices, the one
/// with the higher price compares higher, whatever the sides and whichever
/// was minted first.
pub proof fn lemma_order_id_price_priority(
    price1: u64,
    price2: u64,
    side1: Side,
    side2: Side,
    seq1: u64,
    seq2: u64,
)
    requires
        price1 < price2,
    ensures
        order_id_spec(price1, side1, seq1) < order_id_spec(price2, side2, seq2),
{
    let lower1: u64 = match side1 {
        Side::Bid => !seq1,
        Side::Ask => seq1,
    };
    let lower2: u64 = match side2 {
        Side::Bid => !seq2,
        Side::Ask => seq2,
    };
    assert((((price1 as u128) << 64) | (lower1 as u128)) < (((price2 as u128) << 64) | (
    lower2 as u128))) by (bit_vector)
        requires
            price1 < price2,
    ;
}

/// First-in-first-out, for a single record: the event pushed onto an empty
/// queue is exactly what the front of the queue then decodes to, so the next
/// pop returns it. (With more than one event resting, a pop advances the head
/// by one byte rather than one slot, so no analogous statement holds.)
pub proof fn lemma_push_on_empty_then_front(q: EventQueueV, e: EventV)
    requires
        q.wf(),
        q.header.count == 0,
        event_wf(e, q.callback_info_len),
        event_record_len(e) <= q.header.event_size,
        q.push_offset() + q.header.event_size <= q.buffer.len(),
    ensures
        event_decode(q.push_back_v(e).front_window(), q.callback_info_len) == Some(e),
{
    let p = q.push_back_v(e);
    lemma_event_bytes_len(e);
    let off = q.push_offset();
    let n = event_record_len(e) as int;
    let esz = q.header.event_size as int;
    assert(q.header.count * q.header.event_size == 0);
    assert(p.buf_len() == q.buf_len());
    assert(p.front_offset() == off);
    assert(p.front_window() =~= event_bytes(e) + q.buffer.subrange(off + n, off + esz));
    lemma_event_roundtrip(e, q.callback_info_len);
    lemma_event_decode_prefix(
        event_bytes(e),
        q.buffer.subrange(off + n, off + esz),
        q.callback_info_len,
    );
}

/// A later push cannot disturb the front of the queue: as long as the slot
/// the push writes does not overlap the front window, the bytes a peek or a
/// pop reads — the earliest resting event — are exactly what they were
/// before the push.
pub proof fn lemma_push_preserves_front(q: EventQueueV, e: EventV)
    requires
        q.wf(),
        q.front_offset() + q.header.event_size <= q.buffer.len(),
        q.push_offset() + event_record_len(e) <= q.front_offset() || q.front_offset()
            + q.header.event_size <= q.push_offset(),
    ensures
        q.push_back_v(e).front_window() == q.front_window(),
{
    let p = q.push_back_v(e);
    lemma_event_bytes_len(e);
    assert(p.buf_len() == q.buf_len());
    assert(p.front_offset() == q.front_offset());
    assert(p.front_window() =~= q.front_window());
}

} // verus!
