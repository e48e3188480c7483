use event_queue::events::Event;
use event_queue::{
    AccountTag, AoError, EventQueue, EventQueueHeader, Register, Side, EVENT_QUEUE_HEADER_LEN,
    ORDER_SUMMARY_SIZE,
};

const CALLBACK_INFO_LEN: usize = 2;
const EVENT_SIZE: u64 = 28; // an Out record: 26 + CALLBACK_INFO_LEN
const REGISTER_SIZE: u32 = 5;
const CAPACITY: u64 = 3;

fn test_header() -> EventQueueHeader {
    EventQueueHeader {
        tag: AccountTag::EventQueue,
        head: 0,
        count: 0,
        event_size: EVENT_SIZE,
        seq_num: 0,
        register_size: REGISTER_SIZE,
    }
}

/// A queue over a buffer sized for exactly `CAPACITY` event slots.
fn test_queue() -> EventQueue {
    let buffer_len =
        EVENT_QUEUE_HEADER_LEN + REGISTER_SIZE as usize + (CAPACITY * EVENT_SIZE) as usize;
    EventQueue::new_safe(test_header(), vec![0u8; buffer_len], CALLBACK_INFO_LEN)
}

/// An Out event whose order id starts with bytes 1, 0 so that the windows a
/// misaligned head exposes still decode.
fn out_event(asset_size: u64) -> Event {
    Event::Out {
        side: Side::Ask,
        order_id: 1,
        asset_size,
        callback_info: vec![0xdd; CALLBACK_INFO_LEN],
    }
}

fn assert_out_with_asset(event: &Event, expected_asset: u64) {
    match event {
        Event::Out { asset_size, .. } => assert_eq!(*asset_size, expected_asset),
        other => panic!("expected an Out, got {:?}", other),
    }
}

#[test]
fn default_header_is_fresh() {
    let header = EventQueueHeader::default();
    assert_eq!(header.head, 0);
    assert_eq!(header.count, 0);
    assert_eq!(header.seq_num, 0);
    assert_eq!(header.event_size, 0);
    assert_eq!(header.register_size, ORDER_SUMMARY_SIZE + 1);
    assert!(matches!(header.tag, AccountTag::EventQueue));
}

#[test]
fn buf_len_and_capacity() {
    let q = test_queue();
    assert_eq!(q.get_buf_len(), (CAPACITY * EVENT_SIZE) as usize);
    assert!(!q.full());
}

#[test]
fn capacity_bound_and_backpressure() {
    let mut q = test_queue();
    for i in 0..CAPACITY {
        assert_eq!(q.header.count, i);
        assert!(!q.full());
        assert!(q.push_back(out_event(i)).is_ok());
        assert_eq!(q.header.count, i + 1);
    }
    assert!(q.full());
    let rejected = q.push_back(out_event(7));
    match rejected {
        Err(event) => assert_out_with_asset(&event, 7),
        Ok(()) => panic!("a push into a full queue must hand the event back"),
    }
    assert_eq!(q.header.count, CAPACITY);
}

#[test]
fn push_then_pop_single_event_fifo() {
    let mut q = test_queue();
    assert!(q.push_back(out_event(41)).is_ok());
    let front = q.peek_front().unwrap();
    assert_out_with_asset(&front, 41);
    assert_eq!(q.header.count, 1);
    let popped = q.pop_front().unwrap();
    assert_out_with_asset(&popped, 41);
    assert_eq!(q.header.count, 0);
    assert!(q.peek_front().is_none());
}

#[test]
fn drain_scenario_capacity_three() {
    let mut q = test_queue();
    for i in 0..CAPACITY {
        assert!(q.push_back(out_event(100 + i)).is_ok());
    }
    assert!(q.full());
    match q.push_back(out_event(999)) {
        Err(event) => assert_out_with_asset(&event, 999),
        Ok(()) => panic!("a push into a full queue must hand the event back"),
    }
    assert_eq!(q.header.count, CAPACITY);

    // The first pop returns the first event pushed; the head then advances
    // by one byte per pop, so later pops read windows shifted off the slot
    // boundaries.
    let first = q.pop_front().unwrap();
    assert_out_with_asset(&first, 100);
    assert_eq!(q.header.head, 1);
    assert!(q.pop_front().is_ok());
    assert!(q.pop_front().is_ok());
    assert_eq!(q.header.count, 0);
    match q.pop_front() {
        Err(AoError::EventQueueEmpty) => {}
        other => panic!("expected the queue to be empty, got {:?}", other),
    }
}

#[test]
fn pop_n_caps_at_count_and_advances_head() {
    let mut q = test_queue();
    assert!(q.push_back(out_event(1)).is_ok());
    assert!(q.push_back(out_event(2)).is_ok());
    assert_eq!(q.header.count, 2);
    q.pop_n(5);
    assert_eq!(q.header.count, 0);
    assert_eq!(q.header.head, 2); // advanced by min(2, 5), mod get_buf_len()
    q.pop_n(4);
    assert_eq!(q.header.count, 0);
    assert_eq!(q.header.head, 2);
}

#[test]
fn pop_n_zero_is_a_no_op() {
    let mut q = test_queue();
    assert!(q.push_back(out_event(1)).is_ok());
    q.pop_n(0);
    assert_eq!(q.header.count, 1);
    assert_eq!(q.header.head, 0);
}

#[test]
fn order_ids_give_price_time_priority() {
    let mut q = test_queue();
    let bid1 = q.gen_order_id(50, Side::Bid);
    let bid2 = q.gen_order_id(50, Side::Bid);
    assert!(bid1 > bid2); // earlier bid wins at equal price
    let ask1 = q.gen_order_id(50, Side::Ask);
    let ask2 = q.gen_order_id(50, Side::Ask);
    assert!(ask1 < ask2); // earlier ask wins at equal price
    let low = q.gen_order_id(10, Side::Bid);
    let high = q.gen_order_id(11, Side::Ask);
    assert!(low < high); // price dominates side and mint order
}

#[test]
fn order_id_exact_layout() {
    let mut q = test_queue();
    q.header.seq_num = 3;
    let ask = q.gen_order_id(5, Side::Ask);
    assert_eq!(ask, (5u128 << 64) | 3u128);
    assert_eq!(q.header.seq_num, 4);
    let bid = q.gen_order_id(5, Side::Bid);
    assert_eq!(bid, (5u128 << 64) | (!4u64 as u128));
    assert_eq!(q.header.seq_num, 5);
}

#[test]
fn push_and_order_id_share_the_sequence_counter() {
    let mut q = test_queue();
    assert_eq!(q.header.seq_num, 0);
    let _ = q.gen_order_id(9, Side::Ask);
    assert_eq!(q.header.seq_num, 1);
    assert!(q.push_back(out_event(0)).is_ok());
    assert_eq!(q.header.seq_num, 2);
    let later = q.gen_order_id(9, Side::Ask);
    assert_eq!(later, (9u128 << 64) | 2u128);
}

#[test]
fn register_lifecycle() {
    let mut q = test_queue();
    // Construction cleared the register.
    match q.read_register(4).unwrap() {
        Register::Uninitialized => {}
        Register::Initialized(v) => panic!("fresh register held {:?}", v),
    }
    let payload = vec![9u8, 8, 7, 6];
    q.write_to_register(&payload);
    match q.read_register(4).unwrap() {
        Register::Initialized(v) => assert_eq!(v, payload),
        Register::Uninitialized => panic!("the written register reads back empty"),
    }
    q.clear_register();
    match q.read_register(4).unwrap() {
        Register::Uninitialized => {}
        Register::Initialized(v) => panic!("the cleared register held {:?}", v),
    }
}

#[test]
fn register_overwrite_replaces_value() {
    let mut q = test_queue();
    q.write_to_register(&vec![1u8, 2, 3, 4]);
    q.write_to_register(&vec![5u8, 6, 7, 8]);
    match q.read_register(4).unwrap() {
        Register::Initialized(v) => assert_eq!(v, vec![5u8, 6, 7, 8]),
        Register::Uninitialized => panic!("the written register reads back empty"),
    }
}

#[test]
fn register_bad_tag_is_decode_error() {
    let mut q = test_queue();
    q.buffer[EVENT_QUEUE_HEADER_LEN] = 3;
    match q.read_register(4) {
        Err(AoError::DecodeError) => {}
        other => panic!("expected a decode error, got {:?}", other),
    }
}

#[test]
fn register_unwrap_returns_value() {
    let reg: Register<u64> = Register::Initialized(17);
    assert_eq!(reg.unwrap(), 17);
}

#[test]
fn push_writes_only_the_event_window() {
    let mut q = test_queue();
    q.write_to_register(&vec![1u8, 2, 3, 4]);
    assert!(q.push_back(out_event(5)).is_ok());
    // The register window survives pushes: the event region is disjoint.
    match q.read_register(4).unwrap() {
        Register::Initialized(v) => assert_eq!(v, vec![1u8, 2, 3, 4]),
        Register::Uninitialized => panic!("a push clobbered the register"),
    }
}
