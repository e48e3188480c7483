//! The two event kinds a matching operation records, and their fixed-shape
//! binary codec.
//!
//! Layout, little-endian for every multi-byte integer, with no padding:
//!
//! - Fill: `[0][taker_side][maker_order_id:16][quote_size:8][asset_size:8]`
//!   followed by the maker and taker callback strings, each of the fixed,
//!   queue-wide callback-info length.
//! - Out: `[1][side][order_id:16][asset_size:8]` followed by one callback
//!   string of that length.
//!
//! Records are not self-describing: decoding needs the callback-info length
//! out of band. A discriminant or side byte other than 0 or 1 means the
//! backing storage is corrupted.

use vstd::bytes::{
    lemma_auto_spec_u128_to_from_le_bytes, lemma_auto_spec_u64_to_from_le_bytes,
    spec_u128_from_le_bytes, spec_u128_to_le_bytes, spec_u64_from_le_bytes, spec_u64_to_le_bytes,
    u128_from_le_bytes, u128_to_le_bytes, u64_from_le_bytes, u64_to_le_bytes,
};
use vstd::prelude::*;
use vstd::slice::slice_subrange;

use crate::error::AoError;
use crate::types::{side_of_byte, side_to_byte, Side};

verus! {

/// The outcome of one matching step: a trade (`Fill`) or the removal of a
/// resting order (`Out`). Callback strings are opaque caller data echoed
/// back to identify the owning account.
#[derive(Clone, Debug)]
pub enum Event {
    Fill {
        taker_side: Side,
        maker_order_id: u128,
        quote_size: u64,
        asset_size: u64,
        maker_callback_info: Vec<u8>,
        taker_callback_info: Vec<u8>,
    },
    Out {
        side: Side,
        order_id: u128,
        asset_size: u64,
        callback_info: Vec<u8>,
    },
}

/// The mathematical value of an `Event`: the same record with its callback
/// strings abstracted to byte sequences.
#[verifier::ext_equal]
pub ghost enum EventV {
    Fill {
        taker_side: Side,
        maker_order_id: u128,
        quote_size: u64,
        asset_size: u64,
        maker_callback_info: Seq<u8>,
        taker_callback_info: Seq<u8>,
    },
    Out {
        side: Side,
        order_id: u128,
        asset_size: u64,
        callback_info: Seq<u8>,
    },
}

impl View for Event {
    type V = EventV;

    open spec fn view(&self) -> EventV {
        match self {
            Event::Fill {
                taker_side,
                maker_order_id,
                quote_size,
                asset_size,
                maker_callback_info,
                taker_callback_info,
            } => EventV::Fill {
                taker_side: *taker_side,
                maker_order_id: *maker_order_id,
                quote_size: *quote_size,
                asset_size: *asset_size,
                maker_callback_info: maker_callback_info@,
                taker_callback_info: taker_callback_info@,
            },
            Event::Out { side, order_id, asset_size, callback_info } => EventV::Out {
                side: *side,
                order_id: *order_id,
                asset_size: *asset_size,
                callback_info: callback_info@,
            },
        }
    }
}

/// A well-formed event carries callback strings of exactly the queue-wide
/// callback-info length.
pub open spec fn event_wf(e: EventV, callback_info_len: nat) -> bool {
    match e {
        EventV::Fill { maker_callback_info, taker_callback_info, .. } => {
            &&& maker_callback_info.len() == callback_info_len
            &&& taker_callback_info.len() == callback_info_len
        },
        EventV::Out { callback_info, .. } => callback_info.len() == callback_info_len,
    }
}

/// The length of a serialized record: 34 bytes of fixed fields plus two
/// callback strings for a Fill, 26 plus one for an Out.
pub open spec fn event_record_len(e: EventV) -> nat {
    match e {
        EventV::Fill { maker_callback_info, taker_callback_info, .. } => (34
            + maker_callback_info.len() + taker_callback_info.len()) as nat,
        EventV::Out { callback_info, .. } => (26 + callback_info.len()) as nat,
    }
}

/// The exact byte string a record serializes to.
pub open spec fn event_bytes(e: EventV) -> Seq<u8> {
    match e {
        EventV::Fill {
            taker_side,
            maker_order_id,
            quote_size,
            asset_size,
            maker_callback_info,
            taker_callback_info,
        } => seq![0u8, side_to_byte(taker_side)] + spec_u128_to_le_bytes(maker_order_id)
            + spec_u64_to_le_bytes(quote_size) + spec_u64_to_le_bytes(asset_size)
            + maker_callback_info + taker_callback_info,
        EventV::Out { side, order_id, asset_size, callback_info } => seq![
            1u8,
            side_to_byte(side),
        ] + spec_u128_to_le_bytes(order_id) + spec_u64_to_le_bytes(asset_size) + callback_info,
    }
}

/// The record decoded from the front of `s`, given the callback-info length:
/// `None` exactly when `s` is too short for the discriminant it starts with,
/// or its discriminant or side byte is malformed.
pub open spec fn event_decode(s: Seq<u8>, callback_info_len: nat) -> Option<EventV> {
    let l = callback_info_len as int;
    if s.len() < 2 {
        None
    } else if s[0] == 0 {
        if s.len() < 34 + 2 * l {
            None
        } else {
            match side_of_byte(s[1]) {
                Some(taker_side) => Some(
                    EventV::Fill {
                        taker_side,
                        maker_order_id: spec_u128_from_le_bytes(s.subrange(2, 18)),
                        quote_size: spec_u64_from_le_bytes(s.subrange(18, 26)),
                        asset_size: spec_u64_from_le_bytes(s.subrange(26, 34)),
                        maker_callback_info: s.subrange(34, 34 + l),
                        taker_callback_info: s.subrange(34 + l, 34 + 2 * l),
                    },
                ),
                None => None,
            }
        }
    } else if s[0] == 1 {
        if s.len() < 26 + l {
            None
        } else {
            match side_of_byte(s[1]) {
                Some(side) => Some(
                    EventV::Out {
                        side,
                        order_id: spec_u128_from_le_bytes(s.subrange(2, 18)),
                        asset_size: spec_u64_from_le_bytes(s.subrange(18, 26)),
                        callback_info: s.subrange(26, 26 + l),
                    },
                ),
                None => None,
            }
        }
    } else {
        None
    }
}

/// A serialized record is as long as `event_record_len` says.
pub proof fn lemma_event_bytes_len(e: EventV)
    ensures
        event_bytes(e).len() == event_record_len(e),
{
    lemma_auto_spec_u128_to_from_le_bytes();
    lemma_auto_spec_u64_to_from_le_bytes();
}

/// Round trip: a well-formed record decodes from its own serialization back
/// to itself, under the same callback-info length.
pub proof fn lemma_event_roundtrip(e: EventV, callback_info_len: nat)
    requires
        event_wf(e, callback_info_len),
    ensures
        event_decode(event_bytes(e), callback_info_len) == Some(e),
{
    lemma_auto_spec_u128_to_from_le_bytes();
    lemma_auto_spec_u64_to_from_le_bytes();
    lemma_event_bytes_len(e);
    let s = event_bytes(e);
    let l = callback_info_len as int;
    match e {
        EventV::Fill {
            taker_side,
            maker_order_id,
            quote_size,
            asset_size,
            maker_callback_info,
            taker_callback_info,
        } => {
            assert(s.len() == 34 + 2 * l);
            assert(s[0] == 0);
            assert(s[1] == side_to_byte(taker_side));
            assert(s.subrange(2, 18) =~= spec_u128_to_le_bytes(maker_order_id));
            assert(s.subrange(18, 26) =~= spec_u64_to_le_bytes(quote_size));
            assert(s.subrange(26, 34) =~= spec_u64_to_le_bytes(asset_size));
            assert(s.subrange(34, 34 + l) =~= maker_callback_info);
            assert(s.subrange(34 + l, 34 + 2 * l) =~= taker_callback_info);
            assert(event_decode(s, callback_info_len)->Some_0 =~= e);
        },
        EventV::Out { side, order_id, asset_size, callback_info } => {
            assert(s.len() == 26 + l);
            assert(s[0] == 1);
            assert(s[1] == side_to_byte(side));
            assert(s.subrange(2, 18) =~= spec_u128_to_le_bytes(order_id));
            assert(s.subrange(18, 26) =~= spec_u64_to_le_bytes(asset_size));
            assert(s.subrange(26, 26 + l) =~= callback_info);
            assert(event_decode(s, callback_info_len)->Some_0 =~= e);
        },
    }
}

/// Decoding reads only the front of the window: appending bytes after a
/// decodable record does not change what it decodes to.
pub proof fn lemma_event_decode_prefix(s: Seq<u8>, t: Seq<u8>, callback_info_len: nat)
    requires
        event_decode(s, callback_info_len) is Some,
    ensures
        event_decode(s + t, callback_info_len) == event_decode(s, callback_info_len),
{
    let u = s + t;
    let l = callback_info_len as int;
    assert(u[0] == s[0]);
    assert(u[1] == s[1]);
    if s[0] == 0 {
        assert(u.subrange(2, 18) =~= s.subrange(2, 18));
        assert(u.subrange(18, 26) =~= s.subrange(18, 26));
        assert(u.subrange(26, 34) =~= s.subrange(26, 34));
        assert(u.subrange(34, 34 + l) =~= s.subrange(34, 34 + l));
        assert(u.subrange(34 + l, 34 + 2 * l) =~= s.subrange(34 + l, 34 + 2 * l));
        assert(event_decode(u, callback_info_len)->Some_0 =~= event_decode(
            s,
            callback_info_len,
        )->Some_0);
    } else {
        assert(u.subrange(2, 18) =~= s.subrange(2, 18));
        assert(u.subrange(18, 26) =~= s.subrange(18, 26));
        assert(u.subrange(26, 26 + l) =~= s.subrange(26, 26 + l));
        assert(event_decode(u, callback_info_len)->Some_0 =~= event_decode(
            s,
            callback_info_len,
        )->Some_0);
    }
}

/// Appends every byte of `src` to `dst`.
fn push_bytes(dst: &mut Vec<u8>, src: &Vec<u8>)
    ensures
        final(dst)@ == old(dst)@ + src@,
{
    let mut i: usize = 0;
    while i < src.len()
        invariant
            i <= src@.len(),
            dst@ == old(dst)@ + src@.subrange(0, i as int),
        decreases src@.len() - i,
    {
        dst.push(src[i]);
        i += 1;
        proof {
            assert(dst@ =~= old(dst)@ + src@.subrange(0, i as int));
        }
    }
    proof {
        assert(dst@ =~= old(dst)@ + src@);
    }
}

impl Event {
    /// Appends this record's serialized bytes to `writer`, fields in layout
    /// order with no padding.
    pub fn serialize(&self, writer: &mut Vec<u8>)
        ensures
            final(writer)@ == old(writer)@ + event_bytes(self@),
            final(writer)@.len() == old(writer)@.len() + event_record_len(self@),
    {
        proof {
            lemma_event_bytes_len(self@);
        }
        match self {
            Event::Fill {
                taker_side,
                maker_order_id,
                quote_size,
                asset_size,
                maker_callback_info,
                taker_callback_info,
            } => {
                writer.push(0);
                writer.push(taker_side.to_byte());
                let mut id_bytes = u128_to_le_bytes(*maker_order_id);
                writer.append(&mut id_bytes);
                let mut quote_bytes = u64_to_le_bytes(*quote_size);
                writer.append(&mut quote_bytes);
                let mut asset_bytes = u64_to_le_bytes(*asset_size);
                writer.append(&mut asset_bytes);
                push_bytes(writer, maker_callback_info);
                push_bytes(writer, taker_callback_info);
                proof {
                    assert(writer@ =~= old(writer)@ + event_bytes(self@));
                }
            },
            Event::Out { side, order_id, asset_size, callback_info } => {
                writer.push(1);
                writer.push(side.to_byte());
                let mut id_bytes = u128_to_le_bytes(*order_id);
                writer.append(&mut id_bytes);
                let mut asset_bytes = u64_to_le_bytes(*asset_size);
                writer.append(&mut asset_bytes);
                push_bytes(writer, callback_info);
                proof {
                    assert(writer@ =~= old(writer)@ + event_bytes(self@));
                }
            },
        }
    }

    /// Decodes the record at the front of `buf`, reading the discriminant
    /// byte first; the callback-info length comes from the caller, since
    /// records are not self-describing. A malformed discriminant or side
    /// byte is corrupted storage and decodes to an error.
    pub fn deserialize(buf: &[u8], callback_info_len: usize) -> (r: Result<Event, AoError>)
        requires
            buf@.len() >= 1,
            buf@[0] == 0 ==> buf@.len() >= 34 + 2 * callback_info_len,
            buf@[0] == 1 ==> buf@.len() >= 26 + callback_info_len,
        ensures
            match r {
                Ok(e) => event_decode(buf@, callback_info_len as nat) == Some(e@),
                Err(err) => {
                    &&& event_decode(buf@, callback_info_len as nat) is None
                    &&& err == AoError::DecodeError
                },
            },
    {
        let n: usize = buf.len();
        let tag: u8 = *vstd::slice::slice_index_get(buf, 0);
        if tag == 0 {
            proof {
                assert(34 + 2 * callback_info_len <= n);
            }
            let side_byte: u8 = *vstd::slice::slice_index_get(buf, 1);
            match Side::from_byte(side_byte) {
                Some(taker_side) => {
                    let maker_order_id = u128_from_le_bytes(slice_subrange(buf, 2, 18));
                    let quote_size = u64_from_le_bytes(slice_subrange(buf, 18, 26));
                    let asset_size = u64_from_le_bytes(slice_subrange(buf, 26, 34));
                    let maker_callback_info = vstd::slice::slice_to_vec(
                        slice_subrange(buf, 34, 34 + callback_info_len),
                    );
                    let taker_callback_info = vstd::slice::slice_to_vec(
                        slice_subrange(buf, 34 + callback_info_len, 34 + 2 * callback_info_len),
                    );
                    Ok(
                        Event::Fill {
                            taker_side,
                            maker_order_id,
                            quote_size,
                            asset_size,
                            maker_callback_info,
                            taker_callback_info,
                        },
                    )
                },
                None => Err(AoError::DecodeError),
            }
        } else if tag == 1 {
            proof {
                assert(26 + callback_info_len <= n);
            }
            let side_byte: u8 = *vstd::slice::slice_index_get(buf, 1);
            match Side::from_byte(side_byte) {
                Some(side) => {
                    let order_id = u128_from_le_bytes(slice_subrange(buf, 2, 18));
                    let asset_size = u64_from_le_bytes(slice_subrange(buf, 18, 26));
                    let callback_info = vstd::slice::slice_to_vec(slice_subrange(buf, 26, 26 + callback_info_len));
                    Ok(Event::Out { side, order_id, asset_size, callback_info })
                },
                None => Err(AoError::DecodeError),
            }
        } else {
            Err(AoError::DecodeError)
        }
    }
}

} // verus!
