//! The trace on the wire: each item is one tag byte and a payload whose
//! length the tag fixes. All numbers are four bytes, least significant first.
//!
//! | tag | item                       | payload                              |
//! |-----|----------------------------|--------------------------------------|
//! | 0   | new play                   | seed                                 |
//! | 1   | jump                       | none                                 |
//! | 2   | physics step               | time step                            |
//! | 3   | collision step             | time step, then one offset per slot  |
//! | 4   | game over                  | none                                 |

use crate::delta::{lemma_delta_is_its_bits, Delta, DELTA_LIMIT_BITS};
use crate::replay::TraceError;
use crate::trace::{trace_wf, TraceItem};
use vstd::prelude::*;

verus! {

pub const TAG_NEW_PLAY: u8 = 0;

pub const TAG_JUMP: u8 = 1;

pub const TAG_APPLY_PHYSICS: u8 = 2;

pub const TAG_CHECK_COLLISION: u8 = 3;

pub const TAG_GAME_OVER: u8 = 4;

/// The four bytes of a number, least significant first.
pub open spec fn le_bytes(x: u32) -> Seq<u8> {
    seq![
        (x % 256) as u8,
        (x / 256 % 256) as u8,
        (x / 65_536 % 256) as u8,
        (x / 16_777_216) as u8,
    ]
}

/// The number whose four bytes, least significant first, start at `at`.
pub open spec fn le_value(bytes: Seq<u8>, at: int) -> u32
    recommends
        0 <= at,
        at + 4 <= bytes.len(),
{
    (bytes[at] + bytes[at + 1] * 256 + bytes[at + 2] * 65_536 + bytes[at + 3] * 16_777_216) as u32
}

/// A signed number as the unsigned number with the same bits.
pub open spec fn unsigned(x: i32) -> u32 {
    if x >= 0 {
        x as u32
    } else {
        (x + 0x1_0000_0000) as u32
    }
}

/// An unsigned number as the signed number with the same bits.
pub open spec fn signed(x: u32) -> i32 {
    if x < 0x8000_0000 {
        x as i32
    } else {
        (x - 0x1_0000_0000) as i32
    }
}

/// The number of bytes that an item with the given tag takes, tag
/// included; zero for a byte that is no tag.
pub open spec fn item_len(tag: u8) -> nat {
    if tag == TAG_NEW_PLAY || tag == TAG_APPLY_PHYSICS {
        5
    } else if tag == TAG_JUMP || tag == TAG_GAME_OVER {
        1
    } else if tag == TAG_CHECK_COLLISION {
        25
    } else {
        0
    }
}

/// The bytes of one item.
pub open spec fn encode_item(item: TraceItem) -> Seq<u8> {
    match item {
        TraceItem::NewPlay(seed) => seq![TAG_NEW_PLAY] + le_bytes(unsigned(seed)),
        TraceItem::Jump => seq![TAG_JUMP],
        TraceItem::ApplyPhysics(delta) => seq![TAG_APPLY_PHYSICS] + le_bytes(delta.spec_bits()),
        TraceItem::CheckCollisionAndMovePipes(delta, offsets) => seq![TAG_CHECK_COLLISION]
            + le_bytes(delta.spec_bits()) + le_bytes(unsigned(offsets[0])) + le_bytes(
            unsigned(offsets[1]),
        ) + le_bytes(unsigned(offsets[2])) + le_bytes(unsigned(offsets[3])) + le_bytes(
            unsigned(offsets[4]),
        ),
        TraceItem::GameOver => seq![TAG_GAME_OVER],
    }
}

/// The bytes of a trace: those of its items, one after the other.
pub open spec fn encode_spec(items: Seq<TraceItem>) -> Seq<u8>
    decreases items.len(),
{
    if items.len() == 0 {
        Seq::empty()
    } else {
        encode_item(items[0]) + encode_spec(items.drop_first())
    }
}

/// The item that `bytes` start with, or `None` where they start with no
/// item: no byte, a byte that is no tag, a payload cut short, or a time
/// step that is no time step.
pub open spec fn decode_item(bytes: Seq<u8>) -> Option<TraceItem> {
    if bytes.len() == 0 || item_len(bytes[0]) == 0 || bytes.len() < item_len(bytes[0]) {
        None
    } else if bytes[0] == TAG_NEW_PLAY {
        Some(TraceItem::NewPlay(signed(le_value(bytes, 1))))
    } else if bytes[0] == TAG_JUMP {
        Some(TraceItem::Jump)
    } else if bytes[0] == TAG_GAME_OVER {
        Some(TraceItem::GameOver)
    } else if le_value(bytes, 1) >= DELTA_LIMIT_BITS {
        None
    } else if bytes[0] == TAG_APPLY_PHYSICS {
        Some(TraceItem::ApplyPhysics(Delta::spec_from_bits(le_value(bytes, 1))))
    } else {
        Some(
            TraceItem::CheckCollisionAndMovePipes(
                Delta::spec_from_bits(le_value(bytes, 1)),
                [
                    signed(le_value(bytes, 5)),
                    signed(le_value(bytes, 9)),
                    signed(le_value(bytes, 13)),
                    signed(le_value(bytes, 17)),
                    signed(le_value(bytes, 21)),
                ],
            ),
        )
    }
}

/// The trace that `bytes` hold, or `None` where they hold none.
pub open spec fn decode_spec(bytes: Seq<u8>) -> Option<Seq<TraceItem>>
    decreases bytes.len(),
{
    if bytes.len() == 0 {
        Some(Seq::empty())
    } else {
        match decode_item(bytes) {
            Some(item) => match decode_spec(bytes.skip(item_len(bytes[0]) as int)) {
                Some(rest) => Some(seq![item] + rest),
                None => None,
            },
            None => None,
        }
    }
}

/// Four bytes hold the number that they were made from.
pub proof fn lemma_le_round_trip(x: u32, before: Seq<u8>, after: Seq<u8>)
    ensures
        le_bytes(x).len() == 4,
        le_value(before + le_bytes(x) + after, before.len() as int) == x,
{
}

/// An item takes as many bytes as its tag says, and these start with the tag.
pub proof fn lemma_encode_item_len(item: TraceItem)
    ensures
        encode_item(item).len() > 0,
        encode_item(item).len() == item_len(encode_item(item)[0]),
{
}

/// The bytes of a collision step, whatever follows them, start with that step.
#[verifier::rlimit(50)]
proof fn lemma_decode_encoded_collision(delta: Delta, offsets: [i32; 5], after: Seq<u8>)
    requires
        delta.wf(),
    ensures
        decode_item(encode_item(TraceItem::CheckCollisionAndMovePipes(delta, offsets)) + after)
            == Some(TraceItem::CheckCollisionAndMovePipes(delta, offsets)),
{
    let bytes = encode_item(TraceItem::CheckCollisionAndMovePipes(delta, offsets)) + after;
    let head = seq![TAG_CHECK_COLLISION];
    let b = le_bytes(delta.spec_bits());
    let o0 = le_bytes(unsigned(offsets[0]));
    let o1 = le_bytes(unsigned(offsets[1]));
    let o2 = le_bytes(unsigned(offsets[2]));
    let o3 = le_bytes(unsigned(offsets[3]));
    let o4 = le_bytes(unsigned(offsets[4]));
    assert(le_value(bytes, 1) == delta.spec_bits()) by {
        lemma_le_round_trip(delta.spec_bits(), head, o0 + o1 + o2 + o3 + o4 + after);
    }
    assert(signed(le_value(bytes, 5)) == offsets[0]) by {
        lemma_le_round_trip(unsigned(offsets[0]), head + b, o1 + o2 + o3 + o4 + after);
    }
    assert(signed(le_value(bytes, 9)) == offsets[1]) by {
        lemma_le_round_trip(unsigned(offsets[1]), head + b + o0, o2 + o3 + o4 + after);
    }
    assert(signed(le_value(bytes, 13)) == offsets[2]) by {
        lemma_le_round_trip(unsigned(offsets[2]), head + b + o0 + o1, o3 + o4 + after);
    }
    assert(signed(le_value(bytes, 17)) == offsets[3]) by {
        lemma_le_round_trip(unsigned(offsets[3]), head + b + o0 + o1 + o2, o4 + after);
    }
    assert(signed(le_value(bytes, 21)) == offsets[4]) by {
        lemma_le_round_trip(unsigned(offsets[4]), head + b + o0 + o1 + o2 + o3, after);
    }
    lemma_delta_is_its_bits(delta, 0);
    let read = [
        signed(le_value(bytes, 5)),
        signed(le_value(bytes, 9)),
        signed(le_value(bytes, 13)),
        signed(le_value(bytes, 17)),
        signed(le_value(bytes, 21)),
    ];
    assert(read =~= offsets);
}

/// The bytes of an item, whatever follows them, start with that item.
pub proof fn lemma_decode_encoded_item(item: TraceItem, after: Seq<u8>)
    requires
        item.wf(),
    ensures
        decode_item(encode_item(item) + after) == Some(item),
{
    match item {
        TraceItem::NewPlay(seed) => {
            lemma_le_round_trip(unsigned(seed), seq![TAG_NEW_PLAY], after);
        },
        TraceItem::ApplyPhysics(delta) => {
            lemma_le_round_trip(delta.spec_bits(), seq![TAG_APPLY_PHYSICS], after);
            lemma_delta_is_its_bits(delta, 0);
        },
        TraceItem::CheckCollisionAndMovePipes(delta, offsets) => {
            lemma_decode_encoded_collision(delta, offsets, after);
        },
        _ => {},
    }
}

/// Reading what was written gives back the trace.
pub proof fn lemma_round_trip(items: Seq<TraceItem>)
    requires
        trace_wf(items),
    ensures
        decode_spec(encode_spec(items)) == Some(items),
    decreases items.len(),
{
    if items.len() > 0 {
        let first = items[0];
        let rest = items.drop_first();
        let bytes = encode_spec(items);
        lemma_encode_item_len(first);
        lemma_decode_encoded_item(first, encode_spec(rest));
        assert(bytes.skip(item_len(bytes[0]) as int) =~= encode_spec(rest));
        lemma_round_trip(rest);
    }
}

/// The bytes of a trace with one more item are those of the trace and
/// then those of the item.
pub proof fn lemma_encode_push(items: Seq<TraceItem>, item: TraceItem)
    ensures
        encode_spec(items.push(item)) == encode_spec(items) + encode_item(item),
    decreases items.len(),
{
    if items.len() == 0 {
        assert(items.push(item).drop_first() =~= items);
    } else {
        assert(items.push(item).drop_first() =~= items.drop_first().push(item));
        lemma_encode_push(items.drop_first(), item);
    }
}

/// Appends the four bytes of a number.
fn put_u32(out: &mut Vec<u8>, x: u32)
    ensures
        final(out)@ == old(out)@ + le_bytes(x),
{
    out.push((x % 256) as u8);
    out.push((x / 256 % 256) as u8);
    out.push((x / 65_536 % 256) as u8);
    out.push((x / 16_777_216) as u8);
}

/// Reads the number whose four bytes start at `at`.
fn get_u32(bytes: &[u8], at: usize) -> (x: u32)
    requires
        at + 4 <= bytes@.len(),
    ensures
        x == le_value(bytes@, at as int),
{
    (bytes[at] as u32) + (bytes[at + 1] as u32) * 256 + (bytes[at + 2] as u32) * 65_536 + (bytes[at
        + 3] as u32) * 16_777_216
}

/// The unsigned number with the bits of `x`.
fn to_unsigned(x: i32) -> (u: u32)
    ensures
        u == unsigned(x),
{
    if x >= 0 {
        x as u32
    } else {
        ((x as i64) + 0x1_0000_0000) as u32
    }
}

/// The signed number with the bits of `x`.
fn to_signed(x: u32) -> (i: i32)
    ensures
        i == signed(x),
{
    if x < 0x8000_0000 {
        x as i32
    } else {
        ((x as i64) - 0x1_0000_0000) as i32
    }
}

/// Appends the bytes of one item.
fn put_item(out: &mut Vec<u8>, item: &TraceItem)
    ensures
        final(out)@ == old(out)@ + encode_item(*item),
{
    match item {
        TraceItem::NewPlay(seed) => {
            out.push(TAG_NEW_PLAY);
            put_u32(out, to_unsigned(*seed));
        },
        TraceItem::Jump => {
            out.push(TAG_JUMP);
        },
        TraceItem::ApplyPhysics(delta) => {
            out.push(TAG_APPLY_PHYSICS);
            put_u32(out, delta.bits());
        },
        TraceItem::CheckCollisionAndMovePipes(delta, offsets) => {
            out.push(TAG_CHECK_COLLISION);
            put_u32(out, delta.bits());
            put_u32(out, to_unsigned(offsets[0]));
            put_u32(out, to_unsigned(offsets[1]));
            put_u32(out, to_unsigned(offsets[2]));
            put_u32(out, to_unsigned(offsets[3]));
            put_u32(out, to_unsigned(offsets[4]));
        },
        TraceItem::GameOver => {
            out.push(TAG_GAME_OVER);
        },
    }
}

/// Writes a trace as bytes.
pub fn encode_trace(items: &Vec<TraceItem>) -> (bytes: Vec<u8>)
    ensures
        bytes@ == encode_spec(items@),
{
    let mut bytes: Vec<u8> = Vec::new();
    let mut i: usize = 0;
    while i < items.len()
        invariant
            i <= items.len(),
            bytes@ == encode_spec(items@.take(i as int)),
        decreases items.len() - i,
    {
        put_item(&mut bytes, &items[i]);
        proof {
            lemma_encode_push(items@.take(i as int), items@[i as int]);
            assert(items@.take(i as int).push(items@[i as int]) =~= items@.take(i + 1));
        }
        i += 1;
    }
    assert(items@.take(i as int) =~= items@);
    bytes
}

/// Reads the item that starts at `pos`, and says how many bytes it takes.
fn get_item(bytes: &[u8], pos: usize) -> (read: Option<(TraceItem, usize)>)
    requires
        pos < bytes@.len(),
    ensures
        match read {
            Some((item, len)) => {
                &&& decode_item(bytes@.skip(pos as int)) == Some(item)
                &&& len == item_len(bytes@[pos as int])
                &&& 0 < len
                &&& pos + len <= bytes@.len()
                &&& item.wf()
            },
            None => decode_item(bytes@.skip(pos as int)) is None,
        },
{
    let ghost tail = bytes@.skip(pos as int);
    let n = bytes.len();
    let tag = bytes[pos];
    assert(tail[0] == tag);
    if tag == TAG_JUMP {
        return Some((TraceItem::Jump, 1));
    }
    if tag == TAG_GAME_OVER {
        return Some((TraceItem::GameOver, 1));
    }
    if tag > TAG_GAME_OVER || n - pos < 5 {
        return None;
    }
    let first = get_u32(bytes, pos + 1);
    assert(first == le_value(tail, 1));
    if tag == TAG_NEW_PLAY {
        return Some((TraceItem::NewPlay(to_signed(first)), 5));
    }
    if tag == TAG_CHECK_COLLISION && n - pos < 25 {
        return None;
    }
    let delta = match Delta::from_bits(first) {
        Some(delta) => delta,
        None => {
            return None;
        },
    };
    if tag == TAG_APPLY_PHYSICS {
        return Some((TraceItem::ApplyPhysics(delta), 5));
    }
    let o0 = to_signed(get_u32(bytes, pos + 5));
    let o1 = to_signed(get_u32(bytes, pos + 9));
    let o2 = to_signed(get_u32(bytes, pos + 13));
    let o3 = to_signed(get_u32(bytes, pos + 17));
    let o4 = to_signed(get_u32(bytes, pos + 21));
    assert(o0 == signed(le_value(tail, 5)));
    assert(o1 == signed(le_value(tail, 9)));
    assert(o2 == signed(le_value(tail, 13)));
    assert(o3 == signed(le_value(tail, 17)));
    assert(o4 == signed(le_value(tail, 21)));
    Some((TraceItem::CheckCollisionAndMovePipes(delta, [o0, o1, o2, o3, o4]), 25))
}

/// Reads a trace from bytes. Bytes that hold no trace are malformed.
pub fn decode_trace(bytes: &[u8]) -> (decoded: Result<Vec<TraceItem>, TraceError>)
    ensures
        match decoded {
            Ok(items) => decode_spec(bytes@) == Some(items@) && trace_wf(items@),
            Err(e) => decode_spec(bytes@) is None && e == TraceError::MalformedTrace,
        },
{
    let n = bytes.len();
    let mut items: Vec<TraceItem> = Vec::new();
    let mut pos: usize = 0;
    assert(bytes@.skip(0) =~= bytes@);
    while pos < n
        invariant
            pos <= n,
            n == bytes@.len(),
            trace_wf(items@),
            decode_spec(bytes@) == match decode_spec(bytes@.skip(pos as int)) {
                Some(rest) => Some(items@ + rest),
                None => None,
            },
        decreases n - pos,
    {
        match get_item(bytes, pos) {
            None => {
                return Err(TraceError::MalformedTrace);
            },
            Some((item, len)) => {
                assert(bytes@.skip(pos as int).skip(len as int) =~= bytes@.skip(pos + len));
                items.push(item);
                pos += len;
            },
        }
    }
    Ok(items)
}

} // verus!
