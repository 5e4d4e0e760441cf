//! The replay log: one snapshot per tick, and an exact binary encoding
//! of the snapshot sequence. The encoding is little-endian and
//! length-prefixed; decoding is proved to invert encoding, so a replay
//! round-trips bit for bit.

use vstd::prelude::*;
use crate::external::{brotli_compressed, brotli_decompress};
use crate::geometry::{Location, MoveDirection};

verus! {

/// One replay snapshot, taken at each tick before the move it records:
/// the tick's timestamp in milliseconds, the head cell, the apple cell,
/// and the direction resolved for this tick.
#[derive(Clone, Copy, PartialEq, Eq, Structural, Debug)]
pub struct GameTurn {
    pub time: u64,
    pub snake: Location,
    pub apple: Location,
    pub next_direction: MoveDirection,
}

/// The eight little-endian bytes of `v`.
pub open spec fn u64_le_bytes(v: u64) -> Seq<u8> {
    seq![
        (v & 0xff) as u8,
        ((v >> 8) & 0xff) as u8,
        ((v >> 16) & 0xff) as u8,
        ((v >> 24) & 0xff) as u8,
        ((v >> 32) & 0xff) as u8,
        ((v >> 40) & 0xff) as u8,
        ((v >> 48) & 0xff) as u8,
        ((v >> 56) & 0xff) as u8,
    ]
}

/// The value read back from eight little-endian bytes.
pub open spec fn u64_from_le(b: Seq<u8>) -> u64
    recommends
        b.len() == 8,
{
    (b[0] as u64) | ((b[1] as u64) << 8) | ((b[2] as u64) << 16) | ((b[3] as u64) << 24)
        | ((b[4] as u64) << 32) | ((b[5] as u64) << 40) | ((b[6] as u64) << 48)
        | ((b[7] as u64) << 56)
}

/// The four little-endian bytes of `v`.
pub open spec fn u32_le_bytes(v: u32) -> Seq<u8> {
    seq![
        (v & 0xff) as u8,
        ((v >> 8) & 0xff) as u8,
        ((v >> 16) & 0xff) as u8,
        ((v >> 24) & 0xff) as u8,
    ]
}

/// The value read back from four little-endian bytes.
pub open spec fn u32_from_le(b: Seq<u8>) -> u32
    recommends
        b.len() == 4,
{
    (b[0] as u32) | ((b[1] as u32) << 8) | ((b[2] as u32) << 16) | ((b[3] as u32) << 24)
}

/// A signed coordinate encoded through its unsigned bit pattern.
pub open spec fn i32_le_bytes(v: i32) -> Seq<u8> {
    u32_le_bytes(v as u32)
}

/// A signed coordinate read back from its unsigned bit pattern.
pub open spec fn i32_from_le(b: Seq<u8>) -> i32
    recommends
        b.len() == 4,
{
    u32_from_le(b) as i32
}

/// The encoding tag of a direction.
pub open spec fn dir_byte(d: MoveDirection) -> u8 {
    match d {
        MoveDirection::Up => 0u8,
        MoveDirection::Down => 1u8,
        MoveDirection::Left => 2u8,
        MoveDirection::Right => 3u8,
    }
}

/// The direction a tag decodes to, or nothing for an unused tag.
pub open spec fn dir_from_byte(b: u8) -> Option<MoveDirection> {
    if b == 0 {
        Some(MoveDirection::Up)
    } else if b == 1 {
        Some(MoveDirection::Down)
    } else if b == 2 {
        Some(MoveDirection::Left)
    } else if b == 3 {
        Some(MoveDirection::Right)
    } else {
        None
    }
}

/// The 25-byte record of one snapshot: timestamp, head cell, apple
/// cell, direction tag.
pub open spec fn encoded_turn(t: GameTurn) -> Seq<u8> {
    u64_le_bytes(t.time) + i32_le_bytes(t.snake.x) + i32_le_bytes(t.snake.y)
        + i32_le_bytes(t.apple.x) + i32_le_bytes(t.apple.y) + seq![dir_byte(t.next_direction)]
}

/// The snapshot a 25-byte record decodes to, or nothing if the
/// direction tag is unused.
pub open spec fn decoded_turn(b: Seq<u8>) -> Option<GameTurn>
    recommends
        b.len() == 25,
{
    match dir_from_byte(b[24]) {
        None => None,
        Some(d) => Some(
            GameTurn {
                time: u64_from_le(b.subrange(0, 8)),
                snake: Location {
                    x: i32_from_le(b.subrange(8, 12)),
                    y: i32_from_le(b.subrange(12, 16)),
                },
                apple: Location {
                    x: i32_from_le(b.subrange(16, 20)),
                    y: i32_from_le(b.subrange(20, 24)),
                },
                next_direction: d,
            },
        ),
    }
}

/// The records of a snapshot sequence, in order.
pub open spec fn encoded_turns(ts: Seq<GameTurn>) -> Seq<u8>
    decreases ts.len(),
{
    if ts.len() == 0 {
        Seq::<u8>::empty()
    } else {
        encoded_turn(ts.first()) + encoded_turns(ts.drop_first())
    }
}

/// The snapshot sequence that `n` consecutive records decode to, or
/// nothing if any record is malformed or bytes are left over.
pub open spec fn decoded_turns(b: Seq<u8>, n: int) -> Option<Seq<GameTurn>>
    decreases n,
{
    if n <= 0 {
        if n == 0 && b.len() == 0 {
            Some(Seq::<GameTurn>::empty())
        } else {
            None
        }
    } else if b.len() < 25 {
        None
    } else {
        match decoded_turn(b.subrange(0, 25)) {
            None => None,
            Some(t) => match decoded_turns(b.subrange(25, b.len() as int), n - 1) {
                None => None,
                Some(ts) => Some(seq![t] + ts),
            },
        }
    }
}

/// The whole serialized replay: a little-endian record count followed
/// by the records.
pub open spec fn encoded_replay(ts: Seq<GameTurn>) -> Seq<u8>
    recommends
        ts.len() <= u32::MAX,
{
    u32_le_bytes(ts.len() as u32) + encoded_turns(ts)
}

/// The snapshot sequence a serialized replay decodes to, or nothing if
/// the bytes are not exactly a count followed by that many well-formed
/// records.
pub open spec fn decoded_replay(b: Seq<u8>) -> Option<Seq<GameTurn>> {
    if b.len() < 4 {
        None
    } else {
        let n = u32_from_le(b.subrange(0, 4));
        if b.len() - 4 == 25 * n {
            decoded_turns(b.subrange(4, b.len() as int), n as int)
        } else {
            None
        }
    }
}

pub proof fn lemma_u64_le_roundtrip(v: u64)
    ensures
        u64_from_le(u64_le_bytes(v)) == v,
{
    assert((((v & 0xff) as u8) as u64) | (((((v >> 8) & 0xff) as u8) as u64) << 8)
        | (((((v >> 16) & 0xff) as u8) as u64) << 16) | (((((v >> 24) & 0xff) as u8) as u64) << 24)
        | (((((v >> 32) & 0xff) as u8) as u64) << 32) | (((((v >> 40) & 0xff) as u8) as u64) << 40)
        | (((((v >> 48) & 0xff) as u8) as u64) << 48) | (((((v >> 56) & 0xff) as u8) as u64) << 56)
        == v) by (bit_vector);
}

pub proof fn lemma_u32_le_roundtrip(v: u32)
    ensures
        u32_from_le(u32_le_bytes(v)) == v,
{
    assert((((v & 0xff) as u8) as u32) | (((((v >> 8) & 0xff) as u8) as u32) << 8)
        | (((((v >> 16) & 0xff) as u8) as u32) << 16) | (((((v >> 24) & 0xff) as u8) as u32) << 24)
        == v) by (bit_vector);
}

pub proof fn lemma_i32_le_roundtrip(v: i32)
    ensures
        i32_from_le(i32_le_bytes(v)) == v,
{
    lemma_u32_le_roundtrip(v as u32);
    assert((v as u32) as i32 == v) by (bit_vector);
}

/// One record decodes back to the snapshot it encodes.
pub proof fn lemma_turn_roundtrip(t: GameTurn)
    ensures
        encoded_turn(t).len() == 25,
        decoded_turn(encoded_turn(t)) == Some(t),
{
    let e = encoded_turn(t);
    assert(e.len() == 25);
    assert(e[24] == dir_byte(t.next_direction));
    assert(e.subrange(0, 8) =~= u64_le_bytes(t.time));
    assert(e.subrange(8, 12) =~= i32_le_bytes(t.snake.x));
    assert(e.subrange(12, 16) =~= i32_le_bytes(t.snake.y));
    assert(e.subrange(16, 20) =~= i32_le_bytes(t.apple.x));
    assert(e.subrange(20, 24) =~= i32_le_bytes(t.apple.y));
    lemma_u64_le_roundtrip(t.time);
    lemma_i32_le_roundtrip(t.snake.x);
    lemma_i32_le_roundtrip(t.snake.y);
    lemma_i32_le_roundtrip(t.apple.x);
    lemma_i32_le_roundtrip(t.apple.y);
}

pub proof fn lemma_encoded_turns_len(ts: Seq<GameTurn>)
    ensures
        encoded_turns(ts).len() == 25 * ts.len(),
    decreases ts.len(),
{
    if ts.len() > 0 {
        lemma_turn_roundtrip(ts.first());
        lemma_encoded_turns_len(ts.drop_first());
    }
}

/// Appending a snapshot appends its record.
pub proof fn lemma_encoded_turns_push(ts: Seq<GameTurn>, t: GameTurn)
    ensures
        encoded_turns(ts.push(t)) == encoded_turns(ts) + encoded_turn(t),
    decreases ts.len(),
{
    if ts.len() == 0 {
        assert(ts.push(t).drop_first() =~= Seq::<GameTurn>::empty());
        assert(ts.push(t).first() == t);
        assert(encoded_turns(Seq::<GameTurn>::empty()) == Seq::<u8>::empty());
        assert(encoded_turns(ts.push(t)) == encoded_turn(t) + Seq::<u8>::empty());
        assert(encoded_turns(ts.push(t)) =~= encoded_turns(ts) + encoded_turn(t));
    } else {
        assert(ts.push(t).first() == ts.first());
        assert(ts.push(t).drop_first() =~= ts.drop_first().push(t));
        lemma_encoded_turns_push(ts.drop_first(), t);
        assert(encoded_turns(ts.push(t)) =~= encoded_turns(ts) + encoded_turn(t));
    }
}

/// The records of a snapshot sequence decode back to that sequence.
pub proof fn lemma_turns_roundtrip(ts: Seq<GameTurn>)
    ensures
        decoded_turns(encoded_turns(ts), ts.len() as int) == Some(ts),
    decreases ts.len(),
{
    if ts.len() == 0 {
        assert(encoded_turns(ts).len() == 0);
        assert(ts =~= Seq::<GameTurn>::empty());
    } else {
        let e = encoded_turns(ts);
        lemma_turn_roundtrip(ts.first());
        lemma_encoded_turns_len(ts.drop_first());
        assert(e.subrange(0, 25) =~= encoded_turn(ts.first()));
        assert(e.subrange(25, e.len() as int) =~= encoded_turns(ts.drop_first()));
        lemma_turns_roundtrip(ts.drop_first());
        assert(seq![ts.first()] + ts.drop_first() =~= ts);
    }
}

/// A serialized replay decodes back to the snapshot sequence it was
/// made from: serialization loses nothing.
pub proof fn lemma_replay_roundtrip(ts: Seq<GameTurn>)
    requires
        ts.len() <= u32::MAX,
    ensures
        decoded_replay(encoded_replay(ts)) == Some(ts),
{
    let e = encoded_replay(ts);
    lemma_encoded_turns_len(ts);
    assert(e.len() == 4 + 25 * ts.len());
    assert(e.subrange(0, 4) =~= u32_le_bytes(ts.len() as u32));
    lemma_u32_le_roundtrip(ts.len() as u32);
    assert(e.subrange(4, e.len() as int) =~= encoded_turns(ts));
    lemma_turns_roundtrip(ts);
}

fn push_u32_le(out: &mut Vec<u8>, v: u32)
    ensures
        final(out)@ == old(out)@ + u32_le_bytes(v),
{
    out.push((v & 0xff) as u8);
    out.push(((v >> 8) & 0xff) as u8);
    out.push(((v >> 16) & 0xff) as u8);
    out.push(((v >> 24) & 0xff) as u8);
    proof {
        assert(after_borrow(*out)@ =~= old(out)@ + u32_le_bytes(v)) by {
            assert(final(out)@ == after_borrow(*out)@);
        }
    }
}

fn push_u64_le(out: &mut Vec<u8>, v: u64)
    ensures
        final(out)@ == old(out)@ + u64_le_bytes(v),
{
    out.push((v & 0xff) as u8);
    out.push(((v >> 8) & 0xff) as u8);
    out.push(((v >> 16) & 0xff) as u8);
    out.push(((v >> 24) & 0xff) as u8);
    out.push(((v >> 32) & 0xff) as u8);
    out.push(((v >> 40) & 0xff) as u8);
    out.push(((v >> 48) & 0xff) as u8);
    out.push(((v >> 56) & 0xff) as u8);
}

fn push_i32_le(out: &mut Vec<u8>, v: i32)
    ensures
        final(out)@ == old(out)@ + i32_le_bytes(v),
{
    push_u32_le(out, v as u32);
}

/// The encoding tag of a direction.
pub fn dir_to_byte(d: MoveDirection) -> (r: u8)
    ensures
        r == dir_byte(d),
{
    match d {
        MoveDirection::Up => 0u8,
        MoveDirection::Down => 1u8,
        MoveDirection::Left => 2u8,
        MoveDirection::Right => 3u8,
    }
}

/// Serializes a snapshot sequence into its exact binary encoding.
pub fn encode_replay(turns: &Vec<GameTurn>) -> (r: Vec<u8>)
    requires
        turns@.len() <= u32::MAX,
    ensures
        r@ == encoded_replay(turns@),
{
    let mut out: Vec<u8> = Vec::new();
    let n: u32 = turns.len() as u32;
    push_u32_le(&mut out, n);
    assert(out@ =~= u32_le_bytes(n) + encoded_turns(turns@.take(0)));
    let mut i: usize = 0;
    while i < turns.len()
        invariant
            i <= turns@.len(),
            turns@.len() <= u32::MAX,
            n == turns@.len() as u32,
            out@ == u32_le_bytes(n) + encoded_turns(turns@.take(i as int)),
        decreases turns@.len() - i,
    {
        let t = turns[i];
        push_u64_le(&mut out, t.time);
        push_i32_le(&mut out, t.snake.x);
        push_i32_le(&mut out, t.snake.y);
        push_i32_le(&mut out, t.apple.x);
        push_i32_le(&mut out, t.apple.y);
        out.push(dir_to_byte(t.next_direction));
        proof {
            lemma_encoded_turns_push(turns@.take(i as int), turns@[i as int]);
            assert(turns@.take(i as int).push(turns@[i as int]) =~= turns@.take(i as int + 1));
            assert(out@ =~= u32_le_bytes(n) + encoded_turns(turns@.take(i as int + 1)));
        }
        i += 1;
    }
    proof {
        assert(turns@.take(turns@.len() as int) =~= turns@);
    }
    out
}

fn read_u32_le(b: &Vec<u8>, off: usize) -> (r: u32)
    requires
        off + 4 <= b.len(),
    ensures
        r == u32_from_le(b@.subrange(off as int, off as int + 4)),
{
    let r = (b[off] as u32) | ((b[off + 1] as u32) << 8) | ((b[off + 2] as u32) << 16)
        | ((b[off + 3] as u32) << 24);
    proof {
        let s = b@.subrange(off as int, off as int + 4);
        assert(s[0] == b@[off as int]);
        assert(s[1] == b@[off as int + 1]);
        assert(s[2] == b@[off as int + 2]);
        assert(s[3] == b@[off as int + 3]);
    }
    r
}

fn read_u64_le(b: &Vec<u8>, off: usize) -> (r: u64)
    requires
        off + 8 <= b.len(),
    ensures
        r == u64_from_le(b@.subrange(off as int, off as int + 8)),
{
    let r = (b[off] as u64) | ((b[off + 1] as u64) << 8) | ((b[off + 2] as u64) << 16)
        | ((b[off + 3] as u64) << 24) | ((b[off + 4] as u64) << 32) | ((b[off + 5] as u64) << 40)
        | ((b[off + 6] as u64) << 48) | ((b[off + 7] as u64) << 56);
    proof {
        let s = b@.subrange(off as int, off as int + 8);
        assert(s[0] == b@[off as int]);
        assert(s[1] == b@[off as int + 1]);
        assert(s[2] == b@[off as int + 2]);
        assert(s[3] == b@[off as int + 3]);
        assert(s[4] == b@[off as int + 4]);
        assert(s[5] == b@[off as int + 5]);
        assert(s[6] == b@[off as int + 6]);
        assert(s[7] == b@[off as int + 7]);
    }
    r
}

fn read_i32_le(b: &Vec<u8>, off: usize) -> (r: i32)
    requires
        off + 4 <= b.len(),
    ensures
        r == i32_from_le(b@.subrange(off as int, off as int + 4)),
{
    read_u32_le(b, off) as i32
}

/// Deserializes a binary replay; yields nothing when the bytes are not
/// exactly a well-formed replay.
#[verifier::rlimit(50)]
pub fn decode_replay(bytes: &Vec<u8>) -> (r: Option<Vec<GameTurn>>)
    ensures
        decoded_replay(bytes@) is Some ==> r is Some && r->0@ == decoded_replay(bytes@)->0,
        decoded_replay(bytes@) is None ==> r is None,
{
    if bytes.len() < 4 {
        return None;
    }
    let n: u32 = read_u32_le(bytes, 0);
    assert(bytes@.subrange(0, 4) == bytes@.subrange(0int, 0int + 4));
    let body_len: usize = bytes.len() - 4;
    if body_len % 25 != 0 {
        proof {
            assert(bytes@.len() - 4 == 25 * ((bytes@.len() - 4) / 25) + (bytes@.len() - 4) % 25);
        }
        return None;
    }
    if (body_len / 25) as u64 != n as u64 {
        proof {
            assert(bytes@.len() - 4 == 25 * ((bytes@.len() - 4) / 25));
        }
        return None;
    }
    assert(bytes@.len() - 4 == 25 * n);
    let n_us: usize = body_len / 25;
    let mut turns: Vec<GameTurn> = Vec::new();
    let mut i: usize = 0;
    while i < n_us
        invariant
            i <= n_us,
            bytes@.len() <= usize::MAX,
            bytes@.len() == 4 + 25 * n_us,
            turns@.len() == i,
            decoded_turns(bytes@.subrange(4, bytes@.len() as int), n_us as int) == (match decoded_turns(
                bytes@.subrange(4 + 25 * i as int, bytes@.len() as int),
                n_us - i,
            ) {
                None => None::<Seq<GameTurn>>,
                Some(rest) => Some(turns@ + rest),
            }),
        decreases n_us - i,
    {
        let pos: usize = 4 + 25 * i;
        let ghost rec = bytes@.subrange(pos as int, pos as int + 25);
        let ghost rem = bytes@.subrange(4 + 25 * i as int, bytes@.len() as int);
        proof {
            assert(rem.len() >= 25);
            assert(rec =~= rem.subrange(0, 25));
            assert(bytes@.subrange(pos as int + 25, bytes@.len() as int) =~= rem.subrange(
                25,
                rem.len() as int,
            ));
        }
        let time = read_u64_le(bytes, pos);
        let sx = read_i32_le(bytes, pos + 8);
        let sy = read_i32_le(bytes, pos + 12);
        let ax = read_i32_le(bytes, pos + 16);
        let ay = read_i32_le(bytes, pos + 20);
        let db = bytes[pos + 24];
        proof {
            assert(rec.subrange(0, 8) =~= bytes@.subrange(pos as int, pos as int + 8));
            assert(rec.subrange(8, 12) =~= bytes@.subrange(pos as int + 8, pos as int + 12));
            assert(rec.subrange(12, 16) =~= bytes@.subrange(pos as int + 12, pos as int + 16));
            assert(rec.subrange(16, 20) =~= bytes@.subrange(pos as int + 16, pos as int + 20));
            assert(rec.subrange(20, 24) =~= bytes@.subrange(pos as int + 20, pos as int + 24));
            assert(rec[24] == bytes@[pos as int + 24]);
        }
        let dir = if db == 0 {
            MoveDirection::Up
        } else if db == 1 {
            MoveDirection::Down
        } else if db == 2 {
            MoveDirection::Left
        } else if db == 3 {
            MoveDirection::Right
        } else {
            assert(decoded_turn(rec) is None);
            assert(decoded_turns(rem, n_us - i) is None);
            assert(decoded_turns(bytes@.subrange(4, bytes@.len() as int), n_us as int) is None);
            return None;
        };
        let turn = GameTurn {
            time,
            snake: Location { x: sx, y: sy },
            apple: Location { x: ax, y: ay },
            next_direction: dir,
        };
        proof {
            assert(decoded_turn(rec) == Some(turn));
        }
        turns.push(turn);
        proof {
            let rest_bytes = bytes@.subrange(4 + 25 * (i as int + 1), bytes@.len() as int);
            assert(rest_bytes =~= rem.subrange(25, rem.len() as int));
            match decoded_turns(rest_bytes, n_us - i - 1) {
                None => {
                    assert(decoded_turns(rem, n_us - i) is None);
                }
                Some(rest) => {
                    assert(decoded_turns(rem, n_us - i) == Some(seq![turn] + rest));
                    assert(turns@ + rest =~= turns@.drop_last() + (seq![turn] + rest));
                }
            }
        }
        i += 1;
    }
    proof {
        let tail = bytes@.subrange(4 + 25 * i as int, bytes@.len() as int);
        assert(tail.len() == 0);
        assert(decoded_turns(tail, 0) == Some(Seq::<GameTurn>::empty()));
        assert(turns@ + Seq::<GameTurn>::empty() =~= turns@);
        assert(decoded_replay(bytes@) == Some(turns@));
    }
    Some(turns)
}

/// Decompresses and deserializes a replay artifact. Any artifact
/// produced by compressing an encoded snapshot sequence yields that
/// sequence back exactly.
pub fn decode_history(bytes: &Vec<u8>) -> (r: Option<Vec<GameTurn>>)
    ensures
        forall|ts: Seq<GameTurn>|
            ts.len() <= u32::MAX && bytes@ == brotli_compressed(encoded_replay(ts)) ==> r is Some
                && r->0@ == ts,
{
    match brotli_decompress(bytes) {
        None => None,
        Some(raw) => {
            let r = decode_replay(&raw);
            proof {
                assert forall|ts: Seq<GameTurn>|
                    ts.len() <= u32::MAX && bytes@ == brotli_compressed(
                        encoded_replay(ts),
                    ) implies r is Some && r->0@ == ts by {
                    lemma_replay_roundtrip(ts);
                };
            }
            r
        },
    }
}

} // verus!
