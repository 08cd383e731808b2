//! Storage positions as keys of bytes.
//!
//! A live position is the short room identifier followed by the counter,
//! both as eight bytes with the most significant byte first. A historical
//! position has eight zero bytes between the two, and the counter stands
//! mirrored, so that a larger counter gives a smaller key.

use super::data::{id_before, PduId};
use crate::pdu_count::PduCount;
use vstd::prelude::*;

verus! {

/// The byte of `n` that stands `shift` bits above the lowest.
pub open spec fn byte_at(n: u64, shift: u64) -> u8 {
    ((n >> shift) & 0xff) as u8
}

/// The eight bytes of `n`, the most significant first.
pub open spec fn be_bytes(n: u64) -> Seq<u8> {
    seq![
        byte_at(n, 56),
        byte_at(n, 48),
        byte_at(n, 40),
        byte_at(n, 32),
        byte_at(n, 24),
        byte_at(n, 16),
        byte_at(n, 8),
        byte_at(n, 0),
    ]
}

/// The number whose eight bytes, the most significant first, are `b`.
pub open spec fn from_be(b: Seq<u8>) -> u64 {
    (b[0] as u64) << 56 | (b[1] as u64) << 48 | (b[2] as u64) << 40 | (b[3] as u64) << 32 | (
    b[4] as u64) << 24 | (b[5] as u64) << 16 | (b[6] as u64) << 8 | (b[7] as u64)
}

/// Reading the bytes of a number gives the number back.
pub proof fn be_round_trip(n: u64)
    ensures
        be_bytes(n).len() == 8,
        from_be(be_bytes(n)) == n,
{
    assert(((n >> 56) & 0xff) << 56 | ((n >> 48) & 0xff) << 48 | ((n >> 40) & 0xff) << 40 | ((n
        >> 32) & 0xff) << 32 | ((n >> 24) & 0xff) << 24 | ((n >> 16) & 0xff) << 16 | ((n >> 8)
        & 0xff) << 8 | ((n >> 0) & 0xff) == n) by (bit_vector);
    assert(forall|s: u64| #![auto] ((n >> s) & 0xff) <= 0xff) by {
        assert forall|s: u64| #![auto] ((n >> s) & 0xff) <= 0xff by {
            let x = n >> s;
            assert((x & 0xff) <= 0xff) by (bit_vector);
        }
    }
    assert(byte_at(n, 56) as u64 == (n >> 56) & 0xff);
    assert(byte_at(n, 48) as u64 == (n >> 48) & 0xff);
    assert(byte_at(n, 40) as u64 == (n >> 40) & 0xff);
    assert(byte_at(n, 32) as u64 == (n >> 32) & 0xff);
    assert(byte_at(n, 24) as u64 == (n >> 24) & 0xff);
    assert(byte_at(n, 16) as u64 == (n >> 16) & 0xff);
    assert(byte_at(n, 8) as u64 == (n >> 8) & 0xff);
    assert(byte_at(n, 0) as u64 == (n >> 0) & 0xff);
}

/// Appends the eight bytes of `n`, the most significant first.
pub fn push_be(out: &mut Vec<u8>, n: u64)
    ensures
        final(out)@ == old(out)@ + be_bytes(n),
{
    let ghost before = out@;
    let mut shift: u64 = 64;
    while shift > 0
        invariant
            shift <= 64,
            shift % 8 == 0,
            out@ == before + be_bytes(n).take(((64 - shift) / 8) as int),
        decreases shift,
    {
        shift = shift - 8;
        let masked = (n >> shift) & 0xff;
        assert(masked <= 0xff) by (bit_vector)
            requires
                masked == (n >> shift) & 0xff,
        ;
        let ghost sofar = out@;
        out.push(masked as u8);
        proof {
            let k = ((56 - shift) / 8) as int;
            assert(be_bytes(n)[k] == byte_at(n, shift));
            assert(be_bytes(n).take(k + 1) =~= be_bytes(n).take(k).push(byte_at(n, shift)));
            assert(out@ =~= before + be_bytes(n).take(k + 1));
        }
    }
    assert(be_bytes(n).take(8) =~= be_bytes(n));
}

/// Reads the number that the eight bytes from index `at` on stand for.
pub fn read_be(bytes: &Vec<u8>, at: usize) -> (n: u64)
    requires
        at + 8 <= bytes@.len(),
    ensures
        n == from_be(bytes@.subrange(at as int, at + 8)),
{
    let ghost b = bytes@.subrange(at as int, at + 8);
    let len = bytes.len();
    assert(at + 8 <= len);
    assert(b[0] == bytes@[at + 0] && b[1] == bytes@[at + 1] && b[2] == bytes@[at + 2] && b[3]
        == bytes@[at + 3] && b[4] == bytes@[at + 4] && b[5] == bytes@[at + 5] && b[6] == bytes@[at
        + 6] && b[7] == bytes@[at + 7]);
    (bytes[at] as u64) << 56 | (bytes[at + 1] as u64) << 48 | (bytes[at + 2] as u64) << 40 | (
    bytes[at + 3] as u64) << 32 | (bytes[at + 4] as u64) << 24 | (bytes[at + 5] as u64) << 16 | (
    bytes[at + 6] as u64) << 8 | (bytes[at + 7] as u64)
}

/// The key of a position.
pub open spec fn key_of(id: PduId) -> Seq<u8> {
    match id.count {
        PduCount::Normal(c) => be_bytes(id.shortroomid) + be_bytes(c),
        PduCount::Backfilled(c) => be_bytes(id.shortroomid) + be_bytes(0) + be_bytes(
            (u64::MAX - c) as u64,
        ),
    }
}

/// The position that a key stands for, if it stands for one: sixteen bytes
/// are a live position; twenty-four bytes with eight zero bytes in the
/// middle are a historical one.
pub open spec fn position_of(key: Seq<u8>) -> Option<PduId> {
    if key.len() == 16 {
        Some(
            PduId {
                shortroomid: from_be(key.subrange(0, 8)),
                count: PduCount::Normal(from_be(key.subrange(8, 16))),
            },
        )
    } else if key.len() == 24 && from_be(key.subrange(8, 16)) == 0 {
        Some(
            PduId {
                shortroomid: from_be(key.subrange(0, 8)),
                count: PduCount::Backfilled((u64::MAX - from_be(key.subrange(16, 24))) as u64),
            },
        )
    } else {
        None
    }
}

/// The key of a position stands for that position.
pub proof fn key_round_trip(id: PduId)
    ensures
        position_of(key_of(id)) == Some(id),
{
    let key = key_of(id);
    be_round_trip(id.shortroomid);
    be_round_trip(0);
    assert(key.subrange(0, 8) =~= be_bytes(id.shortroomid));
    match id.count {
        PduCount::Normal(c) => {
            be_round_trip(c);
            assert(key.subrange(8, 16) =~= be_bytes(c));
        },
        PduCount::Backfilled(c) => {
            let m = (u64::MAX - c) as u64;
            be_round_trip(m);
            assert(key.subrange(8, 16) =~= be_bytes(0));
            assert(key.subrange(16, 24) =~= be_bytes(m));
        },
    }
}

impl PduId {
    /// The key of the position.
    pub fn to_bytes(&self) -> (key: Vec<u8>)
        ensures
            key@ == key_of(*self),
    {
        let mut key: Vec<u8> = Vec::new();
        push_be(&mut key, self.shortroomid);
        match self.count {
            PduCount::Normal(c) => {
                push_be(&mut key, c);
            },
            PduCount::Backfilled(c) => {
                push_be(&mut key, 0);
                push_be(&mut key, u64::MAX - c);
            },
        }
        assert(key@ =~= key_of(*self));
        key
    }

    /// The position that a key stands for, if it stands for one.
    pub fn from_bytes(key: &Vec<u8>) -> (r: Option<PduId>)
        ensures
            r == position_of(key@),
    {
        if key.len() == 16 {
            Some(PduId { shortroomid: read_be(key, 0), count: PduCount::Normal(read_be(key, 8)) })
        } else if key.len() == 24 && read_be(key, 8) == 0 {
            Some(
                PduId {
                    shortroomid: read_be(key, 0),
                    count: PduCount::Backfilled(u64::MAX - read_be(key, 16)),
                },
            )
        } else {
            None
        }
    }
}

/// `a` sorts before `b` as a key: at the first byte in which they differ
/// `a` has the smaller one, or `a` ends first.
pub open spec fn key_before(a: Seq<u8>, b: Seq<u8>) -> bool
    decreases a.len(),
{
    if b.len() == 0 {
        false
    } else if a.len() == 0 {
        true
    } else if a[0] != b[0] {
        a[0] < b[0]
    } else {
        key_before(a.drop_first(), b.drop_first())
    }
}

/// Keys with a common beginning sort as their rests do.
pub proof fn common_beginning(p: Seq<u8>, a: Seq<u8>, b: Seq<u8>)
    ensures
        key_before(p + a, p + b) == key_before(a, b),
    decreases p.len(),
{
    if p.len() == 0 {
        assert(p + a =~= a);
        assert(p + b =~= b);
    } else {
        let q = p.drop_first();
        assert((p + a).drop_first() =~= q + a);
        assert((p + b).drop_first() =~= q + b);
        assert((p + a)[0] == (p + b)[0]);
        common_beginning(q, a, b);
    }
}

/// Keys with different beginnings of one length sort as the beginnings do.
pub proof fn different_beginnings(p: Seq<u8>, q: Seq<u8>, a: Seq<u8>, b: Seq<u8>)
    requires
        p.len() == q.len(),
        p != q,
    ensures
        key_before(p + a, q + b) == key_before(p, q),
    decreases p.len(),
{
    if p.len() == 0 {
        assert(p =~= q);
    } else {
        assert((p + a)[0] == p[0] && (q + b)[0] == q[0]);
        if p[0] == q[0] {
            let p1 = p.drop_first();
            let q1 = q.drop_first();
            assert((p + a).drop_first() =~= p1 + a);
            assert((q + b).drop_first() =~= q1 + b);
            if p1 == q1 {
                assert forall|i: int| 0 <= i < p.len() implies p[i] == q[i] by {
                    if i > 0 {
                        assert(p[i] == p1[i - 1]);
                        assert(q[i] == q1[i - 1]);
                    }
                }
                assert(p =~= q);
            }
            different_beginnings(p1, q1, a, b);
        }
    }
}

/// The order of eight bytes from index `i` on.
pub open spec fn bytes_before(a: Seq<u8>, b: Seq<u8>, i: int) -> bool
    decreases 8 - i,
{
    if i >= 8 {
        false
    } else if a[i] != b[i] {
        a[i] < b[i]
    } else {
        bytes_before(a, b, i + 1)
    }
}

/// `key_before` on the ends of two lists of eight bytes is `bytes_before`.
proof fn ends_before(a: Seq<u8>, b: Seq<u8>, i: int)
    requires
        a.len() == 8,
        b.len() == 8,
        0 <= i <= 8,
    ensures
        key_before(a.subrange(i, 8), b.subrange(i, 8)) == bytes_before(a, b, i),
    decreases 8 - i,
{
    if i < 8 {
        assert(a.subrange(i, 8).drop_first() =~= a.subrange(i + 1, 8));
        assert(b.subrange(i, 8).drop_first() =~= b.subrange(i + 1, 8));
        assert(a.subrange(i, 8)[0] == a[i]);
        assert(b.subrange(i, 8)[0] == b[i]);
        ends_before(a, b, i + 1);
    }
}

/// Numbers sort as their bytes do, the most significant byte first.
pub proof fn bytes_follow_numbers(x: u64, y: u64)
    ensures
        key_before(be_bytes(x), be_bytes(y)) <==> x < y,
        be_bytes(x) == be_bytes(y) <==> x == y,
{
    let a = be_bytes(x);
    let b = be_bytes(y);
    be_round_trip(x);
    be_round_trip(y);
    ends_before(a, b, 0);
    assert(a.subrange(0, 8) =~= a);
    assert(b.subrange(0, 8) =~= b);
    reveal_with_fuel(bytes_before, 9);
    let (a0, a1, a2, a3, a4, a5, a6, a7) = (
        (x >> 56) & 0xff,
        (x >> 48) & 0xff,
        (x >> 40) & 0xff,
        (x >> 32) & 0xff,
        (x >> 24) & 0xff,
        (x >> 16) & 0xff,
        (x >> 8) & 0xff,
        (x >> 0) & 0xff,
    );
    let (b0, b1, b2, b3, b4, b5, b6, b7) = (
        (y >> 56) & 0xff,
        (y >> 48) & 0xff,
        (y >> 40) & 0xff,
        (y >> 32) & 0xff,
        (y >> 24) & 0xff,
        (y >> 16) & 0xff,
        (y >> 8) & 0xff,
        (y >> 0) & 0xff,
    );
    assert(x < y <==> (a0 < b0 || (a0 == b0 && (a1 < b1 || (a1 == b1 && (a2 < b2 || (a2 == b2 && (
    a3 < b3 || (a3 == b3 && (a4 < b4 || (a4 == b4 && (a5 < b5 || (a5 == b5 && (a6 < b6 || (a6
        == b6 && a7 < b7))))))))))))))) by (bit_vector)
        requires
            a0 == (x >> 56) & 0xff,
            a1 == (x >> 48) & 0xff,
            a2 == (x >> 40) & 0xff,
            a3 == (x >> 32) & 0xff,
            a4 == (x >> 24) & 0xff,
            a5 == (x >> 16) & 0xff,
            a6 == (x >> 8) & 0xff,
            a7 == (x >> 0) & 0xff,
            b0 == (y >> 56) & 0xff,
            b1 == (y >> 48) & 0xff,
            b2 == (y >> 40) & 0xff,
            b3 == (y >> 32) & 0xff,
            b4 == (y >> 24) & 0xff,
            b5 == (y >> 16) & 0xff,
            b6 == (y >> 8) & 0xff,
            b7 == (y >> 0) & 0xff,
    ;
    assert(a0 <= 0xff && a1 <= 0xff && a2 <= 0xff && a3 <= 0xff && a4 <= 0xff && a5 <= 0xff && a6
        <= 0xff && a7 <= 0xff && b0 <= 0xff && b1 <= 0xff && b2 <= 0xff && b3 <= 0xff && b4 <= 0xff
        && b5 <= 0xff && b6 <= 0xff && b7 <= 0xff) by (bit_vector)
        requires
            a0 == (x >> 56) & 0xff,
            a1 == (x >> 48) & 0xff,
            a2 == (x >> 40) & 0xff,
            a3 == (x >> 32) & 0xff,
            a4 == (x >> 24) & 0xff,
            a5 == (x >> 16) & 0xff,
            a6 == (x >> 8) & 0xff,
            a7 == (x >> 0) & 0xff,
            b0 == (y >> 56) & 0xff,
            b1 == (y >> 48) & 0xff,
            b2 == (y >> 40) & 0xff,
            b3 == (y >> 32) & 0xff,
            b4 == (y >> 24) & 0xff,
            b5 == (y >> 16) & 0xff,
            b6 == (y >> 8) & 0xff,
            b7 == (y >> 0) & 0xff,
    ;
    assert(a[0] == a0 as u8 && a[1] == a1 as u8 && a[2] == a2 as u8 && a[3] == a3 as u8 && a[4]
        == a4 as u8 && a[5] == a5 as u8 && a[6] == a6 as u8 && a[7] == a7 as u8);
    assert(b[0] == b0 as u8 && b[1] == b1 as u8 && b[2] == b2 as u8 && b[3] == b3 as u8 && b[4]
        == b4 as u8 && b[5] == b5 as u8 && b[6] == b6 as u8 && b[7] == b7 as u8);
}

/// Keys sort as positions do, as long as live positions are drawn from
/// counter values above zero, which is where the global counter starts:
/// history below the live events of its room, rooms by their short
/// identifiers.
pub proof fn keys_follow_positions(a: PduId, b: PduId)
    requires
        a.count matches PduCount::Normal(c) ==> c > 0,
        b.count matches PduCount::Normal(c) ==> c > 0,
    ensures
        key_before(key_of(a), key_of(b)) <==> id_before(a, b),
{
    let ra = be_bytes(a.shortroomid);
    let rb = be_bytes(b.shortroomid);
    let zero = be_bytes(0);
    let none = Seq::<u8>::empty();
    bytes_follow_numbers(a.shortroomid, b.shortroomid);
    be_round_trip(a.shortroomid);
    be_round_trip(b.shortroomid);
    be_round_trip(0);
    let rest_a = match a.count {
        PduCount::Normal(c) => be_bytes(c),
        PduCount::Backfilled(c) => zero + be_bytes((u64::MAX - c) as u64),
    };
    let rest_b = match b.count {
        PduCount::Normal(c) => be_bytes(c),
        PduCount::Backfilled(c) => zero + be_bytes((u64::MAX - c) as u64),
    };
    assert(key_of(a) =~= ra + rest_a);
    assert(key_of(b) =~= rb + rest_b);
    if a.shortroomid != b.shortroomid {
        different_beginnings(ra, rb, rest_a, rest_b);
    } else {
        common_beginning(ra, rest_a, rest_b);
        match (a.count, b.count) {
            (PduCount::Normal(c), PduCount::Normal(d)) => {
                bytes_follow_numbers(c, d);
            },
            (PduCount::Backfilled(c), PduCount::Backfilled(d)) => {
                let mc = (u64::MAX - c) as u64;
                let md = (u64::MAX - d) as u64;
                common_beginning(zero, be_bytes(mc), be_bytes(md));
                bytes_follow_numbers(mc, md);
            },
            (PduCount::Backfilled(c), PduCount::Normal(d)) => {
                bytes_follow_numbers(0, d);
                be_round_trip(d);
                different_beginnings(zero, be_bytes(d), be_bytes((u64::MAX - c) as u64), none);
                assert(be_bytes(d) + none =~= be_bytes(d));
            },
            (PduCount::Normal(c), PduCount::Backfilled(d)) => {
                bytes_follow_numbers(c, 0);
                be_round_trip(c);
                different_beginnings(be_bytes(c), zero, none, be_bytes((u64::MAX - d) as u64));
                assert(be_bytes(c) + none =~= be_bytes(c));
            },
        }
    }
}

} // verus!
