use vstd::prelude::*;

verus! {

/// Length in bytes of the request header.
pub const HEADER_LEN: usize = 8;

/// Largest payload written in one call while uploading.
pub const CHUNK_SIZE: u64 = 1048576;

/// The big-endian bytes of `v`, most significant first.
pub open spec fn header_bytes(v: u64) -> Seq<u8> {
    seq![
        (v >> 56u64) as u8,
        (v >> 48u64) as u8,
        (v >> 40u64) as u8,
        (v >> 32u64) as u8,
        (v >> 24u64) as u8,
        (v >> 16u64) as u8,
        (v >> 8u64) as u8,
        v as u8,
    ]
}

/// The number that the first eight bytes of `b` give, read big-endian.
pub open spec fn header_value(b: Seq<u8>) -> int
    recommends
        b.len() >= 8,
{
    b[0] * 0x100000000000000 + b[1] * 0x1000000000000 + b[2] * 0x10000000000 + b[3] * 0x100000000
        + b[4] * 0x1000000 + b[5] * 0x10000 + b[6] * 0x100 + b[7]
}

/// Reading back the header written for `v` gives `v`.
pub proof fn lemma_header_round_trip(v: u64)
    ensures
        header_bytes(v).len() == HEADER_LEN,
        header_value(header_bytes(v)) == v,
{
    let b = header_bytes(v);
    let b0 = (v >> 56u64) as u8;
    let b1 = (v >> 48u64) as u8;
    let b2 = (v >> 40u64) as u8;
    let b3 = (v >> 32u64) as u8;
    let b4 = (v >> 24u64) as u8;
    let b5 = (v >> 16u64) as u8;
    let b6 = (v >> 8u64) as u8;
    let b7 = v as u8;
    assert(v == (b0 as u64) * 0x100000000000000u64 + (b1 as u64) * 0x1000000000000u64 + (b2 as u64)
        * 0x10000000000u64 + (b3 as u64) * 0x100000000u64 + (b4 as u64) * 0x1000000u64 + (b5 as u64)
        * 0x10000u64 + (b6 as u64) * 0x100u64 + (b7 as u64)) by (bit_vector)
        requires
            b0 == (v >> 56u64) as u8,
            b1 == (v >> 48u64) as u8,
            b2 == (v >> 40u64) as u8,
            b3 == (v >> 32u64) as u8,
            b4 == (v >> 24u64) as u8,
            b5 == (v >> 16u64) as u8,
            b6 == (v >> 8u64) as u8,
            b7 == v as u8,
    ;
    assert(b[0] == b0 && b[1] == b1 && b[2] == b2 && b[3] == b3);
    assert(b[4] == b4 && b[5] == b5 && b[6] == b6 && b[7] == b7);
}

/// The header that asks the peer for `download` response bytes.
pub fn encode_header(download: u64) -> (r: [u8; 8])
    ensures
        r@ == header_bytes(download),
        header_value(r@) == download,
{
    let r: [u8; 8] = [
        (download >> 56u64) as u8,
        (download >> 48u64) as u8,
        (download >> 40u64) as u8,
        (download >> 32u64) as u8,
        (download >> 24u64) as u8,
        (download >> 16u64) as u8,
        (download >> 8u64) as u8,
        download as u8,
    ];
    proof {
        lemma_header_round_trip(download);
        assert(r@ =~= header_bytes(download));
    }
    r
}

/// The requested download size held by a header at the start of `b`, or `None`
/// where fewer than eight bytes are given.
pub fn decode_header(b: &[u8]) -> (r: Option<u64>)
    ensures
        b@.len() < HEADER_LEN <==> r.is_none(),
        r matches Some(v) ==> v == header_value(b@),
{
    if b.len() < HEADER_LEN {
        return None;
    }
    let mut v: u64 = 0;
    let mut i: usize = 0;
    while i < HEADER_LEN
        invariant
            b@.len() >= HEADER_LEN,
            i <= HEADER_LEN,
            v == prefix_value(b@, i as int),
            v < pow256(i as int),
        decreases HEADER_LEN - i,
    {
        proof {
            lemma_pow256_step(i as int);
        }
        assert(v * 256 + b[i as int] < pow256(i + 1)) by (nonlinear_arith)
            requires
                v < pow256(i as int),
                b[i as int] < 256,
                pow256(i + 1) == pow256(i as int) * 256,
        ;
        v = v * 256 + b[i] as u64;
        i = i + 1;
    }
    proof {
        lemma_prefix_value_eight(b@);
    }
    Some(v)
}

/// The value of the first `n` bytes of `b`, read big-endian.
pub open spec fn prefix_value(b: Seq<u8>, n: int) -> int
    decreases n,
{
    if n <= 0 {
        0
    } else {
        prefix_value(b, n - 1) * 256 + b[n - 1]
    }
}

pub open spec fn pow256(n: int) -> int
    decreases n,
{
    if n <= 0 {
        1
    } else {
        pow256(n - 1) * 256
    }
}

proof fn lemma_pow256_step(i: int)
    requires
        0 <= i < 8,
    ensures
        pow256(i + 1) == pow256(i) * 256,
        pow256(i + 1) <= 0x10000000000000000,
{
    reveal_with_fuel(pow256, 9);
}

proof fn lemma_prefix_value_eight(b: Seq<u8>)
    requires
        b.len() >= 8,
    ensures
        prefix_value(b, 8) == header_value(b),
{
    reveal_with_fuel(prefix_value, 9);
    assert(prefix_value(b, 8) == header_value(b)) by (nonlinear_arith)
        requires
            prefix_value(b, 8) == ((((((b[0] * 256 + b[1]) * 256 + b[2]) * 256 + b[3]) * 256 + b[4])
                * 256 + b[5]) * 256 + b[6]) * 256 + b[7],
    ;
}

/// Size of the next payload write while `remaining` bytes are still to be sent.
pub fn next_chunk_len(remaining: u64) -> (r: u64)
    ensures
        r == if remaining < CHUNK_SIZE { remaining } else { CHUNK_SIZE },
{
    if remaining < CHUNK_SIZE {
        remaining
    } else {
        CHUNK_SIZE
    }
}

} // verus!
