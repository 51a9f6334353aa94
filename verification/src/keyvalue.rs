//! Host-side `wasi:keyvalue` logic: compare-and-swap handles and atomic
//! counters stored as big-endian bytes.

use vstd::prelude::*;

verus! {

/// Options used to connect to the key-value store.
#[derive(Debug, Clone, Copy, Default)]
pub struct ConnectOptions;

/// CAS (Compare-And-Swap) operation handle.
#[derive(Debug, Clone)]
pub struct Cas {
    /// The key associated with the CAS operation.
    pub key: String,
    /// The current value associated with the key.
    pub current: Option<Vec<u8>>,
}

/// The first eight bytes of a stored value, zero-padded on the right when
/// the value is shorter.
pub open spec fn pad8(v: Seq<u8>) -> Seq<u8> {
    Seq::new(8, |i: int| if i < v.len() { v[i] } else { 0u8 })
}

/// Eight bytes read as a big-endian unsigned number.
pub open spec fn be_u64(b: Seq<u8>) -> u64
    recommends
        b.len() == 8,
{
    ((b[0] as u64) << 56u64) | ((b[1] as u64) << 48u64) | ((b[2] as u64) << 40u64) | ((
    b[3] as u64) << 32u64) | ((b[4] as u64) << 24u64) | ((b[5] as u64) << 16u64) | ((
    b[6] as u64) << 8u64) | (b[7] as u64)
}

/// The counter a stored value holds: its first eight bytes as a big-endian
/// two's-complement number (`i64::from_be_bytes` of the zero-padded bytes).
pub open spec fn counter_value(v: Seq<u8>) -> i64 {
    be_u64(pad8(v)) as i64
}

/// The counter that a stored value holds.
pub fn decode_counter(value: &[u8]) -> (res: i64)
    ensures
        res == counter_value(value@),
{
    let mut buf: [u8; 8] = [0u8; 8];
    let mut i: usize = 0;
    while i < 8
        invariant
            i <= 8,
            buf@.len() == 8,
            forall|j: int| 0 <= j < i ==> buf@[j] == pad8(value@)[j],
            forall|j: int| i <= j < 8 ==> buf@[j] == 0u8,
        decreases 8 - i,
    {
        if i < value.len() {
            buf[i] = value[i];
        }
        i = i + 1;
    }
    assert(buf@ =~= pad8(value@));
    let u: u64 = ((buf[0] as u64) << 56u64) | ((buf[1] as u64) << 48u64) | ((buf[2] as u64)
        << 40u64) | ((buf[3] as u64) << 32u64) | ((buf[4] as u64) << 24u64) | ((buf[5] as u64)
        << 16u64) | ((buf[6] as u64) << 8u64) | (buf[7] as u64);
    u as i64
}

/// The eight big-endian bytes of `v` (`i64::to_be_bytes`).
pub fn encode_counter(v: i64) -> (res: Vec<u8>)
    ensures
        res@.len() == 8,
        be_u64(res@) == v as u64,
        counter_value(res@) == v,
{
    let u: u64 = v as u64;
    let b0 = ((u >> 56u64) & 0xffu64) as u8;
    let b1 = ((u >> 48u64) & 0xffu64) as u8;
    let b2 = ((u >> 40u64) & 0xffu64) as u8;
    let b3 = ((u >> 32u64) & 0xffu64) as u8;
    let b4 = ((u >> 24u64) & 0xffu64) as u8;
    let b5 = ((u >> 16u64) & 0xffu64) as u8;
    let b6 = ((u >> 8u64) & 0xffu64) as u8;
    let b7 = (u & 0xffu64) as u8;
    let res = vec![b0, b1, b2, b3, b4, b5, b6, b7];
    assert(((b0 as u64) << 56u64) | ((b1 as u64) << 48u64) | ((b2 as u64) << 40u64) | ((b3 as u64)
        << 32u64) | ((b4 as u64) << 24u64) | ((b5 as u64) << 16u64) | ((b6 as u64) << 8u64) | (
    b7 as u64) == u) by (bit_vector)
        requires
            b0 == ((u >> 56u64) & 0xffu64) as u8,
            b1 == ((u >> 48u64) & 0xffu64) as u8,
            b2 == ((u >> 40u64) & 0xffu64) as u8,
            b3 == ((u >> 32u64) & 0xffu64) as u8,
            b4 == ((u >> 24u64) & 0xffu64) as u8,
            b5 == ((u >> 16u64) & 0xffu64) as u8,
            b6 == ((u >> 8u64) & 0xffu64) as u8,
            b7 == (u & 0xffu64) as u8,
    ;
    assert((u as i64) == v) by (bit_vector)
        requires
            u == v as u64,
    ;
    assert(pad8(res@) =~= res@);
    res
}

/// Atomically increments a stored counter by `delta`: the new counter and
/// the bytes to store for it. A missing value is refused before this is
/// reached; the sum must fit in an `i64`.
pub fn increment(current: &[u8], delta: i64) -> (res: (i64, Vec<u8>))
    requires
        i64::MIN <= counter_value(current@) + delta <= i64::MAX,
    ensures
        res.0 == counter_value(current@) + delta,
        res.1@.len() == 8,
        counter_value(res.1@) == res.0,
{
    let value = decode_counter(current);
    let inc = value + delta;
    (inc, encode_counter(inc))
}

/// The counter a key's value holds: a missing key counts as zero.
pub open spec fn counter_of(value: Option<Seq<u8>>) -> int {
    match value {
        Some(v) => counter_value(v) as int,
        None => 0,
    }
}

/// The bytes of an optional value.
pub open spec fn opt_view(value: Option<&[u8]>) -> Option<Seq<u8>> {
    match value {
        Some(v) => Some(v@),
        None => None,
    }
}

/// The counter a key holds after an increment by `delta`: the stored
/// counter plus `delta`, or `delta` itself when the key holds no value (the
/// key is created); with the bytes to store for it. The sum must fit in an
/// `i64`.
pub fn increment_stored(current: Option<&[u8]>, delta: i64) -> (res: (i64, Vec<u8>))
    requires
        current matches Some(c) ==> i64::MIN <= counter_value(c@) + delta <= i64::MAX,
    ensures
        res.0 == counter_of(opt_view(current)) + delta,
        res.1@.len() == 8,
        counter_value(res.1@) == res.0,
{
    match current {
        Some(c) => increment(c, delta),
        None => (delta, encode_counter(delta)),
    }
}

/// Incrementing twice adds up, a missing key counting as zero: when the
/// value stored by an increment of `a` holds the counter it reports, a
/// further increment of `b` reports the original counter plus `a + b`.
pub proof fn law_increments_accumulate(current: Option<Seq<u8>>, a: i64, stored: Seq<u8>, b: i64)
    requires
        counter_value(stored) == counter_of(current) + a,
    ensures
        counter_of(Some(stored)) + b == counter_of(current) + a + b,
        current is None ==> counter_of(Some(stored)) + b == a + b,
{
}

/// A stored counter reads back as written: the bytes stored for any value
/// decode to that value.
pub proof fn law_counter_round_trip(stored: Seq<u8>, v: i64)
    requires
        stored.len() == 8,
        be_u64(stored) == v as u64,
    ensures
        counter_value(stored) == v,
{
    assert(pad8(stored) =~= stored);
    let u = be_u64(stored);
    assert((u as i64) == v) by (bit_vector)
        requires
            u == v as u64,
    ;
}

} // verus!
