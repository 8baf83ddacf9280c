//! The mathematics of little-endian values: how an integer is laid out in a
//! run of bytes, and how such a run is read back.

use vstd::prelude::*;

verus! {

/// 256 to the power `n`: the number of values that `n` bytes can hold.
pub open spec fn pow256(n: nat) -> nat
    decreases n,
{
    if n == 0 {
        1
    } else {
        256 * pow256((n - 1) as nat)
    }
}

/// The `n` low-order bytes of `value`, least significant first. A negative
/// value is laid out in two's complement.
pub open spec fn le_bytes(value: int, n: nat) -> Seq<u8>
    decreases n,
{
    if n == 0 {
        Seq::<u8>::empty()
    } else {
        seq![(value % 256) as u8] + le_bytes(value / 256, (n - 1) as nat)
    }
}

/// The unsigned number that a run of bytes holds, least significant first.
pub open spec fn le_value(bytes: Seq<u8>) -> nat
    decreases bytes.len(),
{
    if bytes.len() == 0 {
        0
    } else {
        (bytes[0] as nat) + 256 * le_value(bytes.drop_first())
    }
}

/// The two's complement reading, over `n` bytes, of the unsigned number `raw`.
pub open spec fn signed_of(raw: int, n: nat) -> int {
    if 2 * raw < pow256(n) {
        raw
    } else {
        raw - pow256(n)
    }
}

/// The unsigned number whose `n` bytes read back, in two's complement, as `value`.
pub open spec fn unsigned_of(value: int, n: nat) -> int {
    if value < 0 {
        value + pow256(n)
    } else {
        value
    }
}

/// Whether `value` can be held, in two's complement, in `n` bytes.
pub open spec fn fits_signed(value: int, n: nat) -> bool {
    -(pow256(n) as int) <= 2 * value < pow256(n)
}

/// The byte counts that a value may be emitted, read or relocated with.
pub open spec fn valid_width(n: nat) -> bool {
    n == 1 || n == 2 || n == 4 || n == 8
}

/// The powers of 256 that the four widths use.
pub proof fn lemma_pow256_values()
    ensures
        pow256(0) == 1,
        pow256(1) == 0x100,
        pow256(2) == 0x1_0000,
        pow256(3) == 0x100_0000,
        pow256(4) == 0x1_0000_0000,
        pow256(5) == 0x100_0000_0000,
        pow256(6) == 0x1_0000_0000_0000,
        pow256(7) == 0x100_0000_0000_0000,
        pow256(8) == 0x1_0000_0000_0000_0000,
{
    reveal_with_fuel(pow256, 10);
}

/// `le_bytes` yields exactly as many bytes as it is asked for.
pub proof fn lemma_le_bytes_len(value: int, n: nat)
    ensures
        le_bytes(value, n).len() == n,
    decreases n,
{
    if n > 0 {
        lemma_le_bytes_len(value / 256, (n - 1) as nat);
    }
}

/// Byte `i` of a layout is the lowest byte of what is left once the `i`
/// bytes below it are taken off.
pub proof fn lemma_le_bytes_skip(value: int, n: nat)
    requires
        n > 0,
    ensures
        le_bytes(value, n).len() == n,
        le_bytes(value, n)[0] == (value % 256) as u8,
        le_bytes(value, n).skip(1) == le_bytes(value / 256, (n - 1) as nat),
{
    lemma_le_bytes_len(value, n);
    lemma_le_bytes_len(value / 256, (n - 1) as nat);
    assert(le_bytes(value, n).skip(1) =~= le_bytes(value / 256, (n - 1) as nat));
}

/// A run of `n` bytes holds a number below 256 to the `n`.
pub proof fn lemma_le_value_bound(bytes: Seq<u8>)
    ensures
        le_value(bytes) < pow256(bytes.len()),
    decreases bytes.len(),
{
    if bytes.len() > 0 {
        lemma_le_value_bound(bytes.drop_first());
    }
}

/// Laying out an unsigned number that fits in `n` bytes and reading the
/// bytes back gives the number again.
pub proof fn lemma_value_of_bytes(value: int, n: nat)
    requires
        0 <= value < pow256(n),
    ensures
        le_value(le_bytes(value, n)) == value,
    decreases n,
{
    if n > 0 {
        lemma_le_bytes_skip(value, n);
        assert(le_bytes(value, n).drop_first() == le_bytes(value, n).skip(1));
        lemma_value_of_bytes(value / 256, (n - 1) as nat);
    }
}

/// Reading a run of bytes and laying the number out again gives the same bytes.
pub proof fn lemma_bytes_of_value(bytes: Seq<u8>)
    ensures
        le_bytes(le_value(bytes) as int, bytes.len()) == bytes,
    decreases bytes.len(),
{
    if bytes.len() > 0 {
        let rest = bytes.drop_first();
        lemma_bytes_of_value(rest);
        let v = le_value(bytes) as int;
        assert(v % 256 == bytes[0] as int);
        assert(v / 256 == le_value(rest) as int);
        assert(le_bytes(v, bytes.len()) =~= bytes);
    }
}

/// The layout over `n` bytes ignores every multiple of 256 to the `n`: only
/// the residue of the value is laid out.
pub proof fn lemma_le_bytes_congruent(value: int, k: int, n: nat)
    ensures
        le_bytes(value + k * pow256(n), n) == le_bytes(value, n),
    decreases n,
{
    if n > 0 {
        let p = pow256((n - 1) as nat) as int;
        let m = k * p;
        assert(k * pow256(n) == 256 * m) by (nonlinear_arith)
            requires
                pow256(n) == 256 * p,
                m == k * p,
        ;
        assert((value + 256 * m) % 256 == value % 256);
        assert((value + 256 * m) / 256 == value / 256 + m);
        lemma_le_bytes_congruent(value / 256, k, (n - 1) as nat);
    }
}

/// A signed value and its unsigned counterpart are laid out alike.
pub proof fn lemma_le_bytes_unsigned(value: int, n: nat)
    ensures
        le_bytes(unsigned_of(value, n), n) == le_bytes(value, n),
{
    if value < 0 {
        lemma_le_bytes_congruent(value, 1, n);
        assert(1 * pow256(n) == pow256(n));
    }
}

/// Round trip: a signed value that fits in `n` bytes is read back unchanged
/// from its own layout.
pub proof fn lemma_signed_round_trip(value: int, n: nat)
    requires
        n > 0,
        fits_signed(value, n),
    ensures
        signed_of(le_value(le_bytes(value, n)) as int, n) == value,
{
    lemma_le_bytes_unsigned(value, n);
    lemma_value_of_bytes(unsigned_of(value, n), n);
}

/// `s` with the run `bytes` written over it from index `at` on.
pub open spec fn overwrite(s: Seq<u8>, at: int, bytes: Seq<u8>) -> Seq<u8> {
    Seq::new(
        s.len(),
        |i: int|
            if at <= i < at + bytes.len() {
                bytes[i - at]
            } else {
                s[i]
            },
    )
}

/// Appends the `n` low-order bytes of `value` to `buffer`, least significant first.
pub fn append_le(buffer: &mut Vec<u8>, value: u64, n: usize)
    requires
        n <= 8,
    ensures
        final(buffer)@ == old(buffer)@ + le_bytes(value as int, n as nat),
{
    let ghost before = buffer@;
    let ghost full = le_bytes(value as int, n as nat);
    let mut rest: u64 = value;
    let mut i: usize = 0;
    proof {
        lemma_le_bytes_len(value as int, n as nat);
        assert(full.take(0) =~= Seq::<u8>::empty());
        assert(full.skip(0) =~= full);
    }
    while i < n
        invariant
            i <= n,
            full == le_bytes(value as int, n as nat),
            full.len() == n,
            buffer@ == before + full.take(i as int),
            le_bytes(rest as int, (n - i) as nat) == full.skip(i as int),
        decreases n - i,
    {
        proof {
            lemma_le_bytes_skip(rest as int, (n - i) as nat);
            assert(full.take(i + 1) =~= full.take(i as int).push(full[i as int]));
            assert(full.skip(i + 1) =~= full.skip(i as int).skip(1));
        }
        buffer.push((rest % 256) as u8);
        rest = rest / 256;
        i = i + 1;
    }
    proof {
        assert(full.take(n as int) =~= full);
    }
}

/// Reads the unsigned number held by the `n` bytes of `bytes` from index
/// `offset` on, least significant first.
pub fn load_le(bytes: &Vec<u8>, offset: usize, n: usize) -> (raw: u64)
    requires
        n <= 8,
        offset + n <= bytes@.len(),
    ensures
        raw == le_value(bytes@.subrange(offset as int, offset + n)),
        raw < pow256(n as nat),
{
    let len = bytes.len();
    let mut raw: u64 = 0;
    let mut i: usize = n;
    proof {
        assert(bytes@.subrange(offset + n, offset + n) =~= Seq::<u8>::empty());
        lemma_pow256_values();
    }
    while i > 0
        invariant
            i <= n,
            n <= 8,
            offset + n <= len,
            len == bytes@.len(),
            raw == le_value(bytes@.subrange(offset + i, offset + n)),
            raw < pow256((n - i) as nat),
        decreases i,
    {
        proof {
            lemma_pow256_values();
            let run = bytes@.subrange(offset + i - 1, offset + n);
            assert(run.drop_first() =~= bytes@.subrange(offset + i, offset + n));
            assert(run[0] == bytes@[offset + i - 1]);
            assert(pow256((n - i + 1) as nat) == 256 * pow256((n - i) as nat));
        }
        i = i - 1;
        raw = raw * 256 + bytes[offset + i] as u64;
    }
    raw
}

/// Writes the `n` low-order bytes of `value` over `buffer` from index
/// `offset` on, least significant first.
pub fn store_le(buffer: &mut Vec<u8>, offset: usize, value: u64, n: usize)
    requires
        n <= 8,
        offset + n <= old(buffer)@.len(),
    ensures
        final(buffer)@ == overwrite(old(buffer)@, offset as int, le_bytes(value as int, n as nat)),
{
    let ghost before = buffer@;
    let ghost full = le_bytes(value as int, n as nat);
    let len = buffer.len();
    let mut rest: u64 = value;
    let mut i: usize = 0;
    proof {
        lemma_le_bytes_len(value as int, n as nat);
        assert(full.skip(0) =~= full);
        assert(buffer@ =~= overwrite(before, offset as int, full.take(0)));
    }
    while i < n
        invariant
            i <= n,
            n <= 8,
            offset + n <= len,
            len == before.len(),
            full == le_bytes(value as int, n as nat),
            full.len() == n,
            buffer@ == overwrite(before, offset as int, full.take(i as int)),
            le_bytes(rest as int, (n - i) as nat) == full.skip(i as int),
        decreases n - i,
    {
        proof {
            lemma_le_bytes_skip(rest as int, (n - i) as nat);
            assert(full.skip(i + 1) =~= full.skip(i as int).skip(1));
        }
        buffer.set(offset + i, (rest % 256) as u8);
        proof {
            assert(buffer@ =~= overwrite(before, offset as int, full.take(i + 1)));
        }
        rest = rest / 256;
        i = i + 1;
    }
    proof {
        assert(full.take(n as int) =~= full);
    }
}

/// The unsigned number whose `n` bytes hold `value` in two's complement.
pub fn raw_of(value: i64, n: usize) -> (raw: u64)
    requires
        valid_width(n as nat),
        fits_signed(value as int, n as nat),
    ensures
        raw == unsigned_of(value as int, n as nat),
        raw < pow256(n as nat),
{
    proof {
        lemma_pow256_values();
    }
    if value >= 0 {
        value as u64
    } else if n == 1 {
        (value + 0x100) as u64
    } else if n == 2 {
        (value + 0x1_0000) as u64
    } else if n == 4 {
        (value + 0x1_0000_0000) as u64
    } else {
        (value as i128 + 0x1_0000_0000_0000_0000) as u64
    }
}

/// The two's complement reading, over `n` bytes, of the unsigned number `raw`.
pub fn signed_from(raw: u64, n: usize) -> (value: i64)
    requires
        valid_width(n as nat),
        raw < pow256(n as nat),
    ensures
        value == signed_of(raw as int, n as nat),
        fits_signed(value as int, n as nat),
{
    proof {
        lemma_pow256_values();
    }
    if n == 1 {
        if raw < 0x80 {
            raw as i64
        } else {
            raw as i64 - 0x100
        }
    } else if n == 2 {
        if raw < 0x8000 {
            raw as i64
        } else {
            raw as i64 - 0x1_0000
        }
    } else if n == 4 {
        if raw < 0x8000_0000 {
            raw as i64
        } else {
            raw as i64 - 0x1_0000_0000
        }
    } else {
        if raw < 0x8000_0000_0000_0000 {
            raw as i64
        } else {
            (raw as i128 - 0x1_0000_0000_0000_0000) as i64
        }
    }
}

} // verus!
