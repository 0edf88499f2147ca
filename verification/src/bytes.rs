//! Unsigned numbers as big-endian byte strings.

use vstd::arithmetic::div_mod::lemma_div_denominator;
use vstd::arithmetic::power::{lemma_pow_positive, pow};
use vstd::prelude::*;

verus! {

/// The `len` low base-256 digits of `n`, the most significant digit first.
pub open spec fn big_endian(n: nat, len: nat) -> Seq<u8>
    decreases len,
{
    if len == 0 {
        Seq::empty()
    } else {
        big_endian(n / 256, (len - 1) as nat).push((n % 256) as u8)
    }
}

/// The number that a big-endian byte string stands for.
pub open spec fn big_endian_value(s: Seq<u8>) -> nat
    decreases s.len(),
{
    if s.len() == 0 {
        0
    } else {
        big_endian_value(s.drop_last()) * 256 + s.last() as nat
    }
}

/// How many numbers fit in `len` bytes.
pub open spec fn byte_capacity(len: nat) -> nat
    decreases len,
{
    if len == 0 {
        1
    } else {
        256 * byte_capacity((len - 1) as nat)
    }
}

/// `big_endian` gives as many bytes as it is asked for.
pub proof fn lemma_big_endian_len(n: nat, len: nat)
    ensures
        big_endian(n, len).len() == len,
    decreases len,
{
    if len > 0 {
        lemma_big_endian_len(n / 256, (len - 1) as nat);
    }
}

/// Reading back what `big_endian` wrote gives the number, as long as it fits.
pub proof fn lemma_big_endian_round_trip(n: nat, len: nat)
    requires
        n < byte_capacity(len),
    ensures
        big_endian_value(big_endian(n, len)) == n,
    decreases len,
{
    if len > 0 {
        let short = big_endian(n / 256, (len - 1) as nat);
        assert(n / 256 < byte_capacity((len - 1) as nat));
        lemma_big_endian_round_trip(n / 256, (len - 1) as nat);
        assert(big_endian(n, len).drop_last() =~= short);
        assert(n == (n / 256) * 256 + n % 256);
    }
}

/// Writing the value of a byte string at its own length gives the byte string.
pub proof fn lemma_big_endian_value_round_trip(s: Seq<u8>)
    ensures
        big_endian(big_endian_value(s), s.len()) == s,
        big_endian_value(s) < byte_capacity(s.len()),
    decreases s.len(),
{
    if s.len() == 0 {
        assert(big_endian(0, 0) =~= s);
    } else {
        let head = s.drop_last();
        let last = s.last() as nat;
        lemma_big_endian_value_round_trip(head);
        let v = big_endian_value(s);
        assert(v == big_endian_value(head) * 256 + last);
        assert(v / 256 == big_endian_value(head));
        assert(v % 256 == last);
        assert(big_endian(v, s.len()) =~= head.push(last as u8));
        assert(head.push(s.last()) =~= s);
    }
}

/// A number of eight bytes is a `u64`.
pub proof fn lemma_eight_bytes()
    ensures
        byte_capacity(8) == 0x1_0000_0000_0000_0000,
{
    reveal_with_fuel(byte_capacity, 9);
}

/// The `len` low bytes of `n`, the most significant byte first.
pub fn to_big_endian(n: u64, len: usize) -> (bytes: Vec<u8>)
    ensures
        bytes@ == big_endian(n as nat, len as nat),
    decreases len,
{
    if len == 0 {
        Vec::new()
    } else {
        let mut bytes = to_big_endian(n / 256, len - 1);
        bytes.push((n % 256) as u8);
        bytes
    }
}

/// The number that at most eight bytes stand for.
pub fn from_big_endian(bytes: &Vec<u8>) -> (n: u64)
    requires
        bytes@.len() <= 8,
    ensures
        n == big_endian_value(bytes@),
{
    let mut n: u64 = 0;
    let mut i: usize = 0;
    while i < bytes.len()
        invariant
            i <= bytes@.len() <= 8,
            n == big_endian_value(bytes@.take(i as int)),
        decreases bytes@.len() - i,
    {
        proof {
            let longer = bytes@.take(i + 1);
            assert(longer.drop_last() =~= bytes@.take(i as int));
            lemma_big_endian_value_round_trip(longer);
            lemma_byte_capacity_monotonic(longer.len(), 8);
            lemma_eight_bytes();
        }
        n = n * 256 + bytes[i] as u64;
        i += 1;
    }
    assert(bytes@.take(i as int) =~= bytes@);
    n
}

/// Whether two byte strings are equal.
pub fn same_bytes(a: &Vec<u8>, b: &Vec<u8>) -> (same: bool)
    ensures
        same == (a@ == b@),
{
    if a.len() != b.len() {
        return false;
    }
    let mut i: usize = 0;
    while i < a.len()
        invariant
            i <= a@.len(),
            a@.len() == b@.len(),
            a@.take(i as int) == b@.take(i as int),
        decreases a@.len() - i,
    {
        if a[i] != b[i] {
            return false;
        }
        assert(a@.take(i + 1) =~= a@.take(i as int).push(a@[i as int]));
        assert(b@.take(i + 1) =~= b@.take(i as int).push(b@[i as int]));
        i += 1;
    }
    assert(a@.take(i as int) =~= a@);
    assert(b@.take(i as int) =~= b@);
    true
}

proof fn lemma_byte_capacity_monotonic(short: nat, long: nat)
    requires
        short <= long,
    ensures
        byte_capacity(short) <= byte_capacity(long),
        1 <= byte_capacity(short),
    decreases long,
{
    if short < long {
        lemma_byte_capacity_monotonic(short, (long - 1) as nat);
    } else if short > 0 {
        lemma_byte_capacity_monotonic((short - 1) as nat, (long - 1) as nat);
    }
}

/// Every byte of a big-endian number is the digit that belongs there: what is left of the number
/// when the digits behind it are taken off, modulo 256.
pub proof fn law_big_endian_digits(n: nat, len: nat, i: int)
    requires
        0 <= i < len,
    ensures
        big_endian(n, len).len() == len,
        big_endian(n, len)[i] as int == (n as int / pow(256, (len - 1 - i) as nat)) % 256,
    decreases len,
{
    lemma_big_endian_len(n, len);
    let shorter = big_endian(n / 256, (len - 1) as nat);
    lemma_big_endian_len(n / 256, (len - 1) as nat);
    if i == len - 1 {
        assert(pow(256, 0) == 1) by {
            reveal(pow);
        }
        assert(n as int / 1 == n);
    } else {
        law_big_endian_digits(n / 256, (len - 1) as nat, i);
        let k = (len - 2 - i) as nat;
        lemma_pow_positive(256, k);
        lemma_div_denominator(n as int, 256, pow(256, k));
        assert(pow(256, k + 1) == 256 * pow(256, k)) by {
            reveal(pow);
        }
        assert(big_endian(n, len)[i] == shorter[i]);
    }
}

/// A byte more makes a number 256 times as large and adds the byte to it; no bytes are zero.
pub proof fn law_big_endian_value_of_one_more(s: Seq<u8>, byte: u8)
    ensures
        big_endian_value(Seq::empty()) == 0,
        big_endian_value(s.push(byte)) == 256 * big_endian_value(s) + byte,
{
    assert(s.push(byte).drop_last() =~= s);
}

} // verus!
