use vstd::prelude::*;

verus! {

/// Whether `byte` is one of the ASCII digits `0` to `9`.
pub open spec fn is_digit(byte: u8) -> bool {
    0x30 <= byte <= 0x39
}

/// The number that the ASCII digit `byte` stands for.
pub open spec fn digit_value(byte: u8) -> int {
    byte - 0x30
}

/// Whether every byte of `s[from..to]` is an ASCII digit.
pub open spec fn all_digits(s: Seq<u8>, from: int, to: int) -> bool {
    forall|i: int| from <= i < to ==> is_digit(#[trigger] s[i])
}

/// The number that the digits `s[from..to]` write in decimal, most significant
/// digit first. An empty run stands for zero.
pub open spec fn decimal_value(s: Seq<u8>, from: int, to: int) -> int
    decreases to - from,
{
    if to <= from {
        0
    } else {
        10 * decimal_value(s, from, to - 1) + digit_value(s[to - 1])
    }
}

/// A run of digits never writes a negative number, and a longer run never
/// writes a smaller number than its own beginning.
pub proof fn lemma_decimal_grows(s: Seq<u8>, from: int, mid: int, to: int)
    requires
        from <= mid <= to,
        all_digits(s, from, to),
    ensures
        0 <= decimal_value(s, from, mid) <= decimal_value(s, from, to),
    decreases to - from,
{
    if from < to {
        if mid < to {
            lemma_decimal_grows(s, from, mid, to - 1);
        } else {
            lemma_decimal_grows(s, from, to - 1, to - 1);
        }
        assert(is_digit(s[to - 1]));
    }
}

/// What the digits write depends on the digits alone: two sequences that agree
/// on `from..to` write the same number there.
pub proof fn lemma_decimal_same_digits(a: Seq<u8>, b: Seq<u8>, from: int, to: int)
    requires
        forall|i: int| from <= i < to ==> a[i] == b[i],
    ensures
        decimal_value(a, from, to) == decimal_value(b, from, to),
    decreases to - from,
{
    if from < to {
        lemma_decimal_same_digits(a, b, from, to - 1);
    }
}

/// Ten to the power `n`.
pub open spec fn power_of_ten(n: nat) -> nat
    decreases n,
{
    if n == 0 {
        1
    } else {
        10 * power_of_ten((n - 1) as nat)
    }
}

/// A run of `n` digits writes a number below ten to the power `n`.
pub proof fn lemma_decimal_below_power(s: Seq<u8>, from: int, to: int)
    requires
        from <= to,
        all_digits(s, from, to),
    ensures
        decimal_value(s, from, to) < power_of_ten((to - from) as nat),
    decreases to - from,
{
    if from < to {
        lemma_decimal_below_power(s, from, to - 1);
        assert(is_digit(s[to - 1]));
    }
}

/// Tells whether `b[from..to]` holds nothing but ASCII digits.
pub(crate) fn is_digit_run(b: &[u8], from: usize, to: usize) -> (r: bool)
    requires
        from <= to <= b@.len(),
    ensures
        r == all_digits(b@, from as int, to as int),
{
    let mut i: usize = from;
    while i < to
        invariant
            from <= i <= to <= b@.len(),
            all_digits(b@, from as int, i as int),
        decreases to - i,
    {
        let c: u8 = b[i];
        if c < 0x30 || c > 0x39 {
            assert(!is_digit(b@[i as int]));
            return false;
        }
        i += 1;
    }
    true
}

/// Reads the digits `b[from..to]` as a decimal number. `None` tells that the
/// number is larger than a `u32` can hold.
pub(crate) fn read_decimal(b: &[u8], from: usize, to: usize) -> (r: Option<u32>)
    requires
        from <= to <= b@.len(),
        all_digits(b@, from as int, to as int),
    ensures
        match r {
            Some(v) => v == decimal_value(b@, from as int, to as int),
            None => decimal_value(b@, from as int, to as int) > u32::MAX,
        },
{
    let mut acc: u64 = 0;
    let mut i: usize = from;
    while i < to
        invariant
            from <= i <= to <= b@.len(),
            all_digits(b@, from as int, to as int),
            acc == decimal_value(b@, from as int, i as int),
            acc <= u32::MAX,
        decreases to - i,
    {
        let c: u8 = b[i];
        assert(is_digit(b@[i as int]));
        let next: u64 = acc * 10 + (c - 0x30) as u64;
        if next > 0xffff_ffff {
            proof {
                lemma_decimal_grows(b@, from as int, i + 1, to as int);
            }
            return None;
        }
        acc = next;
        i += 1;
    }
    Some(acc as u32)
}

} // verus!
