//! Bytes of a fixed-width field: blanks, padding, and whole numbers written in
//! decimal digits.

use vstd::prelude::*;

verus! {

/// The space character, which fills what a value leaves free.
pub const SPACE: u8 = 32;

/// The digit zero, which fills numeric fields.
pub const ZERO: u8 = 48;

/// A byte that counts as blank at either end of a field: the space and the
/// control characters from tab to carriage return.
pub open spec fn is_blank(b: u8) -> bool {
    b == 32 || (9 <= b <= 13)
}

/// Whether `b` counts as blank at either end of a field.
pub fn is_blank_exec(b: u8) -> (r: bool)
    ensures
        r == is_blank(b),
{
    b == 32 || (9 <= b && b <= 13)
}

/// `s` without the blanks it starts with.
pub open spec fn trim_start(s: Seq<u8>) -> Seq<u8>
    decreases s.len(),
{
    if s.len() > 0 && is_blank(s[0]) {
        trim_start(s.subrange(1, s.len() as int))
    } else {
        s
    }
}

/// `s` without the blanks it ends with.
pub open spec fn trim_end(s: Seq<u8>) -> Seq<u8>
    decreases s.len(),
{
    if s.len() > 0 && is_blank(s.last()) {
        trim_end(s.drop_last())
    } else {
        s
    }
}

/// `s` without the blanks at either end.
pub open spec fn trimmed(s: Seq<u8>) -> Seq<u8> {
    trim_end(trim_start(s))
}

/// Whether every byte of `s` is blank.
pub open spec fn all_blank(s: Seq<u8>) -> bool {
    forall|i: int| 0 <= i < s.len() ==> is_blank(#[trigger] s[i])
}

/// `n` copies of the byte `b`.
pub open spec fn repeated(b: u8, n: nat) -> Seq<u8> {
    Seq::new(n, |i: int| b)
}

/// A value laid out in a field of `width` bytes: cut to the width where it is
/// longer, else filled with `pad` after it, or before it where the field is
/// justified to the right.
pub open spec fn padded(value: Seq<u8>, width: nat, pad: u8, right: bool) -> Seq<u8> {
    if value.len() >= width {
        value.subrange(0, width as int)
    } else if right {
        repeated(pad, (width - value.len()) as nat) + value
    } else {
        value + repeated(pad, (width - value.len()) as nat)
    }
}

/// Dropping leading blanks gives the rest from the first byte that is not one.
pub proof fn lemma_trim_start_at(s: Seq<u8>, i: int)
    requires
        0 <= i <= s.len(),
        forall|k: int| 0 <= k < i ==> is_blank(#[trigger] s[k]),
        i < s.len() ==> !is_blank(s[i]),
    ensures
        trim_start(s) == s.subrange(i, s.len() as int),
    decreases i,
{
    if i == 0 {
        assert(s.subrange(0, s.len() as int) =~= s);
    } else {
        let t = s.subrange(1, s.len() as int);
        assert forall|k: int| 0 <= k < i - 1 implies is_blank(#[trigger] t[k]) by {
            assert(t[k] == s[k + 1]);
        }
        lemma_trim_start_at(t, i - 1);
        assert(t.subrange(i - 1, t.len() as int) =~= s.subrange(i, s.len() as int));
    }
}

/// Dropping trailing blanks gives the part up to the last byte that is not one.
pub proof fn lemma_trim_end_at(s: Seq<u8>, j: int)
    requires
        0 <= j <= s.len(),
        forall|k: int| j <= k < s.len() ==> is_blank(#[trigger] s[k]),
        j > 0 ==> !is_blank(s[j - 1]),
    ensures
        trim_end(s) == s.subrange(0, j),
    decreases s.len() - j,
{
    if j == s.len() {
        assert(s.subrange(0, j) =~= s);
    } else {
        let t = s.drop_last();
        assert forall|k: int| j <= k < t.len() implies is_blank(#[trigger] t[k]) by {
            assert(t[k] == s[k]);
        }
        lemma_trim_end_at(t, j);
        assert(t.subrange(0, j) =~= s.subrange(0, j));
    }
}

/// The bytes of `bytes` from `from` up to `to`, copied.
pub fn copy_range(bytes: &[u8], from: usize, to: usize) -> (r: Vec<u8>)
    requires
        from <= to <= bytes@.len(),
    ensures
        r@ == bytes@.subrange(from as int, to as int),
{
    let mut r: Vec<u8> = Vec::new();
    let mut i: usize = from;
    while i < to
        invariant
            from <= i <= to <= bytes@.len(),
            r@ == bytes@.subrange(from as int, i as int),
        decreases to - i,
    {
        r.push(bytes[i]);
        i = i + 1;
        assert(r@ =~= bytes@.subrange(from as int, i as int));
    }
    r
}

/// The bytes of `bytes` without the blanks at either end.
pub fn trim(bytes: &[u8]) -> (r: Vec<u8>)
    ensures
        r@ == trimmed(bytes@),
{
    let n: usize = bytes.len();
    let mut i: usize = 0;
    while i < n && is_blank_exec(bytes[i])
        invariant
            i <= n == bytes@.len(),
            forall|k: int| 0 <= k < i ==> is_blank(#[trigger] bytes@[k]),
        decreases n - i,
    {
        i = i + 1;
    }
    let mut j: usize = n;
    while j > i && is_blank_exec(bytes[j - 1])
        invariant
            i <= j <= n == bytes@.len(),
            forall|k: int| j <= k < n ==> is_blank(#[trigger] bytes@[k]),
        decreases j,
    {
        j = j - 1;
    }
    proof {
        let s = bytes@;
        lemma_trim_start_at(s, i as int);
        let t = s.subrange(i as int, n as int);
        assert forall|k: int| j - i <= k < t.len() implies is_blank(#[trigger] t[k]) by {
            assert(t[k] == s[k + i]);
        }
        if j > i {
            assert(t[j - i - 1] == s[j - 1]);
        }
        lemma_trim_end_at(t, j - i);
        assert(t.subrange(0, j - i) =~= s.subrange(i as int, j as int));
    }
    copy_range(bytes, i, j)
}

/// Appends `n` copies of `b` to `out`.
pub fn push_repeated(out: &mut Vec<u8>, b: u8, n: usize)
    ensures
        final(out)@ == old(out)@ + repeated(b, n as nat),
{
    let ghost start = out@;
    let mut i: usize = 0;
    while i < n
        invariant
            i <= n,
            out@ == start + repeated(b, i as nat),
        decreases n - i,
    {
        out.push(b);
        i = i + 1;
        assert(out@ =~= start + repeated(b, i as nat));
    }
}

/// Appends to `out` the first `n` bytes of `value`.
pub fn push_prefix(out: &mut Vec<u8>, value: &[u8], n: usize)
    requires
        n <= value@.len(),
    ensures
        final(out)@ == old(out)@ + value@.subrange(0, n as int),
{
    let ghost start = out@;
    let mut i: usize = 0;
    while i < n
        invariant
            i <= n <= value@.len(),
            out@ == start + value@.subrange(0, i as int),
        decreases n - i,
    {
        out.push(value[i]);
        i = i + 1;
        assert(out@ =~= start + value@.subrange(0, i as int));
    }
}

/// Appends `value` to `out` as a field of `width` bytes.
pub fn push_padded(out: &mut Vec<u8>, value: &[u8], width: usize, pad: u8, right: bool)
    ensures
        final(out)@ == old(out)@ + padded(value@, width as nat, pad, right),
        padded(value@, width as nat, pad, right).len() == width,
{
    let ghost start = out@;
    let n: usize = value.len();
    if n >= width {
        push_prefix(out, value, width);
    } else if right {
        push_repeated(out, pad, width - n);
        push_prefix(out, value, n);
        assert(value@.subrange(0, n as int) =~= value@);
        assert(out@ =~= start + (repeated(pad, (width - n) as nat) + value@));
    } else {
        push_prefix(out, value, n);
        push_repeated(out, pad, width - n);
        assert(value@.subrange(0, n as int) =~= value@);
        assert(out@ =~= start + (value@ + repeated(pad, (width - n) as nat)));
    }
}

/// Whether `b` is one of the digits `0` to `9`.
pub open spec fn is_digit(b: u8) -> bool {
    48 <= b <= 57
}

/// Whether `s` holds digits only.
pub open spec fn all_digits(s: Seq<u8>) -> bool {
    forall|i: int| 0 <= i < s.len() ==> is_digit(#[trigger] s[i])
}

/// The number that the digits of `s` write in base ten.
pub open spec fn digits_value(s: Seq<u8>) -> nat
    decreases s.len(),
{
    if s.len() == 0 {
        0
    } else {
        digits_value(s.drop_last()) * 10 + (s.last() - 48) as nat
    }
}

/// The digits of `n` in base ten, without leading zeros.
pub open spec fn digits_of(n: nat) -> Seq<u8>
    decreases n,
{
    if n < 10 {
        seq![(48 + n) as u8]
    } else {
        digits_of(n / 10).push((48 + n % 10) as u8)
    }
}

/// A whole number as text: its digits, after a minus sign where it is negative.
pub open spec fn int_text(n: int) -> Seq<u8> {
    if n < 0 {
        seq![45u8] + digits_of((-n) as nat)
    } else {
        digits_of(n as nat)
    }
}

/// The number that a run of at least one digit writes.
pub open spec fn unsigned_value(s: Seq<u8>) -> Option<int> {
    if s.len() > 0 && all_digits(s) {
        Some(digits_value(s) as int)
    } else {
        None
    }
}

/// The number that `s` writes: digits after an optional plus sign or, where
/// `signed`, an optional minus sign.
pub open spec fn int_value(s: Seq<u8>, signed: bool) -> Option<int> {
    if s.len() > 0 && s[0] == 43 {
        unsigned_value(s.subrange(1, s.len() as int))
    } else if signed && s.len() > 0 && s[0] == 45 {
        match unsigned_value(s.subrange(1, s.len() as int)) {
            Some(v) => Some(-v),
            None => None,
        }
    } else {
        unsigned_value(s)
    }
}

/// The number that `s` writes, where it lies from `lo` to `hi`.
pub open spec fn int_in_range(s: Seq<u8>, signed: bool, lo: int, hi: int) -> Option<int> {
    match int_value(s, signed) {
        Some(v) => if lo <= v <= hi { Some(v) } else { None },
        None => None,
    }
}

/// Appends the digits of `n` to `out`.
pub fn push_digits(out: &mut Vec<u8>, n: u128)
    ensures
        final(out)@ == old(out)@ + digits_of(n as nat),
    decreases n,
{
    let ghost start = out@;
    if n >= 10 {
        push_digits(out, n / 10);
    }
    let d: u8 = (48 + (n % 10)) as u8;
    out.push(d);
    proof {
        if n >= 10 {
            assert(out@ =~= start + digits_of((n / 10) as nat).push(d));
        } else {
            assert(out@ =~= start + seq![d]);
        }
    }
}

/// The text of the whole number `n`.
pub fn int_bytes(n: i128) -> (r: Vec<u8>)
    requires
        n > i128::MIN,
    ensures
        r@ == int_text(n as int),
{
    let mut r: Vec<u8> = Vec::new();
    if n < 0 {
        r.push(45u8);
        push_digits(&mut r, (-n) as u128);
        assert(r@ =~= seq![45u8] + digits_of((-n) as nat));
    } else {
        push_digits(&mut r, n as u128);
        assert(r@ =~= digits_of(n as nat));
    }
    r
}

/// A longer run of digits writes a number that is no smaller.
pub proof fn lemma_digits_value_grows(s: Seq<u8>, k: int)
    requires
        0 <= k <= s.len(),
        all_digits(s),
    ensures
        digits_value(s.subrange(0, k)) <= digits_value(s),
    decreases s.len() - k,
{
    if k == s.len() {
        assert(s.subrange(0, k) =~= s);
    } else {
        let t = s.drop_last();
        assert(all_digits(t)) by {
            assert forall|i: int| 0 <= i < t.len() implies is_digit(#[trigger] t[i]) by {
                assert(t[i] == s[i]);
            }
        }
        lemma_digits_value_grows(t, k);
        assert(t.subrange(0, k) =~= s.subrange(0, k));
        assert(is_digit(s.last()));
    }
}

/// A run of `n` digits writes a number below `10^n`.
pub proof fn lemma_digits_value_bound(s: Seq<u8>)
    requires
        all_digits(s),
    ensures
        digits_value(s) < crate::decimal::pow10(s.len()),
    decreases s.len(),
{
    if s.len() > 0 {
        let t = s.drop_last();
        assert(all_digits(t)) by {
            assert forall|i: int| 0 <= i < t.len() implies is_digit(#[trigger] t[i]) by {
                assert(t[i] == s[i]);
            }
        }
        lemma_digits_value_bound(t);
        assert(is_digit(s.last()));
    }
}

/// The digits of a number are digits, at least one, and write the number.
pub proof fn lemma_digits_of(n: nat)
    ensures
        digits_of(n).len() >= 1,
        all_digits(digits_of(n)),
        digits_value(digits_of(n)) == n,
    decreases n,
{
    if n < 10 {
        let s = seq![(48 + n) as u8];
        assert(s.drop_last() =~= Seq::<u8>::empty());
        assert(digits_value(s.drop_last()) == 0);
        assert(s.last() == (48 + n) as u8);
    } else {
        lemma_digits_of(n / 10);
        let t = digits_of(n / 10);
        let d = (48 + n % 10) as u8;
        let s = t.push(d);
        assert(s.drop_last() =~= t);
        assert(s.last() == d);
        assert forall|i: int| 0 <= i < s.len() implies is_digit(#[trigger] s[i]) by {
            if i < t.len() {
                assert(s[i] == t[i]);
            }
        }
    }
}

/// A number below `10^k` has at most `k` digits.
pub proof fn lemma_digits_of_len(n: nat, k: nat)
    requires
        k >= 1,
        n < crate::decimal::pow10(k),
    ensures
        digits_of(n).len() <= k,
    decreases n,
{
    if n >= 10 {
        if k == 1 {
            assert(crate::decimal::pow10(1) == 10 * crate::decimal::pow10(0));
            assert(crate::decimal::pow10(0) == 1);
        } else {
            assert(crate::decimal::pow10(k) == 10 * crate::decimal::pow10((k - 1) as nat));
            lemma_digits_of_len(n / 10, (k - 1) as nat);
        }
    }
}

/// Zeros before digits do not change the number that they write.
pub proof fn lemma_leading_zeros(z: nat, s: Seq<u8>)
    ensures
        digits_value(repeated(48, z) + s) == digits_value(s),
        all_digits(s) ==> all_digits(repeated(48, z) + s),
    decreases s.len(), z,
{
    let zeros = repeated(48, z);
    if s.len() == 0 {
        assert(zeros + s =~= zeros);
        if z > 0 {
            assert(zeros.drop_last() =~= repeated(48, (z - 1) as nat));
            assert(repeated(48, (z - 1) as nat) + s =~= repeated(48, (z - 1) as nat));
            lemma_leading_zeros((z - 1) as nat, s);
            assert(zeros.last() == 48);
        }
    } else {
        assert((zeros + s).drop_last() =~= zeros + s.drop_last());
        assert((zeros + s).last() == s.last());
        lemma_leading_zeros(z, s.drop_last());
    }
    if all_digits(s) {
        assert forall|i: int| 0 <= i < (zeros + s).len() implies is_digit(
            #[trigger] (zeros + s)[i],
        ) by {
            if i >= z {
                assert((zeros + s)[i] == s[i - z]);
            }
        }
    }
}

/// A number below `10^width` in a field of zeros: the field is as wide as
/// asked, holds digits only, and writes the number.
pub proof fn lemma_zero_padded(n: nat, width: nat)
    requires
        width >= 1,
        n < crate::decimal::pow10(width),
    ensures
        padded(digits_of(n), width, 48, true).len() == width,
        all_digits(padded(digits_of(n), width, 48, true)),
        digits_value(padded(digits_of(n), width, 48, true)) == n,
{
    let d = digits_of(n);
    lemma_digits_of(n);
    lemma_digits_of_len(n, width);
    if d.len() >= width {
        assert(d.subrange(0, width as int) =~= d);
    } else {
        lemma_leading_zeros((width - d.len()) as nat, d);
    }
}

/// What neither starts nor ends with a blank is left as it is.
pub proof fn lemma_trimmed_nothing(s: Seq<u8>)
    requires
        s.len() > 0 ==> !is_blank(s[0]) && !is_blank(s.last()),
    ensures
        trimmed(s) == s,
{
    lemma_trim_start_at(s, 0);
    assert(s.subrange(0, s.len() as int) =~= s);
    lemma_trim_end_at(s, s.len() as int);
}

/// Blanks around what neither starts nor ends with a blank are dropped.
pub proof fn lemma_trimmed_between(before: Seq<u8>, s: Seq<u8>, after: Seq<u8>)
    requires
        all_blank(before),
        all_blank(after),
        s.len() > 0 ==> !is_blank(s[0]) && !is_blank(s.last()),
    ensures
        trimmed(before + s + after) == s,
{
    let whole = before + s + after;
    let b = before.len() as int;
    let n = s.len() as int;
    assert forall|k: int| 0 <= k < b implies is_blank(#[trigger] whole[k]) by {
        assert(whole[k] == before[k]);
    }
    if n == 0 {
        assert forall|k: int| 0 <= k < whole.len() implies is_blank(#[trigger] whole[k]) by {
            if k >= b {
                assert(whole[k] == after[k - b]);
            } else {
                assert(whole[k] == before[k]);
            }
        }
        lemma_trim_start_at(whole, whole.len() as int);
        assert(whole.subrange(whole.len() as int, whole.len() as int) =~= s);
    } else {
        assert(whole[b] == s[0]);
        lemma_trim_start_at(whole, b);
        let t = whole.subrange(b, whole.len() as int);
        assert(t =~= s + after);
        assert forall|k: int| n <= k < t.len() implies is_blank(#[trigger] t[k]) by {
            assert(t[k] == after[k - n]);
        }
        assert(t[n - 1] == s.last());
        lemma_trim_end_at(t, n);
        assert(t.subrange(0, n) =~= s);
    }
}

/// Digits are neither blanks nor newlines.
pub proof fn lemma_digits_plain(s: Seq<u8>)
    requires
        all_digits(s),
    ensures
        forall|i: int| 0 <= i < s.len() ==> #[trigger] s[i] != 10 && !is_blank(s[i]),
{
    assert forall|i: int| 0 <= i < s.len() implies #[trigger] s[i] != 10 && !is_blank(s[i]) by {
        assert(is_digit(s[i]));
    }
}

/// The number that the digits of `bytes` from `start` on write, where there is
/// at least one byte, all are digits and the number is at most `max`.
pub fn parse_digits(bytes: &[u8], start: usize, max: i128) -> (r: Option<i128>)
    requires
        start <= bytes@.len(),
        0 <= max <= 1_000_000_000_000_000_000_000_000_000_000_000_000,
    ensures
        r is Some <==> (unsigned_value(
            bytes@.subrange(start as int, bytes@.len() as int),
        ) matches Some(v) && v <= max),
        r matches Some(v) ==> Some(v as int) == unsigned_value(
            bytes@.subrange(start as int, bytes@.len() as int),
        ),
{
    let n: usize = bytes.len();
    let ghost s = bytes@.subrange(start as int, n as int);
    if start == n {
        return None;
    }
    let mut acc: i128 = 0;
    let mut i: usize = start;
    while i < n
        invariant
            start <= i <= n == bytes@.len(),
            s == bytes@.subrange(start as int, n as int),
            0 <= acc <= max <= 1_000_000_000_000_000_000_000_000_000_000_000_000,
            all_digits(s.subrange(0, i - start)),
            acc == digits_value(s.subrange(0, i - start)),
        decreases n - i,
    {
        let b: u8 = bytes[i];
        let ghost before = s.subrange(0, i - start);
        let ghost after = s.subrange(0, i + 1 - start);
        proof {
            assert(s[i - start] == b);
            assert(after.drop_last() =~= before);
            assert(after.last() == b);
        }
        if !(48 <= b && b <= 57) {
            proof {
                assert(!is_digit(s[i - start]));
            }
            return None;
        }
        let next: i128 = acc * 10 + (b - 48) as i128;
        proof {
            assert forall|k: int| 0 <= k < after.len() implies is_digit(#[trigger] after[k]) by {
                if k < before.len() {
                    assert(after[k] == before[k]);
                }
            }
        }
        if next > max {
            proof {
                if all_digits(s) {
                    lemma_digits_value_grows(s, i + 1 - start);
                }
            }
            return None;
        }
        acc = next;
        i = i + 1;
    }
    proof {
        assert(s.subrange(0, n - start) =~= s);
    }
    Some(acc)
}

/// The number that `bytes` write, where it lies from `lo` to `hi`.
pub fn parse_int(bytes: &[u8], signed: bool, lo: i128, hi: i128) -> (r: Option<i128>)
    requires
        -1_000_000_000_000_000_000_000_000_000_000_000_000 <= lo <= 0,
        0 <= hi <= 1_000_000_000_000_000_000_000_000_000_000_000_000,
    ensures
        r is Some <==> int_in_range(bytes@, signed, lo as int, hi as int) is Some,
        r matches Some(v) ==> Some(v as int) == int_in_range(bytes@, signed, lo as int, hi as int),
{
    let n: usize = bytes.len();
    proof {
        assert(bytes@.subrange(0, n as int) =~= bytes@);
    }
    if n > 0 && bytes[0] == 43 {
        parse_digits(bytes, 1, hi)
    } else if signed && n > 0 && bytes[0] == 45 {
        match parse_digits(bytes, 1, -lo) {
            Some(v) => Some(-v),
            None => None,
        }
    } else {
        parse_digits(bytes, 0, hi)
    }
}

} // verus!
