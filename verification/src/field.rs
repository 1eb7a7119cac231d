//! The plain kinds of field of a record: text, single characters and whole
//! numbers, each with the bytes it is written as and the value read back.

use vstd::prelude::*;
use vstd::utf8::*;
use crate::text::{
    all_blank, digits_of, int_bytes, int_in_range, int_text, int_value, is_blank, is_digit,
    lemma_digits_of, lemma_leading_zeros, lemma_trimmed_between, lemma_trimmed_nothing, padded,
    parse_int, push_padded, push_prefix, push_repeated, repeated, trim, trimmed, SPACE,
};

verus! {

/// The width of every line of a declaration, in bytes.
pub const RECORD_WIDTH: usize = 500;

/// An optional small number as an optional integer.
pub open spec fn option_i8(v: Option<i8>) -> Option<int> {
    match v {
        Some(n) => Some(n as int),
        None => None,
    }
}

/// An optional number as an optional integer.
pub open spec fn option_i64(v: Option<i64>) -> Option<int> {
    match v {
        Some(n) => Some(n as int),
        None => None,
    }
}

/// The characters of an optional string.
pub open spec fn option_chars(r: Option<String>) -> Option<Seq<char>> {
    match r {
        Some(s) => Some(s@),
        None => None,
    }
}

/// The upper-case form of a string, as the standard library maps it.
pub uninterp spec fn uppercase_of(s: Seq<char>) -> Seq<char>;

/// `String::from_utf8` on the bytes. Trusted: it succeeds on well-formed
/// UTF-8 and on nothing else, and the string it gives holds the characters
/// that the bytes encode.
#[verifier::external_body]
pub(crate) fn string_of_utf8(bytes: Vec<u8>) -> (r: Option<String>)
    ensures
        r is Some <==> valid_utf8(bytes@),
        r matches Some(s) ==> s@ == decode_utf8(bytes@),
{
    String::from_utf8(bytes).ok()
}

/// `str::to_uppercase` on the string. Trusted: the result depends on the
/// characters of the argument alone.
#[verifier::external_body]
pub(crate) fn uppercase(s: &str) -> (r: String)
    ensures
        r@ == uppercase_of(s@),
{
    s.to_uppercase()
}

/// A field of `width` blanks, which stands for an absent value.
pub open spec fn blank_field(width: nat) -> Seq<u8> {
    repeated(32, width)
}

/// A text in a field of `width` bytes: its UTF-8 form, cut to the width or
/// followed by spaces.
pub open spec fn text_field(s: Seq<char>, width: nat) -> Seq<u8> {
    padded(encode_utf8(s), width, 32, false)
}

/// An optional text in a field of `width` bytes; blanks where there is none.
pub open spec fn opt_text_field(s: Option<Seq<char>>, width: nat) -> Seq<u8> {
    match s {
        Some(t) => text_field(t, width),
        None => blank_field(width),
    }
}

/// The text read from a field: the characters between the blanks at its ends,
/// where those bytes are well-formed UTF-8.
pub open spec fn text_value(field: Seq<u8>) -> Option<Seq<char>> {
    let t = trimmed(field);
    if valid_utf8(t) {
        Some(decode_utf8(t))
    } else {
        None
    }
}

/// The optional text read from a field: none where the field is blank.
pub open spec fn opt_text_value(field: Seq<u8>) -> Option<Option<Seq<char>>> {
    if trimmed(field).len() == 0 {
        Some(None)
    } else {
        match text_value(field) {
            Some(t) => Some(Some(t)),
            None => None,
        }
    }
}

/// The first byte of the UTF-8 form of a character.
pub open spec fn char_byte(c: char) -> u8 {
    encode_scalar(c as u32)[0]
}

/// A character in a field of one byte: the first byte of its UTF-8 form.
pub open spec fn char_field(c: char) -> Seq<u8> {
    seq![char_byte(c)]
}

/// An optional character in a field of one byte; a blank where there is none.
pub open spec fn opt_char_field(c: Option<char>) -> Seq<u8> {
    match c {
        Some(x) => char_field(x),
        None => blank_field(1),
    }
}

/// The character read from a field: a space where the field is blank, the
/// one ASCII character between the blanks otherwise.
pub open spec fn char_value(field: Seq<u8>) -> Option<char> {
    let t = trimmed(field);
    if t.len() == 0 {
        Some(' ')
    } else if t.len() == 1 && t[0] < 128 {
        Some(t[0] as char)
    } else {
        None
    }
}

/// The optional character read from a field: none where the field is blank.
pub open spec fn opt_char_value(field: Seq<u8>) -> Option<Option<char>> {
    if trimmed(field).len() == 0 {
        Some(None)
    } else {
        match char_value(field) {
            Some(c) => Some(Some(c)),
            None => None,
        }
    }
}

/// A whole number in a field of `width` bytes.
pub open spec fn int_field(n: int, width: nat, pad: u8, right: bool) -> Seq<u8> {
    padded(int_text(n), width, pad, right)
}

/// An optional whole number in a field; blanks where there is none.
pub open spec fn opt_int_field(n: Option<int>, width: nat, pad: u8, right: bool) -> Seq<u8> {
    match n {
        Some(v) => int_field(v, width, pad, right),
        None => blank_field(width),
    }
}

/// The whole number read from a field, where it lies from `lo` to `hi`.
pub open spec fn int_field_value(field: Seq<u8>, signed: bool, lo: int, hi: int) -> Option<int> {
    int_in_range(trimmed(field), signed, lo, hi)
}

/// The optional whole number read from a field: none where the field is blank.
pub open spec fn opt_int_field_value(field: Seq<u8>, signed: bool, lo: int, hi: int) -> Option<
    Option<int>,
> {
    if trimmed(field).len() == 0 {
        Some(None)
    } else {
        match int_field_value(field, signed, lo, hi) {
            Some(v) => Some(Some(v)),
            None => None,
        }
    }
}

/// Whether `s` holds no newline.
pub open spec fn no_newline(s: Seq<u8>) -> bool {
    forall|i: int| 0 <= i < s.len() ==> #[trigger] s[i] != 10
}

/// Whether a text is read back from a field of `width` bytes as it was
/// written: its UTF-8 form fits the field, neither starts nor ends with a
/// blank, and holds no newline.
pub open spec fn text_canonical(s: Seq<char>, width: nat) -> bool {
    let b = encode_utf8(s);
    &&& b.len() <= width
    &&& b.len() > 0 ==> !is_blank(b[0]) && !is_blank(b.last())
    &&& no_newline(b)
}

/// Whether an optional text is read back as it was written: a text that is
/// there is not empty.
pub open spec fn opt_text_canonical(s: Option<Seq<char>>, width: nat) -> bool {
    s matches Some(t) ==> encode_utf8(t).len() > 0 && text_canonical(t, width)
}

/// Whether a character is read back as it was written: it is a space, or an
/// ASCII character that is not blank.
pub open spec fn char_canonical(c: char) -> bool {
    c == ' ' || (c as u32 <= 0x7F && !is_blank(c as u8))
}

/// Whether an optional character is read back as it was written: a
/// character that is there is an ASCII character that is not blank.
pub open spec fn opt_char_canonical(c: Option<char>) -> bool {
    c matches Some(x) ==> x as u32 <= 0x7F && !is_blank(x as u8)
}

/// Whether a whole number is read back as it was written: it is within the
/// range of its field, its text fits the field, and it is not negative where
/// zeros fill the field.
pub open spec fn int_canonical(n: int, width: nat, pad: u8, lo: int, hi: int) -> bool {
    &&& lo <= n <= hi
    &&& int_text(n).len() <= width
    &&& pad == 48 ==> n >= 0
}

/// Whether an optional whole number is read back as it was written.
pub open spec fn opt_int_canonical(n: Option<int>, width: nat, pad: u8, lo: int, hi: int) -> bool {
    n matches Some(v) ==> width > 0 && int_canonical(v, width, pad, lo, hi)
}

/// `n` copies of a byte that is no newline hold no newline, and are blank
/// where the byte is.
pub proof fn lemma_repeated(b: u8, n: nat)
    ensures
        repeated(b, n).len() == n,
        b != 10 ==> no_newline(repeated(b, n)),
        is_blank(b) ==> all_blank(repeated(b, n)),
{
}

/// A sequence put together of parts without newline holds none.
pub proof fn lemma_no_newline_add(a: Seq<u8>, b: Seq<u8>)
    requires
        no_newline(a),
        no_newline(b),
    ensures
        no_newline(a + b),
{
    assert forall|i: int| 0 <= i < (a + b).len() implies #[trigger] (a + b)[i] != 10 by {
        if i < a.len() {
            assert((a + b)[i] == a[i]);
        } else {
            assert((a + b)[i] == b[i - a.len()]);
        }
    }
}

/// A field of blanks is as wide as asked, holds no newline, and nothing is
/// left of it between its ends.
pub proof fn lemma_blank_field(width: nat)
    ensures
        blank_field(width).len() == width,
        no_newline(blank_field(width)),
        trimmed(blank_field(width)).len() == 0,
{
    let f = blank_field(width);
    lemma_repeated(32, width);
    assert(f =~= f + Seq::<u8>::empty() + Seq::<u8>::empty());
    lemma_trimmed_between(f, Seq::<u8>::empty(), Seq::<u8>::empty());
}

/// A text that can be read back as it was written is: the field is as wide
/// as asked, holds no newline, and gives the text.
pub proof fn lemma_text_round_trip(s: Seq<char>, width: nat)
    requires
        text_canonical(s, width),
    ensures
        text_field(s, width).len() == width,
        no_newline(text_field(s, width)),
        trimmed(text_field(s, width)) == encode_utf8(s),
        text_value(text_field(s, width)) == Some(s),
{
    let b = encode_utf8(s);
    let pad = repeated(32, (width - b.len()) as nat);
    let f = text_field(s, width);
    lemma_repeated(32, (width - b.len()) as nat);
    if b.len() >= width {
        assert(b.subrange(0, width as int) =~= b);
        assert(f =~= Seq::<u8>::empty() + b + Seq::<u8>::empty());
        lemma_trimmed_between(Seq::<u8>::empty(), b, Seq::<u8>::empty());
    } else {
        assert(f =~= Seq::<u8>::empty() + b + pad);
        lemma_trimmed_between(Seq::<u8>::empty(), b, pad);
        lemma_no_newline_add(b, pad);
    }
    encode_utf8_valid_utf8(s);
    encode_utf8_decode_utf8(s);
}

/// An optional text that can be read back as it was written is.
pub proof fn lemma_opt_text_round_trip(s: Option<Seq<char>>, width: nat)
    requires
        opt_text_canonical(s, width),
    ensures
        opt_text_field(s, width).len() == width,
        no_newline(opt_text_field(s, width)),
        opt_text_value(opt_text_field(s, width)) == Some(s),
{
    match s {
        Some(t) => {
            lemma_text_round_trip(t, width);
        },
        None => {
            lemma_blank_field(width);
        },
    }
}

/// The byte of an ASCII character is the character.
pub proof fn lemma_ascii_byte(c: char)
    requires
        c as u32 <= 0x7F,
    ensures
        char_byte(c) == c as u8,
        char_byte(c) < 128,
        (char_byte(c) as char) == c,
{
    let v = c as u32;
    assert((v & 0x7F) == v) by (bit_vector)
        requires
            v <= 0x7F,
    ;
}

/// A character that can be read back as it was written is.
pub proof fn lemma_char_round_trip(c: char)
    requires
        char_canonical(c),
    ensures
        char_field(c).len() == 1,
        no_newline(char_field(c)),
        char_value(char_field(c)) == Some(c),
{
    let f = char_field(c);
    lemma_ascii_byte(c);
    if is_blank(f[0]) {
        assert(f =~= f + Seq::<u8>::empty() + Seq::<u8>::empty());
        lemma_trimmed_between(f, Seq::<u8>::empty(), Seq::<u8>::empty());
    } else {
        lemma_trimmed_nothing(f);
    }
}

/// An optional character that can be read back as it was written is.
pub proof fn lemma_opt_char_round_trip(c: Option<char>)
    requires
        opt_char_canonical(c),
    ensures
        opt_char_field(c).len() == 1,
        no_newline(opt_char_field(c)),
        opt_char_value(opt_char_field(c)) == Some(c),
{
    match c {
        Some(x) => {
            let f = char_field(x);
            lemma_ascii_byte(x);
            lemma_trimmed_nothing(f);
        },
        None => {
            lemma_blank_field(1);
        },
    }
}

/// The text of a whole number holds a minus sign and digits, and writes the
/// number.
pub proof fn lemma_int_text(n: int)
    ensures
        int_text(n).len() >= 1,
        no_newline(int_text(n)),
        !is_blank(int_text(n)[0]),
        !is_blank(int_text(n).last()),
        int_value(int_text(n), true) == Some(n),
        n >= 0 ==> int_value(int_text(n), false) == Some(n),
        n >= 0 ==> int_text(n) == digits_of(n as nat),
{
    let t = int_text(n);
    if n < 0 {
        let d = digits_of((-n) as nat);
        lemma_digits_of((-n) as nat);
        assert(t.subrange(1, t.len() as int) =~= d);
        assert(t.last() == d.last());
        assert(is_digit(d.last()));
        assert forall|i: int| 0 <= i < t.len() implies #[trigger] t[i] != 10 by {
            if i > 0 {
                assert(t[i] == d[i - 1]);
                assert(is_digit(d[i - 1]));
            }
        }
    } else {
        lemma_digits_of(n as nat);
        assert(is_digit(t[0]) && is_digit(t.last()));
        assert forall|i: int| 0 <= i < t.len() implies #[trigger] t[i] != 10 by {
            assert(is_digit(t[i]));
        }
    }
}

/// A whole number that can be read back as it was written is.
pub proof fn lemma_int_round_trip(
    n: int,
    width: nat,
    pad: u8,
    right: bool,
    signed: bool,
    lo: int,
    hi: int,
)
    requires
        int_canonical(n, width, pad, lo, hi),
        (pad == 48 && right) || (pad == 32 && !right),
        signed || n >= 0,
    ensures
        int_field(n, width, pad, right).len() == width,
        no_newline(int_field(n, width, pad, right)),
        trimmed(int_field(n, width, pad, right)).len() > 0,
        int_field_value(int_field(n, width, pad, right), signed, lo, hi) == Some(n),
{
    let t = int_text(n);
    let f = int_field(n, width, pad, right);
    let fill = repeated(pad, (width - t.len()) as nat);
    lemma_int_text(n);
    lemma_repeated(pad, (width - t.len()) as nat);
    if t.len() >= width {
        assert(t.subrange(0, width as int) =~= t);
        lemma_trimmed_nothing(t);
    } else if right {
        lemma_no_newline_add(fill, t);
        lemma_leading_zeros((width - t.len()) as nat, t);
        lemma_digits_of(n as nat);
        assert(is_digit(f[0]) && is_digit(f.last()));
        lemma_trimmed_nothing(f);
        assert(f.subrange(0, f.len() as int) =~= f);
    } else {
        lemma_no_newline_add(t, fill);
        assert(f =~= Seq::<u8>::empty() + t + fill);
        lemma_trimmed_between(Seq::<u8>::empty(), t, fill);
    }
}

/// An optional whole number that can be read back as it was written is.
pub proof fn lemma_opt_int_round_trip(
    n: Option<int>,
    width: nat,
    pad: u8,
    right: bool,
    signed: bool,
    lo: int,
    hi: int,
)
    requires
        opt_int_canonical(n, width, pad, lo, hi),
        (pad == 48 && right) || (pad == 32 && !right),
        signed || (n matches Some(v) ==> v >= 0),
    ensures
        opt_int_field(n, width, pad, right).len() == width,
        no_newline(opt_int_field(n, width, pad, right)),
        opt_int_field_value(opt_int_field(n, width, pad, right), signed, lo, hi) == Some(n),
{
    match n {
        Some(v) => {
            lemma_int_round_trip(v, width, pad, right, signed, lo, hi);
        },
        None => {
            lemma_blank_field(width);
        },
    }
}

/// A sequence that starts with `p + f` starts with `p`, and `f` follows.
pub proof fn lemma_split_last(whole: Seq<u8>, n: int, p: Seq<u8>, f: Seq<u8>)
    requires
        0 <= n <= whole.len(),
        whole.subrange(0, n) == p + f,
    ensures
        whole.subrange(0, p.len() as int) == p,
        whole.subrange(p.len() as int, n) == f,
{
    let w = whole.subrange(0, n);
    assert(w.len() == n);
    assert((p + f).len() == p.len() + f.len());
    assert(p.len() + f.len() == n);
    assert(whole.subrange(0, p.len() as int) =~= w.subrange(0, p.len() as int));
    assert(whole.subrange(p.len() as int, n) =~= w.subrange(p.len() as int, n));
    assert(w.subrange(0, p.len() as int) =~= p);
    assert(w.subrange(p.len() as int, n) =~= f);
}

/// Appends `bytes` to `out`.
pub fn push_all(out: &mut Vec<u8>, bytes: &[u8])
    ensures
        final(out)@ == old(out)@ + bytes@,
{
    push_prefix(out, bytes, bytes.len());
    assert(bytes@.subrange(0, bytes@.len() as int) =~= bytes@);
}

/// Appends a field of `width` blanks.
pub fn push_blank(out: &mut Vec<u8>, width: usize)
    ensures
        final(out)@ == old(out)@ + blank_field(width as nat),
        blank_field(width as nat).len() == width,
{
    push_repeated(out, SPACE, width);
}

/// Appends a text as a field of `width` bytes.
pub fn push_text(out: &mut Vec<u8>, s: &str, width: usize)
    ensures
        final(out)@ == old(out)@ + text_field(s@, width as nat),
        text_field(s@, width as nat).len() == width,
{
    push_padded(out, s.as_bytes(), width, SPACE, false);
}

/// Appends an optional text as a field of `width` bytes.
pub fn push_opt_text(out: &mut Vec<u8>, s: &Option<String>, width: usize)
    ensures
        final(out)@ == old(out)@ + opt_text_field(option_chars(*s), width as nat),
        opt_text_field(option_chars(*s), width as nat).len() == width,
{
    match s {
        Some(t) => push_text(out, t.as_str(), width),
        None => push_blank(out, width),
    }
}

/// The first byte of the UTF-8 form of `c`.
pub fn first_byte(c: char) -> (b: u8)
    ensures
        b == char_byte(c),
{
    let v: u32 = c as u32;
    proof {
        char_is_scalar(c);
    }
    if v <= 0x7F {
        let x: u32 = v & 0x7F;
        assert(x <= 0x7F) by (bit_vector)
            requires
                x == v & 0x7F,
        ;
        x as u8
    } else if v <= 0x7FF {
        let x: u32 = (v >> 6) & 0x1F;
        assert(x <= 0x1F) by (bit_vector)
            requires
                x == (v >> 6) & 0x1F,
        ;
        0xC0 | (x as u8)
    } else if v <= 0xFFFF {
        let x: u32 = (v >> 12) & 0x0F;
        assert(x <= 0x0F) by (bit_vector)
            requires
                x == (v >> 12) & 0x0F,
        ;
        0xE0 | (x as u8)
    } else {
        let x: u32 = (v >> 18) & 0x7;
        assert(x <= 0x7) by (bit_vector)
            requires
                x == (v >> 18) & 0x7,
        ;
        0xF0 | (x as u8)
    }
}

/// Appends a character as a field of one byte.
pub fn push_char(out: &mut Vec<u8>, c: char)
    ensures
        final(out)@ == old(out)@ + char_field(c),
        char_field(c).len() == 1,
{
    let ghost start = out@;
    let b: u8 = first_byte(c);
    out.push(b);
    assert(out@ =~= start + char_field(c));
}

/// Appends an optional character as a field of one byte.
pub fn push_opt_char(out: &mut Vec<u8>, c: Option<char>)
    ensures
        final(out)@ == old(out)@ + opt_char_field(c),
        opt_char_field(c).len() == 1,
{
    match c {
        Some(x) => push_char(out, x),
        None => push_blank(out, 1),
    }
}

/// Appends a whole number as a field of `width` bytes.
pub fn push_int(out: &mut Vec<u8>, n: i128, width: usize, pad: u8, right: bool)
    requires
        n > i128::MIN,
    ensures
        final(out)@ == old(out)@ + int_field(n as int, width as nat, pad, right),
        int_field(n as int, width as nat, pad, right).len() == width,
{
    let text: Vec<u8> = int_bytes(n);
    push_padded(out, text.as_slice(), width, pad, right);
}

/// The text read from a field.
pub fn read_text(field: &[u8]) -> (r: Option<String>)
    ensures
        option_chars(r) == text_value(field@),
{
    string_of_utf8(trim(field))
}

/// The optional text read from a field.
pub fn read_opt_text(field: &[u8]) -> (r: Option<Option<String>>)
    ensures
        r is Some <==> opt_text_value(field@) is Some,
        r matches Some(t) ==> Some(option_chars(t)) == opt_text_value(field@),
{
    let t: Vec<u8> = trim(field);
    if t.len() == 0 {
        Some(None)
    } else {
        match string_of_utf8(t) {
            Some(s) => Some(Some(s)),
            None => None,
        }
    }
}

/// The character read from a field.
pub fn read_char(field: &[u8]) -> (r: Option<char>)
    ensures
        r == char_value(field@),
{
    let t: Vec<u8> = trim(field);
    if t.len() == 0 {
        Some(' ')
    } else if t.len() == 1 && t[0] < 128 {
        Some(t[0] as char)
    } else {
        None
    }
}

/// The optional character read from a field.
pub fn read_opt_char(field: &[u8]) -> (r: Option<Option<char>>)
    ensures
        r == opt_char_value(field@),
{
    let t: Vec<u8> = trim(field);
    if t.len() == 0 {
        Some(None)
    } else if t.len() == 1 && t[0] < 128 {
        Some(Some(t[0] as char))
    } else {
        None
    }
}

/// The whole number read from a field, where it lies from `lo` to `hi`.
pub fn read_int(field: &[u8], signed: bool, lo: i128, hi: i128) -> (r: Option<i128>)
    requires
        -1_000_000_000_000_000_000_000_000_000_000_000_000 <= lo <= 0,
        0 <= hi <= 1_000_000_000_000_000_000_000_000_000_000_000_000,
    ensures
        r is Some <==> int_field_value(field@, signed, lo as int, hi as int) is Some,
        r matches Some(v) ==> Some(v as int) == int_field_value(
            field@,
            signed,
            lo as int,
            hi as int,
        ),
{
    let t: Vec<u8> = trim(field);
    parse_int(t.as_slice(), signed, lo, hi)
}

/// The optional whole number read from a field.
pub fn read_opt_int(field: &[u8], signed: bool, lo: i128, hi: i128) -> (r: Option<Option<i128>>)
    requires
        -1_000_000_000_000_000_000_000_000_000_000_000_000 <= lo <= 0,
        0 <= hi <= 1_000_000_000_000_000_000_000_000_000_000_000_000,
    ensures
        r is Some <==> opt_int_field_value(field@, signed, lo as int, hi as int) is Some,
        r matches Some(Some(v)) ==> Some(Some(v as int)) == opt_int_field_value(
            field@,
            signed,
            lo as int,
            hi as int,
        ),
        r matches Some(None) ==> Some(None::<int>) == opt_int_field_value(
            field@,
            signed,
            lo as int,
            hi as int,
        ),
{
    let t: Vec<u8> = trim(field);
    if t.len() == 0 {
        Some(None)
    } else {
        match parse_int(t.as_slice(), signed, lo, hi) {
            Some(v) => Some(Some(v)),
            None => None,
        }
    }
}

} // verus!
