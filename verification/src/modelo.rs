//! A whole declaration: the header, the detail records, and the file of
//! fixed-width lines that stands for them.

use vstd::prelude::*;
use crate::decimal::{
    cents_of, decimal_sum, lemma_pow10_values, Decimal, DecimalView, MAX_MANTISSA,
};
use crate::error::Modelo720Error;
use crate::field::{int_canonical, no_newline, push_all, text_canonical, RECORD_WIDTH};
use crate::number::{amount_fits, Modelo720Number};
use crate::registro1::{
    lemma_registro1_round_trip, registro1_baseline, registro1_canonical, registro1_encodable,
    registro1_line, registro1_value, Registro1Modelo720, Registro1View,
};
use crate::registro2::{
    lemma_registro2_round_trip, registro2_canonical, registro2_encodable, registro2_line,
    registro2_normal, registro2_value, Registro2Modelo720, Registro2View,
};
use crate::text::{copy_range, lemma_digits_of_len};

verus! {

/// The byte that ends every line of a file.
pub const NEWLINE: u8 = 10;

/// The content of a [`Modelo720`].
pub struct Modelo720View {
    pub header: Registro1View,
    pub entries: Seq<Registro2View>,
}

/// A declaration: its header and its detail records, in the order of the file.
#[derive(Debug)]
pub struct Modelo720 {
    pub header: Registro1Modelo720,
    pub entries: Vec<Registro2Modelo720>,
}

/// The contents of a list of detail records.
pub open spec fn entries_view(entries: Seq<Registro2Modelo720>) -> Seq<Registro2View> {
    entries.map_values(|e: Registro2Modelo720| e@)
}

impl View for Modelo720 {
    type V = Modelo720View;

    open spec fn view(&self) -> Modelo720View {
        Modelo720View { header: self.header@, entries: entries_view(self.entries@) }
    }
}

/// A valuation of a detail record: the second one, or the first.
pub open spec fn valuation(entry: Registro2View, second: bool) -> DecimalView {
    if second {
        entry.valoracion2
    } else {
        entry.valoracion1
    }
}

/// The sum, in cents, of one valuation over the detail records, each rounded
/// to cents before it is added.
pub open spec fn column_total(entries: Seq<Registro2View>, second: bool) -> int
    decreases entries.len(),
{
    if entries.len() == 0 {
        0
    } else {
        column_total(entries.drop_last(), second) + cents_of(valuation(entries.last(), second))
    }
}

/// Whether the running total of a valuation stays within what a decimal of
/// two places holds, from the first record to the last.
pub open spec fn totals_in_range(entries: Seq<Registro2View>, second: bool) -> bool {
    forall|k: int|
        0 <= k <= entries.len() ==> -MAX_MANTISSA <= #[trigger] column_total(
            entries.subrange(0, k),
            second,
        ) <= MAX_MANTISSA
}

/// The declaration that [`Modelo720::new`] builds: a fresh header that counts
/// the records and holds the totals of both valuations, and the records.
pub open spec fn built(
    ejercicio: int,
    nif: Seq<char>,
    nombre: Seq<char>,
    telefono: int,
    entries: Seq<Registro2View>,
) -> Modelo720View {
    Modelo720View {
        header: Registro1View {
            numero_registros_tipo2: entries.len() as int,
            suma_valoracion1: DecimalView { mantissa: column_total(entries, false), scale: 2 },
            suma_valoracion2: DecimalView { mantissa: column_total(entries, true), scale: 2 },
            ..registro1_baseline(ejercicio, nif, nombre, telefono)
        },
        entries,
    }
}

/// Whether two declarations can be made one: the counts add up within a
/// `usize`, and the totals add up within a decimal.
pub open spec fn can_concat(a: Modelo720View, b: Modelo720View) -> bool {
    &&& a.header.numero_registros_tipo2 + b.header.numero_registros_tipo2 <= usize::MAX
    &&& decimal_sum(a.header.suma_valoracion1, b.header.suma_valoracion1) is Some
    &&& decimal_sum(a.header.suma_valoracion2, b.header.suma_valoracion2) is Some
}

/// The declaration `a` followed by the declaration `b`: the header of `a`
/// with the counts and totals of `b` added to its own, and the records of
/// `a` and of `b` after them.
pub open spec fn concatenated(a: Modelo720View, b: Modelo720View) -> Modelo720View {
    Modelo720View {
        header: Registro1View {
            numero_registros_tipo2: a.header.numero_registros_tipo2
                + b.header.numero_registros_tipo2,
            suma_valoracion1: decimal_sum(a.header.suma_valoracion1, b.header.suma_valoracion1)->0,
            suma_valoracion2: decimal_sum(a.header.suma_valoracion2, b.header.suma_valoracion2)->0,
            ..a.header
        },
        entries: a.entries + b.entries,
    }
}

/// The lines of the detail records, each followed by a newline.
pub open spec fn detail_lines(entries: Seq<Registro2View>) -> Seq<u8>
    decreases entries.len(),
{
    if entries.len() == 0 {
        Seq::<u8>::empty()
    } else {
        detail_lines(entries.drop_last()) + registro2_line(entries.last()) + seq![10u8]
    }
}

/// The bytes of the file of a declaration: the line of the header, a newline,
/// and the line of each detail record followed by a newline.
pub open spec fn file_bytes(v: Modelo720View) -> Seq<u8> {
    registro1_line(v.header) + seq![10u8] + detail_lines(v.entries)
}

/// Whether every record of the declaration can be written.
pub open spec fn file_encodable(v: Modelo720View) -> bool {
    &&& registro1_encodable(v.header)
    &&& forall|i: int| 0 <= i < v.entries.len() ==> registro2_encodable(#[trigger] v.entries[i])
}

/// Where the first line of `s` ends: at its first newline, or at its end.
pub open spec fn line_end(s: Seq<u8>) -> int
    decreases s.len(),
{
    if s.len() == 0 || s[0] == 10 {
        0
    } else {
        1 + line_end(s.drop_first())
    }
}

/// What follows the first line of `s` and its newline.
pub open spec fn after_line(s: Seq<u8>) -> Seq<u8> {
    if line_end(s) < s.len() {
        s.subrange(line_end(s) + 1, s.len() as int)
    } else {
        Seq::<u8>::empty()
    }
}

/// Why a line stands for no record: it is not as wide as a record, or one of
/// its fields holds no value of its kind.
pub open spec fn line_error(line: Seq<u8>) -> Modelo720Error {
    if line.len() == RECORD_WIDTH {
        Modelo720Error::MalformedField
    } else {
        Modelo720Error::TruncatedRecord
    }
}

/// `found` before what `rest` gives, or the error that `rest` gives.
pub open spec fn after_found(
    found: Seq<Registro2View>,
    rest: Result<Seq<Registro2View>, Modelo720Error>,
) -> Result<Seq<Registro2View>, Modelo720Error> {
    match rest {
        Ok(more) => Ok(found + more),
        Err(e) => Err(e),
    }
}

/// The detail records that the lines of `s` stand for, in their order. An
/// empty line stands for nothing; the first line that stands for no record
/// decides the error.
pub open spec fn details_value(s: Seq<u8>) -> Result<Seq<Registro2View>, Modelo720Error>
    decreases s.len(),
    via details_value_decreases
{
    if s.len() == 0 {
        Ok(Seq::<Registro2View>::empty())
    } else {
        let line = s.subrange(0, line_end(s));
        if line.len() == 0 {
            details_value(after_line(s))
        } else {
            match registro2_value(line) {
                Some(record) => after_found(seq![record], details_value(after_line(s))),
                None => Err(line_error(line)),
            }
        }
    }
}

#[via_fn]
proof fn details_value_decreases(s: Seq<u8>) {
    lemma_line_end(s);
}

/// The declaration that the bytes of a file stand for: the first line is the
/// header, each line after it that is not empty a detail record.
pub open spec fn file_value(bytes: Seq<u8>) -> Result<Modelo720View, Modelo720Error> {
    let line = bytes.subrange(0, line_end(bytes));
    match registro1_value(line) {
        Some(header) => match details_value(after_line(bytes)) {
            Ok(entries) => Ok(Modelo720View { header, entries }),
            Err(e) => Err(e),
        },
        None => Err(line_error(line)),
    }
}

/// The first line of a sequence ends within it, and holds no newline.
pub proof fn lemma_line_end(s: Seq<u8>)
    ensures
        0 <= line_end(s) <= s.len(),
        line_end(s) < s.len() ==> s[line_end(s)] == 10,
        forall|k: int| 0 <= k < line_end(s) ==> #[trigger] s[k] != 10,
    decreases s.len(),
{
    if s.len() == 0 || s[0] == 10 {
    } else {
        let t = s.drop_first();
        lemma_line_end(t);
        assert forall|k: int| 0 <= k < line_end(s) implies #[trigger] s[k] != 10 by {
            if k > 0 {
                assert(s[k] == t[k - 1]);
            }
        }
    }
}

/// The first line ends at the first newline.
pub proof fn lemma_line_end_at(s: Seq<u8>, i: int)
    requires
        0 <= i <= s.len(),
        forall|k: int| 0 <= k < i ==> #[trigger] s[k] != 10,
        i < s.len() ==> s[i] == 10,
    ensures
        line_end(s) == i,
    decreases i,
{
    if i > 0 {
        let t = s.drop_first();
        assert forall|k: int| 0 <= k < i - 1 implies #[trigger] t[k] != 10 by {
            assert(t[k] == s[k + 1]);
        }
        lemma_line_end_at(t, i - 1);
    }
}

/// Whether every record of the declaration is read back as it was written.
pub open spec fn file_canonical(v: Modelo720View) -> bool {
    &&& registro1_canonical(v.header)
    &&& forall|i: int| 0 <= i < v.entries.len() ==> registro2_canonical(#[trigger] v.entries[i])
}

/// The detail records as they are read back.
pub open spec fn entries_normal(entries: Seq<Registro2View>) -> Seq<Registro2View> {
    entries.map_values(|e: Registro2View| registro2_normal(e))
}

/// The declaration as it is read back: in each detail record, a description
/// of the kind of ownership is in upper case.
pub open spec fn file_normal(v: Modelo720View) -> Modelo720View {
    Modelo720View { header: v.header, entries: entries_normal(v.entries) }
}

/// The lines of detail records start with the line of the first record.
pub proof fn lemma_detail_lines_front(first: Registro2View, rest: Seq<Registro2View>)
    ensures
        detail_lines(seq![first] + rest) == registro2_line(first) + seq![10u8] + detail_lines(rest),
    decreases rest.len(),
{
    let all = seq![first] + rest;
    if rest.len() == 0 {
        assert(all.drop_last() =~= Seq::<Registro2View>::empty());
        assert(all.last() == first);
        assert(detail_lines(all.drop_last()) =~= Seq::<u8>::empty());
        assert(detail_lines(rest) =~= Seq::<u8>::empty());
        assert(detail_lines(all) == detail_lines(all.drop_last()) + registro2_line(all.last())
            + seq![10u8]);
        assert(detail_lines(all) =~= registro2_line(first) + seq![10u8] + detail_lines(rest));
    } else {
        assert(all.drop_last() =~= seq![first] + rest.drop_last());
        assert(all.last() == rest.last());
        lemma_detail_lines_front(first, rest.drop_last());
        assert(detail_lines(all) =~= registro2_line(first) + seq![10u8] + detail_lines(rest));
    }
}

/// A line without newline that a newline follows is the first line of what
/// it starts, and the rest follows it.
pub proof fn lemma_first_line(line: Seq<u8>, rest: Seq<u8>)
    requires
        no_newline(line),
    ensures
        line_end(line + seq![10u8] + rest) == line.len(),
        (line + seq![10u8] + rest).subrange(0, line.len() as int) == line,
        after_line(line + seq![10u8] + rest) == rest,
{
    let s = line + seq![10u8] + rest;
    let n = line.len() as int;
    assert forall|k: int| 0 <= k < n implies #[trigger] s[k] != 10 by {
        assert(s[k] == line[k]);
    }
    assert(s[n] == 10);
    lemma_line_end_at(s, n);
    assert(s.subrange(0, n) =~= line);
    assert(s.subrange(n + 1, s.len() as int) =~= rest);
}

/// Detail records that can be read back as they were written are read back
/// from their lines, in their order.
pub proof fn lemma_details_round_trip(entries: Seq<Registro2View>)
    requires
        forall|i: int| 0 <= i < entries.len() ==> registro2_canonical(#[trigger] entries[i]),
    ensures
        details_value(detail_lines(entries)) == Ok::<Seq<Registro2View>, Modelo720Error>(
            entries_normal(entries),
        ),
    decreases entries.len(),
{
    if entries.len() == 0 {
        assert(entries_normal(entries) =~= Seq::<Registro2View>::empty());
    } else {
        let first = entries[0];
        let rest = entries.drop_first();
        assert(entries =~= seq![first] + rest);
        assert forall|i: int| 0 <= i < rest.len() implies registro2_canonical(
            #[trigger] rest[i],
        ) by {
            assert(rest[i] == entries[i + 1]);
        }
        lemma_detail_lines_front(first, rest);
        lemma_registro2_round_trip(first);
        lemma_first_line(registro2_line(first), detail_lines(rest));
        lemma_details_round_trip(rest);
        assert(seq![registro2_normal(first)] + entries_normal(rest) =~= entries_normal(entries));
    }
}

/// A declaration whose records can be read back as they were written is
/// read back from the bytes of its file: every record of it can be written,
/// and the file stands for the declaration, with a description of the kind
/// of ownership in upper case.
pub proof fn lemma_file_round_trip(v: Modelo720View)
    requires
        file_canonical(v),
    ensures
        file_encodable(v),
        file_value(file_bytes(v)) == Ok::<Modelo720View, Modelo720Error>(file_normal(v)),
{
    lemma_registro1_round_trip(v.header);
    assert forall|i: int| 0 <= i < v.entries.len() implies registro2_encodable(
        #[trigger] v.entries[i],
    ) by {
        lemma_registro2_round_trip(v.entries[i]);
    }
    lemma_first_line(registro1_line(v.header), detail_lines(v.entries));
    lemma_details_round_trip(v.entries);
}

/// Whether the declaration that [`Modelo720::new`] builds from these values
/// is read back as it was written: the values of the declarant fit their
/// fields, the count and the totals fit theirs, and every detail record is
/// read back as it was written.
pub open spec fn built_canonical(
    ejercicio: int,
    nif: Seq<char>,
    nombre: Seq<char>,
    telefono: int,
    entries: Seq<Registro2View>,
) -> bool {
    &&& int_canonical(ejercicio, 4, 32, -32768, 32767)
    &&& text_canonical(nif, 9)
    &&& text_canonical(nombre, 40)
    &&& int_canonical(telefono, 9, 32, -9_223_372_036_854_775_808, 9_223_372_036_854_775_807)
    &&& int_canonical(entries.len() as int, 9, 48, 0, usize::MAX as int)
    &&& amount_fits(column_total(entries, false), 18)
    &&& amount_fits(column_total(entries, true), 18)
    &&& forall|i: int| 0 <= i < entries.len() ==> registro2_canonical(#[trigger] entries[i])
}

/// A declaration that [`Modelo720::new`] builds is read back from the bytes
/// of its file, where the values it is built from fit their fields.
pub proof fn lemma_built_round_trip(
    ejercicio: int,
    nif: Seq<char>,
    nombre: Seq<char>,
    telefono: int,
    entries: Seq<Registro2View>,
)
    requires
        built_canonical(ejercicio, nif, nombre, telefono, entries),
    ensures
        file_encodable(built(ejercicio, nif, nombre, telefono, entries)),
        file_value(file_bytes(built(ejercicio, nif, nombre, telefono, entries))) == Ok::<
            Modelo720View,
            Modelo720Error,
        >(file_normal(built(ejercicio, nif, nombre, telefono, entries))),
{
    let v = built(ejercicio, nif, nombre, telefono, entries);
    lemma_pow10_values();
    lemma_digits_of_len(1, 1);
    lemma_digits_of_len(720, 3);
    lemma_digits_of_len(7_200_000_000_000, 13);
    assert(registro1_canonical(v.header));
    lemma_file_round_trip(v);
}

/// Where the line that starts at `from` ends.
fn find_line_end(bytes: &[u8], from: usize) -> (end: usize)
    requires
        from <= bytes@.len(),
    ensures
        from <= end <= bytes@.len(),
        end - from == line_end(bytes@.subrange(from as int, bytes@.len() as int)),
{
    let n: usize = bytes.len();
    let mut i: usize = from;
    while i < n && bytes[i] != NEWLINE
        invariant
            from <= i <= n == bytes@.len(),
            forall|k: int| from <= k < i ==> #[trigger] bytes@[k] != 10,
        decreases n - i,
    {
        i = i + 1;
    }
    proof {
        let s = bytes@.subrange(from as int, n as int);
        assert forall|k: int| 0 <= k < i - from implies #[trigger] s[k] != 10 by {
            assert(s[k] == bytes@[k + from]);
        }
        lemma_line_end_at(s, i - from);
    }
    i
}

/// The sum of one valuation over the records, in cents, where the running
/// total stays in range.
fn column_sum(entries: &Vec<Registro2Modelo720>, second: bool) -> (r: Option<i128>)
    ensures
        r is Some <==> totals_in_range(entries_view(entries@), second),
        r matches Some(t) ==> t == column_total(entries_view(entries@), second) && -MAX_MANTISSA
            <= t <= MAX_MANTISSA,
{
    let ghost all = entries_view(entries@);
    let n: usize = entries.len();
    let mut total: i128 = 0;
    let mut i: usize = 0;
    proof {
        assert(all.subrange(0, 0) =~= Seq::<Registro2View>::empty());
    }
    while i < n
        invariant
            i <= n == entries@.len(),
            all == entries_view(entries@),
            total == column_total(all.subrange(0, i as int), second),
            -MAX_MANTISSA <= total <= MAX_MANTISSA,
            forall|k: int|
                0 <= k <= i ==> -MAX_MANTISSA <= #[trigger] column_total(all.subrange(0, k), second)
                    <= MAX_MANTISSA,
        decreases n - i,
    {
        let cents: i128 = if second {
            entries[i].valoracion2.cents()
        } else {
            entries[i].valoracion1.cents()
        };
        proof {
            let next = all.subrange(0, i + 1);
            assert(next.drop_last() =~= all.subrange(0, i as int));
            assert(next.last() == entries@[i as int]@);
        }
        let next: i128 = total + cents;
        if next < -MAX_MANTISSA || next > MAX_MANTISSA {
            proof {
                assert(column_total(all.subrange(0, i + 1), second) == next);
            }
            return None;
        }
        total = next;
        i = i + 1;
    }
    proof {
        assert(all.subrange(0, n as int) =~= all);
    }
    Some(total)
}

impl Modelo720 {
    /// The declaration of a declarant with these detail records: a fresh
    /// header that counts them and holds the total of each valuation, every
    /// valuation rounded to cents before it is added. There is none where a
    /// running total leaves the range of a decimal.
    pub fn new(
        ejercicio: i16,
        nif: &str,
        nombre: &str,
        telefono: i64,
        entries: Vec<Registro2Modelo720>,
    ) -> (r: Result<Modelo720, Modelo720Error>)
        ensures
            r is Ok <==> totals_in_range(entries_view(entries@), false) && totals_in_range(
                entries_view(entries@),
                true,
            ),
            r matches Ok(m) ==> m@ == built(
                ejercicio as int,
                nif@,
                nombre@,
                telefono as int,
                entries_view(entries@),
            ),
            r matches Err(e) ==> e == Modelo720Error::Overflow,
    {
        let total1: i128 = match column_sum(&entries, false) {
            Some(t) => t,
            None => {
                return Err(Modelo720Error::Overflow);
            },
        };
        let total2: i128 = match column_sum(&entries, true) {
            Some(t) => t,
            None => {
                return Err(Modelo720Error::Overflow);
            },
        };
        let sum1: Decimal = match Decimal::new(total1, 2) {
            Some(d) => d,
            None => {
                return Err(Modelo720Error::Overflow);
            },
        };
        let sum2: Decimal = match Decimal::new(total2, 2) {
            Some(d) => d,
            None => {
                return Err(Modelo720Error::Overflow);
            },
        };
        let mut header: Registro1Modelo720 = Registro1Modelo720::new(
            ejercicio,
            nif.to_owned(),
            nombre.to_owned(),
            telefono,
        );
        header.numero_registros_tipo2 = entries.len();
        header.suma_valoracion1 = Modelo720Number::new(sum1);
        header.suma_valoracion2 = Modelo720Number::new(sum2);
        Ok(Modelo720 { header, entries })
    }

    /// Puts the records of `other` after those of `self`, and adds the count
    /// and the totals of its header to those of the header of `self`. The
    /// totals are added as they stand: nothing is summed again from the
    /// records. Where a sum leaves its range, `self` stays as it was.
    pub fn concat(&mut self, other: Modelo720) -> (r: Result<(), Modelo720Error>)
        ensures
            r is Ok <==> can_concat(old(self)@, other@),
            r is Ok ==> final(self)@ == concatenated(old(self)@, other@),
            r matches Err(e) ==> e == Modelo720Error::Overflow && *final(self) == *old(self),
    {
        let mut other = other;
        let count: usize = match self.header.numero_registros_tipo2.checked_add(
            other.header.numero_registros_tipo2,
        ) {
            Some(c) => c,
            None => {
                return Err(Modelo720Error::Overflow);
            },
        };
        let a1: Decimal = self.header.suma_valoracion1.value();
        let b1: Decimal = other.header.suma_valoracion1.value();
        let a2: Decimal = self.header.suma_valoracion2.value();
        let b2: Decimal = other.header.suma_valoracion2.value();
        let sum1: Decimal = match a1.checked_add(b1) {
            Some(d) => d,
            None => {
                return Err(Modelo720Error::Overflow);
            },
        };
        let sum2: Decimal = match a2.checked_add(b2) {
            Some(d) => d,
            None => {
                return Err(Modelo720Error::Overflow);
            },
        };
        let ghost before = self.entries@;
        let ghost added = other.entries@;
        self.header.numero_registros_tipo2 = count;
        self.header.suma_valoracion1 = Modelo720Number::new(sum1);
        self.header.suma_valoracion2 = Modelo720Number::new(sum2);
        self.entries.append(&mut other.entries);
        proof {
            assert(entries_view(before + added) =~= entries_view(before) + entries_view(added));
        }
        Ok(())
    }

    /// The bytes of the file of the declaration. A declaration with an amount
    /// too large for its field has none.
    pub fn encode(&self) -> (r: Result<Vec<u8>, Modelo720Error>)
        ensures
            r is Ok <==> file_encodable(self@),
            r matches Ok(bytes) ==> bytes@ == file_bytes(self@),
            r matches Err(e) ==> e == Modelo720Error::Overflow,
    {
        let ghost all = entries_view(self.entries@);
        let mut out: Vec<u8> = Vec::new();
        match self.header.encode() {
            Ok(line) => push_all(&mut out, line.as_slice()),
            Err(e) => {
                return Err(e);
            },
        }
        out.push(NEWLINE);
        let n: usize = self.entries.len();
        let mut i: usize = 0;
        proof {
            assert(all.subrange(0, 0) =~= Seq::<Registro2View>::empty());
            assert(out@ =~= registro1_line(self@.header) + seq![10u8] + detail_lines(
                all.subrange(0, 0),
            ));
        }
        while i < n
            invariant
                i <= n == self.entries@.len(),
                all == entries_view(self.entries@),
                out@ == registro1_line(self@.header) + seq![10u8] + detail_lines(
                    all.subrange(0, i as int),
                ),
                forall|k: int| 0 <= k < i ==> registro2_encodable(#[trigger] all[k]),
                registro1_encodable(self@.header),
            decreases n - i,
        {
            proof {
                let next = all.subrange(0, i + 1);
                assert(next.drop_last() =~= all.subrange(0, i as int));
                assert(next.last() == all[i as int]);
            }
            let ghost before = out@;
            match self.entries[i].encode() {
                Ok(line) => push_all(&mut out, line.as_slice()),
                Err(e) => {
                    proof {
                        assert(self@.entries[i as int] == all[i as int]);
                        assert(!registro2_encodable(self@.entries[i as int]));
                    }
                    return Err(e);
                },
            }
            out.push(NEWLINE);
            proof {
                assert(out@ =~= registro1_line(self@.header) + seq![10u8] + detail_lines(
                    all.subrange(0, i + 1),
                ));
            }
            i = i + 1;
        }
        proof {
            assert(all.subrange(0, n as int) =~= all);
        }
        Ok(out)
    }

    /// The declaration that the bytes of a file stand for. The first line
    /// that stands for no record decides the error: `TruncatedRecord` where
    /// it is not 500 bytes wide, `MalformedField` otherwise.
    pub fn decode(bytes: &[u8]) -> (r: Result<Modelo720, Modelo720Error>)
        ensures
            r matches Ok(m) ==> Ok::<Modelo720View, Modelo720Error>(m@) == file_value(bytes@),
            r matches Err(e) ==> Err::<Modelo720View, Modelo720Error>(e) == file_value(bytes@),
    {
        let n: usize = bytes.len();
        proof {
            assert(bytes@.subrange(0, n as int) =~= bytes@);
        }
        let end: usize = find_line_end(bytes, 0);
        let header: Registro1Modelo720 = match Registro1Modelo720::decode(
            copy_range(bytes, 0, end).as_slice(),
        ) {
            Ok(h) => h,
            Err(e) => {
                return Err(e);
            },
        };
        let mut pos: usize = if end < n { end + 1 } else { n };
        let ghost rest = after_line(bytes@);
        proof {
            assert(rest =~= bytes@.subrange(pos as int, n as int));
        }
        let mut entries: Vec<Registro2Modelo720> = Vec::new();
        proof {
            assert(entries_view(entries@) =~= Seq::<Registro2View>::empty());
            lemma_after_found_nothing(details_value(rest));
        }
        while pos < n
            invariant
                pos <= n == bytes@.len(),
                rest == after_line(bytes@),
                registro1_value(bytes@.subrange(0, line_end(bytes@))) == Some(header@),
                details_value(rest) == after_found(
                    entries_view(entries@),
                    details_value(bytes@.subrange(pos as int, n as int)),
                ),
            decreases n - pos,
        {
            let ghost s = bytes@.subrange(pos as int, n as int);
            let stop: usize = find_line_end(bytes, pos);
            let next: usize = if stop < n { stop + 1 } else { n };
            proof {
                assert(s.subrange(0, stop - pos) =~= bytes@.subrange(pos as int, stop as int));
                assert(after_line(s) =~= bytes@.subrange(next as int, n as int));
            }
            if stop > pos {
                let ghost found = entries_view(entries@);
                match Registro2Modelo720::decode(copy_range(bytes, pos, stop).as_slice()) {
                    Ok(record) => {
                        entries.push(record);
                        proof {
                            assert(entries_view(entries@) =~= found + seq![record@]);
                            lemma_after_found_twice(
                                found,
                                seq![record@],
                                details_value(after_line(s)),
                            );
                        }
                    },
                    Err(e) => {
                        proof {
                            assert(s.len() > 0);
                            assert(s.subrange(0, line_end(s)).len() > 0);
                            assert(details_value(s) == Err::<Seq<Registro2View>, Modelo720Error>(
                                e,
                            ));
                        }
                        return Err(e);
                    },
                }
            }
            pos = next;
        }
        proof {
            assert(bytes@.subrange(n as int, n as int) =~= Seq::<u8>::empty());
            assert(entries_view(entries@) + Seq::<Registro2View>::empty() =~= entries_view(
                entries@,
            ));
        }
        Ok(Modelo720 { header, entries })
    }
}

/// Nothing found before a result leaves the result as it is.
pub proof fn lemma_after_found_nothing(rest: Result<Seq<Registro2View>, Modelo720Error>)
    ensures
        after_found(Seq::<Registro2View>::empty(), rest) == rest,
{
    match rest {
        Ok(more) => {
            assert(Seq::<Registro2View>::empty() + more =~= more);
        },
        Err(_) => {},
    }
}

/// Records found in two steps come before the rest as if found in one.
pub proof fn lemma_after_found_twice(
    a: Seq<Registro2View>,
    b: Seq<Registro2View>,
    rest: Result<Seq<Registro2View>, Modelo720Error>,
)
    ensures
        after_found(a, after_found(b, rest)) == after_found(a + b, rest),
{
    match rest {
        Ok(more) => {
            assert(a + (b + more) =~= (a + b) + more);
        },
        Err(_) => {},
    }
}

} // verus!
