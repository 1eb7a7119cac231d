//! The header record of a declaration and its line of 500 bytes.

use vstd::prelude::*;
use crate::decimal::{cents_of, DecimalView};
use crate::error::Modelo720Error;
use crate::field::{
    blank_field, char_canonical, char_field, char_value, int_canonical, int_field,
    int_field_value, lemma_blank_field, lemma_char_round_trip, lemma_int_round_trip,
    lemma_no_newline_add, lemma_opt_char_round_trip, lemma_opt_int_round_trip,
    lemma_split_last, lemma_text_round_trip, no_newline, opt_char_canonical, opt_char_field,
    opt_char_value, opt_int_canonical, opt_int_field, opt_int_field_value, option_i64,
    push_all, push_blank, push_char, push_int, push_opt_char, push_text, read_char, read_int,
    read_opt_char, read_opt_int, read_text, text_canonical, text_field, text_value,
    RECORD_WIDTH,
};
use crate::number::{
    amount_canonical, amount_decimal, amount_field, amount_fits, lemma_amount_canonical,
    Modelo720Number,
};
use crate::text::{copy_range, SPACE, ZERO};

verus! {

/// The content of a [`Registro1Modelo720`].
pub struct Registro1View {
    pub tipo: int,
    pub modelo_declaracion: int,
    pub ejercicio: int,
    pub nif_declarante: Seq<char>,
    pub nombre: Seq<char>,
    pub tipo_soporte: char,
    pub telefono: int,
    pub nombre_persona_contacto: Seq<char>,
    pub id_declaracion: int,
    pub declaracion_complementaria: Option<char>,
    pub declaracion_sustitutiva: Option<char>,
    pub id_declaracion_anterior: Option<int>,
    pub numero_registros_tipo2: int,
    pub suma_valoracion1: DecimalView,
    pub suma_valoracion2: DecimalView,
}

/// The header record of a declaration.
#[derive(Clone, Debug)]
pub struct Registro1Modelo720 {
    /// The kind of record: 1 for the header. Bytes 0..1 of the line.
    pub tipo: i8,
    /// The number of the form: 720. Bytes 1..4 of the line.
    pub modelo_declaracion: i16,
    /// The fiscal year. Bytes 4..8 of the line.
    pub ejercicio: i16,
    /// The tax identifier of the declarant. Bytes 8..17 of the line.
    pub nif_declarante: String,
    /// The name of the declarant. Bytes 17..57 of the line.
    pub nombre: String,
    /// The medium of the declaration. Bytes 57..58 of the line.
    pub tipo_soporte: char,
    /// The telephone number of the contact person. Bytes 58..67 of the line.
    pub telefono: i64,
    /// The name of the contact person. Bytes 67..107 of the line.
    pub nombre_persona_contacto: String,
    /// The number that identifies the declaration. Bytes 107..120 of the line.
    pub id_declaracion: i64,
    /// Whether the declaration adds to an earlier one. Bytes 120..121 of the line.
    pub declaracion_complementaria: Option<char>,
    /// Whether the declaration replaces an earlier one. Bytes 121..122 of the line.
    pub declaracion_sustitutiva: Option<char>,
    /// The number of the earlier declaration. Bytes 122..135 of the line.
    pub id_declaracion_anterior: Option<i64>,
    /// The number of detail records. Bytes 135..144 of the line.
    pub numero_registros_tipo2: usize,
    /// The total of the first valuations. Bytes 144..162 of the line.
    pub suma_valoracion1: Modelo720Number<18>,
    /// The total of the second valuations. Bytes 162..180 of the line.
    pub suma_valoracion2: Modelo720Number<18>,
}

impl View for Registro1Modelo720 {
    type V = Registro1View;

    open spec fn view(&self) -> Registro1View {
        Registro1View {
            tipo: self.tipo as int,
            modelo_declaracion: self.modelo_declaracion as int,
            ejercicio: self.ejercicio as int,
            nif_declarante: self.nif_declarante@,
            nombre: self.nombre@,
            tipo_soporte: self.tipo_soporte,
            telefono: self.telefono as int,
            nombre_persona_contacto: self.nombre_persona_contacto@,
            id_declaracion: self.id_declaracion as int,
            declaracion_complementaria: self.declaracion_complementaria,
            declaracion_sustitutiva: self.declaracion_sustitutiva,
            id_declaracion_anterior: option_i64(self.id_declaracion_anterior),
            numero_registros_tipo2: self.numero_registros_tipo2 as int,
            suma_valoracion1: self.suma_valoracion1@,
            suma_valoracion2: self.suma_valoracion2@,
        }
    }
}

/// The record that [`Registro1Modelo720::new`] makes: the header of a
/// declaration without detail records.
pub open spec fn registro1_baseline(
    ejercicio: int,
    nif: Seq<char>,
    nombre: Seq<char>,
    telefono: int,
) -> Registro1View {
    Registro1View {
        tipo: 1,
        modelo_declaracion: 720,
        ejercicio,
        nif_declarante: nif,
        nombre,
        tipo_soporte: 'T',
        telefono,
        nombre_persona_contacto: nombre,
        id_declaracion: 7_200_000_000_000,
        declaracion_complementaria: None,
        declaracion_sustitutiva: None,
        id_declaracion_anterior: None,
        numero_registros_tipo2: 0,
        suma_valoracion1: DecimalView { mantissa: 0, scale: 0 },
        suma_valoracion2: DecimalView { mantissa: 0, scale: 0 },
    }
}

/// Whether every amount of the record fits the field that should hold it.
pub open spec fn registro1_encodable(v: Registro1View) -> bool {
    &&& amount_fits(cents_of(v.suma_valoracion1), 18)
    &&& amount_fits(cents_of(v.suma_valoracion2), 18)
}

/// The 500 bytes of the line that stands for the record: its fields one after
/// the other, and blanks up to the end of the line.
#[verifier::opaque]
pub open spec fn registro1_line(v: Registro1View) -> Seq<u8> {
    int_field(v.tipo, 1, 32, false)
        + int_field(v.modelo_declaracion, 3, 32, false)
        + int_field(v.ejercicio, 4, 32, false)
        + text_field(v.nif_declarante, 9)
        + text_field(v.nombre, 40)
        + char_field(v.tipo_soporte)
        + int_field(v.telefono, 9, 32, false)
        + text_field(v.nombre_persona_contacto, 40)
        + int_field(v.id_declaracion, 13, 48, true)
        + opt_char_field(v.declaracion_complementaria)
        + opt_char_field(v.declaracion_sustitutiva)
        + opt_int_field(v.id_declaracion_anterior, 13, 48, true)
        + int_field(v.numero_registros_tipo2, 9, 48, true)
        + amount_field(cents_of(v.suma_valoracion1), 18)
        + amount_field(cents_of(v.suma_valoracion2), 18)
        + blank_field(320)
}

/// Whether every field of the line holds a value of its kind.
#[verifier::opaque]
pub open spec fn registro1_fields_ok(line: Seq<u8>) -> bool {
    &&& int_field_value(line.subrange(0, 1), true, i8::MIN as int, i8::MAX as int) is Some
    &&& int_field_value(line.subrange(1, 4), true, i16::MIN as int, i16::MAX as int) is Some
    &&& int_field_value(line.subrange(4, 8), true, i16::MIN as int, i16::MAX as int) is Some
    &&& text_value(line.subrange(8, 17)) is Some
    &&& text_value(line.subrange(17, 57)) is Some
    &&& char_value(line.subrange(57, 58)) is Some
    &&& int_field_value(line.subrange(58, 67), true, i64::MIN as int, i64::MAX as int) is Some
    &&& text_value(line.subrange(67, 107)) is Some
    &&& int_field_value(line.subrange(107, 120), true, i64::MIN as int, i64::MAX as int) is Some
    &&& opt_char_value(line.subrange(120, 121)) is Some
    &&& opt_char_value(line.subrange(121, 122)) is Some
    &&& opt_int_field_value(line.subrange(122, 135), true, i64::MIN as int, i64::MAX as int) is Some
    &&& int_field_value(
        line.subrange(135, 144),
        false,
        usize::MIN as int,
        usize::MAX as int,
    ) is Some
    &&& amount_decimal(line.subrange(144, 162), 18) is Some
    &&& amount_decimal(line.subrange(162, 180), 18) is Some
}

/// The record that the fields of the line hold.
#[verifier::opaque]
pub open spec fn registro1_fields(line: Seq<u8>) -> Registro1View {
    Registro1View {
        tipo: int_field_value(line.subrange(0, 1), true, i8::MIN as int, i8::MAX as int)->0,
        modelo_declaracion: int_field_value(
            line.subrange(1, 4),
            true,
            i16::MIN as int,
            i16::MAX as int,
        )->0,
        ejercicio: int_field_value(line.subrange(4, 8), true, i16::MIN as int, i16::MAX as int)->0,
        nif_declarante: text_value(line.subrange(8, 17))->0,
        nombre: text_value(line.subrange(17, 57))->0,
        tipo_soporte: char_value(line.subrange(57, 58))->0,
        telefono: int_field_value(line.subrange(58, 67), true, i64::MIN as int, i64::MAX as int)->0,
        nombre_persona_contacto: text_value(line.subrange(67, 107))->0,
        id_declaracion: int_field_value(
            line.subrange(107, 120),
            true,
            i64::MIN as int,
            i64::MAX as int,
        )->0,
        declaracion_complementaria: opt_char_value(line.subrange(120, 121))->0,
        declaracion_sustitutiva: opt_char_value(line.subrange(121, 122))->0,
        id_declaracion_anterior: opt_int_field_value(
            line.subrange(122, 135),
            true,
            i64::MIN as int,
            i64::MAX as int,
        )->0,
        numero_registros_tipo2: int_field_value(
            line.subrange(135, 144),
            false,
            usize::MIN as int,
            usize::MAX as int,
        )->0,
        suma_valoracion1: amount_decimal(line.subrange(144, 162), 18)->0,
        suma_valoracion2: amount_decimal(line.subrange(162, 180), 18)->0,
    }
}

/// The record that a line of 500 bytes stands for, where each of its fields
/// holds a value of its kind. What follows the last field is not looked at.
pub open spec fn registro1_value(line: Seq<u8>) -> Option<Registro1View> {
    if line.len() == RECORD_WIDTH && registro1_fields_ok(line) {
        Some(registro1_fields(line))
    } else {
        None
    }
}

/// Whether every field of the record is read back as it was written.
pub open spec fn registro1_canonical(v: Registro1View) -> bool {
    &&& int_canonical(v.tipo, 1, 32, i8::MIN as int, i8::MAX as int)
    &&& int_canonical(v.modelo_declaracion, 3, 32, i16::MIN as int, i16::MAX as int)
    &&& int_canonical(v.ejercicio, 4, 32, i16::MIN as int, i16::MAX as int)
    &&& text_canonical(v.nif_declarante, 9)
    &&& text_canonical(v.nombre, 40)
    &&& char_canonical(v.tipo_soporte)
    &&& int_canonical(v.telefono, 9, 32, i64::MIN as int, i64::MAX as int)
    &&& text_canonical(v.nombre_persona_contacto, 40)
    &&& int_canonical(v.id_declaracion, 13, 48, i64::MIN as int, i64::MAX as int)
    &&& opt_char_canonical(v.declaracion_complementaria)
    &&& opt_char_canonical(v.declaracion_sustitutiva)
    &&& opt_int_canonical(v.id_declaracion_anterior, 13, 48, i64::MIN as int, i64::MAX as int)
    &&& int_canonical(v.numero_registros_tipo2, 9, 48, usize::MIN as int, usize::MAX as int)
    &&& amount_canonical(v.suma_valoracion1, 18)
    &&& amount_canonical(v.suma_valoracion2, 18)
}

/// Where each field stands in the line of a record whose fields have the
/// widths of the layout.
proof fn lemma_registro1_layout(v: Registro1View)
    requires
        int_field(v.tipo, 1, 32, false).len() == 1,
        int_field(v.modelo_declaracion, 3, 32, false).len() == 3,
        int_field(v.ejercicio, 4, 32, false).len() == 4,
        text_field(v.nif_declarante, 9).len() == 9,
        text_field(v.nombre, 40).len() == 40,
        char_field(v.tipo_soporte).len() == 1,
        int_field(v.telefono, 9, 32, false).len() == 9,
        text_field(v.nombre_persona_contacto, 40).len() == 40,
        int_field(v.id_declaracion, 13, 48, true).len() == 13,
        opt_char_field(v.declaracion_complementaria).len() == 1,
        opt_char_field(v.declaracion_sustitutiva).len() == 1,
        opt_int_field(v.id_declaracion_anterior, 13, 48, true).len() == 13,
        int_field(v.numero_registros_tipo2, 9, 48, true).len() == 9,
        amount_field(cents_of(v.suma_valoracion1), 18).len() == 18,
        amount_field(cents_of(v.suma_valoracion2), 18).len() == 18,
        blank_field(320).len() == 320,
    ensures
        registro1_line(v).len() == RECORD_WIDTH,
        registro1_line(v).subrange(0, 1) == int_field(v.tipo, 1, 32, false),
        registro1_line(v).subrange(1, 4) == int_field(v.modelo_declaracion, 3, 32, false),
        registro1_line(v).subrange(4, 8) == int_field(v.ejercicio, 4, 32, false),
        registro1_line(v).subrange(8, 17) == text_field(v.nif_declarante, 9),
        registro1_line(v).subrange(17, 57) == text_field(v.nombre, 40),
        registro1_line(v).subrange(57, 58) == char_field(v.tipo_soporte),
        registro1_line(v).subrange(58, 67) == int_field(v.telefono, 9, 32, false),
        registro1_line(v).subrange(67, 107) == text_field(v.nombre_persona_contacto, 40),
        registro1_line(v).subrange(107, 120) == int_field(v.id_declaracion, 13, 48, true),
        registro1_line(v).subrange(120, 121) == opt_char_field(v.declaracion_complementaria),
        registro1_line(v).subrange(121, 122) == opt_char_field(v.declaracion_sustitutiva),
        registro1_line(v).subrange(122, 135) == opt_int_field(
            v.id_declaracion_anterior,
            13,
            48,
            true,
        ),
        registro1_line(v).subrange(135, 144) == int_field(v.numero_registros_tipo2, 9, 48, true),
        registro1_line(v).subrange(144, 162) == amount_field(cents_of(v.suma_valoracion1), 18),
        registro1_line(v).subrange(162, 180) == amount_field(cents_of(v.suma_valoracion2), 18),
{
    reveal(registro1_line);
    let line = registro1_line(v);
    let upto0 = int_field(v.tipo, 1, 32, false);
    let upto1 = upto0 + int_field(v.modelo_declaracion, 3, 32, false);
    let upto2 = upto1 + int_field(v.ejercicio, 4, 32, false);
    let upto3 = upto2 + text_field(v.nif_declarante, 9);
    let upto4 = upto3 + text_field(v.nombre, 40);
    let upto5 = upto4 + char_field(v.tipo_soporte);
    let upto6 = upto5 + int_field(v.telefono, 9, 32, false);
    let upto7 = upto6 + text_field(v.nombre_persona_contacto, 40);
    let upto8 = upto7 + int_field(v.id_declaracion, 13, 48, true);
    let upto9 = upto8 + opt_char_field(v.declaracion_complementaria);
    let upto10 = upto9 + opt_char_field(v.declaracion_sustitutiva);
    let upto11 = upto10 + opt_int_field(v.id_declaracion_anterior, 13, 48, true);
    let upto12 = upto11 + int_field(v.numero_registros_tipo2, 9, 48, true);
    let upto13 = upto12 + amount_field(cents_of(v.suma_valoracion1), 18);
    let upto14 = upto13 + amount_field(cents_of(v.suma_valoracion2), 18);
    let upto15 = upto14 + blank_field(320);
    assert(line == upto15);
    assert(upto0.len() == 1);
    assert(upto1.len() == 4);
    assert(upto2.len() == 8);
    assert(upto3.len() == 17);
    assert(upto4.len() == 57);
    assert(upto5.len() == 58);
    assert(upto6.len() == 67);
    assert(upto7.len() == 107);
    assert(upto8.len() == 120);
    assert(upto9.len() == 121);
    assert(upto10.len() == 122);
    assert(upto11.len() == 135);
    assert(upto12.len() == 144);
    assert(upto13.len() == 162);
    assert(upto14.len() == 180);
    assert(upto15.len() == 500);
    assert(line.subrange(0, 500) =~= upto15);
    lemma_split_last(line, 500, upto14, blank_field(320));
    lemma_split_last(line, 180, upto13, amount_field(cents_of(v.suma_valoracion2), 18));
    lemma_split_last(line, 162, upto12, amount_field(cents_of(v.suma_valoracion1), 18));
    lemma_split_last(line, 144, upto11, int_field(v.numero_registros_tipo2, 9, 48, true));
    lemma_split_last(line, 135, upto10, opt_int_field(v.id_declaracion_anterior, 13, 48, true));
    lemma_split_last(line, 122, upto9, opt_char_field(v.declaracion_sustitutiva));
    lemma_split_last(line, 121, upto8, opt_char_field(v.declaracion_complementaria));
    lemma_split_last(line, 120, upto7, int_field(v.id_declaracion, 13, 48, true));
    lemma_split_last(line, 107, upto6, text_field(v.nombre_persona_contacto, 40));
    lemma_split_last(line, 67, upto5, int_field(v.telefono, 9, 32, false));
    lemma_split_last(line, 58, upto4, char_field(v.tipo_soporte));
    lemma_split_last(line, 57, upto3, text_field(v.nombre, 40));
    lemma_split_last(line, 17, upto2, text_field(v.nif_declarante, 9));
    lemma_split_last(line, 8, upto1, int_field(v.ejercicio, 4, 32, false));
    lemma_split_last(line, 4, upto0, int_field(v.modelo_declaracion, 3, 32, false));
}

/// The line of a record holds no newline where none of its fields does.
proof fn lemma_registro1_no_newline(v: Registro1View)
    requires
        no_newline(int_field(v.tipo, 1, 32, false)),
        no_newline(int_field(v.modelo_declaracion, 3, 32, false)),
        no_newline(int_field(v.ejercicio, 4, 32, false)),
        no_newline(text_field(v.nif_declarante, 9)),
        no_newline(text_field(v.nombre, 40)),
        no_newline(char_field(v.tipo_soporte)),
        no_newline(int_field(v.telefono, 9, 32, false)),
        no_newline(text_field(v.nombre_persona_contacto, 40)),
        no_newline(int_field(v.id_declaracion, 13, 48, true)),
        no_newline(opt_char_field(v.declaracion_complementaria)),
        no_newline(opt_char_field(v.declaracion_sustitutiva)),
        no_newline(opt_int_field(v.id_declaracion_anterior, 13, 48, true)),
        no_newline(int_field(v.numero_registros_tipo2, 9, 48, true)),
        no_newline(amount_field(cents_of(v.suma_valoracion1), 18)),
        no_newline(amount_field(cents_of(v.suma_valoracion2), 18)),
        no_newline(blank_field(320)),
    ensures
        no_newline(registro1_line(v)),
{
    reveal(registro1_line);
    let upto0 = int_field(v.tipo, 1, 32, false);
    let upto1 = upto0 + int_field(v.modelo_declaracion, 3, 32, false);
    lemma_no_newline_add(upto0, int_field(v.modelo_declaracion, 3, 32, false));
    let upto2 = upto1 + int_field(v.ejercicio, 4, 32, false);
    lemma_no_newline_add(upto1, int_field(v.ejercicio, 4, 32, false));
    let upto3 = upto2 + text_field(v.nif_declarante, 9);
    lemma_no_newline_add(upto2, text_field(v.nif_declarante, 9));
    let upto4 = upto3 + text_field(v.nombre, 40);
    lemma_no_newline_add(upto3, text_field(v.nombre, 40));
    let upto5 = upto4 + char_field(v.tipo_soporte);
    lemma_no_newline_add(upto4, char_field(v.tipo_soporte));
    let upto6 = upto5 + int_field(v.telefono, 9, 32, false);
    lemma_no_newline_add(upto5, int_field(v.telefono, 9, 32, false));
    let upto7 = upto6 + text_field(v.nombre_persona_contacto, 40);
    lemma_no_newline_add(upto6, text_field(v.nombre_persona_contacto, 40));
    let upto8 = upto7 + int_field(v.id_declaracion, 13, 48, true);
    lemma_no_newline_add(upto7, int_field(v.id_declaracion, 13, 48, true));
    let upto9 = upto8 + opt_char_field(v.declaracion_complementaria);
    lemma_no_newline_add(upto8, opt_char_field(v.declaracion_complementaria));
    let upto10 = upto9 + opt_char_field(v.declaracion_sustitutiva);
    lemma_no_newline_add(upto9, opt_char_field(v.declaracion_sustitutiva));
    let upto11 = upto10 + opt_int_field(v.id_declaracion_anterior, 13, 48, true);
    lemma_no_newline_add(upto10, opt_int_field(v.id_declaracion_anterior, 13, 48, true));
    let upto12 = upto11 + int_field(v.numero_registros_tipo2, 9, 48, true);
    lemma_no_newline_add(upto11, int_field(v.numero_registros_tipo2, 9, 48, true));
    let upto13 = upto12 + amount_field(cents_of(v.suma_valoracion1), 18);
    lemma_no_newline_add(upto12, amount_field(cents_of(v.suma_valoracion1), 18));
    let upto14 = upto13 + amount_field(cents_of(v.suma_valoracion2), 18);
    lemma_no_newline_add(upto13, amount_field(cents_of(v.suma_valoracion2), 18));
    let upto15 = upto14 + blank_field(320);
    lemma_no_newline_add(upto14, blank_field(320));
}

/// A record whose fields can be read back as they were written is read
/// back from its line: the line is 500
/// bytes wide, holds no newline, and stands for the record.
pub proof fn lemma_registro1_round_trip(v: Registro1View)
    requires
        registro1_canonical(v),
    ensures
        registro1_encodable(v),
        registro1_line(v).len() == RECORD_WIDTH,
        no_newline(registro1_line(v)),
        registro1_value(registro1_line(v)) == Some(v),
{
    lemma_int_round_trip(v.tipo, 1, 32, false, true, i8::MIN as int, i8::MAX as int);
    lemma_int_round_trip(
        v.modelo_declaracion,
        3,
        32,
        false,
        true,
        i16::MIN as int,
        i16::MAX as int,
    );
    lemma_int_round_trip(v.ejercicio, 4, 32, false, true, i16::MIN as int, i16::MAX as int);
    lemma_text_round_trip(v.nif_declarante, 9);
    lemma_text_round_trip(v.nombre, 40);
    lemma_char_round_trip(v.tipo_soporte);
    lemma_int_round_trip(v.telefono, 9, 32, false, true, i64::MIN as int, i64::MAX as int);
    lemma_text_round_trip(v.nombre_persona_contacto, 40);
    lemma_int_round_trip(v.id_declaracion, 13, 48, true, true, i64::MIN as int, i64::MAX as int);
    lemma_opt_char_round_trip(v.declaracion_complementaria);
    lemma_opt_char_round_trip(v.declaracion_sustitutiva);
    lemma_opt_int_round_trip(
        v.id_declaracion_anterior,
        13,
        48,
        true,
        true,
        i64::MIN as int,
        i64::MAX as int,
    );
    lemma_int_round_trip(
        v.numero_registros_tipo2,
        9,
        48,
        true,
        false,
        usize::MIN as int,
        usize::MAX as int,
    );
    lemma_amount_canonical(v.suma_valoracion1, 18);
    lemma_amount_canonical(v.suma_valoracion2, 18);
    lemma_blank_field(320);
    lemma_registro1_layout(v);
    lemma_registro1_no_newline(v);
    reveal(registro1_fields_ok);
    reveal(registro1_fields);
    let line = registro1_line(v);
    assert(registro1_fields_ok(line));
    assert(registro1_fields(line) == v);
}

impl Registro1Modelo720 {
    /// The header of a declaration without detail records: the declarant is
    /// the contact person, and both totals are zero.
    pub fn new(ejercicio: i16, nif: String, nombre: String, telefono: i64) -> (r: Self)
        ensures
            r@ == registro1_baseline(ejercicio as int, nif@, nombre@, telefono as int),
    {
        Registro1Modelo720 {
            tipo: 1,
            modelo_declaracion: 720,
            ejercicio,
            nif_declarante: nif,
            nombre: nombre.clone(),
            tipo_soporte: 'T',
            telefono,
            nombre_persona_contacto: nombre,
            id_declaracion: 7_200_000_000_000,
            declaracion_complementaria: None,
            declaracion_sustitutiva: None,
            id_declaracion_anterior: None,
            numero_registros_tipo2: 0,
            suma_valoracion1: Modelo720Number::zero(),
            suma_valoracion2: Modelo720Number::zero(),
        }
    }

    /// The line of 500 bytes that stands for the record. A record with an
    /// amount too large for its field has none.
    pub fn encode(&self) -> (r: Result<Vec<u8>, Modelo720Error>)
        ensures
            r is Ok <==> registro1_encodable(self@),
            r matches Ok(line) ==> line@ == registro1_line(self@) && line@.len() == RECORD_WIDTH,
            r matches Err(e) ==> e == Modelo720Error::Overflow,
    {
        reveal(registro1_line);
        let mut out: Vec<u8> = Vec::new();
        push_int(&mut out, self.tipo as i128, 1, SPACE, false);
        push_int(&mut out, self.modelo_declaracion as i128, 3, SPACE, false);
        push_int(&mut out, self.ejercicio as i128, 4, SPACE, false);
        push_text(&mut out, self.nif_declarante.as_str(), 9);
        push_text(&mut out, self.nombre.as_str(), 40);
        push_char(&mut out, self.tipo_soporte);
        push_int(&mut out, self.telefono as i128, 9, SPACE, false);
        push_text(&mut out, self.nombre_persona_contacto.as_str(), 40);
        push_int(&mut out, self.id_declaracion as i128, 13, ZERO, true);
        push_opt_char(&mut out, self.declaracion_complementaria);
        push_opt_char(&mut out, self.declaracion_sustitutiva);
        match self.id_declaracion_anterior {
            Some(n) => push_int(&mut out, n as i128, 13, ZERO, true),
            None => push_blank(&mut out, 13),
        }
        push_int(&mut out, self.numero_registros_tipo2 as i128, 9, ZERO, true);
        match self.suma_valoracion1.encode() {
            Ok(bytes) => push_all(&mut out, bytes.as_slice()),
            Err(e) => {
                return Err(e);
            },
        }
        match self.suma_valoracion2.encode() {
            Ok(bytes) => push_all(&mut out, bytes.as_slice()),
            Err(e) => {
                return Err(e);
            },
        }
        push_blank(&mut out, 320);
        assert(out@ =~= registro1_line(self@));
        Ok(out)
    }

    /// The record that a line stands for.
    pub fn decode(line: &[u8]) -> (r: Result<Registro1Modelo720, Modelo720Error>)
        ensures
            r is Ok <==> registro1_value(line@) is Some,
            r matches Ok(record) ==> Some(record@) == registro1_value(line@),
            r matches Err(e) ==> e == (if line@.len() == RECORD_WIDTH {
                Modelo720Error::MalformedField
            } else {
                Modelo720Error::TruncatedRecord
            }),
    {
        reveal(registro1_fields_ok);
        reveal(registro1_fields);
        if line.len() != RECORD_WIDTH {
            return Err(Modelo720Error::TruncatedRecord);
        }
        let field: Vec<u8> = copy_range(line, 0, 1);
        let tipo: i8 = match read_int(field.as_slice(), true, i8::MIN as i128, i8::MAX as i128) {
            Some(n) => n as i8,
            None => {
                return Err(Modelo720Error::MalformedField);
            },
        };
        let field: Vec<u8> = copy_range(line, 1, 4);
        let modelo_declaracion: i16 = match read_int(
            field.as_slice(),
            true,
            i16::MIN as i128,
            i16::MAX as i128,
        ) {
            Some(n) => n as i16,
            None => {
                return Err(Modelo720Error::MalformedField);
            },
        };
        let field: Vec<u8> = copy_range(line, 4, 8);
        let ejercicio: i16 = match read_int(
            field.as_slice(),
            true,
            i16::MIN as i128,
            i16::MAX as i128,
        ) {
            Some(n) => n as i16,
            None => {
                return Err(Modelo720Error::MalformedField);
            },
        };
        let field: Vec<u8> = copy_range(line, 8, 17);
        let nif_declarante: String = match read_text(field.as_slice()) {
            Some(x) => x,
            None => {
                return Err(Modelo720Error::MalformedField);
            },
        };
        let field: Vec<u8> = copy_range(line, 17, 57);
        let nombre: String = match read_text(field.as_slice()) {
            Some(x) => x,
            None => {
                return Err(Modelo720Error::MalformedField);
            },
        };
        let field: Vec<u8> = copy_range(line, 57, 58);
        let tipo_soporte: char = match read_char(field.as_slice()) {
            Some(x) => x,
            None => {
                return Err(Modelo720Error::MalformedField);
            },
        };
        let field: Vec<u8> = copy_range(line, 58, 67);
        let telefono: i64 = match read_int(
            field.as_slice(),
            true,
            i64::MIN as i128,
            i64::MAX as i128,
        ) {
            Some(n) => n as i64,
            None => {
                return Err(Modelo720Error::MalformedField);
            },
        };
        let field: Vec<u8> = copy_range(line, 67, 107);
        let nombre_persona_contacto: String = match read_text(field.as_slice()) {
            Some(x) => x,
            None => {
                return Err(Modelo720Error::MalformedField);
            },
        };
        let field: Vec<u8> = copy_range(line, 107, 120);
        let id_declaracion: i64 = match read_int(
            field.as_slice(),
            true,
            i64::MIN as i128,
            i64::MAX as i128,
        ) {
            Some(n) => n as i64,
            None => {
                return Err(Modelo720Error::MalformedField);
            },
        };
        let field: Vec<u8> = copy_range(line, 120, 121);
        let declaracion_complementaria: Option<char> = match read_opt_char(field.as_slice()) {
            Some(x) => x,
            None => {
                return Err(Modelo720Error::MalformedField);
            },
        };
        let field: Vec<u8> = copy_range(line, 121, 122);
        let declaracion_sustitutiva: Option<char> = match read_opt_char(field.as_slice()) {
            Some(x) => x,
            None => {
                return Err(Modelo720Error::MalformedField);
            },
        };
        let field: Vec<u8> = copy_range(line, 122, 135);
        let id_declaracion_anterior: Option<i64> = match read_opt_int(
            field.as_slice(),
            true,
            i64::MIN as i128,
            i64::MAX as i128,
        ) {
            Some(Some(n)) => Some(n as i64),
            Some(None) => None,
            None => {
                return Err(Modelo720Error::MalformedField);
            },
        };
        let field: Vec<u8> = copy_range(line, 135, 144);
        let numero_registros_tipo2: usize = match read_int(
            field.as_slice(),
            false,
            usize::MIN as i128,
            usize::MAX as i128,
        ) {
            Some(n) => n as usize,
            None => {
                return Err(Modelo720Error::MalformedField);
            },
        };
        let field: Vec<u8> = copy_range(line, 144, 162);
        let suma_valoracion1: Modelo720Number<18> = match Modelo720Number::<18>::decode(
            field.as_slice(),
        ) {
            Ok(x) => x,
            Err(_) => {
                return Err(Modelo720Error::MalformedField);
            },
        };
        let field: Vec<u8> = copy_range(line, 162, 180);
        let suma_valoracion2: Modelo720Number<18> = match Modelo720Number::<18>::decode(
            field.as_slice(),
        ) {
            Ok(x) => x,
            Err(_) => {
                return Err(Modelo720Error::MalformedField);
            },
        };
        Ok(
            Registro1Modelo720 {
                tipo,
                modelo_declaracion,
                ejercicio,
                nif_declarante,
                nombre,
                tipo_soporte,
                telefono,
                nombre_persona_contacto,
                id_declaracion,
                declaracion_complementaria,
                declaracion_sustitutiva,
                id_declaracion_anterior,
                numero_registros_tipo2,
                suma_valoracion1,
                suma_valoracion2,
            },
        )
    }
}

} // verus!
