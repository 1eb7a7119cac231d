//! The detail record of a declaration and its line of 500 bytes.

use vstd::prelude::*;
use crate::date::{
    date_field, date_value, is_record_date, lemma_date_round_trip, DateView, Modelo720Date,
};
use crate::decimal::{cents_of, DecimalView};
use crate::error::Modelo720Error;
use crate::field::{
    blank_field, int_canonical, int_field, int_field_value, lemma_blank_field,
    lemma_int_round_trip, lemma_no_newline_add, lemma_opt_char_round_trip,
    lemma_opt_int_round_trip, lemma_opt_text_round_trip, lemma_split_last,
    lemma_text_round_trip, no_newline, opt_char_canonical, opt_char_field, opt_char_value,
    opt_int_canonical, opt_int_field, opt_int_field_value, opt_text_canonical, opt_text_field,
    opt_text_value, option_chars, option_i8, push_all, push_blank, push_int, push_opt_char,
    push_opt_text, push_text, read_int, read_opt_char, read_opt_int, read_opt_text, read_text,
    text_canonical, text_field, text_value, RECORD_WIDTH,
};
use crate::number::{
    amount_canonical, amount_decimal, amount_field, amount_fits, lemma_amount_canonical,
    lemma_opt_shares_round_trip, opt_shares_canonical, opt_shares_field, opt_shares_value,
    option_shares, read_opt_shares, shares_fit, Modelo720Number, Shares,
};
use crate::text::{copy_range, SPACE, ZERO};
use crate::titularidad::{
    lemma_titularidad_round_trip, titularidad_canonical, titularidad_field, titularidad_normal,
    titularidad_value, Modelo720Titularidad, TitularidadView,
};

verus! {

/// The content of a [`Registro2Modelo720`].
pub struct Registro2View {
    pub tipo: int,
    pub modelo_declaracion: int,
    pub ejercicio: int,
    pub nif_declarante: Seq<char>,
    pub nif_declarado: Seq<char>,
    pub nif_representante_legal: Option<Seq<char>>,
    pub nombre: Seq<char>,
    pub tipo_titularidad: TitularidadView,
    pub clave_tipo_bien: Option<char>,
    pub subclave_tipo_bien: Option<int>,
    pub tipo_derecho_real_sobre_inmueble: Option<Seq<char>>,
    pub codigo_pais: Seq<char>,
    pub clave_identificacion: Option<int>,
    pub identificacion_valores: Option<Seq<char>>,
    pub clave_identificacion_cuenta: Option<char>,
    pub codigo_bic: Option<Seq<char>>,
    pub codigo_cuenta: Option<Seq<char>>,
    pub identificacion_entidad: Option<Seq<char>>,
    pub nif_pais_residencia_fiscal: Option<Seq<char>>,
    pub nombre_via_publica_entidad: Option<Seq<char>>,
    pub complemento_entidad: Option<Seq<char>>,
    pub poblacion_entidad: Option<Seq<char>>,
    pub provincia_entidad: Option<Seq<char>>,
    pub codigo_postal_entidad: Option<Seq<char>>,
    pub codigo_pais_entidad: Option<Seq<char>>,
    pub fecha_incorporacion: Option<DateView>,
    pub origen_bien_derecho: Option<char>,
    pub fecha_extincion: Option<DateView>,
    pub valoracion1: DecimalView,
    pub valoracion2: DecimalView,
    pub clave_representacion_valores: Option<char>,
    pub numero_valores: Option<DecimalView>,
    pub clave_tipo_bien_inmueble: Option<char>,
    pub porcentaje: int,
}

/// A detail record: one asset, or one change of a holding.
#[derive(Clone, Debug)]
pub struct Registro2Modelo720 {
    /// The kind of record: 2 for a detail record. Bytes 0..1 of the line.
    pub tipo: i8,
    /// The number of the form: 720. Bytes 1..4 of the line.
    pub modelo_declaracion: i16,
    /// The fiscal year. Bytes 4..8 of the line.
    pub ejercicio: i16,
    /// The tax identifier of the declarant. Bytes 8..17 of the line.
    pub nif_declarante: String,
    /// The tax identifier of the person declared. Bytes 17..26 of the line.
    pub nif_declarado: String,
    /// The tax identifier of the legal representative. Bytes 26..35 of the line.
    pub nif_representante_legal: Option<String>,
    /// The name of the person declared. Bytes 35..75 of the line.
    pub nombre: String,
    /// The kind of ownership of the asset. Bytes 75..101 of the line.
    pub tipo_titularidad: Modelo720Titularidad,
    /// The category of the asset. Bytes 101..102 of the line.
    pub clave_tipo_bien: Option<char>,
    /// The subcategory of the asset. Bytes 102..103 of the line.
    pub subclave_tipo_bien: Option<i8>,
    /// The kind of right over real estate. Bytes 103..128 of the line.
    pub tipo_derecho_real_sobre_inmueble: Option<String>,
    /// The country where the asset is held. Bytes 128..130 of the line.
    pub codigo_pais: String,
    /// How the asset is identified: 1 for an ISIN. Bytes 130..131 of the line.
    pub clave_identificacion: Option<i8>,
    /// The identifier of the asset. Bytes 131..143 of the line.
    pub identificacion_valores: Option<String>,
    /// How the account is identified. Bytes 143..144 of the line.
    pub clave_identificacion_cuenta: Option<char>,
    /// The BIC of the bank. Bytes 144..155 of the line.
    pub codigo_bic: Option<String>,
    /// The account number. Bytes 155..189 of the line.
    pub codigo_cuenta: Option<String>,
    /// The name of the issuer. Bytes 189..230 of the line.
    pub identificacion_entidad: Option<String>,
    /// The tax identifier of the issuer in its country. Bytes 230..250 of the line.
    pub nif_pais_residencia_fiscal: Option<String>,
    /// The street and number of the issuer. Bytes 250..302 of the line.
    pub nombre_via_publica_entidad: Option<String>,
    /// The rest of the address of the issuer. Bytes 302..342 of the line.
    pub complemento_entidad: Option<String>,
    /// The town of the issuer. Bytes 342..372 of the line.
    pub poblacion_entidad: Option<String>,
    /// The province, region or state of the issuer. Bytes 372..402 of the line.
    pub provincia_entidad: Option<String>,
    /// The postal code of the issuer. Bytes 402..412 of the line.
    pub codigo_postal_entidad: Option<String>,
    /// The country of the issuer. Bytes 412..414 of the line.
    pub codigo_pais_entidad: Option<String>,
    /// The day the asset was acquired. Bytes 414..422 of the line.
    pub fecha_incorporacion: Modelo720Date,
    /// The origin of the asset: `A` acquired, `M` held, `C` given up. Bytes 422..423 of the line.
    pub origen_bien_derecho: Option<char>,
    /// The day the asset was given up. Bytes 423..431 of the line.
    pub fecha_extincion: Modelo720Date,
    /// The first valuation. Bytes 431..446 of the line.
    pub valoracion1: Modelo720Number<15>,
    /// The second valuation. Bytes 446..461 of the line.
    pub valoracion2: Modelo720Number<15>,
    /// How the securities are represented. Bytes 461..462 of the line.
    pub clave_representacion_valores: Option<char>,
    /// The number of shares. Bytes 462..474 of the line.
    pub numero_valores: Option<Shares>,
    /// The kind of real estate. Bytes 474..475 of the line.
    pub clave_tipo_bien_inmueble: Option<char>,
    /// The share of ownership, in hundredths of a percent. Bytes 475..480 of the line.
    pub porcentaje: i64,
}

impl View for Registro2Modelo720 {
    type V = Registro2View;

    open spec fn view(&self) -> Registro2View {
        Registro2View {
            tipo: self.tipo as int,
            modelo_declaracion: self.modelo_declaracion as int,
            ejercicio: self.ejercicio as int,
            nif_declarante: self.nif_declarante@,
            nif_declarado: self.nif_declarado@,
            nif_representante_legal: option_chars(self.nif_representante_legal),
            nombre: self.nombre@,
            tipo_titularidad: self.tipo_titularidad@,
            clave_tipo_bien: self.clave_tipo_bien,
            subclave_tipo_bien: option_i8(self.subclave_tipo_bien),
            tipo_derecho_real_sobre_inmueble: option_chars(self.tipo_derecho_real_sobre_inmueble),
            codigo_pais: self.codigo_pais@,
            clave_identificacion: option_i8(self.clave_identificacion),
            identificacion_valores: option_chars(self.identificacion_valores),
            clave_identificacion_cuenta: self.clave_identificacion_cuenta,
            codigo_bic: option_chars(self.codigo_bic),
            codigo_cuenta: option_chars(self.codigo_cuenta),
            identificacion_entidad: option_chars(self.identificacion_entidad),
            nif_pais_residencia_fiscal: option_chars(self.nif_pais_residencia_fiscal),
            nombre_via_publica_entidad: option_chars(self.nombre_via_publica_entidad),
            complemento_entidad: option_chars(self.complemento_entidad),
            poblacion_entidad: option_chars(self.poblacion_entidad),
            provincia_entidad: option_chars(self.provincia_entidad),
            codigo_postal_entidad: option_chars(self.codigo_postal_entidad),
            codigo_pais_entidad: option_chars(self.codigo_pais_entidad),
            fecha_incorporacion: self.fecha_incorporacion@,
            origen_bien_derecho: self.origen_bien_derecho,
            fecha_extincion: self.fecha_extincion@,
            valoracion1: self.valoracion1@,
            valoracion2: self.valoracion2@,
            clave_representacion_valores: self.clave_representacion_valores,
            numero_valores: option_shares(self.numero_valores),
            clave_tipo_bien_inmueble: self.clave_tipo_bien_inmueble,
            porcentaje: self.porcentaje as int,
        }
    }
}

/// The record that [`Registro2Modelo720::new`] makes: a detail record of the
/// declarant, owner in full, with every other field absent or zero.
pub open spec fn registro2_baseline(
    ejercicio: int,
    nif: Seq<char>,
    nombre: Seq<char>,
    codigo_pais: Seq<char>,
) -> Registro2View {
    Registro2View {
        tipo: 2,
        modelo_declaracion: 720,
        ejercicio,
        nif_declarante: nif,
        nif_declarado: nif,
        nif_representante_legal: None,
        nombre,
        tipo_titularidad: TitularidadView::Titular,
        clave_tipo_bien: None,
        subclave_tipo_bien: None,
        tipo_derecho_real_sobre_inmueble: None,
        codigo_pais,
        clave_identificacion: None,
        identificacion_valores: None,
        clave_identificacion_cuenta: None,
        codigo_bic: None,
        codigo_cuenta: None,
        identificacion_entidad: None,
        nif_pais_residencia_fiscal: None,
        nombre_via_publica_entidad: None,
        complemento_entidad: None,
        poblacion_entidad: None,
        provincia_entidad: None,
        codigo_postal_entidad: None,
        codigo_pais_entidad: None,
        fecha_incorporacion: None,
        origen_bien_derecho: None,
        fecha_extincion: None,
        valoracion1: DecimalView { mantissa: 0, scale: 0 },
        valoracion2: DecimalView { mantissa: 0, scale: 0 },
        clave_representacion_valores: None,
        numero_valores: None,
        clave_tipo_bien_inmueble: None,
        porcentaje: 10000,
    }
}

/// Whether every amount of the record fits the field that should hold it.
pub open spec fn registro2_encodable(v: Registro2View) -> bool {
    &&& amount_fits(cents_of(v.valoracion1), 15)
    &&& amount_fits(cents_of(v.valoracion2), 15)
    &&& (v.numero_valores matches Some(s) ==> shares_fit(cents_of(s)))
}

/// The 500 bytes of the line that stands for the record: its fields one after
/// the other, and blanks up to the end of the line.
#[verifier::opaque]
pub open spec fn registro2_line(v: Registro2View) -> Seq<u8> {
    int_field(v.tipo, 1, 32, false)
        + int_field(v.modelo_declaracion, 3, 32, false)
        + int_field(v.ejercicio, 4, 32, false)
        + text_field(v.nif_declarante, 9)
        + text_field(v.nif_declarado, 9)
        + opt_text_field(v.nif_representante_legal, 9)
        + text_field(v.nombre, 40)
        + titularidad_field(v.tipo_titularidad, 26)
        + opt_char_field(v.clave_tipo_bien)
        + opt_int_field(v.subclave_tipo_bien, 1, 48, true)
        + opt_text_field(v.tipo_derecho_real_sobre_inmueble, 25)
        + text_field(v.codigo_pais, 2)
        + opt_int_field(v.clave_identificacion, 1, 48, true)
        + opt_text_field(v.identificacion_valores, 12)
        + opt_char_field(v.clave_identificacion_cuenta)
        + opt_text_field(v.codigo_bic, 11)
        + opt_text_field(v.codigo_cuenta, 34)
        + opt_text_field(v.identificacion_entidad, 41)
        + opt_text_field(v.nif_pais_residencia_fiscal, 20)
        + opt_text_field(v.nombre_via_publica_entidad, 52)
        + opt_text_field(v.complemento_entidad, 40)
        + opt_text_field(v.poblacion_entidad, 30)
        + opt_text_field(v.provincia_entidad, 30)
        + opt_text_field(v.codigo_postal_entidad, 10)
        + opt_text_field(v.codigo_pais_entidad, 2)
        + date_field(v.fecha_incorporacion)
        + opt_char_field(v.origen_bien_derecho)
        + date_field(v.fecha_extincion)
        + amount_field(cents_of(v.valoracion1), 15)
        + amount_field(cents_of(v.valoracion2), 15)
        + opt_char_field(v.clave_representacion_valores)
        + opt_shares_field(v.numero_valores, 12)
        + opt_char_field(v.clave_tipo_bien_inmueble)
        + int_field(v.porcentaje, 5, 48, true)
        + blank_field(20)
}

/// Whether every field of the line holds a value of its kind.
#[verifier::opaque]
pub open spec fn registro2_fields_ok(line: Seq<u8>) -> bool {
    &&& int_field_value(line.subrange(0, 1), true, i8::MIN as int, i8::MAX as int) is Some
    &&& int_field_value(line.subrange(1, 4), true, i16::MIN as int, i16::MAX as int) is Some
    &&& int_field_value(line.subrange(4, 8), true, i16::MIN as int, i16::MAX as int) is Some
    &&& text_value(line.subrange(8, 17)) is Some
    &&& text_value(line.subrange(17, 26)) is Some
    &&& opt_text_value(line.subrange(26, 35)) is Some
    &&& text_value(line.subrange(35, 75)) is Some
    &&& titularidad_value(line.subrange(75, 101)) is Some
    &&& opt_char_value(line.subrange(101, 102)) is Some
    &&& opt_int_field_value(line.subrange(102, 103), true, i8::MIN as int, i8::MAX as int) is Some
    &&& opt_text_value(line.subrange(103, 128)) is Some
    &&& text_value(line.subrange(128, 130)) is Some
    &&& opt_int_field_value(line.subrange(130, 131), true, i8::MIN as int, i8::MAX as int) is Some
    &&& opt_text_value(line.subrange(131, 143)) is Some
    &&& opt_char_value(line.subrange(143, 144)) is Some
    &&& opt_text_value(line.subrange(144, 155)) is Some
    &&& opt_text_value(line.subrange(155, 189)) is Some
    &&& opt_text_value(line.subrange(189, 230)) is Some
    &&& opt_text_value(line.subrange(230, 250)) is Some
    &&& opt_text_value(line.subrange(250, 302)) is Some
    &&& opt_text_value(line.subrange(302, 342)) is Some
    &&& opt_text_value(line.subrange(342, 372)) is Some
    &&& opt_text_value(line.subrange(372, 402)) is Some
    &&& opt_text_value(line.subrange(402, 412)) is Some
    &&& opt_text_value(line.subrange(412, 414)) is Some
    &&& date_value(line.subrange(414, 422)) is Some
    &&& opt_char_value(line.subrange(422, 423)) is Some
    &&& date_value(line.subrange(423, 431)) is Some
    &&& amount_decimal(line.subrange(431, 446), 15) is Some
    &&& amount_decimal(line.subrange(446, 461), 15) is Some
    &&& opt_char_value(line.subrange(461, 462)) is Some
    &&& opt_shares_value(line.subrange(462, 474)) is Some
    &&& opt_char_value(line.subrange(474, 475)) is Some
    &&& int_field_value(line.subrange(475, 480), true, i64::MIN as int, i64::MAX as int) is Some
}

/// The record that the fields of the line hold.
#[verifier::opaque]
pub open spec fn registro2_fields(line: Seq<u8>) -> Registro2View {
    Registro2View {
        tipo: int_field_value(line.subrange(0, 1), true, i8::MIN as int, i8::MAX as int)->0,
        modelo_declaracion: int_field_value(
            line.subrange(1, 4),
            true,
            i16::MIN as int,
            i16::MAX as int,
        )->0,
        ejercicio: int_field_value(line.subrange(4, 8), true, i16::MIN as int, i16::MAX as int)->0,
        nif_declarante: text_value(line.subrange(8, 17))->0,
        nif_declarado: text_value(line.subrange(17, 26))->0,
        nif_representante_legal: opt_text_value(line.subrange(26, 35))->0,
        nombre: text_value(line.subrange(35, 75))->0,
        tipo_titularidad: titularidad_value(line.subrange(75, 101))->0,
        clave_tipo_bien: opt_char_value(line.subrange(101, 102))->0,
        subclave_tipo_bien: opt_int_field_value(
            line.subrange(102, 103),
            true,
            i8::MIN as int,
            i8::MAX as int,
        )->0,
        tipo_derecho_real_sobre_inmueble: opt_text_value(line.subrange(103, 128))->0,
        codigo_pais: text_value(line.subrange(128, 130))->0,
        clave_identificacion: opt_int_field_value(
            line.subrange(130, 131),
            true,
            i8::MIN as int,
            i8::MAX as int,
        )->0,
        identificacion_valores: opt_text_value(line.subrange(131, 143))->0,
        clave_identificacion_cuenta: opt_char_value(line.subrange(143, 144))->0,
        codigo_bic: opt_text_value(line.subrange(144, 155))->0,
        codigo_cuenta: opt_text_value(line.subrange(155, 189))->0,
        identificacion_entidad: opt_text_value(line.subrange(189, 230))->0,
        nif_pais_residencia_fiscal: opt_text_value(line.subrange(230, 250))->0,
        nombre_via_publica_entidad: opt_text_value(line.subrange(250, 302))->0,
        complemento_entidad: opt_text_value(line.subrange(302, 342))->0,
        poblacion_entidad: opt_text_value(line.subrange(342, 372))->0,
        provincia_entidad: opt_text_value(line.subrange(372, 402))->0,
        codigo_postal_entidad: opt_text_value(line.subrange(402, 412))->0,
        codigo_pais_entidad: opt_text_value(line.subrange(412, 414))->0,
        fecha_incorporacion: date_value(line.subrange(414, 422))->0,
        origen_bien_derecho: opt_char_value(line.subrange(422, 423))->0,
        fecha_extincion: date_value(line.subrange(423, 431))->0,
        valoracion1: amount_decimal(line.subrange(431, 446), 15)->0,
        valoracion2: amount_decimal(line.subrange(446, 461), 15)->0,
        clave_representacion_valores: opt_char_value(line.subrange(461, 462))->0,
        numero_valores: opt_shares_value(line.subrange(462, 474))->0,
        clave_tipo_bien_inmueble: opt_char_value(line.subrange(474, 475))->0,
        porcentaje: int_field_value(
            line.subrange(475, 480),
            true,
            i64::MIN as int,
            i64::MAX as int,
        )->0,
    }
}

/// The record that a line of 500 bytes stands for, where each of its fields
/// holds a value of its kind. What follows the last field is not looked at.
pub open spec fn registro2_value(line: Seq<u8>) -> Option<Registro2View> {
    if line.len() == RECORD_WIDTH && registro2_fields_ok(line) {
        Some(registro2_fields(line))
    } else {
        None
    }
}

/// Whether every field of the record is read back as it was written.
pub open spec fn registro2_canonical(v: Registro2View) -> bool {
    &&& int_canonical(v.tipo, 1, 32, i8::MIN as int, i8::MAX as int)
    &&& int_canonical(v.modelo_declaracion, 3, 32, i16::MIN as int, i16::MAX as int)
    &&& int_canonical(v.ejercicio, 4, 32, i16::MIN as int, i16::MAX as int)
    &&& text_canonical(v.nif_declarante, 9)
    &&& text_canonical(v.nif_declarado, 9)
    &&& opt_text_canonical(v.nif_representante_legal, 9)
    &&& text_canonical(v.nombre, 40)
    &&& titularidad_canonical(v.tipo_titularidad, 26)
    &&& opt_char_canonical(v.clave_tipo_bien)
    &&& opt_int_canonical(v.subclave_tipo_bien, 1, 48, i8::MIN as int, i8::MAX as int)
    &&& opt_text_canonical(v.tipo_derecho_real_sobre_inmueble, 25)
    &&& text_canonical(v.codigo_pais, 2)
    &&& opt_int_canonical(v.clave_identificacion, 1, 48, i8::MIN as int, i8::MAX as int)
    &&& opt_text_canonical(v.identificacion_valores, 12)
    &&& opt_char_canonical(v.clave_identificacion_cuenta)
    &&& opt_text_canonical(v.codigo_bic, 11)
    &&& opt_text_canonical(v.codigo_cuenta, 34)
    &&& opt_text_canonical(v.identificacion_entidad, 41)
    &&& opt_text_canonical(v.nif_pais_residencia_fiscal, 20)
    &&& opt_text_canonical(v.nombre_via_publica_entidad, 52)
    &&& opt_text_canonical(v.complemento_entidad, 40)
    &&& opt_text_canonical(v.poblacion_entidad, 30)
    &&& opt_text_canonical(v.provincia_entidad, 30)
    &&& opt_text_canonical(v.codigo_postal_entidad, 10)
    &&& opt_text_canonical(v.codigo_pais_entidad, 2)
    &&& (v.fecha_incorporacion matches Some(d) ==> is_record_date(d))
    &&& opt_char_canonical(v.origen_bien_derecho)
    &&& (v.fecha_extincion matches Some(d) ==> is_record_date(d))
    &&& amount_canonical(v.valoracion1, 15)
    &&& amount_canonical(v.valoracion2, 15)
    &&& opt_char_canonical(v.clave_representacion_valores)
    &&& opt_shares_canonical(v.numero_valores, 12)
    &&& opt_char_canonical(v.clave_tipo_bien_inmueble)
    &&& int_canonical(v.porcentaje, 5, 48, i64::MIN as int, i64::MAX as int)
}

/// The record as it is read back: a description of the kind of ownership
/// is in upper case.
pub open spec fn registro2_normal(v: Registro2View) -> Registro2View {
    Registro2View { tipo_titularidad: titularidad_normal(v.tipo_titularidad), ..v }
}

/// Where each field stands in the line of a record whose fields have the
/// widths of the layout.
proof fn lemma_registro2_layout(v: Registro2View)
    requires
        int_field(v.tipo, 1, 32, false).len() == 1,
        int_field(v.modelo_declaracion, 3, 32, false).len() == 3,
        int_field(v.ejercicio, 4, 32, false).len() == 4,
        text_field(v.nif_declarante, 9).len() == 9,
        text_field(v.nif_declarado, 9).len() == 9,
        opt_text_field(v.nif_representante_legal, 9).len() == 9,
        text_field(v.nombre, 40).len() == 40,
        titularidad_field(v.tipo_titularidad, 26).len() == 26,
        opt_char_field(v.clave_tipo_bien).len() == 1,
        opt_int_field(v.subclave_tipo_bien, 1, 48, true).len() == 1,
        opt_text_field(v.tipo_derecho_real_sobre_inmueble, 25).len() == 25,
        text_field(v.codigo_pais, 2).len() == 2,
        opt_int_field(v.clave_identificacion, 1, 48, true).len() == 1,
        opt_text_field(v.identificacion_valores, 12).len() == 12,
        opt_char_field(v.clave_identificacion_cuenta).len() == 1,
        opt_text_field(v.codigo_bic, 11).len() == 11,
        opt_text_field(v.codigo_cuenta, 34).len() == 34,
        opt_text_field(v.identificacion_entidad, 41).len() == 41,
        opt_text_field(v.nif_pais_residencia_fiscal, 20).len() == 20,
        opt_text_field(v.nombre_via_publica_entidad, 52).len() == 52,
        opt_text_field(v.complemento_entidad, 40).len() == 40,
        opt_text_field(v.poblacion_entidad, 30).len() == 30,
        opt_text_field(v.provincia_entidad, 30).len() == 30,
        opt_text_field(v.codigo_postal_entidad, 10).len() == 10,
        opt_text_field(v.codigo_pais_entidad, 2).len() == 2,
        date_field(v.fecha_incorporacion).len() == 8,
        opt_char_field(v.origen_bien_derecho).len() == 1,
        date_field(v.fecha_extincion).len() == 8,
        amount_field(cents_of(v.valoracion1), 15).len() == 15,
        amount_field(cents_of(v.valoracion2), 15).len() == 15,
        opt_char_field(v.clave_representacion_valores).len() == 1,
        opt_shares_field(v.numero_valores, 12).len() == 12,
        opt_char_field(v.clave_tipo_bien_inmueble).len() == 1,
        int_field(v.porcentaje, 5, 48, true).len() == 5,
        blank_field(20).len() == 20,
    ensures
        registro2_line(v).len() == RECORD_WIDTH,
        registro2_line(v).subrange(0, 1) == int_field(v.tipo, 1, 32, false),
        registro2_line(v).subrange(1, 4) == int_field(v.modelo_declaracion, 3, 32, false),
        registro2_line(v).subrange(4, 8) == int_field(v.ejercicio, 4, 32, false),
        registro2_line(v).subrange(8, 17) == text_field(v.nif_declarante, 9),
        registro2_line(v).subrange(17, 26) == text_field(v.nif_declarado, 9),
        registro2_line(v).subrange(26, 35) == opt_text_field(v.nif_representante_legal, 9),
        registro2_line(v).subrange(35, 75) == text_field(v.nombre, 40),
        registro2_line(v).subrange(75, 101) == titularidad_field(v.tipo_titularidad, 26),
        registro2_line(v).subrange(101, 102) == opt_char_field(v.clave_tipo_bien),
        registro2_line(v).subrange(102, 103) == opt_int_field(v.subclave_tipo_bien, 1, 48, true),
        registro2_line(v).subrange(103, 128) == opt_text_field(
            v.tipo_derecho_real_sobre_inmueble,
            25,
        ),
        registro2_line(v).subrange(128, 130) == text_field(v.codigo_pais, 2),
        registro2_line(v).subrange(130, 131) == opt_int_field(v.clave_identificacion, 1, 48, true),
        registro2_line(v).subrange(131, 143) == opt_text_field(v.identificacion_valores, 12),
        registro2_line(v).subrange(143, 144) == opt_char_field(v.clave_identificacion_cuenta),
        registro2_line(v).subrange(144, 155) == opt_text_field(v.codigo_bic, 11),
        registro2_line(v).subrange(155, 189) == opt_text_field(v.codigo_cuenta, 34),
        registro2_line(v).subrange(189, 230) == opt_text_field(v.identificacion_entidad, 41),
        registro2_line(v).subrange(230, 250) == opt_text_field(v.nif_pais_residencia_fiscal, 20),
        registro2_line(v).subrange(250, 302) == opt_text_field(v.nombre_via_publica_entidad, 52),
        registro2_line(v).subrange(302, 342) == opt_text_field(v.complemento_entidad, 40),
        registro2_line(v).subrange(342, 372) == opt_text_field(v.poblacion_entidad, 30),
        registro2_line(v).subrange(372, 402) == opt_text_field(v.provincia_entidad, 30),
        registro2_line(v).subrange(402, 412) == opt_text_field(v.codigo_postal_entidad, 10),
        registro2_line(v).subrange(412, 414) == opt_text_field(v.codigo_pais_entidad, 2),
        registro2_line(v).subrange(414, 422) == date_field(v.fecha_incorporacion),
        registro2_line(v).subrange(422, 423) == opt_char_field(v.origen_bien_derecho),
        registro2_line(v).subrange(423, 431) == date_field(v.fecha_extincion),
        registro2_line(v).subrange(431, 446) == amount_field(cents_of(v.valoracion1), 15),
        registro2_line(v).subrange(446, 461) == amount_field(cents_of(v.valoracion2), 15),
        registro2_line(v).subrange(461, 462) == opt_char_field(v.clave_representacion_valores),
        registro2_line(v).subrange(462, 474) == opt_shares_field(v.numero_valores, 12),
        registro2_line(v).subrange(474, 475) == opt_char_field(v.clave_tipo_bien_inmueble),
        registro2_line(v).subrange(475, 480) == int_field(v.porcentaje, 5, 48, true),
{
    reveal(registro2_line);
    let line = registro2_line(v);
    let upto0 = int_field(v.tipo, 1, 32, false);
    let upto1 = upto0 + int_field(v.modelo_declaracion, 3, 32, false);
    let upto2 = upto1 + int_field(v.ejercicio, 4, 32, false);
    let upto3 = upto2 + text_field(v.nif_declarante, 9);
    let upto4 = upto3 + text_field(v.nif_declarado, 9);
    let upto5 = upto4 + opt_text_field(v.nif_representante_legal, 9);
    let upto6 = upto5 + text_field(v.nombre, 40);
    let upto7 = upto6 + titularidad_field(v.tipo_titularidad, 26);
    let upto8 = upto7 + opt_char_field(v.clave_tipo_bien);
    let upto9 = upto8 + opt_int_field(v.subclave_tipo_bien, 1, 48, true);
    let upto10 = upto9 + opt_text_field(v.tipo_derecho_real_sobre_inmueble, 25);
    let upto11 = upto10 + text_field(v.codigo_pais, 2);
    let upto12 = upto11 + opt_int_field(v.clave_identificacion, 1, 48, true);
    let upto13 = upto12 + opt_text_field(v.identificacion_valores, 12);
    let upto14 = upto13 + opt_char_field(v.clave_identificacion_cuenta);
    let upto15 = upto14 + opt_text_field(v.codigo_bic, 11);
    let upto16 = upto15 + opt_text_field(v.codigo_cuenta, 34);
    let upto17 = upto16 + opt_text_field(v.identificacion_entidad, 41);
    let upto18 = upto17 + opt_text_field(v.nif_pais_residencia_fiscal, 20);
    let upto19 = upto18 + opt_text_field(v.nombre_via_publica_entidad, 52);
    let upto20 = upto19 + opt_text_field(v.complemento_entidad, 40);
    let upto21 = upto20 + opt_text_field(v.poblacion_entidad, 30);
    let upto22 = upto21 + opt_text_field(v.provincia_entidad, 30);
    let upto23 = upto22 + opt_text_field(v.codigo_postal_entidad, 10);
    let upto24 = upto23 + opt_text_field(v.codigo_pais_entidad, 2);
    let upto25 = upto24 + date_field(v.fecha_incorporacion);
    let upto26 = upto25 + opt_char_field(v.origen_bien_derecho);
    let upto27 = upto26 + date_field(v.fecha_extincion);
    let upto28 = upto27 + amount_field(cents_of(v.valoracion1), 15);
    let upto29 = upto28 + amount_field(cents_of(v.valoracion2), 15);
    let upto30 = upto29 + opt_char_field(v.clave_representacion_valores);
    let upto31 = upto30 + opt_shares_field(v.numero_valores, 12);
    let upto32 = upto31 + opt_char_field(v.clave_tipo_bien_inmueble);
    let upto33 = upto32 + int_field(v.porcentaje, 5, 48, true);
    let upto34 = upto33 + blank_field(20);
    assert(line == upto34);
    assert(upto0.len() == 1);
    assert(upto1.len() == 4);
    assert(upto2.len() == 8);
    assert(upto3.len() == 17);
    assert(upto4.len() == 26);
    assert(upto5.len() == 35);
    assert(upto6.len() == 75);
    assert(upto7.len() == 101);
    assert(upto8.len() == 102);
    assert(upto9.len() == 103);
    assert(upto10.len() == 128);
    assert(upto11.len() == 130);
    assert(upto12.len() == 131);
    assert(upto13.len() == 143);
    assert(upto14.len() == 144);
    assert(upto15.len() == 155);
    assert(upto16.len() == 189);
    assert(upto17.len() == 230);
    assert(upto18.len() == 250);
    assert(upto19.len() == 302);
    assert(upto20.len() == 342);
    assert(upto21.len() == 372);
    assert(upto22.len() == 402);
    assert(upto23.len() == 412);
    assert(upto24.len() == 414);
    assert(upto25.len() == 422);
    assert(upto26.len() == 423);
    assert(upto27.len() == 431);
    assert(upto28.len() == 446);
    assert(upto29.len() == 461);
    assert(upto30.len() == 462);
    assert(upto31.len() == 474);
    assert(upto32.len() == 475);
    assert(upto33.len() == 480);
    assert(upto34.len() == 500);
    assert(line.subrange(0, 500) =~= upto34);
    lemma_split_last(line, 500, upto33, blank_field(20));
    lemma_split_last(line, 480, upto32, int_field(v.porcentaje, 5, 48, true));
    lemma_split_last(line, 475, upto31, opt_char_field(v.clave_tipo_bien_inmueble));
    lemma_split_last(line, 474, upto30, opt_shares_field(v.numero_valores, 12));
    lemma_split_last(line, 462, upto29, opt_char_field(v.clave_representacion_valores));
    lemma_split_last(line, 461, upto28, amount_field(cents_of(v.valoracion2), 15));
    lemma_split_last(line, 446, upto27, amount_field(cents_of(v.valoracion1), 15));
    lemma_split_last(line, 431, upto26, date_field(v.fecha_extincion));
    lemma_split_last(line, 423, upto25, opt_char_field(v.origen_bien_derecho));
    lemma_split_last(line, 422, upto24, date_field(v.fecha_incorporacion));
    lemma_split_last(line, 414, upto23, opt_text_field(v.codigo_pais_entidad, 2));
    lemma_split_last(line, 412, upto22, opt_text_field(v.codigo_postal_entidad, 10));
    lemma_split_last(line, 402, upto21, opt_text_field(v.provincia_entidad, 30));
    lemma_split_last(line, 372, upto20, opt_text_field(v.poblacion_entidad, 30));
    lemma_split_last(line, 342, upto19, opt_text_field(v.complemento_entidad, 40));
    lemma_split_last(line, 302, upto18, opt_text_field(v.nombre_via_publica_entidad, 52));
    lemma_split_last(line, 250, upto17, opt_text_field(v.nif_pais_residencia_fiscal, 20));
    lemma_split_last(line, 230, upto16, opt_text_field(v.identificacion_entidad, 41));
    lemma_split_last(line, 189, upto15, opt_text_field(v.codigo_cuenta, 34));
    lemma_split_last(line, 155, upto14, opt_text_field(v.codigo_bic, 11));
    lemma_split_last(line, 144, upto13, opt_char_field(v.clave_identificacion_cuenta));
    lemma_split_last(line, 143, upto12, opt_text_field(v.identificacion_valores, 12));
    lemma_split_last(line, 131, upto11, opt_int_field(v.clave_identificacion, 1, 48, true));
    lemma_split_last(line, 130, upto10, text_field(v.codigo_pais, 2));
    lemma_split_last(line, 128, upto9, opt_text_field(v.tipo_derecho_real_sobre_inmueble, 25));
    lemma_split_last(line, 103, upto8, opt_int_field(v.subclave_tipo_bien, 1, 48, true));
    lemma_split_last(line, 102, upto7, opt_char_field(v.clave_tipo_bien));
    lemma_split_last(line, 101, upto6, titularidad_field(v.tipo_titularidad, 26));
    lemma_split_last(line, 75, upto5, text_field(v.nombre, 40));
    lemma_split_last(line, 35, upto4, opt_text_field(v.nif_representante_legal, 9));
    lemma_split_last(line, 26, upto3, text_field(v.nif_declarado, 9));
    lemma_split_last(line, 17, upto2, text_field(v.nif_declarante, 9));
    lemma_split_last(line, 8, upto1, int_field(v.ejercicio, 4, 32, false));
    lemma_split_last(line, 4, upto0, int_field(v.modelo_declaracion, 3, 32, false));
}

/// The line of a record holds no newline where none of its fields does.
proof fn lemma_registro2_no_newline(v: Registro2View)
    requires
        no_newline(int_field(v.tipo, 1, 32, false)),
        no_newline(int_field(v.modelo_declaracion, 3, 32, false)),
        no_newline(int_field(v.ejercicio, 4, 32, false)),
        no_newline(text_field(v.nif_declarante, 9)),
        no_newline(text_field(v.nif_declarado, 9)),
        no_newline(opt_text_field(v.nif_representante_legal, 9)),
        no_newline(text_field(v.nombre, 40)),
        no_newline(titularidad_field(v.tipo_titularidad, 26)),
        no_newline(opt_char_field(v.clave_tipo_bien)),
        no_newline(opt_int_field(v.subclave_tipo_bien, 1, 48, true)),
        no_newline(opt_text_field(v.tipo_derecho_real_sobre_inmueble, 25)),
        no_newline(text_field(v.codigo_pais, 2)),
        no_newline(opt_int_field(v.clave_identificacion, 1, 48, true)),
        no_newline(opt_text_field(v.identificacion_valores, 12)),
        no_newline(opt_char_field(v.clave_identificacion_cuenta)),
        no_newline(opt_text_field(v.codigo_bic, 11)),
        no_newline(opt_text_field(v.codigo_cuenta, 34)),
        no_newline(opt_text_field(v.identificacion_entidad, 41)),
        no_newline(opt_text_field(v.nif_pais_residencia_fiscal, 20)),
        no_newline(opt_text_field(v.nombre_via_publica_entidad, 52)),
        no_newline(opt_text_field(v.complemento_entidad, 40)),
        no_newline(opt_text_field(v.poblacion_entidad, 30)),
        no_newline(opt_text_field(v.provincia_entidad, 30)),
        no_newline(opt_text_field(v.codigo_postal_entidad, 10)),
        no_newline(opt_text_field(v.codigo_pais_entidad, 2)),
        no_newline(date_field(v.fecha_incorporacion)),
        no_newline(opt_char_field(v.origen_bien_derecho)),
        no_newline(date_field(v.fecha_extincion)),
        no_newline(amount_field(cents_of(v.valoracion1), 15)),
        no_newline(amount_field(cents_of(v.valoracion2), 15)),
        no_newline(opt_char_field(v.clave_representacion_valores)),
        no_newline(opt_shares_field(v.numero_valores, 12)),
        no_newline(opt_char_field(v.clave_tipo_bien_inmueble)),
        no_newline(int_field(v.porcentaje, 5, 48, true)),
        no_newline(blank_field(20)),
    ensures
        no_newline(registro2_line(v)),
{
    reveal(registro2_line);
    let upto0 = int_field(v.tipo, 1, 32, false);
    let upto1 = upto0 + int_field(v.modelo_declaracion, 3, 32, false);
    lemma_no_newline_add(upto0, int_field(v.modelo_declaracion, 3, 32, false));
    let upto2 = upto1 + int_field(v.ejercicio, 4, 32, false);
    lemma_no_newline_add(upto1, int_field(v.ejercicio, 4, 32, false));
    let upto3 = upto2 + text_field(v.nif_declarante, 9);
    lemma_no_newline_add(upto2, text_field(v.nif_declarante, 9));
    let upto4 = upto3 + text_field(v.nif_declarado, 9);
    lemma_no_newline_add(upto3, text_field(v.nif_declarado, 9));
    let upto5 = upto4 + opt_text_field(v.nif_representante_legal, 9);
    lemma_no_newline_add(upto4, opt_text_field(v.nif_representante_legal, 9));
    let upto6 = upto5 + text_field(v.nombre, 40);
    lemma_no_newline_add(upto5, text_field(v.nombre, 40));
    let upto7 = upto6 + titularidad_field(v.tipo_titularidad, 26);
    lemma_no_newline_add(upto6, titularidad_field(v.tipo_titularidad, 26));
    let upto8 = upto7 + opt_char_field(v.clave_tipo_bien);
    lemma_no_newline_add(upto7, opt_char_field(v.clave_tipo_bien));
    let upto9 = upto8 + opt_int_field(v.subclave_tipo_bien, 1, 48, true);
    lemma_no_newline_add(upto8, opt_int_field(v.subclave_tipo_bien, 1, 48, true));
    let upto10 = upto9 + opt_text_field(v.tipo_derecho_real_sobre_inmueble, 25);
    lemma_no_newline_add(upto9, opt_text_field(v.tipo_derecho_real_sobre_inmueble, 25));
    let upto11 = upto10 + text_field(v.codigo_pais, 2);
    lemma_no_newline_add(upto10, text_field(v.codigo_pais, 2));
    let upto12 = upto11 + opt_int_field(v.clave_identificacion, 1, 48, true);
    lemma_no_newline_add(upto11, opt_int_field(v.clave_identificacion, 1, 48, true));
    let upto13 = upto12 + opt_text_field(v.identificacion_valores, 12);
    lemma_no_newline_add(upto12, opt_text_field(v.identificacion_valores, 12));
    let upto14 = upto13 + opt_char_field(v.clave_identificacion_cuenta);
    lemma_no_newline_add(upto13, opt_char_field(v.clave_identificacion_cuenta));
    let upto15 = upto14 + opt_text_field(v.codigo_bic, 11);
    lemma_no_newline_add(upto14, opt_text_field(v.codigo_bic, 11));
    let upto16 = upto15 + opt_text_field(v.codigo_cuenta, 34);
    lemma_no_newline_add(upto15, opt_text_field(v.codigo_cuenta, 34));
    let upto17 = upto16 + opt_text_field(v.identificacion_entidad, 41);
    lemma_no_newline_add(upto16, opt_text_field(v.identificacion_entidad, 41));
    let upto18 = upto17 + opt_text_field(v.nif_pais_residencia_fiscal, 20);
    lemma_no_newline_add(upto17, opt_text_field(v.nif_pais_residencia_fiscal, 20));
    let upto19 = upto18 + opt_text_field(v.nombre_via_publica_entidad, 52);
    lemma_no_newline_add(upto18, opt_text_field(v.nombre_via_publica_entidad, 52));
    let upto20 = upto19 + opt_text_field(v.complemento_entidad, 40);
    lemma_no_newline_add(upto19, opt_text_field(v.complemento_entidad, 40));
    let upto21 = upto20 + opt_text_field(v.poblacion_entidad, 30);
    lemma_no_newline_add(upto20, opt_text_field(v.poblacion_entidad, 30));
    let upto22 = upto21 + opt_text_field(v.provincia_entidad, 30);
    lemma_no_newline_add(upto21, opt_text_field(v.provincia_entidad, 30));
    let upto23 = upto22 + opt_text_field(v.codigo_postal_entidad, 10);
    lemma_no_newline_add(upto22, opt_text_field(v.codigo_postal_entidad, 10));
    let upto24 = upto23 + opt_text_field(v.codigo_pais_entidad, 2);
    lemma_no_newline_add(upto23, opt_text_field(v.codigo_pais_entidad, 2));
    let upto25 = upto24 + date_field(v.fecha_incorporacion);
    lemma_no_newline_add(upto24, date_field(v.fecha_incorporacion));
    let upto26 = upto25 + opt_char_field(v.origen_bien_derecho);
    lemma_no_newline_add(upto25, opt_char_field(v.origen_bien_derecho));
    let upto27 = upto26 + date_field(v.fecha_extincion);
    lemma_no_newline_add(upto26, date_field(v.fecha_extincion));
    let upto28 = upto27 + amount_field(cents_of(v.valoracion1), 15);
    lemma_no_newline_add(upto27, amount_field(cents_of(v.valoracion1), 15));
    let upto29 = upto28 + amount_field(cents_of(v.valoracion2), 15);
    lemma_no_newline_add(upto28, amount_field(cents_of(v.valoracion2), 15));
    let upto30 = upto29 + opt_char_field(v.clave_representacion_valores);
    lemma_no_newline_add(upto29, opt_char_field(v.clave_representacion_valores));
    let upto31 = upto30 + opt_shares_field(v.numero_valores, 12);
    lemma_no_newline_add(upto30, opt_shares_field(v.numero_valores, 12));
    let upto32 = upto31 + opt_char_field(v.clave_tipo_bien_inmueble);
    lemma_no_newline_add(upto31, opt_char_field(v.clave_tipo_bien_inmueble));
    let upto33 = upto32 + int_field(v.porcentaje, 5, 48, true);
    lemma_no_newline_add(upto32, int_field(v.porcentaje, 5, 48, true));
    let upto34 = upto33 + blank_field(20);
    lemma_no_newline_add(upto33, blank_field(20));
}

/// A record whose fields can be read back as they were written is read
/// back from its line, with a description of the kind of ownership in upper case: the line is 500
/// bytes wide, holds no newline, and stands for the record.
pub proof fn lemma_registro2_round_trip(v: Registro2View)
    requires
        registro2_canonical(v),
    ensures
        registro2_encodable(v),
        registro2_line(v).len() == RECORD_WIDTH,
        no_newline(registro2_line(v)),
        registro2_value(registro2_line(v)) == Some(registro2_normal(v)),
{
    lemma_int_round_trip(v.tipo, 1, 32, false, true, i8::MIN as int, i8::MAX as int);
    lemma_int_round_trip(
        v.modelo_declaracion,
        3,
        32,
        false,
        true,
        i16::MIN as int,
        i16::MAX as int,
    );
    lemma_int_round_trip(v.ejercicio, 4, 32, false, true, i16::MIN as int, i16::MAX as int);
    lemma_text_round_trip(v.nif_declarante, 9);
    lemma_text_round_trip(v.nif_declarado, 9);
    lemma_opt_text_round_trip(v.nif_representante_legal, 9);
    lemma_text_round_trip(v.nombre, 40);
    lemma_titularidad_round_trip(v.tipo_titularidad, 26);
    lemma_opt_char_round_trip(v.clave_tipo_bien);
    lemma_opt_int_round_trip(
        v.subclave_tipo_bien,
        1,
        48,
        true,
        true,
        i8::MIN as int,
        i8::MAX as int,
    );
    lemma_opt_text_round_trip(v.tipo_derecho_real_sobre_inmueble, 25);
    lemma_text_round_trip(v.codigo_pais, 2);
    lemma_opt_int_round_trip(
        v.clave_identificacion,
        1,
        48,
        true,
        true,
        i8::MIN as int,
        i8::MAX as int,
    );
    lemma_opt_text_round_trip(v.identificacion_valores, 12);
    lemma_opt_char_round_trip(v.clave_identificacion_cuenta);
    lemma_opt_text_round_trip(v.codigo_bic, 11);
    lemma_opt_text_round_trip(v.codigo_cuenta, 34);
    lemma_opt_text_round_trip(v.identificacion_entidad, 41);
    lemma_opt_text_round_trip(v.nif_pais_residencia_fiscal, 20);
    lemma_opt_text_round_trip(v.nombre_via_publica_entidad, 52);
    lemma_opt_text_round_trip(v.complemento_entidad, 40);
    lemma_opt_text_round_trip(v.poblacion_entidad, 30);
    lemma_opt_text_round_trip(v.provincia_entidad, 30);
    lemma_opt_text_round_trip(v.codigo_postal_entidad, 10);
    lemma_opt_text_round_trip(v.codigo_pais_entidad, 2);
    lemma_date_round_trip(v.fecha_incorporacion);
    lemma_opt_char_round_trip(v.origen_bien_derecho);
    lemma_date_round_trip(v.fecha_extincion);
    lemma_amount_canonical(v.valoracion1, 15);
    lemma_amount_canonical(v.valoracion2, 15);
    lemma_opt_char_round_trip(v.clave_representacion_valores);
    lemma_opt_shares_round_trip(v.numero_valores, 12);
    lemma_opt_char_round_trip(v.clave_tipo_bien_inmueble);
    lemma_int_round_trip(v.porcentaje, 5, 48, true, true, i64::MIN as int, i64::MAX as int);
    lemma_blank_field(20);
    lemma_registro2_layout(v);
    lemma_registro2_no_newline(v);
    reveal(registro2_fields_ok);
    reveal(registro2_fields);
    let line = registro2_line(v);
    assert(registro2_fields_ok(line));
    assert(registro2_fields(line) == registro2_normal(v));
}

impl Registro2Modelo720 {
    /// A detail record of the declarant for an asset held in `codigo_pais`,
    /// held in full, with every other field absent or zero.
    pub fn new(ejercicio: i16, nif: String, nombre: String, codigo_pais: String) -> (r: Self)
        ensures
            r@ == registro2_baseline(ejercicio as int, nif@, nombre@, codigo_pais@),
    {
        Registro2Modelo720 {
            tipo: 2,
            modelo_declaracion: 720,
            ejercicio,
            nif_declarante: nif.clone(),
            nif_declarado: nif,
            nif_representante_legal: None,
            nombre,
            tipo_titularidad: Modelo720Titularidad::Titular,
            clave_tipo_bien: None,
            subclave_tipo_bien: None,
            tipo_derecho_real_sobre_inmueble: None,
            codigo_pais,
            clave_identificacion: None,
            identificacion_valores: None,
            clave_identificacion_cuenta: None,
            codigo_bic: None,
            codigo_cuenta: None,
            identificacion_entidad: None,
            nif_pais_residencia_fiscal: None,
            nombre_via_publica_entidad: None,
            complemento_entidad: None,
            poblacion_entidad: None,
            provincia_entidad: None,
            codigo_postal_entidad: None,
            codigo_pais_entidad: None,
            fecha_incorporacion: Modelo720Date(None),
            origen_bien_derecho: None,
            fecha_extincion: Modelo720Date(None),
            valoracion1: Modelo720Number::zero(),
            valoracion2: Modelo720Number::zero(),
            clave_representacion_valores: None,
            numero_valores: None,
            clave_tipo_bien_inmueble: None,
            porcentaje: 10000,
        }
    }

    /// The line of 500 bytes that stands for the record. A record with an
    /// amount too large for its field has none.
    pub fn encode(&self) -> (r: Result<Vec<u8>, Modelo720Error>)
        ensures
            r is Ok <==> registro2_encodable(self@),
            r matches Ok(line) ==> line@ == registro2_line(self@) && line@.len() == RECORD_WIDTH,
            r matches Err(e) ==> e == Modelo720Error::Overflow,
    {
        reveal(registro2_line);
        let mut out: Vec<u8> = Vec::new();
        push_int(&mut out, self.tipo as i128, 1, SPACE, false);
        push_int(&mut out, self.modelo_declaracion as i128, 3, SPACE, false);
        push_int(&mut out, self.ejercicio as i128, 4, SPACE, false);
        push_text(&mut out, self.nif_declarante.as_str(), 9);
        push_text(&mut out, self.nif_declarado.as_str(), 9);
        push_opt_text(&mut out, &self.nif_representante_legal, 9);
        push_text(&mut out, self.nombre.as_str(), 40);
        push_all(&mut out, self.tipo_titularidad.encode(26).as_slice());
        push_opt_char(&mut out, self.clave_tipo_bien);
        match self.subclave_tipo_bien {
            Some(n) => push_int(&mut out, n as i128, 1, ZERO, true),
            None => push_blank(&mut out, 1),
        }
        push_opt_text(&mut out, &self.tipo_derecho_real_sobre_inmueble, 25);
        push_text(&mut out, self.codigo_pais.as_str(), 2);
        match self.clave_identificacion {
            Some(n) => push_int(&mut out, n as i128, 1, ZERO, true),
            None => push_blank(&mut out, 1),
        }
        push_opt_text(&mut out, &self.identificacion_valores, 12);
        push_opt_char(&mut out, self.clave_identificacion_cuenta);
        push_opt_text(&mut out, &self.codigo_bic, 11);
        push_opt_text(&mut out, &self.codigo_cuenta, 34);
        push_opt_text(&mut out, &self.identificacion_entidad, 41);
        push_opt_text(&mut out, &self.nif_pais_residencia_fiscal, 20);
        push_opt_text(&mut out, &self.nombre_via_publica_entidad, 52);
        push_opt_text(&mut out, &self.complemento_entidad, 40);
        push_opt_text(&mut out, &self.poblacion_entidad, 30);
        push_opt_text(&mut out, &self.provincia_entidad, 30);
        push_opt_text(&mut out, &self.codigo_postal_entidad, 10);
        push_opt_text(&mut out, &self.codigo_pais_entidad, 2);
        push_all(&mut out, self.fecha_incorporacion.encode().as_slice());
        push_opt_char(&mut out, self.origen_bien_derecho);
        push_all(&mut out, self.fecha_extincion.encode().as_slice());
        match self.valoracion1.encode() {
            Ok(bytes) => push_all(&mut out, bytes.as_slice()),
            Err(e) => {
                return Err(e);
            },
        }
        match self.valoracion2.encode() {
            Ok(bytes) => push_all(&mut out, bytes.as_slice()),
            Err(e) => {
                return Err(e);
            },
        }
        push_opt_char(&mut out, self.clave_representacion_valores);
        match &self.numero_valores {
            Some(shares) => match shares.encode(12) {
                Ok(bytes) => push_all(&mut out, bytes.as_slice()),
                Err(e) => {
                    return Err(e);
                },
            },
            None => push_blank(&mut out, 12),
        }
        push_opt_char(&mut out, self.clave_tipo_bien_inmueble);
        push_int(&mut out, self.porcentaje as i128, 5, ZERO, true);
        push_blank(&mut out, 20);
        assert(out@ =~= registro2_line(self@));
        Ok(out)
    }

    /// The record that a line stands for.
    pub fn decode(line: &[u8]) -> (r: Result<Registro2Modelo720, Modelo720Error>)
        ensures
            r is Ok <==> registro2_value(line@) is Some,
            r matches Ok(record) ==> Some(record@) == registro2_value(line@),
            r matches Err(e) ==> e == (if line@.len() == RECORD_WIDTH {
                Modelo720Error::MalformedField
            } else {
                Modelo720Error::TruncatedRecord
            }),
    {
        reveal(registro2_fields_ok);
        reveal(registro2_fields);
        if line.len() != RECORD_WIDTH {
            return Err(Modelo720Error::TruncatedRecord);
        }
        let field: Vec<u8> = copy_range(line, 0, 1);
        let tipo: i8 = match read_int(field.as_slice(), true, i8::MIN as i128, i8::MAX as i128) {
            Some(n) => n as i8,
            None => {
                return Err(Modelo720Error::MalformedField);
            },
        };
        let field: Vec<u8> = copy_range(line, 1, 4);
        let modelo_declaracion: i16 = match read_int(
            field.as_slice(),
            true,
            i16::MIN as i128,
            i16::MAX as i128,
        ) {
            Some(n) => n as i16,
            None => {
                return Err(Modelo720Error::MalformedField);
            },
        };
        let field: Vec<u8> = copy_range(line, 4, 8);
        let ejercicio: i16 = match read_int(
            field.as_slice(),
            true,
            i16::MIN as i128,
            i16::MAX as i128,
        ) {
            Some(n) => n as i16,
            None => {
                return Err(Modelo720Error::MalformedField);
            },
        };
        let field: Vec<u8> = copy_range(line, 8, 17);
        let nif_declarante: String = match read_text(field.as_slice()) {
            Some(x) => x,
            None => {
                return Err(Modelo720Error::MalformedField);
            },
        };
        let field: Vec<u8> = copy_range(line, 17, 26);
        let nif_declarado: String = match read_text(field.as_slice()) {
            Some(x) => x,
            None => {
                return Err(Modelo720Error::MalformedField);
            },
        };
        let field: Vec<u8> = copy_range(line, 26, 35);
        let nif_representante_legal: Option<String> = match read_opt_text(field.as_slice()) {
            Some(x) => x,
            None => {
                return Err(Modelo720Error::MalformedField);
            },
        };
        let field: Vec<u8> = copy_range(line, 35, 75);
        let nombre: String = match read_text(field.as_slice()) {
            Some(x) => x,
            None => {
                return Err(Modelo720Error::MalformedField);
            },
        };
        let field: Vec<u8> = copy_range(line, 75, 101);
        let tipo_titularidad: Modelo720Titularidad = match Modelo720Titularidad::decode(
            field.as_slice(),
        ) {
            Ok(x) => x,
            Err(_) => {
                return Err(Modelo720Error::MalformedField);
            },
        };
        let field: Vec<u8> = copy_range(line, 101, 102);
        let clave_tipo_bien: Option<char> = match read_opt_char(field.as_slice()) {
            Some(x) => x,
            None => {
                return Err(Modelo720Error::MalformedField);
            },
        };
        let field: Vec<u8> = copy_range(line, 102, 103);
        let subclave_tipo_bien: Option<i8> = match read_opt_int(
            field.as_slice(),
            true,
            i8::MIN as i128,
            i8::MAX as i128,
        ) {
            Some(Some(n)) => Some(n as i8),
            Some(None) => None,
            None => {
                return Err(Modelo720Error::MalformedField);
            },
        };
        let field: Vec<u8> = copy_range(line, 103, 128);
        let tipo_derecho_real_sobre_inmueble: Option<String> = match read_opt_text(
            field.as_slice(),
        ) {
            Some(x) => x,
            None => {
                return Err(Modelo720Error::MalformedField);
            },
        };
        let field: Vec<u8> = copy_range(line, 128, 130);
        let codigo_pais: String = match read_text(field.as_slice()) {
            Some(x) => x,
            None => {
                return Err(Modelo720Error::MalformedField);
            },
        };
        let field: Vec<u8> = copy_range(line, 130, 131);
        let clave_identificacion: Option<i8> = match read_opt_int(
            field.as_slice(),
            true,
            i8::MIN as i128,
            i8::MAX as i128,
        ) {
            Some(Some(n)) => Some(n as i8),
            Some(None) => None,
            None => {
                return Err(Modelo720Error::MalformedField);
            },
        };
        let field: Vec<u8> = copy_range(line, 131, 143);
        let identificacion_valores: Option<String> = match read_opt_text(field.as_slice()) {
            Some(x) => x,
            None => {
                return Err(Modelo720Error::MalformedField);
            },
        };
        let field: Vec<u8> = copy_range(line, 143, 144);
        let clave_identificacion_cuenta: Option<char> = match read_opt_char(field.as_slice()) {
            Some(x) => x,
            None => {
                return Err(Modelo720Error::MalformedField);
            },
        };
        let field: Vec<u8> = copy_range(line, 144, 155);
        let codigo_bic: Option<String> = match read_opt_text(field.as_slice()) {
            Some(x) => x,
            None => {
                return Err(Modelo720Error::MalformedField);
            },
        };
        let field: Vec<u8> = copy_range(line, 155, 189);
        let codigo_cuenta: Option<String> = match read_opt_text(field.as_slice()) {
            Some(x) => x,
            None => {
                return Err(Modelo720Error::MalformedField);
            },
        };
        let field: Vec<u8> = copy_range(line, 189, 230);
        let identificacion_entidad: Option<String> = match read_opt_text(field.as_slice()) {
            Some(x) => x,
            None => {
                return Err(Modelo720Error::MalformedField);
            },
        };
        let field: Vec<u8> = copy_range(line, 230, 250);
        let nif_pais_residencia_fiscal: Option<String> = match read_opt_text(field.as_slice()) {
            Some(x) => x,
            None => {
                return Err(Modelo720Error::MalformedField);
            },
        };
        let field: Vec<u8> = copy_range(line, 250, 302);
        let nombre_via_publica_entidad: Option<String> = match read_opt_text(field.as_slice()) {
            Some(x) => x,
            None => {
                return Err(Modelo720Error::MalformedField);
            },
        };
        let field: Vec<u8> = copy_range(line, 302, 342);
        let complemento_entidad: Option<String> = match read_opt_text(field.as_slice()) {
            Some(x) => x,
            None => {
                return Err(Modelo720Error::MalformedField);
            },
        };
        let field: Vec<u8> = copy_range(line, 342, 372);
        let poblacion_entidad: Option<String> = match read_opt_text(field.as_slice()) {
            Some(x) => x,
            None => {
                return Err(Modelo720Error::MalformedField);
            },
        };
        let field: Vec<u8> = copy_range(line, 372, 402);
        let provincia_entidad: Option<String> = match read_opt_text(field.as_slice()) {
            Some(x) => x,
            None => {
                return Err(Modelo720Error::MalformedField);
            },
        };
        let field: Vec<u8> = copy_range(line, 402, 412);
        let codigo_postal_entidad: Option<String> = match read_opt_text(field.as_slice()) {
            Some(x) => x,
            None => {
                return Err(Modelo720Error::MalformedField);
            },
        };
        let field: Vec<u8> = copy_range(line, 412, 414);
        let codigo_pais_entidad: Option<String> = match read_opt_text(field.as_slice()) {
            Some(x) => x,
            None => {
                return Err(Modelo720Error::MalformedField);
            },
        };
        let field: Vec<u8> = copy_range(line, 414, 422);
        let fecha_incorporacion: Modelo720Date = match Modelo720Date::decode(field.as_slice()) {
            Ok(x) => x,
            Err(_) => {
                return Err(Modelo720Error::MalformedField);
            },
        };
        let field: Vec<u8> = copy_range(line, 422, 423);
        let origen_bien_derecho: Option<char> = match read_opt_char(field.as_slice()) {
            Some(x) => x,
            None => {
                return Err(Modelo720Error::MalformedField);
            },
        };
        let field: Vec<u8> = copy_range(line, 423, 431);
        let fecha_extincion: Modelo720Date = match Modelo720Date::decode(field.as_slice()) {
            Ok(x) => x,
            Err(_) => {
                return Err(Modelo720Error::MalformedField);
            },
        };
        let field: Vec<u8> = copy_range(line, 431, 446);
        let valoracion1: Modelo720Number<15> = match Modelo720Number::<15>::decode(
            field.as_slice(),
        ) {
            Ok(x) => x,
            Err(_) => {
                return Err(Modelo720Error::MalformedField);
            },
        };
        let field: Vec<u8> = copy_range(line, 446, 461);
        let valoracion2: Modelo720Number<15> = match Modelo720Number::<15>::decode(
            field.as_slice(),
        ) {
            Ok(x) => x,
            Err(_) => {
                return Err(Modelo720Error::MalformedField);
            },
        };
        let field: Vec<u8> = copy_range(line, 461, 462);
        let clave_representacion_valores: Option<char> = match read_opt_char(field.as_slice()) {
            Some(x) => x,
            None => {
                return Err(Modelo720Error::MalformedField);
            },
        };
        let field: Vec<u8> = copy_range(line, 462, 474);
        let numero_valores: Option<Shares> = match read_opt_shares(field.as_slice()) {
            Some(x) => x,
            None => {
                return Err(Modelo720Error::MalformedField);
            },
        };
        let field: Vec<u8> = copy_range(line, 474, 475);
        let clave_tipo_bien_inmueble: Option<char> = match read_opt_char(field.as_slice()) {
            Some(x) => x,
            None => {
                return Err(Modelo720Error::MalformedField);
            },
        };
        let field: Vec<u8> = copy_range(line, 475, 480);
        let porcentaje: i64 = match read_int(
            field.as_slice(),
            true,
            i64::MIN as i128,
            i64::MAX as i128,
        ) {
            Some(n) => n as i64,
            None => {
                return Err(Modelo720Error::MalformedField);
            },
        };
        Ok(
            Registro2Modelo720 {
                tipo,
                modelo_declaracion,
                ejercicio,
                nif_declarante,
                nif_declarado,
                nif_representante_legal,
                nombre,
                tipo_titularidad,
                clave_tipo_bien,
                subclave_tipo_bien,
                tipo_derecho_real_sobre_inmueble,
                codigo_pais,
                clave_identificacion,
                identificacion_valores,
                clave_identificacion_cuenta,
                codigo_bic,
                codigo_cuenta,
                identificacion_entidad,
                nif_pais_residencia_fiscal,
                nombre_via_publica_entidad,
                complemento_entidad,
                poblacion_entidad,
                provincia_entidad,
                codigo_postal_entidad,
                codigo_pais_entidad,
                fecha_incorporacion,
                origen_bien_derecho,
                fecha_extincion,
                valoracion1,
                valoracion2,
                clave_representacion_valores,
                numero_valores,
                clave_tipo_bien_inmueble,
                porcentaje,
            },
        )
    }
}

} // verus!
