use modelo720::date::{Date, Modelo720Date};
use modelo720::decimal::Decimal;
use modelo720::error::Modelo720Error;
use modelo720::modelo::Modelo720;
use modelo720::number::{Modelo720Number, Shares};
use modelo720::registro1::Registro1Modelo720;
use modelo720::registro2::Registro2Modelo720;
use modelo720::titularidad::Modelo720Titularidad;

fn dec(mantissa: i128, scale: u32) -> Decimal {
    Decimal::new(mantissa, scale).unwrap()
}

fn amount15(mantissa: i128, scale: u32) -> Modelo720Number<15> {
    Modelo720Number::<15>::new(dec(mantissa, scale))
}

fn detail(isin: &str, valuation_cents: i64) -> Registro2Modelo720 {
    let mut r = Registro2Modelo720::new(
        2023,
        "12345678Z".to_string(),
        "DOE JOHN".to_string(),
        "US".to_string(),
    );
    r.identificacion_valores = Some(isin.to_string());
    r.valoracion1 = Modelo720Number::<15>::from_cents(valuation_cents);
    r
}

#[test]
fn amount_is_a_sign_and_zero_padded_cents() {
    assert_eq!(amount15(12345, 2).encode().unwrap(), b" 00000000012345".to_vec());
    assert_eq!(amount15(-12345, 2).encode().unwrap(), b"N00000000012345".to_vec());
    assert_eq!(amount15(7, 0).encode().unwrap(), b" 00000000000700".to_vec());
    assert_eq!(amount15(0, 0).encode().unwrap(), b" 00000000000000".to_vec());
}

#[test]
fn amount_rounds_half_away_from_zero() {
    assert_eq!(amount15(1005, 3).encode().unwrap(), b" 00000000000101".to_vec());
    assert_eq!(amount15(-1005, 3).encode().unwrap(), b"N00000000000101".to_vec());
    assert_eq!(amount15(1004, 3).encode().unwrap(), b" 00000000000100".to_vec());
    assert_eq!(amount15(2675, 3).rounded_to_cents().value().mantissa(), 268);
    assert_eq!(amount15(2675, 3).rounded_to_cents().value().scale(), 2);
    assert_eq!(amount15(25, 1).rounded_to_cents().value().scale(), 1);
}

#[test]
fn amount_that_rounds_to_nothing_has_no_sign() {
    assert_eq!(amount15(-1, 3).encode().unwrap(), b" 00000000000000".to_vec());
    assert_eq!(amount15(-4, 3).encode().unwrap()[0], b' ');
    assert_eq!(amount15(-5, 3).encode().unwrap(), b"N00000000000001".to_vec());
}

#[test]
fn amount_with_too_many_digits_is_an_overflow() {
    assert_eq!(amount15(99_999_999_999_999, 2).encode().unwrap(), b" 99999999999999".to_vec());
    assert_eq!(amount15(100_000_000_000_000, 2).encode(), Err(Modelo720Error::Overflow));
    assert_eq!(amount15(-100_000_000_000_000, 2).encode(), Err(Modelo720Error::Overflow));
    assert_eq!(Modelo720Number::<1>::new(dec(0, 0)).encode(), Err(Modelo720Error::Overflow));
}

#[test]
fn amount_is_read_back_at_the_cent() {
    for cents in [0i64, 1, -1, 99, 100, -12345, 99_999_999_999_999, -99_999_999_999_999] {
        let written = Modelo720Number::<15>::from_cents(cents).encode().unwrap();
        let read = Modelo720Number::<15>::decode(&written).unwrap();
        assert_eq!(read.cents(), cents as i128);
        assert_eq!(read.value().scale(), 2);
    }
}

#[test]
fn amount_without_sign_is_read_when_shorter_than_the_field() {
    let a = Modelo720Number::<15>::decode(b"00000000012345 ").unwrap();
    assert_eq!(a.cents(), 12345);
    let b = Modelo720Number::<15>::decode(b"            42 ").unwrap();
    assert_eq!(b.cents(), 42);
}

#[test]
fn amount_of_full_width_is_negative_whatever_its_first_byte() {
    let a = Modelo720Number::<15>::decode(b"X00000000012345").unwrap();
    assert_eq!(a.cents(), -12345);
}

#[test]
fn amount_with_something_else_than_digits_is_malformed() {
    assert_eq!(
        Modelo720Number::<15>::decode(b" 000000000123.5").err(),
        Some(Modelo720Error::MalformedNumber)
    );
    assert_eq!(
        Modelo720Number::<15>::decode(b"               ").err(),
        Some(Modelo720Error::MalformedNumber)
    );
    assert_eq!(
        Modelo720Number::<15>::decode(b"N0000000001234A").err(),
        Some(Modelo720Error::MalformedNumber)
    );
}

#[test]
fn rounding_agrees_with_rust_decimal() {
    let cases: [(i128, u32); 12] = [
        (1005, 3),
        (-1005, 3),
        (12345678, 5),
        (-12345678, 5),
        (5, 1),
        (15, 1),
        (25, 3),
        (-25, 3),
        (999_995, 4),
        (79_228_162_514_264_337_593_543_950_335, 28),
        (-79_228_162_514_264_337_593_543_950_335, 10),
        (123, 2),
    ];
    for (m, s) in cases {
        let theirs = rust_decimal::Decimal::from_i128_with_scale(m, s)
            .round_dp_with_strategy(2, rust_decimal::RoundingStrategy::MidpointAwayFromZero);
        let ours = dec(m, s).rounded_to_cents();
        assert_eq!(ours.mantissa(), theirs.mantissa());
        assert_eq!(ours.scale(), theirs.scale());
        let whole = rust_decimal::Decimal::from_i128_with_scale(m, s)
            .round_dp_with_strategy(0, rust_decimal::RoundingStrategy::MidpointAwayFromZero);
        assert_eq!(dec(m, s).rounded_integer(), whole.mantissa());
    }
}

#[test]
fn shares_are_hundredths_after_zeros() {
    assert_eq!(Shares(dec(10, 0)).encode(12).unwrap(), b"000000001000".to_vec());
    assert_eq!(Shares(dec(12345, 3)).encode(12).unwrap(), b"000000001235".to_vec());
    assert_eq!(Shares(dec(-15, 1)).encode(12).unwrap(), b"00000000-150".to_vec());
}

#[test]
fn shares_are_read_back_as_hundredths() {
    let s = Shares::decode(b"000000001235").unwrap();
    assert_eq!(s.0.mantissa(), 1235);
    assert_eq!(s.0.scale(), 2);
    assert_eq!(Shares::decode(b"00000000-150").err(), Some(Modelo720Error::MalformedField));
    assert_eq!(Shares::decode(b"        -150").unwrap().0.mantissa(), -150);
}

#[test]
fn shares_beyond_an_i64_are_an_overflow() {
    let big = Shares(dec(92_233_720_368_547_758_08, 0));
    assert_eq!(big.encode(12), Err(Modelo720Error::Overflow));
}

#[test]
fn date_is_eight_digits_and_no_date_eight_zeros() {
    let d = Modelo720Date(Some(Date::new(2023, 4, 9).unwrap()));
    assert_eq!(d.encode(), b"20230409".to_vec());
    assert_eq!(Modelo720Date(None).encode(), b"00000000".to_vec());
    let early = Modelo720Date(Some(Date::new(33, 12, 31).unwrap()));
    assert_eq!(early.encode(), b"00331231".to_vec());
}

#[test]
fn date_is_read_back() {
    let d = Modelo720Date::decode(b"20240229").unwrap().0.unwrap();
    assert_eq!((d.year(), d.month(), d.day()), (2024, 2, 29));
    assert!(Modelo720Date::decode(b"00000000").unwrap().0.is_none());
    for (y, m, day) in [(1999, 12, 31), (2000, 2, 29), (0, 1, 1), (9999, 12, 31)] {
        let written = Modelo720Date(Some(Date::new(y, m, day).unwrap())).encode();
        let read = Modelo720Date::decode(&written).unwrap().0.unwrap();
        assert_eq!((read.year(), read.month(), read.day()), (y, m, day));
    }
}

#[test]
fn date_that_the_calendar_lacks_is_malformed() {
    assert_eq!(Modelo720Date::decode(b"20230229").err(), Some(Modelo720Error::MalformedField));
    assert_eq!(Modelo720Date::decode(b"20231301").err(), Some(Modelo720Error::MalformedField));
    assert_eq!(Modelo720Date::decode(b"2023041 ").err(), Some(Modelo720Error::MalformedField));
    assert_eq!(Modelo720Date::decode(b"        ").err(), Some(Modelo720Error::MalformedField));
    assert_eq!(Modelo720Date::decode(b"2023-4-9").err(), Some(Modelo720Error::MalformedField));
    assert!(Date::new(1900, 2, 29).is_none());
    assert!(Date::new(2000, 2, 29).is_some());
    assert!(Date::new(10000, 1, 1).is_none());
    assert!(Date::new(-1, 1, 1).is_none());
    assert!(Date::new(2023, 4, 31).is_none());
}

#[test]
fn date_validity_agrees_with_chrono() {
    for y in [0, 1, 1900, 2000, 2023, 2024, 9999] {
        for m in 0..14u32 {
            for d in 0..33u32 {
                assert_eq!(
                    Date::new(y, m, d).is_some(),
                    chrono::NaiveDate::from_ymd_opt(y, m, d).is_some()
                );
            }
        }
    }
}

#[test]
fn ownership_is_a_digit_or_eight_and_words_in_upper_case() {
    assert_eq!(
        Modelo720Titularidad::Titular.encode(26),
        b"1                         ".to_vec()
    );
    assert_eq!(
        Modelo720Titularidad::ConPoderDisposicion.encode(26),
        b"7                         ".to_vec()
    );
    assert_eq!(
        Modelo720Titularidad::Otros("heredero".to_string()).encode(26),
        b"8HEREDERO                 ".to_vec()
    );
    assert_eq!(
        Modelo720Titularidad::Otros("a description that is far too long".to_string()).encode(26),
        b"8A DESCRIPTION THAT IS FAR".to_vec()
    );
}

#[test]
fn ownership_is_read_back() {
    assert!(matches!(
        Modelo720Titularidad::decode(b"1                         "),
        Ok(Modelo720Titularidad::Titular)
    ));
    assert!(matches!(
        Modelo720Titularidad::decode(b"2   "),
        Ok(Modelo720Titularidad::Representate)
    ));
    assert!(matches!(Modelo720Titularidad::decode(b"3"), Ok(Modelo720Titularidad::Autorizado)));
    assert!(matches!(Modelo720Titularidad::decode(b"4"), Ok(Modelo720Titularidad::Beneficiario)));
    assert!(matches!(Modelo720Titularidad::decode(b"5"), Ok(Modelo720Titularidad::Usufructuario)));
    assert!(matches!(Modelo720Titularidad::decode(b"6"), Ok(Modelo720Titularidad::Tomador)));
    match Modelo720Titularidad::decode(b"8HEREDERO                 ") {
        Ok(Modelo720Titularidad::Otros(what)) => assert_eq!(what, "HEREDERO"),
        _ => panic!("expected another kind of ownership"),
    }
}

#[test]
fn ownership_with_another_digit_is_malformed() {
    assert_eq!(
        Modelo720Titularidad::decode(b"9                         ").err(),
        Some(Modelo720Error::MalformedField)
    );
    assert_eq!(
        Modelo720Titularidad::decode(b"                          ").err(),
        Some(Modelo720Error::MalformedField)
    );
    assert_eq!(
        Modelo720Titularidad::decode(&[b'8', 0xff, b' ']).err(),
        Some(Modelo720Error::MalformedField)
    );
    assert_eq!(
        Modelo720Titularidad::decode(&[b'1', 0xff, b' ']).err(),
        Some(Modelo720Error::MalformedField)
    );
}

#[test]
fn header_line_has_every_field_in_its_place() {
    let m = Modelo720::new(2023, "12345678Z", "DOE JOHN", 600000000, vec![detail("A", 12345)])
        .unwrap();
    let line = m.header.encode().unwrap();
    assert_eq!(line.len(), 500);
    assert_eq!(&line[0..1], b"1");
    assert_eq!(&line[1..4], b"720");
    assert_eq!(&line[4..8], b"2023");
    assert_eq!(&line[8..17], b"12345678Z");
    assert_eq!(&line[17..57], b"DOE JOHN                                ");
    assert_eq!(&line[57..58], b"T");
    assert_eq!(&line[58..67], b"600000000");
    assert_eq!(&line[67..107], b"DOE JOHN                                ");
    assert_eq!(&line[107..120], b"7200000000000");
    assert_eq!(&line[120..122], b"  ");
    assert_eq!(&line[122..135], b"             ");
    assert_eq!(&line[135..144], b"000000001");
    assert_eq!(&line[144..162], b" 00000000000012345");
    assert_eq!(&line[162..180], b" 00000000000000000");
    assert!(line[180..].iter().all(|b| *b == b' '));
}

#[test]
fn detail_line_has_every_field_in_its_place() {
    let mut r = detail("IE00B4L5Y983", 1234567);
    r.clave_tipo_bien = Some('I');
    r.subclave_tipo_bien = Some(0);
    r.clave_identificacion = Some(1);
    r.identificacion_entidad = Some("ISHARES".to_string());
    r.codigo_pais_entidad = Some("IE".to_string());
    r.fecha_incorporacion = Modelo720Date(Some(Date::new(2021, 3, 5).unwrap()));
    r.origen_bien_derecho = Some('A');
    r.clave_representacion_valores = Some('A');
    r.numero_valores = Some(Shares(dec(105, 1)));
    let line = r.encode().unwrap();
    assert_eq!(line.len(), 500);
    assert_eq!(&line[0..8], b"27202023");
    assert_eq!(&line[8..17], b"12345678Z");
    assert_eq!(&line[17..26], b"12345678Z");
    assert_eq!(&line[26..35], b"         ");
    assert_eq!(&line[35..43], b"DOE JOHN");
    assert_eq!(&line[75..77], b"1 ");
    assert_eq!(&line[101..103], b"I0");
    assert_eq!(&line[128..130], b"US");
    assert_eq!(&line[130..131], b"1");
    assert_eq!(&line[131..143], b"IE00B4L5Y983");
    assert_eq!(&line[189..196], b"ISHARES");
    assert_eq!(&line[412..414], b"IE");
    assert_eq!(&line[414..422], b"20210305");
    assert_eq!(&line[422..423], b"A");
    assert_eq!(&line[423..431], b"00000000");
    assert_eq!(&line[431..446], b" 00000001234567");
    assert_eq!(&line[446..461], b" 00000000000000");
    assert_eq!(&line[461..462], b"A");
    assert_eq!(&line[462..474], b"000000001050");
    assert_eq!(&line[474..475], b" ");
    assert_eq!(&line[475..480], b"10000");
    assert!(line[480..].iter().all(|b| *b == b' '));
}

#[test]
fn absent_values_are_blank() {
    let r = detail("A", 0);
    let line = r.encode().unwrap();
    assert_eq!(&line[102..103], b" ");
    assert_eq!(&line[130..131], b" ");
    assert_eq!(&line[462..474], b"            ");
    let back = Registro2Modelo720::decode(&line).unwrap();
    assert_eq!(back.subclave_tipo_bien, None);
    assert_eq!(back.clave_identificacion, None);
    assert!(back.numero_valores.is_none());
    assert_eq!(back.codigo_bic, None);
}

#[test]
fn text_longer_than_its_field_is_cut() {
    let mut r = detail("A", 0);
    r.nombre = "A NAME THAT GOES ON FOR MUCH LONGER THAN FORTY BYTES".to_string();
    let line = r.encode().unwrap();
    assert_eq!(line.len(), 500);
    assert_eq!(&line[35..75], b"A NAME THAT GOES ON FOR MUCH LONGER THAN");
    assert_eq!(&line[75..76], b"1");
}

#[test]
fn detail_record_is_read_back() {
    let mut r = detail("IE00B4L5Y983", -1234567);
    r.tipo_titularidad = Modelo720Titularidad::Otros("HEIR".to_string());
    r.clave_tipo_bien = Some('V');
    r.subclave_tipo_bien = Some(2);
    r.numero_valores = Some(Shares(dec(2550, 2)));
    r.fecha_extincion = Modelo720Date(Some(Date::new(2023, 12, 31).unwrap()));
    r.nombre = "NU\u{d1}EZ".to_string();
    let back = Registro2Modelo720::decode(&r.encode().unwrap()).unwrap();
    assert_eq!(back.tipo, 2);
    assert_eq!(back.modelo_declaracion, 720);
    assert_eq!(back.ejercicio, 2023);
    assert_eq!(back.nif_declarante, "12345678Z");
    assert_eq!(back.nombre, "NU\u{d1}EZ");
    assert!(matches!(back.tipo_titularidad, Modelo720Titularidad::Otros(ref w) if w == "HEIR"));
    assert_eq!(back.clave_tipo_bien, Some('V'));
    assert_eq!(back.subclave_tipo_bien, Some(2));
    assert_eq!(back.identificacion_valores.as_deref(), Some("IE00B4L5Y983"));
    assert_eq!(back.valoracion1.cents(), -1234567);
    assert_eq!(back.numero_valores.unwrap().0.cents(), 2550);
    let gone = back.fecha_extincion.0.unwrap();
    assert_eq!((gone.year(), gone.month(), gone.day()), (2023, 12, 31));
    assert!(back.fecha_incorporacion.0.is_none());
    assert_eq!(back.porcentaje, 10000);
}

#[test]
fn line_of_another_width_is_truncated() {
    let line = detail("A", 0).encode().unwrap();
    assert_eq!(
        Registro2Modelo720::decode(&line[..499]).err(),
        Some(Modelo720Error::TruncatedRecord)
    );
    let mut longer = line.clone();
    longer.push(b' ');
    assert_eq!(Registro2Modelo720::decode(&longer).err(), Some(Modelo720Error::TruncatedRecord));
    assert_eq!(Registro1Modelo720::decode(b"").err(), Some(Modelo720Error::TruncatedRecord));
}

#[test]
fn line_with_a_bad_field_is_malformed() {
    let mut line = detail("A", 0).encode().unwrap();
    line[5] = b'x';
    assert_eq!(Registro2Modelo720::decode(&line).err(), Some(Modelo720Error::MalformedField));
    let mut amount = detail("A", 0).encode().unwrap();
    amount[440] = b'.';
    assert_eq!(Registro2Modelo720::decode(&amount).err(), Some(Modelo720Error::MalformedField));
    let mut text = detail("A", 0).encode().unwrap();
    text[36] = 0xff;
    assert_eq!(Registro2Modelo720::decode(&text).err(), Some(Modelo720Error::MalformedField));
    let mut filler = detail("A", 0).encode().unwrap();
    filler[490] = 0xff;
    assert!(Registro2Modelo720::decode(&filler).is_ok());
}

#[test]
fn build_counts_the_records_and_sums_the_rounded_valuations() {
    let mut a = detail("A", 0);
    a.valoracion1 = amount15(1005, 3);
    a.valoracion2 = amount15(-5, 3);
    let mut b = detail("B", 0);
    b.valoracion1 = amount15(1005, 3);
    b.valoracion2 = amount15(-5, 3);
    let m = Modelo720::new(2023, "12345678Z", "DOE JOHN", 600000000, vec![a, b]).unwrap();
    assert_eq!(m.header.numero_registros_tipo2, 2);
    assert_eq!(m.header.suma_valoracion1.cents(), 202);
    assert_eq!(m.header.suma_valoracion2.cents(), -2);
    assert_eq!(m.header.tipo, 1);
    assert_eq!(m.header.tipo_soporte, 'T');
    assert_eq!(m.header.id_declaracion, 7_200_000_000_000);
    assert_eq!(m.header.nombre_persona_contacto, "DOE JOHN");
}

#[test]
fn build_refuses_a_total_out_of_range() {
    let mut a = detail("A", 0);
    a.valoracion1 = amount15(79_228_162_514_264_337_593_543_950_335, 0);
    let r = Modelo720::new(2023, "12345678Z", "DOE JOHN", 600000000, vec![a]);
    assert_eq!(r.err(), Some(Modelo720Error::Overflow));
}

#[test]
fn file_is_the_header_and_each_record_each_with_a_newline() {
    let m = Modelo720::new(
        2023,
        "12345678Z",
        "DOE JOHN",
        600000000,
        vec![detail("A", 100), detail("B", 200)],
    )
    .unwrap();
    let bytes = m.encode().unwrap();
    assert_eq!(bytes.len(), 3 * 501);
    assert_eq!(bytes[500], b'\n');
    assert_eq!(bytes[1001], b'\n');
    assert_eq!(bytes[1502], b'\n');
    assert_eq!(&bytes[0..500], &m.header.encode().unwrap()[..]);
    assert_eq!(&bytes[501..1001], &m.entries[0].encode().unwrap()[..]);
    assert_eq!(&bytes[1002..1502], &m.entries[1].encode().unwrap()[..]);
    let empty = Modelo720::new(2023, "12345678Z", "DOE JOHN", 600000000, vec![]).unwrap();
    assert_eq!(empty.encode().unwrap().len(), 501);
}

#[test]
fn file_is_read_back_with_its_records_in_order() {
    let m = Modelo720::new(
        2023,
        "12345678Z",
        "DOE JOHN",
        600000000,
        vec![detail("C", 100), detail("A", 200), detail("B", 300)],
    )
    .unwrap();
    let bytes = m.encode().unwrap();
    let back = Modelo720::decode(&bytes).unwrap();
    assert_eq!(back.header.numero_registros_tipo2, 3);
    assert_eq!(back.header.suma_valoracion1.cents(), 600);
    assert_eq!(back.header.nif_declarante, "12345678Z");
    assert_eq!(back.header.ejercicio, 2023);
    assert_eq!(back.header.telefono, 600000000);
    let ids: Vec<&str> =
        back.entries.iter().map(|r| r.identificacion_valores.as_deref().unwrap()).collect();
    assert_eq!(ids, vec!["C", "A", "B"]);
    assert_eq!(back.encode().unwrap(), bytes);
}

#[test]
fn file_without_a_last_newline_and_with_empty_lines_is_read() {
    let m = Modelo720::new(2023, "12345678Z", "DOE JOHN", 600000000, vec![detail("A", 100)])
        .unwrap();
    let mut bytes = m.encode().unwrap();
    bytes.pop();
    assert_eq!(Modelo720::decode(&bytes).unwrap().entries.len(), 1);
    bytes.extend_from_slice(b"\n\n\n");
    assert_eq!(Modelo720::decode(&bytes).unwrap().entries.len(), 1);
}

#[test]
fn file_with_a_short_line_is_truncated() {
    let m = Modelo720::new(2023, "12345678Z", "DOE JOHN", 600000000, vec![detail("A", 100)])
        .unwrap();
    let bytes = m.encode().unwrap();
    assert_eq!(Modelo720::decode(&bytes[..900]).err(), Some(Modelo720Error::TruncatedRecord));
    assert_eq!(Modelo720::decode(&bytes[..300]).err(), Some(Modelo720Error::TruncatedRecord));
    assert_eq!(Modelo720::decode(b"").err(), Some(Modelo720Error::TruncatedRecord));
    let mut bad = bytes.clone();
    bad[501 + 4] = b'?';
    assert_eq!(Modelo720::decode(&bad).err(), Some(Modelo720Error::MalformedField));
}

#[test]
fn first_bad_line_decides_the_error() {
    let m = Modelo720::new(
        2023,
        "12345678Z",
        "DOE JOHN",
        600000000,
        vec![detail("A", 100), detail("B", 100)],
    )
    .unwrap();
    let bytes = m.encode().unwrap();
    let mut bad = bytes.clone();
    bad[501 + 4] = b'?';
    bad.truncate(1400);
    assert_eq!(Modelo720::decode(&bad).err(), Some(Modelo720Error::MalformedField));
}

#[test]
fn concat_adds_counts_and_totals_and_keeps_the_order() {
    let mut a = Modelo720::new(
        2023,
        "12345678Z",
        "DOE JOHN",
        600000000,
        vec![detail("A1", 20000), detail("A2", 30000)],
    )
    .unwrap();
    let b = Modelo720::new(
        2023,
        "87654321X",
        "ROE JANE",
        700000000,
        vec![detail("B1", 10000), detail("B2", 10000), detail("B3", 10000)],
    )
    .unwrap();
    assert_eq!(a.header.numero_registros_tipo2, 2);
    assert_eq!(a.header.suma_valoracion1.cents(), 50000);
    assert_eq!(b.header.numero_registros_tipo2, 3);
    assert_eq!(b.header.suma_valoracion1.cents(), 30000);
    a.concat(b).unwrap();
    assert_eq!(a.header.numero_registros_tipo2, 5);
    assert_eq!(a.header.suma_valoracion1.cents(), 80000);
    assert_eq!(a.header.suma_valoracion2.cents(), 0);
    assert_eq!(a.header.nif_declarante, "12345678Z");
    let ids: Vec<&str> =
        a.entries.iter().map(|r| r.identificacion_valores.as_deref().unwrap()).collect();
    assert_eq!(ids, vec!["A1", "A2", "B1", "B2", "B3"]);
    assert_eq!(a.encode().unwrap().len(), 6 * 501);
}

#[test]
fn concat_adds_the_totals_of_the_headers_as_they_stand() {
    let mut a =
        Modelo720::new(2023, "12345678Z", "DOE JOHN", 600000000, vec![detail("A", 100)]).unwrap();
    let mut b =
        Modelo720::new(2023, "12345678Z", "DOE JOHN", 600000000, vec![detail("B", 100)]).unwrap();
    b.header.suma_valoracion1 = Modelo720Number::<18>::from_cents(999);
    b.header.numero_registros_tipo2 = 7;
    a.concat(b).unwrap();
    assert_eq!(a.header.suma_valoracion1.cents(), 1099);
    assert_eq!(a.header.numero_registros_tipo2, 8);
    assert_eq!(a.entries.len(), 2);
}

#[test]
fn concat_out_of_range_leaves_the_declaration_as_it_was() {
    let mut a =
        Modelo720::new(2023, "12345678Z", "DOE JOHN", 600000000, vec![detail("A", 100)]).unwrap();
    let mut b =
        Modelo720::new(2023, "12345678Z", "DOE JOHN", 600000000, vec![detail("B", 100)]).unwrap();
    b.header.numero_registros_tipo2 = usize::MAX;
    assert_eq!(a.concat(b), Err(Modelo720Error::Overflow));
    assert_eq!(a.header.numero_registros_tipo2, 1);
    assert_eq!(a.entries.len(), 1);
    let mut c =
        Modelo720::new(2023, "12345678Z", "DOE JOHN", 600000000, vec![detail("C", 100)]).unwrap();
    c.header.suma_valoracion2 =
        Modelo720Number::<18>::new(dec(79_228_162_514_264_337_593_543_950_335, 0));
    let mut d =
        Modelo720::new(2023, "12345678Z", "DOE JOHN", 600000000, vec![detail("D", 100)]).unwrap();
    d.header.suma_valoracion2 =
        Modelo720Number::<18>::new(dec(79_228_162_514_264_337_593_543_950_335, 0));
    assert_eq!(c.concat(d), Err(Modelo720Error::Overflow));
    assert_eq!(c.entries.len(), 1);
}

#[test]
fn error_has_a_message() {
    assert_eq!(Modelo720Error::TruncatedRecord.message(), "a line is not exactly 500 bytes wide");
    assert!(Modelo720Error::DivisionByZero.message().contains("no shares"));
}
