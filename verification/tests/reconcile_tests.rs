use modelo720::assets::{Asset, AssetWithValuation, Etf, MintosNote};
use modelo720::decimal::Decimal;
use modelo720::error::Modelo720Error;
use modelo720::modelo::Modelo720;
use modelo720::portfolio::Portfolio;
use modelo720::reconcile::compute_modelo720;

fn dec(mantissa: i128, scale: u32) -> Decimal {
    Decimal::new(mantissa, scale).unwrap()
}

fn etf(isin: &str, shares: i128, valuation: i128) -> Asset {
    Asset::Etf(Etf {
        isin: isin.to_string(),
        euro_valuation: dec(valuation, 0),
        shares: dec(shares, 0),
        deposit_country: "US".to_string(),
        description: "Some fund".to_string(),
    })
}

fn reconcile(current: Vec<Asset>, previous: Vec<Asset>) -> Result<Modelo720, Modelo720Error> {
    compute_modelo720(
        2023,
        "12345678Z",
        "DOE JOHN",
        600000000,
        &Portfolio::from_assets(current),
        &Portfolio::from_assets(previous),
    )
}

#[test]
fn new_asset_gives_one_acquired_record() {
    let m = reconcile(vec![etf("A", 10, 100)], vec![]).unwrap();
    assert_eq!(m.entries.len(), 1);
    let r = &m.entries[0];
    assert_eq!(r.origen_bien_derecho, Some('A'));
    assert_eq!(r.numero_valores.unwrap().0.cents(), 1000);
    assert_eq!(r.valoracion1.cents(), 10000);
    assert_eq!(r.identificacion_valores.as_deref(), Some("A"));
    assert_eq!(m.header.numero_registros_tipo2, 1);
    assert_eq!(m.header.suma_valoracion1.cents(), 10000);
    assert_eq!(m.header.suma_valoracion2.cents(), 0);
}

#[test]
fn unchanged_shares_give_one_maintained_record() {
    let m = reconcile(vec![etf("A", 10, 110)], vec![etf("A", 10, 100)]).unwrap();
    assert_eq!(m.entries.len(), 1);
    let r = &m.entries[0];
    assert_eq!(r.origen_bien_derecho, Some('M'));
    assert!(r.numero_valores.is_none());
    assert_eq!(r.valoracion1.cents(), 0);
}

#[test]
fn more_shares_give_a_maintained_and_an_acquired_record() {
    let current = vec![etf("A", 15, 165)];
    let price = current[0].price_per_share().unwrap();
    assert_eq!(price.cents(), 1100);
    let m = reconcile(current, vec![etf("A", 10, 100)]).unwrap();
    assert_eq!(m.entries.len(), 2);
    assert_eq!(m.entries[0].origen_bien_derecho, Some('M'));
    assert_eq!(m.entries[0].numero_valores.unwrap().0.cents(), 1000);
    assert_eq!(m.entries[0].valoracion1.cents(), 11000);
    assert_eq!(m.entries[1].origen_bien_derecho, Some('A'));
    assert_eq!(m.entries[1].numero_valores.unwrap().0.cents(), 500);
    assert_eq!(m.entries[1].valoracion1.cents(), 5500);
    assert_eq!(m.header.suma_valoracion1.cents(), 16500);
}

#[test]
fn sold_asset_gives_one_ceased_record() {
    let m = reconcile(vec![], vec![etf("B", 20, 200)]).unwrap();
    assert_eq!(m.entries.len(), 1);
    let r = &m.entries[0];
    assert_eq!(r.origen_bien_derecho, Some('C'));
    assert_eq!(r.numero_valores.unwrap().0.cents(), 2000);
    assert_eq!(r.valoracion1.cents(), 0);
}

#[test]
fn fewer_shares_give_a_maintained_and_a_ceased_record() {
    let m = reconcile(vec![etf("A", 4, 40)], vec![etf("A", 10, 90)]).unwrap();
    assert_eq!(m.entries.len(), 2);
    assert_eq!(m.entries[0].origen_bien_derecho, Some('M'));
    assert!(m.entries[0].numero_valores.is_none());
    assert_eq!(m.entries[0].valoracion1.cents(), 0);
    assert_eq!(m.entries[1].origen_bien_derecho, Some('C'));
    assert_eq!(m.entries[1].numero_valores.unwrap().0.cents(), 600);
    assert_eq!(m.entries[1].valoracion1.cents(), 6000);
}

#[test]
fn price_that_does_not_end_is_rounded_at_the_cent() {
    // 100 / 3 a share; ten shares held before are worth 333.33
    let m = reconcile(vec![etf("A", 30, 1000)], vec![etf("A", 10, 1)]).unwrap();
    assert_eq!(m.entries[0].valoracion1.cents(), 33333);
    assert_eq!(m.entries[1].valoracion1.cents(), 66667);
}

#[test]
fn changed_asset_without_shares_is_a_division_by_zero() {
    let r = reconcile(vec![etf("A", 0, 10)], vec![etf("A", 10, 100)]);
    assert_eq!(r.err(), Some(Modelo720Error::DivisionByZero));
}

#[test]
fn price_per_share_of_no_shares_is_a_division_by_zero() {
    let a = etf("A", 0, 10);
    assert_eq!(a.price_per_share().err(), Some(Modelo720Error::DivisionByZero));
}

#[test]
fn records_follow_the_order_of_the_identifiers() {
    let m = reconcile(
        vec![etf("C", 1, 1), etf("A", 1, 1)],
        vec![etf("D", 1, 1), etf("B", 1, 1), etf("A", 1, 1)],
    )
    .unwrap();
    let ids: Vec<&str> = m
        .entries
        .iter()
        .map(|r| r.identificacion_valores.as_deref().unwrap())
        .collect();
    assert_eq!(ids, vec!["A", "B", "C", "D"]);
    let origins: Vec<char> = m.entries.iter().map(|r| r.origen_bien_derecho.unwrap()).collect();
    assert_eq!(origins, vec!['M', 'C', 'A', 'C']);
}

#[test]
fn baseline_record_of_an_asset() {
    let a = Asset::Etf(Etf {
        isin: "IE00B4L5Y983".to_string(),
        euro_valuation: dec(100, 0),
        shares: dec(1, 0),
        deposit_country: "US".to_string(),
        description: "iShares Core".to_string(),
    });
    let r = a.modelo_720_registro(2023, "12345678Z", "DOE JOHN");
    assert_eq!(r.tipo, 2);
    assert_eq!(r.modelo_declaracion, 720);
    assert_eq!(r.ejercicio, 2023);
    assert_eq!(r.nif_declarante, "12345678Z");
    assert_eq!(r.nif_declarado, "12345678Z");
    assert_eq!(r.nombre, "DOE JOHN");
    assert_eq!(r.codigo_pais, "US");
    assert_eq!(r.clave_representacion_valores, Some('A'));
    assert_eq!(r.clave_identificacion, Some(1));
    assert_eq!(r.clave_tipo_bien, Some('I'));
    assert_eq!(r.subclave_tipo_bien, Some(0));
    assert_eq!(r.identificacion_entidad.as_deref(), Some("ISHARES CORE"));
    assert_eq!(r.codigo_pais_entidad.as_deref(), Some("IE"));
    assert_eq!(r.origen_bien_derecho, Some('M'));
    assert_eq!(r.porcentaje, 10000);
}

#[test]
fn lending_note_has_as_many_shares_as_its_valuation() {
    let note = MintosNote::new("LV0000800001".to_string(), dec(2550, 2));
    assert_eq!(note.shares().0.cents(), 2550);
    assert_eq!(note.valuation_as_cents(), Ok(2550));
    assert_eq!(note.shares_as_cents(), Ok(2550));
    assert_eq!(note.description, "MINTOS NOTE LV0000800001");
    assert_eq!(note.deposit_country, "LV");
    assert_eq!(note.modelo_720_code().code, 'V');
    assert_eq!(note.modelo_720_code().subcode, 2);
    assert_eq!(note.price_per_share().unwrap().cents(), 100);
}

#[test]
fn portfolio_is_sorted_and_keeps_equal_identifiers_in_order() {
    let p = Portfolio::from_assets(vec![etf("B", 1, 1), etf("A", 2, 1), etf("B", 3, 1), etf("A", 4, 1)]);
    let got: Vec<(String, i128)> =
        p.assets.iter().map(|a| (a.isin().to_string(), a.shares().0.cents())).collect();
    assert_eq!(
        got,
        vec![
            ("A".to_string(), 200),
            ("A".to_string(), 400),
            ("B".to_string(), 100),
            ("B".to_string(), 300)
        ]
    );
}

#[test]
fn merge_sorts_again_and_keeps_duplicates() {
    let p = Portfolio::from_assets(vec![etf("C", 1, 1), etf("A", 1, 1)]);
    let q = Portfolio::from_assets(vec![etf("B", 1, 1), etf("A", 2, 1)]);
    let m = p.merge(q);
    let got: Vec<(String, i128)> =
        m.assets.iter().map(|a| (a.isin().to_string(), a.shares().0.cents())).collect();
    assert_eq!(
        got,
        vec![
            ("A".to_string(), 100),
            ("A".to_string(), 200),
            ("B".to_string(), 100),
            ("C".to_string(), 100)
        ]
    );
}

#[test]
fn portfolio_in_strict_order_is_valid() {
    let sorted = Portfolio::from_assets(vec![etf("B", 1, 1), etf("A", 1, 1), etf("C", 1, 1)]);
    assert_eq!(sorted.validate(), Ok(()));
    assert_eq!(Portfolio::default().validate(), Ok(()));
    let twice = Portfolio::from_assets(vec![etf("B", 1, 1), etf("A", 1, 1), etf("B", 2, 1)]);
    assert_eq!(twice.validate(), Err(Modelo720Error::UnsortedOrDuplicateInput));
    let unsorted = Portfolio { assets: vec![etf("B", 1, 1), etf("A", 1, 1)] };
    assert_eq!(unsorted.validate(), Err(Modelo720Error::UnsortedOrDuplicateInput));
}

#[test]
fn valuation_beyond_an_i64_of_cents_is_an_overflow() {
    let big = Asset::Etf(Etf {
        isin: "A".to_string(),
        euro_valuation: dec(92_233_720_368_547_758_08, 0),
        shares: dec(1, 0),
        deposit_country: "US".to_string(),
        description: "Big".to_string(),
    });
    assert_eq!(big.valuation_as_cents(), Err(Modelo720Error::Overflow));
    let r = compute_modelo720(
        2023,
        "12345678Z",
        "DOE JOHN",
        600000000,
        &Portfolio::from_assets(vec![big]),
        &Portfolio::default(),
    );
    assert_eq!(r.err(), Some(Modelo720Error::Overflow));
}

#[test]
fn short_identifier_gives_its_whole_as_country() {
    let a = etf("X", 1, 1);
    let r = a.modelo_720_registro(2023, "12345678Z", "DOE JOHN");
    assert_eq!(r.codigo_pais_entidad.as_deref(), Some("X"));
    let b = etf("\u{d1}B123", 1, 1);
    let s = b.modelo_720_registro(2023, "12345678Z", "DOE JOHN");
    assert_eq!(s.codigo_pais_entidad.as_deref(), Some("\u{d1}B"));
}

#[test]
fn reconciled_declaration_is_written_and_read_back() {
    let m = reconcile(
        vec![etf("IE00B4L5Y983", 15, 165), etf("US0378331005", 3, 450)],
        vec![etf("IE00B4L5Y983", 10, 100), etf("DE0001102333", 7, 70)],
    )
    .unwrap();
    let bytes = m.encode().unwrap();
    let back = Modelo720::decode(&bytes).unwrap();
    assert_eq!(back.entries.len(), 4);
    assert_eq!(back.header.numero_registros_tipo2, 4);
    assert_eq!(back.header.suma_valoracion1.cents(), m.header.suma_valoracion1.cents());
    for (a, b) in m.entries.iter().zip(back.entries.iter()) {
        assert_eq!(a.identificacion_valores, b.identificacion_valores);
        assert_eq!(a.origen_bien_derecho, b.origen_bien_derecho);
        assert_eq!(a.valoracion1.cents(), b.valoracion1.cents());
        assert_eq!(
            a.numero_valores.map(|s| s.0.cents()),
            b.numero_valores.map(|s| s.0.cents())
        );
        assert_eq!(a.identificacion_entidad, b.identificacion_entidad);
        assert_eq!(a.codigo_pais_entidad, b.codigo_pais_entidad);
    }
    assert_eq!(back.encode().unwrap(), bytes);
}
