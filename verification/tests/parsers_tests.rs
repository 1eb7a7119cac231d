use modelo720::assets::AssetWithValuation;
use modelo720::decimal::Decimal;
use modelo720::error::Modelo720Error;
use modelo720::parsers::{
    parse_ibkr_statement, parse_mintos_statement, parse_mintos_statement_as_is,
    parse_mintos_statement_with_reverted_changes, same_text, IbkrStatementEntry,
    MintosActivityStatementEntry, MintosStatementEntry, PaymentType, SupportedBrokers,
};

fn dec(mantissa: i128, scale: u32) -> Decimal {
    Decimal::new(mantissa, scale).unwrap()
}

fn note(isin: &str, cents: i128) -> MintosStatementEntry {
    MintosStatementEntry { isin: isin.to_string(), pending_principal: dec(cents, 2) }
}

fn activity(details: &str, cents: i128, payment_type: PaymentType) -> MintosActivityStatementEntry {
    MintosActivityStatementEntry {
        details: details.to_string(),
        turnover: dec(cents, 2),
        payment_type,
    }
}

fn holdings(p: &modelo720::portfolio::Portfolio) -> Vec<(String, i128)> {
    p.assets.iter().map(|a| (a.isin().to_string(), a.valuation().cents())).collect()
}

#[test]
fn brokers_are_two() {
    assert_ne!(SupportedBrokers::InteractiveBrokers, SupportedBrokers::Mintos);
    assert!(SupportedBrokers::InteractiveBrokers < SupportedBrokers::Mintos);
}

#[test]
fn ibkr_rows_become_holdings_in_the_united_states() {
    let p = parse_ibkr_statement(vec![
        IbkrStatementEntry {
            description: "Vanguard".to_string(),
            isin: "IE00BK5BQT80".to_string(),
            quantity: dec(125, 1),
            position_value: dec(123456, 2),
        },
        IbkrStatementEntry {
            description: "iShares".to_string(),
            isin: "IE00B4L5Y983".to_string(),
            quantity: dec(3, 0),
            position_value: dec(200, 0),
        },
    ]);
    assert_eq!(p.assets.len(), 2);
    assert_eq!(p.assets[0].isin(), "IE00B4L5Y983");
    assert_eq!(p.assets[0].country_of_deposit(), "US");
    assert_eq!(p.assets[0].description(), "iShares");
    assert_eq!(p.assets[0].shares().0.cents(), 300);
    assert_eq!(p.assets[0].modelo_720_code().code, 'I');
    assert_eq!(p.assets[0].modelo_720_code().subcode, 0);
    assert_eq!(p.assets[1].isin(), "IE00BK5BQT80");
    assert_eq!(p.assets[1].valuation().cents(), 123456);
}

#[test]
fn mintos_rows_become_notes_in_order() {
    let p = parse_mintos_statement_as_is(vec![note("LV0000800002", 500), note("LV0000800001", 700)]);
    assert_eq!(
        holdings(&p),
        vec![("LV0000800001".to_string(), 700), ("LV0000800002".to_string(), 500)]
    );
    assert_eq!(p.assets[0].description(), "MINTOS NOTE LV0000800001");
    assert_eq!(p.assets[0].country_of_deposit(), "LV");
}

#[test]
fn activity_is_undone_in_the_notes() {
    let p = parse_mintos_statement_with_reverted_changes(
        vec![note("LV0000800002", 500), note("LV0000800001", 700)],
        vec![
            activity("Loan LV0000800001 - principal", 300, PaymentType::PrincipalReceived),
            activity("Loan LV0000800003 bought", -250, PaymentType::Investment),
            activity("Loan LV0000800003 interest", 9999, PaymentType::Unknown("Interest".to_string())),
            activity("An old loan 123", 4000, PaymentType::PrincipalReceived),
            activity("LV0000800003 partly sold", 100, PaymentType::SecondaryMarketTransaction),
        ],
    )
    .unwrap();
    assert_eq!(
        holdings(&p),
        vec![
            ("LV0000800001".to_string(), 1000),
            ("LV0000800002".to_string(), 500),
            ("LV0000800003".to_string(), -150)
        ]
    );
}

#[test]
fn of_two_notes_with_one_identifier_the_last_stays() {
    let p = parse_mintos_statement_with_reverted_changes(
        vec![note("LV0000800001", 100), note("LV0000800002", 5), note("LV0000800001", 200)],
        vec![],
    )
    .unwrap();
    assert_eq!(
        holdings(&p),
        vec![("LV0000800001".to_string(), 200), ("LV0000800002".to_string(), 5)]
    );
}

#[test]
fn identifier_of_a_row_is_the_first_match() {
    let e = activity("id LV123456789A1 and LV0000800001x LV0000800002", 0, PaymentType::Investment);
    assert_eq!(e.isin().as_deref(), Some("LV0000800001"));
    let none = activity("LV12345 too short", 0, PaymentType::Investment);
    assert_eq!(none.isin(), None);
}

#[test]
fn sum_out_of_range_is_an_overflow() {
    let max = 79_228_162_514_264_337_593_543_950_335;
    let r = parse_mintos_statement_with_reverted_changes(
        vec![MintosStatementEntry { isin: "LV0000800001".to_string(), pending_principal: dec(max, 0) }],
        vec![MintosActivityStatementEntry {
            details: "LV0000800001".to_string(),
            turnover: dec(max, 0),
            payment_type: PaymentType::PrincipalReceived,
        }],
    );
    assert_eq!(r.err(), Some(Modelo720Error::Overflow));
}

#[test]
fn statement_without_activity_is_taken_as_it_is() {
    let p = parse_mintos_statement(vec![note("LV0000800001", 100), note("LV0000800001", 200)], None)
        .unwrap();
    assert_eq!(p.assets.len(), 2);
    let q = parse_mintos_statement(
        vec![note("LV0000800001", 100)],
        Some(vec![activity("LV0000800001", 50, PaymentType::PrincipalReceived)]),
    )
    .unwrap();
    assert_eq!(holdings(&q), vec![("LV0000800001".to_string(), 150)]);
}

#[test]
fn texts_are_the_same_when_their_characters_are() {
    assert!(same_text("abc", "abc"));
    assert!(!same_text("abc", "abd"));
    assert!(!same_text("abc", "ab"));
    assert!(same_text("", ""));
}
