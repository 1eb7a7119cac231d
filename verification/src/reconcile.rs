//! The declaration that two snapshots of a portfolio call for: what was
//! bought, what is still held and what was sold between them.

use vstd::prelude::*;
use crate::assets::{
    as_cents, asset_difference, asset_record, difference, price_per_share, Asset, AssetDifference,
    AssetView, AssetWithValuation,
};
use crate::decimal::{decimal_product, units_at, Decimal, DecimalView};
use crate::error::Modelo720Error;
use crate::join::{full_join, FullJoinIterator, JoinResult, JoinView};
use crate::modelo::{built, entries_view, totals_in_range, Modelo720, Modelo720View};
use crate::number::{Modelo720Number, Shares, MAX_HUNDREDTHS, MIN_HUNDREDTHS};
use crate::portfolio::Portfolio;
use crate::registro2::{Registro2Modelo720, Registro2View};

verus! {

/// What happened to an asset between two snapshots.
pub enum PortfolioChange<'a> {
    /// Only the current snapshot has the asset.
    NewAcquisition(&'a Asset),
    /// Both snapshots have the asset: the current one first.
    Changed(&'a Asset, &'a Asset),
    /// Only the previous snapshot has the asset.
    Sold(&'a Asset),
}

/// The content of a [`PortfolioChange`].
pub enum ChangeView {
    NewAcquisition(AssetView),
    Changed(AssetView, AssetView),
    Sold(AssetView),
}

impl<'a> View for PortfolioChange<'a> {
    type V = ChangeView;

    open spec fn view(&self) -> ChangeView {
        match self {
            PortfolioChange::NewAcquisition(a) => ChangeView::NewAcquisition(a.asset()),
            PortfolioChange::Changed(a, b) => ChangeView::Changed(a.asset(), b.asset()),
            PortfolioChange::Sold(b) => ChangeView::Sold(b.asset()),
        }
    }
}

/// The change that a step of the join of current and previous assets shows.
pub open spec fn classified(step: JoinView) -> ChangeView {
    match step {
        JoinView::OuterLeft(a) => ChangeView::NewAcquisition(a),
        JoinView::Inner(a, b) => ChangeView::Changed(a, b),
        JoinView::OuterRight(b) => ChangeView::Sold(b),
    }
}

/// One hundred, the number of cents of a unit.
pub open spec fn hundred() -> DecimalView {
    DecimalView { mantissa: 100, scale: 0 }
}

/// The value in cents of `shares` at `price`: their product times one
/// hundred, rounded half away from zero, where an `i64` holds it.
pub open spec fn priced_cents(shares: DecimalView, price: DecimalView) -> Result<
    int,
    Modelo720Error,
> {
    match decimal_product(shares, price) {
        Some(value) => match decimal_product(value, hundred()) {
            Some(cents) => if MIN_HUNDREDTHS <= units_at(cents, 0) <= MAX_HUNDREDTHS {
                Ok(units_at(cents, 0))
            } else {
                Err(Modelo720Error::Overflow)
            },
            None => Err(Modelo720Error::Overflow),
        },
        None => Err(Modelo720Error::Overflow),
    }
}

/// An amount of whole cents.
pub open spec fn cents_amount(cents: int) -> DecimalView {
    DecimalView { mantissa: cents, scale: 2 }
}

/// The magnitude of a decimal.
pub open spec fn magnitude(v: DecimalView) -> DecimalView {
    DecimalView { mantissa: if v.mantissa < 0 { -v.mantissa } else { v.mantissa }, scale: v.scale }
}

/// The record of an asset with an origin, a number of shares and a first
/// valuation in cents.
pub open spec fn event_record(
    a: AssetView,
    origin: char,
    shares: DecimalView,
    cents: int,
    ejercicio: int,
    nif: Seq<char>,
    name: Seq<char>,
) -> Registro2View {
    Registro2View {
        origen_bien_derecho: Some(origin),
        numero_valores: Some(shares),
        valoracion1: cents_amount(cents),
        ..asset_record(a, ejercicio, nif, name)
    }
}

/// The records of an asset that only the current snapshot has: one, with
/// the origin `A`, the shares of the asset and its valuation in cents.
pub open spec fn acquisition_records(
    a: AssetView,
    ejercicio: int,
    nif: Seq<char>,
    name: Seq<char>,
) -> Result<Seq<Registro2View>, Modelo720Error> {
    match as_cents(a.valuation) {
        Ok(cents) => Ok(seq![event_record(a, 'A', a.shares, cents, ejercicio, nif, name)]),
        Err(e) => Err(e),
    }
}

/// The records of an asset that only the previous snapshot has: one, with
/// the origin `C` and the shares of the asset; its valuation is not stated.
pub open spec fn sale_records(
    old: AssetView,
    ejercicio: int,
    nif: Seq<char>,
    name: Seq<char>,
) -> Seq<Registro2View> {
    seq![
        Registro2View {
            origen_bien_derecho: Some('C'),
            numero_valores: Some(old.shares),
            ..asset_record(old, ejercicio, nif, name)
        },
    ]
}

/// The records of a holding that grew by `delta` shares: the shares held
/// before at the current price, with the origin `M`, and the shares added at
/// the current price, with the origin `A`.
pub open spec fn growth_records(
    new: AssetView,
    old: AssetView,
    delta: DecimalView,
    price: DecimalView,
    ejercicio: int,
    nif: Seq<char>,
    name: Seq<char>,
) -> Result<Seq<Registro2View>, Modelo720Error> {
    match priced_cents(old.shares, price) {
        Ok(held) => match priced_cents(delta, price) {
            Ok(added) => Ok(
                seq![
                    event_record(old, 'M', old.shares, held, ejercicio, nif, name),
                    event_record(new, 'A', delta, added, ejercicio, nif, name),
                ],
            ),
            Err(e) => Err(e),
        },
        Err(e) => Err(e),
    }
}

/// The records of a holding that shrank by `delta` shares: the current asset
/// as it stands, with the origin `M`, and the shares given up at the current
/// price, with the origin `C`.
pub open spec fn shrink_records(
    new: AssetView,
    delta: DecimalView,
    price: DecimalView,
    ejercicio: int,
    nif: Seq<char>,
    name: Seq<char>,
) -> Result<Seq<Registro2View>, Modelo720Error> {
    match priced_cents(magnitude(delta), price) {
        Ok(gone) => Ok(
            seq![
                asset_record(new, ejercicio, nif, name),
                event_record(new, 'C', magnitude(delta), gone, ejercicio, nif, name),
            ],
        ),
        Err(e) => Err(e),
    }
}

/// The records of an asset that both snapshots have. The difference of the
/// shares decides: more shares give two records, as many give one record of
/// the current asset as it stands, fewer give two records.
pub open spec fn change_records(
    new: AssetView,
    old: AssetView,
    ejercicio: int,
    nif: Seq<char>,
    name: Seq<char>,
) -> Result<Seq<Registro2View>, Modelo720Error> {
    match difference(new, old) {
        Ok(diff) => match price_per_share(new) {
            Ok(price) => if diff.shares.mantissa > 0 {
                growth_records(new, old, diff.shares, price, ejercicio, nif, name)
            } else if diff.shares.mantissa == 0 {
                Ok(seq![asset_record(new, ejercicio, nif, name)])
            } else {
                shrink_records(new, diff.shares, price, ejercicio, nif, name)
            },
            Err(e) => Err(e),
        },
        Err(e) => Err(e),
    }
}

/// The detail records that a change calls for.
pub open spec fn expansion(
    change: ChangeView,
    ejercicio: int,
    nif: Seq<char>,
    name: Seq<char>,
) -> Result<Seq<Registro2View>, Modelo720Error> {
    match change {
        ChangeView::NewAcquisition(a) => acquisition_records(a, ejercicio, nif, name),
        ChangeView::Changed(new, old) => change_records(new, old, ejercicio, nif, name),
        ChangeView::Sold(old) => Ok(sale_records(old, ejercicio, nif, name)),
    }
}

/// `found` before what `rest` gives, or the error that `rest` gives.
pub open spec fn records_before(
    found: Seq<Registro2View>,
    rest: Result<Seq<Registro2View>, Modelo720Error>,
) -> Result<Seq<Registro2View>, Modelo720Error> {
    match rest {
        Ok(more) => Ok(found + more),
        Err(e) => Err(e),
    }
}

/// The detail records that the steps of a join call for, in the order of the
/// steps; the first step that calls for none decides the error.
pub open spec fn expanded(
    steps: Seq<JoinView>,
    ejercicio: int,
    nif: Seq<char>,
    name: Seq<char>,
) -> Result<Seq<Registro2View>, Modelo720Error>
    decreases steps.len(),
{
    if steps.len() == 0 {
        Ok(Seq::<Registro2View>::empty())
    } else {
        match expansion(classified(steps[0]), ejercicio, nif, name) {
            Ok(records) => records_before(
                records,
                expanded(steps.drop_first(), ejercicio, nif, name),
            ),
            Err(e) => Err(e),
        }
    }
}

/// The declaration that the current and the previous snapshot call for: the
/// records of every step of their join, under a header that counts them and
/// holds their totals.
pub open spec fn reconciled(
    ejercicio: int,
    nif: Seq<char>,
    name: Seq<char>,
    phone: int,
    current: Seq<AssetView>,
    previous: Seq<AssetView>,
) -> Result<Modelo720View, Modelo720Error> {
    match expanded(full_join(current, previous), ejercicio, nif, name) {
        Ok(entries) => if totals_in_range(entries, false) && totals_in_range(entries, true) {
            Ok(built(ejercicio, nif, name, phone, entries))
        } else {
            Err(Modelo720Error::Overflow)
        },
        Err(e) => Err(e),
    }
}

/// The change that a step of the join shows.
pub fn classify<'a>(step: JoinResult<'a>) -> (r: PortfolioChange<'a>)
    ensures
        r@ == classified(step@),
{
    match step {
        JoinResult::OuterLeft(a) => PortfolioChange::NewAcquisition(a),
        JoinResult::Inner(a, b) => PortfolioChange::Changed(a, b),
        JoinResult::OuterRight(b) => PortfolioChange::Sold(b),
    }
}

/// The value in cents of `shares` at `price`.
pub fn price_in_cents(shares: Decimal, price: Decimal) -> (r: Result<i64, Modelo720Error>)
    ensures
        crate::assets::int_result(r) == priced_cents(shares@, price@),
{
    let value: Decimal = match shares.checked_mul(price) {
        Some(v) => v,
        None => {
            return Err(Modelo720Error::Overflow);
        },
    };
    let cents: Decimal = match value.checked_mul(Decimal::from_i64(100)) {
        Some(c) => c,
        None => {
            return Err(Modelo720Error::Overflow);
        },
    };
    let whole: i128 = cents.rounded_integer();
    if whole < MIN_HUNDREDTHS || whole > MAX_HUNDREDTHS {
        Err(Modelo720Error::Overflow)
    } else {
        Ok(whole as i64)
    }
}

/// The record of an asset with an origin, a number of shares and a first
/// valuation in cents.
fn event<A: AssetWithValuation>(
    a: &A,
    origin: char,
    shares: Decimal,
    cents: i64,
    ejercicio: i16,
    nif: &str,
    name: &str,
) -> (r: Registro2Modelo720)
    ensures
        r@ == event_record(a.asset(), origin, shares@, cents as int, ejercicio as int, nif@, name@),
{
    let mut registro: Registro2Modelo720 = a.modelo_720_registro(ejercicio, nif, name);
    registro.origen_bien_derecho = Some(origin);
    registro.numero_valores = Some(Shares(shares));
    registro.valoracion1 = Modelo720Number::from_cents(cents);
    registro
}

/// Appends to `out` the detail records that a change calls for. Where it
/// calls for none, `out` stays as it was.
pub fn expand(
    out: &mut Vec<Registro2Modelo720>,
    change: PortfolioChange<'_>,
    ejercicio: i16,
    nif: &str,
    name: &str,
) -> (r: Result<(), Modelo720Error>)
    ensures
        r is Ok <==> expansion(change@, ejercicio as int, nif@, name@) is Ok,
        r is Ok ==> entries_view(final(out)@) == entries_view(old(out)@) + expansion(
            change@,
            ejercicio as int,
            nif@,
            name@,
        )->Ok_0,
        r matches Err(e) ==> expansion(change@, ejercicio as int, nif@, name@) == Err::<
            Seq<Registro2View>,
            Modelo720Error,
        >(e) && final(out)@ == old(out)@,
{
    let ghost before = entries_view(out@);
    match change {
        PortfolioChange::NewAcquisition(a) => {
            let cents: i64 = match a.valuation_as_cents() {
                Ok(c) => c,
                Err(e) => {
                    return Err(e);
                },
            };
            let registro = event(a, 'A', a.shares().0, cents, ejercicio, nif, name);
            out.push(registro);
            assert(entries_view(out@) =~= before + seq![registro@]);
            Ok(())
        },
        PortfolioChange::Sold(old) => {
            let mut registro: Registro2Modelo720 = old.modelo_720_registro(ejercicio, nif, name);
            registro.origen_bien_derecho = Some('C');
            registro.numero_valores = Some(old.shares());
            out.push(registro);
            assert(entries_view(out@) =~= before + seq![registro@]);
            Ok(())
        },
        PortfolioChange::Changed(new, old) => {
            let diff: AssetDifference = match asset_difference(new, old) {
                Ok(d) => d,
                Err(e) => {
                    return Err(e);
                },
            };
            let price: Decimal = match new.price_per_share() {
                Ok(p) => p,
                Err(e) => {
                    return Err(e);
                },
            };
            let delta: Decimal = diff.shares.0;
            if delta.is_positive() {
                let held: i64 = match price_in_cents(old.shares().0, price) {
                    Ok(c) => c,
                    Err(e) => {
                        return Err(e);
                    },
                };
                let added: i64 = match price_in_cents(delta, price) {
                    Ok(c) => c,
                    Err(e) => {
                        return Err(e);
                    },
                };
                let first = event(old, 'M', old.shares().0, held, ejercicio, nif, name);
                let second = event(new, 'A', delta, added, ejercicio, nif, name);
                out.push(first);
                out.push(second);
                assert(entries_view(out@) =~= before + seq![first@, second@]);
                Ok(())
            } else if delta.is_zero() {
                let registro: Registro2Modelo720 = new.modelo_720_registro(ejercicio, nif, name);
                out.push(registro);
                assert(entries_view(out@) =~= before + seq![registro@]);
                Ok(())
            } else {
                let gone_shares: Decimal = delta.abs();
                let gone: i64 = match price_in_cents(gone_shares, price) {
                    Ok(c) => c,
                    Err(e) => {
                        return Err(e);
                    },
                };
                let first: Registro2Modelo720 = new.modelo_720_registro(ejercicio, nif, name);
                let second = event(new, 'C', gone_shares, gone, ejercicio, nif, name);
                out.push(first);
                out.push(second);
                assert(entries_view(out@) =~= before + seq![first@, second@]);
                Ok(())
            }
        },
    }
}

/// Records found in two steps come before the rest as if found in one.
pub proof fn lemma_records_before_twice(
    a: Seq<Registro2View>,
    b: Seq<Registro2View>,
    rest: Result<Seq<Registro2View>, Modelo720Error>,
)
    ensures
        records_before(a, records_before(b, rest)) == records_before(a + b, rest),
{
    match rest {
        Ok(more) => {
            assert(a + (b + more) =~= (a + b) + more);
        },
        Err(_) => {},
    }
}

/// The declaration of a declarant that the current and the previous
/// snapshot of a portfolio call for.
pub fn compute_modelo720(
    ejercicio: i16,
    nif: &str,
    name: &str,
    phone: i64,
    current: &Portfolio,
    previous: &Portfolio,
) -> (r: Result<Modelo720, Modelo720Error>)
    ensures
        r matches Ok(m) ==> Ok::<Modelo720View, Modelo720Error>(m@) == reconciled(
            ejercicio as int,
            nif@,
            name@,
            phone as int,
            current@,
            previous@,
        ),
        r matches Err(e) ==> Err::<Modelo720View, Modelo720Error>(e) == reconciled(
            ejercicio as int,
            nif@,
            name@,
            phone as int,
            current@,
            previous@,
        ),
{
    let mut steps = FullJoinIterator::new(current.assets.as_slice(), previous.assets.as_slice());
    let mut entries: Vec<Registro2Modelo720> = Vec::new();
    let ghost whole = expanded(full_join(current@, previous@), ejercicio as int, nif@, name@);
    proof {
        assert(entries_view(entries@) =~= Seq::<Registro2View>::empty());
        match whole {
            Ok(more) => {
                assert(Seq::<Registro2View>::empty() + more =~= more);
            },
            Err(_) => {},
        }
    }
    loop
        invariant
            whole == expanded(full_join(current@, previous@), ejercicio as int, nif@, name@),
            whole == records_before(
                entries_view(entries@),
                expanded(
                    full_join(steps.left_rest(), steps.right_rest()),
                    ejercicio as int,
                    nif@,
                    name@,
                ),
            ),
        ensures
            whole == Ok::<Seq<Registro2View>, Modelo720Error>(entries_view(entries@)),
        decreases steps.left_rest().len() + steps.right_rest().len(),
    {
        let ghost l = steps.left_rest();
        let ghost r = steps.right_rest();
        let ghost found = entries_view(entries@);
        match steps.next() {
            None => {
                proof {
                    assert(found + Seq::<Registro2View>::empty() =~= found);
                }
                break ;
            },
            Some(step) => {
                proof {
                    assert(full_join(l, r).drop_first() =~= full_join(
                        steps.left_rest(),
                        steps.right_rest(),
                    ));
                    assert(full_join(l, r)[0] == step@);
                }
                match expand(&mut entries, classify(step), ejercicio, nif, name) {
                    Ok(()) => {
                        proof {
                            lemma_records_before_twice(
                                found,
                                expansion(classified(step@), ejercicio as int, nif@, name@)->Ok_0,
                                expanded(
                                    full_join(steps.left_rest(), steps.right_rest()),
                                    ejercicio as int,
                                    nif@,
                                    name@,
                                ),
                            );
                        }
                    },
                    Err(e) => {
                        return Err(e);
                    },
                }
            },
        }
    }
    Modelo720::new(ejercicio, nif, name, phone, entries)
}

} // verus!
