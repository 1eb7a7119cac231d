//! Portfolios from the rows of broker statements.
//!
//! The rows are plain values; reading them from a file is left to the caller.

use vstd::prelude::*;
use crate::assets::{
    mintos_note, Asset, AssetView, AssetWithValuation, Etf, MintosNote, Modelo720Code,
};
use crate::decimal::{decimal_sum, Decimal, DecimalView};
use crate::error::Modelo720Error;
use crate::field::option_chars;
use crate::order::{compare_bytes, Relation};
use crate::portfolio::{assets_view, ordered, sorted_by_isin, Portfolio};

verus! {

/// A broker whose statements can be turned into a portfolio.
#[derive(Debug, Copy, Clone, PartialEq, Eq, Structural, PartialOrd, Ord)]
pub enum SupportedBrokers {
    InteractiveBrokers,
    Mintos,
}

/// A row of a statement of Interactive Brokers: one position.
pub struct IbkrStatementEntry {
    pub description: String,
    pub isin: String,
    pub quantity: Decimal,
    pub position_value: Decimal,
}

/// A row of a statement of Mintos: one note.
pub struct MintosStatementEntry {
    pub isin: String,
    pub pending_principal: Decimal,
}

/// What a row of the activity statement of Mintos records.
pub enum PaymentType {
    PrincipalReceived,
    Investment,
    SecondaryMarketTransaction,
    /// Activity that leaves the principal as it is.
    Unknown(String),
}

/// A row of the activity statement of Mintos.
pub struct MintosActivityStatementEntry {
    pub details: String,
    pub turnover: Decimal,
    pub payment_type: PaymentType,
}

/// What the first match of a regular expression in a text is, as the `regex`
/// crate finds it; none where the text has no match or the expression is
/// not one.
pub uninterp spec fn first_match(pattern: Seq<char>, text: Seq<char>) -> Option<Seq<char>>;

/// `regex::Regex::find` of the expression `pattern` on `text`. Trusted: the
/// result is the text of the match that the crate finds first, a function of
/// the two strings alone.
#[verifier::external_body]
fn find_first(pattern: &str, text: &str) -> (r: Option<String>)
    ensures
        option_chars(r) == first_match(pattern@, text@),
{
    match regex::Regex::new(pattern) {
        Ok(expression) => expression.find(text).map(|m| m.as_str().to_string()),
        Err(_) => None,
    }
}

/// The regular expression that the identifier of a note matches.
pub open spec fn isin_pattern() -> Seq<char> {
    "LV\\w{9}\\d"@
}

impl MintosActivityStatementEntry {
    /// The identifier of the note that the row is about, where its details
    /// name one.
    pub fn isin(&self) -> (r: Option<String>)
        ensures
            option_chars(r) == first_match(isin_pattern(), self.details@),
    {
        find_first("LV\\w{9}\\d", self.details.as_str())
    }
}

/// The asset that a row of Interactive Brokers stands for: a holding
/// deposited in the United States.
pub open spec fn ibkr_asset(e: IbkrStatementEntry) -> AssetView {
    AssetView {
        isin: e.isin@,
        valuation: e.position_value@,
        shares: e.quantity@,
        country_of_deposit: "US"@,
        description: e.description@,
        code: Modelo720Code { code: 'I', subcode: 0 },
    }
}

/// The assets that the rows of Interactive Brokers stand for.
pub open spec fn ibkr_assets(rows: Seq<IbkrStatementEntry>) -> Seq<AssetView> {
    rows.map_values(|e: IbkrStatementEntry| ibkr_asset(e))
}

/// The notes that the rows of Mintos stand for.
pub open spec fn mintos_assets(rows: Seq<MintosStatementEntry>) -> Seq<AssetView> {
    rows.map_values(|e: MintosStatementEntry| mintos_note(e.isin@, e.pending_principal@))
}

/// Where the first note with the identifier stands, or the number of notes
/// where there is none.
pub open spec fn note_index(notes: Seq<AssetView>, isin: Seq<char>) -> int
    decreases notes.len(),
{
    if notes.len() == 0 || notes[0].isin == isin {
        0
    } else {
        1 + note_index(notes.drop_first(), isin)
    }
}

/// The principal of the note with the identifier, or zero where there is none.
pub open spec fn principal_of(notes: Seq<AssetView>, isin: Seq<char>) -> DecimalView {
    if note_index(notes, isin) < notes.len() {
        notes[note_index(notes, isin)].valuation
    } else {
        DecimalView { mantissa: 0, scale: 0 }
    }
}

/// The notes with the note of the identifier set to a principal: in the
/// place of the first note that has the identifier, or behind all where
/// none has.
pub open spec fn put_note(
    notes: Seq<AssetView>,
    isin: Seq<char>,
    principal: DecimalView,
) -> Seq<AssetView> {
    if note_index(notes, isin) < notes.len() {
        notes.update(note_index(notes, isin), mintos_note(isin, principal))
    } else {
        notes.push(mintos_note(isin, principal))
    }
}

/// One note for each identifier: of the notes with one identifier the last
/// decides the principal.
pub open spec fn kept_notes(notes: Seq<AssetView>) -> Seq<AssetView>
    decreases notes.len(),
{
    if notes.len() == 0 {
        notes
    } else {
        put_note(kept_notes(notes.drop_last()), notes.last().isin, notes.last().valuation)
    }
}

/// The notes before a row of activity took place. A row that names a note
/// and changes the principal is undone: its turnover is added to the
/// principal of the note. Other rows leave the notes as they are.
pub open spec fn undone(notes: Seq<AssetView>, e: MintosActivityStatementEntry) -> Result<
    Seq<AssetView>,
    Modelo720Error,
> {
    if e.payment_type is Unknown {
        Ok(notes)
    } else {
        match first_match(isin_pattern(), e.details@) {
            Some(isin) => match decimal_sum(principal_of(notes, isin), e.turnover@) {
                Some(principal) => Ok(put_note(notes, isin, principal)),
                None => Err(Modelo720Error::Overflow),
            },
            None => Ok(notes),
        }
    }
}

/// The notes before the rows of activity took place, undone in the order of
/// the rows; the first sum out of range decides the error.
pub open spec fn reverted(
    notes: Seq<AssetView>,
    activity: Seq<MintosActivityStatementEntry>,
) -> Result<Seq<AssetView>, Modelo720Error>
    decreases activity.len(),
{
    if activity.len() == 0 {
        Ok(notes)
    } else {
        match reverted(notes, activity.drop_last()) {
            Ok(before) => undone(before, activity.last()),
            Err(e) => Err(e),
        }
    }
}

/// The portfolio of the notes of a statement before the activity took place.
pub open spec fn reverted_portfolio(
    statement: Seq<MintosStatementEntry>,
    activity: Seq<MintosActivityStatementEntry>,
) -> Result<Seq<AssetView>, Modelo720Error> {
    match reverted(kept_notes(sorted_by_isin(mintos_assets(statement))), activity) {
        Ok(notes) => Ok(sorted_by_isin(notes)),
        Err(e) => Err(e),
    }
}

/// The first note with the identifier stands where no note before has it.
pub proof fn lemma_note_index_at(notes: Seq<AssetView>, isin: Seq<char>, i: int)
    requires
        0 <= i <= notes.len(),
        forall|k: int| 0 <= k < i ==> (#[trigger] notes[k]).isin != isin,
        i < notes.len() ==> notes[i].isin == isin,
    ensures
        note_index(notes, isin) == i,
    decreases i,
{
    if i > 0 {
        let t = notes.drop_first();
        assert forall|k: int| 0 <= k < i - 1 implies (#[trigger] t[k]).isin != isin by {
            assert(t[k] == notes[k + 1]);
        }
        lemma_note_index_at(t, isin, i - 1);
    }
}

/// Whether two texts hold the same characters.
pub fn same_text(a: &str, b: &str) -> (r: bool)
    ensures
        r == (a@ == b@),
{
    proof {
        vstd::utf8::encode_utf8_decode_utf8(a@);
        vstd::utf8::encode_utf8_decode_utf8(b@);
        crate::order::lemma_lex_irreflexive(vstd::utf8::encode_utf8(a@));
    }
    compare_bytes(a.as_bytes(), b.as_bytes()) == Relation::Same
}

/// Where in `notes` the first note with the identifier stands.
fn find_note(notes: &Vec<Asset>, isin: &str) -> (i: usize)
    ensures
        i == note_index(assets_view(notes@), isin@),
        i <= notes@.len(),
{
    let mut i: usize = 0;
    while i < notes.len() && !same_text(notes[i].isin(), isin)
        invariant
            i <= notes@.len(),
            forall|k: int| 0 <= k < i ==> (#[trigger] assets_view(notes@)[k]).isin != isin@,
        decreases notes@.len() - i,
    {
        i = i + 1;
    }
    proof {
        lemma_note_index_at(assets_view(notes@), isin@, i as int);
    }
    i
}

/// Sets the note of the identifier to a principal.
fn set_note(notes: &mut Vec<Asset>, isin: String, principal: Decimal)
    ensures
        assets_view(final(notes)@) == put_note(assets_view(old(notes)@), isin@, principal@),
{
    let ghost before = assets_view(notes@);
    let i: usize = find_note(notes, isin.as_str());
    let note: Asset = Asset::MintosNote(MintosNote::new(isin, principal));
    if i < notes.len() {
        notes.set(i, note);
        assert(assets_view(notes@) =~= before.update(i as int, note.asset()));
    } else {
        notes.push(note);
        assert(assets_view(notes@) =~= before.push(note.asset()));
    }
}

/// The principal of the note of the identifier, or zero.
fn principal(notes: &Vec<Asset>, isin: &str) -> (r: Decimal)
    ensures
        r@ == principal_of(assets_view(notes@), isin@),
{
    let i: usize = find_note(notes, isin);
    if i < notes.len() {
        notes[i].valuation()
    } else {
        Decimal::zero()
    }
}

/// Undoes a row of activity.
fn undo(notes: &mut Vec<Asset>, e: &MintosActivityStatementEntry) -> (r: Result<(), Modelo720Error>)
    ensures
        r is Ok <==> undone(assets_view(old(notes)@), *e) is Ok,
        r is Ok ==> Ok::<Seq<AssetView>, Modelo720Error>(assets_view(final(notes)@)) == undone(
            assets_view(old(notes)@),
            *e,
        ),
        r matches Err(x) ==> Err::<Seq<AssetView>, Modelo720Error>(x) == undone(
            assets_view(old(notes)@),
            *e,
        ),
{
    match &e.payment_type {
        PaymentType::Unknown(_) => Ok(()),
        _ => match e.isin() {
            Some(isin) => {
                let old: Decimal = principal(notes, isin.as_str());
                match old.checked_add(e.turnover) {
                    Some(new) => {
                        set_note(notes, isin, new);
                        Ok(())
                    },
                    None => Err(Modelo720Error::Overflow),
                }
            },
            None => Ok(()),
        },
    }
}

/// The portfolio of the positions of a statement of Interactive Brokers.
pub fn parse_ibkr_statement(rows: Vec<IbkrStatementEntry>) -> (r: Portfolio)
    ensures
        r@ == sorted_by_isin(ibkr_assets(rows@)),
        ordered(r@),
{
    let ghost all = ibkr_assets(rows@);
    let mut rows = rows;
    let total: usize = rows.len();
    let mut taken: usize = 0;
    let mut assets: Vec<Asset> = Vec::new();
    proof {
        assert(assets_view(assets@) =~= all.subrange(0, 0));
        assert(ibkr_assets(rows@) =~= all.subrange(0, total as int));
    }
    while rows.len() > 0
        invariant
            taken + rows@.len() == total == all.len(),
            ibkr_assets(rows@) == all.subrange(taken as int, total as int),
            assets_view(assets@) == all.subrange(0, taken as int),
        decreases rows@.len(),
    {
        let ghost rest = ibkr_assets(rows@);
        let ghost held = rows@;
        let e: IbkrStatementEntry = rows.remove(0);
        proof {
            let left = ibkr_assets(rows@);
            let want = all.subrange(taken + 1, total as int);
            assert forall|k: int| 0 <= k < left.len() implies left[k] == want[k] by {
                assert(rows@[k] == held[k + 1]);
                assert(rest[k + 1] == ibkr_asset(held[k + 1]));
                assert(rest[k + 1] == all[taken + 1 + k]);
            }
            assert(left =~= want);
            assert(rest[0] == ibkr_asset(e));
            assert(rest[0] == all[taken as int]);
        }
        let asset: Asset = Asset::Etf(
            Etf {
                isin: e.isin,
                euro_valuation: e.position_value,
                shares: e.quantity,
                deposit_country: "US".to_owned(),
                description: e.description,
            },
        );
        let ghost done = assets_view(assets@);
        assert(asset.asset() == all[taken as int]);
        assets.push(asset);
        taken = taken + 1;
        assert(assets_view(assets@) =~= done.push(all[taken - 1]));
        assert(assets_view(assets@) =~= all.subrange(0, taken as int));
    }
    proof {
        assert(all.subrange(0, total as int) =~= all);
    }
    Portfolio::from_assets(assets)
}

/// The portfolio of the notes of a statement of Mintos, as they stand.
pub fn parse_mintos_statement_as_is(rows: Vec<MintosStatementEntry>) -> (r: Portfolio)
    ensures
        r@ == sorted_by_isin(mintos_assets(rows@)),
        ordered(r@),
{
    let ghost all = mintos_assets(rows@);
    let mut rows = rows;
    let total: usize = rows.len();
    let mut taken: usize = 0;
    let mut assets: Vec<Asset> = Vec::new();
    proof {
        assert(assets_view(assets@) =~= all.subrange(0, 0));
        assert(mintos_assets(rows@) =~= all.subrange(0, total as int));
    }
    while rows.len() > 0
        invariant
            taken + rows@.len() == total == all.len(),
            mintos_assets(rows@) == all.subrange(taken as int, total as int),
            assets_view(assets@) == all.subrange(0, taken as int),
        decreases rows@.len(),
    {
        let ghost rest = mintos_assets(rows@);
        let ghost held = rows@;
        let e: MintosStatementEntry = rows.remove(0);
        proof {
            let left = mintos_assets(rows@);
            let want = all.subrange(taken + 1, total as int);
            assert forall|k: int| 0 <= k < left.len() implies left[k] == want[k] by {
                assert(rows@[k] == held[k + 1]);
                let row = held[k + 1];
                assert(rest[k + 1] == mintos_note(row.isin@, row.pending_principal@));
                assert(rest[k + 1] == all[taken + 1 + k]);
            }
            assert(left =~= want);
            assert(rest[0] == mintos_note(e.isin@, e.pending_principal@));
            assert(rest[0] == all[taken as int]);
        }
        let asset: Asset = Asset::MintosNote(MintosNote::new(e.isin, e.pending_principal));
        let ghost done = assets_view(assets@);
        assert(asset.asset() == all[taken as int]);
        assets.push(asset);
        taken = taken + 1;
        assert(assets_view(assets@) =~= done.push(all[taken - 1]));
        assert(assets_view(assets@) =~= all.subrange(0, taken as int));
    }
    proof {
        assert(all.subrange(0, total as int) =~= all);
    }
    Portfolio::from_assets(assets)
}

/// The portfolio of the notes of a statement of Mintos before the rows of
/// the activity statement took place: each row that changed the principal
/// of a note is undone, in the order of the rows.
pub fn parse_mintos_statement_with_reverted_changes(
    statement: Vec<MintosStatementEntry>,
    activity: Vec<MintosActivityStatementEntry>,
) -> (r: Result<Portfolio, Modelo720Error>)
    ensures
        r matches Ok(p) ==> Ok::<Seq<AssetView>, Modelo720Error>(p@) == reverted_portfolio(
            statement@,
            activity@,
        ),
        r matches Err(e) ==> Err::<Seq<AssetView>, Modelo720Error>(e) == reverted_portfolio(
            statement@,
            activity@,
        ),
{
    let ghost rows = statement@;
    let current: Portfolio = parse_mintos_statement_as_is(statement);
    let ghost start = current@;
    let mut notes: Vec<Asset> = Vec::new();
    let mut i: usize = 0;
    proof {
        assert(start.subrange(0, 0) =~= Seq::<AssetView>::empty());
        assert(assets_view(notes@) =~= Seq::<AssetView>::empty());
    }
    while i < current.assets.len()
        invariant
            i <= current.assets@.len(),
            start == assets_view(current.assets@),
            assets_view(notes@) == kept_notes(start.subrange(0, i as int)),
        decreases current.assets@.len() - i,
    {
        let note: &Asset = &current.assets[i];
        proof {
            let next = start.subrange(0, i + 1);
            assert(next.drop_last() =~= start.subrange(0, i as int));
            assert(next.last() == note.asset());
        }
        set_note(&mut notes, note.isin().to_owned(), note.valuation());
        i = i + 1;
    }
    proof {
        assert(start.subrange(0, current.assets@.len() as int) =~= start);
    }
    let ghost kept = assets_view(notes@);
    let mut j: usize = 0;
    proof {
        assert(activity@.subrange(0, 0) =~= Seq::<MintosActivityStatementEntry>::empty());
    }
    while j < activity.len()
        invariant
            j <= activity@.len(),
            rows == statement@,
            kept == kept_notes(sorted_by_isin(mintos_assets(rows))),
            reverted(kept, activity@.subrange(0, j as int)) == Ok::<
                Seq<AssetView>,
                Modelo720Error,
            >(assets_view(notes@)),
        decreases activity@.len() - j,
    {
        proof {
            let next = activity@.subrange(0, j + 1);
            assert(next.drop_last() =~= activity@.subrange(0, j as int));
            assert(next.last() == activity@[j as int]);
        }
        match undo(&mut notes, &activity[j]) {
            Ok(()) => {},
            Err(e) => {
                proof {
                    assert(reverted(kept, activity@.subrange(0, j + 1)) == Err::<
                        Seq<AssetView>,
                        Modelo720Error,
                    >(e));
                    lemma_reverted_fails(kept, activity@, j + 1);
                }
                return Err(e);
            },
        }
        j = j + 1;
    }
    proof {
        assert(activity@.subrange(0, activity@.len() as int) =~= activity@);
    }
    Ok(Portfolio::from_assets(notes))
}

/// Once the rows up to some place cannot be undone, neither can all rows,
/// and the error is the same.
pub proof fn lemma_reverted_fails(
    notes: Seq<AssetView>,
    activity: Seq<MintosActivityStatementEntry>,
    k: int,
)
    requires
        0 <= k <= activity.len(),
        reverted(notes, activity.subrange(0, k)) is Err,
    ensures
        reverted(notes, activity) == reverted(notes, activity.subrange(0, k)),
    decreases activity.len() - k,
{
    if k == activity.len() {
        assert(activity.subrange(0, k) =~= activity);
    } else {
        let next = activity.subrange(0, k + 1);
        assert(next.drop_last() =~= activity.subrange(0, k));
        lemma_reverted_fails(notes, activity, k + 1);
    }
}

/// The portfolio of a statement of Mintos: of the notes as they stand where
/// there is no activity statement, else of the notes before the activity
/// took place.
pub fn parse_mintos_statement(
    statement: Vec<MintosStatementEntry>,
    activity: Option<Vec<MintosActivityStatementEntry>>,
) -> (r: Result<Portfolio, Modelo720Error>)
    ensures
        activity is None ==> (r matches Ok(p) && p@ == sorted_by_isin(mintos_assets(statement@))),
        activity matches Some(rows) ==> (r matches Ok(p) ==> Ok::<Seq<AssetView>, Modelo720Error>(
            p@,
        ) == reverted_portfolio(statement@, rows@)),
        activity matches Some(rows) ==> (r matches Err(e) ==> Err::<
            Seq<AssetView>,
            Modelo720Error,
        >(e) == reverted_portfolio(statement@, rows@)),
{
    match activity {
        Some(rows) => parse_mintos_statement_with_reverted_changes(statement, rows),
        None => Ok(parse_mintos_statement_as_is(statement)),
    }
}

} // verus!
