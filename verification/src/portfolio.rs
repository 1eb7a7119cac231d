//! Portfolios: assets in the order of their identifiers.

use vstd::prelude::*;
use vstd::seq_lib::{to_multiset_build, to_multiset_insert};
use vstd::utf8::encode_utf8;
use crate::assets::{Asset, AssetView, AssetWithValuation};
use crate::error::Modelo720Error;
use crate::order::{
    compare_bytes, lemma_lex_asymmetric, lemma_lex_total, lemma_lex_transitive, lex_less, Relation,
};

verus! {

/// The key that orders assets: the bytes of the identifier.
pub open spec fn key(a: AssetView) -> Seq<u8> {
    encode_utf8(a.isin)
}

/// The contents of a list of assets.
pub open spec fn assets_view(assets: Seq<Asset>) -> Seq<AssetView> {
    assets.map_values(|a: Asset| a.asset())
}

/// Whether no asset comes after one with a greater identifier.
pub open spec fn ordered(s: Seq<AssetView>) -> bool {
    forall|i: int, j: int|
        0 <= i < j < s.len() ==> !lex_less(key(#[trigger] s[j]), key(#[trigger] s[i]))
}

/// Whether each asset has a greater identifier than the one before it: the
/// assets are in order and no identifier occurs twice.
pub open spec fn strictly_ordered(s: Seq<AssetView>) -> bool {
    forall|i: int, j: int|
        0 <= i < j < s.len() ==> lex_less(key(#[trigger] s[i]), key(#[trigger] s[j]))
}

/// Where `a` goes in `s`: behind the last asset whose identifier is not
/// greater than its own.
pub open spec fn insert_position(s: Seq<AssetView>, a: AssetView) -> int
    decreases s.len(),
{
    if s.len() > 0 && lex_less(key(a), key(s.last())) {
        insert_position(s.drop_last(), a)
    } else {
        s.len() as int
    }
}

/// `s` with `a` put behind the last asset whose identifier is not greater.
pub open spec fn insert_sorted(s: Seq<AssetView>, a: AssetView) -> Seq<AssetView> {
    s.insert(insert_position(s, a), a)
}

/// The assets of `s` in the order of their identifiers; assets with the same
/// identifier stay in the order in which they stand in `s`.
pub open spec fn sorted_by_isin(s: Seq<AssetView>) -> Seq<AssetView>
    decreases s.len(),
{
    if s.len() == 0 {
        s
    } else {
        insert_sorted(sorted_by_isin(s.drop_last()), s.last())
    }
}

/// The place of insertion lies in the sequence; all behind it are greater
/// than the asset, and the one before it is not.
pub proof fn lemma_insert_position(s: Seq<AssetView>, a: AssetView)
    ensures
        0 <= insert_position(s, a) <= s.len(),
        forall|k: int|
            insert_position(s, a) <= k < s.len() ==> lex_less(key(a), key(#[trigger] s[k])),
        insert_position(s, a) > 0 ==> !lex_less(key(a), key(s[insert_position(s, a) - 1])),
    decreases s.len(),
{
    if s.len() > 0 && lex_less(key(a), key(s.last())) {
        let t = s.drop_last();
        lemma_insert_position(t, a);
        assert forall|k: int| insert_position(s, a) <= k < s.len() implies lex_less(
            key(a),
            key(#[trigger] s[k]),
        ) by {
            if k < t.len() {
                assert(s[k] == t[k]);
            }
        }
        if insert_position(s, a) > 0 {
            assert(s[insert_position(s, a) - 1] == t[insert_position(t, a) - 1]);
        }
    }
}

/// The place of insertion is the one place with those properties.
pub proof fn lemma_insert_position_at(s: Seq<AssetView>, a: AssetView, j: int)
    requires
        0 <= j <= s.len(),
        forall|k: int| j <= k < s.len() ==> lex_less(key(a), key(#[trigger] s[k])),
        j > 0 ==> !lex_less(key(a), key(s[j - 1])),
    ensures
        insert_position(s, a) == j,
    decreases s.len() - j,
{
    if j < s.len() {
        let t = s.drop_last();
        assert(lex_less(key(a), key(s[s.len() - 1])));
        assert forall|k: int| j <= k < t.len() implies lex_less(key(a), key(#[trigger] t[k])) by {
            assert(t[k] == s[k]);
        }
        if j > 0 {
            assert(t[j - 1] == s[j - 1]);
        }
        lemma_insert_position_at(t, a, j);
    }
}

/// Putting an asset into an ordered sequence leaves it ordered.
pub proof fn lemma_insert_keeps_order(s: Seq<AssetView>, a: AssetView)
    requires
        ordered(s),
    ensures
        ordered(insert_sorted(s, a)),
{
    let j = insert_position(s, a);
    let r = insert_sorted(s, a);
    lemma_insert_position(s, a);
    assert forall|x: int, y: int| 0 <= x < y < r.len() implies !lex_less(
        key(#[trigger] r[y]),
        key(#[trigger] r[x]),
    ) by {
        if y < j {
            assert(r[x] == s[x] && r[y] == s[y]);
        } else if y == j {
            // r[y] is the asset; r[x] stands before the place of insertion
            assert(r[x] == s[x]);
            if lex_less(key(a), key(s[x])) {
                if x < j - 1 {
                    // s[x] is not greater than s[j - 1], which is not greater than the asset
                    lemma_lex_total(key(s[x]), key(s[j - 1]));
                    if lex_less(key(s[x]), key(s[j - 1])) {
                        lemma_lex_transitive(key(a), key(s[x]), key(s[j - 1]));
                    }
                }
            }
        } else if x < j {
            assert(r[x] == s[x] && r[y] == s[y - 1]);
        } else if x == j {
            assert(r[y] == s[y - 1]);
            lemma_lex_asymmetric(key(a), key(s[y - 1]));
        } else {
            assert(r[x] == s[x - 1] && r[y] == s[y - 1]);
        }
    }
}

/// Sorting gives an ordered sequence with the same assets.
pub proof fn lemma_sorted_by_isin(s: Seq<AssetView>)
    ensures
        ordered(sorted_by_isin(s)),
        sorted_by_isin(s).to_multiset() == s.to_multiset(),
        sorted_by_isin(s).len() == s.len(),
    decreases s.len(),
{
    if s.len() > 0 {
        let t = s.drop_last();
        lemma_sorted_by_isin(t);
        lemma_insert_keeps_order(sorted_by_isin(t), s.last());
        lemma_insert_position(sorted_by_isin(t), s.last());
        let sorted = sorted_by_isin(t);
        to_multiset_insert(sorted, insert_position(sorted, s.last()), s.last());
        to_multiset_build(t, s.last());
        assert(t.push(s.last()) =~= s);
    }
}

/// A list in which each asset has a greater identifier than the one before
/// it is in strict order.
pub proof fn lemma_neighbours_in_order(s: Seq<AssetView>)
    requires
        forall|k: int| 0 < k < s.len() ==> lex_less(key(#[trigger] s[k - 1]), key(s[k])),
    ensures
        strictly_ordered(s),
{
    assert forall|i: int, j: int| 0 <= i < j < s.len() implies lex_less(
        key(#[trigger] s[i]),
        key(#[trigger] s[j]),
    ) by {
        lemma_neighbours_reach(s, i, j);
    }
}

/// In such a list an asset has a smaller identifier than every later one.
proof fn lemma_neighbours_reach(s: Seq<AssetView>, i: int, j: int)
    requires
        forall|k: int| 0 < k < s.len() ==> lex_less(key(#[trigger] s[k - 1]), key(s[k])),
        0 <= i < j < s.len(),
    ensures
        lex_less(key(s[i]), key(s[j])),
    decreases j - i,
{
    assert(lex_less(key(s[j - 1]), key(s[j])));
    if i < j - 1 {
        lemma_neighbours_reach(s, i, j - 1);
        lemma_lex_transitive(key(s[i]), key(s[j - 1]), key(s[j]));
    }
}

/// A list in order in which no identifier occurs twice is in strict order.
pub proof fn lemma_ordered_without_duplicates(s: Seq<AssetView>)
    requires
        ordered(s),
        forall|i: int, j: int|
            0 <= i < j < s.len() ==> key(#[trigger] s[i]) != key(#[trigger] s[j]),
    ensures
        strictly_ordered(s),
{
    assert forall|i: int, j: int| 0 <= i < j < s.len() implies lex_less(
        key(#[trigger] s[i]),
        key(#[trigger] s[j]),
    ) by {
        lemma_lex_total(key(s[i]), key(s[j]));
    }
}

/// Puts `a` into `out` behind the last asset whose identifier is not greater.
fn insert_asset(out: &mut Vec<Asset>, a: Asset)
    ensures
        assets_view(final(out)@) == insert_sorted(assets_view(old(out)@), a.asset()),
{
    let ghost before = assets_view(out@);
    let mut j: usize = out.len();
    while j > 0 && compare_bytes(a.isin().as_bytes(), out[j - 1].isin().as_bytes())
        == Relation::Before
        invariant
            j <= out@.len(),
            before == assets_view(out@),
            forall|k: int|
                j <= k < out@.len() ==> lex_less(key(a.asset()), key(#[trigger] before[k])),
        decreases j,
    {
        j = j - 1;
    }
    proof {
        lemma_insert_position_at(before, a.asset(), j as int);
    }
    let ghost content = a.asset();
    out.insert(j, a);
    assert(assets_view(out@) =~= before.insert(j as int, content));
}

/// Puts the assets of `from` into `out`, which is in order, one after the other.
fn insert_all(out: &mut Vec<Asset>, from: Vec<Asset>)
    requires
        assets_view(old(out)@) == sorted_by_isin(assets_view(old(out)@)),
    ensures
        assets_view(final(out)@) == sorted_by_isin(assets_view(old(out)@) + assets_view(from@)),
{
    let ghost start = assets_view(out@);
    let ghost all = assets_view(from@);
    let mut from = from;
    let mut taken: usize = 0;
    let total: usize = from.len();
    proof {
        assert(start + all.subrange(0, 0) =~= start);
    }
    while from.len() > 0
        invariant
            taken + from@.len() == total == all.len(),
            assets_view(from@) == all.subrange(taken as int, total as int),
            assets_view(out@) == sorted_by_isin(start + all.subrange(0, taken as int)),
        decreases from@.len(),
    {
        let ghost rest = assets_view(from@);
        let ghost held = from@;
        let a: Asset = from.remove(0);
        proof {
            let left = assets_view(from@);
            let want = all.subrange(taken + 1, total as int);
            assert(left.len() == want.len());
            assert forall|k: int| 0 <= k < left.len() implies left[k] == want[k] by {
                assert(from@[k] == held[k + 1]);
                assert(rest[k + 1] == held[k + 1].asset());
                assert(rest[k + 1] == all[taken + 1 + k]);
            }
            assert(a.asset() == rest[0]);
            assert(rest[0] == all[taken as int]);
            let prefix = start + all.subrange(0, taken + 1);
            assert(prefix.drop_last() =~= start + all.subrange(0, taken as int));
            assert(prefix.last() == all[taken as int]);
            assert(assets_view(from@) =~= all.subrange(taken + 1, total as int));
        }
        insert_asset(out, a);
        taken = taken + 1;
    }
    proof {
        assert(all.subrange(0, total as int) =~= all);
    }
}

/// A list of assets in the order of their identifiers. The order is made
/// when the portfolio is; that no identifier occurs twice is left to whoever
/// supplies the assets.
pub struct Portfolio {
    pub assets: Vec<Asset>,
}

impl View for Portfolio {
    type V = Seq<AssetView>;

    open spec fn view(&self) -> Seq<AssetView> {
        assets_view(self.assets@)
    }
}

impl Default for Portfolio {
    fn default() -> (r: Portfolio)
        ensures
            r@ == Seq::<AssetView>::empty(),
    {
        let r = Portfolio { assets: Vec::new() };
        assert(r@ =~= Seq::<AssetView>::empty());
        r
    }
}

impl Portfolio {
    /// The portfolio of these assets: the same assets in the order of their
    /// identifiers, those with one identifier in the order they came in.
    pub fn from_assets(assets: Vec<Asset>) -> (r: Portfolio)
        ensures
            r@ == sorted_by_isin(assets_view(assets@)),
            ordered(r@),
            r@.to_multiset() == assets_view(assets@).to_multiset(),
    {
        let mut out: Vec<Asset> = Vec::new();
        proof {
            assert(assets_view(out@) =~= Seq::<AssetView>::empty());
            assert(Seq::<AssetView>::empty() + assets_view(assets@) =~= assets_view(assets@));
            lemma_sorted_by_isin(assets_view(assets@));
        }
        insert_all(&mut out, assets);
        Portfolio { assets: out }
    }

    /// Whether the portfolio is what a reconciliation expects: each asset has
    /// a greater identifier than the one before it.
    pub fn validate(&self) -> (r: Result<(), Modelo720Error>)
        ensures
            r is Ok <==> strictly_ordered(self@),
            r matches Err(e) ==> e == Modelo720Error::UnsortedOrDuplicateInput,
    {
        let ghost all = self@;
        let n: usize = self.assets.len();
        let mut i: usize = 1;
        while i < n
            invariant
                1 <= i,
                n == self.assets@.len(),
                all == assets_view(self.assets@),
                forall|k: int| 0 < k < i ==> lex_less(key(#[trigger] all[k - 1]), key(all[k])),
            decreases n - i,
        {
            let before: &[u8] = self.assets[i - 1].isin().as_bytes();
            let here: &[u8] = self.assets[i].isin().as_bytes();
            if compare_bytes(before, here) != Relation::Before {
                proof {
                    assert(!lex_less(key(all[i - 1]), key(all[i as int])));
                }
                return Err(Modelo720Error::UnsortedOrDuplicateInput);
            }
            i = i + 1;
        }
        proof {
            lemma_neighbours_in_order(all);
        }
        Ok(())
    }

    /// The portfolio of the assets of both: those of `self`, with those of
    /// `other` put in one after the other. An identifier that both have
    /// stays twice.
    pub fn merge(self, other: Portfolio) -> (r: Portfolio)
        ensures
            r@ == sorted_by_isin(self@ + other@),
            ordered(r@),
            r@.to_multiset() == (self@ + other@).to_multiset(),
    {
        let mut all: Vec<Asset> = self.assets;
        let ghost joined = assets_view(all@) + assets_view(other.assets@);
        let mut rest: Vec<Asset> = other.assets;
        all.append(&mut rest);
        proof {
            assert(assets_view(all@) =~= joined);
            lemma_sorted_by_isin(joined);
        }
        Portfolio::from_assets(all)
    }
}

} // verus!
