//! The full outer join of two lists of assets that are in the order of their
//! identifiers.

use vstd::prelude::*;
use crate::assets::{Asset, AssetView, AssetWithValuation};
use crate::order::{compare_bytes, lemma_lex_total, lemma_lex_transitive, lex_less, Relation};
use crate::portfolio::{assets_view, key, strictly_ordered};

verus! {

/// One step of the join: an asset that only the left list has, an asset of
/// each list with the same identifier, or an asset that only the right list
/// has.
pub enum JoinResult<'a> {
    OuterLeft(&'a Asset),
    Inner(&'a Asset, &'a Asset),
    OuterRight(&'a Asset),
}

/// The content of a [`JoinResult`].
pub enum JoinView {
    OuterLeft(AssetView),
    Inner(AssetView, AssetView),
    OuterRight(AssetView),
}

impl<'a> View for JoinResult<'a> {
    type V = JoinView;

    open spec fn view(&self) -> JoinView {
        match self {
            JoinResult::OuterLeft(a) => JoinView::OuterLeft(a.asset()),
            JoinResult::Inner(a, b) => JoinView::Inner(a.asset(), b.asset()),
            JoinResult::OuterRight(b) => JoinView::OuterRight(b.asset()),
        }
    }
}

/// The first step of the join of two lists that are not both empty. The
/// heads of the lists are compared: the smaller one is taken alone, equal
/// ones together; where a list is empty the head of the other is taken.
pub open spec fn join_head(left: Seq<AssetView>, right: Seq<AssetView>) -> JoinView {
    if left.len() == 0 {
        JoinView::OuterRight(right[0])
    } else if right.len() == 0 {
        JoinView::OuterLeft(left[0])
    } else if lex_less(key(left[0]), key(right[0])) {
        JoinView::OuterLeft(left[0])
    } else if key(left[0]) == key(right[0]) {
        JoinView::Inner(left[0], right[0])
    } else {
        JoinView::OuterRight(right[0])
    }
}

/// What is left of the left list after the first step of the join.
pub open spec fn left_after(left: Seq<AssetView>, right: Seq<AssetView>) -> Seq<AssetView> {
    match join_head(left, right) {
        JoinView::OuterRight(_) => left,
        _ => left.drop_first(),
    }
}

/// What is left of the right list after the first step of the join.
pub open spec fn right_after(left: Seq<AssetView>, right: Seq<AssetView>) -> Seq<AssetView> {
    match join_head(left, right) {
        JoinView::OuterLeft(_) => right,
        _ => right.drop_first(),
    }
}

/// The steps of the join of two lists, from the first to the last.
pub open spec fn full_join(left: Seq<AssetView>, right: Seq<AssetView>) -> Seq<JoinView>
    decreases left.len() + right.len(),
{
    if left.len() == 0 && right.len() == 0 {
        Seq::<JoinView>::empty()
    } else {
        seq![join_head(left, right)] + full_join(
            left_after(left, right),
            right_after(left, right),
        )
    }
}

/// The identifier that a step of the join is about.
pub open spec fn step_key(step: JoinView) -> Seq<u8> {
    match step {
        JoinView::OuterLeft(a) => key(a),
        JoinView::Inner(a, _) => key(a),
        JoinView::OuterRight(b) => key(b),
    }
}

/// The identifiers of a list of assets, in the order of the list.
pub open spec fn keys(assets: Seq<AssetView>) -> Seq<Seq<u8>> {
    assets.map_values(|a: AssetView| key(a))
}

/// The identifiers that the steps of the join are about, in their order.
pub open spec fn join_keys(left: Seq<AssetView>, right: Seq<AssetView>) -> Seq<Seq<u8>> {
    full_join(left, right).map_values(|step: JoinView| step_key(step))
}

/// Whether each identifier is greater than the one before it.
pub open spec fn increasing(ids: Seq<Seq<u8>>) -> bool {
    forall|i: int, j: int| 0 <= i < j < ids.len() ==> lex_less(#[trigger] ids[i], #[trigger] ids[j])
}

/// What is left of a list in strict order is in strict order, and every
/// identifier in it is greater than the first of the list.
proof fn lemma_tail_of_ordered(s: Seq<AssetView>)
    requires
        strictly_ordered(s),
        s.len() > 0,
    ensures
        strictly_ordered(s.drop_first()),
        forall|x: Seq<u8>| keys(s.drop_first()).contains(x) ==> lex_less(key(s[0]), x),
        forall|x: Seq<u8>|
            keys(s).contains(x) <==> (x == key(s[0]) || keys(s.drop_first()).contains(x)),
{
    let t = s.drop_first();
    assert forall|i: int, j: int| 0 <= i < j < t.len() implies lex_less(
        key(#[trigger] t[i]),
        key(#[trigger] t[j]),
    ) by {
        assert(t[i] == s[i + 1] && t[j] == s[j + 1]);
    }
    assert forall|x: Seq<u8>| keys(t).contains(x) implies lex_less(key(s[0]), x) by {
        let i = choose|i: int| 0 <= i < keys(t).len() && keys(t)[i] == x;
        assert(t[i] == s[i + 1]);
    }
    assert forall|x: Seq<u8>| keys(s).contains(x) <==> (x == key(s[0]) || keys(t).contains(x)) by {
        if keys(s).contains(x) {
            let i = choose|i: int| 0 <= i < keys(s).len() && keys(s)[i] == x;
            if i > 0 {
                assert(keys(t)[i - 1] == x);
            }
        }
        if x == key(s[0]) {
            assert(keys(s)[0] == x);
        }
        if keys(t).contains(x) {
            let i = choose|i: int| 0 <= i < keys(t).len() && keys(t)[i] == x;
            assert(keys(s)[i + 1] == x);
        }
    }
}

/// The join of two lists in strict order: its identifiers are in strict
/// order, and they are the identifiers of the two lists.
proof fn lemma_join_keys(left: Seq<AssetView>, right: Seq<AssetView>)
    requires
        strictly_ordered(left),
        strictly_ordered(right),
    ensures
        increasing(join_keys(left, right)),
        forall|x: Seq<u8>|
            join_keys(left, right).contains(x) <==> (keys(left).contains(x) || keys(right).contains(
                x,
            )),
    decreases left.len() + right.len(),
{
    let ids = join_keys(left, right);
    if left.len() == 0 && right.len() == 0 {
        assert(ids =~= Seq::<Seq<u8>>::empty());
        assert(keys(left) =~= Seq::<Seq<u8>>::empty());
        assert(keys(right) =~= Seq::<Seq<u8>>::empty());
    } else {
        let head = join_head(left, right);
        let l = left_after(left, right);
        let r = right_after(left, right);
        let h = step_key(head);
        let rest = join_keys(l, r);
        if left.len() > 0 {
            lemma_tail_of_ordered(left);
        }
        if right.len() > 0 {
            lemma_tail_of_ordered(right);
        }
        lemma_join_keys(l, r);
        assert(ids =~= seq![h] + rest);
        // every identifier that is left is greater than the one taken
        assert forall|x: Seq<u8>| rest.contains(x) implies lex_less(h, x) by {
            assert(keys(l).contains(x) || keys(r).contains(x));
            if left.len() == 0 {
                assert(keys(l) =~= Seq::<Seq<u8>>::empty());
            } else if right.len() == 0 {
                assert(keys(r) =~= Seq::<Seq<u8>>::empty());
            } else {
                let a = key(left[0]);
                let b = key(right[0]);
                lemma_lex_total(a, b);
                if lex_less(a, b) {
                    if keys(right).contains(x) && x != b {
                        lemma_lex_transitive(a, b, x);
                    }
                } else if a == b {
                } else {
                    if keys(left).contains(x) && x != a {
                        lemma_lex_transitive(b, a, x);
                    }
                }
            }
        }
        assert forall|i: int, j: int| 0 <= i < j < ids.len() implies lex_less(
            #[trigger] ids[i],
            #[trigger] ids[j],
        ) by {
            assert(ids[j] == rest[j - 1]);
            if i == 0 {
                assert(rest.contains(rest[j - 1]));
            } else {
                assert(ids[i] == rest[i - 1]);
            }
        }
        assert forall|x: Seq<u8>|
            ids.contains(x) <==> (keys(left).contains(x) || keys(right).contains(x)) by {
            if ids.contains(x) {
                let i = choose|i: int| 0 <= i < ids.len() && ids[i] == x;
                if i > 0 {
                    assert(rest[i - 1] == x);
                    assert(rest.contains(x));
                }
            }
            if x == h {
                assert(ids[0] == x);
            }
            if rest.contains(x) {
                let i = choose|i: int| 0 <= i < rest.len() && rest[i] == x;
                assert(ids[i + 1] == x);
            }
        }
    }
}

/// The join of two lists of assets, each in the order of its identifiers
/// and with no identifier twice, goes through the identifiers in strictly
/// increasing order, and the identifiers it goes through are those of the
/// first list together with those of the second.
pub proof fn lemma_join_order(left: Seq<AssetView>, right: Seq<AssetView>)
    requires
        strictly_ordered(left),
        strictly_ordered(right),
    ensures
        increasing(join_keys(left, right)),
        join_keys(left, right).to_set() == keys(left).to_set().union(keys(right).to_set()),
{
    lemma_join_keys(left, right);
    assert(join_keys(left, right).to_set() =~= keys(left).to_set().union(keys(right).to_set()));
}

/// The join of two lists of assets, step by step.
pub struct FullJoinIterator<'a> {
    left: &'a [Asset],
    left_at: usize,
    right: &'a [Asset],
    right_at: usize,
}

impl<'a> FullJoinIterator<'a> {
    #[verifier::type_invariant]
    spec fn within_lists(self) -> bool {
        &&& self.left_at <= self.left@.len()
        &&& self.right_at <= self.right@.len()
    }

    /// The assets of the left list that no step has taken yet.
    pub closed spec fn left_rest(&self) -> Seq<AssetView> {
        assets_view(self.left@).subrange(self.left_at as int, self.left@.len() as int)
    }

    /// The assets of the right list that no step has taken yet.
    pub closed spec fn right_rest(&self) -> Seq<AssetView> {
        assets_view(self.right@).subrange(self.right_at as int, self.right@.len() as int)
    }

    /// The join of `left` and `right`, before its first step.
    pub fn new(left: &'a [Asset], right: &'a [Asset]) -> (r: Self)
        ensures
            r.left_rest() == assets_view(left@),
            r.right_rest() == assets_view(right@),
    {
        proof {
            assert(assets_view(left@).subrange(0, left@.len() as int) =~= assets_view(left@));
            assert(assets_view(right@).subrange(0, right@.len() as int) =~= assets_view(right@));
        }
        FullJoinIterator { left, left_at: 0, right, right_at: 0 }
    }

    /// The next step of the join, or none when both lists are used up.
    pub fn next(&mut self) -> (r: Option<JoinResult<'a>>)
        ensures
            r is None <==> old(self).left_rest().len() == 0 && old(self).right_rest().len() == 0,
            r matches Some(step) ==> step@ == join_head(
                old(self).left_rest(),
                old(self).right_rest(),
            ),
            r is Some ==> final(self).left_rest() == left_after(
                old(self).left_rest(),
                old(self).right_rest(),
            ),
            r is Some ==> final(self).right_rest() == right_after(
                old(self).left_rest(),
                old(self).right_rest(),
            ),
            r is None ==> final(self).left_rest() == old(self).left_rest(),
            r is None ==> final(self).right_rest() == old(self).right_rest(),
    {
        proof {
            use_type_invariant(&*self);
        }
        let left: &'a [Asset] = self.left;
        let right: &'a [Asset] = self.right;
        let i: usize = self.left_at;
        let j: usize = self.right_at;
        let ghost l = assets_view(left@).subrange(i as int, left@.len() as int);
        let ghost r = assets_view(right@).subrange(j as int, right@.len() as int);
        proof {
            if i < left.len() {
                assert(l[0] == left@[i as int].asset());
                assert(l.drop_first() =~= assets_view(left@).subrange(i + 1, left@.len() as int));
            }
            if j < right.len() {
                assert(r[0] == right@[j as int].asset());
                assert(r.drop_first() =~= assets_view(right@).subrange(
                    j + 1,
                    right@.len() as int,
                ));
            }
        }
        if i == left.len() && j == right.len() {
            None
        } else if i == left.len() {
            self.right_at = j + 1;
            Some(JoinResult::OuterRight(&right[j]))
        } else if j == right.len() {
            self.left_at = i + 1;
            Some(JoinResult::OuterLeft(&left[i]))
        } else {
            let a: &'a Asset = &left[i];
            let b: &'a Asset = &right[j];
            proof {
                vstd::utf8::encode_utf8_decode_utf8(a.asset().isin);
                vstd::utf8::encode_utf8_decode_utf8(b.asset().isin);
            }
            match compare_bytes(a.isin().as_bytes(), b.isin().as_bytes()) {
                Relation::Before => {
                    self.left_at = i + 1;
                    Some(JoinResult::OuterLeft(a))
                },
                Relation::Same => {
                    self.left_at = i + 1;
                    self.right_at = j + 1;
                    Some(JoinResult::Inner(a, b))
                },
                Relation::After => {
                    self.right_at = j + 1;
                    Some(JoinResult::OuterRight(b))
                },
            }
        }
    }
}

} // verus!
