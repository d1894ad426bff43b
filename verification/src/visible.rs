//! Which rows of the explorer tree are shown: without a filter, the rows
//! whose ancestors are all expanded; with one, the matching rows and their
//! ancestors, which are shown expanded.

use vstd::prelude::*;

use crate::board::{BoardView, CardView, ListView};
use crate::explorer::{filter_matches, spec_filter_matches, ExplorerView, ProjectTree, TreeKey};
use crate::groups::{GroupCardView, LabelGroupView};
use crate::order::{lemma_views_take_first, views};
use crate::state::ExplorerState;
use crate::text::{spec_trim, trim};
use crate::tree::{
    all_rows, board_rows, card_row, concat, copy_key, group_rows, grouped_card_row, hierarchy_list_rows, key_eq,
    label_list_rows, opt_key, project_rows, KeyView, RowView, TreeRow,
};

verus! {

/// The keys held by `keys`.
pub open spec fn key_set(keys: Seq<TreeKey>) -> Set<KeyView>
    decreases keys.len(),
{
    if keys.len() == 0 {
        Set::empty()
    } else {
        key_set(keys.drop_last()).insert(keys.last()@)
    }
}

proof fn lemma_key_set_contains(keys: Seq<TreeKey>, k: KeyView)
    ensures
        key_set(keys).contains(k) <==> exists|i: int| 0 <= i < keys.len() && (#[trigger] keys[i])@ == k,
    decreases keys.len(),
{
    if keys.len() > 0 {
        lemma_key_set_contains(keys.drop_last(), k);
        if key_set(keys.drop_last()).contains(k) {
            let i = choose|i: int| 0 <= i < keys.drop_last().len() && (#[trigger] keys.drop_last()[i])@ == k;
            assert(keys[i] == keys.drop_last()[i]);
        }
        if exists|i: int| 0 <= i < keys.len() && (#[trigger] keys[i])@ == k {
            let i = choose|i: int| 0 <= i < keys.len() && (#[trigger] keys[i])@ == k;
            if i < keys.len() - 1 {
                assert(keys.drop_last()[i] == keys[i]);
            }
        }
    }
}

/// Whether `keys` holds `k`.
fn keys_contain(keys: &Vec<TreeKey>, k: &TreeKey) -> (r: bool)
    ensures
        r == key_set(keys@).contains(k@),
{
    let mut i: usize = 0;
    while i < keys.len()
        invariant
            i <= keys.len(),
            forall|j: int| 0 <= j < i ==> (#[trigger] keys@[j])@ != k@,
        decreases keys.len() - i,
    {
        if key_eq(&keys[i], k) {
            proof {
                lemma_key_set_contains(keys@, k@);
            }
            return true;
        }
        i = i + 1;
    }
    proof {
        lemma_key_set_contains(keys@, k@);
    }
    false
}

fn push_key(keys: &mut Vec<TreeKey>, k: &TreeKey)
    ensures
        key_set(final(keys)@) == key_set(old(keys)@).insert(k@),
{
    keys.push(copy_key(k));
    assert(keys@.drop_last() =~= old(keys)@);
}

/// One step of the expansion scan: a row is shown when it has no parent or
/// its parent is a shown, expanded row; a shown expanded row opens its
/// children.
pub open spec fn expansion_scan(rows: Seq<RowView>) -> (Seq<RowView>, Set<KeyView>)
    decreases rows.len(),
{
    if rows.len() == 0 {
        (seq![], Set::empty())
    } else {
        let prev = expansion_scan(rows.drop_last());
        let r = rows.last();
        if r.parent is None || prev.1.contains(r.parent->0) {
            (prev.0.push(r), if r.expanded { prev.1.insert(r.key) } else { prev.1 })
        } else {
            prev
        }
    }
}

/// The rows shown without a filter.
pub open spec fn expansion_visible(rows: Seq<RowView>) -> Seq<RowView> {
    expansion_scan(rows).0
}

/// Keeps the rows whose ancestors are all shown and expanded.
pub fn apply_expansion_visibility(rows: Vec<TreeRow>) -> (r: Vec<TreeRow>)
    ensures
        views(r@) == expansion_visible(views(rows@)),
{
    let ghost orig = views(rows@);
    let mut rest = rows;
    let mut visible: Vec<TreeRow> = Vec::new();
    let mut open: Vec<TreeKey> = Vec::new();
    let ghost mut k: int = 0;
    assert(orig.take(0) =~= Seq::<RowView>::empty());
    assert(views(visible@) =~= Seq::<RowView>::empty());
    assert(key_set(open@) =~= Set::<KeyView>::empty());
    while rest.len() > 0
        invariant
            0 <= k <= orig.len(),
            views(rest@) == orig.skip(k),
            views(visible@) == expansion_scan(orig.take(k)).0,
            key_set(open@) == expansion_scan(orig.take(k)).1,
        decreases rest.len(),
    {
        let ghost before = rest@;
        let row = rest.remove(0);
        proof {
            lemma_views_take_first(before, rest@, orig, k);
            assert(orig.take(k + 1).drop_last() =~= orig.take(k));
        }
        let parent_visible = match &row.parent {
            None => true,
            Some(p) => keys_contain(&open, p),
        };
        if parent_visible {
            if row.expanded {
                push_key(&mut open, &row.key);
            }
            let ghost old_visible = views(visible@);
            visible.push(row);
            assert(views(visible@) =~= old_visible.push(row@));
        }
        proof {
            k = k + 1;
        }
    }
    assert(orig.take(k) =~= orig);
    visible
}

/// How deep in the tree a key of each kind sits.
pub open spec fn key_rank(k: KeyView) -> nat {
    match k {
        KeyView::Project(_) => 0,
        KeyView::Board(_) => 1,
        KeyView::List(_) => 2,
        KeyView::LabelGroup(_, _, _) => 3,
        KeyView::Card(_) => 3,
        KeyView::GroupedCard(_, _) => 4,
    }
}

/// Every row's parent sits higher in the tree than the row.
pub open spec fn well_ranked(rows: Seq<RowView>) -> bool {
    forall|i: int| 0 <= i < rows.len() ==> #[trigger] row_ranked(rows[i])
}

/// The row's parent, if any, sits higher in the tree than the row.
pub open spec fn row_ranked(r: RowView) -> bool {
    r.parent is Some ==> key_rank(r.parent->0) < key_rank(r.key)
}

/// The parent of each key, from the last row with that key.
pub open spec fn parent_map(rows: Seq<RowView>) -> Map<KeyView, Option<KeyView>>
    decreases rows.len(),
{
    if rows.len() == 0 {
        Map::empty()
    } else {
        parent_map(rows.drop_last()).insert(rows.last().key, rows.last().parent)
    }
}

/// The parent of `k` among `rows`.
pub open spec fn lookup_parent(rows: Seq<RowView>, k: KeyView) -> Option<KeyView> {
    if parent_map(rows).contains_key(k) {
        parent_map(rows)[k]
    } else {
        None
    }
}

/// The keys met walking up from `k` through the parents recorded in
/// `rows`, `k` itself excluded.
pub open spec fn ancestors(rows: Seq<RowView>, k: KeyView) -> Set<KeyView>
    decreases key_rank(k),
{
    match lookup_parent(rows, k) {
        Some(p) => if key_rank(p) < key_rank(k) {
            ancestors(rows, p).insert(p)
        } else {
            Set::empty()
        },
        None => Set::empty(),
    }
}

proof fn lemma_parent_map_ranked(rows: Seq<RowView>, k: KeyView)
    requires
        well_ranked(rows),
    ensures
        lookup_parent(rows, k) is Some ==> key_rank(lookup_parent(rows, k)->0) < key_rank(k),
    decreases rows.len(),
{
    if rows.len() > 0 {
        assert(well_ranked(rows.drop_last())) by {
            assert forall|i: int| 0 <= i < rows.drop_last().len() implies #[trigger] row_ranked(
                rows.drop_last()[i],
            ) by {
                assert(rows.drop_last()[i] == rows[i]);
                assert(row_ranked(rows[i]));
            }
        }
        lemma_parent_map_ranked(rows.drop_last(), k);
        assert(row_ranked(rows[rows.len() - 1]));
    }
}

proof fn lemma_parent_map_suffix(rows: Seq<RowView>, k: KeyView, n: int)
    requires
        0 <= n <= rows.len(),
        forall|j: int| n <= j < rows.len() ==> (#[trigger] rows[j]).key != k,
    ensures
        lookup_parent(rows, k) == lookup_parent(rows.take(n), k),
    decreases rows.len() - n,
{
    if n < rows.len() {
        assert(rows.drop_last().take(n) =~= rows.take(n));
        assert forall|j: int| n <= j < rows.drop_last().len() implies (#[trigger] rows.drop_last()[j]).key != k by {
            assert(rows.drop_last()[j] == rows[j]);
        }
        lemma_parent_map_suffix(rows.drop_last(), k, n);
    } else {
        assert(rows.take(n) =~= rows);
    }
}

/// The parent recorded for `k` by the last row with that key.
fn parent_of(rows: &Vec<TreeRow>, k: &TreeKey) -> (r: Option<TreeKey>)
    ensures
        opt_key(r) == lookup_parent(views(rows@), k@),
{
    let ghost rv = views(rows@);
    let mut i: usize = rows.len();
    while i > 0
        invariant
            i <= rows.len(),
            rv == views(rows@),
            rv.len() == rows.len(),
            forall|j: int| i <= j < rv.len() ==> (#[trigger] rv[j]).key != k@,
        decreases i,
    {
        if key_eq(&rows[i - 1].key, k) {
            proof {
                lemma_parent_map_suffix(rv, k@, i as int);
                assert(rv.take(i as int).drop_last() =~= rv.take(i - 1));
                assert(rv.take(i as int).last() == rows@[i - 1]@);
            }
            return match &rows[i - 1].parent {
                Some(p) => Some(copy_key(p)),
                None => None,
            };
        }
        assert(rv[i - 1] == rows@[i - 1]@);
        i = i - 1;
    }
    proof {
        lemma_parent_map_suffix(rv, k@, 0);
        assert(rv.take(0) =~= Seq::<RowView>::empty());
    }
    None
}

/// Whether a row's label matches the query.
pub open spec fn row_matches(query: Seq<char>, r: RowView) -> bool {
    spec_filter_matches(query, r.label)
}

/// The ancestors of the matching rows among the first `n`.
pub open spec fn forced_upto(rows: Seq<RowView>, query: Seq<char>, n: int) -> Set<KeyView>
    decreases n,
{
    if n <= 0 {
        Set::empty()
    } else {
        let prev = forced_upto(rows, query, n - 1);
        if row_matches(query, rows[n - 1]) {
            prev.union(ancestors(rows, rows[n - 1].key))
        } else {
            prev
        }
    }
}

/// The matching rows among the first `n` and their ancestors.
pub open spec fn included_upto(rows: Seq<RowView>, query: Seq<char>, n: int) -> Set<KeyView>
    decreases n,
{
    if n <= 0 {
        Set::empty()
    } else {
        let prev = included_upto(rows, query, n - 1);
        if row_matches(query, rows[n - 1]) {
            prev.union(ancestors(rows, rows[n - 1].key)).insert(rows[n - 1].key)
        } else {
            prev
        }
    }
}

/// The rows shown with a filter: the rows that match and their ancestors,
/// in tree order; exactly the ancestors of matching rows show expanded.
pub open spec fn filtered_rows(rows: Seq<RowView>, query: Seq<char>) -> Seq<RowView> {
    let included = included_upto(rows, query, rows.len() as int);
    let forced = forced_upto(rows, query, rows.len() as int);
    rows.filter(|r: RowView| included.contains(r.key)).map_values(
        |r: RowView| RowView { expanded: forced.contains(r.key), ..r },
    )
}

/// Walks up from `start`, adding every ancestor to both sets.
fn add_ancestors(rows: &Vec<TreeRow>, start: &TreeKey, included: &mut Vec<TreeKey>, forced: &mut Vec<TreeKey>)
    requires
        well_ranked(views(rows@)),
    ensures
        key_set(final(included)@) == key_set(old(included)@).union(ancestors(views(rows@), start@)),
        key_set(final(forced)@) == key_set(old(forced)@).union(ancestors(views(rows@), start@)),
{
    let ghost rv = views(rows@);
    let mut current = parent_of(rows, start);
    proof {
        lemma_parent_map_ranked(rv, start@);
    }
    let ghost mut below: KeyView = start@;
    assert(ancestors(rv, start@) == (match opt_key(current) {
        Some(p) => ancestors(rv, p).insert(p),
        None => Set::<KeyView>::empty(),
    }));
    assert(key_set(included@) =~= key_set(old(included)@).union(Set::<KeyView>::empty()));
    assert(key_set(forced@) =~= key_set(old(forced)@).union(Set::<KeyView>::empty()));
    while current.is_some()
        invariant
            rv == views(rows@),
            well_ranked(rv),
            key_set(included@).union(
                match opt_key(current) {
                    Some(p) => ancestors(rv, p).insert(p),
                    None => Set::<KeyView>::empty(),
                },
            ) == key_set(old(included)@).union(ancestors(rv, start@)),
            key_set(forced@).union(
                match opt_key(current) {
                    Some(p) => ancestors(rv, p).insert(p),
                    None => Set::<KeyView>::empty(),
                },
            ) == key_set(old(forced)@).union(ancestors(rv, start@)),
        decreases match opt_key(current) {
            Some(p) => key_rank(p) + 1,
            None => 0,
        },
    {
        let p = match current {
            Some(p) => p,
            None => {
                return;
            },
        };
        let next = parent_of(rows, &p);
        proof {
            lemma_parent_map_ranked(rv, p@);
        }
        let ghost i0 = key_set(included@);
        let ghost f0 = key_set(forced@);
        push_key(included, &p);
        push_key(forced, &p);
        proof {
            let rest = match opt_key(next) {
                Some(q) => ancestors(rv, q).insert(q),
                None => Set::<KeyView>::empty(),
            };
            assert(ancestors(rv, p@) == rest);
            assert(i0.insert(p@).union(rest) =~= i0.union(ancestors(rv, p@).insert(p@)));
            assert(f0.insert(p@).union(rest) =~= f0.union(ancestors(rv, p@).insert(p@)));
        }
        current = next;
    }
    assert(key_set(included@).union(Set::<KeyView>::empty()) =~= key_set(included@));
    assert(key_set(forced@).union(Set::<KeyView>::empty()) =~= key_set(forced@));
}

/// The rows to show for a non-empty filter query.
pub fn filter_rows(rows: Vec<TreeRow>, query: &str) -> (r: Vec<TreeRow>)
    requires
        well_ranked(views(rows@)),
    ensures
        views(r@) == filtered_rows(views(rows@), query@),
{
    let ghost rv = views(rows@);
    let mut included: Vec<TreeKey> = Vec::new();
    let mut forced: Vec<TreeKey> = Vec::new();
    let mut i: usize = 0;
    while i < rows.len()
        invariant
            i <= rows.len(),
            rv == views(rows@),
            rv.len() == rows.len(),
            well_ranked(rv),
            key_set(included@) == included_upto(rv, query@, i as int),
            key_set(forced@) == forced_upto(rv, query@, i as int),
        decreases rows.len() - i,
    {
        assert(rv[i as int] == rows@[i as int]@);
        if filter_matches(query, rows[i].label.as_str()) {
            add_ancestors(&rows, &rows[i].key, &mut included, &mut forced);
            push_key(&mut included, &rows[i].key);
        }
        i = i + 1;
    }
    let ghost inc = included_upto(rv, query@, rv.len() as int);
    let ghost frc = forced_upto(rv, query@, rv.len() as int);
    let mut rest = rows;
    let mut out: Vec<TreeRow> = Vec::new();
    let ghost mut k: int = 0;
    proof {
        reveal(Seq::filter);
    }
    assert(views(out@) =~= rv.take(0).filter(|r: RowView| inc.contains(r.key)).map_values(
        |r: RowView| RowView { expanded: frc.contains(r.key), ..r },
    ));
    while rest.len() > 0
        invariant
            0 <= k <= rv.len(),
            views(rest@) == rv.skip(k),
            key_set(included@) == inc,
            key_set(forced@) == frc,
            views(out@) == rv.take(k).filter(|r: RowView| inc.contains(r.key)).map_values(
                |r: RowView| RowView { expanded: frc.contains(r.key), ..r },
            ),
        decreases rest.len(),
    {
        let ghost before = rest@;
        let mut row = rest.remove(0);
        proof {
            lemma_views_take_first(before, rest@, rv, k);
            reveal(Seq::filter);
            assert(rv.take(k + 1).drop_last() =~= rv.take(k));
        }
        if keys_contain(&included, &row.key) {
            row.expanded = keys_contain(&forced, &row.key);
            let ghost old_out = views(out@);
            out.push(row);
            assert(views(out@) =~= old_out.push(row@));
            assert(rv.take(k + 1).filter(|r: RowView| inc.contains(r.key)) =~= rv.take(k).filter(
                |r: RowView| inc.contains(r.key),
            ).push(rv[k]));
            assert(views(out@) =~= rv.take(k + 1).filter(|r: RowView| inc.contains(r.key)).map_values(
                |r: RowView| RowView { expanded: frc.contains(r.key), ..r },
            ));
        } else {
            assert(rv.take(k + 1).filter(|r: RowView| inc.contains(r.key)) =~= rv.take(k).filter(
                |r: RowView| inc.contains(r.key),
            ));
        }
        proof {
            k = k + 1;
        }
    }
    assert(rv.take(k) =~= rv);
    out
}

} // verus!
