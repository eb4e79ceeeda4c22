//! The live menu core: the correlation registry mapping logical item
//! identifiers to opaque tokens, the compiled tree of live nodes, the
//! per-item state store with its snapshot/restore protocol, and event
//! dispatch.

use vstd::prelude::*;

use crate::actions::MenuAction;
use crate::i18n::{spec_translation, translation, I18n, Locale, StringKey};
use crate::menu_items::{Handler, ItemKind, MenuItemInfo};
use crate::text::str_eq;

verus! {

/// Whether some descriptor in `s` carries the identifier `id`.
pub open spec fn has_id(s: Seq<MenuItemInfo>, id: Seq<char>) -> bool {
    exists|j: int| 0 <= j < s.len() && s[j].id@ == id
}

/// All identifiers are distinct.
pub open spec fn unique_ids(s: Seq<MenuItemInfo>) -> bool {
    forall|i: int, j: int| 0 <= i < j < s.len() ==> s[i].id@ != s[j].id@
}

/// The schema with duplicate identifiers dropped: of several descriptors
/// sharing an identifier only the first declared one is kept.
pub open spec fn spec_dedup(items: Seq<MenuItemInfo>) -> Seq<MenuItemInfo>
    decreases items.len(),
{
    if items.len() == 0 {
        Seq::<MenuItemInfo>::empty()
    } else {
        let front = spec_dedup(items.drop_last());
        if has_id(items.drop_last(), items.last().id@) {
            front
        } else {
            front.push(items.last())
        }
    }
}

proof fn lemma_dedup_has_id(items: Seq<MenuItemInfo>, id: Seq<char>)
    ensures
        has_id(spec_dedup(items), id) == has_id(items, id),
    decreases items.len(),
{
    if items.len() > 0 {
        let front = items.drop_last();
        lemma_dedup_has_id(front, id);
        assert(forall|j: int| 0 <= j < front.len() ==> front[j] == items[j]);
        assert(has_id(items, id) ==> has_id(spec_dedup(items), id)) by {
            if has_id(items, id) {
                let j = choose|j: int| 0 <= j < items.len() && items[j].id@ == id;
                if j < items.len() - 1 || has_id(front, items.last().id@) {
                    if j < items.len() - 1 {
                        assert(front[j].id@ == id);
                        assert(has_id(front, id));
                    } else {
                        assert(has_id(front, id));
                    }
                    assert(has_id(spec_dedup(front), id));
                    let k = choose|k: int|
                        0 <= k < spec_dedup(front).len() && spec_dedup(front)[k].id@ == id;
                    if !has_id(front, items.last().id@) {
                        assert(spec_dedup(items)[k].id@ == id);
                    }
                    assert(has_id(spec_dedup(items), id));
                } else {
                    let d = spec_dedup(front).push(items.last());
                    assert(d[d.len() - 1].id@ == id);
                    assert(has_id(d, id));
                }
            }
        }
        assert(has_id(spec_dedup(items), id) ==> has_id(items, id)) by {
            if has_id(spec_dedup(items), id) {
                let d = spec_dedup(items);
                let j = choose|j: int| 0 <= j < d.len() && d[j].id@ == id;
                if has_id(front, items.last().id@) {
                    assert(d[j] == spec_dedup(front)[j]);
                    assert(has_id(spec_dedup(front), id));
                } else {
                    if j < d.len() - 1 {
                        assert(d[j] == spec_dedup(front)[j]);
                        assert(has_id(spec_dedup(front), id));
                    } else {
                        assert(items[items.len() - 1].id@ == id);
                        assert(has_id(items, id));
                    }
                }
            }
        }
    }
}

proof fn lemma_dedup_unique(items: Seq<MenuItemInfo>)
    ensures
        unique_ids(spec_dedup(items)),
    decreases items.len(),
{
    if items.len() > 0 {
        let front = items.drop_last();
        lemma_dedup_unique(front);
        if !has_id(front, items.last().id@) {
            lemma_dedup_has_id(front, items.last().id@);
            let d = spec_dedup(front).push(items.last());
            assert forall|i: int, j: int| 0 <= i < j < d.len() implies d[i].id@ != d[j].id@ by {
                if j == d.len() - 1 {
                    assert(spec_dedup(front)[i].id@ == d[i].id@);
                    assert(!has_id(spec_dedup(front), items.last().id@));
                }
            }
        }
    }
}

/// Place `x` after every element whose order is at most `x.order` and before
/// every element whose order exceeds it.
pub open spec fn spec_insert_ordered(s: Seq<MenuItemInfo>, x: MenuItemInfo) -> Seq<MenuItemInfo>
    decreases s.len(),
{
    if s.len() > 0 && s.last().order > x.order {
        spec_insert_ordered(s.drop_last(), x).push(s.last())
    } else {
        s.push(x)
    }
}

/// Stable sort by ascending `order`: equal orders keep declaration order.
pub open spec fn spec_sort(s: Seq<MenuItemInfo>) -> Seq<MenuItemInfo>
    decreases s.len(),
{
    if s.len() == 0 {
        Seq::<MenuItemInfo>::empty()
    } else {
        spec_insert_ordered(spec_sort(s.drop_last()), s.last())
    }
}

/// Ascending by `order`.
pub open spec fn sorted_by_order(s: Seq<MenuItemInfo>) -> bool {
    forall|i: int, j: int| 0 <= i < j < s.len() ==> s[i].order <= s[j].order
}

/// The predicate selecting the descriptors with a given order value.
pub open spec fn ord_eq(v: u32) -> spec_fn(MenuItemInfo) -> bool {
    |it: MenuItemInfo| it.order == v
}

proof fn lemma_insert_ordered_contains(s: Seq<MenuItemInfo>, x: MenuItemInfo)
    ensures
        spec_insert_ordered(s, x).len() == s.len() + 1,
        forall|k: int|
            0 <= k < spec_insert_ordered(s, x).len() ==> (#[trigger] spec_insert_ordered(s, x)[k]
                == x || s.contains(spec_insert_ordered(s, x)[k])),
    decreases s.len(),
{
    if s.len() > 0 && s.last().order > x.order {
        lemma_insert_ordered_contains(s.drop_last(), x);
        let r = spec_insert_ordered(s, x);
        assert forall|k: int| 0 <= k < r.len() implies (r[k] == x || s.contains(r[k])) by {
            if k < r.len() - 1 {
                let inner = spec_insert_ordered(s.drop_last(), x);
                assert(inner[k] == x || s.drop_last().contains(inner[k]));
                if s.drop_last().contains(inner[k]) {
                    let j = choose|j: int|
                        0 <= j < s.drop_last().len() && s.drop_last()[j] == inner[k];
                    assert(s[j] == inner[k]);
                }
            } else {
                assert(r[k] == s.last());
            }
        }
    }
}

proof fn lemma_insert_ordered_sorted(s: Seq<MenuItemInfo>, x: MenuItemInfo)
    requires
        sorted_by_order(s),
    ensures
        sorted_by_order(spec_insert_ordered(s, x)),
    decreases s.len(),
{
    if s.len() > 0 && s.last().order > x.order {
        assert(forall|j: int| 0 <= j < s.drop_last().len() ==> s.drop_last()[j] == s[j]);
        lemma_insert_ordered_sorted(s.drop_last(), x);
        lemma_insert_ordered_contains(s.drop_last(), x);
        let inner = spec_insert_ordered(s.drop_last(), x);
        let r = inner.push(s.last());
        assert forall|i: int, j: int| 0 <= i < j < r.len() implies r[i].order <= r[j].order by {
            if j == r.len() - 1 {
                if inner[i] == x {
                    assert(r[i].order <= r[j].order);
                } else {
                    assert(s.drop_last().contains(inner[i]));
                    let m = choose|m: int|
                        0 <= m < s.drop_last().len() && s.drop_last()[m] == inner[i];
                    assert(s[m].order <= s.last().order);
                }
            }
        }
    } else {
        let r = s.push(x);
        assert forall|i: int, j: int| 0 <= i < j < r.len() implies r[i].order <= r[j].order by {
            if j == r.len() - 1 && s.len() > 0 {
                assert(s[i].order <= s.last().order);
            }
        }
    }
}

/// The arranged order is ascending in `order`.
pub proof fn lemma_sort_sorted(s: Seq<MenuItemInfo>)
    ensures
        sorted_by_order(spec_sort(s)),
    decreases s.len(),
{
    if s.len() > 0 {
        lemma_sort_sorted(s.drop_last());
        lemma_insert_ordered_sorted(spec_sort(s.drop_last()), s.last());
    }
}

proof fn lemma_insert_ordered_filter(s: Seq<MenuItemInfo>, x: MenuItemInfo, v: u32)
    ensures
        spec_insert_ordered(s, x).filter(ord_eq(v)) == (if x.order == v {
            s.filter(ord_eq(v)).push(x)
        } else {
            s.filter(ord_eq(v))
        }),
    decreases s.len(),
{
    reveal(Seq::filter);
    if s.len() > 0 && s.last().order > x.order {
        lemma_insert_ordered_filter(s.drop_last(), x, v);
        let inner = spec_insert_ordered(s.drop_last(), x);
        assert(inner.push(s.last()).drop_last() == inner);
        assert(s.drop_last().push(s.last()) =~= s);
        assert(s.filter(ord_eq(v)) == (if s.last().order == v {
            s.drop_last().filter(ord_eq(v)).push(s.last())
        } else {
            s.drop_last().filter(ord_eq(v))
        }));
        if x.order == v {
            assert(s.last().order != v);
        }
    } else {
        assert(s.push(x).drop_last() == s);
    }
}

/// Stability of the arrangement: for every order value, the descriptors with
/// that order appear in exactly their declaration order.
pub proof fn lemma_sort_stable(s: Seq<MenuItemInfo>, v: u32)
    ensures
        spec_sort(s).filter(ord_eq(v)) == s.filter(ord_eq(v)),
    decreases s.len(),
{
    reveal(Seq::filter);
    if s.len() > 0 {
        lemma_sort_stable(s.drop_last(), v);
        lemma_insert_ordered_filter(spec_sort(s.drop_last()), s.last(), v);
        assert(s.drop_last().push(s.last()) =~= s);
        assert(s.filter(ord_eq(v)) == (if s.last().order == v {
            s.drop_last().filter(ord_eq(v)).push(s.last())
        } else {
            s.drop_last().filter(ord_eq(v))
        }));
    }
}

/// Every element of a filtered selection comes from the sequence.
proof fn lemma_filter_subset(s: Seq<MenuItemInfo>, pred: spec_fn(MenuItemInfo) -> bool)
    ensures
        forall|i: int|
            0 <= i < s.filter(pred).len() ==> s.contains(#[trigger] s.filter(pred)[i]),
    decreases s.len(),
{
    reveal(Seq::filter);
    if s.len() > 0 {
        let front = s.drop_last();
        lemma_filter_subset(front, pred);
        assert(forall|j: int| 0 <= j < front.len() ==> front[j] == s[j]);
        let f = s.filter(pred);
        assert forall|i: int| 0 <= i < f.len() implies s.contains(f[i]) by {
            if pred(s.last()) && i == f.len() - 1 {
                assert(f[i] == s.last());
                assert(s[s.len() - 1] == s.last());
            } else {
                assert(f[i] == front.filter(pred)[i]);
                assert(front.contains(f[i]));
                let m = choose|m: int| 0 <= m < front.len() && front[m] == f[i];
                assert(s[m] == f[i]);
            }
        }
    }
}

/// A filtered selection of a sorted sequence is sorted.
proof fn lemma_filter_sorted(s: Seq<MenuItemInfo>, pred: spec_fn(MenuItemInfo) -> bool)
    requires
        sorted_by_order(s),
    ensures
        sorted_by_order(s.filter(pred)),
    decreases s.len(),
{
    reveal(Seq::filter);
    if s.len() > 0 {
        assert(forall|j: int| 0 <= j < s.drop_last().len() ==> s.drop_last()[j] == s[j]);
        lemma_filter_sorted(s.drop_last(), pred);
        if pred(s.last()) {
            lemma_filter_subset(s.drop_last(), pred);
            let f = s.drop_last().filter(pred);
            let r = f.push(s.last());
            assert forall|i: int, j: int| 0 <= i < j < r.len() implies r[i].order <= r[j].order by {
                if j == r.len() - 1 {
                    assert(s.drop_last().contains(f[i]));
                    let m = choose|m: int|
                        0 <= m < s.drop_last().len() && s.drop_last()[m] == f[i];
                    assert(s[m].order <= s.last().order);
                }
            }
        }
    }
}

/// A descriptor is anchored when following its `parent` links through
/// existing submenu descriptors reaches a top-level item; `fuel` bounds the
/// chain length, so dangling references and reference cycles are never
/// anchored.
pub open spec fn anchored_elem(s: Seq<MenuItemInfo>, d: MenuItemInfo, fuel: nat) -> bool
    decreases fuel,
{
    match d.parent {
        None => true,
        Some(p) => fuel > 0 && exists|j: int|
            0 <= j < s.len() && (#[trigger] s[j]).kind == ItemKind::Submenu && s[j].id@ == p@
                && anchored_elem(s, s[j], (fuel - 1) as nat),
    }
}

/// A descriptor is included in the built tree when its parent chain anchors
/// within as many steps as there are descriptors.
pub open spec fn included_in(s: Seq<MenuItemInfo>, d: MenuItemInfo) -> bool {
    anchored_elem(s, d, s.len() as nat)
}

/// The schema as arranged for assembly: duplicates dropped, then stably
/// sorted by ascending `order`.
pub open spec fn spec_arranged(items: Seq<MenuItemInfo>) -> Seq<MenuItemInfo> {
    spec_sort(spec_dedup(items))
}

/// The predicate selecting descriptors whose parent chain anchors in `s`.
pub open spec fn incl_pred(s: Seq<MenuItemInfo>) -> spec_fn(MenuItemInfo) -> bool {
    |d: MenuItemInfo| included_in(s, d)
}

/// The descriptors that the built tree holds, in assembly order: the
/// arranged schema without the descriptors whose parent chain does not
/// anchor.
pub open spec fn spec_compiled(items: Seq<MenuItemInfo>) -> Seq<MenuItemInfo> {
    spec_arranged(items).filter(incl_pred(spec_arranged(items)))
}

proof fn lemma_dedup_len(items: Seq<MenuItemInfo>)
    ensures
        spec_dedup(items).len() <= items.len(),
    decreases items.len(),
{
    if items.len() > 0 {
        lemma_dedup_len(items.drop_last());
    }
}

proof fn lemma_sort_len(s: Seq<MenuItemInfo>)
    ensures
        spec_sort(s).len() == s.len(),
    decreases s.len(),
{
    if s.len() > 0 {
        lemma_sort_len(s.drop_last());
        lemma_insert_ordered_contains(spec_sort(s.drop_last()), s.last());
    }
}

proof fn lemma_insert_ordered_unique(s: Seq<MenuItemInfo>, x: MenuItemInfo)
    requires
        unique_ids(s),
        !has_id(s, x.id@),
    ensures
        unique_ids(spec_insert_ordered(s, x)),
        forall|id: Seq<char>|
            #[trigger] has_id(spec_insert_ordered(s, x), id) == (has_id(s, id) || id == x.id@),
    decreases s.len(),
{
    if s.len() > 0 && s.last().order > x.order {
        let d = s.drop_last();
        assert(forall|j: int| 0 <= j < d.len() ==> d[j] == s[j]);
        assert(!has_id(d, x.id@)) by {
            if has_id(d, x.id@) {
                let j = choose|j: int| 0 <= j < d.len() && d[j].id@ == x.id@;
                assert(s[j].id@ == x.id@);
            }
        }
        lemma_insert_ordered_unique(d, x);
        let inner = spec_insert_ordered(d, x);
        let r = inner.push(s.last());
        assert(!has_id(inner, s.last().id@)) by {
            assert(!has_id(d, s.last().id@)) by {
                if has_id(d, s.last().id@) {
                    let j = choose|j: int| 0 <= j < d.len() && d[j].id@ == s.last().id@;
                    assert(s[j].id@ == s[s.len() - 1].id@);
                }
            }
            assert(s.last().id@ != x.id@) by {
                assert(s[s.len() - 1].id@ == s.last().id@);
            }
        }
        assert(unique_ids(r)) by {
            assert forall|i: int, j: int| 0 <= i < j < r.len() implies r[i].id@ != r[j].id@ by {
                if j == r.len() - 1 {
                    assert(inner[i].id@ == r[i].id@);
                    assert(has_id(inner, r[i].id@));
                }
            }
        }
        assert forall|id: Seq<char>| #[trigger] has_id(r, id) == (has_id(s, id) || id == x.id@) by {
            assert(has_id(r, id) ==> (has_id(s, id) || id == x.id@)) by {
                if has_id(r, id) {
                    let j = choose|j: int| 0 <= j < r.len() && r[j].id@ == id;
                    if j < r.len() - 1 {
                        assert(has_id(inner, id));
                        if has_id(d, id) {
                            let m = choose|m: int| 0 <= m < d.len() && d[m].id@ == id;
                            assert(s[m].id@ == id);
                        }
                    } else {
                        assert(s[s.len() - 1].id@ == id);
                    }
                }
            }
            assert((has_id(s, id) || id == x.id@) ==> has_id(r, id)) by {
                if has_id(s, id) {
                    let j = choose|j: int| 0 <= j < s.len() && s[j].id@ == id;
                    if j < s.len() - 1 {
                        assert(d[j].id@ == id);
                        assert(has_id(d, id));
                        assert(has_id(inner, id) == (has_id(d, id) || id == x.id@));
                        let m = choose|m: int| 0 <= m < inner.len() && inner[m].id@ == id;
                        assert(r[m].id@ == id);
                    } else {
                        assert(s[s.len() - 1].id@ == id);
                        assert(r[r.len() - 1].id@ == id);
                    }
                } else if id == x.id@ {
                    assert(has_id(inner, id) == (has_id(d, id) || id == x.id@));
                    let m = choose|m: int| 0 <= m < inner.len() && inner[m].id@ == id;
                    assert(r[m].id@ == id);
                }
            }
        }
    } else {
        let r = s.push(x);
        assert forall|id: Seq<char>| #[trigger] has_id(r, id) == (has_id(s, id) || id == x.id@) by {
            if has_id(r, id) {
                let j = choose|j: int| 0 <= j < r.len() && r[j].id@ == id;
                if j < r.len() - 1 {
                    assert(s[j].id@ == id);
                }
            }
            if has_id(s, id) {
                let j = choose|j: int| 0 <= j < s.len() && s[j].id@ == id;
                assert(r[j].id@ == id);
            }
            if id == x.id@ {
                assert(r[r.len() - 1].id@ == id);
            }
        }
        assert forall|i: int, j: int| 0 <= i < j < r.len() implies r[i].id@ != r[j].id@ by {
            if j == r.len() - 1 {
                assert(s[i].id@ == r[i].id@);
                assert(has_id(s, r[i].id@));
            }
        }
    }
}

proof fn lemma_sort_unique(s: Seq<MenuItemInfo>)
    requires
        unique_ids(s),
    ensures
        unique_ids(spec_sort(s)),
        forall|id: Seq<char>| #[trigger] has_id(spec_sort(s), id) == has_id(s, id),
    decreases s.len(),
{
    if s.len() > 0 {
        let d = s.drop_last();
        assert(forall|j: int| 0 <= j < d.len() ==> d[j] == s[j]);
        lemma_sort_unique(d);
        assert(!has_id(d, s.last().id@)) by {
            if has_id(d, s.last().id@) {
                let j = choose|j: int| 0 <= j < d.len() && d[j].id@ == s.last().id@;
                assert(s[j].id@ == s[s.len() - 1].id@);
            }
        }
        assert(!has_id(spec_sort(d), s.last().id@));
        lemma_insert_ordered_unique(spec_sort(d), s.last());
        assert forall|id: Seq<char>| #[trigger] has_id(spec_sort(s), id) == has_id(s, id) by {
            assert(has_id(spec_sort(s), id) == (has_id(spec_sort(d), id) || id == s.last().id@));
            assert(has_id(s, id) == (has_id(d, id) || id == s.last().id@)) by {
                if has_id(s, id) {
                    let j = choose|j: int| 0 <= j < s.len() && s[j].id@ == id;
                    if j < s.len() - 1 {
                        assert(d[j].id@ == id);
                        assert(has_id(d, id));
                    } else {
                        assert(s[s.len() - 1].id@ == id);
                    }
                }
                if has_id(d, id) {
                    let j = choose|j: int| 0 <= j < d.len() && d[j].id@ == id;
                    assert(s[j].id@ == id);
                }
                if id == s.last().id@ {
                    assert(s[s.len() - 1].id@ == id);
                }
            }
        }
    }
}

proof fn lemma_filter_unique(s: Seq<MenuItemInfo>, pred: spec_fn(MenuItemInfo) -> bool)
    requires
        unique_ids(s),
    ensures
        unique_ids(s.filter(pred)),
    decreases s.len(),
{
    reveal(Seq::filter);
    if s.len() > 0 {
        let d = s.drop_last();
        assert(forall|j: int| 0 <= j < d.len() ==> d[j] == s[j]);
        lemma_filter_unique(d, pred);
        if pred(s.last()) {
            lemma_filter_subset(d, pred);
            let f = d.filter(pred);
            let r = f.push(s.last());
            assert forall|i: int, j: int| 0 <= i < j < r.len() implies r[i].id@ != r[j].id@ by {
                if j == r.len() - 1 {
                    assert(d.contains(f[i]));
                    let m = choose|m: int| 0 <= m < d.len() && d[m] == f[i];
                    assert(s[m].id@ != s[s.len() - 1].id@);
                }
            }
        }
    }
}

/// How many descriptors are submenu containers.
pub open spec fn count_sub(s: Seq<MenuItemInfo>) -> int
    decreases s.len(),
{
    if s.len() == 0 {
        0
    } else {
        count_sub(s.drop_last()) + if s.last().kind == ItemKind::Submenu {
            1int
        } else {
            0int
        }
    }
}

/// How many descriptors are not submenu containers.
pub open spec fn count_rest(s: Seq<MenuItemInfo>) -> int
    decreases s.len(),
{
    if s.len() == 0 {
        0
    } else {
        count_rest(s.drop_last()) + if s.last().kind == ItemKind::Submenu {
            0int
        } else {
            1int
        }
    }
}

proof fn lemma_counts(s: Seq<MenuItemInfo>)
    ensures
        count_sub(s) + count_rest(s) == s.len(),
        0 <= count_sub(s),
        0 <= count_rest(s),
    decreases s.len(),
{
    if s.len() > 0 {
        lemma_counts(s.drop_last());
    }
}

proof fn lemma_count_rest_split(s: Seq<MenuItemInfo>, j: int)
    requires
        0 <= j <= s.len(),
    ensures
        count_rest(s) == count_rest(s.take(j)) + count_rest(s.skip(j)),
    decreases s.len(),
{
    if j == s.len() {
        assert(s.take(j) =~= s);
        assert(s.skip(j).len() == 0);
    } else {
        let d = s.drop_last();
        lemma_count_rest_split(d, j);
        assert(d.take(j) =~= s.take(j));
        assert(s.skip(j).drop_last() =~= d.skip(j));
        assert(s.skip(j).last() == s.last());
    }
}
fn dedup_items(items: &Vec<MenuItemInfo>) -> (r: Vec<MenuItemInfo>)
    ensures
        r@ == spec_dedup(items@),
{
    let n = items.len();
    let mut out: Vec<MenuItemInfo> = Vec::new();
    let mut i: usize = 0;
    proof {
        assert(items@.take(0) =~= Seq::<MenuItemInfo>::empty());
    }
    while i < n
        invariant
            n == items@.len(),
            i <= n,
            out@ == spec_dedup(items@.take(i as int)),
        decreases n - i,
    {
        let mut seen = false;
        let mut j: usize = 0;
        while j < i
            invariant
                n == items@.len(),
                i < n,
                j <= i,
                seen ==> has_id(items@.take(i as int), items@[i as int].id@),
                !seen ==> forall|k: int| 0 <= k < j ==> items@[k].id@ != items@[i as int].id@,
            decreases i - j,
        {
            if str_eq(items[j].id, items[i].id) {
                proof {
                    assert(items@.take(i as int)[j as int] == items@[j as int]);
                }
                seen = true;
            }
            j = j + 1;
        }
        proof {
            assert(forall|k: int| 0 <= k < i ==> items@.take(i as int)[k] == items@[k]);
            let t1 = items@.take(i + 1);
            assert(t1.drop_last() =~= items@.take(i as int));
            assert(t1.last() == items@[i as int]);
        }
        if !seen {
            out.push(items[i]);
        }
        i = i + 1;
    }
    proof {
        assert(items@.take(n as int) =~= items@);
    }
    out
}

proof fn lemma_insert_ordered_at(s: Seq<MenuItemInfo>, x: MenuItemInfo, p: int)
    requires
        0 <= p <= s.len(),
        forall|k: int| p <= k < s.len() ==> s[k].order > x.order,
        p == 0 || s[p - 1].order <= x.order,
    ensures
        spec_insert_ordered(s, x) == s.insert(p, x),
    decreases s.len(),
{
    if p == s.len() {
        assert(s.insert(p, x) =~= s.push(x));
    } else {
        let d = s.drop_last();
        assert(forall|k: int| 0 <= k < d.len() ==> d[k] == s[k]);
        lemma_insert_ordered_at(d, x, p);
        assert(d.insert(p, x).push(s.last()) =~= s.insert(p, x));
    }
}

fn sort_items(items: &Vec<MenuItemInfo>) -> (r: Vec<MenuItemInfo>)
    ensures
        r@ == spec_sort(items@),
{
    let n = items.len();
    let mut out: Vec<MenuItemInfo> = Vec::new();
    let mut i: usize = 0;
    proof {
        assert(items@.take(0) =~= Seq::<MenuItemInfo>::empty());
    }
    while i < n
        invariant
            n == items@.len(),
            i <= n,
            out@ == spec_sort(items@.take(i as int)),
        decreases n - i,
    {
        let x = items[i];
        let ghost prev = out@;
        let mut p: usize = out.len();
        while p > 0 && out[p - 1].order > x.order
            invariant
                p <= out@.len(),
                out@ == prev,
                forall|k: int| p <= k < out@.len() ==> out@[k].order > x.order,
            decreases p,
        {
            p = p - 1;
        }
        out.insert(p, x);
        proof {
            lemma_insert_ordered_at(prev, x, p as int);
            let t1 = items@.take(i + 1);
            assert(t1.drop_last() =~= items@.take(i as int));
            assert(t1.last() == items@[i as int]);
        }
        i = i + 1;
    }
    proof {
        assert(items@.take(n as int) =~= items@);
    }
    out
}

fn compute_anchored(items: &Vec<MenuItemInfo>) -> (flags: Vec<bool>)
    ensures
        flags@.len() == items@.len(),
        forall|k: int| 0 <= k < items@.len() ==> flags@[k] == included_in(items@, items@[k]),
{
    let n = items.len();
    let mut flags: Vec<bool> = Vec::new();
    let mut i: usize = 0;
    while i < n
        invariant
            n == items@.len(),
            i <= n,
            flags@.len() == i,
            forall|k: int| 0 <= k < i ==> flags@[k] == anchored_elem(items@, items@[k], 0),
        decreases n - i,
    {
        flags.push(items[i].parent.is_none());
        i = i + 1;
    }
    let mut round: usize = 0;
    while round < n
        invariant
            n == items@.len(),
            round <= n,
            flags@.len() == n,
            forall|k: int|
                0 <= k < n ==> flags@[k] == anchored_elem(items@, items@[k], round as nat),
        decreases n - round,
    {
        let mut next: Vec<bool> = Vec::new();
        let mut i: usize = 0;
        while i < n
            invariant
                n == items@.len(),
                round < n,
                i <= n,
                next@.len() == i,
                flags@.len() == n,
                forall|k: int|
                    0 <= k < n ==> flags@[k] == anchored_elem(items@, items@[k], round as nat),
                forall|k: int|
                    0 <= k < i ==> next@[k] == anchored_elem(
                        items@,
                        items@[k],
                        (round + 1) as nat,
                    ),
            decreases n - i,
        {
            let b: bool = match items[i].parent {
                None => true,
                Some(p) => {
                    let mut found = false;
                    let mut j: usize = 0;
                    while j < n
                        invariant
                            n == items@.len(),
                            round < n,
                            i < n,
                            j <= n,
                            items@[i as int].parent == Some(p),
                            flags@.len() == n,
                            forall|k: int|
                                0 <= k < n ==> flags@[k] == anchored_elem(
                                    items@,
                                    items@[k],
                                    round as nat,
                                ),
                            found ==> exists|jj: int|
                                0 <= jj < n && (#[trigger] items@[jj]).kind == ItemKind::Submenu
                                    && items@[jj].id@ == p@ && anchored_elem(
                                    items@,
                                    items@[jj],
                                    round as nat,
                                ),
                            !found ==> forall|jj: int|
                                0 <= jj < j ==> !((#[trigger] items@[jj]).kind
                                    == ItemKind::Submenu && items@[jj].id@ == p@ && anchored_elem(
                                    items@,
                                    items@[jj],
                                    round as nat,
                                )),
                        decreases n - j,
                    {
                        if flags[j] && items[j].kind == ItemKind::Submenu && str_eq(
                            items[j].id,
                            p,
                        ) {
                            found = true;
                        }
                        j = j + 1;
                    }
                    found
                },
            };
            next.push(b);
            i = i + 1;
        }
        flags = next;
        round = round + 1;
    }
    flags
}

fn filter_included(items: &Vec<MenuItemInfo>) -> (r: Vec<MenuItemInfo>)
    ensures
        r@ == items@.filter(incl_pred(items@)),
{
    let flags = compute_anchored(items);
    let n = items.len();
    let mut out: Vec<MenuItemInfo> = Vec::new();
    let mut i: usize = 0;
    proof {
        reveal(Seq::filter);
        assert(items@.take(0) =~= Seq::<MenuItemInfo>::empty());
        assert(items@.take(0).filter(incl_pred(items@)) =~= Seq::<MenuItemInfo>::empty());
    }
    while i < n
        invariant
            n == items@.len(),
            i <= n,
            flags@.len() == n,
            forall|k: int| 0 <= k < n ==> flags@[k] == included_in(items@, items@[k]),
            out@ == items@.take(i as int).filter(incl_pred(items@)),
        decreases n - i,
    {
        proof {
            reveal(Seq::filter);
            let t1 = items@.take(i + 1);
            assert(t1.drop_last() =~= items@.take(i as int));
            assert(t1.last() == items@[i as int]);
        }
        if flags[i] {
            out.push(items[i]);
        }
        i = i + 1;
    }
    proof {
        assert(items@.take(n as int) =~= items@);
    }
    out
}

/// One correlation registry entry: a logical item identifier, the opaque
/// token of the live object built for it, and the item kind.
pub struct MenuIdEntry {
    /// Stable logical identifier from the schema.
    pub item_id: String,
    /// Opaque token of the live object in the current tree instance.
    pub menu_id: u64,
    /// Kind of the item.
    pub kind: ItemKind,
}

/// Registry contents: (identifier, token, kind) triples.
pub type RegEntries = Seq<(Seq<char>, u64, ItemKind)>;

/// The identifier registered under a token: the first matching entry.
pub open spec fn spec_resolve(entries: RegEntries, token: u64) -> Option<Seq<char>>
    decreases entries.len(),
{
    if entries.len() == 0 {
        None
    } else if entries[0].1 == token {
        Some(entries[0].0)
    } else {
        spec_resolve(entries.drop_first(), token)
    }
}

/// The token registered under an identifier: the first matching entry.
pub open spec fn spec_reg_token(entries: RegEntries, id: Seq<char>) -> Option<u64>
    decreases entries.len(),
{
    if entries.len() == 0 {
        None
    } else if entries[0].0 == id {
        Some(entries[0].1)
    } else {
        spec_reg_token(entries.drop_first(), id)
    }
}

/// The table after registering an entry: an existing entry for the same
/// identifier is replaced in place, otherwise the entry is appended.
pub open spec fn spec_reg_upsert(entries: RegEntries, e: (Seq<char>, u64, ItemKind)) -> RegEntries
    decreases entries.len(),
{
    if entries.len() == 0 {
        seq![e]
    } else if entries[0].0 == e.0 {
        seq![e] + entries.drop_first()
    } else {
        seq![entries[0]] + spec_reg_upsert(entries.drop_first(), e)
    }
}

proof fn lemma_reg_upsert_found(entries: RegEntries, e: (Seq<char>, u64, ItemKind), i: int)
    requires
        0 <= i < entries.len(),
        entries[i].0 == e.0,
        forall|j: int| 0 <= j < i ==> entries[j].0 != e.0,
    ensures
        spec_reg_upsert(entries, e) == entries.update(i, e),
    decreases entries.len(),
{
    if i == 0 {
        assert(spec_reg_upsert(entries, e) =~= entries.update(0, e));
    } else {
        assert(forall|j: int|
            0 <= j < i - 1 ==> entries.drop_first()[j].0 == #[trigger] entries[j + 1].0);
        lemma_reg_upsert_found(entries.drop_first(), e, i - 1);
        assert(spec_reg_upsert(entries, e) =~= entries.update(i, e));
    }
}

proof fn lemma_reg_upsert_missing(entries: RegEntries, e: (Seq<char>, u64, ItemKind))
    requires
        forall|j: int| 0 <= j < entries.len() ==> entries[j].0 != e.0,
    ensures
        spec_reg_upsert(entries, e) == entries.push(e),
    decreases entries.len(),
{
    if entries.len() == 0 {
        assert(spec_reg_upsert(entries, e) =~= entries.push(e));
    } else {
        assert(forall|j: int|
            0 <= j < entries.len() - 1 ==> entries.drop_first()[j].0 == #[trigger] entries[j
                + 1].0);
        lemma_reg_upsert_missing(entries.drop_first(), e);
        assert(spec_reg_upsert(entries, e) =~= entries.push(e));
    }
}

/// The correlation registry: a table of (identifier, token, kind) entries,
/// cleared and repopulated wholesale at every rebuild.
pub struct Registry {
    entries: Vec<MenuIdEntry>,
}

impl View for Registry {
    type V = RegEntries;

    closed spec fn view(&self) -> RegEntries {
        self.entries@.map_values(|e: MenuIdEntry| (e.item_id@, e.menu_id, e.kind))
    }
}

impl Registry {
    /// Identifiers and tokens are each collision-free.
    pub open spec fn wf(self) -> bool {
        forall|i: int, j: int|
            0 <= i < j < self@.len() ==> self@[i].0 != self@[j].0 && self@[i].1 != self@[j].1
    }

    /// An empty registry.
    pub fn new() -> (r: Self)
        ensures
            r@ == Seq::<(Seq<char>, u64, ItemKind)>::empty(),
            r.wf(),
    {
        let r = Registry { entries: Vec::new() };
        proof {
            assert(r@ =~= Seq::<(Seq<char>, u64, ItemKind)>::empty());
        }
        r
    }

    /// Remove every entry.
    pub fn clear(&mut self)
        ensures
            final(self)@ == Seq::<(Seq<char>, u64, ItemKind)>::empty(),
            final(self).wf(),
    {
        self.entries.clear();
        proof {
            assert(self@ =~= Seq::<(Seq<char>, u64, ItemKind)>::empty());
        }
    }

    /// The number of entries.
    pub fn len(&self) -> (n: usize)
        ensures
            n == self@.len(),
    {
        self.entries.len()
    }

    /// The entry at a position.
    pub fn entry_at(&self, i: usize) -> (r: (String, u64, ItemKind))
        requires
            i < self@.len(),
        ensures
            (r.0@, r.1, r.2) == self@[i as int],
    {
        let e = &self.entries[i];
        (e.item_id.clone(), e.menu_id, e.kind)
    }

    /// Register a live object under its logical identifier: a new
    /// identifier appends an entry, re-registering an identifier replaces
    /// its entry in place, so the table never holds two entries for one
    /// identifier.
    pub fn register(&mut self, item_id: &str, menu_id: u64, kind: ItemKind)
        ensures
            final(self)@ == spec_reg_upsert(old(self)@, (item_id@, menu_id, kind)),
    {
        let n = self.entries.len();
        let mut i: usize = 0;
        while i < n
            invariant
                n == self.entries@.len(),
                n == self@.len(),
                i <= n,
                self@ == old(self)@,
                forall|j: int| 0 <= j < i ==> old(self)@[j].0 != item_id@,
            decreases n - i,
        {
            if str_eq(self.entries[i].item_id.as_str(), item_id) {
                self.entries[i] = MenuIdEntry {
                    item_id: String::from_str(item_id),
                    menu_id,
                    kind,
                };
                proof {
                    let e = (item_id@, menu_id, kind);
                    assert(self@ =~= old(self)@.update(i as int, e));
                    lemma_reg_upsert_found(old(self)@, e, i as int);
                }
                return ;
            }
            i = i + 1;
        }
        self.entries.push(
            MenuIdEntry { item_id: String::from_str(item_id), menu_id, kind },
        );
        proof {
            assert(self@ =~= old(self)@.push((item_id@, menu_id, kind)));
            lemma_reg_upsert_missing(old(self)@, (item_id@, menu_id, kind));
        }
    }

    /// Resolve a token back to the logical identifier registered for it.
    pub fn identify_item_id(&self, token: u64) -> (r: Option<String>)
        ensures
            match r {
                Some(id) => spec_resolve(self@, token) == Some(id@),
                None => spec_resolve(self@, token) is None,
            },
    {
        let n = self.entries.len();
        let mut i: usize = 0;
        proof {
            assert(self@.skip(0) =~= self@);
        }
        while i < n
            invariant
                n == self.entries@.len(),
                n == self@.len(),
                i <= n,
                spec_resolve(self@, token) == spec_resolve(self@.skip(i as int), token),
            decreases n - i,
        {
            proof {
                assert(self@.skip(i as int)[0] == self@[i as int]);
                assert(self@.skip(i as int).drop_first() =~= self@.skip(i + 1));
            }
            if self.entries[i].menu_id == token {
                return Some(self.entries[i].item_id.clone());
            }
            i = i + 1;
        }
        proof {
            assert(self@.skip(n as int).len() == 0);
        }
        None
    }

    /// The token registered for a logical identifier.
    pub fn token_for(&self, item_id: &str) -> (r: Option<u64>)
        ensures
            r == spec_reg_token(self@, item_id@),
    {
        let n = self.entries.len();
        let mut i: usize = 0;
        proof {
            assert(self@.skip(0) =~= self@);
        }
        while i < n
            invariant
                n == self.entries@.len(),
                n == self@.len(),
                i <= n,
                spec_reg_token(self@, item_id@) == spec_reg_token(self@.skip(i as int), item_id@),
            decreases n - i,
        {
            proof {
                assert(self@.skip(i as int)[0] == self@[i as int]);
                assert(self@.skip(i as int).drop_first() =~= self@.skip(i + 1));
            }
            if str_eq(self.entries[i].item_id.as_str(), item_id) {
                return Some(self.entries[i].menu_id);
            }
            i = i + 1;
        }
        proof {
            assert(self@.skip(n as int).len() == 0);
        }
        None
    }
}

proof fn lemma_resolve_at(entries: RegEntries, k: int)
    requires
        0 <= k < entries.len(),
        forall|j: int| 0 <= j < k ==> entries[j].1 != entries[k].1,
    ensures
        spec_resolve(entries, entries[k].1) == Some(entries[k].0),
    decreases entries.len(),
{
    if k > 0 {
        let d = entries.drop_first();
        assert(forall|j: int| 0 <= j < d.len() ==> d[j] == entries[j + 1]);
        lemma_resolve_at(d, k - 1);
    }
}

/// Resolution round-trip: in a well-formed registry, the token of every
/// registered entry resolves back to exactly that entry's identifier.
pub proof fn lemma_registry_round_trip(r: Registry, k: int)
    requires
        r.wf(),
        0 <= k < r@.len(),
    ensures
        spec_resolve(r@, r@[k].1) == Some(r@[k].0),
{
    lemma_resolve_at(r@, k);
}
/// One live menu node: the data the core keeps about a toolkit object it
/// asked the embedder to create. The node is thread-confined with the tree.
pub struct LiveNode {
    /// Stable logical identifier from the schema.
    pub id: String,
    /// Kind of the item.
    pub kind: ItemKind,
    /// Localized label the node was built with; empty for separators.
    pub label: String,
    /// Identifier of the parent submenu, if any.
    pub parent: Option<String>,
    /// Opaque token of this node in the current tree instance.
    pub token: u64,
    /// Current checkbox state.
    pub checked: bool,
    /// Current enabled state.
    pub enabled: bool,
}

/// The live tree: nodes in assembly order, rebuilt wholesale on language
/// change. The tree keeps one node per compiled descriptor, separators
/// included, because the assembly pass creates and appends a live object
/// for separators too; separators still carry no logical identity — they
/// get no correlation registry entry, and the state accessors treat them
/// as absent.
pub struct LiveTree {
    /// The nodes, in assembly order.
    pub nodes: Vec<LiveNode>,
}

/// The position of the first node carrying an identifier.
pub open spec fn find_node_idx(nodes: Seq<LiveNode>, id: Seq<char>) -> Option<int>
    decreases nodes.len(),
{
    if nodes.len() == 0 {
        None
    } else if nodes[0].id@ == id {
        Some(0)
    } else {
        match find_node_idx(nodes.drop_first(), id) {
            None => None,
            Some(k) => Some(k + 1),
        }
    }
}

proof fn lemma_find_node_at(nodes: Seq<LiveNode>, id: Seq<char>, k: int)
    requires
        0 <= k < nodes.len(),
        nodes[k].id@ == id,
        forall|j: int| 0 <= j < k ==> nodes[j].id@ != id,
    ensures
        find_node_idx(nodes, id) == Some(k),
    decreases nodes.len(),
{
    if k > 0 {
        let d = nodes.drop_first();
        assert(forall|j: int| 0 <= j < d.len() ==> d[j] == nodes[j + 1]);
        lemma_find_node_at(d, id, k - 1);
    }
}

proof fn lemma_find_node_none(nodes: Seq<LiveNode>, id: Seq<char>)
    requires
        forall|j: int| 0 <= j < nodes.len() ==> nodes[j].id@ != id,
    ensures
        find_node_idx(nodes, id) is None,
    decreases nodes.len(),
{
    if nodes.len() > 0 {
        let d = nodes.drop_first();
        assert(forall|j: int| 0 <= j < d.len() ==> d[j] == nodes[j + 1]);
        lemma_find_node_none(d, id);
    }
}

proof fn lemma_find_node_props(nodes: Seq<LiveNode>, id: Seq<char>)
    ensures
        match find_node_idx(nodes, id) {
            Some(k) => 0 <= k < nodes.len() && nodes[k].id@ == id,
            None => forall|j: int| 0 <= j < nodes.len() ==> nodes[j].id@ != id,
        },
    decreases nodes.len(),
{
    if nodes.len() > 0 && nodes[0].id@ != id {
        let d = nodes.drop_first();
        assert(forall|j: int| 0 <= j < d.len() ==> d[j] == nodes[j + 1]);
        lemma_find_node_props(d, id);
        match find_node_idx(d, id) {
            Some(k) => {
                assert(nodes[k + 1].id@ == id);
            },
            None => {
                assert forall|j: int| 0 <= j < nodes.len() implies nodes[j].id@ != id by {
                    if j > 0 {
                        assert(d[j - 1].id@ != id);
                    }
                }
            },
        }
    }
}

/// The tree after setting the checkbox state of the item with an identifier:
/// unchanged when no such node exists or the node is not a checkbox.
pub open spec fn spec_set_checked(nodes: Seq<LiveNode>, id: Seq<char>, checked: bool) -> Seq<
    LiveNode,
> {
    match find_node_idx(nodes, id) {
        Some(k) => if nodes[k].kind == ItemKind::Check {
            nodes.update(k, LiveNode { checked, ..nodes[k] })
        } else {
            nodes
        },
        None => nodes,
    }
}

/// The tree after setting the enabled state of the item with an identifier:
/// unchanged when no such node exists or the node is a separator.
pub open spec fn spec_set_enabled(nodes: Seq<LiveNode>, id: Seq<char>, enabled: bool) -> Seq<
    LiveNode,
> {
    match find_node_idx(nodes, id) {
        Some(k) => if nodes[k].kind != ItemKind::Separator {
            nodes.update(k, LiveNode { enabled, ..nodes[k] })
        } else {
            nodes
        },
        None => nodes,
    }
}

/// The checkbox state of the item with an identifier, if it is a checkbox.
pub open spec fn spec_get_checked(nodes: Seq<LiveNode>, id: Seq<char>) -> Option<bool> {
    match find_node_idx(nodes, id) {
        Some(k) => if nodes[k].kind == ItemKind::Check {
            Some(nodes[k].checked)
        } else {
            None
        },
        None => None,
    }
}

/// The enabled state of the item with an identifier, if it is not a
/// separator.
pub open spec fn spec_get_enabled(nodes: Seq<LiveNode>, id: Seq<char>) -> Option<bool> {
    match find_node_idx(nodes, id) {
        Some(k) => if nodes[k].kind != ItemKind::Separator {
            Some(nodes[k].enabled)
        } else {
            None
        },
        None => None,
    }
}
/// A live node is the faithful image of a descriptor built in a locale:
/// same identifier, kind and parent, the label resolved through the
/// translation table, the checkbox state at its schema default, enabled.
pub open spec fn node_matches(n: LiveNode, d: MenuItemInfo, locale: Locale) -> bool {
    &&& n.id@ == d.id@
    &&& n.kind == d.kind
    &&& n.label@ == (match d.label_key {
        Some(k) => spec_translation(locale, k),
        None => Seq::<char>::empty(),
    })
    &&& (match (d.parent, n.parent) {
        (None, None) => true,
        (Some(p), Some(q)) => q@ == p@,
        _ => false,
    })
    &&& n.checked == d.default_checked
    &&& n.enabled == true
}

fn copy_items(v: &Vec<MenuItemInfo>) -> (r: Vec<MenuItemInfo>)
    ensures
        r@ == v@,
{
    let n = v.len();
    let mut out: Vec<MenuItemInfo> = Vec::new();
    let mut i: usize = 0;
    while i < n
        invariant
            n == v@.len(),
            i <= n,
            out@ == v@.take(i as int),
        decreases n - i,
    {
        out.push(v[i]);
        proof {
            assert(out@ =~= v@.take(i + 1));
        }
        i = i + 1;
    }
    proof {
        assert(v@.take(n as int) =~= v@);
    }
    out
}

fn find_node(nodes: &Vec<LiveNode>, item_id: &str) -> (r: Option<usize>)
    ensures
        match r {
            Some(i) => i < nodes@.len() && nodes@[i as int].id@ == item_id@ && find_node_idx(
                nodes@,
                item_id@,
            ) == Some(i as int),
            None => find_node_idx(nodes@, item_id@) is None,
        },
{
    let n = nodes.len();
    let mut i: usize = 0;
    while i < n
        invariant
            n == nodes@.len(),
            i <= n,
            forall|j: int| 0 <= j < i ==> nodes@[j].id@ != item_id@,
        decreases n - i,
    {
        if str_eq(nodes[i].id.as_str(), item_id) {
            proof {
                lemma_find_node_at(nodes@, item_id@, i as int);
            }
            return Some(i);
        }
        i = i + 1;
    }
    proof {
        lemma_find_node_none(nodes@, item_id@);
    }
    None
}

fn clone_opt_string(o: &Option<String>) -> (r: Option<String>)
    ensures
        r == *o,
{
    match o {
        None => None,
        Some(s) => Some(s.clone()),
    }
}

/// Outward work the core asks the embedder to perform.
#[derive(Clone, Copy, PartialEq, Eq, Structural, Debug)]
pub enum UiRequest {
    /// Persist the newly selected display language.
    SaveLocale(crate::i18n::Locale),
    /// Show a confirmation dialog with these title and message keys.
    Confirm(crate::i18n::StringKey, crate::i18n::StringKey),
}

/// The outcome of dispatching one inbound event.
#[derive(Clone, Copy, PartialEq, Eq, Structural, Debug)]
pub enum Outcome {
    /// The token matched no registered item; the event is dropped.
    Unresolved,
    /// The event was attributed to an item; `rebuild` says whether the
    /// caller must now run the full rebuild protocol.
    Handled { rebuild: bool },
}

/// The explicitly owned context of the whole menu core: localizer, schema,
/// live tree, correlation registry, token source, and the queues of outward
/// effects the embedder drains.
pub struct TrayState {
    /// The localizer holding the current display language.
    pub i18n: I18n,
    /// The schema the current tree was compiled from.
    pub schema: Vec<MenuItemInfo>,
    /// The live tree of the current build.
    pub tree: LiveTree,
    /// The correlation registry of the current build.
    pub registry: Registry,
    /// The next opaque token to hand out; never reused across rebuilds.
    pub next_token: u64,
    /// Whether the host has registered its action callback.
    pub callback_registered: bool,
    /// Pending host callback notifications: logical identifiers, in order.
    pub notified: Vec<String>,
    /// Pending outward UI work, in order.
    pub requests: Vec<UiRequest>,
    /// The configuration file path handed over by the host, if any.
    pub config_path: Option<String>,
}

/// The logical identifiers queued for the host callback, as text.
pub open spec fn notified_view(s: TrayState) -> Seq<Seq<char>> {
    s.notified@.map_values(|x: String| x@)
}

/// All fields except the live tree agree.
pub open spec fn eq_but_tree(a: TrayState, b: TrayState) -> bool {
    &&& a.i18n == b.i18n
    &&& a.schema@ == b.schema@
    &&& a.registry@ == b.registry@
    &&& a.next_token == b.next_token
    &&& a.callback_registered == b.callback_registered
    &&& a.notified@ == b.notified@
    &&& a.requests@ == b.requests@
    &&& a.config_path == b.config_path
}

/// All fields except the host notification queue agree.
pub open spec fn eq_but_notified(a: TrayState, b: TrayState) -> bool {
    &&& a.i18n == b.i18n
    &&& a.schema@ == b.schema@
    &&& a.tree.nodes@ == b.tree.nodes@
    &&& a.registry@ == b.registry@
    &&& a.next_token == b.next_token
    &&& a.callback_registered == b.callback_registered
    &&& a.requests@ == b.requests@
    &&& a.config_path == b.config_path
}

impl TrayState {
    /// A fresh context: English locale, empty schema, tree and registry, no
    /// callback, nothing pending.
    pub fn new() -> (r: Self)
        ensures
            r.i18n.locale == crate::i18n::Locale::English,
            r.schema@ == Seq::<MenuItemInfo>::empty(),
            r.tree.nodes@ == Seq::<LiveNode>::empty(),
            r.registry@ == Seq::<(Seq<char>, u64, ItemKind)>::empty(),
            r.next_token == 1,
            r.callback_registered == false,
            r.notified@ == Seq::<String>::empty(),
            r.requests@ == Seq::<UiRequest>::empty(),
            r.config_path is None,
    {
        TrayState {
            i18n: I18n::new(),
            schema: Vec::new(),
            tree: LiveTree { nodes: Vec::new() },
            registry: Registry::new(),
            next_token: 1,
            callback_registered: false,
            notified: Vec::new(),
            requests: Vec::new(),
            config_path: None,
        }
    }

    /// Record the configuration file path handed over by the host.
    pub fn set_config_file_path(&mut self, path: String)
        ensures
            final(self).config_path == Some(path),
            final(self).i18n == old(self).i18n,
            final(self).schema@ == old(self).schema@,
            final(self).tree.nodes@ == old(self).tree.nodes@,
            final(self).registry@ == old(self).registry@,
            final(self).next_token == old(self).next_token,
            final(self).callback_registered == old(self).callback_registered,
            final(self).notified@ == old(self).notified@,
            final(self).requests@ == old(self).requests@,
    {
        self.config_path = Some(path);
    }

    /// The configuration file path handed over by the host, if any.
    pub fn get_config_file_path_from_cpp(&self) -> (r: Option<String>)
        ensures
            r == self.config_path,
    {
        clone_opt_string(&self.config_path)
    }

    /// The configuration file path to use, if one was handed over; whether
    /// the file exists is for the embedder to check.
    pub fn get_config_file_path(&self) -> (r: Option<String>)
        ensures
            r == self.config_path,
    {
        clone_opt_string(&self.config_path)
    }

    /// Record that the host has registered its action callback; the callback
    /// itself stays with the embedder, which drains `notified`.
    pub fn register_callback(&mut self)
        ensures
            final(self).callback_registered == true,
            final(self).i18n == old(self).i18n,
            final(self).schema@ == old(self).schema@,
            final(self).tree.nodes@ == old(self).tree.nodes@,
            final(self).registry@ == old(self).registry@,
            final(self).next_token == old(self).next_token,
            final(self).notified@ == old(self).notified@,
            final(self).requests@ == old(self).requests@,
            final(self).config_path == old(self).config_path,
    {
        self.callback_registered = true;
    }

    /// Queue a host notification for an action, if a callback is registered.
    pub fn trigger_action(&mut self, action: crate::actions::MenuAction)
        ensures
            eq_but_notified(*old(self), *final(self)),
            old(self).callback_registered ==> notified_view(*final(self)) == notified_view(
                *old(self),
            ).push(crate::actions::spec_action_item_id(action)),
            !old(self).callback_registered ==> final(self).notified@ == old(self).notified@,
    {
        if self.callback_registered {
            self.notified.push(String::from_str(action.item_id()));
            proof {
                assert(notified_view(*self) =~= notified_view(*old(self)).push(
                    crate::actions::spec_action_item_id(action),
                ));
            }
        }
    }

    /// Drop every correlation registry entry and every live node, at the
    /// start of a rebuild.
    pub fn clear_registry(&mut self)
        ensures
            final(self).tree.nodes@ == Seq::<LiveNode>::empty(),
            final(self).registry@ == Seq::<(Seq<char>, u64, ItemKind)>::empty(),
            final(self).i18n == old(self).i18n,
            final(self).schema@ == old(self).schema@,
            final(self).next_token == old(self).next_token,
            final(self).callback_registered == old(self).callback_registered,
            final(self).notified@ == old(self).notified@,
            final(self).requests@ == old(self).requests@,
            final(self).config_path == old(self).config_path,
    {
        self.registry.clear();
        self.tree.nodes.clear();
        proof {
            assert(self.tree.nodes@ =~= Seq::<LiveNode>::empty());
        }
    }

    /// Set a checkbox item's state by logical identifier; items that are not
    /// checkboxes are left alone.
    pub fn set_check_state_by_id(&mut self, item_id: &str, checked: bool)
        ensures
            eq_but_tree(*old(self), *final(self)),
            final(self).tree.nodes@ == spec_set_checked(old(self).tree.nodes@, item_id@, checked),
    {
        match find_node(&self.tree.nodes, item_id) {
            Some(i) => {
                if self.tree.nodes[i].kind == ItemKind::Check {
                    let ghost orig = self.tree.nodes@;
                    self.tree.nodes[i].checked = checked;
                    proof {
                        assert(self.tree.nodes@ =~= orig.update(
                            i as int,
                            LiveNode { checked, ..orig[i as int] },
                        ));
                    }
                }
            },
            None => {},
        }
    }

    /// A checkbox item's current state by logical identifier.
    pub fn get_check_state_by_id(&self, item_id: &str) -> (r: Option<bool>)
        ensures
            r == spec_get_checked(self.tree.nodes@, item_id@),
    {
        match find_node(&self.tree.nodes, item_id) {
            Some(i) => {
                if self.tree.nodes[i].kind == ItemKind::Check {
                    Some(self.tree.nodes[i].checked)
                } else {
                    None
                }
            },
            None => None,
        }
    }

    /// Set an item's enabled state by logical identifier; separators are
    /// left alone.
    pub fn set_item_enabled_by_id(&mut self, item_id: &str, enabled: bool)
        ensures
            eq_but_tree(*old(self), *final(self)),
            final(self).tree.nodes@ == spec_set_enabled(old(self).tree.nodes@, item_id@, enabled),
    {
        match find_node(&self.tree.nodes, item_id) {
            Some(i) => {
                if !(self.tree.nodes[i].kind == ItemKind::Separator) {
                    let ghost orig = self.tree.nodes@;
                    self.tree.nodes[i].enabled = enabled;
                    proof {
                        assert(self.tree.nodes@ =~= orig.update(
                            i as int,
                            LiveNode { enabled, ..orig[i as int] },
                        ));
                    }
                }
            },
            None => {},
        }
    }

    /// An item's current enabled state by logical identifier.
    pub fn get_item_enabled_by_id(&self, item_id: &str) -> (r: Option<bool>)
        ensures
            r == spec_get_enabled(self.tree.nodes@, item_id@),
    {
        match find_node(&self.tree.nodes, item_id) {
            Some(i) => {
                if !(self.tree.nodes[i].kind == ItemKind::Separator) {
                    Some(self.tree.nodes[i].enabled)
                } else {
                    None
                }
            },
            None => None,
        }
    }

    /// Update the virtual display items from the host-reported state:
    /// `Create` is checked while the display is active and enabled per
    /// `can_create`; `Close` is checked while it is inactive and enabled per
    /// `can_close`; `Keep Enabled` is checked per `is_persistent`.
    pub fn update_vdd_menu_state(
        &mut self,
        can_create: bool,
        can_close: bool,
        is_persistent: bool,
        is_active: bool,
    )
        ensures
            eq_but_tree(*old(self), *final(self)),
            final(self).tree.nodes@ == spec_set_checked(
                spec_set_enabled(
                    spec_set_checked(
                        spec_set_enabled(
                            spec_set_checked(old(self).tree.nodes@, "vdd_create"@, is_active),
                            "vdd_create"@,
                            can_create,
                        ),
                        "vdd_close"@,
                        !is_active,
                    ),
                    "vdd_close"@,
                    can_close,
                ),
                "vdd_persistent"@,
                is_persistent,
            ),
    {
        self.set_check_state_by_id("vdd_create", is_active);
        self.set_item_enabled_by_id("vdd_create", can_create);
        self.set_check_state_by_id("vdd_close", !is_active);
        self.set_item_enabled_by_id("vdd_close", can_close);
        self.set_check_state_by_id("vdd_persistent", is_persistent);
    }
}

/// The opaque token handed to the descriptor at position `k` of the
/// compiled sequence when the build starts from token `base`: containers are
/// numbered first in assembly order, then the leaves.
#[verifier::opaque]
pub open spec fn spec_token_at(c: Seq<MenuItemInfo>, base: int, k: int) -> int {
    if c[k].kind == ItemKind::Submenu {
        base + count_sub(c.take(k))
    } else {
        base + count_sub(c) + count_rest(c.take(k))
    }
}

/// The registry entries created by the container pass for the first `i`
/// compiled descriptors.
pub open spec fn reg_sub(c: Seq<MenuItemInfo>, base: int, i: int) -> RegEntries
    decreases i,
{
    if i <= 0 {
        Seq::<(Seq<char>, u64, ItemKind)>::empty()
    } else {
        reg_sub(c, base, i - 1) + (if c[i - 1].kind == ItemKind::Submenu {
            seq![(c[i - 1].id@, spec_token_at(c, base, i - 1) as u64, ItemKind::Submenu)]
        } else {
            Seq::<(Seq<char>, u64, ItemKind)>::empty()
        })
    }
}

/// The registry entries created by the leaf pass for the first `i` compiled
/// descriptors: actions and checkboxes; separators carry no logical identity.
pub open spec fn reg_leaf(c: Seq<MenuItemInfo>, base: int, i: int) -> RegEntries
    decreases i,
{
    if i <= 0 {
        Seq::<(Seq<char>, u64, ItemKind)>::empty()
    } else {
        reg_leaf(c, base, i - 1) + (if c[i - 1].kind != ItemKind::Submenu && c[i - 1].kind
            != ItemKind::Separator {
            seq![(c[i - 1].id@, spec_token_at(c, base, i - 1) as u64, c[i - 1].kind)]
        } else {
            Seq::<(Seq<char>, u64, ItemKind)>::empty()
        })
    }
}

/// The whole correlation registry built for the compiled descriptors `c`
/// from the starting token `base`: the container entries, then the leaf
/// entries.
pub open spec fn spec_registry(c: Seq<MenuItemInfo>, base: int) -> RegEntries {
    reg_sub(c, base, c.len() as int) + reg_leaf(c, base, c.len() as int)
}

impl TrayState {
    /// Compile a schema into a fresh live tree and correlation registry, in
    /// three passes: containers first, then leaves, then assembly in stable
    /// `order`. Descriptors with duplicate identifiers beyond the first and
    /// descriptors whose parent chain does not anchor are dropped; every
    /// other descriptor yields exactly one node, and every non-separator
    /// among them exactly one registry entry with a fresh token.
    #[verifier::rlimit(100)]
    #[verifier::spinoff_prover]
    pub fn compile(&mut self, items: &Vec<MenuItemInfo>)
        requires
            old(self).next_token + items@.len() <= u64::MAX,
        ensures
            final(self).i18n == old(self).i18n,
            final(self).schema@ == items@,
            final(self).callback_registered == old(self).callback_registered,
            final(self).notified@ == old(self).notified@,
            final(self).requests@ == old(self).requests@,
            final(self).config_path == old(self).config_path,
            final(self).next_token == old(self).next_token + spec_compiled(items@).len(),
            unique_ids(spec_compiled(items@)),
            final(self).tree.nodes@.len() == spec_compiled(items@).len(),
            forall|k: int|
                0 <= k < spec_compiled(items@).len() ==> node_matches(
                    #[trigger] final(self).tree.nodes@[k],
                    spec_compiled(items@)[k],
                    old(self).i18n.locale,
                ),
            forall|k: int|
                0 <= k < spec_compiled(items@).len() ==> (
                #[trigger] final(self).tree.nodes@[k]).token as int == spec_token_at(
                    spec_compiled(items@),
                    old(self).next_token as int,
                    k,
                ),
            final(self).registry@ == spec_registry(
                spec_compiled(items@),
                old(self).next_token as int,
            ),
    {
        self.clear_registry();
        self.schema = copy_items(items);
        let deduped = dedup_items(items);
        let arranged = sort_items(&deduped);
        let kept = filter_included(&arranged);
        proof {
            assert(kept@ == spec_compiled(items@));
            lemma_dedup_unique(items@);
            lemma_sort_unique(spec_dedup(items@));
            lemma_filter_unique(spec_arranged(items@), incl_pred(spec_arranged(items@)));
            lemma_dedup_len(items@);
            lemma_sort_len(spec_dedup(items@));
            spec_arranged(items@).lemma_filter_len(incl_pred(spec_arranged(items@)));
        }
        let n = kept.len();
        let ghost base = old(self).next_token as int;

        // Give every slot a placeholder token.
        let mut tokens: Vec<u64> = Vec::new();
        let mut i: usize = 0;
        while i < n
            invariant
                i <= n,
                tokens@.len() == i,
            decreases n - i,
        {
            tokens.push(0);
            i = i + 1;
        }

        // Container pass: create every submenu and register it at once, so
        // that children can later be attached to an existing container.
        proof {
            assert(kept@.take(0) =~= Seq::<MenuItemInfo>::empty());
        }
        let mut i: usize = 0;
        while i < n
            invariant
                n == kept@.len(),
                i <= n,
                tokens@.len() == n,
                unique_ids(kept@),
                base + n <= u64::MAX,
                0 <= base,
                self.next_token == base + count_sub(kept@.take(i as int)),
                self.i18n == old(self).i18n,
                self.schema@ == items@,
                self.callback_registered == old(self).callback_registered,
                self.notified@ == old(self).notified@,
                self.requests@ == old(self).requests@,
                self.config_path == old(self).config_path,
                self.tree.nodes@ == Seq::<LiveNode>::empty(),
                self.registry@ == reg_sub(kept@, base, i as int),
                forall|k: int|
                    0 <= k < i && (#[trigger] kept@[k]).kind == ItemKind::Submenu ==> tokens@[k]
                        as int == spec_token_at(kept@, base, k),
            decreases n - i,
        {
            let it = kept[i];
            proof {
                lemma_counts(kept@.take(i as int));
                assert(kept@.take(i + 1).drop_last() =~= kept@.take(i as int));
                assert(kept@.take(i + 1).last() == kept@[i as int]);
            }
            if it.kind == ItemKind::Submenu {
                let ghost reg0 = self.registry@;
                let tok = self.next_token;
                tokens[i] = tok;
                self.registry.register(it.id, tok, it.kind);
                proof {
                    reveal(spec_token_at);
                    assert(tok as int == spec_token_at(kept@, base, i as int));
                    assert forall|ei: int| 0 <= ei < reg0.len() implies (#[trigger] reg0[ei]).0
                        != it.id@ by {
                        lemma_reg_sub_entry_source(kept@, base, i as int, ei);
                        let k = choose|k: int|
                            0 <= k < i && kept@[k].kind == ItemKind::Submenu
                                && #[trigger] reg_sub(kept@, base, i as int)[ei] == (
                            kept@[k].id@,
                            spec_token_at(kept@, base, k) as u64,
                            kept@[k].kind,
                            );
                        assert(kept@[k].id@ != kept@[i as int].id@);
                    }
                    lemma_reg_upsert_missing(reg0, (it.id@, tok, it.kind));
                    assert(self.registry@ =~= reg_sub(kept@, base, i + 1));
                }
                self.next_token = self.next_token + 1;
            } else {
                proof {
                    assert(reg_sub(kept@, base, i + 1) =~= reg_sub(kept@, base, i as int));
                }
            }
            i = i + 1;
        }

        // Leaf pass: create every action, checkbox and separator; actions
        // and checkboxes are registered, separators carry no logical
        // identity and only receive a token.
        proof {
            assert(kept@.take(n as int) =~= kept@);
            assert(kept@.take(0) =~= Seq::<MenuItemInfo>::empty());
        }
        let mut i: usize = 0;
        while i < n
            invariant
                n == kept@.len(),
                i <= n,
                tokens@.len() == n,
                unique_ids(kept@),
                base + n <= u64::MAX,
                0 <= base,
                self.next_token == base + count_sub(kept@) + count_rest(kept@.take(i as int)),
                self.i18n == old(self).i18n,
                self.schema@ == items@,
                self.callback_registered == old(self).callback_registered,
                self.notified@ == old(self).notified@,
                self.requests@ == old(self).requests@,
                self.config_path == old(self).config_path,
                self.tree.nodes@ == Seq::<LiveNode>::empty(),
                self.registry@ == reg_sub(kept@, base, n as int) + reg_leaf(
                    kept@,
                    base,
                    i as int,
                ),
                forall|k: int|
                    0 <= k < n && ((#[trigger] kept@[k]).kind == ItemKind::Submenu || k < i)
                        ==> tokens@[k] as int == spec_token_at(kept@, base, k),
            decreases n - i,
        {
            let it = kept[i];
            proof {
                lemma_counts(kept@);
                lemma_counts(kept@.take(i as int));
                lemma_count_rest_split(kept@, i + 1);
                lemma_counts(kept@.skip(i + 1));
                assert(kept@.take(i + 1).drop_last() =~= kept@.take(i as int));
                assert(kept@.take(i + 1).last() == kept@[i as int]);
            }
            if !(it.kind == ItemKind::Submenu) {
                let ghost reg0 = self.registry@;
                let tok = self.next_token;
                tokens[i] = tok;
                proof {
                    reveal(spec_token_at);
                    assert(tok as int == spec_token_at(kept@, base, i as int));
                }
                if !(it.kind == ItemKind::Separator) {
                    self.registry.register(it.id, tok, it.kind);
                    proof {
                        let a = reg_sub(kept@, base, n as int);
                        let b = reg_leaf(kept@, base, i as int);
                        assert forall|ei: int| 0 <= ei < reg0.len() implies (
                        #[trigger] reg0[ei]).0 != it.id@ by {
                            if ei < a.len() {
                                lemma_reg_sub_entry_source(kept@, base, n as int, ei);
                                assert(reg0[ei] == a[ei]);
                                let k = choose|k: int|
                                    0 <= k < n && kept@[k].kind == ItemKind::Submenu
                                        && #[trigger] a[ei] == (
                                    kept@[k].id@,
                                    spec_token_at(kept@, base, k) as u64,
                                    kept@[k].kind,
                                    );
                                assert(kept@[k].id@ != kept@[i as int].id@);
                            } else {
                                lemma_reg_leaf_entry_source(kept@, base, i as int, ei - a.len());
                                assert(reg0[ei] == b[ei - a.len()]);
                                let k = choose|k: int|
                                    0 <= k < i && kept@[k].kind != ItemKind::Submenu && kept@[k].kind
                                        != ItemKind::Separator && #[trigger] b[ei - a.len()] == (
                                    kept@[k].id@,
                                    spec_token_at(kept@, base, k) as u64,
                                    kept@[k].kind,
                                    );
                                assert(kept@[k].id@ != kept@[i as int].id@);
                            }
                        }
                        lemma_reg_upsert_missing(reg0, (it.id@, tok, it.kind));
                        assert(self.registry@ =~= reg_sub(kept@, base, n as int) + reg_leaf(
                            kept@,
                            base,
                            i + 1,
                        ));
                    }
                } else {
                    proof {
                        assert(reg_leaf(kept@, base, i + 1) =~= reg_leaf(kept@, base, i as int));
                    }
                }
                self.next_token = self.next_token + 1;
            } else {
                proof {
                    assert(reg_leaf(kept@, base, i + 1) =~= reg_leaf(kept@, base, i as int));
                }
            }
            i = i + 1;
        }

        // Assembly pass: walk the arranged descriptors and build the node
        // list in sibling order, resolving each label in the current locale.
        proof {
            assert(kept@.take(n as int) =~= kept@);
            lemma_counts(kept@);
            assert forall|k: int| 0 <= k < n implies #[trigger] tokens@[k] as int == spec_token_at(
                kept@,
                base,
                k,
            ) by {
                assert(kept@[k].kind == ItemKind::Submenu || k < n);
            }
        }
        let mut i: usize = 0;
        while i < n
            invariant
                n == kept@.len(),
                i <= n,
                tokens@.len() == n,
                self.i18n == old(self).i18n,
                self.schema@ == items@,
                self.callback_registered == old(self).callback_registered,
                self.notified@ == old(self).notified@,
                self.requests@ == old(self).requests@,
                self.config_path == old(self).config_path,
                self.next_token == base + n,
                self.registry@ == reg_sub(kept@, base, n as int) + reg_leaf(
                    kept@,
                    base,
                    n as int,
                ),
                forall|k: int|
                    0 <= k < n ==> #[trigger] tokens@[k] as int == spec_token_at(kept@, base, k),
                self.tree.nodes@.len() == i,
                forall|k: int|
                    0 <= k < i ==> node_matches(
                        #[trigger] self.tree.nodes@[k],
                        kept@[k],
                        old(self).i18n.locale,
                    ),
                forall|k: int| 0 <= k < i ==> (#[trigger] self.tree.nodes@[k]).token == tokens@[k],
            decreases n - i,
        {
            let it = kept[i];
            let label = match it.label_key {
                Some(key) => String::from_str(translation(self.i18n.get_locale(), key)),
                None => String::new(),
            };
            let parent = match it.parent {
                Some(p) => Some(String::from_str(p)),
                None => None,
            };
            let node = LiveNode {
                id: String::from_str(it.id),
                kind: it.kind,
                label,
                parent,
                token: tokens[i],
                checked: it.default_checked,
                enabled: true,
            };
            self.tree.nodes.push(node);
            i = i + 1;
        }
    }
}


/// The first descriptor carrying an identifier.
pub open spec fn spec_find_item(s: Seq<MenuItemInfo>, id: Seq<char>) -> Option<MenuItemInfo>
    decreases s.len(),
{
    if s.len() == 0 {
        None
    } else if s[0].id@ == id {
        Some(s[0])
    } else {
        spec_find_item(s.drop_first(), id)
    }
}

fn find_item(s: &Vec<MenuItemInfo>, id: &str) -> (r: Option<MenuItemInfo>)
    ensures
        r == spec_find_item(s@, id@),
{
    let n = s.len();
    let mut i: usize = 0;
    proof {
        assert(s@.skip(0) =~= s@);
    }
    while i < n
        invariant
            n == s@.len(),
            i <= n,
            spec_find_item(s@, id@) == spec_find_item(s@.skip(i as int), id@),
        decreases n - i,
    {
        proof {
            assert(s@.skip(i as int)[0] == s@[i as int]);
            assert(s@.skip(i as int).drop_first() =~= s@.skip(i + 1));
        }
        if str_eq(s[i].id, id) {
            return Some(s[i]);
        }
        i = i + 1;
    }
    proof {
        assert(s@.skip(n as int).len() == 0);
    }
    None
}

/// The display language after running a local handler.
pub open spec fn locale_after(locale: Locale, h: Option<Handler>) -> Locale {
    match h {
        Some(Handler::SetLanguage(l)) => l,
        _ => locale,
    }
}

/// The outward UI requests a local handler queues.
pub open spec fn requests_of(h: Option<Handler>) -> Seq<UiRequest> {
    match h {
        Some(Handler::SetLanguage(l)) => seq![UiRequest::SaveLocale(l)],
        Some(Handler::Confirm(t, m)) => seq![UiRequest::Confirm(t, m)],
        _ => Seq::<UiRequest>::empty(),
    }
}

/// Whether activating an item of this kind is forwarded to the host.
pub open spec fn forwards_to_host(kind: ItemKind) -> bool {
    kind == ItemKind::Action || kind == ItemKind::Check
}

impl TrayState {
    /// Run a descriptor's local handler: a language change takes effect on
    /// the localizer at once and its persistence is queued; a confirmation
    /// is queued for the embedder to show.
    fn apply_handler(&mut self, h: Option<Handler>)
        ensures
            final(self).i18n.locale == locale_after(old(self).i18n.locale, h),
            final(self).requests@ == old(self).requests@ + requests_of(h),
            final(self).schema@ == old(self).schema@,
            final(self).tree.nodes@ == old(self).tree.nodes@,
            final(self).registry@ == old(self).registry@,
            final(self).next_token == old(self).next_token,
            final(self).callback_registered == old(self).callback_registered,
            final(self).notified@ == old(self).notified@,
            final(self).config_path == old(self).config_path,
    {
        match h {
            Some(Handler::SetLanguage(l)) => {
                self.i18n.set_locale(l);
                self.requests.push(UiRequest::SaveLocale(l));
                proof {
                    assert(self.requests@ =~= old(self).requests@ + requests_of(h));
                }
            },
            Some(Handler::Confirm(t, m)) => {
                self.requests.push(UiRequest::Confirm(t, m));
                proof {
                    assert(self.requests@ =~= old(self).requests@ + requests_of(h));
                }
            },
            _ => {
                proof {
                    assert(old(self).requests@ + requests_of(h) =~= old(self).requests@);
                }
            },
        }
    }

    /// Dispatch an inbound event token: resolve it through the correlation
    /// registry; a miss is the normal `Unresolved` outcome and changes
    /// nothing. On a hit, run the item's local handler, forward the logical
    /// identifier to the host for actions and checkboxes, and report whether
    /// the caller must now rebuild.
    pub fn handle_event(&mut self, token: u64) -> (r: Outcome)
        ensures
            ({
                let resolved = spec_resolve(old(self).registry@, token);
                match resolved {
                    None => r == Outcome::Unresolved && *final(self) == *old(self),
                    Some(id) => match spec_find_item(old(self).schema@, id) {
                        None => r == Outcome::Unresolved && *final(self) == *old(self),
                        Some(d) => {
                            &&& r == (Outcome::Handled { rebuild: d.rebuild_menu })
                            &&& final(self).i18n.locale == locale_after(
                                old(self).i18n.locale,
                                d.handler,
                            )
                            &&& final(self).requests@ == old(self).requests@ + requests_of(
                                d.handler,
                            )
                            &&& notified_view(*final(self)) == notified_view(*old(self)) + (
                            if forwards_to_host(d.kind) && old(self).callback_registered {
                                seq![id]
                            } else {
                                Seq::<Seq<char>>::empty()
                            })
                            &&& final(self).schema@ == old(self).schema@
                            &&& final(self).tree.nodes@ == old(self).tree.nodes@
                            &&& final(self).registry@ == old(self).registry@
                            &&& final(self).next_token == old(self).next_token
                            &&& final(self).callback_registered == old(self).callback_registered
                            &&& final(self).config_path == old(self).config_path
                        },
                    },
                }
            }),
    {
        let resolved = self.registry.identify_item_id(token);
        match resolved {
            None => Outcome::Unresolved,
            Some(id) => {
                match find_item(&self.schema, id.as_str()) {
                    None => Outcome::Unresolved,
                    Some(d) => {
                        self.apply_handler(d.handler);
                        if (d.kind == ItemKind::Action || d.kind == ItemKind::Check)
                            && self.callback_registered {
                            self.notified.push(id);
                            proof {
                                assert(notified_view(*self) =~= notified_view(*old(self)) + seq![
                                    spec_resolve(old(self).registry@, token).unwrap(),
                                ]);
                            }
                        } else {
                            proof {
                                assert(notified_view(*self) =~= notified_view(*old(self))
                                    + Seq::<Seq<char>>::empty());
                            }
                        }
                        Outcome::Handled { rebuild: d.rebuild_menu }
                    },
                }
            },
        }
    }

    /// Dispatch an item addressed by logical identifier: run its local
    /// handler when one exists, and always forward actions and checkboxes
    /// to the host, handler or not. `(true, rebuild)` reports a dispatched
    /// item; `(false, false)` reports an identifier with nothing to
    /// dispatch, and changes nothing.
    pub fn execute_handler(&mut self, item_id: &str) -> (r: (bool, bool))
        ensures
            ({
                match spec_find_item(old(self).schema@, item_id@) {
                    None => r == (false, false) && *final(self) == *old(self),
                    Some(d) => {
                        if d.handler is None && !forwards_to_host(d.kind) {
                            r == (false, false) && *final(self) == *old(self)
                        } else {
                            &&& r == (true, d.rebuild_menu)
                            &&& final(self).i18n.locale == locale_after(
                                old(self).i18n.locale,
                                d.handler,
                            )
                            &&& final(self).requests@ == old(self).requests@ + requests_of(
                                d.handler,
                            )
                            &&& notified_view(*final(self)) == notified_view(*old(self)) + (
                            if forwards_to_host(d.kind) && old(self).callback_registered {
                                seq![item_id@]
                            } else {
                                Seq::<Seq<char>>::empty()
                            })
                            &&& final(self).schema@ == old(self).schema@
                            &&& final(self).tree.nodes@ == old(self).tree.nodes@
                            &&& final(self).registry@ == old(self).registry@
                            &&& final(self).next_token == old(self).next_token
                            &&& final(self).callback_registered == old(self).callback_registered
                            &&& final(self).config_path == old(self).config_path
                        }
                    },
                }
            }),
    {
        match find_item(&self.schema, item_id) {
            None => (false, false),
            Some(d) => {
                let fwd = d.kind == ItemKind::Action || d.kind == ItemKind::Check;
                if d.handler.is_none() && !fwd {
                    (false, false)
                } else {
                    self.apply_handler(d.handler);
                    if fwd && self.callback_registered {
                        self.notified.push(String::from_str(item_id));
                        proof {
                            assert(notified_view(*self) =~= notified_view(*old(self)) + seq![
                                item_id@,
                            ]);
                        }
                    } else {
                        proof {
                            assert(notified_view(*self) =~= notified_view(*old(self))
                                + Seq::<Seq<char>>::empty());
                        }
                    }
                    (true, d.rebuild_menu)
                }
            },
        }
    }
}


/// The node identifiers are collision-free.
pub open spec fn tree_wf(nodes: Seq<LiveNode>) -> bool {
    forall|i: int, j: int| 0 <= i < j < nodes.len() ==> nodes[i].id@ != nodes[j].id@
}

/// The predicate selecting checkbox nodes, whose state survives rebuilds.
pub open spec fn check_pred() -> spec_fn(LiveNode) -> bool {
    |n: LiveNode| n.kind == ItemKind::Check
}

/// Snapshot contents: (identifier, checked, enabled) triples.
pub type SnapEntries = Seq<(Seq<char>, bool, bool)>;

/// The state snapshot a rebuild carries across teardown: one entry per
/// checkbox node of the old tree, in tree order.
pub open spec fn spec_snapshot(nodes: Seq<LiveNode>) -> SnapEntries {
    nodes.filter(check_pred()).map_values(|n: LiveNode| (n.id@, n.checked, n.enabled))
}

/// The first snapshot entry carrying an identifier.
pub open spec fn find_snap(entries: SnapEntries, id: Seq<char>) -> Option<(Seq<char>, bool, bool)>
    decreases entries.len(),
{
    if entries.len() == 0 {
        None
    } else if entries[0].0 == id {
        Some(entries[0])
    } else {
        find_snap(entries.drop_first(), id)
    }
}

/// One restore step: apply a saved (identifier, checked, enabled) entry.
pub open spec fn apply_entry(nodes: Seq<LiveNode>, e: (Seq<char>, bool, bool)) -> Seq<LiveNode> {
    spec_set_enabled(spec_set_checked(nodes, e.0, e.1), e.0, e.2)
}

/// The tree after restoring every snapshot entry in order.
pub open spec fn spec_restore(nodes: Seq<LiveNode>, entries: SnapEntries) -> Seq<LiveNode>
    decreases entries.len(),
{
    if entries.len() == 0 {
        nodes
    } else {
        spec_restore(apply_entry(nodes, entries[0]), entries.drop_first())
    }
}

/// A snapshot of the externally meaningful per-item state.
pub struct SnapEntry {
    /// Logical identifier of the checkbox item.
    pub id: String,
    /// Saved checkbox state.
    pub checked: bool,
    /// Saved enabled state.
    pub enabled: bool,
}

/// Saved per-item state carried across a rebuild, then discarded.
pub struct StateSnapshot {
    /// The saved entries, in tree order.
    pub entries: Vec<SnapEntry>,
}

impl View for StateSnapshot {
    type V = SnapEntries;

    closed spec fn view(&self) -> SnapEntries {
        self.entries@.map_values(|e: SnapEntry| (e.id@, e.checked, e.enabled))
    }
}

proof fn lemma_find_snap_none(entries: SnapEntries, id: Seq<char>)
    requires
        forall|j: int| 0 <= j < entries.len() ==> entries[j].0 != id,
    ensures
        find_snap(entries, id) is None,
    decreases entries.len(),
{
    if entries.len() > 0 {
        let d = entries.drop_first();
        assert(forall|j: int| 0 <= j < d.len() ==> d[j] == entries[j + 1]);
        lemma_find_snap_none(d, id);
    }
}

proof fn lemma_find_snap_at(entries: SnapEntries, k: int)
    requires
        0 <= k < entries.len(),
        forall|j: int| 0 <= j < k ==> entries[j].0 != entries[k].0,
    ensures
        find_snap(entries, entries[k].0) == Some(entries[k]),
    decreases entries.len(),
{
    if k > 0 {
        let d = entries.drop_first();
        assert(forall|j: int| 0 <= j < d.len() ==> d[j] == entries[j + 1]);
        lemma_find_snap_at(d, k - 1);
    }
}

/// Every element of a filtered node selection comes from the sequence.
proof fn lemma_node_filter_subset(s: Seq<LiveNode>, pred: spec_fn(LiveNode) -> bool)
    ensures
        forall|i: int|
            0 <= i < s.filter(pred).len() ==> s.contains(#[trigger] s.filter(pred)[i]),
    decreases s.len(),
{
    reveal(Seq::filter);
    if s.len() > 0 {
        let front = s.drop_last();
        lemma_node_filter_subset(front, pred);
        assert(forall|j: int| 0 <= j < front.len() ==> front[j] == s[j]);
        let f = s.filter(pred);
        assert forall|i: int| 0 <= i < f.len() implies s.contains(f[i]) by {
            if pred(s.last()) && i == f.len() - 1 {
                assert(f[i] == s.last());
                assert(s[s.len() - 1] == s.last());
            } else {
                assert(f[i] == front.filter(pred)[i]);
                assert(front.contains(f[i]));
                let m = choose|m: int| 0 <= m < front.len() && front[m] == f[i];
                assert(s[m] == f[i]);
            }
        }
    }
}

/// In a tree with collision-free identifiers the snapshot's identifiers are
/// collision-free too, and a snapshot entry exists for an identifier exactly
/// when the tree has a checkbox node for it, carrying that node's state.
proof fn lemma_snapshot_lookup(nodes: Seq<LiveNode>, id: Seq<char>)
    requires
        tree_wf(nodes),
    ensures
        match find_snap(spec_snapshot(nodes), id) {
            Some(e) => e.0 == id && spec_get_checked(nodes, id) == Some(e.1) && spec_get_enabled(
                nodes,
                id,
            ) == Some(e.2),
            None => spec_get_checked(nodes, id) is None,
        },
{
    let f = nodes.filter(check_pred());
    let snap = spec_snapshot(nodes);
    lemma_node_filter_subset(nodes, check_pred());
    lemma_find_node_props(nodes, id);
    assert forall|m1: int, m2: int| 0 <= m1 < m2 < f.len() implies f[m1].id@ != f[m2].id@ by {
        assert(nodes.contains(f[m1]));
        assert(nodes.contains(f[m2]));
        let k1 = choose|k1: int| 0 <= k1 < nodes.len() && nodes[k1] == f[m1];
        let k2 = choose|k2: int| 0 <= k2 < nodes.len() && nodes[k2] == f[m2];
        if f[m1].id@ == f[m2].id@ && k1 == k2 {
            lemma_filter_two_distinct(nodes, check_pred(), m1, m2);
        }
    }
    match find_node_idx(nodes, id) {
        Some(k) => {
            if nodes[k].kind == ItemKind::Check {
                nodes.lemma_filter_contains(check_pred(), k);
                assert(f.contains(nodes[k]));
                let m = choose|m: int| 0 <= m < f.len() && f[m] == nodes[k];
                assert(snap[m] == (nodes[k].id@, nodes[k].checked, nodes[k].enabled));
                assert forall|j: int| 0 <= j < m implies snap[j].0 != id by {
                    assert(f[j].id@ != f[m].id@);
                }
                lemma_find_snap_at(snap, m);
            } else {
                assert forall|j: int| 0 <= j < snap.len() implies snap[j].0 != id by {
                    assert(nodes.contains(f[j]));
                    let k2 = choose|k2: int| 0 <= k2 < nodes.len() && nodes[k2] == f[j];
                    assert(f[j].kind == ItemKind::Check) by {
                        nodes.lemma_filter_pred(check_pred(), j);
                    }
                    if f[j].id@ == id {
                        assert(k2 != k);
                        assert(nodes[k2].id@ != nodes[k].id@);
                        assert(nodes[k].id@ == id);
                    }
                }
                lemma_find_snap_none(snap, id);
            }
        },
        None => {
            assert forall|j: int| 0 <= j < snap.len() implies snap[j].0 != id by {
                assert(nodes.contains(f[j]));
                let k2 = choose|k2: int| 0 <= k2 < nodes.len() && nodes[k2] == f[j];
                assert(nodes[k2].id@ != id);
            }
            lemma_find_snap_none(snap, id);
        },
    }
}

/// Two positions of a filtered selection with equal elements come from two
/// distinct positions of the sequence.
proof fn lemma_filter_two_distinct(
    s: Seq<LiveNode>,
    pred: spec_fn(LiveNode) -> bool,
    m1: int,
    m2: int,
)
    requires
        0 <= m1 < m2 < s.filter(pred).len(),
        s.filter(pred)[m1] == s.filter(pred)[m2],
    ensures
        exists|k1: int, k2: int|
            0 <= k1 < k2 < s.len() && s[k1] == s.filter(pred)[m1] && s[k2] == s.filter(pred)[m2],
    decreases s.len(),
{
    reveal(Seq::filter);
    let f = s.filter(pred);
    let front = s.drop_last();
    assert(forall|j: int| 0 <= j < front.len() ==> front[j] == s[j]);
    if pred(s.last()) && m2 == f.len() - 1 {
        lemma_node_filter_subset(front, pred);
        assert(front.filter(pred)[m1] == f[m1]);
        assert(front.contains(f[m1]));
        let k1 = choose|k1: int| 0 <= k1 < front.len() && front[k1] == f[m1];
        assert(s[k1] == f[m1]);
        assert(s[s.len() - 1] == f[m2]);
    } else {
        lemma_filter_two_distinct(front, pred, m1, m2);
        let (k1, k2) = choose|k1: int, k2: int|
            0 <= k1 < k2 < front.len() && front[k1] == front.filter(pred)[m1] && front[k2]
                == front.filter(pred)[m2];
        assert(s[k1] == f[m1] && s[k2] == f[m2]);
    }
}


/// A live node keeps a descriptor's structure: identifier, kind, label and
/// parent linkage; only `checked` and `enabled` may differ.
pub open spec fn node_structure_matches(n: LiveNode, d: MenuItemInfo, locale: Locale) -> bool {
    &&& n.id@ == d.id@
    &&& n.kind == d.kind
    &&& n.label@ == (match d.label_key {
        Some(k) => spec_translation(locale, k),
        None => Seq::<char>::empty(),
    })
    &&& (match (d.parent, n.parent) {
        (None, None) => true,
        (Some(p), Some(q)) => q@ == p@,
        _ => false,
    })
}

proof fn lemma_find_same_ids(a: Seq<LiveNode>, b: Seq<LiveNode>, id: Seq<char>)
    requires
        a.len() == b.len(),
        forall|k: int| 0 <= k < a.len() ==> a[k].id@ == b[k].id@,
    ensures
        find_node_idx(a, id) == find_node_idx(b, id),
    decreases a.len(),
{
    if a.len() > 0 {
        let da = a.drop_first();
        let db = b.drop_first();
        assert(forall|j: int| 0 <= j < da.len() ==> da[j] == a[j + 1]);
        assert(forall|j: int| 0 <= j < db.len() ==> db[j] == b[j + 1]);
        lemma_find_same_ids(da, db, id);
    }
}

/// Applying one snapshot entry changes at most the state of the one node
/// carrying its identifier, and never a node's structure or token.
proof fn lemma_apply_entry_props(nodes: Seq<LiveNode>, e: (Seq<char>, bool, bool))
    ensures
        apply_entry(nodes, e).len() == nodes.len(),
        forall|k: int|
            0 <= k < nodes.len() ==> {
                let r = #[trigger] apply_entry(nodes, e)[k];
                r.id == nodes[k].id && r.kind == nodes[k].kind && r.label == nodes[k].label
                    && r.parent == nodes[k].parent && r.token == nodes[k].token
            },
        forall|k: int|
            0 <= k < nodes.len() && nodes[k].id@ != e.0 ==> #[trigger] apply_entry(nodes, e)[k]
                == nodes[k],
        ({
            match find_node_idx(nodes, e.0) {
                Some(j) => {
                    &&& apply_entry(nodes, e)[j].checked == (if nodes[j].kind == ItemKind::Check {
                        e.1
                    } else {
                        nodes[j].checked
                    })
                    &&& apply_entry(nodes, e)[j].enabled == (if nodes[j].kind
                        != ItemKind::Separator {
                        e.2
                    } else {
                        nodes[j].enabled
                    })
                },
                None => apply_entry(nodes, e) == nodes,
            }
        }),
{
    let c1 = spec_set_checked(nodes, e.0, e.1);
    lemma_find_node_props(nodes, e.0);
    assert(c1.len() == nodes.len());
    assert(forall|k: int| 0 <= k < nodes.len() ==> c1[k].id@ == nodes[k].id@);
    lemma_find_same_ids(nodes, c1, e.0);
}

/// Restoring never changes a node's structure or token.
proof fn lemma_restore_structure(nodes: Seq<LiveNode>, entries: SnapEntries)
    ensures
        spec_restore(nodes, entries).len() == nodes.len(),
        forall|k: int|
            0 <= k < nodes.len() ==> {
                let r = #[trigger] spec_restore(nodes, entries)[k];
                r.id == nodes[k].id && r.kind == nodes[k].kind && r.label == nodes[k].label
                    && r.parent == nodes[k].parent && r.token == nodes[k].token
            },
    decreases entries.len(),
{
    if entries.len() > 0 {
        lemma_apply_entry_props(nodes, entries[0]);
        lemma_restore_structure(apply_entry(nodes, entries[0]), entries.drop_first());
    }
}

/// Restoring a snapshot whose identifiers are collision-free into a tree
/// whose identifiers are collision-free gives every node the saved state of
/// its identifier's entry, if one exists, and leaves it alone otherwise.
proof fn lemma_restore_state(nodes: Seq<LiveNode>, entries: SnapEntries)
    requires
        tree_wf(nodes),
        forall|e1: int, e2: int| 0 <= e1 < e2 < entries.len() ==> entries[e1].0 != entries[e2].0,
    ensures
        forall|k: int|
            0 <= k < nodes.len() ==> {
                let r = #[trigger] spec_restore(nodes, entries)[k];
                match find_snap(entries, nodes[k].id@) {
                    Some(e) => r.checked == (if nodes[k].kind == ItemKind::Check {
                        e.1
                    } else {
                        nodes[k].checked
                    }) && r.enabled == (if nodes[k].kind != ItemKind::Separator {
                        e.2
                    } else {
                        nodes[k].enabled
                    }),
                    None => r.checked == nodes[k].checked && r.enabled == nodes[k].enabled,
                }
            },
    decreases entries.len(),
{
    if entries.len() > 0 {
        let e0 = entries[0];
        let b1 = apply_entry(nodes, e0);
        let rest = entries.drop_first();
        assert(forall|j: int| 0 <= j < rest.len() ==> rest[j] == entries[j + 1]);
        lemma_apply_entry_props(nodes, e0);
        assert(tree_wf(b1)) by {
            assert(forall|k: int| 0 <= k < nodes.len() ==> b1[k].id@ == nodes[k].id@);
        }
        lemma_restore_state(b1, rest);
        lemma_restore_structure(b1, rest);
        assert forall|k: int| 0 <= k < nodes.len() implies {
            let r = #[trigger] spec_restore(nodes, entries)[k];
            match find_snap(entries, nodes[k].id@) {
                Some(e) => r.checked == (if nodes[k].kind == ItemKind::Check {
                    e.1
                } else {
                    nodes[k].checked
                }) && r.enabled == (if nodes[k].kind != ItemKind::Separator {
                    e.2
                } else {
                    nodes[k].enabled
                }),
                None => r.checked == nodes[k].checked && r.enabled == nodes[k].enabled,
            }
        } by {
            let r = spec_restore(nodes, entries)[k];
            assert(spec_restore(nodes, entries) == spec_restore(b1, rest));
            assert(b1[k].id@ == nodes[k].id@ && b1[k].kind == nodes[k].kind);
            if nodes[k].id@ == e0.0 {
                assert(forall|j: int| 0 <= j < k ==> nodes[j].id@ != nodes[k].id@);
                lemma_find_node_at(nodes, e0.0, k);
                assert(forall|j: int| 0 <= j < rest.len() ==> rest[j].0 != e0.0);
                lemma_find_snap_none(rest, nodes[k].id@);
                assert(find_snap(entries, nodes[k].id@) == Some(e0));
            } else {
                lemma_find_node_props(nodes, e0.0);
                match find_node_idx(nodes, e0.0) {
                    Some(j) => {
                        assert(nodes[j].id@ == e0.0);
                        assert(j != k);
                        assert(b1[k] == nodes[k]);
                    },
                    None => {
                        assert(b1[k] == nodes[k]);
                    },
                }
                assert(find_snap(entries, nodes[k].id@) == find_snap(rest, nodes[k].id@));
            }
        }
    }
}

/// Snapshot identifiers are collision-free when the tree's are.
proof fn lemma_snapshot_distinct(nodes: Seq<LiveNode>)
    requires
        tree_wf(nodes),
    ensures
        forall|e1: int, e2: int|
            0 <= e1 < e2 < spec_snapshot(nodes).len() ==> spec_snapshot(nodes)[e1].0
                != spec_snapshot(nodes)[e2].0,
{
    let f = nodes.filter(check_pred());
    lemma_node_filter_subset(nodes, check_pred());
    assert forall|e1: int, e2: int|
        0 <= e1 < e2 < spec_snapshot(nodes).len() implies spec_snapshot(nodes)[e1].0
        != spec_snapshot(nodes)[e2].0 by {
        assert(spec_snapshot(nodes)[e1].0 == f[e1].id@);
        assert(spec_snapshot(nodes)[e2].0 == f[e2].id@);
        assert(nodes.contains(f[e1]));
        assert(nodes.contains(f[e2]));
        let k1 = choose|k1: int| 0 <= k1 < nodes.len() && nodes[k1] == f[e1];
        let k2 = choose|k2: int| 0 <= k2 < nodes.len() && nodes[k2] == f[e2];
        if f[e1].id@ == f[e2].id@ {
            if k1 == k2 {
                lemma_filter_two_distinct(nodes, check_pred(), e1, e2);
            }
        }
    }
}

/// How the state of one rebuilt node relates to the schema defaults and to
/// the tree that stood before the rebuild: a checkbox that existed before
/// keeps its saved state, everything else starts from its defaults.
pub open spec fn state_after_rebuild(
    n: LiveNode,
    d: MenuItemInfo,
    old_nodes: Seq<LiveNode>,
) -> bool {
    &&& (d.kind == ItemKind::Check && spec_get_checked(old_nodes, d.id@) is Some ==> Some(
        n.checked,
    ) == spec_get_checked(old_nodes, d.id@))
    &&& (d.kind == ItemKind::Check && spec_get_checked(old_nodes, d.id@) is None ==> n.checked
        == d.default_checked)
    &&& (d.kind != ItemKind::Check ==> n.checked == d.default_checked)
    &&& (d.kind != ItemKind::Separator && spec_get_checked(old_nodes, d.id@) is Some ==> Some(
        n.enabled,
    ) == spec_get_enabled(old_nodes, d.id@))
    &&& (d.kind != ItemKind::Separator && spec_get_checked(old_nodes, d.id@) is None ==> n.enabled
        == true)
    &&& (d.kind == ItemKind::Separator ==> n.enabled == true)
}

impl TrayState {
    /// Capture the externally meaningful per-item state: every checkbox
    /// node's identifier, checked and enabled state, in tree order.
    pub fn snapshot_state(&self) -> (snap: StateSnapshot)
        ensures
            snap@ == spec_snapshot(self.tree.nodes@),
    {
        let n = self.tree.nodes.len();
        let mut entries: Vec<SnapEntry> = Vec::new();
        let mut i: usize = 0;
        proof {
            reveal(Seq::filter);
            assert(self.tree.nodes@.take(0) =~= Seq::<LiveNode>::empty());
            assert(entries@.map_values(|e: SnapEntry| (e.id@, e.checked, e.enabled)) =~= spec_snapshot(
                self.tree.nodes@.take(0),
            ));
        }
        while i < n
            invariant
                n == self.tree.nodes@.len(),
                i <= n,
                entries@.map_values(|e: SnapEntry| (e.id@, e.checked, e.enabled))
                    == spec_snapshot(self.tree.nodes@.take(i as int)),
            decreases n - i,
        {
            proof {
                reveal(Seq::filter);
                let t1 = self.tree.nodes@.take(i + 1);
                assert(t1.drop_last() =~= self.tree.nodes@.take(i as int));
                assert(t1.last() == self.tree.nodes@[i as int]);
            }
            let node = &self.tree.nodes[i];
            if node.kind == ItemKind::Check {
                let ghost pre = entries@;
                let entry = SnapEntry {
                    id: node.id.clone(),
                    checked: node.checked,
                    enabled: node.enabled,
                };
                proof {
                    assert(entry.id@ == self.tree.nodes@[i as int].id@);
                }
                entries.push(entry);
                proof {
                    reveal(Seq::filter);
                    let nd = self.tree.nodes@[i as int];
                    let f = self.tree.nodes@.take(i as int).filter(check_pred());
                    assert(self.tree.nodes@.take(i + 1).filter(check_pred()) == f.push(nd));
                    assert(spec_snapshot(self.tree.nodes@.take(i + 1)) =~= spec_snapshot(
                        self.tree.nodes@.take(i as int),
                    ).push((nd.id@, nd.checked, nd.enabled)));
                    assert(entries@.map_values(|e: SnapEntry| (e.id@, e.checked, e.enabled))
                        =~= pre.map_values(|e: SnapEntry| (e.id@, e.checked, e.enabled)).push((
                        nd.id@,
                        nd.checked,
                        nd.enabled,
                    )));
                }
            } else {
                proof {
                    assert(spec_snapshot(self.tree.nodes@.take(i + 1)) =~= spec_snapshot(
                        self.tree.nodes@.take(i as int),
                    ));
                }
            }
            i = i + 1;
        }
        proof {
            assert(self.tree.nodes@.take(n as int) =~= self.tree.nodes@);
        }
        let snap = StateSnapshot { entries };
        snap
    }

    /// Apply a snapshot to the current tree: every saved entry whose
    /// identifier still exists gets its saved checked and enabled state,
    /// overriding the schema defaults; entries of vanished identifiers do
    /// nothing.
    pub fn restore_state(&mut self, snap: &StateSnapshot)
        ensures
            eq_but_tree(*old(self), *final(self)),
            final(self).tree.nodes@ == spec_restore(old(self).tree.nodes@, snap@),
    {
        let n = snap.entries.len();
        proof {
            assert(snap@.len() == snap.entries@.len());
            assert(snap@.skip(0) =~= snap@);
        }
        let mut i: usize = 0;
        while i < n
            invariant
                n == snap@.len(),
                n == snap.entries@.len(),
                i <= n,
                eq_but_tree(*old(self), *self),
                spec_restore(old(self).tree.nodes@, snap@) == spec_restore(
                    self.tree.nodes@,
                    snap@.skip(i as int),
                ),
            decreases n - i,
        {
            proof {
                assert(snap@.skip(i as int)[0] == snap@[i as int]);
                assert(snap@.skip(i as int).drop_first() =~= snap@.skip(i + 1));
                assert(snap@[i as int] == (
                    snap.entries@[i as int].id@,
                    snap.entries@[i as int].checked,
                    snap.entries@[i as int].enabled,
                ));
            }
            let eid = snap.entries[i].id.clone();
            let ch = snap.entries[i].checked;
            let en = snap.entries[i].enabled;
            self.set_check_state_by_id(eid.as_str(), ch);
            self.set_item_enabled_by_id(eid.as_str(), en);
            i = i + 1;
        }
        proof {
            assert(snap@.skip(n as int).len() == 0);
        }
    }

    /// The full rebuild protocol run on a language change: snapshot the
    /// per-item state, tear the tree and registry down and compile the
    /// stored schema afresh in the current locale, then restore the
    /// snapshot. Structure and labels come from the schema and the new
    /// locale; checkbox state survives the rebuild.
    #[verifier::rlimit(100)]
    pub fn update_menu_texts(&mut self)
        requires
            old(self).next_token + old(self).schema@.len() <= u64::MAX,
        ensures
            ({
                let c = spec_compiled(old(self).schema@);
                &&& final(self).i18n == old(self).i18n
                &&& final(self).schema@ == old(self).schema@
                &&& final(self).callback_registered == old(self).callback_registered
                &&& final(self).notified@ == old(self).notified@
                &&& final(self).requests@ == old(self).requests@
                &&& final(self).config_path == old(self).config_path
                &&& final(self).next_token == old(self).next_token + c.len()
                &&& final(self).registry@ == spec_registry(c, old(self).next_token as int)
                &&& final(self).tree.nodes@.len() == c.len()
                &&& forall|k: int|
                    0 <= k < c.len() ==> node_structure_matches(
                        #[trigger] final(self).tree.nodes@[k],
                        c[k],
                        old(self).i18n.locale,
                    )
                &&& forall|k: int|
                    0 <= k < c.len() ==> (#[trigger] final(self).tree.nodes@[k]).token as int
                        == spec_token_at(c, old(self).next_token as int, k)
                &&& (tree_wf(old(self).tree.nodes@) ==> forall|k: int|
                    0 <= k < c.len() ==> state_after_rebuild(
                        #[trigger] final(self).tree.nodes@[k],
                        c[k],
                        old(self).tree.nodes@,
                    ))
            }),
    {
        let ghost old_nodes = old(self).tree.nodes@;
        let snap = self.snapshot_state();
        let items = copy_items(&self.schema);
        self.compile(&items);
        let ghost built = self.tree.nodes@;
        let ghost c = spec_compiled(old(self).schema@);
        proof {
            assert(tree_wf(built)) by {
                assert(forall|k: int| 0 <= k < c.len() ==> (#[trigger] built[k]).id@ == c[k].id@);
            }
        }
        self.restore_state(&snap);
        proof {
            lemma_restore_structure(built, snap@);
            if tree_wf(old_nodes) {
                lemma_snapshot_distinct(old_nodes);
                lemma_restore_state(built, snap@);
                assert forall|k: int| 0 <= k < c.len() implies state_after_rebuild(
                    #[trigger] self.tree.nodes@[k],
                    c[k],
                    old_nodes,
                ) by {
                    lemma_snapshot_lookup(old_nodes, c[k].id@);
                    assert(built[k].id@ == c[k].id@ && built[k].kind == c[k].kind);
                    assert(built[k].checked == c[k].default_checked && built[k].enabled == true);
                }
            }
        }
    }
}


proof fn lemma_reg_sub_entry_source(c: Seq<MenuItemInfo>, base: int, i: int, ei: int)
    requires
        0 <= i <= c.len(),
        0 <= ei < reg_sub(c, base, i).len(),
    ensures
        exists|k: int|
            0 <= k < i && c[k].kind == ItemKind::Submenu && #[trigger] reg_sub(c, base, i)[ei]
                == (c[k].id@, spec_token_at(c, base, k) as u64, c[k].kind),
    decreases i,
{
    let prev = reg_sub(c, base, i - 1);
    let cur = reg_sub(c, base, i);
    if ei < prev.len() {
        lemma_reg_sub_entry_source(c, base, i - 1, ei);
        let k = choose|k: int|
            0 <= k < i - 1 && c[k].kind == ItemKind::Submenu && #[trigger] prev[ei] == (
            c[k].id@,
            spec_token_at(c, base, k) as u64,
            c[k].kind,
            );
        assert(cur[ei] == (c[k].id@, spec_token_at(c, base, k) as u64, c[k].kind));
    } else {
        assert(c[i - 1].kind == ItemKind::Submenu);
        assert(cur[ei] == (c[i - 1].id@, spec_token_at(c, base, i - 1) as u64, c[i - 1].kind));
    }
}

proof fn lemma_reg_sub_entry_for(c: Seq<MenuItemInfo>, base: int, i: int, k: int)
    requires
        0 <= i <= c.len(),
        0 <= k < i,
        c[k].kind == ItemKind::Submenu,
    ensures
        exists|ei: int|
            0 <= ei < reg_sub(c, base, i).len() && #[trigger] reg_sub(c, base, i)[ei] == (
            c[k].id@,
            spec_token_at(c, base, k) as u64,
            c[k].kind,
            ),
    decreases i,
{
    let prev = reg_sub(c, base, i - 1);
    let cur = reg_sub(c, base, i);
    if k < i - 1 {
        lemma_reg_sub_entry_for(c, base, i - 1, k);
        let ei = choose|ei: int|
            0 <= ei < prev.len() && #[trigger] prev[ei] == (
            c[k].id@,
            spec_token_at(c, base, k) as u64,
            c[k].kind,
            );
        assert(cur[ei] == (c[k].id@, spec_token_at(c, base, k) as u64, c[k].kind));
    } else {
        assert(cur[cur.len() - 1] == (c[k].id@, spec_token_at(c, base, k) as u64, c[k].kind));
    }
}

proof fn lemma_token_at_bounds(c: Seq<MenuItemInfo>, base: int, k: int)
    requires
        0 <= base,
        base + c.len() <= u64::MAX,
        0 <= k < c.len(),
    ensures
        c[k].kind == ItemKind::Submenu ==> base <= spec_token_at(c, base, k) < base + count_sub(
            c,
        ),
        c[k].kind != ItemKind::Submenu ==> base + count_sub(c) <= spec_token_at(c, base, k) < base
            + c.len(),
        spec_token_at(c, base, k) as u64 as int == spec_token_at(c, base, k),
    decreases c.len(),
{
    reveal(spec_token_at);
    lemma_counts(c);
    lemma_counts(c.take(k));
    lemma_counts(c.skip(k + 1));
    lemma_count_rest_split(c, k + 1);
    lemma_count_sub_split(c, k + 1);
    assert(c.take(k + 1).drop_last() =~= c.take(k));
    assert(c.take(k + 1).last() == c[k]);
    lemma_counts(c.take(k + 1));
}

proof fn lemma_count_sub_split(s: Seq<MenuItemInfo>, j: int)
    requires
        0 <= j <= s.len(),
    ensures
        count_sub(s) == count_sub(s.take(j)) + count_sub(s.skip(j)),
    decreases s.len(),
{
    if j == s.len() {
        assert(s.take(j) =~= s);
        assert(s.skip(j).len() == 0);
    } else {
        let d = s.drop_last();
        lemma_count_sub_split(d, j);
        assert(d.take(j) =~= s.take(j));
        assert(s.skip(j).drop_last() =~= d.skip(j));
        assert(s.skip(j).last() == s.last());
    }
}

/// The token given to one compiled descriptor differs from every other's.
proof fn lemma_token_at_distinct(c: Seq<MenuItemInfo>, base: int, k1: int, k2: int)
    requires
        0 <= base,
        base + c.len() <= u64::MAX,
        0 <= k1 < k2 < c.len(),
    ensures
        spec_token_at(c, base, k1) != spec_token_at(c, base, k2),
{
    reveal(spec_token_at);
    lemma_token_at_bounds(c, base, k1);
    lemma_token_at_bounds(c, base, k2);
    lemma_counts(c.take(k1));
    lemma_counts(c.take(k2));
    assert(c.take(k1 + 1).drop_last() =~= c.take(k1));
    assert(c.take(k1 + 1).last() == c[k1]);
    if c[k1].kind == ItemKind::Submenu && c[k2].kind == ItemKind::Submenu {
        lemma_count_sub_split(c.take(k2), k1 + 1);
        assert(c.take(k2).take(k1 + 1) =~= c.take(k1 + 1));
        lemma_counts(c.take(k2).skip(k1 + 1));
        assert(count_sub(c.take(k1 + 1)) == count_sub(c.take(k1)) + 1);
    } else if c[k1].kind != ItemKind::Submenu && c[k2].kind != ItemKind::Submenu {
        lemma_count_rest_split(c.take(k2), k1 + 1);
        assert(c.take(k2).take(k1 + 1) =~= c.take(k1 + 1));
        lemma_counts(c.take(k2).skip(k1 + 1));
        assert(count_rest(c.take(k1 + 1)) == count_rest(c.take(k1)) + 1);
    }
}

proof fn lemma_reg_leaf_entry_source(c: Seq<MenuItemInfo>, base: int, i: int, ei: int)
    requires
        0 <= i <= c.len(),
        0 <= ei < reg_leaf(c, base, i).len(),
    ensures
        exists|k: int|
            0 <= k < i && c[k].kind != ItemKind::Submenu && c[k].kind != ItemKind::Separator
                && #[trigger] reg_leaf(c, base, i)[ei] == (
            c[k].id@,
            spec_token_at(c, base, k) as u64,
            c[k].kind,
            ),
    decreases i,
{
    let prev = reg_leaf(c, base, i - 1);
    let cur = reg_leaf(c, base, i);
    if ei < prev.len() {
        lemma_reg_leaf_entry_source(c, base, i - 1, ei);
        let k = choose|k: int|
            0 <= k < i - 1 && c[k].kind != ItemKind::Submenu && c[k].kind != ItemKind::Separator
                && #[trigger] prev[ei] == (c[k].id@, spec_token_at(c, base, k) as u64, c[k].kind);
        assert(cur[ei] == (c[k].id@, spec_token_at(c, base, k) as u64, c[k].kind));
    } else {
        assert(c[i - 1].kind != ItemKind::Submenu && c[i - 1].kind != ItemKind::Separator);
        assert(cur[ei] == (c[i - 1].id@, spec_token_at(c, base, i - 1) as u64, c[i - 1].kind));
    }
}

proof fn lemma_reg_leaf_entry_for(c: Seq<MenuItemInfo>, base: int, i: int, k: int)
    requires
        0 <= i <= c.len(),
        0 <= k < i,
        c[k].kind != ItemKind::Submenu,
        c[k].kind != ItemKind::Separator,
    ensures
        exists|ei: int|
            0 <= ei < reg_leaf(c, base, i).len() && #[trigger] reg_leaf(c, base, i)[ei] == (
            c[k].id@,
            spec_token_at(c, base, k) as u64,
            c[k].kind,
            ),
    decreases i,
{
    let prev = reg_leaf(c, base, i - 1);
    let cur = reg_leaf(c, base, i);
    if k < i - 1 {
        lemma_reg_leaf_entry_for(c, base, i - 1, k);
        let ei = choose|ei: int|
            0 <= ei < prev.len() && #[trigger] prev[ei] == (
            c[k].id@,
            spec_token_at(c, base, k) as u64,
            c[k].kind,
            );
        assert(cur[ei] == (c[k].id@, spec_token_at(c, base, k) as u64, c[k].kind));
    } else {
        assert(cur[cur.len() - 1] == (c[k].id@, spec_token_at(c, base, k) as u64, c[k].kind));
    }
}

/// The registry a build writes is collision-free: no two entries share an
/// identifier or a token.
pub proof fn lemma_spec_registry_wf(c: Seq<MenuItemInfo>, base: int)
    requires
        unique_ids(c),
        0 <= base,
        base + c.len() <= u64::MAX,
    ensures
        forall|e1: int, e2: int|
            0 <= e1 < e2 < spec_registry(c, base).len() ==> spec_registry(c, base)[e1].0
                != spec_registry(c, base)[e2].0 && spec_registry(c, base)[e1].1 != spec_registry(
                c,
                base,
            )[e2].1,
{
    let n = c.len() as int;
    let a = reg_sub(c, base, n);
    let b = reg_leaf(c, base, n);
    let r = spec_registry(c, base);
    assert forall|e1: int, e2: int| 0 <= e1 < e2 < r.len() implies r[e1].0 != r[e2].0 && r[e1].1
        != r[e2].1 by {
        let s1 = if e1 < a.len() {
            lemma_reg_sub_entry_source(c, base, n, e1);
            assert(r[e1] == a[e1]);
            choose|k: int|
                0 <= k < n && c[k].kind == ItemKind::Submenu && #[trigger] a[e1] == (
                c[k].id@,
                spec_token_at(c, base, k) as u64,
                c[k].kind,
                )
        } else {
            lemma_reg_leaf_entry_source(c, base, n, e1 - a.len());
            assert(r[e1] == b[e1 - a.len()]);
            choose|k: int|
                0 <= k < n && c[k].kind != ItemKind::Submenu && c[k].kind != ItemKind::Separator
                    && #[trigger] b[e1 - a.len()] == (
                c[k].id@,
                spec_token_at(c, base, k) as u64,
                c[k].kind,
                )
        };
        let s2 = if e2 < a.len() {
            lemma_reg_sub_entry_source(c, base, n, e2);
            assert(r[e2] == a[e2]);
            choose|k: int|
                0 <= k < n && c[k].kind == ItemKind::Submenu && #[trigger] a[e2] == (
                c[k].id@,
                spec_token_at(c, base, k) as u64,
                c[k].kind,
                )
        } else {
            lemma_reg_leaf_entry_source(c, base, n, e2 - a.len());
            assert(r[e2] == b[e2 - a.len()]);
            choose|k: int|
                0 <= k < n && c[k].kind != ItemKind::Submenu && c[k].kind != ItemKind::Separator
                    && #[trigger] b[e2 - a.len()] == (
                c[k].id@,
                spec_token_at(c, base, k) as u64,
                c[k].kind,
                )
        };
        assert(r[e1] == (c[s1].id@, spec_token_at(c, base, s1) as u64, c[s1].kind));
        assert(r[e2] == (c[s2].id@, spec_token_at(c, base, s2) as u64, c[s2].kind));
        if s1 != s2 {
            if s1 < s2 {
                lemma_token_at_distinct(c, base, s1, s2);
            } else {
                lemma_token_at_distinct(c, base, s2, s1);
            }
            lemma_token_at_bounds(c, base, s1);
            lemma_token_at_bounds(c, base, s2);
        } else {
            lemma_token_at_bounds(c, base, s1);
        }
        if e1 < a.len() && e2 < a.len() {
            lemma_reg_sub_tokens_distinct(c, base, n, e1, e2);
        } else if e1 >= a.len() && e2 >= a.len() {
            lemma_reg_leaf_tokens_distinct(c, base, n, e1 - a.len(), e2 - a.len());
        }
    }
}

proof fn lemma_reg_sub_tokens_distinct(c: Seq<MenuItemInfo>, base: int, i: int, e1: int, e2: int)
    requires
        0 <= base,
        base + c.len() <= u64::MAX,
        0 <= i <= c.len(),
        0 <= e1 < e2 < reg_sub(c, base, i).len(),
    ensures
        reg_sub(c, base, i)[e1].1 != reg_sub(c, base, i)[e2].1,
    decreases i,
{
    let prev = reg_sub(c, base, i - 1);
    let cur = reg_sub(c, base, i);
    if e2 < prev.len() {
        lemma_reg_sub_tokens_distinct(c, base, i - 1, e1, e2);
    } else {
        assert(cur[e2] == (c[i - 1].id@, spec_token_at(c, base, i - 1) as u64, c[i - 1].kind));
        lemma_reg_sub_entry_source(c, base, i - 1, e1);
        let k = choose|k: int|
            0 <= k < i - 1 && c[k].kind == ItemKind::Submenu && #[trigger] prev[e1] == (
            c[k].id@,
            spec_token_at(c, base, k) as u64,
            c[k].kind,
            );
        assert(cur[e1] == prev[e1]);
        lemma_token_at_distinct(c, base, k, i - 1);
        lemma_token_at_bounds(c, base, k);
        lemma_token_at_bounds(c, base, i - 1);
    }
}

proof fn lemma_reg_leaf_tokens_distinct(c: Seq<MenuItemInfo>, base: int, i: int, e1: int, e2: int)
    requires
        0 <= base,
        base + c.len() <= u64::MAX,
        0 <= i <= c.len(),
        0 <= e1 < e2 < reg_leaf(c, base, i).len(),
    ensures
        reg_leaf(c, base, i)[e1].1 != reg_leaf(c, base, i)[e2].1,
    decreases i,
{
    let prev = reg_leaf(c, base, i - 1);
    let cur = reg_leaf(c, base, i);
    if e2 < prev.len() {
        lemma_reg_leaf_tokens_distinct(c, base, i - 1, e1, e2);
    } else {
        assert(cur[e2] == (c[i - 1].id@, spec_token_at(c, base, i - 1) as u64, c[i - 1].kind));
        lemma_reg_leaf_entry_source(c, base, i - 1, e1);
        let k = choose|k: int|
            0 <= k < i - 1 && c[k].kind != ItemKind::Submenu && c[k].kind != ItemKind::Separator
                && #[trigger] prev[e1] == (c[k].id@, spec_token_at(c, base, k) as u64, c[k].kind);
        assert(cur[e1] == prev[e1]);
        lemma_token_at_distinct(c, base, k, i - 1);
        lemma_token_at_bounds(c, base, k);
        lemma_token_at_bounds(c, base, i - 1);
    }
}

/// Every non-separator compiled descriptor has a registry entry carrying
/// its identifier, token and kind; with `lemma_spec_registry_wf` no second
/// entry can carry the same identifier, so the entry is unique.
pub proof fn lemma_registry_covers(c: Seq<MenuItemInfo>, base: int, k: int)
    requires
        0 <= k < c.len(),
        c[k].kind != ItemKind::Separator,
    ensures
        exists|ei: int|
            0 <= ei < spec_registry(c, base).len() && #[trigger] spec_registry(c, base)[ei] == (
            c[k].id@,
            spec_token_at(c, base, k) as u64,
            c[k].kind,
            ),
{
    let n = c.len() as int;
    let a = reg_sub(c, base, n);
    let b = reg_leaf(c, base, n);
    let r = spec_registry(c, base);
    if c[k].kind == ItemKind::Submenu {
        lemma_reg_sub_entry_for(c, base, n, k);
        let ei = choose|ei: int|
            0 <= ei < a.len() && #[trigger] a[ei] == (
            c[k].id@,
            spec_token_at(c, base, k) as u64,
            c[k].kind,
            );
        assert(r[ei] == (c[k].id@, spec_token_at(c, base, k) as u64, c[k].kind));
    } else {
        lemma_reg_leaf_entry_for(c, base, n, k);
        let ei = choose|ei: int|
            0 <= ei < b.len() && #[trigger] b[ei] == (
            c[k].id@,
            spec_token_at(c, base, k) as u64,
            c[k].kind,
            );
        assert(r[a.len() + ei] == (c[k].id@, spec_token_at(c, base, k) as u64, c[k].kind));
    }
}

/// Every registry entry belongs to a non-separator compiled descriptor: a
/// build writes no stray entries.
pub proof fn lemma_registry_no_strays(c: Seq<MenuItemInfo>, base: int, ei: int)
    requires
        0 <= ei < spec_registry(c, base).len(),
    ensures
        exists|k: int|
            0 <= k < c.len() && c[k].kind != ItemKind::Separator && #[trigger] spec_registry(
                c,
                base,
            )[ei] == (c[k].id@, spec_token_at(c, base, k) as u64, c[k].kind),
{
    let n = c.len() as int;
    let a = reg_sub(c, base, n);
    let b = reg_leaf(c, base, n);
    let r = spec_registry(c, base);
    if ei < a.len() {
        lemma_reg_sub_entry_source(c, base, n, ei);
        assert(r[ei] == a[ei]);
        let k = choose|k: int|
            0 <= k < n && c[k].kind == ItemKind::Submenu && #[trigger] a[ei] == (
            c[k].id@,
            spec_token_at(c, base, k) as u64,
            c[k].kind,
            );
        assert(r[ei] == (c[k].id@, spec_token_at(c, base, k) as u64, c[k].kind));
    } else {
        lemma_reg_leaf_entry_source(c, base, n, ei - a.len());
        assert(r[ei] == b[ei - a.len()]);
        let k = choose|k: int|
            0 <= k < n && c[k].kind != ItemKind::Submenu && c[k].kind != ItemKind::Separator
                && #[trigger] b[ei - a.len()] == (
            c[k].id@,
            spec_token_at(c, base, k) as u64,
            c[k].kind,
            );
        assert(r[ei] == (c[k].id@, spec_token_at(c, base, k) as u64, c[k].kind));
    }
}

/// Anchoring is monotone in its fuel: a chain that anchors within `f1`
/// steps anchors within any larger bound too.
proof fn lemma_anchored_mono(s: Seq<MenuItemInfo>, d: MenuItemInfo, f1: nat, f2: nat)
    requires
        f1 <= f2,
        anchored_elem(s, d, f1),
    ensures
        anchored_elem(s, d, f2),
    decreases f1,
{
    match d.parent {
        None => {},
        Some(p) => {
            let j = choose|j: int|
                0 <= j < s.len() && (#[trigger] s[j]).kind == ItemKind::Submenu && s[j].id@ == p@
                    && anchored_elem(s, s[j], (f1 - 1) as nat);
            lemma_anchored_mono(s, s[j], (f1 - 1) as nat, (f2 - 1) as nat);
        },
    }
}

/// Every compiled descriptor with a parent finds that parent in the built
/// tree, as a submenu container.
pub proof fn lemma_parent_in_tree(items: Seq<MenuItemInfo>, k: int)
    requires
        0 <= k < spec_compiled(items).len(),
    ensures
        match spec_compiled(items)[k].parent {
            None => true,
            Some(p) => exists|j: int|
                0 <= j < spec_compiled(items).len() && (#[trigger] spec_compiled(items)[j]).kind
                    == ItemKind::Submenu && spec_compiled(items)[j].id@ == p@,
        },
{
    let s = spec_arranged(items);
    let c = spec_compiled(items);
    s.lemma_filter_pred(incl_pred(s), k);
    let d = c[k];
    assert(included_in(s, d));
    match d.parent {
        None => {},
        Some(p) => {
            let j = choose|j: int|
                0 <= j < s.len() && (#[trigger] s[j]).kind == ItemKind::Submenu && s[j].id@ == p@
                    && anchored_elem(s, s[j], (s.len() - 1) as nat);
            lemma_anchored_mono(s, s[j], (s.len() - 1) as nat, s.len() as nat);
            assert(included_in(s, s[j]));
            s.lemma_filter_contains(incl_pred(s), j);
            assert(c.contains(s[j]));
            let m = choose|m: int| 0 <= m < c.len() && c[m] == s[j];
            assert(c[m].kind == ItemKind::Submenu && c[m].id@ == p@);
        },
    }
}

/// A descriptor whose parent names no submenu container is excluded from
/// the built tree, while the rest of the schema still builds.
pub proof fn lemma_dangling_excluded(items: Seq<MenuItemInfo>, k: int)
    requires
        0 <= k < spec_arranged(items).len(),
        match spec_arranged(items)[k].parent {
            Some(p) => !(exists|j: int|
                0 <= j < spec_arranged(items).len() && (#[trigger] spec_arranged(items)[j]).kind
                    == ItemKind::Submenu && spec_arranged(items)[j].id@ == p@),
            None => false,
        },
    ensures
        !spec_compiled(items).contains(spec_arranged(items)[k]),
{
    let s = spec_arranged(items);
    let c = spec_compiled(items);
    let d = s[k];
    assert(!included_in(s, d));
    if c.contains(d) {
        let m = choose|m: int| 0 <= m < c.len() && c[m] == d;
        s.lemma_filter_pred(incl_pred(s), m);
        assert(included_in(s, c[m]));
    }
}

/// Idempotence of structure: two trees built from the same schema in the
/// same locale are isomorphic — same identifiers, kinds, labels and parent
/// links position by position — even though their tokens differ.
pub proof fn lemma_compile_idempotent(
    items: Seq<MenuItemInfo>,
    locale: Locale,
    t1: Seq<LiveNode>,
    t2: Seq<LiveNode>,
)
    requires
        t1.len() == spec_compiled(items).len(),
        t2.len() == spec_compiled(items).len(),
        forall|k: int|
            0 <= k < spec_compiled(items).len() ==> node_matches(
                #[trigger] t1[k],
                spec_compiled(items)[k],
                locale,
            ),
        forall|k: int|
            0 <= k < spec_compiled(items).len() ==> node_matches(
                #[trigger] t2[k],
                spec_compiled(items)[k],
                locale,
            ),
    ensures
        t1.len() == t2.len(),
        forall|k: int|
            0 <= k < t1.len() ==> #[trigger] t1[k].id@ == t2[k].id@ && t1[k].kind == t2[k].kind
                && t1[k].label@ == t2[k].label@ && (match (t1[k].parent, t2[k].parent) {
                (None, None) => true,
                (Some(p1), Some(p2)) => p1@ == p2@,
                _ => false,
            }),
{
    assert forall|k: int| 0 <= k < t1.len() implies #[trigger] t1[k].id@ == t2[k].id@ && t1[k].kind
        == t2[k].kind && t1[k].label@ == t2[k].label@ && (match (t1[k].parent, t2[k].parent) {
        (None, None) => true,
        (Some(p1), Some(p2)) => p1@ == p2@,
        _ => false,
    }) by {
        assert(node_matches(t1[k], spec_compiled(items)[k], locale));
        assert(node_matches(t2[k], spec_compiled(items)[k], locale));
    }
}

/// Sibling order: the built sequence is non-decreasing in `order`, so every
/// sibling group is too.
pub proof fn lemma_compiled_order_sorted(items: Seq<MenuItemInfo>)
    ensures
        sorted_by_order(spec_compiled(items)),
{
    lemma_sort_sorted(spec_dedup(items));
    lemma_filter_sorted(spec_arranged(items), incl_pred(spec_arranged(items)));
}

/// Tie-breaking: descriptors that share an `order` value stay in their
/// declaration order when arranged.
pub proof fn lemma_arranged_stable(items: Seq<MenuItemInfo>, v: u32)
    ensures
        spec_arranged(items).filter(ord_eq(v)) == spec_dedup(items).filter(ord_eq(v)),
{
    lemma_sort_stable(spec_dedup(items), v);
}


/// The built sequence has collision-free identifiers: of every descriptor
/// that survives compilation there is exactly one.
pub proof fn lemma_compiled_unique(items: Seq<MenuItemInfo>)
    ensures
        unique_ids(spec_compiled(items)),
{
    lemma_dedup_unique(items);
    lemma_sort_unique(spec_dedup(items));
    lemma_filter_unique(spec_arranged(items), incl_pred(spec_arranged(items)));
}

/// Full build coverage: a non-separator compiled descriptor owns its
/// position — no other compiled descriptor carries its identifier — and the
/// registry holds exactly one entry for it: one entry with its identifier,
/// token and kind exists, and no two registry entries share an identifier.
pub proof fn lemma_build_exactly_one(items: Seq<MenuItemInfo>, base: int, k: int)
    requires
        0 <= base,
        base + spec_compiled(items).len() <= u64::MAX,
        0 <= k < spec_compiled(items).len(),
        spec_compiled(items)[k].kind != ItemKind::Separator,
    ensures
        forall|m: int|
            0 <= m < spec_compiled(items).len() && m != k ==> (#[trigger] spec_compiled(
                items,
            )[m]).id@ != spec_compiled(items)[k].id@,
        exists|ei: int|
            0 <= ei < spec_registry(spec_compiled(items), base).len() && #[trigger] spec_registry(
                spec_compiled(items),
                base,
            )[ei] == (
            spec_compiled(items)[k].id@,
            spec_token_at(spec_compiled(items), base, k) as u64,
            spec_compiled(items)[k].kind,
            ),
        forall|e1: int, e2: int|
            0 <= e1 < e2 < spec_registry(spec_compiled(items), base).len() ==> spec_registry(
                spec_compiled(items),
                base,
            )[e1].0 != spec_registry(spec_compiled(items), base)[e2].0,
{
    lemma_compiled_unique(items);
    let c = spec_compiled(items);
    lemma_registry_covers(c, base, k);
    lemma_spec_registry_wf(c, base);
}


proof fn lemma_resolve_none(entries: RegEntries, token: u64)
    requires
        forall|j: int| 0 <= j < entries.len() ==> entries[j].1 != token,
    ensures
        spec_resolve(entries, token) is None,
    decreases entries.len(),
{
    if entries.len() > 0 {
        let d = entries.drop_first();
        assert(forall|j: int| 0 <= j < d.len() ==> d[j] == entries[j + 1]);
        lemma_resolve_none(d, token);
    }
}

/// Token freshness: every token of a build lies in the half-open range of
/// length `c.len()` starting at the build's base, so consecutive builds —
/// whose bases advance by exactly the compiled length — use disjoint token
/// sets.
pub proof fn lemma_build_tokens_fresh(c: Seq<MenuItemInfo>, base: int, k: int)
    requires
        0 <= base,
        base + c.len() <= u64::MAX,
        0 <= k < c.len(),
    ensures
        base <= spec_token_at(c, base, k) < base + c.len(),
        spec_token_at(c, base, k) as u64 as int == spec_token_at(c, base, k),
{
    lemma_token_at_bounds(c, base, k);
    lemma_counts(c);
}

/// A stale token — one issued before the current build's base — resolves to
/// nothing: an event from a torn-down tree is dropped, never mis-attributed.
pub proof fn lemma_stale_token_unresolved(c: Seq<MenuItemInfo>, base: int, token: u64)
    requires
        0 <= base,
        base + c.len() <= u64::MAX,
        (token as int) < base,
    ensures
        spec_resolve(spec_registry(c, base), token) is None,
{
    let r = spec_registry(c, base);
    assert forall|ei: int| 0 <= ei < r.len() implies r[ei].1 != token by {
        lemma_registry_no_strays(c, base, ei);
        let k = choose|k: int|
            0 <= k < c.len() && c[k].kind != ItemKind::Separator && #[trigger] r[ei] == (
            c[k].id@,
            spec_token_at(c, base, k) as u64,
            c[k].kind,
            );
        lemma_build_tokens_fresh(c, base, k);
    }
    lemma_resolve_none(r, token);
}

} // verus!
