//! The properties the library stands on, each proved once and for all:
//! the visibility invariant of the projection, its index alignment and
//! determinism, the cursor clamp, and the toggle involution.

use vstd::prelude::*;

use crate::app::{spec_move_down, spec_move_up, spec_toggle};
use crate::browse::{
    dfs_entries, entry_models, is_child_path, max_depth, paths_of, projected_entries,
    projection_paths, projection_rows, rows_of, spec_insert, spec_sort, visible_at, visible_list,
};
use crate::paths::{is_prefix_of, Entry, EntryModel};

verus! {

/// Some entry of `s` has the path `p`; with `need_dir`, a directory
/// entry among them.
pub open spec fn appears_as(s: Seq<EntryModel>, p: Seq<Seq<char>>, need_dir: bool) -> bool {
    exists|i: int| 0 <= i < s.len() && s[i].path == p && (need_dir ==> s[i].is_dir)
}

pub open spec fn appears(s: Seq<EntryModel>, p: Seq<Seq<char>>) -> bool {
    appears_as(s, p, false)
}

/// Every ancestor of every entry's path, below the root, is itself some
/// directory entry of the scan: what any real recursive scan produces.
pub open spec fn ancestor_closed(s: Seq<EntryModel>) -> bool {
    forall|i: int, k: int|
        0 <= i < s.len() && 1 <= k < s[i].path.len() ==> appears_as(
            s,
            #[trigger] s[i].path.subrange(0, k),
            true,
        )
}

proof fn lemma_appears_concat(x: Seq<EntryModel>, y: Seq<EntryModel>, p: Seq<Seq<char>>, d: bool)
    ensures
        appears_as(x + y, p, d) <==> appears_as(x, p, d) || appears_as(y, p, d),
{
    if appears_as(x + y, p, d) {
        let i = choose|i: int| 0 <= i < (x + y).len() && (x + y)[i].path == p && (d ==> (x + y)[i].is_dir);
        if i < x.len() {
            assert(x[i] == (x + y)[i]);
        } else {
            assert(y[i - x.len()] == (x + y)[i]);
        }
    }
    if appears_as(x, p, d) {
        let i = choose|i: int| 0 <= i < x.len() && x[i].path == p && (d ==> x[i].is_dir);
        assert((x + y)[i] == x[i]);
    }
    if appears_as(y, p, d) {
        let i = choose|i: int| 0 <= i < y.len() && y[i].path == p && (d ==> y[i].is_dir);
        assert((x + y)[x.len() + i] == y[i]);
    }
}

/// The filtered list holds a path exactly when the scan holds it and it
/// is visible.
proof fn lemma_visible_appears(
    s: Seq<Entry>,
    exp: Set<Seq<Seq<char>>>,
    p: Seq<Seq<char>>,
    d: bool,
)
    ensures
        appears_as(visible_list(s, exp), p, d) <==> (appears_as(entry_models(s), p, d)
            && visible_at(p, exp)),
    decreases s.len(),
{
    if s.len() == 0 {
        assert(!appears_as(visible_list(s, exp), p, d));
        assert(!appears_as(entry_models(s), p, d));
    } else {
        lemma_visible_appears(s.drop_last(), exp, p, d);
        let pre = visible_list(s.drop_last(), exp);
        let tail = if visible_at(s.last()@.path, exp) {
            seq![s.last()@]
        } else {
            Seq::<EntryModel>::empty()
        };
        lemma_appears_concat(pre, tail, p, d);
        assert(entry_models(s.drop_last()) =~= entry_models(s).drop_last());
        // membership in the models of s splits into the last entry and the rest
        assert(appears_as(entry_models(s), p, d) <==> (appears_as(entry_models(s.drop_last()), p, d)
            || (s.last()@.path == p && (d ==> s.last()@.is_dir)))) by {
            let ms = entry_models(s);
            if appears_as(ms, p, d) {
                let i = choose|i: int| 0 <= i < ms.len() && ms[i].path == p && (d ==> ms[i].is_dir);
                if i < ms.len() - 1 {
                    assert(entry_models(s.drop_last())[i] == ms[i]);
                } else {
                    assert(ms[i] == s.last()@);
                }
            }
            if appears_as(entry_models(s.drop_last()), p, d) {
                let i = choose|i: int|
                    0 <= i < entry_models(s.drop_last()).len() && entry_models(s.drop_last())[i].path
                        == p && (d ==> entry_models(s.drop_last())[i].is_dir);
                assert(ms[i] == entry_models(s.drop_last())[i]);
            }
            if s.last()@.path == p && (d ==> s.last()@.is_dir) {
                assert(ms[ms.len() - 1] == s.last()@);
            }
        }
        if appears_as(tail, p, d) {
            assert(tail[0] == s.last()@);
        }
        if visible_at(s.last()@.path, exp) && s.last()@.path == p && (d ==> s.last()@.is_dir) {
            assert(tail[0].path == p && (d ==> tail[0].is_dir));
        }
    }
}

/// Insertion keeps exactly the old paths plus the new one.
proof fn lemma_insert_appears(
    e: EntryModel,
    s: Seq<EntryModel>,
    p: Seq<Seq<char>>,
    d: bool,
)
    ensures
        appears_as(spec_insert(e, s), p, d) <==> ((e.path == p && (d ==> e.is_dir)) || appears_as(
            s,
            p,
            d,
        )),
    decreases s.len(),
{
    if s.len() == 0 {
        if appears_as(spec_insert(e, s), p, d) {
            assert(spec_insert(e, s)[0] == e);
        }
        if e.path == p && (d ==> e.is_dir) {
            assert(spec_insert(e, s)[0] == e);
        }
        assert(!appears_as(s, p, d));
    } else if crate::paths::path_lt(e.path, s[0].path) {
        lemma_appears_concat(seq![e], s, p, d);
        if appears_as(seq![e], p, d) {
            assert(seq![e][0] == e);
        }
        if e.path == p && (d ==> e.is_dir) {
            assert(seq![e][0] == e);
        }
    } else {
        lemma_insert_appears(e, s.drop_first(), p, d);
        lemma_appears_concat(seq![s[0]], spec_insert(e, s.drop_first()), p, d);
        if appears_as(seq![s[0]], p, d) {
            assert(seq![s[0]][0] == s[0]);
        }
        // membership in s splits into s[0] and the rest
        assert(appears_as(s, p, d) <==> ((s[0].path == p && (d ==> s[0].is_dir)) || appears_as(
            s.drop_first(),
            p,
            d,
        ))) by {
            if appears_as(s, p, d) {
                let i = choose|i: int| 0 <= i < s.len() && s[i].path == p && (d ==> s[i].is_dir);
                if i > 0 {
                    assert(s.drop_first()[i - 1] == s[i]);
                }
            }
            if appears_as(s.drop_first(), p, d) {
                let i = choose|i: int|
                    0 <= i < s.drop_first().len() && s.drop_first()[i].path == p && (d
                        ==> s.drop_first()[i].is_dir);
                assert(s[i + 1] == s.drop_first()[i]);
            }
        }
        if s[0].path == p && (d ==> s[0].is_dir) {
            assert(seq![s[0]][0] == s[0]);
        }
    }
}

/// Sorting keeps exactly the same paths.
proof fn lemma_sort_appears(s: Seq<EntryModel>, p: Seq<Seq<char>>, d: bool)
    ensures
        appears_as(spec_sort(s), p, d) <==> appears_as(s, p, d),
    decreases s.len(),
{
    if s.len() > 0 {
        lemma_sort_appears(s.drop_last(), p, d);
        lemma_insert_appears(s.last(), spec_sort(s.drop_last()), p, d);
        assert(appears_as(s, p, d) <==> ((s.last().path == p && (d ==> s.last().is_dir))
            || appears_as(s.drop_last(), p, d))) by {
            if appears_as(s, p, d) {
                let i = choose|i: int| 0 <= i < s.len() && s[i].path == p && (d ==> s[i].is_dir);
                if i < s.len() - 1 {
                    assert(s.drop_last()[i] == s[i]);
                }
            }
            if appears_as(s.drop_last(), p, d) {
                let i = choose|i: int|
                    0 <= i < s.drop_last().len() && s.drop_last()[i].path == p && (d
                        ==> s.drop_last()[i].is_dir);
                assert(s[i] == s.drop_last()[i]);
            }
        }
    }
}

/// Whatever the walk emits came from the list.
proof fn lemma_dfs_sound(
    dir: Seq<Seq<char>>,
    list: Seq<EntryModel>,
    exp: Set<Seq<Seq<char>>>,
    j: int,
    fuel: nat,
    p: Seq<Seq<char>>,
)
    requires
        appears(dfs_entries(dir, list, exp, j, fuel), p),
    ensures
        appears(list, p),
    decreases fuel, list.len() - j, 0nat,
{
    if j < 0 || j >= list.len() {
        assert(!appears(dfs_entries(dir, list, exp, j, fuel), p));
    } else {
        let e = list[j];
        if is_child_path(e.path, dir) {
            let sub = if e.is_dir && exp.contains(e.path) && fuel > 0 {
                dfs_entries(e.path, list, exp, 0, (fuel - 1) as nat)
            } else {
                Seq::<EntryModel>::empty()
            };
            let rest = dfs_entries(dir, list, exp, j + 1, fuel);
            lemma_appears_concat(seq![e] + sub, rest, p, false);
            lemma_appears_concat(seq![e], sub, p, false);
            if appears_as(seq![e], p, false) {
                assert(seq![e][0] == e);
                assert(list[j].path == p);
            } else if appears(sub, p) {
                assert(e.is_dir && exp.contains(e.path) && fuel > 0);
                lemma_dfs_sound(e.path, list, exp, 0, (fuel - 1) as nat, p);
            } else {
                lemma_dfs_sound(dir, list, exp, j + 1, fuel, p);
            }
        } else {
            lemma_dfs_sound(dir, list, exp, j + 1, fuel, p);
        }
    }
}

/// Scanning from `j`, the walk emits the child of `dir` sitting at `i`.
proof fn lemma_dfs_scan_emits(
    dir: Seq<Seq<char>>,
    list: Seq<EntryModel>,
    exp: Set<Seq<Seq<char>>>,
    j: int,
    fuel: nat,
    i: int,
)
    requires
        0 <= j <= i < list.len(),
        is_child_path(list[i].path, dir),
    ensures
        appears(dfs_entries(dir, list, exp, j, fuel), list[i].path),
    decreases i - j,
{
    let e = list[j];
    if is_child_path(e.path, dir) {
        let sub = if e.is_dir && exp.contains(e.path) && fuel > 0 {
            dfs_entries(e.path, list, exp, 0, (fuel - 1) as nat)
        } else {
            Seq::<EntryModel>::empty()
        };
        let rest = dfs_entries(dir, list, exp, j + 1, fuel);
        lemma_appears_concat(seq![e] + sub, rest, list[i].path, false);
        lemma_appears_concat(seq![e], sub, list[i].path, false);
        if i == j {
            assert(seq![e][0] == e);
        } else {
            lemma_dfs_scan_emits(dir, list, exp, j + 1, fuel, i);
        }
    } else {
        assert(i != j);
        lemma_dfs_scan_emits(dir, list, exp, j + 1, fuel, i);
    }
}

/// Scanning from `j`, the walk descends into the expanded directory
/// child of `dir` sitting at `i`, so everything that directory's own
/// walk emits appears here too.
proof fn lemma_dfs_scan_descends(
    dir: Seq<Seq<char>>,
    list: Seq<EntryModel>,
    exp: Set<Seq<Seq<char>>>,
    j: int,
    fuel: nat,
    i: int,
    p: Seq<Seq<char>>,
)
    requires
        0 <= j <= i < list.len(),
        is_child_path(list[i].path, dir),
        list[i].is_dir,
        exp.contains(list[i].path),
        fuel > 0,
        appears(dfs_entries(list[i].path, list, exp, 0, (fuel - 1) as nat), p),
    ensures
        appears(dfs_entries(dir, list, exp, j, fuel), p),
    decreases i - j,
{
    let e = list[j];
    if is_child_path(e.path, dir) {
        let sub = if e.is_dir && exp.contains(e.path) && fuel > 0 {
            dfs_entries(e.path, list, exp, 0, (fuel - 1) as nat)
        } else {
            Seq::<EntryModel>::empty()
        };
        let rest = dfs_entries(dir, list, exp, j + 1, fuel);
        lemma_appears_concat(seq![e] + sub, rest, p, false);
        lemma_appears_concat(seq![e], sub, p, false);
        if i == j {
        } else {
            lemma_dfs_scan_descends(dir, list, exp, j + 1, fuel, i, p);
        }
    } else {
        assert(i != j);
        lemma_dfs_scan_descends(dir, list, exp, j + 1, fuel, i, p);
    }
}

/// A path in the list bounds the list's depth.
proof fn lemma_max_depth_bound(list: Seq<EntryModel>, i: int)
    requires
        0 <= i < list.len(),
    ensures
        list[i].path.len() <= max_depth(list),
    decreases list.len(),
{
    if i < list.len() - 1 {
        lemma_max_depth_bound(list.drop_last(), i);
        assert(list.drop_last()[i] == list[i]);
    }
}

/// The walk from `dir` reaches every listed path below `dir` whose
/// intermediate ancestors are expanded directory entries of the list.
proof fn lemma_dfs_reaches(
    dir: Seq<Seq<char>>,
    list: Seq<EntryModel>,
    exp: Set<Seq<Seq<char>>>,
    p: Seq<Seq<char>>,
    fuel: nat,
)
    requires
        appears(list, p),
        dir.len() < p.len(),
        is_prefix_of(dir, p),
        forall|k: int|
            dir.len() < k < p.len() ==> appears_as(list, #[trigger] p.subrange(0, k), true)
                && exp.contains(p.subrange(0, k)),
        fuel >= p.len() - dir.len() - 1,
    ensures
        appears(dfs_entries(dir, list, exp, 0, fuel), p),
    decreases p.len() - dir.len(),
{
    if p.len() == dir.len() + 1 {
        let i = choose|i: int| 0 <= i < list.len() && list[i].path == p;
        assert(is_child_path(list[i].path, dir)) by {
            assert(dir =~= p.subrange(0, dir.len() as int));
        }
        lemma_dfs_scan_emits(dir, list, exp, 0, fuel, i);
    } else {
        let a = p.subrange(0, dir.len() as int + 1);
        assert(appears_as(list, a, true) && exp.contains(a));
        let i = choose|i: int| 0 <= i < list.len() && list[i].path == a && list[i].is_dir;
        assert(is_child_path(list[i].path, dir)) by {
            assert(dir =~= a.subrange(0, dir.len() as int)) by {
                assert(dir =~= p.subrange(0, dir.len() as int));
            }
        }
        assert(is_prefix_of(a, p)) by {
            assert(a =~= p.subrange(0, a.len() as int));
        }
        assert(forall|k: int|
            a.len() < k < p.len() ==> appears_as(list, #[trigger] p.subrange(0, k), true)
                && exp.contains(p.subrange(0, k)));
        lemma_dfs_reaches(a, list, exp, p, (fuel - 1) as nat);
        lemma_dfs_scan_descends(dir, list, exp, 0, fuel, i, p);
    }
}

/// Visibility invariant: in the projection of an ancestor-closed scan,
/// a path appears exactly when the scan holds it and every ancestor
/// strictly between the root and the path is expanded.
pub proof fn lemma_visibility_invariant(
    entries: Seq<Entry>,
    exp: Set<Seq<Seq<char>>>,
    p: Seq<Seq<char>>,
)
    requires
        ancestor_closed(entry_models(entries)),
    ensures
        appears(projected_entries(entries, exp), p) <==> (appears(entry_models(entries), p)
            && visible_at(p, exp)),
{
    let vis = visible_list(entries, exp);
    let list = spec_sort(vis);
    let fuel = max_depth(list);
    let root = Seq::<Seq<char>>::empty();

    if appears(projected_entries(entries, exp), p) {
        lemma_dfs_sound(root, list, exp, 0, fuel, p);
        lemma_sort_appears(vis, p, false);
        lemma_visible_appears(entries, exp, p, false);
    }
    if appears(entry_models(entries), p) && visible_at(p, exp) {
        lemma_visible_appears(entries, exp, p, false);
        lemma_sort_appears(vis, p, false);
        let i = choose|i: int| 0 <= i < list.len() && list[i].path == p;
        lemma_max_depth_bound(list, i);
        assert(is_prefix_of(root, p)) by {
            assert(root =~= p.subrange(0, 0));
        }
        assert forall|k: int| 0 < k < p.len() implies appears_as(
            list,
            #[trigger] p.subrange(0, k),
            true,
        ) && exp.contains(p.subrange(0, k)) by {
            let a = p.subrange(0, k);
            assert(exp.contains(a));
            // the scan is ancestor-closed, so `a` is a directory entry of it
            let ms = entry_models(entries);
            let ei = choose|ei: int| 0 <= ei < ms.len() && ms[ei].path == p;
            assert(ms[ei].path.subrange(0, k) == a);
            assert(appears_as(ms, a, true));
            // `a` is itself visible: its ancestors are ancestors of `p`
            assert(visible_at(a, exp)) by {
                assert forall|k2: int| 1 <= k2 < a.len() implies exp.contains(
                    #[trigger] a.subrange(0, k2),
                ) by {
                    assert(a.subrange(0, k2) =~= p.subrange(0, k2));
                }
            }
            lemma_visible_appears(entries, exp, a, true);
            lemma_sort_appears(vis, a, true);
        }
        lemma_dfs_reaches(root, list, exp, p, fuel);
    }
}

/// Index alignment: a projection has as many rows as paths; the header
/// row at index zero is the one row without a path.
pub proof fn lemma_index_alignment(entries: Seq<Entry>, exp: Set<Seq<Seq<char>>>)
    ensures
        projection_rows(entries, exp).len() == projection_paths(entries, exp).len(),
        forall|i: int|
            0 <= i < projection_paths(entries, exp).len() ==> ((#[trigger] projection_paths(
                entries,
                exp,
            )[i]) is None <==> i == 0),
{
    let emitted = projected_entries(entries, exp);
    assert(projection_rows(entries, exp).len() == 1 + rows_of(emitted, exp).len());
    assert(projection_paths(entries, exp).len() == 1 + paths_of(emitted).len());
    assert forall|i: int| 0 <= i < projection_paths(entries, exp).len() implies ((
    #[trigger] projection_paths(entries, exp)[i]) is None <==> i == 0) by {
        if i > 0 {
            assert(projection_paths(entries, exp)[i] == paths_of(emitted)[i - 1]);
            assert(paths_of(emitted)[i - 1] == Some(emitted[i - 1]));
        }
    }
}

/// The filtered list depends only on the entries' values, not on which
/// allocations hold them.
proof fn lemma_visible_list_congruent(e1: Seq<Entry>, e2: Seq<Entry>, exp: Set<Seq<Seq<char>>>)
    requires
        entry_models(e1) == entry_models(e2),
    ensures
        visible_list(e1, exp) == visible_list(e2, exp),
    decreases e1.len(),
{
    assert(e1.len() == entry_models(e1).len());
    assert(e2.len() == entry_models(e2).len());
    if e1.len() > 0 {
        assert(entry_models(e1.drop_last()) =~= entry_models(e1).drop_last());
        assert(entry_models(e2.drop_last()) =~= entry_models(e2).drop_last());
        lemma_visible_list_congruent(e1.drop_last(), e2.drop_last(), exp);
        assert(e1.last()@ == entry_models(e1)[e1.len() - 1]);
        assert(e2.last()@ == entry_models(e2)[e2.len() - 1]);
    }
}

/// Determinism: the projection is a function of the scanned values and
/// the expansion state alone; equal inputs give identical rows, paths
/// and order.
pub proof fn lemma_projection_deterministic(
    e1: Seq<Entry>,
    e2: Seq<Entry>,
    exp: Set<Seq<Seq<char>>>,
)
    requires
        entry_models(e1) == entry_models(e2),
    ensures
        projection_rows(e1, exp) == projection_rows(e2, exp),
        projection_paths(e1, exp) == projection_paths(e2, exp),
{
    lemma_visible_list_congruent(e1, e2, exp);
}

/// A cursor position the row list admits: any row of a non-empty list,
/// or nothing.
pub open spec fn cursor_ok(sel: Option<int>, n: int) -> bool {
    match sel {
        Some(i) => 0 <= i < n,
        None => true,
    }
}

/// A run of cursor movements, `true` for up and `false` for down.
pub open spec fn apply_moves(sel: Option<int>, n: int, ops: Seq<bool>) -> Option<int>
    decreases ops.len(),
{
    if ops.len() == 0 {
        sel
    } else {
        let next = if ops[0] {
            spec_move_up(sel, n)
        } else {
            spec_move_down(sel, n)
        };
        apply_moves(next, n, ops.drop_first())
    }
}

/// Cursor clamp: from any admissible position, any run of up and down
/// movements stays inside the list, and on an empty list the cursor
/// stays cleared.
pub proof fn lemma_cursor_clamp(sel: Option<int>, n: int, ops: Seq<bool>)
    requires
        cursor_ok(sel, n),
    ensures
        cursor_ok(apply_moves(sel, n, ops), n),
        n <= 0 ==> apply_moves(sel, n, ops) == sel,
    decreases ops.len(),
{
    if ops.len() > 0 {
        let next = if ops[0] {
            spec_move_up(sel, n)
        } else {
            spec_move_down(sel, n)
        };
        lemma_cursor_clamp(next, n, ops.drop_first());
    }
}

/// Toggle involution: toggling the same directory's expansion twice
/// returns the expansion state to its original membership.
pub proof fn lemma_toggle_twice(exp: Set<Seq<Seq<char>>>, p: Seq<Seq<char>>)
    ensures
        spec_toggle(spec_toggle(exp, p), p) == exp,
{
    if exp.contains(p) {
        assert(spec_toggle(spec_toggle(exp, p), p) =~= exp);
    } else {
        assert(spec_toggle(spec_toggle(exp, p), p) =~= exp);
    }
}

} // verus!
