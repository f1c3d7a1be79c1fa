//! The browse projection: turning a directory scan and the current
//! expansion state into the ordered, flattened list of visible rows.

use vstd::prelude::*;

use crate::expansion::ExpansionState;
use crate::paths::{is_prefix_of, path_lt, Entry, EntryModel, NotePath};

verus! {

/// One line of the browse list.
#[derive(Debug, PartialEq, Eq)]
pub struct ProjectedRow {
    pub display_text: String,
    pub is_file: bool,
}

/// The mathematical value of a `ProjectedRow`.
pub struct RowModel {
    pub text: Seq<char>,
    pub is_file: bool,
}

impl View for ProjectedRow {
    type V = RowModel;

    open spec fn view(&self) -> RowModel {
        RowModel { text: self.display_text@, is_file: self.is_file }
    }
}

pub open spec fn entry_models(s: Seq<Entry>) -> Seq<EntryModel> {
    s.map_values(|e: Entry| e@)
}

pub open spec fn row_models(s: Seq<ProjectedRow>) -> Seq<RowModel> {
    s.map_values(|r: ProjectedRow| r@)
}

pub open spec fn option_model(o: Option<Entry>) -> Option<EntryModel> {
    match o {
        Some(e) => Some(e@),
        None => None,
    }
}

pub open spec fn opt_entry_models(s: Seq<Option<Entry>>) -> Seq<Option<EntryModel>> {
    s.map_values(|o: Option<Entry>| option_model(o))
}

/// A non-root path is visible exactly when every ancestor directory
/// strictly between the root and the path itself is expanded.
pub open spec fn visible_at(p: Seq<Seq<char>>, exp: Set<Seq<Seq<char>>>) -> bool {
    &&& p.len() > 0
    &&& forall|k: int| 1 <= k < p.len() ==> exp.contains(#[trigger] p.subrange(0, k))
}

/// `c` names something directly inside the directory `dir`.
pub open spec fn is_child_path(c: Seq<Seq<char>>, dir: Seq<Seq<char>>) -> bool {
    c.len() == dir.len() + 1 && is_prefix_of(dir, c)
}

/// Check if a path should be shown given the expanded folders: a path is
/// shown if all its ancestors below the root are expanded.
pub fn should_show_path(path: &NotePath, expanded_folders: &ExpansionState) -> (r: bool)
    ensures
        r == visible_at(path@, expanded_folders@),
{
    if path.is_root() {
        return false;
    }
    let mut k: usize = 1;
    while k < path.depth()
        invariant
            1 <= k <= path@.len(),
            forall|j: int| 1 <= j < k ==> expanded_folders@.contains(#[trigger] path@.subrange(0, j)),
        decreases path@.len() - k,
    {
        let ancestor = path.prefix(k);
        if !expanded_folders.contains(&ancestor) {
            return false;
        }
        k = k + 1;
    }
    true
}

/// The visible entries of `s`, in their original order.
pub open spec fn visible_list(s: Seq<Entry>, exp: Set<Seq<Seq<char>>>) -> Seq<EntryModel>
    decreases s.len(),
{
    if s.len() == 0 {
        Seq::empty()
    } else {
        visible_list(s.drop_last(), exp) + if visible_at(s.last()@.path, exp) {
            seq![s.last()@]
        } else {
            Seq::empty()
        }
    }
}

/// Keep exactly the entries whose paths are visible.
fn filter_visible(entries: &Vec<Entry>, expanded_folders: &ExpansionState) -> (r: Vec<Entry>)
    ensures
        entry_models(r@) == visible_list(entries@, expanded_folders@),
{
    let mut out: Vec<Entry> = Vec::new();
    let mut i: usize = 0;
    while i < entries.len()
        invariant
            i <= entries@.len(),
            entry_models(out@) =~= visible_list(entries@.subrange(0, i as int), expanded_folders@),
        decreases entries@.len() - i,
    {
        let ghost prefix = entries@.subrange(0, i as int);
        if should_show_path(&entries[i].path, expanded_folders) {
            out.push(entries[i].duplicate());
        }
        proof {
            assert(entries@.subrange(0, i as int + 1).drop_last() =~= prefix);
            assert(entries@.subrange(0, i as int + 1).last() == entries@[i as int]);
            assert(entry_models(out@) =~= visible_list(
                entries@.subrange(0, i as int + 1),
                expanded_folders@,
            ));
        }
        i = i + 1;
    }
    proof {
        assert(entries@.subrange(0, entries@.len() as int) =~= entries@);
    }
    out
}

/// Where `e` lands when inserted into the already-sorted `s`.
pub open spec fn spec_insert(e: EntryModel, s: Seq<EntryModel>) -> Seq<EntryModel>
    decreases s.len(),
{
    if s.len() == 0 {
        seq![e]
    } else if path_lt(e.path, s[0].path) {
        seq![e] + s
    } else {
        seq![s[0]] + spec_insert(e, s.drop_first())
    }
}

/// Insertion sort by path order: entries taken left to right.
pub open spec fn spec_sort(s: Seq<EntryModel>) -> Seq<EntryModel>
    decreases s.len(),
{
    if s.len() == 0 {
        Seq::empty()
    } else {
        spec_insert(s.last(), spec_sort(s.drop_last()))
    }
}

proof fn lemma_spec_insert_at(e: EntryModel, s: Seq<EntryModel>, j: int)
    requires
        0 <= j <= s.len(),
        forall|k: int| 0 <= k < j ==> !path_lt(e.path, s[k].path),
        j < s.len() ==> path_lt(e.path, s[j].path),
    ensures
        spec_insert(e, s) == s.subrange(0, j) + seq![e] + s.skip(j),
    decreases j,
{
    if j == 0 {
        if s.len() == 0 {
            assert(spec_insert(e, s) =~= s.subrange(0, 0) + seq![e] + s.skip(0));
        } else {
            assert(spec_insert(e, s) =~= s.subrange(0, 0) + seq![e] + s.skip(0));
        }
    } else {
        assert(!path_lt(e.path, s[0].path));
        assert(s.len() > 0);
        lemma_spec_insert_at(e, s.drop_first(), j - 1);
        assert(seq![s[0]] + (s.drop_first().subrange(0, j - 1) + seq![e] + s.drop_first().skip(
            j - 1,
        )) =~= s.subrange(0, j) + seq![e] + s.skip(j));
    }
}

/// Insert one entry into a vector kept sorted by `path_lt`.
#[verifier::loop_isolation(false)]
fn insert_sorted(out: &mut Vec<Entry>, e: Entry)
    ensures
        entry_models(final(out)@) == spec_insert(e@, entry_models(old(out)@)),
{
    let ghost s = entry_models(out@);
    let mut j: usize = 0;
    while j < out.len() && !e.path.less_than(&out[j].path)
        invariant
            j <= out@.len(),
            forall|k: int| 0 <= k < j ==> !path_lt(e@.path, s[k].path),
        decreases out@.len() - j,
    {
        j = j + 1;
    }
    proof {
        lemma_spec_insert_at(e@, s, j as int);
    }
    out.insert(j, e);
    proof {
        assert(entry_models(out@) =~= s.subrange(0, j as int) + seq![e@] + s.skip(j as int));
    }
}

/// Sort entries by path order, exactly `spec_sort`.
fn sort_entries(entries: Vec<Entry>) -> (r: Vec<Entry>)
    ensures
        entry_models(r@) == spec_sort(entry_models(entries@)),
{
    let mut out: Vec<Entry> = Vec::new();
    let mut i: usize = 0;
    while i < entries.len()
        invariant
            i <= entries@.len(),
            entry_models(out@) =~= spec_sort(entry_models(entries@.subrange(0, i as int))),
        decreases entries@.len() - i,
    {
        let ghost prefix = entry_models(entries@.subrange(0, i as int));
        insert_sorted(&mut out, entries[i].duplicate());
        proof {
            let next = entry_models(entries@.subrange(0, i as int + 1));
            assert(next.drop_last() =~= prefix);
            assert(next.last() == entries@[i as int]@);
            assert(entry_models(out@) =~= spec_sort(next));
        }
        i = i + 1;
    }
    proof {
        assert(entries@.subrange(0, entries@.len() as int) =~= entries@);
    }
    out
}

/// The deepest path in the list, in components; the bound on how far the
/// depth-first walk can descend.
pub open spec fn max_depth(s: Seq<EntryModel>) -> nat
    decreases s.len(),
{
    if s.len() == 0 {
        0
    } else if s.last().path.len() >= max_depth(s.drop_last()) {
        s.last().path.len()
    } else {
        max_depth(s.drop_last())
    }
}

fn compute_max_depth(entries: &Vec<Entry>) -> (r: usize)
    ensures
        r == max_depth(entry_models(entries@)),
{
    let mut m: usize = 0;
    let mut i: usize = 0;
    while i < entries.len()
        invariant
            i <= entries@.len(),
            m == max_depth(entry_models(entries@.subrange(0, i as int))),
        decreases entries@.len() - i,
    {
        let ghost prefix = entry_models(entries@.subrange(0, i as int));
        let d = entries[i].path.depth();
        if d > m {
            m = d;
        }
        proof {
            let next = entry_models(entries@.subrange(0, i as int + 1));
            assert(next.drop_last() =~= prefix);
            assert(next.last() == entries@[i as int]@);
        }
        i = i + 1;
    }
    proof {
        assert(entries@.subrange(0, entries@.len() as int) =~= entries@);
    }
    m
}

/// The entries the depth-first walk emits below `dir`, scanning `list`
/// from index `i`: each child of `dir` in turn, and right after an
/// expanded child directory, everything emitted below it.
pub open spec fn dfs_entries(
    dir: Seq<Seq<char>>,
    list: Seq<EntryModel>,
    exp: Set<Seq<Seq<char>>>,
    i: int,
    fuel: nat,
) -> Seq<EntryModel>
    decreases fuel, list.len() - i,
{
    if i < 0 || i >= list.len() {
        Seq::empty()
    } else {
        let e = list[i];
        if is_child_path(e.path, dir) {
            seq![e] + (if e.is_dir && exp.contains(e.path) && fuel > 0 {
                dfs_entries(e.path, list, exp, 0, (fuel - 1) as nat)
            } else {
                Seq::empty()
            }) + dfs_entries(dir, list, exp, i + 1, fuel)
        } else {
            dfs_entries(dir, list, exp, i + 1, fuel)
        }
    }
}

/// The rows shown for an entry: indentation proportional to depth, an
/// expand/collapse glyph on directories, a file glyph on files, then the
/// entry's own name.
pub open spec fn indent_of(d: int) -> Seq<char>
    decreases d,
{
    if d <= 0 {
        Seq::empty()
    } else {
        indent_of(d - 1) + "  "@
    }
}

pub open spec fn row_text(e: EntryModel, exp: Set<Seq<Seq<char>>>) -> Seq<char> {
    indent_of(e.path.len() - 1) + (if e.is_dir {
        if exp.contains(e.path) {
            "v "@
        } else {
            "> "@
        }
    } else {
        "- "@
    }) + e.path.last()
}

pub open spec fn row_model(e: EntryModel, exp: Set<Seq<Seq<char>>>) -> RowModel {
    RowModel { text: row_text(e, exp), is_file: !e.is_dir }
}

pub open spec fn rows_of(s: Seq<EntryModel>, exp: Set<Seq<Seq<char>>>) -> Seq<RowModel> {
    s.map_values(|e: EntryModel| row_model(e, exp))
}

pub open spec fn paths_of(s: Seq<EntryModel>) -> Seq<Option<EntryModel>> {
    s.map_values(|e: EntryModel| Some(e))
}

fn render_row(e: &Entry, expanded_folders: &ExpansionState) -> (r: ProjectedRow)
    requires
        e@.path.len() > 0,
    ensures
        r@ == row_model(e@, expanded_folders@),
{
    let mut text = String::new();
    let mut i: usize = 1;
    while i < e.path.depth()
        invariant
            1 <= i <= e@.path.len(),
            e@.path.len() > 0,
            text@ == indent_of(i - 1),
        decreases e@.path.len() - i,
    {
        text.append("  ");
        i = i + 1;
    }
    if e.is_dir {
        if expanded_folders.contains(&e.path) {
            text.append("v ");
        } else {
            text.append("> ");
        }
    } else {
        text.append("- ");
    }
    text.append(e.path.last_component().as_str());
    proof {
        assert(text@ =~= row_text(e@, expanded_folders@));
    }
    ProjectedRow { display_text: text, is_file: !e.is_dir }
}

/// Walk the sorted visible entries depth first, appending one row and one
/// path per emitted entry. `fuel` bounds the recursion; the caller passes
/// the deepest path length, so nothing reachable is cut off.
#[verifier::loop_isolation(false)]
pub fn add_directory_items(
    dir_path: &NotePath,
    entries: &Vec<Entry>,
    expanded_folders: &ExpansionState,
    items: &mut Vec<ProjectedRow>,
    paths: &mut Vec<Option<Entry>>,
    fuel: usize,
)
    requires
        forall|k: int| 0 <= k < entries@.len() ==> (#[trigger] entries@[k])@.path.len() > 0,
    ensures
        row_models(final(items)@) == row_models(old(items)@) + rows_of(
            dfs_entries(dir_path@, entry_models(entries@), expanded_folders@, 0, fuel as nat),
            expanded_folders@,
        ),
        opt_entry_models(final(paths)@) == opt_entry_models(old(paths)@) + paths_of(
            dfs_entries(dir_path@, entry_models(entries@), expanded_folders@, 0, fuel as nat),
        ),
    decreases fuel,
{
    let ghost list = entry_models(entries@);
    let ghost exp = expanded_folders@;
    let ghost mut emitted: Seq<EntryModel> = Seq::empty();
    let mut i: usize = 0;
    while i < entries.len()
        invariant
            i <= entries@.len(),
            row_models(items@) =~= row_models(old(items)@) + rows_of(emitted, exp),
            opt_entry_models(paths@) =~= opt_entry_models(old(paths)@) + paths_of(emitted),
            dfs_entries(dir_path@, list, exp, 0, fuel as nat) == emitted + dfs_entries(
                dir_path@,
                list,
                exp,
                i as int,
                fuel as nat,
            ),
        decreases entries@.len() - i,
    {
        let e = &entries[i];
        if e.path.is_child_of(dir_path) {
            let row = render_row(e, expanded_folders);
            let ghost items_before = items@;
            let ghost paths_before = paths@;
            items.push(row);
            paths.push(Some(e.duplicate()));
            proof {
                let prev = emitted;
                emitted = emitted + seq![e@];
                assert(row_models(items@) =~= row_models(items_before).push(
                    row_model(e@, exp),
                ));
                assert(rows_of(emitted, exp) =~= rows_of(prev, exp).push(row_model(e@, exp)));
                assert(opt_entry_models(paths@) =~= opt_entry_models(paths_before).push(
                    Some(e@),
                ));
                assert(paths_of(emitted) =~= paths_of(prev).push(Some(e@)));
                assert(row_models(items@) =~= row_models(old(items)@) + rows_of(emitted, exp));
                assert(opt_entry_models(paths@) =~= opt_entry_models(old(paths)@) + paths_of(
                    emitted,
                ));
            }
            if e.is_dir && expanded_folders.contains(&e.path) && fuel > 0 {
                let sub_dir = e.path.duplicate();
                add_directory_items(
                    &sub_dir,
                    entries,
                    expanded_folders,
                    items,
                    paths,
                    fuel - 1,
                );
                proof {
                    let sub = dfs_entries(e@.path, list, exp, 0, (fuel - 1) as nat);
                    let before = emitted;
                    emitted = emitted + sub;
                    assert(rows_of(emitted, exp) =~= rows_of(before, exp) + rows_of(sub, exp));
                    assert(paths_of(emitted) =~= paths_of(before) + paths_of(sub));
                    assert(row_models(items@) =~= row_models(old(items)@) + rows_of(emitted, exp));
                    assert(opt_entry_models(paths@) =~= opt_entry_models(old(paths)@) + paths_of(
                        emitted,
                    ));
                }
            }
            proof {
                assert(dfs_entries(dir_path@, list, exp, 0, fuel as nat) =~= emitted
                    + dfs_entries(dir_path@, list, exp, i as int + 1, fuel as nat));
            }
        } else {
            proof {
                assert(dfs_entries(dir_path@, list, exp, i as int, fuel as nat) == dfs_entries(
                    dir_path@,
                    list,
                    exp,
                    i as int + 1,
                    fuel as nat,
                ));
            }
        }
        i = i + 1;
    }
}

/// All the rows of one projection, in emission order.
pub open spec fn projected_entries(
    entries: Seq<Entry>,
    exp: Set<Seq<Seq<char>>>,
) -> Seq<EntryModel> {
    let sorted = spec_sort(visible_list(entries, exp));
    dfs_entries(Seq::empty(), sorted, exp, 0, max_depth(sorted))
}

/// The full projection: a root header row, then the visible entries in
/// depth-first order, with the parallel path list index-aligned.
pub open spec fn projection_rows(entries: Seq<Entry>, exp: Set<Seq<Seq<char>>>) -> Seq<RowModel> {
    seq![RowModel { text: "Root"@, is_file: false }] + rows_of(projected_entries(entries, exp), exp)
}

pub open spec fn projection_paths(
    entries: Seq<Entry>,
    exp: Set<Seq<Seq<char>>>,
) -> Seq<Option<EntryModel>> {
    seq![None] + paths_of(projected_entries(entries, exp))
}

/// Project the scanned entries against the expansion state: one header row
/// for the root, then every visible entry, siblings in path order and an
/// expanded directory's contents right after its own row.
pub fn get_files_as_list_items_with_paths(
    entries: &Vec<Entry>,
    expanded_folders: &ExpansionState,
) -> (r: (Vec<ProjectedRow>, Vec<Option<Entry>>))
    ensures
        row_models(r.0@) == projection_rows(entries@, expanded_folders@),
        opt_entry_models(r.1@) == projection_paths(entries@, expanded_folders@),
{
    let visible = filter_visible(entries, expanded_folders);
    let sorted = sort_entries(visible);
    let fuel = compute_max_depth(&sorted);

    let mut items: Vec<ProjectedRow> = Vec::new();
    let mut paths: Vec<Option<Entry>> = Vec::new();
    items.push(ProjectedRow { display_text: String::from_str("Root"), is_file: false });
    paths.push(None);
    proof {
        lemma_visible_list_nonroot(entries@, expanded_folders@);
        lemma_spec_sort_elems(visible_list(entries@, expanded_folders@));
        assert forall|k: int| 0 <= k < sorted@.len() implies (#[trigger] sorted@[k])@.path.len()
            > 0 by {
            let vis = visible_list(entries@, expanded_folders@);
            assert(sorted@[k]@ == entry_models(sorted@)[k]);
            let j = choose|j: int| 0 <= j < vis.len() && vis[j] == entry_models(sorted@)[k];
        }
    }
    add_directory_items(&NotePath::root(), &sorted, expanded_folders, &mut items, &mut paths, fuel);
    proof {
        assert(row_models(items@) =~= projection_rows(entries@, expanded_folders@));
        assert(opt_entry_models(paths@) =~= projection_paths(entries@, expanded_folders@));
    }
    (items, paths)
}

/// Every visible entry has a non-root path.
proof fn lemma_visible_list_nonroot(s: Seq<Entry>, exp: Set<Seq<Seq<char>>>)
    ensures
        forall|k: int|
            0 <= k < visible_list(s, exp).len() ==> (#[trigger] visible_list(s, exp)[k]).path.len()
                > 0,
    decreases s.len(),
{
    if s.len() > 0 {
        lemma_visible_list_nonroot(s.drop_last(), exp);
        let pre = visible_list(s.drop_last(), exp);
        assert forall|k: int| 0 <= k < visible_list(s, exp).len() implies (#[trigger] visible_list(
            s,
            exp,
        )[k]).path.len() > 0 by {
            if k < pre.len() {
                assert(visible_list(s, exp)[k] == pre[k]);
            } else {
                assert(visible_at(s.last()@.path, exp));
                assert(visible_list(s, exp)[k] == s.last()@);
            }
        }
    }
}

/// Sorting keeps exactly the same entries.
proof fn lemma_spec_insert_elems(e: EntryModel, s: Seq<EntryModel>)
    ensures
        forall|k: int|
            0 <= k < spec_insert(e, s).len() ==> (#[trigger] spec_insert(e, s)[k]) == e || exists|
                j: int,
            | 0 <= j < s.len() && s[j] == spec_insert(e, s)[k],
        spec_insert(e, s).len() == s.len() + 1,
    decreases s.len(),
{
    if s.len() > 0 && !path_lt(e.path, s[0].path) {
        lemma_spec_insert_elems(e, s.drop_first());
        assert forall|k: int| 0 <= k < spec_insert(e, s).len() implies (#[trigger] spec_insert(
            e,
            s,
        )[k]) == e || exists|j: int| 0 <= j < s.len() && s[j] == spec_insert(e, s)[k] by {
            if k == 0 {
                assert(s[0] == spec_insert(e, s)[0]);
            } else {
                let x = spec_insert(e, s)[k];
                assert(x == spec_insert(e, s.drop_first())[k - 1]);
                if x != e {
                    let j = choose|j: int|
                        0 <= j < s.drop_first().len() && s.drop_first()[j] == x;
                    assert(s[j + 1] == x);
                }
            }
        }
    }
}

proof fn lemma_spec_sort_elems(s: Seq<EntryModel>)
    ensures
        forall|k: int|
            0 <= k < spec_sort(s).len() ==> exists|j: int|
                0 <= j < s.len() && s[j] == #[trigger] spec_sort(s)[k],
        spec_sort(s).len() == s.len(),
    decreases s.len(),
{
    if s.len() > 0 {
        lemma_spec_sort_elems(s.drop_last());
        lemma_spec_insert_elems(s.last(), spec_sort(s.drop_last()));
        assert forall|k: int| 0 <= k < spec_sort(s).len() implies exists|j: int|
            0 <= j < s.len() && s[j] == #[trigger] spec_sort(s)[k] by {
            let x = spec_sort(s)[k];
            if x == s.last() {
                assert(s[s.len() - 1] == x);
            } else {
                let j0 = choose|j0: int|
                    0 <= j0 < spec_sort(s.drop_last()).len() && spec_sort(s.drop_last())[j0] == x;
                let j = choose|j: int|
                    0 <= j < s.drop_last().len() && s.drop_last()[j] == x;
                assert(s[j] == x);
            }
        }
    }
}

} // verus!
