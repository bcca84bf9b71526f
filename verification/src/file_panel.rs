//! The workspace file panel: the directory tree and its keyboard
//! navigation, the file filter, and the open documents.

use vstd::prelude::*;

use crate::disclosure::{DisclosureSet, toggled};
use crate::keys::{Key, classify_key, key_of};
use crate::paths::{
    PathPart, extension, extension_range, is_absolute, join_path, join_path_exec, parent_components,
    path_components, paths_equal, same_path,
};
use crate::text::{append_decimal, chars_of, concat2, decimal, opt_string, str_eq, to_owned_string};

verus! {

/// A file or directory listed by the workspace.
#[derive(Clone, Debug, PartialEq, Eq)]
pub struct FileEntry {
    pub path: String,
    pub directory: bool,
}

impl FileEntry {
    /// A copy of the entry.
    pub fn copy(&self) -> (c: Self)
        ensures
            c == *self,
    {
        FileEntry { path: self.path.clone(), directory: self.directory }
    }
}

/// A row of the file tree: an entry and its nesting depth.
#[derive(Clone, Debug, PartialEq, Eq)]
pub struct TreeRow {
    pub entry: FileEntry,
    pub depth: usize,
}

/// A row by its contents.
pub struct RowView {
    pub path: Seq<char>,
    pub directory: bool,
    pub depth: nat,
}

impl View for TreeRow {
    type V = RowView;

    open spec fn view(&self) -> RowView {
        RowView { path: self.entry.path@, directory: self.entry.directory, depth: self.depth as nat }
    }
}

pub open spec fn rows_view(rows: Seq<TreeRow>) -> Seq<RowView> {
    rows.map_values(|r: TreeRow| r@)
}

/// What reading one directory gave: its entries or the error.
#[derive(Debug, PartialEq, Eq)]
pub struct DirectoryListing {
    pub path: String,
    pub entries: Result<Vec<FileEntry>, String>,
}

/// Deepest directory level the tree shows.
pub const MAX_TREE_DEPTH: usize = 64;

/// The entries read for `path`, from the first listing of that path (none
/// if reading it failed).
pub open spec fn listing(dirs: Seq<DirectoryListing>, path: Seq<char>) -> Option<Seq<FileEntry>>
    decreases dirs.len(),
{
    if dirs.len() == 0 {
        None
    } else if dirs[0].path@ == path {
        match dirs[0].entries {
            Ok(es) => Some(es@),
            Err(_) => None,
        }
    } else {
        listing(dirs.drop_first(), path)
    }
}

pub open spec fn entry_row(e: FileEntry, depth: nat) -> RowView {
    RowView { path: e.path@, directory: e.directory, depth }
}

/// The rows under the directory `path` at `depth`: its loaded entries in
/// order, each expanded directory followed by its own rows; nothing past
/// the deepest level.
pub open spec fn walk(
    dirs: Seq<DirectoryListing>,
    expanded: Set<Seq<char>>,
    path: Seq<char>,
    depth: nat,
) -> Seq<RowView>
    decreases 65 - depth, 1int, 0nat,
{
    if depth > 64 {
        seq![]
    } else {
        match listing(dirs, path) {
            Some(entries) => walk_entries(dirs, expanded, entries, depth),
            None => seq![],
        }
    }
}

/// The rows of `entries` at `depth` and of their expanded subdirectories.
pub open spec fn walk_entries(
    dirs: Seq<DirectoryListing>,
    expanded: Set<Seq<char>>,
    entries: Seq<FileEntry>,
    depth: nat,
) -> Seq<RowView>
    decreases 65 - depth, 0int, entries.len(),
{
    if entries.len() == 0 || depth > 64 {
        seq![]
    } else {
        let e = entries.last();
        walk_entries(dirs, expanded, entries.drop_last(), depth) + seq![entry_row(e, depth)] + if e.directory
            && expanded.contains(e.path@) {
            walk(dirs, expanded, e.path@, depth + 1)
        } else {
            seq![]
        }
    }
}

/// The file tree with its filter and selection.
pub struct FileTree {
    pub cwd: String,
    pub directories: Vec<DirectoryListing>,
    pub loading: DisclosureSet,
    pub expanded: DisclosureSet,
    pub query: String,
    pub search_results: Vec<FileEntry>,
    pub searching: bool,
    pub open_search_when_ready: bool,
    pub search_generation: u64,
    pub selected_row: usize,
}

/// The rows the tree shows: the search results, flat, while filtering;
/// else the walk from the workspace root.
pub open spec fn tree_rows(t: FileTree) -> Seq<RowView> {
    if t.query@.len() > 0 {
        t.search_results@.map_values(|e: FileEntry| entry_row(e, 0))
    } else {
        walk(t.directories@, t.expanded@, t.cwd@, 0)
    }
}

/// The read error of the first listing of `path`, if that listing failed.
pub open spec fn listing_error(dirs: Seq<DirectoryListing>, path: Seq<char>) -> Option<Seq<char>>
    decreases dirs.len(),
{
    if dirs.len() == 0 {
        None
    } else if dirs[0].path@ == path {
        match dirs[0].entries {
            Ok(_) => None,
            Err(e) => Some(e@),
        }
    } else {
        listing_error(dirs.drop_first(), path)
    }
}

proof fn lemma_listing_error_at(dirs: Seq<DirectoryListing>, path: Seq<char>, i: int)
    requires
        0 <= i < dirs.len(),
        dirs[i].path@ == path,
        forall|j: int| 0 <= j < i ==> (#[trigger] dirs[j]).path@ != path,
    ensures
        listing_error(dirs, path) == match dirs[i].entries {
            Ok(_) => None,
            Err(e) => Some(e@),
        },
    decreases i,
{
    if i > 0 {
        assert(dirs[0].path@ != path);
        let rest = dirs.drop_first();
        assert forall|j: int| 0 <= j < i - 1 implies (#[trigger] rest[j]).path@ != path by {
            assert(rest[j] == dirs[j + 1]);
        }
        lemma_listing_error_at(rest, path, i - 1);
    }
}

proof fn lemma_listing_error_none(dirs: Seq<DirectoryListing>, path: Seq<char>)
    requires
        forall|j: int| 0 <= j < dirs.len() ==> (#[trigger] dirs[j]).path@ != path,
    ensures
        listing_error(dirs, path) is None,
    decreases dirs.len(),
{
    if dirs.len() > 0 {
        assert(dirs[0].path@ != path);
        let rest = dirs.drop_first();
        assert forall|j: int| 0 <= j < rest.len() implies (#[trigger] rest[j]).path@ != path by {
            assert(rest[j] == dirs[j + 1]);
        }
        lemma_listing_error_none(rest, path);
    }
}

/// The text an empty tree shows: loading while a search or a directory
/// load runs, the read error of the workspace root, no match while
/// filtering, else an empty directory.
pub open spec fn empty_tree_text(t: FileTree) -> Seq<char> {
    if t.searching || t.loading@ != Set::<Seq<char>>::empty() {
        "正在加载…"@
    } else if listing_error(t.directories@, t.cwd@) is Some {
        "无法读取目录："@ + listing_error(t.directories@, t.cwd@)->0
    } else if t.query@.len() > 0 {
        "没有匹配的文件"@
    } else {
        "空目录"@
    }
}

/// The count line under filter results: capped results say so.
pub fn result_count_label(count: usize) -> (s: String)
    ensures
        s@ == (if count == 500 {
            "显示前 500 个结果"@
        } else {
            decimal(count as nat) + " 个文件"@
        }),
{
    if count == 500 {
        return to_owned_string("显示前 500 个结果");
    }
    let mut s = String::new();
    append_decimal(&mut s, count as u64);
    proof {
        assert(s@ =~= decimal(count as nat));
    }
    let t = concat2(s.as_str(), " 个文件");
    t
}

impl FileTree {
    /// The text shown when the tree has no rows (see `empty_tree_text`).
    pub fn empty_state_text(&self) -> (s: String)
        ensures
            s@ == empty_tree_text(*self),
    {
        if self.searching || !self.loading.is_empty() {
            return to_owned_string("正在加载…");
        }
        let error = match self.listing_index(self.cwd.as_str()) {
            Some(i) => {
                proof {
                    lemma_listing_error_at(self.directories@, self.cwd@, i as int);
                }
                match &self.directories[i].entries {
                    Ok(_) => None,
                    Err(e) => Some(concat2("无法读取目录：", e.as_str())),
                }
            },
            None => {
                proof {
                    lemma_listing_error_none(self.directories@, self.cwd@);
                }
                None
            },
        };
        match error {
            Some(t) => t,
            None => if self.query.unicode_len() > 0 {
                to_owned_string("没有匹配的文件")
            } else {
                to_owned_string("空目录")
            },
        }
    }
}

impl FileTree {
    fn listing_index(&self, path: &str) -> (r: Option<usize>)
        ensures
            match r {
                Some(i) => i < self.directories.len() && self.directories@[i as int].path@ == path@
                    && listing(self.directories@, path@) == match self.directories@[i as int].entries {
                    Ok(es) => Some(es@),
                    Err(_) => None,
                } && forall|j: int| 0 <= j < i ==> (#[trigger] self.directories@[j]).path@ != path@,
                None => listing(self.directories@, path@) is None && forall|j: int|
                    0 <= j < self.directories@.len() ==> (#[trigger] self.directories@[j]).path@
                        != path@,
            },
    {
        let mut i: usize = 0;
        proof {
            assert(self.directories@.subrange(0, self.directories@.len() as int)
                =~= self.directories@);
        }
        while i < self.directories.len()
            invariant
                i <= self.directories.len(),
                listing(self.directories@, path@) == listing(
                    self.directories@.subrange(i as int, self.directories@.len() as int),
                    path@,
                ),
                forall|j: int| 0 <= j < i ==> (#[trigger] self.directories@[j]).path@ != path@,
            decreases self.directories.len() - i,
        {
            let ghost rest = self.directories@.subrange(i as int, self.directories@.len() as int);
            proof {
                assert(rest[0] == self.directories@[i as int]);
                assert(rest.drop_first() =~= self.directories@.subrange(
                    i + 1,
                    self.directories@.len() as int,
                ));
            }
            if str_eq(self.directories[i].path.as_str(), path) {
                return Some(i);
            }
            i += 1;
        }
        None
    }

    fn walk_into(&self, path: &str, depth: usize, result: &mut Vec<TreeRow>)
        requires
            depth <= 65,
        ensures
            rows_view(final(result)@) == rows_view(old(result)@) + walk(
                self.directories@,
                self.expanded@,
                path@,
                depth as nat,
            ),
        decreases 65 - depth, 1int,
    {
        if depth > MAX_TREE_DEPTH {
            proof {
                assert(rows_view(result@) =~= rows_view(result@) + Seq::<RowView>::empty());
            }
            return;
        }
        let index = match self.listing_index(path) {
            Some(i) => i,
            None => {
                proof {
                    assert(rows_view(result@) =~= rows_view(result@) + Seq::<RowView>::empty());
                }
                return;
            },
        };
        let entries = match &self.directories[index].entries {
            Ok(entries) => entries,
            Err(_) => {
                proof {
                    assert(rows_view(result@) =~= rows_view(result@) + Seq::<RowView>::empty());
                }
                return;
            },
        };
        let ghost es = entries@;
        let ghost start = rows_view(result@);
        let mut i: usize = 0;
        proof {
            assert(es.take(0) =~= Seq::<FileEntry>::empty());
            assert(rows_view(result@) =~= start + Seq::<RowView>::empty());
        }
        while i < entries.len()
            invariant
                i <= entries.len(),
                depth <= 64,
                es == entries@,
                rows_view(result@) == start + walk_entries(
                    self.directories@,
                    self.expanded@,
                    es.take(i as int),
                    depth as nat,
                ),
            decreases entries.len() - i,
        {
            let entry = entries[i].copy();
            let ghost before = rows_view(result@);
            let descend = entry.directory && self.expanded.contains(entry.path.as_str());
            let sub_path = entry.path.clone();
            result.push(TreeRow { entry, depth });
            proof {
                assert(rows_view(result@) =~= before.push(entry_row(es[i as int], depth as nat)));
            }
            if descend {
                self.walk_into(sub_path.as_str(), depth + 1, result);
            }
            proof {
                let t = es.take(i + 1);
                assert(t.drop_last() =~= es.take(i as int));
                assert(t.last() == es[i as int]);
                if descend {
                    assert(rows_view(result@) =~= start + walk_entries(
                        self.directories@,
                        self.expanded@,
                        t,
                        depth as nat,
                    ));
                } else {
                    assert(rows_view(result@) =~= start + walk_entries(
                        self.directories@,
                        self.expanded@,
                        t,
                        depth as nat,
                    ));
                }
            }
            i += 1;
        }
        proof {
            assert(es.take(i as int) =~= es);
        }
    }

    /// The rows the tree shows (see `tree_rows`).
    pub fn rows(&self) -> (rows: Vec<TreeRow>)
        ensures
            rows_view(rows@) == tree_rows(*self),
    {
        let mut rows: Vec<TreeRow> = Vec::new();
        if !self.query.as_str().is_empty() {
            let mut i: usize = 0;
            while i < self.search_results.len()
                invariant
                    i <= self.search_results.len(),
                    self.query@.len() > 0,
                    rows_view(rows@) == self.search_results@.take(i as int).map_values(
                        |e: FileEntry| entry_row(e, 0),
                    ),
                decreases self.search_results.len() - i,
            {
                let ghost before = rows_view(rows@);
                rows.push(TreeRow { entry: self.search_results[i].copy(), depth: 0 });
                proof {
                    assert(self.search_results@.take(i + 1).map_values(
                        |e: FileEntry| entry_row(e, 0),
                    ) =~= self.search_results@.take(i as int).map_values(
                        |e: FileEntry| entry_row(e, 0),
                    ).push(entry_row(self.search_results@[i as int], 0)));
                    assert(rows_view(rows@) =~= before.push(
                        entry_row(self.search_results@[i as int], 0),
                    ));
                }
                i += 1;
            }
            proof {
                assert(self.search_results@.take(i as int) =~= self.search_results@);
            }
            return rows;
        }
        proof {
            assert(rows_view(rows@) =~= Seq::<RowView>::empty());
        }
        self.walk_into(self.cwd.as_str(), 0, &mut rows);
        proof {
            assert(rows_view(rows@) =~= walk(self.directories@, self.expanded@, self.cwd@, 0));
        }
        rows
    }
}

/// Calls `std::path::Path::parent` on `path`. As its documentation says,
/// the parent is the path without its final component: there is none when
/// the path is empty or ends in the root, and otherwise its components are
/// those of `path` less the last one. Its exact text is left unsaid.
#[verifier::external_body]
fn path_parent(path: &str) -> (r: Option<String>)
    ensures
        match parent_components(path@) {
            None => r is None,
            Some(c) => r matches Some(p) && path_components(p@) == c,
        },
{
    match std::path::Path::new(path).parent() {
        Some(parent) => Some(parent.to_string_lossy().into_owned()),
        None => None,
    }
}

/// What activating a tree row asks of the panel.
#[derive(Clone, Debug, PartialEq, Eq)]
pub enum RowActivation {
    /// There is no such row.
    Missing,
    /// A directory opened: its entries must be loaded.
    Expanded { path: String },
    /// A directory closed.
    Collapsed,
    /// A file row: the file must be opened.
    Open { path: String },
}

/// What a key press in the tree did.
#[derive(Clone, Debug, PartialEq, Eq)]
pub enum TreeKeyOutcome {
    /// The key is not the tree's, or the tree is empty.
    Ignored,
    /// The selection or expansion changed (or stayed) and the key is consumed.
    Handled,
    /// The selected row was activated.
    Activated(RowActivation),
    /// The filter was cleared; its input must be emptied.
    FilterCleared,
}

/// The activation's path, for the variants that carry one.
pub open spec fn activation_path(a: RowActivation) -> Option<Seq<char>> {
    match a {
        RowActivation::Expanded { path } => Some(path@),
        RowActivation::Open { path } => Some(path@),
        _ => None,
    }
}

/// What activating row `index` of `t` does and the tree's selection and
/// expansion afterwards.
pub open spec fn activated(t: FileTree, index: usize, after: FileTree, a: RowActivation) -> bool {
    let rows = tree_rows(t);
    if index >= rows.len() {
        a == RowActivation::Missing && after == t
    } else {
        let row = rows[index as int];
        &&& after.selected_row == index
        &&& after.cwd == t.cwd
        &&& after.directories == t.directories
        &&& after.loading == t.loading
        &&& after.query == t.query
        &&& after.search_results == t.search_results
        &&& after.searching == t.searching
        &&& after.open_search_when_ready == t.open_search_when_ready
        &&& after.search_generation == t.search_generation
        &&& if !row.directory {
            &&& a is Open
            &&& activation_path(a) == Some(row.path)
            &&& after.expanded == t.expanded
        } else {
            &&& after.expanded@ == toggled(t.expanded@, row.path)
            &&& if t.expanded@.contains(row.path) {
                a == RowActivation::Collapsed
            } else {
                a is Expanded && activation_path(a) == Some(row.path)
            }
        }
    }
}

impl FileTree {
    /// Activates row `index`: a directory opens or closes, a file opens.
    pub fn activate_row(&mut self, index: usize) -> (a: RowActivation)
        ensures
            activated(*old(self), index, *final(self), a),
    {
        let rows = self.rows();
        if index >= rows.len() {
            return RowActivation::Missing;
        }
        let ghost rv = rows_view(rows@);
        proof {
            assert(rv[index as int] == rows@[index as int]@);
        }
        self.selected_row = index;
        let row = &rows[index];
        if row.entry.directory {
            let opened = self.expanded.toggle(row.entry.path.as_str());
            if opened {
                RowActivation::Expanded { path: row.entry.path.clone() }
            } else {
                RowActivation::Collapsed
            }
        } else {
            RowActivation::Open { path: row.entry.path.clone() }
        }
    }

    /// Starts filtering for the current query: earlier searches become
    /// stale and the selection returns to the top. Returns the generation
    /// the search must report back with, or none for an empty query.
    pub fn search(&mut self) -> (generation: Option<u64>)
        requires
            old(self).search_generation < u64::MAX,
        ensures
            final(self).search_generation == old(self).search_generation + 1,
            !final(self).open_search_when_ready,
            final(self).search_results@.len() == 0,
            final(self).selected_row == 0,
            final(self).searching == (old(self).query@.len() > 0),
            generation == (if old(self).query@.len() > 0 {
                Some(final(self).search_generation)
            } else {
                None
            }),
            final(self).cwd == old(self).cwd,
            final(self).directories == old(self).directories,
            final(self).loading == old(self).loading,
            final(self).expanded == old(self).expanded,
            final(self).query == old(self).query,
    {
        self.search_generation = self.search_generation + 1;
        self.open_search_when_ready = false;
        self.search_results = Vec::new();
        self.selected_row = 0;
        if self.query.as_str().is_empty() {
            self.searching = false;
            return None;
        }
        self.searching = true;
        Some(self.search_generation)
    }

    /// Whether a search started as `generation` is still wanted.
    pub fn is_current_search(&self, generation: u64) -> (b: bool)
        ensures
            b == (generation == self.search_generation),
    {
        generation == self.search_generation
    }

    /// Takes the results of the search `generation`. Stale results are
    /// dropped; if Enter was pressed while searching, the selected row is
    /// activated now.
    pub fn finish_search(&mut self, generation: u64, results: Vec<FileEntry>) -> (a: Option<
        RowActivation,
    >)
        ensures
            generation != old(self).search_generation ==> *final(self) == *old(self) && a is None,
            generation == old(self).search_generation ==> {
                let ready = FileTree {
                    searching: false,
                    search_results: results,
                    open_search_when_ready: false,
                    ..*old(self)
                };
                if old(self).open_search_when_ready {
                    (a matches Some(act) && activated(
                        ready,
                        old(self).selected_row,
                        *final(self),
                        act,
                    ))
                } else {
                    *final(self) == ready && a is None
                }
            },
    {
        if generation != self.search_generation {
            return None;
        }
        self.searching = false;
        self.search_results = results;
        if self.open_search_when_ready {
            self.open_search_when_ready = false;
            let index = self.selected_row;
            Some(self.activate_row(index))
        } else {
            None
        }
    }

    /// Enter in the filter: opens the selected row, or, while a search is
    /// running, once it finishes.
    pub fn submit_filter(&mut self) -> (a: Option<RowActivation>)
        ensures
            old(self).searching ==> *final(self) == (FileTree {
                open_search_when_ready: true,
                ..*old(self)
            }) && a is None,
            !old(self).searching ==> (a matches Some(act) && activated(
                *old(self),
                old(self).selected_row,
                *final(self),
                act,
            )),
    {
        if self.searching {
            self.open_search_when_ready = true;
            None
        } else {
            let index = self.selected_row;
            Some(self.activate_row(index))
        }
    }
}

/// The index of the first row showing the path with components `path`.
pub open spec fn row_position(rows: Seq<RowView>, path: Seq<PathPart>) -> Option<int>
    decreases rows.len(),
{
    if rows.len() == 0 {
        None
    } else {
        match row_position(rows.drop_last(), path) {
            Some(i) => Some(i),
            None => if path_components(rows.last().path) == path {
                Some(rows.len() - 1)
            } else {
                None
            },
        }
    }
}

/// The selected row index, limited to the last row.
pub open spec fn clamped(selected: usize, count: nat) -> int {
    if selected < count {
        selected as int
    } else {
        count - 1
    }
}

/// The tree after a key press and what the key did: arrows move the
/// selection (a first press without focus jumps to an end), Home and End
/// jump, Enter and Space activate, Right opens a closed directory, Left
/// closes an open one or selects the parent's row, and Escape clears the
/// filter.
pub open spec fn tree_key_spec(
    t: FileTree,
    key: Key,
    focused: bool,
    after: FileTree,
    o: TreeKeyOutcome,
) -> bool {
    let rows = tree_rows(t);
    let count = rows.len();
    if count == 0 {
        after == t && o == TreeKeyOutcome::Ignored
    } else {
        let row = rows[clamped(t.selected_row, count)];
        match key {
            Key::Down => after == FileTree {
                selected_row: if !focused {
                    0
                } else if t.selected_row + 1 < count {
                    (t.selected_row + 1) as usize
                } else {
                    (count - 1) as usize
                },
                ..t
            } && o == TreeKeyOutcome::Handled,
            Key::Up => after == FileTree {
                selected_row: if !focused {
                    (count - 1) as usize
                } else if t.selected_row > 0 {
                    (t.selected_row - 1) as usize
                } else {
                    0
                },
                ..t
            } && o == TreeKeyOutcome::Handled,
            Key::Home => after == FileTree { selected_row: 0, ..t } && o == TreeKeyOutcome::Handled,
            Key::End => after == FileTree { selected_row: (count - 1) as usize, ..t } && o
                == TreeKeyOutcome::Handled,
            Key::Enter | Key::Space => (o matches TreeKeyOutcome::Activated(a) && activated(
                t,
                t.selected_row,
                after,
                a,
            )),
            Key::Right => if row.directory && !t.expanded@.contains(row.path) {
                (o matches TreeKeyOutcome::Activated(a) && activated(t, t.selected_row, after, a))
            } else {
                after == t && o == TreeKeyOutcome::Handled
            },
            Key::Left => o == TreeKeyOutcome::Handled && if t.expanded@.contains(row.path) {
                &&& after.expanded@ == t.expanded@.remove(row.path)
                &&& after == FileTree { expanded: after.expanded, ..t }
            } else {
                after == FileTree {
                    selected_row: match parent_components(row.path) {
                        Some(parent) => match row_position(rows, parent) {
                            Some(i) => i as usize,
                            None => t.selected_row,
                        },
                        None => t.selected_row,
                    },
                    ..t
                }
            },
            Key::Escape => o == TreeKeyOutcome::FilterCleared && after.query@.len() == 0 && after
                == FileTree {
                query: after.query,
                search_generation: (t.search_generation + 1) as u64,
                open_search_when_ready: false,
                search_results: after.search_results,
                selected_row: 0,
                searching: false,
                ..t
            } && after.search_results@.len() == 0,
            _ => after == t && o == TreeKeyOutcome::Ignored,
        }
    }
}

/// The first row showing the same path as `path` (compared by components).
pub fn position_of(rows: &Vec<TreeRow>, path: &str) -> (r: Option<usize>)
    ensures
        opt_usize(r) == row_position(rows_view(rows@), path_components(path@)),
{
    let ghost rv = rows_view(rows@);
    let mut i: usize = 0;
    proof {
        assert(rv.take(0) =~= Seq::<RowView>::empty());
    }
    while i < rows.len()
        invariant
            i <= rows.len(),
            rv == rows_view(rows@),
            row_position(rv.take(i as int), path_components(path@)) is None,
        decreases rows.len() - i,
    {
        proof {
            assert(rv.take(i + 1).drop_last() =~= rv.take(i as int));
            assert(rv.take(i + 1).last() == rows@[i as int]@);
        }
        if paths_equal(rows[i].entry.path.as_str(), path) {
            proof {
                lemma_row_position_prefix(rv, path_components(path@), i + 1);
            }
            return Some(i);
        }
        i += 1;
    }
    proof {
        assert(rv.take(i as int) =~= rv);
    }
    None
}

pub open spec fn opt_usize(o: Option<usize>) -> Option<int> {
    match o {
        Some(k) => Some(k as int),
        None => None,
    }
}

proof fn lemma_row_position_prefix(rows: Seq<RowView>, path: Seq<PathPart>, k: int)
    requires
        0 <= k <= rows.len(),
        row_position(rows.take(k), path) is Some,
    ensures
        row_position(rows, path) == row_position(rows.take(k), path),
    decreases rows.len() - k,
{
    if k < rows.len() {
        assert(rows.take(k + 1).drop_last() =~= rows.take(k));
        lemma_row_position_prefix(rows, path, k + 1);
    } else {
        assert(rows.take(k) =~= rows);
    }
}

impl FileTree {
    /// Handles a key press in the tree (see `tree_key_spec`); `focused`
    /// tells whether the tree already had keyboard focus.
    pub fn tree_key(&mut self, key: &str, focused: bool) -> (o: TreeKeyOutcome)
        requires
            old(self).selected_row < usize::MAX,
            old(self).search_generation < u64::MAX,
        ensures
            tree_key_spec(*old(self), key_of(key@), focused, *final(self), o),
    {
        let rows = self.rows();
        let count = rows.len();
        if count == 0 {
            return TreeKeyOutcome::Ignored;
        }
        let ghost rv = rows_view(rows@);
        let current = if self.selected_row < count {
            self.selected_row
        } else {
            count - 1
        };
        proof {
            assert(rv[current as int] == rows@[current as int]@);
        }
        match classify_key(key) {
            Key::Down => {
                self.selected_row = if !focused {
                    0
                } else if self.selected_row + 1 < count {
                    self.selected_row + 1
                } else {
                    count - 1
                };
                TreeKeyOutcome::Handled
            },
            Key::Up => {
                self.selected_row = if !focused {
                    count - 1
                } else if self.selected_row > 0 {
                    self.selected_row - 1
                } else {
                    0
                };
                TreeKeyOutcome::Handled
            },
            Key::Home => {
                self.selected_row = 0;
                TreeKeyOutcome::Handled
            },
            Key::End => {
                self.selected_row = count - 1;
                TreeKeyOutcome::Handled
            },
            Key::Enter | Key::Space => {
                let index = self.selected_row;
                TreeKeyOutcome::Activated(self.activate_row(index))
            },
            Key::Right => {
                let row = &rows[current];
                if row.entry.directory && !self.expanded.contains(row.entry.path.as_str()) {
                    let index = self.selected_row;
                    TreeKeyOutcome::Activated(self.activate_row(index))
                } else {
                    TreeKeyOutcome::Handled
                }
            },
            Key::Left => {
                let row = &rows[current];
                if self.expanded.contains(row.entry.path.as_str()) {
                    self.expanded.toggle(row.entry.path.as_str());
                } else {
                    match path_parent(row.entry.path.as_str()) {
                        Some(parent) => {
                            match position_of(&rows, parent.as_str()) {
                                Some(i) => {
                                    self.selected_row = i;
                                },
                                None => {},
                            }
                        },
                        None => {},
                    }
                }
                TreeKeyOutcome::Handled
            },
            Key::Escape => {
                self.query = String::new();
                self.search();
                TreeKeyOutcome::FilterCleared
            },
            _ => TreeKeyOutcome::Ignored,
        }
    }
}

/// `c` in lower case when it is an ASCII capital.
pub open spec fn ascii_lower(c: char) -> char {
    if 'A' <= c <= 'Z' {
        ((c as u32) + 32) as char
    } else {
        c
    }
}

/// An extension the panel shows as an image rather than as text (compared
/// without ASCII case).
pub open spec fn is_image_extension(ext: Option<Seq<char>>) -> bool {
    match ext {
        Some(e) => {
            let l = e.map_values(|c: char| ascii_lower(c));
            l == "png"@ || l == "jpg"@ || l == "jpeg"@ || l == "gif"@ || l == "webp"@ || l
                == "bmp"@
        },
        None => false,
    }
}

/// An extension whose files open with a rendered preview.
pub open spec fn is_markdown_extension(ext: Option<Seq<char>>) -> bool {
    ext == Some("md"@) || ext == Some("markdown"@)
}

/// The icon of a file row, by extension.
pub open spec fn file_icon_spec(path: Seq<char>) -> Seq<char> {
    let ext = extension(path);
    if ext == Some("rs"@) {
        "markdown-file-rust"@
    } else if ext == Some("py"@) {
        "markdown-file-python"@
    } else if ext == Some("json"@) {
        "markdown-file-json"@
    } else {
        "markdown-file-document"@
    }
}

fn lower_range(v: &Vec<char>, lo: usize, hi: usize) -> (r: Vec<char>)
    requires
        lo <= hi <= v.len(),
    ensures
        r@ == v@.subrange(lo as int, hi as int).map_values(|c: char| ascii_lower(c)),
{
    let mut r: Vec<char> = Vec::new();
    let mut i = lo;
    while i < hi
        invariant
            lo <= i <= hi <= v.len(),
            r@ == v@.subrange(lo as int, i as int).map_values(|c: char| ascii_lower(c)),
        decreases hi - i,
    {
        let c = v[i];
        let l = if 'A' <= c && c <= 'Z' {
            ((c as u32) + 32) as u8 as char
        } else {
            c
        };
        proof {
            if 'A' <= c <= 'Z' {
                assert(((c as u32) + 32) as u8 as char == ((c as u32) + 32) as char);
            }
            assert(v@.subrange(lo as int, i + 1).map_values(|c: char| ascii_lower(c))
                =~= v@.subrange(lo as int, i as int).map_values(|c: char| ascii_lower(c)).push(
                ascii_lower(c),
            ));
        }
        r.push(l);
        i += 1;
    }
    r
}

fn vec_is(v: &Vec<char>, lo: usize, hi: usize, s: &str) -> (b: bool)
    requires
        lo <= hi <= v.len(),
    ensures
        b == (v@.subrange(lo as int, hi as int) == s@),
{
    let sv = chars_of(s);
    if sv.len() != hi - lo {
        return false;
    }
    let mut i: usize = 0;
    while i < sv.len()
        invariant
            sv@ == s@,
            sv.len() == hi - lo,
            lo <= hi <= v.len(),
            i <= sv.len(),
            forall|j: int| 0 <= j < i ==> v@[lo + j] == #[trigger] sv@[j],
        decreases sv.len() - i,
    {
        if v[lo + i] != sv[i] {
            proof {
                assert(v@.subrange(lo as int, hi as int)[i as int] == v@[lo + i]);
            }
            return false;
        }
        i += 1;
    }
    proof {
        assert(v@.subrange(lo as int, hi as int) =~= sv@);
    }
    true
}

/// The icon name of a file row.
pub fn file_icon(path: &str) -> (icon: &'static str)
    ensures
        icon@ == file_icon_spec(path@),
{
    let v = chars_of(path);
    match extension_range(&v) {
        Some((lo, hi)) => if vec_is(&v, lo, hi, "rs") {
            "markdown-file-rust"
        } else if vec_is(&v, lo, hi, "py") {
            "markdown-file-python"
        } else if vec_is(&v, lo, hi, "json") {
            "markdown-file-json"
        } else {
            "markdown-file-document"
        },
        None => "markdown-file-document",
    }
}

/// Whether `path` names an image (see `is_image_extension`).
pub fn is_image_path(path: &str) -> (b: bool)
    ensures
        b == is_image_extension(extension(path@)),
{
    let v = chars_of(path);
    match extension_range(&v) {
        Some((lo, hi)) => {
            let l = lower_range(&v, lo, hi);
            let n = l.len();
            proof {
                assert(l@.subrange(0, n as int) =~= l@);
            }
            vec_is(&l, 0, n, "png") || vec_is(&l, 0, n, "jpg") || vec_is(&l, 0, n, "jpeg")
                || vec_is(&l, 0, n, "gif") || vec_is(&l, 0, n, "webp") || vec_is(&l, 0, n, "bmp")
        },
        None => false,
    }
}

/// Whether `path` opens with a rendered preview.
pub fn is_markdown_path(path: &str) -> (b: bool)
    ensures
        b == is_markdown_extension(extension(path@)),
{
    let v = chars_of(path);
    match extension_range(&v) {
        Some((lo, hi)) => vec_is(&v, lo, hi, "md") || vec_is(&v, lo, hi, "markdown"),
        None => false,
    }
}

/// An open document: its file, the editor's text and the last saved text
/// (both once loaded), and its loading and saving state.
#[derive(Clone, Debug, PartialEq, Eq)]
pub struct DocumentState {
    pub id: u64,
    pub path: String,
    pub buffer_text: Option<String>,
    pub saved_text: Option<String>,
    pub error: Option<String>,
    pub loading: bool,
    pub saving: bool,
    pub revision: u64,
    pub image: bool,
    pub preview: bool,
}

impl DocumentState {
    /// The editor holds edits the file does not.
    pub open spec fn is_dirty(self) -> bool {
        match (self.buffer_text, self.saved_text) {
            (Some(b), Some(s)) => b@ != s@,
            _ => false,
        }
    }

    /// Whether the editor holds unsaved edits.
    pub fn dirty(&self) -> (b: bool)
        ensures
            b == self.is_dirty(),
    {
        match (&self.buffer_text, &self.saved_text) {
            (Some(b), Some(s)) => !str_eq(b.as_str(), s.as_str()),
            _ => false,
        }
    }

    /// The save status shown in the toolbar: saving, unsaved edits, or
    /// nothing.
    pub fn save_status(&self) -> (t: &'static str)
        ensures
            t@ == (if self.saving {
                "保存中…"@
            } else if self.is_dirty() {
                "未保存"@
            } else {
                ""@
            }),
    {
        if self.saving {
            "保存中…"
        } else if self.dirty() {
            "未保存"
        } else {
            ""
        }
    }
}

/// The documents open in the panel, the active one, the next id to give
/// out, and the document waiting to close once saved.
pub struct Documents {
    pub documents: Vec<DocumentState>,
    pub active: Option<u64>,
    pub next_id: u64,
    pub pending_close: Option<u64>,
}

/// How opening a path went.
#[derive(Clone, Copy, Debug, PartialEq, Eq, Structural)]
pub enum OpenOutcome {
    /// The file was already open; it became active.
    Focused { id: u64 },
    /// A new document was added; `load` tells whether its text must be read.
    Opened { id: u64, load: bool },
}

/// What closing a document did.
#[derive(Clone, Copy, Debug, PartialEq, Eq, Structural)]
pub enum CloseOutcome {
    /// It had unsaved edits or a save in flight: it closes after saving.
    SaveFirst,
    /// It was removed (or was not open).
    Removed,
}

/// What a finished save asks for next.
#[derive(Clone, Copy, Debug, PartialEq, Eq, Structural)]
pub enum SaveFollowUp {
    Nothing,
    /// Edits arrived during the save: save again.
    ScheduleSave,
    /// The document waited for this save to close, and now has.
    Closed,
}

/// The file a path opens: itself when absolute, else joined to the
/// workspace root.
pub open spec fn workspace_path(cwd: Seq<char>, path: Seq<char>) -> Seq<char> {
    if is_absolute(path) {
        path
    } else {
        join_path(cwd, path)
    }
}

/// Index of the first document whose path equals `path` (by components).
pub open spec fn doc_with_path(docs: Seq<DocumentState>, path: Seq<char>) -> Option<int>
    decreases docs.len(),
{
    if docs.len() == 0 {
        None
    } else {
        match doc_with_path(docs.drop_last(), path) {
            Some(i) => Some(i),
            None => if same_path(docs.last().path@, path) {
                Some(docs.len() - 1)
            } else {
                None
            },
        }
    }
}

/// Index of the first document with `id`.
pub open spec fn doc_with_id(docs: Seq<DocumentState>, id: u64) -> Option<int>
    decreases docs.len(),
{
    if docs.len() == 0 {
        None
    } else {
        match doc_with_id(docs.drop_last(), id) {
            Some(i) => Some(i),
            None => if docs.last().id == id {
                Some(docs.len() - 1)
            } else {
                None
            },
        }
    }
}

proof fn lemma_doc_with_path(docs: Seq<DocumentState>, path: Seq<char>)
    ensures
        doc_with_path(docs, path) matches Some(i) ==> 0 <= i < docs.len() && same_path(
            docs[i].path@,
            path,
        ),
    decreases docs.len(),
{
    if docs.len() > 0 {
        lemma_doc_with_path(docs.drop_last(), path);
        if let Some(i) = doc_with_path(docs.drop_last(), path) {
            assert(docs[i] == docs.drop_last()[i]);
        }
    }
}

proof fn lemma_doc_with_id(docs: Seq<DocumentState>, id: u64)
    ensures
        doc_with_id(docs, id) matches Some(i) ==> 0 <= i < docs.len() && docs[i].id == id,
    decreases docs.len(),
{
    if docs.len() > 0 {
        lemma_doc_with_id(docs.drop_last(), id);
        if let Some(i) = doc_with_id(docs.drop_last(), id) {
            assert(docs[i] == docs.drop_last()[i]);
        }
    }
}

/// The active document after removing the one at `index`: if it was the
/// active one, the document now at that position (or the last one).
pub open spec fn active_after_removal(
    docs: Seq<DocumentState>,
    index: int,
    active: Option<u64>,
    id: u64,
) -> Option<u64> {
    let rest = docs.remove(index);
    if active == Some(id) {
        if rest.len() == 0 {
            None
        } else if index < rest.len() {
            Some(rest[index].id)
        } else {
            Some(rest[rest.len() - 1].id)
        }
    } else {
        active
    }
}

/// A document after an edit: the new text, one revision on.
pub open spec fn edited(d: DocumentState, text: String) -> DocumentState {
    DocumentState { buffer_text: Some(text), revision: (d.revision + 1) as u64, ..d }
}

/// Whether a save delayed at `revision` of document `id` is still due: the
/// document is at that revision and shows no error.
pub open spec fn save_is_due(docs: Seq<DocumentState>, id: u64, revision: u64) -> bool {
    exists|i: int|
        0 <= i < docs.len() && (#[trigger] docs[i]).id == id && docs[i].revision == revision
            && docs[i].error is None
}

/// Autosave waits for a pause in typing: the save delayed at the revision an
/// edit produced is due while no further edit comes (and no error shows),
/// and any further edit of the document makes it stale.
pub proof fn lemma_later_edit_cancels_save(
    docs: Seq<DocumentState>,
    i: int,
    first: String,
    second: String,
)
    requires
        0 <= i < docs.len(),
        docs[i].error is None,
        docs[i].revision + 2 <= u64::MAX,
        forall|j: int| 0 <= j < docs.len() && j != i ==> (#[trigger] docs[j]).id != docs[i].id,
    ensures
        ({
            let d = docs[i];
            let once = docs.update(i, edited(d, first));
            let twice = once.update(i, edited(once[i], second));
            &&& save_is_due(once, d.id, (d.revision + 1) as u64)
            &&& !save_is_due(twice, d.id, (d.revision + 1) as u64)
            &&& save_is_due(twice, d.id, (d.revision + 2) as u64)
        }),
{
    let d = docs[i];
    let once = docs.update(i, edited(d, first));
    let twice = once.update(i, edited(once[i], second));
    assert(once[i].id == d.id);
    assert(twice[i].id == d.id);
    assert forall|j: int|
        0 <= j < twice.len() && (#[trigger] twice[j]).id == d.id implies j == i by {
        if j != i {
            assert(twice[j] == docs[j]);
        }
    }
}

impl Documents {
    fn path_index(&self, path: &str) -> (r: Option<usize>)
        ensures
            opt_usize(r) == doc_with_path(self.documents@, path@),
    {
        let ghost d = self.documents@;
        let mut i: usize = 0;
        proof {
            assert(d.take(0) =~= Seq::<DocumentState>::empty());
        }
        while i < self.documents.len()
            invariant
                i <= self.documents.len(),
                d == self.documents@,
                doc_with_path(d.take(i as int), path@) is None,
            decreases self.documents.len() - i,
        {
            proof {
                assert(d.take(i + 1).drop_last() =~= d.take(i as int));
            }
            if paths_equal(self.documents[i].path.as_str(), path) {
                proof {
                    lemma_doc_path_prefix(d, path@, i + 1);
                }
                return Some(i);
            }
            i += 1;
        }
        proof {
            assert(d.take(i as int) =~= d);
        }
        None
    }

    fn id_index(&self, id: u64) -> (r: Option<usize>)
        ensures
            opt_usize(r) == doc_with_id(self.documents@, id),
    {
        let ghost d = self.documents@;
        let mut i: usize = 0;
        proof {
            assert(d.take(0) =~= Seq::<DocumentState>::empty());
        }
        while i < self.documents.len()
            invariant
                i <= self.documents.len(),
                d == self.documents@,
                doc_with_id(d.take(i as int), id) is None,
            decreases self.documents.len() - i,
        {
            proof {
                assert(d.take(i + 1).drop_last() =~= d.take(i as int));
            }
            if self.documents[i].id == id {
                proof {
                    lemma_doc_id_prefix(d, id, i + 1);
                }
                return Some(i);
            }
            i += 1;
        }
        proof {
            assert(d.take(i as int) =~= d);
        }
        None
    }

    /// Opens `path` (relative paths are taken from the workspace root
    /// `cwd`): an already open file becomes active; otherwise a new
    /// document is added and made active, loading its text unless it is an
    /// image.
    pub fn open_path(&mut self, cwd: &str, path: &str) -> (o: OpenOutcome)
        requires
            old(self).next_id < u64::MAX,
        ensures
            active_is_open(final(self).documents@, final(self).active),
            ({
                let full = workspace_path(cwd@, path@);
                match doc_with_path(old(self).documents@, full) {
                    Some(i) => {
                        &&& final(self).documents == old(self).documents
                        &&& final(self).active == Some(old(self).documents@[i].id)
                        &&& final(self).next_id == old(self).next_id
                        &&& final(self).pending_close == old(self).pending_close
                        &&& o == (OpenOutcome::Focused { id: old(self).documents@[i].id })
                    },
                    None => {
                        let d = final(self).documents@.last();
                        let image = is_image_extension(extension(full));
                        &&& final(self).documents@.len() == old(self).documents@.len() + 1
                        &&& final(self).documents@.drop_last() == old(self).documents@
                        &&& d.id == old(self).next_id
                        &&& d.path@ == full
                        &&& d.image == image
                        &&& d.preview == is_markdown_extension(extension(full))
                        &&& d.loading == !image
                        &&& !d.saving
                        &&& d.buffer_text is None
                        &&& d.saved_text is None
                        &&& d.error is None
                        &&& d.revision == 0
                        &&& final(self).next_id == old(self).next_id + 1
                        &&& final(self).active == Some(old(self).next_id)
                        &&& final(self).pending_close == old(self).pending_close
                        &&& o == (OpenOutcome::Opened { id: old(self).next_id, load: !image })
                    },
                }
            }),
    {
        let v = chars_of(path);
        let full = if v.len() > 0 && v[0] == '/' {
            to_owned_string(path)
        } else {
            join_path_exec(cwd, path)
        };
        match self.path_index(full.as_str()) {
            Some(i) => {
                proof {
                    lemma_doc_with_path(self.documents@, full@);
                }
                let id = self.documents[i].id;
                self.active = Some(id);
                OpenOutcome::Focused { id }
            },
            None => {
                let id = self.next_id;
                self.next_id = self.next_id + 1;
                self.active = Some(id);
                let image = is_image_path(full.as_str());
                let preview = is_markdown_path(full.as_str());
                let ghost before = self.documents@;
                self.documents.push(
                    DocumentState {
                        id,
                        path: full,
                        buffer_text: None,
                        saved_text: None,
                        error: None,
                        loading: !image,
                        saving: false,
                        revision: 0,
                        image,
                        preview,
                    },
                );
                proof {
                    assert(self.documents@.drop_last() =~= before);
                }
                OpenOutcome::Opened { id, load: !image }
            },
        }
    }

    /// Closes document `id` at once; if it was active, the document now
    /// at its position (or the last one) becomes active.
    pub fn remove_document(&mut self, id: u64)
        ensures
            match doc_with_id(old(self).documents@, id) {
                None => final(self).documents == old(self).documents && final(self).active == old(
                    self,
                ).active && final(self).pending_close == old(self).pending_close,
                Some(i) => {
                    &&& final(self).documents@ == old(self).documents@.remove(i)
                    &&& final(self).active == active_after_removal(
                        old(self).documents@,
                        i,
                        old(self).active,
                        id,
                    )
                    &&& final(self).pending_close == (if old(self).pending_close == Some(id) {
                        None
                    } else {
                        old(self).pending_close
                    })
                },
            },
            final(self).next_id == old(self).next_id,
            active_is_open(old(self).documents@, old(self).active) ==> active_is_open(
                final(self).documents@,
                final(self).active,
            ),
    {
        let index = match self.id_index(id) {
            Some(i) => i,
            None => {
                return ;
            },
        };
        proof {
            lemma_doc_with_id(self.documents@, id);
            if active_is_open(self.documents@, self.active) {
                lemma_removal_keeps_active_open(self.documents@, index as int, self.active, id);
            }
        }
        self.documents.remove(index);
        if self.active == Some(id) {
            let n = self.documents.len();
            self.active = if n == 0 {
                None
            } else if index < n {
                Some(self.documents[index].id)
            } else {
                Some(self.documents[n - 1].id)
            };
        }
        if self.pending_close == Some(id) {
            self.pending_close = None;
        }
    }

    /// Asks to close document `id`: with unsaved edits or a save in flight
    /// it is marked to close after saving; otherwise it is removed now.
    pub fn request_close(&mut self, id: u64) -> (o: CloseOutcome)
        ensures
            active_is_open(old(self).documents@, old(self).active) ==> active_is_open(
                final(self).documents@,
                final(self).active,
            ),
            match doc_with_id(old(self).documents@, id) {
                Some(i) => if old(self).documents@[i].is_dirty() || old(
                    self,
                ).documents@[i].saving {
                    &&& o == CloseOutcome::SaveFirst
                    &&& final(self).documents == old(self).documents
                    &&& final(self).active == old(self).active
                    &&& final(self).next_id == old(self).next_id
                    &&& final(self).pending_close == Some(id)
                } else {
                    &&& o == CloseOutcome::Removed
                    &&& final(self).documents@ == old(self).documents@.remove(i)
                    &&& final(self).active == active_after_removal(
                        old(self).documents@,
                        i,
                        old(self).active,
                        id,
                    )
                    &&& final(self).pending_close == (if old(self).pending_close == Some(id) {
                        None
                    } else {
                        old(self).pending_close
                    })
                },
                None => o == CloseOutcome::Removed && final(self).documents == old(
                    self,
                ).documents && final(self).active == old(self).active && final(self).pending_close
                    == old(self).pending_close,
            },
    {
        match self.id_index(id) {
            Some(i) => {
                proof {
                    lemma_doc_with_id(self.documents@, id);
                }
                if self.documents[i].dirty() || self.documents[i].saving {
                    self.pending_close = Some(id);
                    return CloseOutcome::SaveFirst;
                }
            },
            None => {},
        }
        self.remove_document(id);
        CloseOutcome::Removed
    }

    /// The document whose close waits on the user: the one waiting to
    /// close, once its save failed and no save is running.
    pub fn close_prompt(&self) -> (r: Option<u64>)
        ensures
            r == (match self.pending_close {
                Some(id) => match doc_with_id(self.documents@, id) {
                    Some(i) => if self.documents@[i].error is Some && !self.documents@[i].saving {
                        Some(id)
                    } else {
                        None
                    },
                    None => None,
                },
                None => None,
            }),
    {
        match self.pending_close {
            Some(id) => match self.id_index(id) {
                Some(i) => {
                    proof {
                        lemma_doc_with_id(self.documents@, id);
                    }
                    if self.documents[i].error.is_some() && !self.documents[i].saving {
                        Some(id)
                    } else {
                        None
                    }
                },
                None => None,
            },
            None => None,
        }
    }

    /// Whether some document has unsaved edits or a save in flight.
    pub fn has_unsaved(&self) -> (b: bool)
        ensures
            b == exists|i: int|
                0 <= i < self.documents@.len() && ((#[trigger] self.documents@[i]).is_dirty()
                    || self.documents@[i].saving),
    {
        let mut i: usize = 0;
        while i < self.documents.len()
            invariant
                i <= self.documents.len(),
                forall|j: int|
                    0 <= j < i ==> !(#[trigger] self.documents@[j]).is_dirty()
                        && !self.documents@[j].saving,
            decreases self.documents.len() - i,
        {
            if self.documents[i].dirty() || self.documents[i].saving {
                return true;
            }
            i += 1;
        }
        false
    }
}

proof fn lemma_doc_path_prefix(docs: Seq<DocumentState>, path: Seq<char>, k: int)
    requires
        0 <= k <= docs.len(),
        doc_with_path(docs.take(k), path) is Some,
    ensures
        doc_with_path(docs, path) == doc_with_path(docs.take(k), path),
    decreases docs.len() - k,
{
    if k < docs.len() {
        assert(docs.take(k + 1).drop_last() =~= docs.take(k));
        lemma_doc_path_prefix(docs, path, k + 1);
    } else {
        assert(docs.take(k) =~= docs);
    }
}

proof fn lemma_doc_id_prefix(docs: Seq<DocumentState>, id: u64, k: int)
    requires
        0 <= k <= docs.len(),
        doc_with_id(docs.take(k), id) is Some,
    ensures
        doc_with_id(docs, id) == doc_with_id(docs.take(k), id),
    decreases docs.len() - k,
{
    if k < docs.len() {
        assert(docs.take(k + 1).drop_last() =~= docs.take(k));
        lemma_doc_id_prefix(docs, id, k + 1);
    } else {
        assert(docs.take(k) =~= docs);
    }
}

impl Documents {
    fn take_document(&mut self, index: usize) -> (d: DocumentState)
        requires
            index < old(self).documents.len(),
        ensures
            d == old(self).documents@[index as int],
            final(self).documents@ == old(self).documents@.update(
                index as int,
                final(self).documents@[index as int],
            ),
            final(self).active == old(self).active,
            final(self).next_id == old(self).next_id,
            final(self).pending_close == old(self).pending_close,
    {
        let mut d = DocumentState {
            id: 0,
            path: String::new(),
            buffer_text: None,
            saved_text: None,
            error: None,
            loading: false,
            saving: false,
            revision: 0,
            image: false,
            preview: false,
        };
        self.documents.set_and_swap(index, &mut d);
        d
    }

    /// The editor of document `id` changed to `text`; returns the new
    /// revision, which a delayed save must still find (see `save_due`).
    pub fn record_edit(&mut self, id: u64, text: String) -> (revision: Option<u64>)
        requires
            doc_with_id(old(self).documents@, id) matches Some(i) ==> old(
                self,
            ).documents@[i].revision < u64::MAX,
        ensures
            final(self).active == old(self).active,
            final(self).next_id == old(self).next_id,
            final(self).pending_close == old(self).pending_close,
            match doc_with_id(old(self).documents@, id) {
                None => final(self).documents == old(self).documents && revision is None,
                Some(i) => {
                    let d = old(self).documents@[i];
                    &&& final(self).documents@ == old(self).documents@.update(i, edited(d, text))
                    &&& revision == Some((d.revision + 1) as u64)
                },
            },
    {
        let index = match self.id_index(id) {
            Some(i) => i,
            None => {
                return None;
            },
        };
        proof {
            lemma_doc_with_id(self.documents@, id);
        }
        let ghost before = self.documents@;
        let mut d = self.take_document(index);
        d.buffer_text = Some(text);
        d.revision = d.revision + 1;
        let revision = d.revision;
        self.documents.set(index, d);
        proof {
            assert(self.documents@ =~= before.update(index as int, self.documents@[index as int]));
        }
        Some(revision)
    }

    /// Whether a save delayed at `revision` of document `id` is still due:
    /// no edit came since and the document shows no error.
    pub fn save_due(&self, id: u64, revision: u64) -> (b: bool)
        ensures
            b == save_is_due(self.documents@, id, revision),
    {
        let mut i: usize = 0;
        while i < self.documents.len()
            invariant
                i <= self.documents.len(),
                forall|j: int|
                    0 <= j < i ==> !((#[trigger] self.documents@[j]).id == id
                        && self.documents@[j].revision == revision
                        && self.documents@[j].error is None),
            decreases self.documents.len() - i,
        {
            let d = &self.documents[i];
            if d.id == id && d.revision == revision && d.error.is_none() {
                return true;
            }
            i += 1;
        }
        false
    }

    /// Starts saving document `id` unless a save is running, nothing is
    /// unsaved, or the editor is composing input: marks it saving and
    /// returns the text to write.
    pub fn begin_save(&mut self, id: u64, composing: bool) -> (text: Option<String>)
        ensures
            final(self).active == old(self).active,
            final(self).next_id == old(self).next_id,
            final(self).pending_close == old(self).pending_close,
            match doc_with_id(old(self).documents@, id) {
                Some(i) if !old(self).documents@[i].saving && old(self).documents@[i].is_dirty()
                    && !composing => {
                    let d = old(self).documents@[i];
                    &&& final(self).documents@ == old(self).documents@.update(
                        i,
                        DocumentState { saving: true, ..d },
                    )
                    &&& opt_string(text) == opt_string(d.buffer_text)
                },
                _ => final(self).documents == old(self).documents && text is None,
            },
    {
        let index = match self.id_index(id) {
            Some(i) => i,
            None => {
                return None;
            },
        };
        proof {
            lemma_doc_with_id(self.documents@, id);
        }
        if self.documents[index].saving || !self.documents[index].dirty() || composing {
            return None;
        }
        let ghost before = self.documents@;
        let mut d = self.take_document(index);
        let text = match &d.buffer_text {
            Some(t) => Some(t.clone()),
            None => None,
        };
        d.saving = true;
        self.documents.set(index, d);
        proof {
            assert(self.documents@ =~= before.update(index as int, self.documents@[index as int]));
        }
        text
    }

    /// Records how saving document `id` went: on success the written text
    /// becomes the saved text, and the document is saved again if edits
    /// arrived meanwhile, or closed if it was waiting to close.
    pub fn finish_save(&mut self, id: u64, result: Result<String, String>) -> (next: SaveFollowUp)
        ensures
            active_is_open(old(self).documents@, old(self).active) ==> active_is_open(
                final(self).documents@,
                final(self).active,
            ),
            final(self).next_id == old(self).next_id,
            match doc_with_id(old(self).documents@, id) {
                None => final(self).documents == old(self).documents && final(self).active == old(
                    self,
                ).active && final(self).pending_close == old(self).pending_close && next
                    == SaveFollowUp::Nothing,
                Some(i) => {
                    let d = old(self).documents@[i];
                    match result {
                        Err(e) => {
                            &&& final(self).documents@ == old(self).documents@.update(
                                i,
                                DocumentState { saving: false, error: Some(e), ..d },
                            )
                            &&& final(self).active == old(self).active
                            &&& final(self).pending_close == old(self).pending_close
                            &&& next == SaveFollowUp::Nothing
                        },
                        Ok(t) => {
                            let saved = DocumentState {
                                saving: false,
                                saved_text: Some(t),
                                error: None,
                                ..d
                            };
                            let docs = old(self).documents@.update(i, saved);
                            if saved.is_dirty() {
                                &&& final(self).documents@ == docs
                                &&& final(self).active == old(self).active
                                &&& final(self).pending_close == old(self).pending_close
                                &&& next == SaveFollowUp::ScheduleSave
                            } else if old(self).pending_close == Some(id) {
                                &&& final(self).documents@ == docs.remove(i)
                                &&& final(self).active == active_after_removal(
                                    docs,
                                    i,
                                    old(self).active,
                                    id,
                                )
                                &&& final(self).pending_close is None
                                &&& next == SaveFollowUp::Closed
                            } else {
                                &&& final(self).documents@ == docs
                                &&& final(self).active == old(self).active
                                &&& final(self).pending_close == old(self).pending_close
                                &&& next == SaveFollowUp::Nothing
                            }
                        },
                    }
                },
            },
    {
        let index = match self.id_index(id) {
            Some(i) => i,
            None => {
                return SaveFollowUp::Nothing;
            },
        };
        proof {
            lemma_doc_with_id(self.documents@, id);
        }
        let ghost before = self.documents@;
        let mut d = self.take_document(index);
        d.saving = false;
        match result {
            Ok(text) => {
                d.saved_text = Some(text);
                d.error = None;
                let dirty = d.dirty();
                self.documents.set(index, d);
                proof {
                    assert(self.documents@ =~= before.update(
                        index as int,
                        self.documents@[index as int],
                    ));
                    if active_is_open(before, self.active) {
                        lemma_update_keeps_active_open(
                            before,
                            index as int,
                            self.documents@[index as int],
                            self.active,
                        );
                    }
                }
                if dirty {
                    SaveFollowUp::ScheduleSave
                } else if self.pending_close == Some(id) {
                    proof {
                        lemma_doc_with_id_update(
                            before,
                            index as int,
                            self.documents@[index as int],
                            id,
                        );
                    }
                    self.remove_document(id);
                    SaveFollowUp::Closed
                } else {
                    SaveFollowUp::Nothing
                }
            },
            Err(error) => {
                d.error = Some(error);
                self.documents.set(index, d);
                proof {
                    assert(self.documents@ =~= before.update(
                        index as int,
                        self.documents@[index as int],
                    ));
                    if active_is_open(before, self.active) {
                        lemma_update_keeps_active_open(
                            before,
                            index as int,
                            self.documents@[index as int],
                            self.active,
                        );
                    }
                }
                SaveFollowUp::Nothing
            },
        }
    }

    /// Records how reading document `id` went; on success the editor and
    /// the saved text start from the file's text and the editor takes
    /// focus (the result tells whether it should).
    pub fn finish_load(&mut self, id: u64, result: Result<String, String>) -> (focus_editor: bool)
        ensures
            final(self).active == old(self).active,
            final(self).next_id == old(self).next_id,
            final(self).pending_close == old(self).pending_close,
            match doc_with_id(old(self).documents@, id) {
                None => final(self).documents == old(self).documents && !focus_editor,
                Some(i) => {
                    let d = old(self).documents@[i];
                    match result {
                        Ok(t) => final(self).documents@ == old(self).documents@.update(
                            i,
                            DocumentState {
                                loading: false,
                                saved_text: Some(t),
                                buffer_text: Some(t),
                                ..d
                            },
                        ) && focus_editor,
                        Err(e) => final(self).documents@ == old(self).documents@.update(
                            i,
                            DocumentState { loading: false, error: Some(e), ..d },
                        ) && !focus_editor,
                    }
                },
            },
    {
        let index = match self.id_index(id) {
            Some(i) => i,
            None => {
                return false;
            },
        };
        proof {
            lemma_doc_with_id(self.documents@, id);
        }
        let ghost before = self.documents@;
        let mut d = self.take_document(index);
        d.loading = false;
        let focus = match result {
            Ok(text) => {
                d.buffer_text = Some(text.clone());
                d.saved_text = Some(text);
                true
            },
            Err(error) => {
                d.error = Some(error);
                false
            },
        };
        self.documents.set(index, d);
        proof {
            assert(self.documents@ =~= before.update(index as int, self.documents@[index as int]));
        }
        focus
    }
}

/// Replacing a document by one with the same id keeps where each id is
/// first found.
proof fn lemma_doc_with_id_update(s: Seq<DocumentState>, k: int, x: DocumentState, id: u64)
    requires
        0 <= k < s.len(),
        s[k].id == x.id,
    ensures
        doc_with_id(s.update(k, x), id) == doc_with_id(s, id),
    decreases s.len(),
{
    let u = s.update(k, x);
    if k < s.len() - 1 {
        assert(u.drop_last() =~= s.drop_last().update(k, x));
        lemma_doc_with_id_update(s.drop_last(), k, x, id);
        assert(u.last() == s.last());
    } else {
        assert(u.drop_last() =~= s.drop_last());
        assert(u.last() == x);
    }
}

impl Documents {
    /// The active document's id, path and revision when it may be
    /// refreshed from disk: loaded, not saving, without unsaved edits or an
    /// error, and with the editor not composing input.
    pub fn refresh_target(&self, composing: bool) -> (r: Option<(u64, String, u64)>)
        ensures
            match self.active {
                None => r is None,
                Some(active) => match doc_with_id(self.documents@, active) {
                    None => r is None,
                    Some(i) => {
                        let d = self.documents@[i];
                        if d.loading || d.saving || d.is_dirty() || d.error is Some || composing
                            || d.saved_text is None {
                            r is None
                        } else {
                            r matches Some((id, path, revision)) && id == d.id && path@ == d.path@
                                && revision == d.revision
                        }
                    },
                },
            },
    {
        let active = match self.active {
            Some(a) => a,
            None => {
                return None;
            },
        };
        let index = match self.id_index(active) {
            Some(i) => i,
            None => {
                return None;
            },
        };
        proof {
            lemma_doc_with_id(self.documents@, active);
        }
        let d = &self.documents[index];
        if d.loading || d.saving || d.dirty() || d.error.is_some() || composing
            || d.saved_text.is_none() {
            return None;
        }
        Some((d.id, d.path.clone(), d.revision))
    }

    /// Takes the file's text read for a refresh at `revision`. The read is
    /// ignored if the document changed, is saving or holds edits since;
    /// a changed file replaces the editor's text; a failed read is shown.
    /// Returns whether anything changed.
    pub fn finish_refresh(
        &mut self,
        id: u64,
        revision: u64,
        result: Result<String, String>,
    ) -> (changed: bool)
        ensures
            final(self).active == old(self).active,
            final(self).next_id == old(self).next_id,
            final(self).pending_close == old(self).pending_close,
            match doc_with_id(old(self).documents@, id) {
                None => final(self).documents == old(self).documents && !changed,
                Some(i) => {
                    let d = old(self).documents@[i];
                    if d.revision != revision || d.saving || d.is_dirty() {
                        final(self).documents == old(self).documents && !changed
                    } else {
                        match result {
                            Ok(t) => if d.saved_text is Some && d.saved_text->0@ != t@ {
                                final(self).documents@ == old(self).documents@.update(
                                    i,
                                    DocumentState {
                                        buffer_text: if d.buffer_text is Some {
                                            Some(t)
                                        } else {
                                            None
                                        },
                                        saved_text: Some(t),
                                        ..d
                                    },
                                ) && changed
                            } else {
                                final(self).documents == old(self).documents && !changed
                            },
                            Err(e) => final(self).documents@ == old(self).documents@.update(
                                i,
                                DocumentState { error: Some(e), ..d },
                            ) && changed,
                        }
                    }
                },
            },
    {
        let index = match self.id_index(id) {
            Some(i) => i,
            None => {
                return false;
            },
        };
        proof {
            lemma_doc_with_id(self.documents@, id);
        }
        {
            let d = &self.documents[index];
            if d.revision != revision || d.saving || d.dirty() {
                return false;
            }
        }
        match result {
            Ok(text) => {
                let differs = match &self.documents[index].saved_text {
                    Some(saved) => !str_eq(saved.as_str(), text.as_str()),
                    None => false,
                };
                if !differs {
                    return false;
                }
                let ghost before = self.documents@;
                let mut d = self.take_document(index);
                if d.buffer_text.is_some() {
                    d.buffer_text = Some(text.clone());
                }
                d.saved_text = Some(text);
                self.documents.set(index, d);
                proof {
                    assert(self.documents@ =~= before.update(
                        index as int,
                        self.documents@[index as int],
                    ));
                }
                true
            },
            Err(error) => {
                let ghost before = self.documents@;
                let mut d = self.take_document(index);
                d.error = Some(error);
                self.documents.set(index, d);
                proof {
                    assert(self.documents@ =~= before.update(
                        index as int,
                        self.documents@[index as int],
                    ));
                }
                true
            },
        }
    }
}

impl FileTree {
    /// A tree rooted at the workspace `cwd`, with the root open and
    /// nothing loaded yet.
    pub fn new(cwd: &str) -> (t: Self)
        ensures
            t.cwd@ == cwd@,
            t.directories@.len() == 0,
            t.loading@ == Set::<Seq<char>>::empty(),
            t.expanded@ == Set::<Seq<char>>::empty().insert(cwd@),
            t.query@.len() == 0,
            t.search_results@.len() == 0,
            !t.searching,
            !t.open_search_when_ready,
            t.search_generation == 0,
            t.selected_row == 0,
    {
        let mut expanded = DisclosureSet::new();
        expanded.toggle(cwd);
        FileTree {
            cwd: to_owned_string(cwd),
            directories: Vec::new(),
            loading: DisclosureSet::new(),
            expanded,
            query: String::new(),
            search_results: Vec::new(),
            searching: false,
            open_search_when_ready: false,
            search_generation: 0,
            selected_row: 0,
        }
    }

    /// Marks `path` as being read; false if a read of it is already
    /// running (then no new one starts).
    pub fn begin_loading(&mut self, path: &str) -> (start: bool)
        ensures
            start == !old(self).loading@.contains(path@),
            final(self).loading@ == old(self).loading@.insert(path@),
            final(self).directories == old(self).directories,
            final(self).expanded == old(self).expanded,
    {
        if self.loading.contains(path) {
            proof {
                assert(self.loading@.insert(path@) =~= self.loading@);
            }
            return false;
        }
        self.loading.toggle(path);
        true
    }

    /// Stores what reading `path` gave, replacing an earlier listing.
    pub fn finish_loading(&mut self, path: &str, entries: Result<Vec<FileEntry>, String>)
        ensures
            final(self).loading@ == old(self).loading@.remove(path@),
            final(self).expanded == old(self).expanded,
            listing(final(self).directories@, path@) == match entries {
                Ok(es) => Some(es@),
                Err(_) => None,
            },
            forall|p: Seq<char>|
                p != path@ ==> #[trigger] listing(final(self).directories@, p) == listing(
                    old(self).directories@,
                    p,
                ),
    {
        if self.loading.contains(path) {
            self.loading.toggle(path);
        } else {
            proof {
                assert(self.loading@.remove(path@) =~= self.loading@);
            }
        }
        let listing_value = DirectoryListing { path: to_owned_string(path), entries };
        let ghost old_dirs = self.directories@;
        match self.listing_index(path) {
            Some(i) => {
                self.directories.set(i, listing_value);
                proof {
                    lemma_listing_update(old_dirs, i as int, self.directories@[i as int]);
                }
            },
            None => {
                self.directories.push(listing_value);
                proof {
                    lemma_listing_push(old_dirs, self.directories@.last());
                }
            },
        }
    }
}

/// Replacing the listing at `k` by one for the same path changes what
/// that path lists and nothing else.
proof fn lemma_listing_update(dirs: Seq<DirectoryListing>, k: int, x: DirectoryListing)
    requires
        0 <= k < dirs.len(),
        dirs[k].path@ == x.path@,
        listing(dirs, x.path@) == match dirs[k].entries {
            Ok(es) => Some(es@),
            Err(_) => None,
        },
        forall|j: int| 0 <= j < k ==> (#[trigger] dirs[j]).path@ != x.path@,
    ensures
        listing(dirs.update(k, x), x.path@) == match x.entries {
            Ok(es) => Some(es@),
            Err(_) => None,
        },
        forall|p: Seq<char>| p != x.path@ ==> #[trigger] listing(dirs.update(k, x), p) == listing(dirs, p),
    decreases dirs.len(),
{
    let u = dirs.update(k, x);
    if k > 0 {
        assert(u.drop_first() =~= dirs.drop_first().update(k - 1, x));
        assert forall|j: int| 0 <= j < k - 1 implies (#[trigger] dirs.drop_first()[j]).path@ != x.path@ by {
            assert(dirs.drop_first()[j] == dirs[j + 1]);
        }
        assert(dirs[0].path@ != x.path@);
        assert(dirs.drop_first()[k - 1] == dirs[k]);
        lemma_listing_update(dirs.drop_first(), k - 1, x);
        assert(u[0] == dirs[0]);
        assert forall|p: Seq<char>| p != x.path@ implies #[trigger] listing(u, p) == listing(dirs, p) by {
            if dirs[0].path@ != p {
                assert(listing(u.drop_first(), p) == listing(dirs.drop_first(), p));
            }
        }
    } else {
        assert(u.drop_first() =~= dirs.drop_first());
        assert(u[0] == x);
        assert forall|p: Seq<char>| p != x.path@ implies #[trigger] listing(u, p) == listing(dirs, p) by {
            assert(listing(u, p) == listing(u.drop_first(), p));
            assert(listing(dirs, p) == listing(dirs.drop_first(), p));
        }
    }
}

/// Appending a listing for a path not listed yet makes it that path's
/// listing and changes nothing else.
proof fn lemma_listing_push(dirs: Seq<DirectoryListing>, x: DirectoryListing)
    requires
        listing(dirs, x.path@) is None,
        forall|j: int| 0 <= j < dirs.len() ==> (#[trigger] dirs[j]).path@ != x.path@,
    ensures
        listing(dirs.push(x), x.path@) == match x.entries {
            Ok(es) => Some(es@),
            Err(_) => None,
        },
        forall|p: Seq<char>| p != x.path@ ==> #[trigger] listing(dirs.push(x), p) == listing(dirs, p),
    decreases dirs.len(),
{
    let u = dirs.push(x);
    if dirs.len() > 0 {
        assert(u.drop_first() =~= dirs.drop_first().push(x));
        assert forall|j: int| 0 <= j < dirs.drop_first().len() implies (#[trigger] dirs.drop_first()[j]).path@ != x.path@ by {
            assert(dirs.drop_first()[j] == dirs[j + 1]);
        }
        assert(dirs[0].path@ != x.path@);
        lemma_listing_push(dirs.drop_first(), x);
        assert(u[0] == dirs[0]);
        assert forall|p: Seq<char>| p != x.path@ implies #[trigger] listing(u, p) == listing(dirs, p) by {
            if dirs[0].path@ != p {
                assert(listing(u.drop_first(), p) == listing(dirs.drop_first(), p));
            }
        }
    } else {
        assert(u.drop_first() =~= Seq::<DirectoryListing>::empty());
        assert(u[0] == x);
        assert forall|p: Seq<char>| p != x.path@ implies #[trigger] listing(u, p) == listing(dirs, p) by {
            assert(listing(u, p) == listing(u.drop_first(), p));
        }
    }
}

proof fn lemma_walk_depths(
    dirs: Seq<DirectoryListing>,
    expanded: Set<Seq<char>>,
    path: Seq<char>,
    depth: nat,
)
    ensures
        forall|i: int|
            0 <= i < walk(dirs, expanded, path, depth).len() ==> depth <= (#[trigger] walk(
                dirs,
                expanded,
                path,
                depth,
            )[i]).depth <= 64,
    decreases 65 - depth, 1int, 0nat,
{
    if depth <= 64 {
        if let Some(entries) = listing(dirs, path) {
            lemma_walk_entries_depths(dirs, expanded, entries, depth);
            assert(walk(dirs, expanded, path, depth) == walk_entries(
                dirs,
                expanded,
                entries,
                depth,
            ));
        }
    }
}

proof fn lemma_walk_entries_depths(
    dirs: Seq<DirectoryListing>,
    expanded: Set<Seq<char>>,
    entries: Seq<FileEntry>,
    depth: nat,
)
    ensures
        forall|i: int|
            0 <= i < walk_entries(dirs, expanded, entries, depth).len() ==> depth <= (
            #[trigger] walk_entries(dirs, expanded, entries, depth)[i]).depth <= 64,
    decreases 65 - depth, 0int, entries.len(),
{
    if entries.len() > 0 && depth <= 64 {
        let e = entries.last();
        let head = walk_entries(dirs, expanded, entries.drop_last(), depth);
        lemma_walk_entries_depths(dirs, expanded, entries.drop_last(), depth);
        let sub = if e.directory && expanded.contains(e.path@) {
            walk(dirs, expanded, e.path@, depth + 1)
        } else {
            seq![]
        };
        if e.directory && expanded.contains(e.path@) {
            lemma_walk_depths(dirs, expanded, e.path@, depth + 1);
        }
        let all = walk_entries(dirs, expanded, entries, depth);
        assert(all == head + seq![entry_row(e, depth)] + sub);
        assert forall|i: int| 0 <= i < all.len() implies depth <= (#[trigger] all[i]).depth <= 64 by {
            if i < head.len() {
                assert(all[i] == head[i]);
            } else if i == head.len() {
                assert(all[i] == entry_row(e, depth));
            } else {
                assert(all[i] == sub[i - head.len() - 1]);
            }
        }
    }
}

/// The tree never shows a row nested deeper than the deepest level.
pub proof fn lemma_tree_rows_stay_shallow(t: FileTree)
    ensures
        forall|i: int| 0 <= i < tree_rows(t).len() ==> (#[trigger] tree_rows(t)[i]).depth <= 64,
{
    if t.query@.len() == 0 {
        lemma_walk_depths(t.directories@, t.expanded@, t.cwd@, 0);
    }
}

/// The active document, if any, is one of the open documents.
pub open spec fn active_is_open(docs: Seq<DocumentState>, active: Option<u64>) -> bool {
    match active {
        None => true,
        Some(a) => exists|j: int| 0 <= j < docs.len() && (#[trigger] docs[j]).id == a,
    }
}

/// Closing a document keeps the active one among the open documents.
pub proof fn lemma_removal_keeps_active_open(
    docs: Seq<DocumentState>,
    index: int,
    active: Option<u64>,
    id: u64,
)
    requires
        0 <= index < docs.len(),
        docs[index].id == id,
        active_is_open(docs, active),
    ensures
        active_is_open(docs.remove(index), active_after_removal(docs, index, active, id)),
{
    let rest = docs.remove(index);
    if active == Some(id) {
        if rest.len() > 0 {
            if index < rest.len() {
                assert(rest[index].id == rest[index].id);
            } else {
                assert(rest[rest.len() - 1].id == rest[rest.len() - 1].id);
            }
        }
    } else if let Some(a) = active {
        let j = choose|j: int| 0 <= j < docs.len() && (#[trigger] docs[j]).id == a;
        assert(j != index);
        if j < index {
            assert(rest[j] == docs[j]);
        } else {
            assert(rest[j - 1] == docs[j]);
        }
    }
}

/// Replacing a document by one with the same id keeps the active one open.
pub proof fn lemma_update_keeps_active_open(
    docs: Seq<DocumentState>,
    index: int,
    x: DocumentState,
    active: Option<u64>,
)
    requires
        0 <= index < docs.len(),
        docs[index].id == x.id,
        active_is_open(docs, active),
    ensures
        active_is_open(docs.update(index, x), active),
{
    if let Some(a) = active {
        let j = choose|j: int| 0 <= j < docs.len() && (#[trigger] docs[j]).id == a;
        assert(docs.update(index, x)[j].id == a);
    }
}

/// With the tree focused, the arrow keys move the selection by one row:
/// Up from row k > 0 selects row k - 1 and Down from row k below the last
/// selects row k + 1; at the ends the selection stays. Home and End select
/// the first and last rows. Nothing else about the tree changes.
pub proof fn lemma_arrows_move_one_row(
    t: FileTree,
    key: Key,
    after: FileTree,
    o: TreeKeyOutcome,
)
    requires
        tree_key_spec(t, key, true, after, o),
        0 < tree_rows(t).len() <= usize::MAX,
        (t.selected_row as int) < tree_rows(t).len(),
        key == Key::Up || key == Key::Down || key == Key::Home || key == Key::End,
    ensures
        o == TreeKeyOutcome::Handled,
        after == (FileTree { selected_row: after.selected_row, ..t }),
        key == Key::Up ==> after.selected_row == (if t.selected_row > 0 {
            t.selected_row - 1
        } else {
            0
        }),
        key == Key::Down ==> after.selected_row == (if t.selected_row + 1 < tree_rows(t).len() {
            t.selected_row + 1
        } else {
            t.selected_row as int
        }),
        key == Key::Home ==> after.selected_row == 0,
        key == Key::End ==> after.selected_row == tree_rows(t).len() - 1,
{
}

/// Without focus, the first Down selects the first row and the first Up
/// the last one.
pub proof fn lemma_first_arrow_jumps_to_an_end(
    t: FileTree,
    key: Key,
    after: FileTree,
    o: TreeKeyOutcome,
)
    requires
        tree_key_spec(t, key, false, after, o),
        0 < tree_rows(t).len() <= usize::MAX,
        key == Key::Up || key == Key::Down,
    ensures
        o == TreeKeyOutcome::Handled,
        after == (FileTree { selected_row: after.selected_row, ..t }),
        key == Key::Down ==> after.selected_row == 0,
        key == Key::Up ==> after.selected_row == tree_rows(t).len() - 1,
{
}

} // verus!
