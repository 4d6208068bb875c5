//! The state of a file panel: the directory it shows, the entries the last
//! listing brought, the rows on screen, and the decisions taken on them
//! (navigation, selection by mask, quick jump, renaming, deleting, the
//! status line).
use vstd::prelude::*;
use crate::paths::{path_string, strings_view, build_path_string, path_parts, split_path};
use crate::text::{
    chars_of, string_from_chars, str_eq, starts_with, ends_with, contains_seq, lowercase, to_lowercase,
    char_lowercase, char_to_lowercase, has_prefix, has_suffix, contains_chars, trim, trim_chars,
};

verus! {

// ---------------------------------------------------------------------------
// Rows
// ---------------------------------------------------------------------------

/// How a row stores its permission bits: `u32::MAX` stands for none.
pub open spec fn encode_permissions(p: Option<u32>) -> u32 {
    match p {
        Some(v) => v,
        None => 0xffff_ffff,
    }
}

/// The permission bits a stored value stands for.
pub open spec fn decode_permissions(raw: u32) -> Option<u32> {
    if raw == 0xffff_ffff { None } else { Some(raw) }
}

/// One row of the file list.
pub struct FileEntry {
    pub name: String,
    pub path: String,
    pub is_dir: bool,
    pub size: u64,
    pub date: String,
    pub permissions_raw: u32,
}

/// What a row shows.
pub struct RowView {
    pub name: Seq<char>,
    pub path: Seq<char>,
    pub is_dir: bool,
    pub size: u64,
    pub date: Seq<char>,
    pub permissions: Option<u32>,
}

impl View for FileEntry {
    type V = RowView;

    open spec fn view(&self) -> RowView {
        RowView {
            name: self.name@,
            path: self.path@,
            is_dir: self.is_dir,
            size: self.size,
            date: self.date@,
            permissions: decode_permissions(self.permissions_raw),
        }
    }
}

impl FileEntry {
    /// A row with these fields.
    pub fn new(name: &str, path: &str, is_dir: bool, size: u64, date: &str, permissions: Option<u32>) -> (res: FileEntry)
        ensures
            res.name@ == name@,
            res.path@ == path@,
            res.is_dir == is_dir,
            res.size == size,
            res.date@ == date@,
            res.permissions_raw == encode_permissions(permissions),
    {
        let raw = match permissions {
            Some(v) => v,
            None => 0xffff_ffff,
        };
        FileEntry {
            name: name.to_owned(),
            path: path.to_owned(),
            is_dir,
            size,
            date: date.to_owned(),
            permissions_raw: raw,
        }
    }

    /// The permission bits of the row, if it has any.
    pub fn permissions(&self) -> (res: Option<u32>)
        ensures
            res == decode_permissions(self.permissions_raw),
    {
        if self.permissions_raw == 0xffff_ffff { None } else { Some(self.permissions_raw) }
    }

    /// Replaces the permission bits of the row.
    pub fn set_permissions(&mut self, permissions: Option<u32>)
        ensures
            final(self).permissions_raw == encode_permissions(permissions),
            final(self).name == old(self).name,
            final(self).path == old(self).path,
            final(self).is_dir == old(self).is_dir,
            final(self).size == old(self).size,
            final(self).date == old(self).date,
    {
        self.permissions_raw = match permissions {
            Some(v) => v,
            None => 0xffff_ffff,
        };
    }
}

/// A row keeps the permission bits it was made with, unless they are
/// `u32::MAX`, which stands for none.
pub proof fn lemma_permissions_round_trip(p: Option<u32>)
    requires
        p != Some(0xffff_ffffu32),
    ensures
        decode_permissions(encode_permissions(p)) == p,
{
}

/// One entry of a directory listing as the panel keeps it.
pub struct CachedEntry {
    pub name: String,
    pub is_dir: bool,
    pub size: u64,
    pub date: String,
    pub permissions: Option<u32>,
}

/// The path of `name` inside the directory with components `parts`.
pub open spec fn child_path(parts: Seq<Seq<char>>, name: Seq<char>) -> Seq<char> {
    path_string(parts.push(name))
}

/// The path a listing row points to: the parent directory for `..`, else
/// the entry inside the current directory.
pub open spec fn row_path(parts: Seq<Seq<char>>, name: Seq<char>) -> Seq<char> {
    if name == ".."@ {
        path_string(if parts.len() > 0 { parts.drop_last() } else { parts })
    } else {
        child_path(parts, name)
    }
}

/// The row of a cached entry, pointing to `path` (its permission bits
/// stored as rows store them).
pub open spec fn entry_row(e: CachedEntry, path: Seq<char>) -> RowView {
    RowView {
        name: e.name@,
        path,
        is_dir: e.is_dir,
        size: e.size,
        date: e.date@,
        permissions: decode_permissions(encode_permissions(e.permissions)),
    }
}

/// The `..` row shown in list mode below the root.
pub open spec fn parent_row(parts: Seq<Seq<char>>) -> RowView {
    RowView {
        name: ".."@,
        path: row_path(parts, ".."@),
        is_dir: true,
        size: 0,
        date: Seq::empty(),
        permissions: None,
    }
}

/// The text of each string of a vector of strings.
pub open spec fn names_of(v: Seq<String>) -> Seq<Seq<char>> {
    strings_view(v)
}

// ---------------------------------------------------------------------------
// The panel
// ---------------------------------------------------------------------------

/// What a panel shows and remembers.
pub struct Panel {
    pub panel_id: String,
    pub current_path: Vec<String>,
    pub root_path: String,
    pub entries: Vec<CachedEntry>,
    pub rows: Vec<FileEntry>,
    pub selected: Vec<(String, bool)>,
    pub editing_name: Option<String>,
    pub select_name: Option<String>,
    pub is_root: bool,
    pub loading: bool,
    pub error_message: Option<String>,
    pub show_hidden: bool,
    pub hides_dot_files: bool,
    pub icon_size: u32,
}

/// The components of the current directory.
pub open spec fn parts_of(p: &Panel) -> Seq<Seq<char>> {
    strings_view(p.current_path@)
}

/// An entry is left out of the list: a dot file while hidden files are not
/// shown, on systems where dot files are hidden.
pub open spec fn skipped(p: &Panel, name: Seq<char>) -> bool {
    !p.show_hidden && p.hides_dot_files && starts_with(name, "."@)
}

/// The list is shown as a detailed list (icon size 30) rather than a grid.
pub open spec fn list_mode(p: &Panel) -> bool {
    p.icon_size == 30
}

/// The rows of the entries that are not left out, each pointing to
/// `row_path`.
pub open spec fn listing_entries(p: &Panel, es: Seq<CachedEntry>) -> Seq<RowView>
    decreases es.len(),
{
    if es.len() == 0 {
        Seq::empty()
    } else {
        let prev = listing_entries(p, es.drop_last());
        let e = es.last();
        if skipped(p, e.name@) { prev } else { prev.push(entry_row(e, row_path(parts_of(p), e.name@))) }
    }
}

/// The rows a listing is rendered into: `..` first in list mode below the
/// root, then the entries that are not left out.
pub open spec fn listing_rows(p: &Panel) -> Seq<RowView> {
    let head = if !p.is_root && list_mode(p) { seq![parent_row(parts_of(p))] } else { Seq::empty() };
    head + listing_entries(p, p.entries@)
}

/// The rows of the entries matching a filter: entries not left out whose
/// lowercase name holds the lowercase query (every one for an empty
/// query), each pointing inside the current directory.
pub open spec fn filtered_rows(p: &Panel, es: Seq<CachedEntry>, query: Seq<char>) -> Seq<RowView>
    decreases es.len(),
{
    if es.len() == 0 {
        Seq::empty()
    } else {
        let prev = filtered_rows(p, es.drop_last(), query);
        let e = es.last();
        if !skipped(p, e.name@) && (query.len() == 0 || contains_seq(lowercase(e.name@), lowercase(query))) {
            prev.push(entry_row(e, child_path(parts_of(p), e.name@)))
        } else {
            prev
        }
    }
}

/// The views of the rows of a panel.
pub open spec fn rows_view(rows: Seq<FileEntry>) -> Seq<RowView> {
    rows.map_values(|r: FileEntry| r@)
}

/// The position of the first row with this name, or the first row.
pub open spec fn select_position(rows: Seq<RowView>, want: Option<Seq<char>>) -> int {
    match want {
        Some(w) => if exists|i: int| 0 <= i < rows.len() && rows[i].name == w {
            choose|i: int| 0 <= i < rows.len() && rows[i].name == w && forall|k: int| 0 <= k < i ==> rows[k].name != w
        } else {
            0
        },
        None => 0,
    }
}

/// The segment the listing left when it moved up: the component of the old
/// path right below the new one, when the new path is a strict prefix of
/// the old.
pub open spec fn exited_segment(old: Seq<Seq<char>>, new: Seq<Seq<char>>) -> Option<Seq<char>> {
    if old.len() > new.len() && old.take(new.len() as int) == new { Some(old[new.len() as int]) } else { None }
}

/// Whether the listing is at (or above) the panel's root: below the root
/// the path extends the root's components; elsewhere only the empty path
/// counts as the root.
pub open spec fn at_root(parts: Seq<Seq<char>>, root_parts: Seq<Seq<char>>) -> bool {
    if parts.len() >= root_parts.len() && parts.take(root_parts.len() as int) == root_parts {
        parts.len() <= root_parts.len()
    } else {
        parts.len() == 0
    }
}

/// The text of an optional string.
pub open spec fn opt_view(o: Option<String>) -> Option<Seq<char>> {
    match o {
        Some(s) => Some(s@),
        None => None,
    }
}

/// What a panel does on a new listing of `path`.
pub open spec fn after_listing(before: &Panel, after: &Panel, path: Seq<char>, entries: Seq<CachedEntry>, select_name: Option<Seq<char>>) -> bool {
    let parts = path_parts(path);
    &&& parts_of(after) == parts
    &&& after.entries@ == entries
    &&& opt_view(after.select_name) == (match select_name {
            Some(n) => Some(n),
            None => exited_segment(parts_of(before), parts),
        })
    &&& after.is_root == at_root(parts, path_parts(before.root_path@))
    &&& after.error_message is None
    &&& !after.loading
    &&& after.editing_name is None
    &&& after.rows == before.rows
    &&& after.root_path == before.root_path
    &&& after.panel_id == before.panel_id
    &&& after.show_hidden == before.show_hidden
    &&& after.hides_dot_files == before.hides_dot_files
    &&& after.icon_size == before.icon_size
}

fn strings_equal(a: &Vec<String>, b: &Vec<String>, n: usize) -> (res: bool)
    requires
        n <= a.len(),
        n <= b.len(),
    ensures
        res == (strings_view(a@).take(n as int) == strings_view(b@).take(n as int)),
{
    let mut i: usize = 0;
    while i < n
        invariant
            i <= n <= a.len(),
            n <= b.len(),
            strings_view(a@).take(i as int) == strings_view(b@).take(i as int),
        decreases n - i,
    {
        if !str_eq(a[i].as_str(), b[i].as_str()) {
            assert(strings_view(a@).take(n as int)[i as int] != strings_view(b@).take(n as int)[i as int]);
            return false;
        }
        assert(strings_view(a@).take(i + 1) =~= strings_view(a@).take(i as int).push(a@[i as int]@));
        assert(strings_view(b@).take(i + 1) =~= strings_view(b@).take(i as int).push(b@[i as int]@));
        i += 1;
    }
    true
}

/// The position of the first row with this name, if any.
pub fn find_row(rows: &Vec<FileEntry>, name: &str) -> (res: Option<usize>)
    ensures
        match res {
            Some(k) => k < rows@.len() && rows@[k as int].name@ == name@
                && forall|j: int| 0 <= j < k ==> rows@[j].name@ != name@,
            None => forall|j: int| 0 <= j < rows@.len() ==> rows@[j].name@ != name@,
        },
        select_position(rows_view(rows@), Some(name@)) == (match res { Some(k) => k as int, None => 0 }),
        first_row_named(rows_view(rows@), name@) == (match res { Some(k) => Some(k as int), None => None::<int> }),
{
    let ghost rv = rows_view(rows@);
    let mut k: usize = 0;
    while k < rows.len()
        invariant
            k <= rows@.len(),
            rv == rows_view(rows@),
            forall|j: int| 0 <= j < k ==> rows@[j].name@ != name@,
        decreases rows.len() - k,
    {
        if str_eq(rows[k].name.as_str(), name) {
            proof {
                assert(rv[k as int].name == name@);
                let c = choose|c: int| 0 <= c < rv.len() && rv[c].name == name@ && forall|j: int| 0 <= j < c ==> rv[j].name != name@;
                if c < k {
                    assert(rv[c].name == rows@[c].name@);
                } else if c > k {
                }
            }
            return Some(k);
        }
        k += 1;
    }
    assert forall|j: int| 0 <= j < rv.len() implies rv[j].name != name@ by {
        assert(rv[j].name == rows@[j].name@);
    }
    None
}

impl Panel {
    /// A panel showing nothing yet, at the filesystem root.
    pub fn new(panel_id: &str, show_hidden: bool, hides_dot_files: bool, icon_size: u32) -> (res: Panel)
        ensures
            res.panel_id@ == panel_id@,
            res.current_path@.len() == 0,
            res.root_path@ == "/"@,
            res.entries@.len() == 0,
            res.rows@.len() == 0,
            res.selected@.len() == 0,
            res.editing_name is None,
            res.select_name is None,
            res.is_root,
            !res.loading,
            res.error_message is None,
            res.show_hidden == show_hidden,
            res.hides_dot_files == hides_dot_files,
            res.icon_size == icon_size,
    {
        Panel {
            panel_id: panel_id.to_owned(),
            current_path: Vec::new(),
            root_path: "/".to_owned(),
            entries: Vec::new(),
            rows: Vec::new(),
            selected: Vec::new(),
            editing_name: None,
            select_name: None,
            is_root: true,
            loading: false,
            error_message: None,
            show_hidden,
            hides_dot_files,
            icon_size,
        }
    }

    /// Takes a new listing of `path`: remembers its components and entries,
    /// the name to select (the one asked for, else the directory the
    /// listing came up from), and whether it is the root.
    pub fn on_listing(&mut self, path: &str, entries: Vec<CachedEntry>, select_name: Option<String>)
        ensures
            after_listing(old(self), final(self), path@, entries@, opt_view(select_name)),
    {
        let parts = split_path(path);
        let exited: Option<String> = if self.current_path.len() > parts.len()
            && strings_equal(&self.current_path, &parts, parts.len()) {
            Some(self.current_path[parts.len()].clone())
        } else {
            None
        };
        let root_parts = split_path(self.root_path.as_str());
        let is_root = if parts.len() >= root_parts.len() && strings_equal(&parts, &root_parts, root_parts.len()) {
            parts.len() <= root_parts.len()
        } else {
            parts.len() == 0
        };
        proof {
            let pv = strings_view(parts@);
            assert(pv.take(parts@.len() as int) =~= pv);
            let rv = strings_view(root_parts@);
            assert(rv.take(root_parts@.len() as int) =~= rv);
            assert(pv == path_parts(path@));
            assert(rv == path_parts(self.root_path@));
            if self.current_path@.len() > parts@.len() {
                assert(parts_of(self)[parts@.len() as int] == self.current_path@[parts@.len() as int]@);
            }
        }
        self.editing_name = None;
        self.select_name = match select_name {
            Some(n) => Some(n),
            None => exited,
        };
        self.current_path = parts;
        self.entries = entries;
        self.is_root = is_root;
        self.error_message = None;
        self.loading = false;
    }

    /// A listing is on its way: the panel empties and shows it is loading.
    pub fn on_loading(&mut self)
        ensures
            final(self).editing_name is None,
            final(self).rows@.len() == 0,
            final(self).entries@.len() == 0,
            final(self).error_message is None,
            final(self).loading,
            final(self).current_path == old(self).current_path,
            final(self).root_path == old(self).root_path,
    {
        self.editing_name = None;
        self.rows = Vec::new();
        self.entries = Vec::new();
        self.error_message = None;
        self.loading = true;
    }

    /// A listing failed: the panel shows the message.
    pub fn on_load_failed(&mut self, message: String)
        ensures
            !final(self).loading,
            opt_view(final(self).error_message) == Some(message@),
            final(self).rows == old(self).rows,
            final(self).entries == old(self).entries,
            final(self).current_path == old(self).current_path,
    {
        self.loading = false;
        self.error_message = Some(message);
    }

    /// Whether an entry is left out of the list.
    pub fn should_skip_entry(&self, name: &str) -> (res: bool)
        ensures
            res == skipped(self, name@),
    {
        let cs = chars_of(name);
        let dot = chars_of(".");
        !self.show_hidden && self.hides_dot_files && has_prefix(cs.as_slice(), dot.as_slice())
    }

    /// The row of a cached entry.
    fn make_row(&self, e: &CachedEntry, path: &str) -> (res: FileEntry)
        ensures
            res@ == entry_row(*e, path@),
    {
        FileEntry::new(e.name.as_str(), path, e.is_dir, e.size, e.date.as_str(), e.permissions)
    }

    /// The path a listing row for `name` points to.
    pub fn row_path(&self, name: &str) -> (res: String)
        ensures
            res@ == row_path(parts_of(self), name@),
    {
        proof { reveal_strlit(".."); }
        let mut full: Vec<String> = Vec::new();
        let mut i: usize = 0;
        let n = self.current_path.len();
        let is_parent = str_eq(name, "..");
        let keep = if is_parent { if n > 0 { n - 1 } else { 0 } } else { n };
        while i < keep
            invariant
                i <= keep <= n,
                n == self.current_path@.len(),
                strings_view(full@) == parts_of(self).take(i as int),
            decreases keep - i,
        {
            let ghost before = strings_view(full@);
            let s = self.current_path[i].clone();
            full.push(s);
            assert(strings_view(full@) =~= before.push(s@));
            assert(parts_of(self).take(i + 1) =~= parts_of(self).take(i as int).push(self.current_path@[i as int]@));
            i += 1;
        }
        if !is_parent {
            let ghost before = strings_view(full@);
            full.push(name.to_owned());
            assert(strings_view(full@) =~= before.push(name@));
            assert(parts_of(self).take(n as int) =~= parts_of(self));
        } else {
            if n > 0 {
                assert(parts_of(self).take(keep as int) =~= parts_of(self).drop_last());
            } else {
                assert(parts_of(self).take(0) =~= parts_of(self));
            }
        }
        build_path_string(full.as_slice())
    }

    /// The path of `name` inside the current directory.
    pub fn child_path(&self, name: &str) -> (res: String)
        ensures
            res@ == child_path(parts_of(self), name@),
    {
        let mut full: Vec<String> = Vec::new();
        let mut i: usize = 0;
        while i < self.current_path.len()
            invariant
                i <= self.current_path@.len(),
                strings_view(full@) == parts_of(self).take(i as int),
            decreases self.current_path.len() - i,
        {
            let ghost before = strings_view(full@);
            let s = self.current_path[i].clone();
            full.push(s);
            assert(strings_view(full@) =~= before.push(s@));
            assert(parts_of(self).take(i + 1) =~= parts_of(self).take(i as int).push(self.current_path@[i as int]@));
            i += 1;
        }
        let ghost before = strings_view(full@);
        full.push(name.to_owned());
        assert(strings_view(full@) =~= before.push(name@));
        assert(parts_of(self).take(self.current_path@.len() as int) =~= parts_of(self));
        build_path_string(full.as_slice())
    }

    /// The display path of the current directory.
    pub fn current_path_string(&self) -> (res: String)
        ensures
            res@ == path_string(parts_of(self)),
    {
        build_path_string(self.current_path.as_slice())
    }

    /// Renders the last listing into rows and gives the position to select:
    /// the first row with the remembered name, else the first row.
    pub fn render(&mut self) -> (res: usize)
        ensures
            rows_view(final(self).rows@) == listing_rows(old(self)),
            res as int == select_position(listing_rows(old(self)), opt_view(old(self).select_name)),
            final(self).entries == old(self).entries,
            final(self).current_path == old(self).current_path,
            final(self).select_name == old(self).select_name,
            final(self).is_root == old(self).is_root,
            final(self).icon_size == old(self).icon_size,
            final(self).show_hidden == old(self).show_hidden,
            final(self).hides_dot_files == old(self).hides_dot_files,
            final(self).panel_id == old(self).panel_id,
            final(self).root_path == old(self).root_path,
            final(self).editing_name == old(self).editing_name,
    {
        let mut rows: Vec<FileEntry> = Vec::new();
        if !self.is_root && self.icon_size == 30 {
            proof {
                reveal_strlit("");
                reveal_strlit("..");
            }
            let p = self.row_path("..");
            let r = FileEntry::new("..", p.as_str(), true, 0, "", None);
            assert(r@.name == ".."@);
            assert(r@.date == Seq::<char>::empty());
            assert(r@.permissions is None);
            assert(r@ == parent_row(parts_of(self)));
            rows.push(r);
            assert(rows_view(rows@) =~= seq![parent_row(parts_of(self))]);
        } else {
            assert(rows_view(rows@) =~= Seq::<RowView>::empty());
        }
        let ghost head = rows_view(rows@);
        let mut i: usize = 0;
        assert(self.entries@.take(0) =~= Seq::<CachedEntry>::empty());
        while i < self.entries.len()
            invariant
                i <= self.entries@.len(),
                rows_view(rows@) == head + listing_entries(self, self.entries@.take(i as int)),
            decreases self.entries.len() - i,
        {
            let e = &self.entries[i];
            assert(self.entries@.take(i + 1).drop_last() =~= self.entries@.take(i as int));
            if !self.should_skip_entry(e.name.as_str()) {
                let p = self.row_path(e.name.as_str());
                let r = self.make_row(e, p.as_str());
                let ghost before = rows_view(rows@);
                rows.push(r);
                assert(rows_view(rows@) =~= before.push(r@));
            }
            i += 1;
        }
        assert(self.entries@.take(self.entries@.len() as int) =~= self.entries@);
        let pos: usize = match &self.select_name {
            Some(w) => match find_row(&rows, w.as_str()) {
                Some(k) => k,
                None => 0,
            },
            None => 0,
        };
        self.rows = rows;
        pos
    }

    /// Rebuilds the rows from the entries that match a filter.
    pub fn filter(&mut self, query: &str)
        ensures
            rows_view(final(self).rows@) == filtered_rows(old(self), old(self).entries@, query@),
            final(self).entries == old(self).entries,
            final(self).current_path == old(self).current_path,
            final(self).select_name == old(self).select_name,
            final(self).is_root == old(self).is_root,
            final(self).icon_size == old(self).icon_size,
            final(self).show_hidden == old(self).show_hidden,
            final(self).hides_dot_files == old(self).hides_dot_files,
    {
        let q = to_lowercase(query);
        let qc = chars_of(q.as_str());
        let query_chars = chars_of(query);
        let empty_query = query_chars.len() == 0;
        let mut rows: Vec<FileEntry> = Vec::new();
        let mut i: usize = 0;
        assert(self.entries@.take(0) =~= Seq::<CachedEntry>::empty());
        assert(rows_view(rows@) =~= Seq::<RowView>::empty());
        while i < self.entries.len()
            invariant
                i <= self.entries@.len(),
                qc@ == lowercase(query@),
                empty_query == (query@.len() == 0),
                rows_view(rows@) == filtered_rows(self, self.entries@.take(i as int), query@),
            decreases self.entries.len() - i,
        {
            let e = &self.entries[i];
            assert(self.entries@.take(i + 1).drop_last() =~= self.entries@.take(i as int));
            if !self.should_skip_entry(e.name.as_str()) {
                let keep = if empty_query {
                    true
                } else {
                    let ln = to_lowercase(e.name.as_str());
                    let lc = chars_of(ln.as_str());
                    contains_chars(lc.as_slice(), qc.as_slice())
                };
                if keep {
                    let p = self.child_path(e.name.as_str());
                    let r = self.make_row(e, p.as_str());
                    let ghost before = rows_view(rows@);
                    rows.push(r);
                    assert(rows_view(rows@) =~= before.push(r@));
                }
            }
            i += 1;
        }
        assert(self.entries@.take(self.entries@.len() as int) =~= self.entries@);
        self.rows = rows;
    }
}


// ---------------------------------------------------------------------------
// Editing the rows in place
// ---------------------------------------------------------------------------

/// Where a new row goes: right after the last folder row.
pub open spec fn insert_position(rows: Seq<RowView>) -> int {
    if exists|i: int| 0 <= i < rows.len() && rows[i].is_dir {
        1 + choose|i: int| 0 <= i < rows.len() && rows[i].is_dir && forall|k: int| i < k < rows.len() ==> !rows[k].is_dir
    } else {
        0
    }
}

/// The text of each name of a list of names.
pub open spec fn name_set(names: Seq<String>) -> Seq<Seq<char>> {
    strings_view(names)
}

/// The entries whose names are not among `names`.
pub open spec fn entries_without(es: Seq<CachedEntry>, names: Seq<Seq<char>>) -> Seq<CachedEntry> {
    es.filter(|e: CachedEntry| !names.contains(e.name@))
}

/// The rows whose names are not among `names`.
pub open spec fn rows_without(rows: Seq<RowView>, names: Seq<Seq<char>>) -> Seq<RowView> {
    rows.filter(|r: RowView| !names.contains(r.name))
}

/// Whether `name` is one of `names`.
fn contains_name(names: &[String], name: &str) -> (res: bool)
    ensures
        res == name_set(names@).contains(name@),
{
    let mut i: usize = 0;
    while i < names.len()
        invariant
            i <= names.len(),
            forall|k: int| 0 <= k < i ==> names@[k]@ != name@,
        decreases names.len() - i,
    {
        if str_eq(names[i].as_str(), name) {
            assert(name_set(names@)[i as int] == name@);
            return true;
        }
        i += 1;
    }
    assert forall|k: int| 0 <= k < name_set(names@).len() implies name_set(names@)[k] != name@ by {
        assert(name_set(names@)[k] == names@[k]@);
    }
    false
}

/// The names of cached entries.
pub open spec fn entry_names(es: Seq<CachedEntry>) -> Seq<Seq<char>> {
    es.map_values(|e: CachedEntry| e.name@)
}

/// The position of the first row with this name, if any.
pub open spec fn first_row_named(rows: Seq<RowView>, name: Seq<char>) -> Option<int> {
    if exists|i: int| 0 <= i < rows.len() && rows[i].name == name {
        Some(choose|i: int| 0 <= i < rows.len() && rows[i].name == name && forall|k: int| 0 <= k < i ==> rows[k].name != name)
    } else {
        None
    }
}

/// Renames the first entry with the old name.
fn rename_entry(entries: &mut Vec<CachedEntry>, old_name: &str, new_name: &str)
    ensures
        entry_names(final(entries)@) == (match first_entry_named(old(entries)@, old_name@) {
            Some(i) => entry_names(old(entries)@).update(i, new_name@),
            None => entry_names(old(entries)@),
        }),
{
    let ghost en = entry_names(entries@);
    let ghost es0 = entries@;
    match find_entry(entries, old_name) {
        Some(i) => {
            assert(first_entry_named(es0, old_name@) == Some(i as int));
            let e = &entries[i];
            let renamed = CachedEntry { name: new_name.to_owned(), is_dir: e.is_dir, size: e.size, date: e.date.clone(), permissions: e.permissions };
            entries.set(i, renamed);
            assert(entry_names(entries@) =~= en.update(i as int, new_name@));
        },
        None => {
            assert(first_entry_named(es0, old_name@) is None);
        },
    }
}

/// Renames the first row with the old name and points it to `new_path`.
fn rename_row(rows: &mut Vec<FileEntry>, old_name: &str, new_name: &str, new_path: String)
    ensures
        rows_view(final(rows)@) == (match first_row_named(rows_view(old(rows)@), old_name@) {
            Some(k) => rows_view(old(rows)@).update(k, RowView { name: new_name@, path: new_path@, ..rows_view(old(rows)@)[k] }),
            None => rows_view(old(rows)@),
        }),
{
    let ghost rv = rows_view(rows@);
    match find_row(rows, old_name) {
        Some(k) => {
            let r = &rows[k];
            let replaced = FileEntry {
                name: new_name.to_owned(),
                path: new_path,
                is_dir: r.is_dir,
                size: r.size,
                date: r.date.clone(),
                permissions_raw: r.permissions_raw,
            };
            rows.set(k, replaced);
            assert(rows_view(rows@) =~= rv.update(k as int, replaced@));
        },
        None => {},
    }
}

/// The position of the first entry with this name, if any.
pub open spec fn first_entry_named(es: Seq<CachedEntry>, name: Seq<char>) -> Option<int> {
    if exists|i: int| 0 <= i < es.len() && es[i].name@ == name {
        Some(choose|i: int| 0 <= i < es.len() && es[i].name@ == name && forall|k: int| 0 <= k < i ==> es[k].name@ != name)
    } else {
        None
    }
}

/// The position of the first entry with this name.
pub fn find_entry(es: &Vec<CachedEntry>, name: &str) -> (res: Option<usize>)
    ensures
        first_entry_named(es@, name@) == (match res { Some(i) => Some(i as int), None => None::<int> }),
        res matches Some(i) ==> i < es@.len() && es@[i as int].name@ == name@,
{
    let mut k: usize = 0;
    while k < es.len()
        invariant
            k <= es@.len(),
            forall|j: int| 0 <= j < k ==> es@[j].name@ != name@,
        decreases es.len() - k,
    {
        if str_eq(es[k].name.as_str(), name) {
            proof {
                let c = choose|c: int| 0 <= c < es@.len() && es@[c].name@ == name@ && forall|j: int| 0 <= j < c ==> es@[j].name@ != name@;
                if c < k {
                } else if c > k {
                }
            }
            return Some(k);
        }
        k += 1;
    }
    None
}

/// A copy of a cached entry.
fn copy_entry(e: &CachedEntry) -> (res: CachedEntry)
    ensures
        res.name@ == e.name@,
        res.is_dir == e.is_dir,
        res.size == e.size,
        res.date@ == e.date@,
        res.permissions == e.permissions,
{
    CachedEntry { name: e.name.clone(), is_dir: e.is_dir, size: e.size, date: e.date.clone(), permissions: e.permissions }
}

/// What navigating from a panel leads to.
pub enum NavAction {
    /// Leave the panel's root (back to where the panel was opened from).
    Back,
    /// Go to the parent directory.
    NavigateUp,
    /// Open the named folder or archive.
    Enter(String),
    /// Open the file at this path.
    OpenFile(String),
}

/// Where the "up" button leads: back out at the root (or at `/`), else to
/// the parent directory.
pub open spec fn up_is_back(p: &Panel) -> bool {
    path_string(parts_of(p)) == p.root_path@ || path_string(parts_of(p)) == "/"@
}

/// The names that the panel opens as folders although they are files.
pub open spec fn is_archive_name(lower: Seq<char>) -> bool {
    ends_with(lower, ".zip"@) || ends_with(lower, ".tar"@) || ends_with(lower, ".tar.gz"@) || ends_with(lower, ".tgz"@)
}

/// What a key press in the list does.
#[derive(Debug, PartialEq, Eq, Structural)]
pub enum KeyAction {
    /// The key is left to the list.
    Proceed,
    /// `*` opens the selection-mask bar.
    ShowSelectBar,
    /// Any other printable character jumps to the next row starting with it.
    QuickJump(char),
}

/// A Unicode control character (general category Cc).
pub open spec fn is_control(c: char) -> bool {
    (c as u32) <= 0x1f || (0x7f <= (c as u32) && (c as u32) <= 0x9f)
}

/// What a key press does: with Ctrl, Alt or Super held nothing; `*` opens
/// the mask bar when the panel offers one; a character that is neither a
/// control character nor white space starts a quick jump.
pub fn key_action(ch: Option<char>, modifier_held: bool, mask_enabled: bool) -> (res: KeyAction)
    ensures
        res == (if modifier_held {
            KeyAction::Proceed
        } else {
            match ch {
                Some(c) => if c == '*' && mask_enabled {
                    KeyAction::ShowSelectBar
                } else if !is_control(c) && !crate::text::is_white(c) {
                    KeyAction::QuickJump(c)
                } else {
                    KeyAction::Proceed
                },
                None => KeyAction::Proceed,
            }
        }),
{
    if modifier_held {
        return KeyAction::Proceed;
    }
    match ch {
        Some(c) => {
            if c == '*' && mask_enabled {
                return KeyAction::ShowSelectBar;
            }
            let u = c as u32;
            let control = u <= 0x1f || (0x7f <= u && u <= 0x9f);
            if !control && !crate::text::white(c) {
                KeyAction::QuickJump(c)
            } else {
                KeyAction::Proceed
            }
        },
        None => KeyAction::Proceed,
    }
}

/// The selection as the panel reports it: the selected rows other than
/// `..`, with whether each is a folder, and which buttons that enables.
pub struct SelectionSummary {
    pub files: Vec<(String, bool)>,
    pub can_delete: bool,
    pub can_rename: bool,
    pub can_chmod: bool,
}

/// The selected rows other than `..`, in selection order.
pub open spec fn selected_files_spec(rows: Seq<RowView>, sel: Seq<usize>) -> Seq<(Seq<char>, bool)>
    decreases sel.len(),
{
    if sel.len() == 0 {
        Seq::empty()
    } else {
        let prev = selected_files_spec(rows, sel.drop_last());
        let r = rows[sel.last() as int];
        if r.name == ".."@ { prev } else { prev.push((r.name, r.is_dir)) }
    }
}

/// The name and kind of each selected file.
pub open spec fn files_view(v: Seq<(String, bool)>) -> Seq<(Seq<char>, bool)> {
    v.map_values(|f: (String, bool)| (f.0@, f.1))
}

/// `text` with `%{name}` interpolation arguments.
pub open spec fn args_of(a: Seq<(&str, &str)>) -> Seq<(Seq<char>, Seq<char>)> {
    crate::i18n::args_view(a)
}

/// A name shown in the status line: at most 50 characters, longer names cut
/// to 47 and ended with `...`.
pub open spec fn shortened_name(name: Seq<char>) -> Seq<char> {
    if name.len() > 50 { name.take(47) + "..."@ } else { name }
}

/// The count words of the status line for folders and files.
pub open spec fn count_words(c: crate::i18n::CatalogView, folders: nat, files: nat) -> (Seq<char>, Seq<char>) {
    let f = if folders == 1 {
        crate::i18n::translate(c, "fm.status.one_folder"@)
    } else {
        crate::i18n::interpolate(crate::i18n::translate(c, "fm.status.many_folders"@), seq![("count"@, crate::text::decimal(folders))])
    };
    let g = if files == 1 {
        crate::i18n::translate(c, "fm.status.one_file"@)
    } else {
        crate::i18n::interpolate(crate::i18n::translate(c, "fm.status.many_files"@), seq![("count"@, crate::text::decimal(files))])
    };
    (f, g)
}

/// How many entries are folders.
pub open spec fn folder_count(es: Seq<CachedEntry>) -> nat
    decreases es.len(),
{
    if es.len() == 0 { 0 } else { folder_count(es.drop_last()) + if es.last().is_dir { 1nat } else { 0nat } }
}

/// How many of the selected rows are folders.
pub open spec fn selected_folder_count(rows: Seq<RowView>, sel: Seq<usize>) -> nat
    decreases sel.len(),
{
    if sel.len() == 0 { 0 } else { selected_folder_count(rows, sel.drop_last()) + if rows[sel.last() as int].is_dir { 1nat } else { 0nat } }
}

/// The status line of a panel: with nothing selected the number of folders
/// and files of the listing (or that the folder is empty); with one row
/// selected its name, and its size for a file, and its date; with several
/// the number of selected folders and files. `size_text` is the size of the
/// one selected file as the panel writes sizes.
pub open spec fn status_text_spec(c: crate::i18n::CatalogView, p: &Panel, sel: Seq<usize>, size_text: Seq<char>) -> Seq<char> {
    let rows = rows_view(p.rows@);
    if sel.len() == 0 {
        let folders = folder_count(p.entries@);
        let files = (p.entries@.len() - folders) as nat;
        if folders == 0 && files == 0 {
            crate::i18n::translate(c, "fm.status.empty_folder"@)
        } else {
            let (f, g) = count_words(c, folders, files);
            f + ", "@ + g
        }
    } else if sel.len() == 1 {
        let r = rows[sel[0] as int];
        let name = shortened_name(r.name);
        let date = if r.date.len() == 0 { Seq::empty() } else { " | "@ + r.date };
        if r.is_dir {
            crate::i18n::interpolate(crate::i18n::translate(c, "fm.status.selected_folder"@), seq![("name"@, name), ("date"@, date)])
        } else {
            crate::i18n::interpolate(crate::i18n::translate(c, "fm.status.selected_file"@),
                seq![("name"@, name), ("size"@, size_text), ("date"@, date)])
        }
    } else {
        let folders = selected_folder_count(rows, sel);
        let (f, g) = count_words(c, folders, (sel.len() - folders) as nat);
        crate::i18n::interpolate(crate::i18n::translate(c, "fm.status.selected_multiple"@), seq![("folders"@, f), ("files"@, g)])
    }
}

/// Where a quick jump starts: after the first selected row, or at the top.
pub open spec fn jump_start(selected_first: Option<usize>) -> int {
    match selected_first {
        Some(s) => s + 1,
        None => 0,
    }
}

/// The row a quick jump lands on: the first, counting from `start` and
/// wrapping around, that `jump_hit` accepts; nothing while a name is being
/// edited, in an empty list, or when no row is accepted.
pub open spec fn quick_jump_spec(rows: Seq<FileEntry>, editing: bool, start: int, ch: char, res: Option<usize>) -> bool {
    let n = rows.len();
    match res {
        None => editing || n == 0 || forall|off: int| 0 <= off < n ==> !#[trigger] jump_hit(rows, start, off, ch),
        Some(pos) => !editing && n > 0 && exists|off: int| 0 <= off < n
            && pos == (start + off) % (n as int) && #[trigger] jump_hit(rows, start, off, ch)
            && forall|o: int| 0 <= o < off ==> !jump_hit(rows, start, o, ch),
    }
}

/// The row `off` places after `start` (wrapping around) starts with the
/// lowercase character and is not `..`.
pub open spec fn jump_hit(rows: Seq<FileEntry>, start: int, off: int, ch: char) -> bool {
    let r = rows[(start + off) % (rows.len() as int)];
    r.name@ != ".."@ && starts_with(lowercase(r.name@), char_lowercase(ch))
}

/// A row a quick jump for `ch` may land on: not `..`, and its lowercase
/// name starts with the lowercase character.
pub open spec fn jump_target(r: FileEntry, ch: char) -> bool {
    r.name@ != ".."@ && starts_with(lowercase(r.name@), char_lowercase(ch))
}

/// How many rows lie strictly between row `s` and row `q`, going down from
/// `s` and wrapping around to the top.
pub open spec fn rows_between(s: int, q: int, n: int) -> int {
    if q > s { q - s - 1 } else { q + n - s - 1 }
}

proof fn lemma_wrap_position(st: int, o: int, n: int)
    requires
        n > 0,
        0 <= st <= n,
        0 <= o < n,
    ensures
        (st + o) % n == (if st + o < n { st + o } else { st + o - n }),
{
    if st + o < n {
        assert((st + o) % n == st + o) by (nonlinear_arith)
            requires 0 <= st + o < n;
    } else {
        assert((st + o) % n == st + o - n) by (nonlinear_arith)
            requires n <= st + o < 2 * n, n > 0;
    }
}

/// A quick jump from a selected row `s` moves on: it lands on the first
/// row after `s` (going down and wrapping around) that the character
/// selects, so it stays on `s` only when no other row is selected by it,
/// and it finds nothing exactly when no row is.
pub proof fn lemma_quick_jump_moves_on(rows: Seq<FileEntry>, s: usize, ch: char, res: Option<usize>)
    requires
        s < rows.len(),
        quick_jump_spec(rows, false, jump_start(Some(s)), ch, res),
    ensures
        res matches Some(p) ==> p < rows.len() && jump_target(rows[p as int], ch)
            && forall|q: int| 0 <= q < rows.len() && #[trigger] jump_target(rows[q], ch)
                ==> rows_between(s as int, p as int, rows.len() as int) <= rows_between(s as int, q, rows.len() as int),
        res == Some(s) ==> forall|q: int| 0 <= q < rows.len() && q != s ==> !#[trigger] jump_target(rows[q], ch),
        res is None <==> forall|q: int| 0 <= q < rows.len() ==> !#[trigger] jump_target(rows[q], ch),
{
    let n = rows.len() as int;
    let st = s + 1;
    assert(jump_start(Some(s)) == st);
    assert forall|q: int| 0 <= q < n implies
        (#[trigger] jump_target(rows[q], ch)) == jump_hit(rows, st, rows_between(s as int, q, n), ch) by {
        let o = rows_between(s as int, q, n);
        lemma_wrap_position(st, o, n);
        assert((st + o) % n == q);
    }
    match res {
        Some(p) => {
            let off = choose|off: int| 0 <= off < n
                && p == (st + off) % (n as int) && #[trigger] jump_hit(rows, st, off, ch)
                && forall|o: int| 0 <= o < off ==> !jump_hit(rows, st, o, ch);
            lemma_wrap_position(st, off, n);
            assert(rows_between(s as int, p as int, n) == off);
            assert(jump_target(rows[p as int], ch));
            assert forall|q: int| 0 <= q < n && #[trigger] jump_target(rows[q], ch)
                implies rows_between(s as int, p as int, n) <= rows_between(s as int, q, n) by {
                let o = rows_between(s as int, q, n);
                assert(jump_hit(rows, st, o, ch));
            }
        },
        None => {
            assert forall|q: int| 0 <= q < n implies !#[trigger] jump_target(rows[q], ch) by {
                let o = rows_between(s as int, q, n);
                assert(!jump_hit(rows, st, o, ch));
            }
        },
    }
}

impl Panel {
    /// Adds a new entry: it is cached, and its row goes right after the
    /// last folder row. Gives the row's position.
    pub fn patch_entry_added(&mut self, name: &str, is_dir: bool, date: &str) -> (res: usize)
        ensures
            res as int == insert_position(rows_view(old(self).rows@)),
            final(self).entries@.len() == old(self).entries@.len() + 1,
            final(self).entries@.drop_last() == old(self).entries@,
            final(self).entries@.last().name@ == name@,
            final(self).entries@.last().is_dir == is_dir,
            final(self).entries@.last().size == 0,
            final(self).entries@.last().date@ == date@,
            final(self).entries@.last().permissions is None,
            rows_view(final(self).rows@) == rows_view(old(self).rows@).insert(res as int,
                RowView { name: name@, path: child_path(parts_of(old(self)), name@), is_dir, size: 0, date: date@, permissions: None }),
            final(self).editing_name is None,
            final(self).current_path == old(self).current_path,
    {
        self.editing_name = None;
        self.entries.push(CachedEntry { name: name.to_owned(), is_dir, size: 0, date: date.to_owned(), permissions: None });
        let ghost rv = rows_view(self.rows@);
        let mut pos: usize = 0;
        let mut i: usize = 0;
        while i < self.rows.len()
            invariant
                i <= self.rows@.len(),
                rv == rows_view(self.rows@),
                pos <= i,
                pos == 0 ==> forall|k: int| 0 <= k < i ==> !rv[k].is_dir,
                pos > 0 ==> rv[pos - 1].is_dir && forall|k: int| pos <= k < i ==> !rv[k].is_dir,
            decreases self.rows.len() - i,
        {
            if self.rows[i].is_dir {
                pos = i + 1;
            }
            i += 1;
        }
        proof {
            if pos > 0 {
                let c = choose|c: int| 0 <= c < rv.len() && rv[c].is_dir && forall|k: int| c < k < rv.len() ==> !rv[k].is_dir;
                if c < pos - 1 {
                    assert(!rv[pos - 1].is_dir);
                } else if c > pos - 1 {
                    assert(!rv[c].is_dir);
                }
            }
        }
        let path = self.child_path(name);
        let row = FileEntry::new(name, path.as_str(), is_dir, 0, date, None);
        self.rows.insert(pos, row);
        assert(rows_view(self.rows@) =~= rv.insert(pos as int, row@));
        pos
    }

    /// Removes entries by name, from the cache and from the rows.
    pub fn patch_entries_removed(&mut self, names: &[String])
        ensures
            final(self).entries@.map_values(|e: CachedEntry| e.name@) == entries_without(old(self).entries@, name_set(names@)).map_values(|e: CachedEntry| e.name@),
            rows_view(final(self).rows@) == rows_without(rows_view(old(self).rows@), name_set(names@)),
            final(self).editing_name is None,
            final(self).current_path == old(self).current_path,
    {
        self.editing_name = None;
        let ghost ns = name_set(names@);
        let ghost es0 = self.entries@;
        let mut kept: Vec<CachedEntry> = Vec::new();
        let mut i: usize = 0;
        assert(es0.take(0).filter(|e: CachedEntry| !ns.contains(e.name@)) =~= Seq::<CachedEntry>::empty());
        while i < self.entries.len()
            invariant
                i <= self.entries@.len(),
                es0 == self.entries@,
                kept@.map_values(|e: CachedEntry| e.name@) == es0.take(i as int).filter(|e: CachedEntry| !ns.contains(e.name@)).map_values(|e: CachedEntry| e.name@),
                ns == name_set(names@),
            decreases self.entries.len() - i,
        {
            let e = &self.entries[i];
            assert(es0.take(i + 1).drop_last() =~= es0.take(i as int));
            reveal(Seq::filter);
            if !contains_name(names, e.name.as_str()) {
                let c = copy_entry(e);
                let ghost before = kept@.map_values(|e: CachedEntry| e.name@);
                kept.push(c);
                assert(kept@.map_values(|e: CachedEntry| e.name@) =~= before.push(c.name@));
            }
            i += 1;
        }
        assert(es0.take(es0.len() as int) =~= es0);
        self.entries = kept;
        let ghost rv0 = rows_view(self.rows@);
        let mut kept_rows: Vec<FileEntry> = Vec::new();
        let mut j: usize = 0;
        assert(rv0.take(0).filter(|r: RowView| !ns.contains(r.name)) =~= Seq::<RowView>::empty());
        assert(rows_view(kept_rows@) =~= Seq::<RowView>::empty());
        while j < self.rows.len()
            invariant
                j <= self.rows@.len(),
                rv0 == rows_view(self.rows@),
                rows_view(kept_rows@) == rv0.take(j as int).filter(|r: RowView| !ns.contains(r.name)),
                ns == name_set(names@),
            decreases self.rows.len() - j,
        {
            let r = &self.rows[j];
            assert(rv0.take(j + 1).drop_last() =~= rv0.take(j as int));
            reveal(Seq::filter);
            if !contains_name(names, r.name.as_str()) {
                let c = FileEntry {
                    name: r.name.clone(),
                    path: r.path.clone(),
                    is_dir: r.is_dir,
                    size: r.size,
                    date: r.date.clone(),
                    permissions_raw: r.permissions_raw,
                };
                let ghost before = rows_view(kept_rows@);
                kept_rows.push(c);
                assert(rows_view(kept_rows@) =~= before.push(c@));
            }
            j += 1;
        }
        assert(rv0.take(rv0.len() as int) =~= rv0);
        self.rows = kept_rows;
    }

    /// Renames the first cached entry and the first row with the old name;
    /// the row then points to the new name inside the current directory.
    pub fn patch_entry_renamed(&mut self, old_name: &str, new_name: &str)
        ensures
            entry_names(final(self).entries@) == (match first_entry_named(old(self).entries@, old_name@) {
                Some(i) => entry_names(old(self).entries@).update(i, new_name@),
                None => entry_names(old(self).entries@),
            }),
            rows_view(final(self).rows@) == (match first_row_named(rows_view(old(self).rows@), old_name@) {
                Some(k) => rows_view(old(self).rows@).update(k, RowView {
                    name: new_name@,
                    path: child_path(parts_of(old(self)), new_name@),
                    ..rows_view(old(self).rows@)[k]
                }),
                None => rows_view(old(self).rows@),
            }),
            final(self).editing_name is None,
            final(self).current_path == old(self).current_path,
    {
        self.editing_name = None;
        rename_entry(&mut self.entries, old_name, new_name);
        let new_path = self.child_path(new_name);
        rename_row(&mut self.rows, old_name, new_name, new_path);
    }

    /// The rows a selection mask selects: with a mask that is empty once
    /// trimmed nothing changes (`None`); otherwise every file row (not
    /// folder) whose name matches the trimmed mask.
    pub fn mask_selection(&self, mask: &str) -> (res: Option<Vec<usize>>)
        ensures
            match res {
                None => trim(mask@).len() == 0,
                Some(v) => trim(mask@).len() > 0
                    && (forall|k: int| 0 <= k < v@.len() ==> (#[trigger] v@[k]) < self.rows@.len())
                    && (forall|a: int, b: int| 0 <= a < b < v@.len() ==> v@[a] < v@[b])
                    && (forall|i: int| 0 <= i < self.rows@.len() ==> (v@.contains(i as usize) <==>
                        (!self.rows@[i].is_dir && crate::glob::mask_matches(lowercase(trim(mask@)), lowercase(self.rows@[i].name@))))),
            },
    {
        let mc = chars_of(mask);
        let t = trim_chars(mc.as_slice());
        if t.len() == 0 {
            return None;
        }
        let tm = string_from_chars(t.as_slice());
        let mut v: Vec<usize> = Vec::new();
        let mut i: usize = 0;
        while i < self.rows.len()
            invariant
                i <= self.rows@.len(),
                tm@ == trim(mask@),
                forall|k: int| 0 <= k < v@.len() ==> (#[trigger] v@[k]) < i,
                forall|a: int, b: int| 0 <= a < b < v@.len() ==> v@[a] < v@[b],
                forall|j: int| 0 <= j < i ==> (v@.contains(j as usize) <==>
                    (!self.rows@[j].is_dir && crate::glob::mask_matches(lowercase(trim(mask@)), lowercase(self.rows@[j].name@)))),
            decreases self.rows.len() - i,
        {
            let r = &self.rows[i];
            if !r.is_dir && crate::glob::glob_match(tm.as_str(), r.name.as_str()) {
                let ghost before = v@;
                v.push(i);
                assert forall|j: int| 0 <= j < i implies (#[trigger] v@.contains(j as usize) <==> before.contains(j as usize)) by {
                    if v@.contains(j as usize) {
                        let w = choose|w: int| 0 <= w < v@.len() && v@[w] == j as usize;
                        if w == before.len() {
                        } else {
                            assert(before[w] == v@[w]);
                        }
                    }
                    if before.contains(j as usize) {
                        let w = choose|w: int| 0 <= w < before.len() && before[w] == j as usize;
                        assert(v@[w] == before[w]);
                    }
                }
                assert(v@[before.len() as int] == i);
            } else {
                assert(!v@.contains(i));
            }
            i += 1;
        }
        Some(v)
    }

    /// The row a quick jump lands on: starting after the first selected row
    /// (or at the top) and wrapping around, the first row other than `..`
    /// whose lowercase name starts with the lowercase character. Nothing
    /// while a name is being edited or when the list is empty.
    pub fn quick_jump(&self, ch: char, selected_first: Option<usize>) -> (res: Option<usize>)
        requires
            selected_first matches Some(s) ==> s < self.rows@.len(),
        ensures
            quick_jump_spec(self.rows@, self.editing_name is Some, jump_start(selected_first), ch, res),
    {
        if self.editing_name.is_some() {
            return None;
        }
        let n = self.rows.len();
        if n == 0 {
            return None;
        }
        proof { reveal_strlit(".."); }
        let needle_s = char_to_lowercase(ch);
        let needle = chars_of(needle_s.as_str());
        let start: usize = match selected_first { Some(s) => s + 1, None => 0 };
        let ghost st: int = jump_start(selected_first);
        assert(st == start as int);
        let mut off: usize = 0;
        while off < n
            invariant
                off <= n,
                n == self.rows@.len(),
                n > 0,
                start <= n,
                st == start as int,
                st == jump_start(selected_first),
                self.editing_name is None,
                needle@ == char_lowercase(ch),
                forall|o: int| 0 <= o < off ==> !#[trigger] jump_hit(self.rows@, start as int, o, ch),
            decreases n - off,
        {
            let pos: usize = if off < n - start { start + off } else { off - (n - start) };
            assert(pos as int == (start + off) % (n as int)) by {
                if off < n - start {
                    assert((start + off) % (n as int) == start + off) by (nonlinear_arith)
                        requires 0 <= start + off < n;
                } else {
                    assert((start + off) % (n as int) == start + off - n) by (nonlinear_arith)
                        requires n <= start + off < 2 * n, n > 0;
                }
            }
            let r = &self.rows[pos];
            if !str_eq(r.name.as_str(), "..") {
                let ln = to_lowercase(r.name.as_str());
                let lc = chars_of(ln.as_str());
                if has_prefix(lc.as_slice(), needle.as_slice()) {
                    assert(jump_hit(self.rows@, start as int, off as int, ch));
                    assert(0 <= off < n && pos as int == (start + off) % (n as int)
                        && jump_hit(self.rows@, start as int, off as int, ch)
                        && forall|o: int| 0 <= o < off ==> !jump_hit(self.rows@, start as int, o, ch));
                    assert(exists|o: int| 0 <= o < self.rows@.len() && pos == (st + o) % (self.rows@.len() as int)
                        && #[trigger] jump_hit(self.rows@, st, o, ch)
                        && forall|o2: int| 0 <= o2 < o ==> !jump_hit(self.rows@, st, o2, ch)) by {
                        assert(jump_hit(self.rows@, st, off as int, ch));
                    }
                    return Some(pos);
                }
            }
            assert(!jump_hit(self.rows@, start as int, off as int, ch));
            off += 1;
        }
        None
    }

    /// Where the "up" button leads.
    pub fn up_action(&self) -> (res: NavAction)
        ensures
            (res is Back) == up_is_back(self),
            (res is NavigateUp) == !up_is_back(self),
    {
        let cur = self.current_path_string();
        if str_eq(cur.as_str(), self.root_path.as_str()) || str_eq(cur.as_str(), "/") {
            NavAction::Back
        } else {
            NavAction::NavigateUp
        }
    }

    /// What activating a row does: `..` goes up (or back out at the root);
    /// a folder or an archive is entered; any other file is opened.
    pub fn activate(&self, row: &FileEntry) -> (res: NavAction)
        ensures
            row.name@ == ".."@ ==> ((res is Back) == up_is_back(self) && (res is NavigateUp) == !up_is_back(self)),
            row.name@ != ".."@ && (row.is_dir || is_archive_name(lowercase(row.name@))) ==> (res matches NavAction::Enter(n) && n@ == row.name@),
            row.name@ != ".."@ && !(row.is_dir || is_archive_name(lowercase(row.name@))) ==>
                (res matches NavAction::OpenFile(p) && p@ == child_path(parts_of(self), row.name@)),
    {
        if str_eq(row.name.as_str(), "..") {
            return self.up_action();
        }
        let lower = to_lowercase(row.name.as_str());
        let l = chars_of(lower.as_str());
        let zip = chars_of(".zip");
        let tar = chars_of(".tar");
        let targz = chars_of(".tar.gz");
        let tgz = chars_of(".tgz");
        let archive = has_suffix(l.as_slice(), zip.as_slice()) || has_suffix(l.as_slice(), tar.as_slice())
            || has_suffix(l.as_slice(), targz.as_slice()) || has_suffix(l.as_slice(), tgz.as_slice());
        if row.is_dir || archive {
            NavAction::Enter(row.name.clone())
        } else {
            NavAction::OpenFile(self.child_path(row.name.as_str()))
        }
    }

    /// Records a selection (row positions) and reports what it selects and
    /// which buttons it enables: delete for any file, rename and
    /// permissions for exactly one.
    pub fn select_rows(&mut self, sel: &[usize]) -> (res: SelectionSummary)
        requires
            forall|k: int| 0 <= k < sel@.len() ==> (#[trigger] sel@[k]) < old(self).rows@.len(),
        ensures
            files_view(res.files@) == selected_files_spec(rows_view(old(self).rows@), sel@),
            files_view(final(self).selected@) == files_view(res.files@),
            res.can_delete == (res.files@.len() > 0),
            res.can_rename == (res.files@.len() == 1),
            res.can_chmod == (res.files@.len() == 1),
            final(self).rows == old(self).rows,
            final(self).entries == old(self).entries,
            final(self).current_path == old(self).current_path,
            final(self).editing_name == old(self).editing_name,
    {
        proof { reveal_strlit(".."); }
        let ghost rv = rows_view(self.rows@);
        let mut files: Vec<(String, bool)> = Vec::new();
        let mut files2: Vec<(String, bool)> = Vec::new();
        let mut i: usize = 0;
        assert(sel@.take(0) =~= Seq::<usize>::empty());
        assert(files_view(files@) =~= Seq::<(Seq<char>, bool)>::empty());
        while i < sel.len()
            invariant
                i <= sel@.len(),
                rv == rows_view(self.rows@),
                forall|k: int| 0 <= k < sel@.len() ==> (#[trigger] sel@[k]) < self.rows@.len(),
                files_view(files@) == selected_files_spec(rv, sel@.take(i as int)),
                files_view(files2@) == files_view(files@),
            decreases sel.len() - i,
        {
            let r = &self.rows[sel[i]];
            assert(sel@.take(i + 1).drop_last() =~= sel@.take(i as int));
            assert(rv[sel@[i as int] as int] == r@);
            if !str_eq(r.name.as_str(), "..") {
                let ghost before = files_view(files@);
                files.push((r.name.clone(), r.is_dir));
                files2.push((r.name.clone(), r.is_dir));
                assert(files_view(files@) =~= before.push((r.name@, r.is_dir)));
                assert(files_view(files2@) =~= before.push((r.name@, r.is_dir)));
            }
            i += 1;
        }
        assert(sel@.take(sel@.len() as int) =~= sel@);
        self.selected = files2;
        let count = files.len();
        SelectionSummary { files, can_delete: count > 0, can_rename: count == 1, can_chmod: count == 1 }
    }

    /// Starts editing the name of the one selected row (not `..`).
    pub fn start_rename(&mut self, sel: &[usize])
        requires
            forall|k: int| 0 <= k < sel@.len() ==> (#[trigger] sel@[k]) < old(self).rows@.len(),
        ensures
            (sel@.len() == 1 && old(self).rows@[sel@[0] as int].name@ != ".."@) ==>
                opt_view(final(self).editing_name) == Some(old(self).rows@[sel@[0] as int].name@),
            !(sel@.len() == 1 && old(self).rows@[sel@[0] as int].name@ != ".."@) ==> final(self).editing_name == old(self).editing_name,
            final(self).rows == old(self).rows,
            final(self).entries == old(self).entries,
            final(self).current_path == old(self).current_path,
    {
        proof { reveal_strlit(".."); }
        if sel.len() != 1 {
            return;
        }
        let r = &self.rows[sel[0]];
        if str_eq(r.name.as_str(), "..") {
            return;
        }
        self.editing_name = Some(r.name.clone());
    }

    /// Stops editing a name.
    pub fn cancel_editing(&mut self)
        ensures
            final(self).editing_name is None,
            final(self).rows == old(self).rows,
            final(self).entries == old(self).entries,
            final(self).current_path == old(self).current_path,
    {
        self.editing_name = None;
    }

    /// Whether the row with this name is being renamed in place.
    pub fn is_editing(&self, name: &str) -> (res: bool)
        ensures
            res == (opt_view(self.editing_name) == Some(name@)),
    {
        match &self.editing_name {
            Some(n) => str_eq(n.as_str(), name),
            None => false,
        }
    }

    /// The rename that an in-place edit asks for, as old and new paths:
    /// none for an empty name, an unchanged one or one holding `/`.
    pub fn inline_rename(&self, old_name: &str, new_name: &str) -> (res: Option<(String, String)>)
        ensures
            (new_name@.len() == 0 || new_name@ == old_name@ || new_name@.contains('/')) ==> res is None,
            !(new_name@.len() == 0 || new_name@ == old_name@ || new_name@.contains('/')) ==>
                (res matches Some(r) && r.0@ == child_path(parts_of(self), old_name@) && r.1@ == child_path(parts_of(self), new_name@)),
    {
        let nc = chars_of(new_name);
        let slash = chars_of("/");
        proof { reveal_strlit("/"); }
        let has_slash = contains_chars(nc.as_slice(), slash.as_slice());
        proof {
            if new_name@.contains('/') {
                let k = choose|k: int| 0 <= k < new_name@.len() && new_name@[k] == '/';
                assert(crate::text::occurs_at(new_name@, "/"@, k)) by {
                    assert(new_name@.subrange(k, k + 1) =~= "/"@);
                }
            }
            if has_slash {
                let k = choose|k: int| crate::text::occurs_at(new_name@, "/"@, k);
                assert(new_name@[k] == new_name@.subrange(k, k + 1)[0]);
            }
        }
        if nc.len() == 0 || str_eq(new_name, old_name) || has_slash {
            return None;
        }
        Some((self.child_path(old_name), self.child_path(new_name)))
    }

    /// The status line of the panel for a selection (row positions).
    pub fn status_text(&self, catalog: &crate::i18n::Catalog, sel: &[usize], size_text: &str) -> (res: String)
        requires
            forall|k: int| 0 <= k < sel@.len() ==> (#[trigger] sel@[k]) < self.rows@.len(),
        ensures
            res@ == status_text_spec(catalog@, self, sel@, size_text@),
    {
        if sel.len() == 0 {
            let mut folders: usize = 0;
            let mut i: usize = 0;
            assert(self.entries@.take(0) =~= Seq::<CachedEntry>::empty());
            while i < self.entries.len()
                invariant
                    i <= self.entries@.len(),
                    folders as nat == folder_count(self.entries@.take(i as int)),
                    folders <= i,
                decreases self.entries.len() - i,
            {
                assert(self.entries@.take(i + 1).drop_last() =~= self.entries@.take(i as int));
                if self.entries[i].is_dir {
                    folders += 1;
                }
                i += 1;
            }
            assert(self.entries@.take(self.entries@.len() as int) =~= self.entries@);
            let files = self.entries.len() - folders;
            if folders == 0 && files == 0 {
                return catalog.tr("fm.status.empty_folder");
            }
            let (f, g) = count_words_exec(catalog, folders, files);
            let mut out = chars_of(f.as_str());
            crate::text::extend_str(&mut out, ", ");
            crate::text::extend_str(&mut out, g.as_str());
            return string_from_chars(out.as_slice());
        }
        if sel.len() == 1 {
            let r = &self.rows[sel[0]];
            let nc = chars_of(r.name.as_str());
            let name = if nc.len() > 50 {
                let mut t: Vec<char> = Vec::new();
                let mut k: usize = 0;
                while k < 47
                    invariant
                        k <= 47,
                        nc@.len() > 50,
                        t@ == nc@.take(k as int),
                    decreases 47 - k,
                {
                    t.push(nc[k]);
                    assert(nc@.take(k + 1) =~= nc@.take(k as int).push(nc@[k as int]));
                    k += 1;
                }
                crate::text::extend_str(&mut t, "...");
                string_from_chars(t.as_slice())
            } else {
                r.name.clone()
            };
            let dc = chars_of(r.date.as_str());
            let date = if dc.len() == 0 {
                String::new()
            } else {
                let mut t = chars_of(" | ");
                crate::text::extend_chars(&mut t, dc.as_slice());
                string_from_chars(t.as_slice())
            };
            proof { reveal_strlit(""); }
            if r.is_dir {
                let args = [("name", name.as_str()), ("date", date.as_str())];
                let res = catalog.trf("fm.status.selected_folder", &args);
                assert(crate::i18n::args_view(args@) =~= seq![("name"@, name@), ("date"@, date@)]);
                return res;
            } else {
                let args = [("name", name.as_str()), ("size", size_text), ("date", date.as_str())];
                let res = catalog.trf("fm.status.selected_file", &args);
                assert(crate::i18n::args_view(args@) =~= seq![("name"@, name@), ("size"@, size_text@), ("date"@, date@)]);
                return res;
            }
        }
        let ghost rv = rows_view(self.rows@);
        let mut folders: usize = 0;
        let mut i: usize = 0;
        assert(sel@.take(0) =~= Seq::<usize>::empty());
        while i < sel.len()
            invariant
                i <= sel@.len(),
                rv == rows_view(self.rows@),
                forall|k: int| 0 <= k < sel@.len() ==> (#[trigger] sel@[k]) < self.rows@.len(),
                folders as nat == selected_folder_count(rv, sel@.take(i as int)),
                folders <= i,
            decreases sel.len() - i,
        {
            assert(sel@.take(i + 1).drop_last() =~= sel@.take(i as int));
            assert(rv[sel@[i as int] as int].is_dir == self.rows@[sel@[i as int] as int].is_dir);
            if self.rows[sel[i]].is_dir {
                folders += 1;
            }
            i += 1;
        }
        assert(sel@.take(sel@.len() as int) =~= sel@);
        let (f, g) = count_words_exec(catalog, folders, sel.len() - folders);
        let args = [("folders", f.as_str()), ("files", g.as_str())];
        let res = catalog.trf("fm.status.selected_multiple", &args);
        assert(crate::i18n::args_view(args@) =~= seq![("folders"@, f@), ("files"@, g@)]);
        res
    }
}

fn count_words_exec(catalog: &crate::i18n::Catalog, folders: usize, files: usize) -> (res: (String, String))
    ensures
        (res.0@, res.1@) == count_words(catalog@, folders as nat, files as nat),
{
    let f = if folders == 1 {
        catalog.tr("fm.status.one_folder")
    } else {
        let n = crate::text::decimal_string(folders as u64);
        let args = [("count", n.as_str())];
        let r = catalog.trf("fm.status.many_folders", &args);
        assert(crate::i18n::args_view(args@) =~= seq![("count"@, crate::text::decimal(folders as nat))]);
        r
    };
    let g = if files == 1 {
        catalog.tr("fm.status.one_file")
    } else {
        let n = crate::text::decimal_string(files as u64);
        let args = [("count", n.as_str())];
        let r = catalog.trf("fm.status.many_files", &args);
        assert(crate::i18n::args_view(args@) =~= seq![("count"@, crate::text::decimal(files as nat))]);
        r
    };
    (f, g)
}

} // verus!
