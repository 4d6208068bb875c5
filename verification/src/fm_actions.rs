//! What the file panel's dialogs and menus ask for: settings keys of a
//! panel, view modes, new folders, renames, deletions, duplicates with a
//! free "copy" name, copied paths relative to the panel's root, and the
//! name, icon and favourite mark of the drive a dialog works on.
use vstd::prelude::*;
use crate::paths::{path_string, strings_view, with_trailing_slash, dir_prefix};
use crate::panel::{Panel, parts_of, child_path, files_view};
use crate::text::{
    chars_of, string_from_chars, str_eq, extend_chars, extend_str, starts_with, ends_with, has_prefix,
    decimal, decimal_string, trim, trim_chars, contains_chars, occurs_at,
};

verus! {

// ---------------------------------------------------------------------------
// Settings keys and view modes
// ---------------------------------------------------------------------------

/// The settings key of a panel: the base key for the default panel, else
/// the base key, `_` and the panel's id.
pub open spec fn panel_key_spec(base: Seq<char>, panel_id: Seq<char>) -> Seq<char> {
    if panel_id == "default"@ { base } else { base + "_"@ + panel_id }
}

/// The settings key of a panel for a base key.
pub fn panel_key(base: &str, panel_id: &str) -> (res: String)
    ensures
        res@ == panel_key_spec(base@, panel_id@),
{
    if str_eq(panel_id, "default") {
        return base.to_owned();
    }
    let mut out = chars_of(base);
    extend_str(&mut out, "_");
    extend_str(&mut out, panel_id);
    string_from_chars(out.as_slice())
}

/// The key under which a panel keeps its icon size.
pub fn grid_size_key(panel_id: &str) -> (res: String)
    ensures
        res@ == panel_key_spec("ui.fm_grid_icon_size"@, panel_id@),
{
    panel_key("ui.fm_grid_icon_size", panel_id)
}

/// The key under which a panel keeps its sort column.
pub fn sort_column_key(panel_id: &str) -> (res: String)
    ensures
        res@ == panel_key_spec("ui.fm_sort_col"@, panel_id@),
{
    panel_key("ui.fm_sort_col", panel_id)
}

/// The key under which a panel keeps its sort direction.
pub fn sort_direction_key(panel_id: &str) -> (res: String)
    ensures
        res@ == panel_key_spec("ui.fm_sort_dir"@, panel_id@),
{
    panel_key("ui.fm_sort_dir", panel_id)
}

/// The key that says whether a panel shows hidden files: one key for all
/// panels while the setting is shared (and for the default panel), else
/// one per panel.
pub fn show_hidden_key(shared: bool, panel_id: &str) -> (res: String)
    ensures
        res@ == (if shared || panel_id@ == "default"@ { "ui.show_hidden_files"@ } else { "ui.show_hidden_files_"@ + panel_id@ }),
{
    if shared || str_eq(panel_id, "default") {
        return "ui.show_hidden_files".to_owned();
    }
    let mut out = chars_of("ui.show_hidden_files_");
    extend_str(&mut out, panel_id);
    string_from_chars(out.as_slice())
}

/// The icon size of a view mode: 30 for the list, 40 for small icons, 80
/// for anything else.
pub open spec fn size_for_mode_spec(mode: Seq<char>) -> u32 {
    if mode == "list"@ { 30 } else if mode == "small"@ { 40 } else { 80 }
}

/// The view mode of an icon size: the list for 30, small icons for 40,
/// large icons for anything else.
pub open spec fn mode_for_size_spec(size: u32) -> Seq<char> {
    if size == 30 { "list"@ } else if size == 40 { "small"@ } else { "large"@ }
}

/// The icon size of a view mode.
pub fn size_for_mode(mode: &str) -> (res: u32)
    ensures
        res == size_for_mode_spec(mode@),
{
    if str_eq(mode, "list") { 30 } else if str_eq(mode, "small") { 40 } else { 80 }
}

/// The view mode of an icon size.
pub fn mode_for_size(size: u32) -> (res: &'static str)
    ensures
        res@ == mode_for_size_spec(size),
{
    if size == 30 { "list" } else if size == 40 { "small" } else { "large" }
}

/// Choosing a view mode and reading the mode back from the icon size it
/// sets gives the same mode.
pub proof fn lemma_view_mode_round_trip(mode: Seq<char>)
    requires
        mode == "list"@ || mode == "small"@ || mode == "large"@,
    ensures
        mode_for_size_spec(size_for_mode_spec(mode)) == mode,
{
    reveal_strlit("list");
    reveal_strlit("small");
    reveal_strlit("large");
}

/// The icon size the grid draws: 30 and 40 as they are, 80 for any other.
pub fn grid_icon_size(size: u32) -> (res: u32)
    ensures
        res == (if size == 30 || size == 40 { size } else { 80 }),
{
    if size == 30 || size == 40 { size } else { 80 }
}

/// Icon size and vertical margin of list rows for the row-size setting:
/// `compact`, `tiny`, or the normal size.
pub fn list_row_metrics(setting: Option<&str>) -> (res: (i32, i32))
    ensures
        res == (match setting {
            Some(s) => if s@ == "compact"@ { (24i32, 3i32) } else if s@ == "tiny"@ { (20i32, 2i32) } else { (30i32, 4i32) },
            None => (30i32, 4i32),
        }),
{
    match setting {
        Some(s) => {
            if str_eq(s, "compact") {
                (24, 3)
            } else if str_eq(s, "tiny") {
                (20, 2)
            } else {
                (30, 4)
            }
        },
        None => (30, 4),
    }
}

// ---------------------------------------------------------------------------
// Requests from the dialogs
// ---------------------------------------------------------------------------

/// A name the file dialogs accept for a new folder or a rename: not empty
/// and without `/`.
pub open spec fn valid_new_name(name: Seq<char>) -> bool {
    name.len() > 0 && !name.contains('/')
}

fn is_valid_new_name(name: &str) -> (res: bool)
    ensures
        res == valid_new_name(name@),
{
    let nc = chars_of(name);
    let slash = chars_of("/");
    proof { reveal_strlit("/"); }
    let has_slash = contains_chars(nc.as_slice(), slash.as_slice());
    proof {
        if name@.contains('/') {
            let k = choose|k: int| 0 <= k < name@.len() && name@[k] == '/';
            assert(occurs_at(name@, "/"@, k)) by {
                assert(name@.subrange(k, k + 1) =~= "/"@);
            }
        }
        if has_slash {
            let k = choose|k: int| occurs_at(name@, "/"@, k);
            assert(name@[k] == name@.subrange(k, k + 1)[0]);
        }
    }
    nc.len() > 0 && !has_slash
}

/// The new folder the create dialog asks for: the current directory and
/// the name, when the name is valid.
pub fn mkdir_request(panel: &Panel, name: &str) -> (res: Option<(String, String)>)
    ensures
        valid_new_name(name@) ==> (res matches Some(r) && r.0@ == path_string(parts_of(panel)) && r.1@ == name@),
        !valid_new_name(name@) ==> res is None,
{
    if !is_valid_new_name(name) {
        return None;
    }
    Some((panel.current_path_string(), name.to_owned()))
}

/// The rename the rename dialog asks for, as old and new paths below
/// `parent`: none for an invalid or unchanged name.
pub fn rename_request(parent: &str, old_name: &str, new_name: &str) -> (res: Option<(String, String)>)
    ensures
        (valid_new_name(new_name@) && new_name@ != old_name@) ==> (res matches Some(r)
            && r.0@ == with_trailing_slash(parent@) + old_name@
            && r.1@ == with_trailing_slash(parent@) + new_name@),
        !(valid_new_name(new_name@) && new_name@ != old_name@) ==> res is None,
{
    if !is_valid_new_name(new_name) || str_eq(new_name, old_name) {
        return None;
    }
    let p = dir_prefix(parent);
    let pc = chars_of(p.as_str());
    let mut a = chars_of(p.as_str());
    extend_str(&mut a, old_name);
    let mut b = pc;
    extend_str(&mut b, new_name);
    Some((string_from_chars(a.as_slice()), string_from_chars(b.as_slice())))
}

/// What the delete dialog deletes: the path and the name of each selected
/// file.
pub fn delete_request(panel: &Panel, files: &[(String, bool)]) -> (res: (Vec<String>, Vec<String>))
    ensures
        res.0@.len() == files@.len(),
        res.1@.len() == files@.len(),
        forall|i: int| 0 <= i < files@.len() ==> (#[trigger] res.0@[i])@ == child_path(parts_of(panel), files@[i].0@),
        forall|i: int| 0 <= i < files@.len() ==> (#[trigger] res.1@[i])@ == files@[i].0@,
{
    let mut paths: Vec<String> = Vec::new();
    let mut names: Vec<String> = Vec::new();
    let mut i: usize = 0;
    while i < files.len()
        invariant
            i <= files@.len(),
            paths@.len() == i,
            names@.len() == i,
            forall|k: int| 0 <= k < i ==> (#[trigger] paths@[k])@ == child_path(parts_of(panel), files@[k].0@),
            forall|k: int| 0 <= k < i ==> (#[trigger] names@[k])@ == files@[k].0@,
        decreases files.len() - i,
    {
        paths.push(panel.child_path(files[i].0.as_str()));
        names.push(files[i].0.clone());
        i += 1;
    }
    (paths, names)
}

/// The text of the delete confirmation: the one path for a single file,
/// the count for several.
pub fn delete_prompt(catalog: &crate::i18n::Catalog, panel: &Panel, files: &[(String, bool)]) -> (res: Option<String>)
    ensures
        files@.len() == 0 ==> res is None,
        files@.len() == 1 ==> (res matches Some(t) && t@ == crate::i18n::interpolate(
            crate::i18n::translate(catalog@, "fm.confirm_delete_single"@),
            seq![("path"@, child_path(parts_of(panel), files@[0].0@))])),
        files@.len() > 1 ==> (res matches Some(t) && t@ == crate::i18n::interpolate(
            crate::i18n::translate(catalog@, "fm.confirm_delete_multiple"@),
            seq![("count"@, decimal(files@.len() as nat))])),
{
    if files.len() == 0 {
        return None;
    }
    if files.len() == 1 {
        let p = panel.child_path(files[0].0.as_str());
        let args = [("path", p.as_str())];
        let t = catalog.trf("fm.confirm_delete_single", &args);
        assert(crate::i18n::args_view(args@) =~= seq![("path"@, p@)]);
        return Some(t);
    }
    let n = decimal_string(files.len() as u64);
    let args = [("count", n.as_str())];
    let t = catalog.trf("fm.confirm_delete_multiple", &args);
    assert(crate::i18n::args_view(args@) =~= seq![("count"@, decimal(files@.len() as nat))]);
    Some(t)
}

/// The address typed in the address bar, trimmed; nothing when it is
/// blank.
pub fn typed_address(text: &str) -> (res: Option<String>)
    ensures
        trim(text@).len() == 0 ==> res is None,
        trim(text@).len() > 0 ==> (res matches Some(t) && t@ == trim(text@)),
{
    let c = chars_of(text);
    let t = trim_chars(c.as_slice());
    if t.len() == 0 { None } else { Some(string_from_chars(t.as_slice())) }
}

/// Where files dropped on the panel are uploaded: the current directory,
/// when any file was dropped.
pub fn upload_target(panel: &Panel, dropped: usize) -> (res: Option<String>)
    ensures
        dropped == 0 ==> res is None,
        dropped > 0 ==> (res matches Some(p) && p@ == path_string(parts_of(panel))),
{
    if dropped == 0 { None } else { Some(panel.current_path_string()) }
}

/// What the permissions dialog works on: the first selected file (not
/// `..`), its path, and its mode as the listing gave it (`0o644` when the
/// listing gave none).
pub fn chmod_target(panel: &Panel) -> (res: Option<(String, String, u32)>)
    ensures
        (panel.selected@.len() == 0 || panel.selected@[0].0@ == ".."@) ==> res is None,
        !(panel.selected@.len() == 0 || panel.selected@[0].0@ == ".."@) ==> (res matches Some(r)
            && r.1@ == panel.selected@[0].0@
            && r.0@ == child_path(parts_of(panel), panel.selected@[0].0@)
            && r.2 == (match crate::panel::first_entry_named(panel.entries@, panel.selected@[0].0@) {
                Some(i) => match panel.entries@[i].permissions { Some(m) => m, None => 0o644u32 },
                None => 0o644u32,
            })),
{
    proof { reveal_strlit(".."); }
    if panel.selected.len() == 0 || str_eq(panel.selected[0].0.as_str(), "..") {
        return None;
    }
    let name = panel.selected[0].0.clone();
    let mode = match crate::panel::find_entry(&panel.entries, name.as_str()) {
        Some(i) => match panel.entries[i].permissions {
            Some(m) => m,
            None => 0o644,
        },
        None => 0o644,
    };
    let path = panel.child_path(name.as_str());
    Some((path, name, mode))
}

// ---------------------------------------------------------------------------
// Duplicates
// ---------------------------------------------------------------------------

/// The position of the last `c` in `s`, if any.
pub open spec fn last_index_of(s: Seq<char>, c: char) -> Option<int>
    decreases s.len(),
{
    if s.len() == 0 {
        None
    } else if s.last() == c {
        Some(s.len() - 1)
    } else {
        last_index_of(s.drop_last(), c)
    }
}

proof fn lemma_last_index_bound(s: Seq<char>, c: char)
    ensures
        last_index_of(s, c) matches Some(i) ==> 0 <= i < s.len() && s[i] == c,
    decreases s.len(),
{
    if s.len() > 0 && s.last() != c {
        lemma_last_index_bound(s.drop_last(), c);
    }
}

/// Stem and extension of a name for its copies: a file's name splits at
/// its last `.` unless that is its first character; a folder's does not
/// split.
pub open spec fn stem_and_ext(name: Seq<char>, is_dir: bool) -> (Seq<char>, Seq<char>) {
    match last_index_of(name, '.') {
        Some(i) => if !is_dir && i > 0 { (name.take(i), name.skip(i)) } else { (name, Seq::empty()) },
        None => (name, Seq::empty()),
    }
}

/// The `n`th name tried for a copy: `stem copy.ext`, then `stem copy 2.ext`,
/// `stem copy 3.ext` and so on.
pub open spec fn copy_candidate(stem: Seq<char>, ext: Seq<char>, n: nat) -> Seq<char> {
    if n == 1 { stem + " copy"@ + ext } else { stem + " copy "@ + decimal(n) + ext }
}

/// The name of a copy: the first candidate that no existing name takes.
pub open spec fn is_copy_name(name: Seq<char>, is_dir: bool, existing: Seq<Seq<char>>, res: Seq<char>) -> bool {
    let (stem, ext) = stem_and_ext(name, is_dir);
    exists|n: nat| n >= 1 && res == #[trigger] copy_candidate(stem, ext, n) && !existing.contains(res)
        && forall|m: nat| 1 <= m < n ==> existing.contains(copy_candidate(stem, ext, m))
}

fn last_dot(s: &[char]) -> (res: Option<usize>)
    ensures
        res == (match last_index_of(s@, '.') { Some(i) => Some(i as usize), None => None::<usize> }),
        res matches Some(i) ==> i < s@.len(),
{
    let mut k: usize = s.len();
    assert(s@.take(k as int) =~= s@);
    while k > 0
        invariant
            k <= s@.len(),
            last_index_of(s@, '.') == last_index_of(s@.take(k as int), '.'),
        decreases k,
    {
        assert(s@.take(k as int).last() == s@[k - 1]);
        if s[k - 1] == '.' {
            return Some(k - 1);
        }
        assert(s@.take(k as int).drop_last() =~= s@.take(k - 1));
        k -= 1;
    }
    None
}

/// Decimal representations of different numbers differ.
pub proof fn lemma_decimal_injective(a: nat, b: nat)
    requires
        decimal(a) == decimal(b),
    ensures
        a == b,
    decreases a,
{
    lemma_decimal_len(a);
    lemma_decimal_len(b);
    if a < 10 && b < 10 {
        assert(decimal(a) == seq![crate::text::digit_char(a)]);
        assert(decimal(b) == seq![crate::text::digit_char(b)]);
        assert(decimal(a)[0] == crate::text::digit_char(a));
        assert(decimal(b)[0] == crate::text::digit_char(b));
        assert(crate::text::digit_char(a) == crate::text::digit_char(b));
        lemma_digit_char_injective(a, b);
    } else if a >= 10 && b >= 10 {
        assert(decimal(a).drop_last() == decimal(b).drop_last());
        assert(decimal(a).drop_last() =~= decimal(a / 10));
        assert(decimal(b).drop_last() =~= decimal(b / 10));
        lemma_decimal_injective(a / 10, b / 10);
        assert(decimal(a) == decimal(a / 10).push(crate::text::digit_char(a % 10)));
        assert(decimal(b) == decimal(b / 10).push(crate::text::digit_char(b % 10)));
        assert(decimal(a).last() == crate::text::digit_char(a % 10));
        assert(decimal(b).last() == crate::text::digit_char(b % 10));
        lemma_digit_char_injective(a % 10, b % 10);
    }
}

proof fn lemma_digit_char_injective(x: nat, y: nat)
    requires
        x < 10,
        y < 10,
        crate::text::digit_char(x) == crate::text::digit_char(y),
    ensures
        x == y,
{
    assert((crate::text::digit_char(x) as u32) == x + 48);
    assert((crate::text::digit_char(y) as u32) == y + 48);
}

/// A one-digit number has a one-character representation, others longer.
pub proof fn lemma_decimal_len(n: nat)
    ensures
        n < 10 ==> decimal(n).len() == 1,
        n >= 10 ==> decimal(n).len() >= 2,
    decreases n,
{
    if n >= 10 {
        lemma_decimal_len(n / 10);
    }
}

/// Different candidates are different names.
proof fn lemma_candidates_distinct(stem: Seq<char>, ext: Seq<char>, n: nat, m: nat)
    requires
        n >= 1,
        m >= 1,
        copy_candidate(stem, ext, n) == copy_candidate(stem, ext, m),
    ensures
        n == m,
{
    reveal_strlit(" copy");
    reveal_strlit(" copy ");
    let cn = copy_candidate(stem, ext, n);
    if n != 1 && m != 1 {
        let lo: int = stem.len() as int + 6;
        let dn = cn.subrange(lo, cn.len() - ext.len());
        assert(dn =~= decimal(n));
        let cm = copy_candidate(stem, ext, m);
        assert(cm.subrange(lo, cm.len() - ext.len()) =~= decimal(m));
        lemma_decimal_injective(n, m);
    } else if n == 1 && m != 1 {
        lemma_decimal_len(m);
        assert(copy_candidate(stem, ext, n).len() != copy_candidate(stem, ext, m).len());
    } else if n != 1 && m == 1 {
        lemma_decimal_len(n);
        assert(copy_candidate(stem, ext, n).len() != copy_candidate(stem, ext, m).len());
    }
}

/// Among the first `len + 1` candidates, one is not among `len` existing
/// names.
proof fn lemma_free_candidate(stem: Seq<char>, ext: Seq<char>, existing: Seq<Seq<char>>)
    ensures
        exists|n: nat| 1 <= n <= existing.len() + 1 && !existing.contains(#[trigger] copy_candidate(stem, ext, n)),
{
    if forall|n: nat| 1 <= n <= existing.len() + 1 ==> existing.contains(#[trigger] copy_candidate(stem, ext, n)) {
        let l = existing.len() as int;
        let x = vstd::set_lib::set_int_range(1, l + 2);
        vstd::set_lib::lemma_int_range(1, l + 2);
        let f = |i: int| copy_candidate(stem, ext, i as nat);
        assert(vstd::relations::injective_on(f, x)) by {
            assert forall|a: int, b: int| x.contains(a) && x.contains(b) && #[trigger] f(a) == #[trigger] f(b) implies a == b by {
                lemma_candidates_distinct(stem, ext, a as nat, b as nat);
            }
        }
        let y = x.map(f);
        vstd::set_lib::lemma_map_size(x, y, f);
        existing.lemma_cardinality_of_set();
        assert(y.subset_of(existing.to_set())) by {
            assert forall|s: Seq<char>| y.contains(s) implies existing.to_set().contains(s) by {
                let i = choose|i: int| x.contains(i) && f(i) == s;
                assert(existing.contains(copy_candidate(stem, ext, i as nat)));
            }
        }
        vstd::set_lib::lemma_len_subset(y, existing.to_set());
    }
}

/// The name for a duplicate of `name` in a directory holding `existing`.
pub fn unique_copy_name(name: &str, is_dir: bool, existing: &[String]) -> (res: String)
    requires
        existing@.len() < usize::MAX,
    ensures
        is_copy_name(name@, is_dir, strings_view(existing@), res@),
{
    let nc = chars_of(name);
    let ghost ex = strings_view(existing@);
    proof { lemma_last_index_bound(name@, '.'); }
    let (stem, ext): (Vec<char>, Vec<char>) = match last_dot(nc.as_slice()) {
        Some(i) => {
            if !is_dir && i > 0 {
                let mut a: Vec<char> = Vec::new();
                let mut b: Vec<char> = Vec::new();
                let mut k: usize = 0;
                while k < nc.len()
                    invariant
                        k <= nc@.len(),
                        i < nc@.len(),
                        k <= i ==> a@ == nc@.take(k as int) && b@.len() == 0,
                        k > i ==> a@ == nc@.take(i as int) && b@ == nc@.subrange(i as int, k as int),
                    decreases nc.len() - k,
                {
                    if k < i {
                        a.push(nc[k]);
                        assert(nc@.take(k + 1) =~= nc@.take(k as int).push(nc@[k as int]));
                    } else {
                        let ghost before = b@;
                        b.push(nc[k]);
                        assert(nc@.subrange(i as int, k + 1) =~= nc@.subrange(i as int, k as int).push(nc@[k as int]));
                        if k == i {
                            assert(before.len() == 0);
                        }
                    }
                    k += 1;
                }
                assert(nc@.subrange(i as int, nc@.len() as int) =~= nc@.skip(i as int));
                (a, b)
            } else {
                (chars_of(name), Vec::new())
            }
        },
        None => (chars_of(name), Vec::new()),
    };
    let ghost st = stem_and_ext(name@, is_dir);
    assert(stem@ == st.0 && ext@ == st.1);
    proof { lemma_free_candidate(stem@, ext@, ex); }
    let mut n: usize = 1;
    loop
        invariant
            1 <= n <= ex.len() + 1,
            ex == strings_view(existing@),
            existing@.len() < usize::MAX,
            stem@ == st.0,
            ext@ == st.1,
            st == stem_and_ext(name@, is_dir),
            exists|k: nat| 1 <= k <= ex.len() + 1 && !ex.contains(#[trigger] copy_candidate(stem@, ext@, k)),
            forall|m: nat| 1 <= m < n ==> ex.contains(#[trigger] copy_candidate(stem@, ext@, m)),
        decreases ex.len() + 1 - n,
    {
        let mut cand = stem.clone();
        proof {
            reveal_strlit(" copy");
            reveal_strlit(" copy ");
        }
        if n == 1 {
            extend_str(&mut cand, " copy");
        } else {
            extend_str(&mut cand, " copy ");
            let d = decimal_string(n as u64);
            extend_str(&mut cand, d.as_str());
        }
        extend_chars(&mut cand, ext.as_slice());
        assert(cand@ =~= copy_candidate(stem@, ext@, n as nat));
        let c = string_from_chars(cand.as_slice());
        let mut found = false;
        let mut j: usize = 0;
        while j < existing.len()
            invariant
                j <= existing@.len(),
                ex == strings_view(existing@),
                found <==> exists|k: int| 0 <= k < j && ex[k] == c@,
            decreases existing.len() - j,
        {
            if str_eq(existing[j].as_str(), c.as_str()) {
                assert(ex[j as int] == c@);
                found = true;
            }
            j += 1;
        }
        if !found {
            proof {
                assert(!ex.contains(c@));
                assert(is_copy_name(name@, is_dir, ex, c@)) by {
                    assert(c@ == copy_candidate(stem@, ext@, n as nat));
                }
            }
            return c;
        }
        proof {
            assert(ex.contains(c@));
            if n == ex.len() + 1 {
                let k = choose|k: nat| 1 <= k <= ex.len() + 1 && !ex.contains(#[trigger] copy_candidate(stem@, ext@, k));
                assert(ex.contains(copy_candidate(stem@, ext@, k)));
            }
        }
        n += 1;
    }
}

/// The duplicate the context menu asks for: source path and the path of
/// the copy, both below the directory prefix.
pub fn duplicate_request(parent: &str, name: &str, is_dir: bool, existing: &[String]) -> (res: (String, String))
    requires
        existing@.len() < usize::MAX,
    ensures
        res.0@ == with_trailing_slash(parent@) + name@,
        exists|copy: Seq<char>| is_copy_name(name@, is_dir, strings_view(existing@), copy)
            && res.1@ == with_trailing_slash(parent@) + copy,
{
    let p = dir_prefix(parent);
    let copy = unique_copy_name(name, is_dir, existing);
    let mut a = chars_of(p.as_str());
    extend_str(&mut a, name);
    let mut b = chars_of(p.as_str());
    extend_str(&mut b, copy.as_str());
    (string_from_chars(a.as_slice()), string_from_chars(b.as_slice()))
}

/// The path the "copy path" menu item copies: below a root other than `/`
/// the part after the root, starting with `/`; otherwise the full path.
pub open spec fn relative_to_root_spec(full: Seq<char>, root: Seq<char>) -> Seq<char> {
    if root.len() > 0 && root != "/"@ && starts_with(full, root) {
        let rel = full.skip(root.len() as int);
        if starts_with(rel, "/"@) { rel } else { "/"@ + rel }
    } else {
        full
    }
}

/// The path of an item relative to the panel's root.
pub fn relative_to_root(full: &str, root: &str) -> (res: String)
    ensures
        res@ == relative_to_root_spec(full@, root@),
{
    let f = chars_of(full);
    let r = chars_of(root);
    let slash = chars_of("/");
    proof { reveal_strlit("/"); }
    if r.len() > 0 && !str_eq(root, "/") && has_prefix(f.as_slice(), r.as_slice()) {
        let mut rel: Vec<char> = Vec::new();
        let mut i: usize = r.len();
        let ghost start = r@.len() as int;
        while i < f.len()
            invariant
                r@.len() <= i <= f@.len(),
                start == r@.len(),
                rel@ == f@.subrange(start, i as int),
            decreases f.len() - i,
        {
            rel.push(f[i]);
            assert(f@.subrange(start, i + 1) =~= f@.subrange(start, i as int).push(f@[i as int]));
            i += 1;
        }
        assert(f@.subrange(start, f@.len() as int) =~= f@.skip(start));
        if has_prefix(rel.as_slice(), slash.as_slice()) {
            return string_from_chars(rel.as_slice());
        }
        let mut out = chars_of("/");
        extend_chars(&mut out, rel.as_slice());
        return string_from_chars(out.as_slice());
    }
    full.to_owned()
}

/// The items of a row's context menu.
#[derive(Clone, Copy, Debug, PartialEq, Eq, Structural)]
pub enum MenuItem {
    CopyPath,
    Cut,
    Copy,
    PasteHere,
    PasteInto,
    Download,
    Rename,
    Duplicate,
    Delete,
    Permissions,
}

/// The items of a row's context menu, in order: pasting into the row is
/// offered for a folder, downloading for a file.
pub open spec fn menu_items_spec(is_dir: bool) -> Seq<MenuItem> {
    seq![MenuItem::CopyPath, MenuItem::Cut, MenuItem::Copy, MenuItem::PasteHere]
        + (if is_dir { seq![MenuItem::PasteInto] } else { seq![MenuItem::Download] })
        + seq![MenuItem::Rename, MenuItem::Duplicate, MenuItem::Delete, MenuItem::Permissions]
}

/// The items of a row's context menu.
pub fn context_menu_items(is_dir: bool) -> (res: Vec<MenuItem>)
    ensures
        res@ == menu_items_spec(is_dir),
{
    let mut v: Vec<MenuItem> = Vec::new();
    v.push(MenuItem::CopyPath);
    v.push(MenuItem::Cut);
    v.push(MenuItem::Copy);
    v.push(MenuItem::PasteHere);
    if is_dir {
        v.push(MenuItem::PasteInto);
    } else {
        v.push(MenuItem::Download);
    }
    v.push(MenuItem::Rename);
    v.push(MenuItem::Duplicate);
    v.push(MenuItem::Delete);
    v.push(MenuItem::Permissions);
    assert(v@ =~= menu_items_spec(is_dir));
    v
}

/// Whether a menu item reacts: pasting needs something on the clipboard.
pub fn menu_item_enabled(item: MenuItem, clipboard_held: usize) -> (res: bool)
    ensures
        res == (if item == MenuItem::PasteHere || item == MenuItem::PasteInto { clipboard_held > 0 } else { true }),
{
    match item {
        MenuItem::PasteHere | MenuItem::PasteInto => clipboard_held > 0,
        _ => true,
    }
}

/// A clipboard action.
#[derive(Clone, Copy, Debug, PartialEq, Eq, Structural)]
pub enum ClipAction {
    Cut,
    Copy,
    Paste,
}

/// The clipboard request of a menu item on the row `name`: pasting into a
/// folder names it.
pub fn clip_request(item: MenuItem, name: &str) -> (res: Option<(ClipAction, Option<String>)>)
    ensures
        item == MenuItem::Cut ==> (res matches Some((a, None)) && a == ClipAction::Cut),
        item == MenuItem::Copy ==> (res matches Some((a, None)) && a == ClipAction::Copy),
        item == MenuItem::PasteHere ==> (res matches Some((a, None)) && a == ClipAction::Paste),
        item == MenuItem::PasteInto ==> (res matches Some((a, Some(n))) && a == ClipAction::Paste && n@ == name@),
        !(item == MenuItem::Cut || item == MenuItem::Copy || item == MenuItem::PasteHere || item == MenuItem::PasteInto)
            ==> res is None,
{
    match item {
        MenuItem::Cut => Some((ClipAction::Cut, None)),
        MenuItem::Copy => Some((ClipAction::Copy, None)),
        MenuItem::PasteHere => Some((ClipAction::Paste, None)),
        MenuItem::PasteInto => Some((ClipAction::Paste, Some(name.to_owned()))),
        _ => None,
    }
}

/// The path a menu item of the row `name` works on: the name below the
/// directory, with one `/` between.
pub fn item_path(parent: &str, name: &str) -> (res: String)
    ensures
        res@ == with_trailing_slash(parent@) + name@,
{
    let p = dir_prefix(parent);
    let mut out = chars_of(p.as_str());
    extend_str(&mut out, name);
    string_from_chars(out.as_slice())
}

/// What a right click on a row does: nothing on `..`; otherwise the row
/// joins the selection when it is not in it (the result says so) and the
/// context menu opens.
pub fn right_click(name: &str, already_selected: bool) -> (res: Option<bool>)
    ensures
        name@ == ".."@ ==> res is None,
        name@ != ".."@ ==> res == Some(!already_selected),
{
    if str_eq(name, "..") {
        None
    } else {
        Some(!already_selected)
    }
}

/// The name a file being uploaded shows until the listing has it: an
/// hourglass, a space and its name.
pub fn upload_placeholder_name(name: &str) -> (res: String)
    ensures
        res@ == seq!['\u{23f3}', ' '] + name@,
{
    let mut out: Vec<char> = Vec::new();
    out.push('\u{23f3}');
    out.push(' ');
    extend_str(&mut out, name);
    string_from_chars(out.as_slice())
}

/// The translation key of a text of the mount dialog: of unmounting a
/// mounted drive or of mounting one.
pub fn mount_dialog_key(mounted: bool, suffix: &str) -> (res: String)
    ensures
        res@ == "fm.webdav."@ + (if mounted { "unmount"@ } else { "mount"@ }) + "_"@ + suffix@,
{
    let mut out = chars_of("fm.webdav.");
    extend_str(&mut out, if mounted { "unmount" } else { "mount" });
    extend_str(&mut out, "_");
    extend_str(&mut out, suffix);
    string_from_chars(out.as_slice())
}

/// The icon size a panel starts with: the stored one, else large icons.
pub fn stored_icon_size(stored: Option<u32>) -> (res: u32)
    ensures
        res == (match stored { Some(v) => v, None => 80u32 }),
{
    match stored {
        Some(v) => v,
        None => 80,
    }
}

} // verus!
