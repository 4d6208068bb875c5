//! The two-panel file manager: the commands that the panels' requests and
//! the function keys turn into, and how the selection a panel shows is
//! made the selection the file service works on.
use vstd::prelude::*;
use crate::paths::{join, join_spec, basename, basename_spec, strings_view};
use crate::text::{chars_of, string_from_chars, str_eq, trim, trim_chars, decimal, decimal_string};
use crate::i18n::{Catalog, translate, interpolate};

verus! {

/// One of the two panels.
#[derive(Clone, Copy, Debug, PartialEq, Eq, Structural)]
pub enum Side {
    Left,
    Right,
}

/// The other panel.
pub open spec fn other_spec(s: Side) -> Side {
    match s {
        Side::Left => Side::Right,
        Side::Right => Side::Left,
    }
}

/// The other panel.
pub fn other(s: Side) -> (res: Side)
    ensures
        res == other_spec(s),
{
    match s {
        Side::Left => Side::Right,
        Side::Right => Side::Left,
    }
}

/// An entry of a panel's directory as the file service lists it.
pub struct PaneEntry {
    pub name: String,
    pub is_dir: bool,
    pub size: u64,
}

/// What the file service reports of a panel.
pub struct PaneState {
    pub cwd: String,
    pub entries: Vec<PaneEntry>,
    pub cursor: usize,
    pub selection: Vec<usize>,
    pub last_error: Option<String>,
    pub mounted: bool,
}

/// A command to the file service.
pub enum PaneCommand {
    Navigate { side: Side, path: String },
    Up { side: Side },
    Breadcrumb { side: Side, index: usize },
    Refresh { side: Side },
    ToggleSelect { side: Side, index: usize },
    Cursor { side: Side, index: usize },
    Copy { side: Side },
    Move { side: Side },
    Mkdir { side: Side, name: String },
    Rename { side: Side, new_name: String },
    Delete { side: Side },
    Duplicate { side: Side, path: String, new_name: String },
    Upload { side: Side, dir: String, files: Vec<String> },
    Back { side: Side },
    Forward { side: Side },
    Mount { side: Side },
    Unmount { side: Side },
    Chmod { side: Side, path: String, mode: u32 },
    Activate { side: Side },
}

/// The names of a panel's entries.
pub open spec fn entry_names(es: Seq<PaneEntry>) -> Seq<Seq<char>> {
    es.map_values(|e: PaneEntry| e.name@)
}

/// The first entry with this name.
pub open spec fn index_of(es: Seq<PaneEntry>, name: Seq<char>) -> Option<int> {
    if exists|i: int| 0 <= i < es.len() && es[i].name@ == name {
        Some(choose|i: int| 0 <= i < es.len() && es[i].name@ == name && forall|k: int| 0 <= k < i ==> es[k].name@ != name)
    } else {
        None
    }
}

/// The position of the first entry with this name.
pub fn find_entry(es: &Vec<PaneEntry>, name: &str) -> (res: Option<usize>)
    ensures
        index_of(es@, name@) == (match res { Some(i) => Some(i as int), None => None::<int> }),
        res matches Some(i) ==> i < es@.len(),
{
    let mut k: usize = 0;
    while k < es.len()
        invariant
            k <= es@.len(),
            forall|j: int| 0 <= j < k ==> es@[j].name@ != name@,
        decreases es.len() - k,
    {
        if str_eq(es[k].name.as_str(), name) {
            proof {
                let c = choose|c: int| 0 <= c < es@.len() && es@[c].name@ == name@ && forall|j: int| 0 <= j < c ==> es@[j].name@ != name@;
                if c < k {
                } else if c > k {
                }
            }
            return Some(k);
        }
        k += 1;
    }
    None
}

/// The positions of the named entries that the panel has, in order of
/// the names.
pub open spec fn wanted(es: Seq<PaneEntry>, names: Seq<Seq<char>>) -> Seq<usize>
    decreases names.len(),
{
    if names.len() == 0 {
        Seq::empty()
    } else {
        let prev = wanted(es, names.drop_last());
        match index_of(es, names.last()) {
            Some(i) => prev.push(i as usize),
            None => prev,
        }
    }
}

/// The positions of the named entries.
pub fn wanted_indices(es: &Vec<PaneEntry>, names: &[String]) -> (res: Vec<usize>)
    ensures
        res@ == wanted(es@, strings_view(names@)),
        forall|k: int| 0 <= k < res@.len() ==> (#[trigger] res@[k]) < es@.len(),
{
    let ghost nv = strings_view(names@);
    let mut v: Vec<usize> = Vec::new();
    let mut i: usize = 0;
    assert(nv.take(0) =~= Seq::<Seq<char>>::empty());
    while i < names.len()
        invariant
            i <= names@.len(),
            nv == strings_view(names@),
            v@ == wanted(es@, nv.take(i as int)),
            forall|k: int| 0 <= k < v@.len() ==> (#[trigger] v@[k]) < es@.len(),
        decreases names.len() - i,
    {
        assert(nv.take(i + 1).drop_last() =~= nv.take(i as int));
        assert(nv.take(i + 1).last() == names@[i as int]@);
        match find_entry(es, names[i].as_str()) {
            Some(k) => v.push(k),
            None => {},
        }
        i += 1;
    }
    assert(nv.take(names@.len() as int) =~= nv);
    v
}

/// The toggles that turn the selection `sel` into `want`: first each
/// selected position that is not wanted, then each wanted position that is
/// not selected.
pub open spec fn toggles(sel: Seq<usize>, want: Seq<usize>) -> Seq<usize> {
    sel.filter(|i: usize| !want.contains(i)) + want.filter(|i: usize| !sel.contains(i))
}

/// The toggle commands for the selection and the wanted positions.
pub fn selection_toggles(side: Side, sel: &Vec<usize>, want: &Vec<usize>) -> (res: Vec<PaneCommand>)
    ensures
        res@.len() == toggles(sel@, want@).len(),
        forall|k: int| 0 <= k < res@.len() ==> (#[trigger] res@[k]) == (PaneCommand::ToggleSelect { side, index: toggles(sel@, want@)[k] }),
{
    let mut v: Vec<PaneCommand> = Vec::new();
    let ghost t1 = sel@.filter(|i: usize| !want@.contains(i));
    let ghost t2 = want@.filter(|i: usize| !sel@.contains(i));
    let mut i: usize = 0;
    assert(sel@.take(0).filter(|i: usize| !want@.contains(i)) =~= Seq::<usize>::empty());
    while i < sel.len()
        invariant
            i <= sel@.len(),
            v@.len() == sel@.take(i as int).filter(|x: usize| !want@.contains(x)).len(),
            forall|k: int| 0 <= k < v@.len() ==> (#[trigger] v@[k]) == (PaneCommand::ToggleSelect { side, index: sel@.take(i as int).filter(|x: usize| !want@.contains(x))[k] }),
        decreases sel.len() - i,
    {
        assert(sel@.take(i + 1).drop_last() =~= sel@.take(i as int));
        reveal(Seq::filter);
        if !vec_contains(want, sel[i]) {
            v.push(PaneCommand::ToggleSelect { side, index: sel[i] });
        }
        i += 1;
    }
    assert(sel@.take(sel@.len() as int) =~= sel@);
    let ghost n1 = v@.len();
    let mut j: usize = 0;
    assert(want@.take(0).filter(|i: usize| !sel@.contains(i)) =~= Seq::<usize>::empty());
    while j < want.len()
        invariant
            j <= want@.len(),
            n1 == t1.len(),
            t1 == sel@.filter(|x: usize| !want@.contains(x)),
            v@.len() == n1 + want@.take(j as int).filter(|x: usize| !sel@.contains(x)).len(),
            forall|k: int| 0 <= k < n1 ==> (#[trigger] v@[k]) == (PaneCommand::ToggleSelect { side, index: t1[k] }),
            forall|k: int| n1 <= k < v@.len() ==> (#[trigger] v@[k]) == (PaneCommand::ToggleSelect { side, index: want@.take(j as int).filter(|x: usize| !sel@.contains(x))[k - n1] }),
        decreases want.len() - j,
    {
        assert(want@.take(j + 1).drop_last() =~= want@.take(j as int));
        reveal(Seq::filter);
        if !vec_contains(sel, want[j]) {
            v.push(PaneCommand::ToggleSelect { side, index: want[j] });
        }
        j += 1;
    }
    assert(want@.take(want@.len() as int) =~= want@);
    v
}

fn vec_contains(v: &Vec<usize>, x: usize) -> (res: bool)
    ensures
        res == v@.contains(x),
{
    let mut i: usize = 0;
    while i < v.len()
        invariant
            i <= v@.len(),
            forall|k: int| 0 <= k < i ==> v@[k] != x,
        decreases v.len() - i,
    {
        if v[i] == x {
            return true;
        }
        i += 1;
    }
    false
}

/// A selection after toggling each position of `t` in turn.
pub open spec fn apply_toggles(s: Set<usize>, t: Seq<usize>) -> Set<usize>
    decreases t.len(),
{
    if t.len() == 0 {
        s
    } else {
        let prev = apply_toggles(s, t.drop_last());
        if prev.contains(t.last()) { prev.remove(t.last()) } else { prev.insert(t.last()) }
    }
}

/// How often `x` occurs in `t`.
pub open spec fn occurrences(t: Seq<usize>, x: usize) -> nat
    decreases t.len(),
{
    if t.len() == 0 { 0 } else { occurrences(t.drop_last(), x) + if t.last() == x { 1nat } else { 0nat } }
}

proof fn lemma_apply_toggles_parity(s: Set<usize>, t: Seq<usize>, x: usize)
    ensures
        apply_toggles(s, t).contains(x) == (s.contains(x) != (occurrences(t, x) % 2 == 1)),
    decreases t.len(),
{
    if t.len() > 0 {
        lemma_apply_toggles_parity(s, t.drop_last(), x);
    }
}

proof fn lemma_occurrences_concat(a: Seq<usize>, b: Seq<usize>, x: usize)
    ensures
        occurrences(a + b, x) == occurrences(a, x) + occurrences(b, x),
    decreases b.len(),
{
    if b.len() == 0 {
        assert(a + b =~= a);
    } else {
        lemma_occurrences_concat(a, b.drop_last(), x);
        assert((a + b).drop_last() =~= a + b.drop_last());
    }
}

/// A sequence without repetitions holds each element once.
pub open spec fn no_repeats(s: Seq<usize>) -> bool {
    forall|a: int, b: int| 0 <= a < b < s.len() ==> s[a] != s[b]
}

proof fn lemma_occurrences_push(t: Seq<usize>, y: usize, x: usize)
    ensures
        occurrences(t.push(y), x) == occurrences(t, x) + if y == x { 1nat } else { 0nat },
{
    assert(t.push(y).drop_last() =~= t);
}

proof fn lemma_filter_occurrences(s: Seq<usize>, other: Seq<usize>, x: usize)
    requires
        no_repeats(s),
    ensures
        occurrences(s.filter(|i: usize| !other.contains(i)), x)
            == (if s.contains(x) && !other.contains(x) { 1nat } else { 0nat }),
    decreases s.len(),
{
    reveal(Seq::filter);
    if s.len() > 0 {
        let init = s.drop_last();
        let y = s.last();
        assert(no_repeats(init)) by {
            assert forall|a: int, b: int| 0 <= a < b < init.len() implies init[a] != init[b] by {
                assert(init[a] == s[a] && init[b] == s[b]);
            }
        }
        lemma_filter_occurrences(init, other, x);
        let f = |i: usize| !other.contains(i);
        assert(s.filter(f) == (if f(y) { init.filter(f).push(y) } else { init.filter(f) }));
        if f(y) {
            lemma_occurrences_push(init.filter(f), y, x);
        }
        if y == x {
            assert(!init.contains(x)) by {
                if init.contains(x) {
                    let k = choose|k: int| 0 <= k < init.len() && init[k] == x;
                    assert(s[k] == s[s.len() - 1]);
                }
            }
        }
        assert(s.contains(x) == (init.contains(x) || y == x)) by {
            if s.contains(x) {
                let k = choose|k: int| 0 <= k < s.len() && s[k] == x;
                if k < s.len() - 1 {
                    assert(init[k] == x);
                }
            }
            if init.contains(x) {
                let k = choose|k: int| 0 <= k < init.len() && init[k] == x;
                assert(s[k] == x);
            }
        }
    } else {
        assert(!s.contains(x));
    }
}

/// Applying the toggles to a selection without repeated positions makes it
/// exactly the wanted positions (when those hold no repeats either).
pub proof fn lemma_toggles_reach_wanted(sel: Seq<usize>, want: Seq<usize>)
    requires
        no_repeats(sel),
        no_repeats(want),
    ensures
        apply_toggles(sel.to_set(), toggles(sel, want)) == want.to_set(),
{
    assert forall|x: usize| #[trigger] apply_toggles(sel.to_set(), toggles(sel, want)).contains(x) == want.to_set().contains(x) by {
        lemma_apply_toggles_parity(sel.to_set(), toggles(sel, want), x);
        lemma_occurrences_concat(sel.filter(|i: usize| !want.contains(i)), want.filter(|i: usize| !sel.contains(i)), x);
        lemma_filter_occurrences(sel, want, x);
        lemma_filter_occurrences(want, sel, x);
        assert(sel.to_set().contains(x) == sel.contains(x));
        assert(want.to_set().contains(x) == want.contains(x));
    }
    assert(apply_toggles(sel.to_set(), toggles(sel, want)) =~= want.to_set());
}

/// The files a command works on: the marked names, or else the entry under
/// the cursor.
pub open spec fn targets_spec(es: Seq<PaneEntry>, cursor: usize, marked: Seq<Seq<char>>) -> Seq<Seq<char>> {
    if marked.len() > 0 {
        marked
    } else if cursor < es.len() {
        seq![es[cursor as int].name@]
    } else {
        Seq::empty()
    }
}

/// The names a command works on.
pub fn targets(p: &PaneState, marked: &[String]) -> (res: Vec<String>)
    ensures
        strings_view(res@) == targets_spec(p.entries@, p.cursor, strings_view(marked@)),
{
    if marked.len() > 0 {
        let mut v: Vec<String> = Vec::new();
        let mut i: usize = 0;
        while i < marked.len()
            invariant
                i <= marked@.len(),
                strings_view(v@) == strings_view(marked@).take(i as int),
            decreases marked.len() - i,
        {
            let ghost before = strings_view(v@);
            let s = marked[i].clone();
            v.push(s);
            assert(strings_view(v@) =~= before.push(s@));
            assert(strings_view(marked@).take(i + 1) =~= strings_view(marked@).take(i as int).push(marked@[i as int]@));
            i += 1;
        }
        assert(strings_view(marked@).take(marked@.len() as int) =~= strings_view(marked@));
        return v;
    }
    let mut v: Vec<String> = Vec::new();
    if p.cursor < p.entries.len() {
        v.push(p.entries[p.cursor].name.clone());
        assert(strings_view(v@) =~= seq![p.entries@[p.cursor as int].name@]);
    } else {
        assert(strings_view(v@) =~= Seq::<Seq<char>>::empty());
    }
    v
}

/// The commands that make the service's selection and cursor match what
/// the panel shows: the selection toggles, then moving the cursor to the
/// panel's cursor entry when that is elsewhere.
pub fn reconcile(side: Side, p: &PaneState, marked: &[String], cursor_name: Option<&str>) -> (res: Vec<PaneCommand>)
    ensures
        ({
            let want = wanted(p.entries@, strings_view(marked@));
            let t = toggles(p.selection@, want);
            let move_to = match cursor_name {
                Some(n) => match index_of(p.entries@, n@) { Some(i) => if i != p.cursor { Some(i) } else { None::<int> }, None => None::<int> },
                None => None::<int>,
            };
            &&& res@.len() == t.len() + (if move_to is Some { 1int } else { 0int })
            &&& forall|k: int| 0 <= k < t.len() ==> (#[trigger] res@[k]) == (PaneCommand::ToggleSelect { side, index: t[k] })
            &&& (move_to matches Some(i) ==> res@[t.len() as int] == (PaneCommand::Cursor { side, index: i as usize }))
        }),
{
    let want = wanted_indices(&p.entries, marked);
    let mut v = selection_toggles(side, &p.selection, &want);
    match cursor_name {
        Some(n) => match find_entry(&p.entries, n) {
            Some(i) => {
                if i != p.cursor {
                    v.push(PaneCommand::Cursor { side, index: i });
                }
            },
            None => {},
        },
        None => {},
    }
    v
}

/// The function-key actions.
#[derive(Clone, Copy, Debug, PartialEq, Eq, Structural)]
pub enum FKey {
    Rename,
    Copy,
    Move,
    Mkdir,
    Delete,
    View,
    Edit,
    NewFile,
}

/// The action of a function key (F2 to F8, given by number): F4 with Shift
/// makes a new file; other keys do nothing.
pub fn fkey_action(key: u32, shift: bool) -> (res: Option<FKey>)
    ensures
        res == (if key == 2 { Some(FKey::Rename) }
            else if key == 3 { Some(FKey::View) }
            else if key == 4 { Some(if shift { FKey::NewFile } else { FKey::Edit }) }
            else if key == 5 { Some(FKey::Copy) }
            else if key == 6 { Some(FKey::Move) }
            else if key == 7 { Some(FKey::Mkdir) }
            else if key == 8 { Some(FKey::Delete) }
            else { None }),
{
    match key {
        2 => Some(FKey::Rename),
        3 => Some(FKey::View),
        4 => Some(if shift { FKey::NewFile } else { FKey::Edit }),
        5 => Some(FKey::Copy),
        6 => Some(FKey::Move),
        7 => Some(FKey::Mkdir),
        8 => Some(FKey::Delete),
        _ => None,
    }
}

/// The action of a clicked key button: its Shift action while Shift is
/// held and it has one, else its own.
pub fn button_action(action: FKey, shift_action: Option<FKey>, shift_held: bool) -> (res: FKey)
    ensures
        res == (match (shift_held, shift_action) { (true, Some(a)) => a, _ => action }),
{
    match (shift_held, shift_action) {
        (true, Some(a)) => a,
        _ => action,
    }
}

/// A dialog a function key opens.
pub enum PaneDialog {
    /// Open the file at `path` in the viewer (or the editor).
    OpenFile { path: String, cwd: String, edit: bool },
    /// Create a file in `cwd`.
    NewFile { cwd: String },
    /// Ask for the name of a new folder.
    AskFolderName,
    /// Ask for the new name of `old`.
    AskNewName { old: String },
    /// Ask to confirm a deletion with this text.
    ConfirmDelete { body: String },
}

/// What a function key leads to: commands now, and a dialog.
pub struct RunOutcome {
    pub commands: Vec<PaneCommand>,
    pub dialog: Option<PaneDialog>,
}

/// The entry a view or edit key opens: the entry under the panel's cursor
/// name, else the service's cursor entry.
pub open spec fn viewed_entry(p: PaneState, cursor_name: Option<Seq<char>>) -> Option<int> {
    match cursor_name {
        Some(n) => match index_of(p.entries@, n) {
            Some(i) => Some(i),
            None => if p.cursor < p.entries@.len() { Some(p.cursor as int) } else { None },
        },
        None => if p.cursor < p.entries@.len() { Some(p.cursor as int) } else { None },
    }
}

/// What a function key does on the active panel. View and edit open the
/// entry under the cursor (not a folder); copy and move first reconcile the
/// selection and then copy or move to the other panel (when there is
/// something to work on); making a folder and renaming ask for a name;
/// deleting reconciles the selection and asks to confirm.
pub fn run(catalog: &Catalog, action: FKey, side: Side, p: &PaneState, marked: &[String], cursor_name: Option<&str>) -> (res: RunOutcome)
    ensures
        (action == FKey::View || action == FKey::Edit) ==> res.commands@.len() == 0 && (match viewed_entry(*p, match cursor_name { Some(n) => Some(n@), None => None::<Seq<char>> }) {
            Some(i) => if p.entries@[i].is_dir { res.dialog is None } else {
                res.dialog matches Some(PaneDialog::OpenFile { path, cwd, edit })
                    && path@ == join_spec(p.cwd@, p.entries@[i].name@) && cwd@ == p.cwd@ && edit == (action == FKey::Edit)
            },
            None => res.dialog is None,
        }),
        action == FKey::NewFile ==> res.commands@.len() == 0 && (res.dialog matches Some(PaneDialog::NewFile { cwd }) && cwd@ == p.cwd@),
        (action == FKey::Copy || action == FKey::Move) ==> res.dialog is None
            && (targets_spec(p.entries@, p.cursor, strings_view(marked@)).len() == 0 ==> res.commands@.len() == 0)
            && (targets_spec(p.entries@, p.cursor, strings_view(marked@)).len() > 0 ==> res.commands@.len() > 0
                && res.commands@.last() == (if action == FKey::Copy { PaneCommand::Copy { side: other_spec(side) } } else { PaneCommand::Move { side: other_spec(side) } })),
        action == FKey::Mkdir ==> res.commands@.len() == 0 && res.dialog matches Some(PaneDialog::AskFolderName),
        action == FKey::Rename ==> res.commands@.len() == 0 && (if targets_spec(p.entries@, p.cursor, strings_view(marked@)).len() == 0 {
            res.dialog is None
        } else {
            res.dialog matches Some(PaneDialog::AskNewName { old }) && old@ == targets_spec(p.entries@, p.cursor, strings_view(marked@))[0]
        }),
        action == FKey::Delete ==> (({
            let ts = targets_spec(p.entries@, p.cursor, strings_view(marked@));
            &&& ts.len() == 0 ==> res.commands@.len() == 0 && res.dialog is None
            &&& ts.len() == 1 ==> (res.dialog matches Some(PaneDialog::ConfirmDelete { body })
                && body@ == interpolate(translate(catalog@, "files.delete_one"@), seq![("name"@, ts[0])]))
            &&& ts.len() > 1 ==> (res.dialog matches Some(PaneDialog::ConfirmDelete { body })
                && body@ == interpolate(translate(catalog@, "files.delete_many"@), seq![("count"@, decimal(ts.len()))]))
        })),
{
    match action {
        FKey::View | FKey::Edit => {
            let found = match cursor_name {
                Some(n) => match find_entry(&p.entries, n) {
                    Some(i) => Some(i),
                    None => if p.cursor < p.entries.len() { Some(p.cursor) } else { None },
                },
                None => if p.cursor < p.entries.len() { Some(p.cursor) } else { None },
            };
            let dialog = match found {
                Some(i) => {
                    let e = &p.entries[i];
                    if e.is_dir {
                        None
                    } else {
                        Some(PaneDialog::OpenFile { path: join(p.cwd.as_str(), e.name.as_str()), cwd: p.cwd.clone(), edit: action == FKey::Edit })
                    }
                },
                None => None,
            };
            RunOutcome { commands: Vec::new(), dialog }
        },
        FKey::NewFile => RunOutcome { commands: Vec::new(), dialog: Some(PaneDialog::NewFile { cwd: p.cwd.clone() }) },
        FKey::Copy | FKey::Move => {
            let ts = targets(p, marked);
            if ts.len() == 0 {
                return RunOutcome { commands: Vec::new(), dialog: None };
            }
            let mut cmds = reconcile(side, p, marked, cursor_name);
            let dest = other(side);
            if action == FKey::Copy {
                cmds.push(PaneCommand::Copy { side: dest });
            } else {
                cmds.push(PaneCommand::Move { side: dest });
            }
            RunOutcome { commands: cmds, dialog: None }
        },
        FKey::Mkdir => RunOutcome { commands: Vec::new(), dialog: Some(PaneDialog::AskFolderName) },
        FKey::Rename => {
            let ts = targets(p, marked);
            if ts.len() == 0 {
                return RunOutcome { commands: Vec::new(), dialog: None };
            }
            RunOutcome { commands: Vec::new(), dialog: Some(PaneDialog::AskNewName { old: ts[0].clone() }) }
        },
        FKey::Delete => {
            let ts = targets(p, marked);
            if ts.len() == 0 {
                return RunOutcome { commands: Vec::new(), dialog: None };
            }
            let cmds = reconcile(side, p, marked, cursor_name);
            let body = if ts.len() == 1 {
                let args = [("name", ts[0].as_str())];
                let b = catalog.trf("files.delete_one", &args);
                assert(crate::i18n::args_view(args@) =~= seq![("name"@, strings_view(ts@)[0])]);
                b
            } else {
                let n = decimal_string(ts.len() as u64);
                let args = [("count", n.as_str())];
                let b = catalog.trf("files.delete_many", &args);
                assert(crate::i18n::args_view(args@) =~= seq![("count"@, decimal(strings_view(ts@).len()))]);
                b
            };
            RunOutcome { commands: cmds, dialog: Some(PaneDialog::ConfirmDelete { body }) }
        },
    }
}

/// The answer of a name prompt: its trimmed text, when not blank.
pub fn prompt_answer(text: &str) -> (res: Option<String>)
    ensures
        trim(text@).len() == 0 ==> res is None,
        trim(text@).len() > 0 ==> (res matches Some(t) && t@ == trim(text@)),
{
    let c = chars_of(text);
    let t = trim_chars(c.as_slice());
    if t.len() == 0 { None } else { Some(string_from_chars(t.as_slice())) }
}

/// Whether a panel shows the service's error: when there is one and it is
/// not the one shown last.
pub fn shows_new_error(previous: &Option<String>, current: &Option<String>) -> (res: bool)
    ensures
        res == (match current {
            Some(c) => match previous { Some(p) => p@ != c@, None => true },
            None => false,
        }),
{
    match current {
        Some(c) => match previous {
            Some(p) => !str_eq(p.as_str(), c.as_str()),
            None => true,
        },
        None => false,
    }
}

/// The requests a panel makes.
pub enum PanelRequest {
    StateChanged { selected: Vec<(String, bool)>, cursor: Option<String> },
    NavigateEnter(String),
    NavigateUp,
    NavigateLevel(usize),
    Refresh,
    NavigateTyped(String),
    Back,
    Start,
    Download { paths: Vec<String> },
    Duplicate { src: String, dst: String },
    UploadFiles { dir: String, files: Vec<String> },
    HistoryBack,
    HistoryForward,
    Mkdir { name: String },
    Rename { old_path: String, new_path: String },
    Delete { names: Vec<String> },
    Mount,
    Chmod { path: String, mode: u32 },
}

/// The commands for a panel's navigation request.
pub fn navigation_command(side: Side, cwd: &str, req: &PanelRequest) -> (res: Option<PaneCommand>)
    ensures
        match req {
            PanelRequest::NavigateEnter(name) => res matches Some(PaneCommand::Navigate { side: s, path }) && s == side && path@ == join_spec(cwd@, name@),
            PanelRequest::NavigateUp => res == Some(PaneCommand::Up { side }),
            PanelRequest::Back => res == Some(PaneCommand::Up { side }),
            PanelRequest::NavigateLevel(k) => if *k == 0 {
                res matches Some(PaneCommand::Navigate { side: s, path }) && s == side && path@ == "/"@
            } else {
                res == Some(PaneCommand::Breadcrumb { side, index: (*k - 1) as usize })
            },
            PanelRequest::Start => res matches Some(PaneCommand::Navigate { side: s, path }) && s == side && path@ == "/"@,
            PanelRequest::NavigateTyped(p) => res matches Some(PaneCommand::Navigate { side: s, path }) && s == side && path@ == p@,
            PanelRequest::Refresh => res == Some(PaneCommand::Refresh { side }),
            PanelRequest::HistoryBack => res == Some(PaneCommand::Back { side }),
            PanelRequest::HistoryForward => res == Some(PaneCommand::Forward { side }),
            PanelRequest::Mkdir { name } => res matches Some(PaneCommand::Mkdir { side: s, name: n }) && s == side && n@ == name@,
            PanelRequest::Chmod { path, mode } => res matches Some(PaneCommand::Chmod { side: s, path: p, mode: m }) && s == side && p@ == path@ && m == *mode,
            PanelRequest::Duplicate { src, dst } => res matches Some(PaneCommand::Duplicate { side: s, path, new_name }) && s == side && path@ == src@ && new_name@ == dst@,
            PanelRequest::UploadFiles { dir, files } => res matches Some(PaneCommand::Upload { side: s, dir: d, files: f }) && s == side && d@ == dir@ && strings_view(f@) == strings_view(files@),
            _ => res is None,
        },
{
    match req {
        PanelRequest::NavigateEnter(name) => Some(PaneCommand::Navigate { side, path: join(cwd, name.as_str()) }),
        PanelRequest::NavigateUp => Some(PaneCommand::Up { side }),
        PanelRequest::Back => Some(PaneCommand::Up { side }),
        PanelRequest::NavigateLevel(k) => {
            if *k == 0 {
                Some(PaneCommand::Navigate { side, path: "/".to_owned() })
            } else {
                Some(PaneCommand::Breadcrumb { side, index: *k - 1 })
            }
        },
        PanelRequest::Start => Some(PaneCommand::Navigate { side, path: "/".to_owned() }),
        PanelRequest::NavigateTyped(p) => Some(PaneCommand::Navigate { side, path: p.clone() }),
        PanelRequest::Refresh => Some(PaneCommand::Refresh { side }),
        PanelRequest::HistoryBack => Some(PaneCommand::Back { side }),
        PanelRequest::HistoryForward => Some(PaneCommand::Forward { side }),
        PanelRequest::Mkdir { name } => Some(PaneCommand::Mkdir { side, name: name.clone() }),
        PanelRequest::Chmod { path, mode } => Some(PaneCommand::Chmod { side, path: path.clone(), mode: *mode }),
        PanelRequest::Duplicate { src, dst } => Some(PaneCommand::Duplicate { side, path: src.clone(), new_name: dst.clone() }),
        PanelRequest::UploadFiles { dir, files } => {
            let mut f: Vec<String> = Vec::new();
            let mut i: usize = 0;
            while i < files.len()
                invariant
                    i <= files@.len(),
                    strings_view(f@) == strings_view(files@).take(i as int),
                decreases files.len() - i,
            {
                let ghost before = strings_view(f@);
                let s = files[i].clone();
                f.push(s);
                assert(strings_view(f@) =~= before.push(s@));
                assert(strings_view(files@).take(i + 1) =~= strings_view(files@).take(i as int).push(files@[i as int]@));
                i += 1;
            }
            assert(strings_view(files@).take(files@.len() as int) =~= strings_view(files@));
            Some(PaneCommand::Upload { side, dir: dir.clone(), files: f })
        },
        _ => None,
    }
}

/// The commands for a panel's rename request: the cursor to the renamed
/// entry, then the rename to the new path's last component; nothing when
/// the entry is not in the panel.
pub fn rename_commands(side: Side, p: &PaneState, old_path: &str, new_path: &str) -> (res: Vec<PaneCommand>)
    ensures
        match index_of(p.entries@, basename_spec(old_path@)) {
            Some(i) => res@.len() == 2 && res@[0] == (PaneCommand::Cursor { side, index: i as usize })
                && (res@[1] matches PaneCommand::Rename { side: s, new_name } && s == side && new_name@ == basename_spec(new_path@)),
            None => res@.len() == 0,
        },
{
    let mut v: Vec<PaneCommand> = Vec::new();
    let old_name = basename(old_path);
    match find_entry(&p.entries, old_name.as_str()) {
        Some(i) => {
            v.push(PaneCommand::Cursor { side, index: i });
            v.push(PaneCommand::Rename { side, new_name: basename(new_path) });
        },
        None => {},
    }
    v
}

/// The commands for a panel's delete request: the selection made the named
/// entries', then the deletion.
pub fn delete_commands(side: Side, p: &PaneState, names: &[String]) -> (res: Vec<PaneCommand>)
    ensures
        ({
            let t = toggles(p.selection@, wanted(p.entries@, strings_view(names@)));
            &&& res@.len() == t.len() + 1
            &&& forall|k: int| 0 <= k < t.len() ==> (#[trigger] res@[k]) == (PaneCommand::ToggleSelect { side, index: t[k] })
            &&& res@[t.len() as int] == (PaneCommand::Delete { side })
        }),
{
    let want = wanted_indices(&p.entries, names);
    let mut v = selection_toggles(side, &p.selection, &want);
    v.push(PaneCommand::Delete { side });
    v
}

/// The commands for a panel's download request: the selection made the
/// downloaded entries' (by their last path component), then a copy to the
/// other panel.
pub fn download_commands(side: Side, p: &PaneState, paths: &[String]) -> (res: Vec<PaneCommand>)
    ensures
        ({
            let names = strings_view(paths@).map_values(|q: Seq<char>| basename_spec(q));
            let t = toggles(p.selection@, wanted(p.entries@, names));
            &&& res@.len() == t.len() + 1
            &&& forall|k: int| 0 <= k < t.len() ==> (#[trigger] res@[k]) == (PaneCommand::ToggleSelect { side, index: t[k] })
            &&& res@[t.len() as int] == (PaneCommand::Copy { side: other_spec(side) })
        }),
{
    let mut names: Vec<String> = Vec::new();
    let mut i: usize = 0;
    while i < paths.len()
        invariant
            i <= paths@.len(),
            strings_view(names@) == strings_view(paths@).take(i as int).map_values(|q: Seq<char>| basename_spec(q)),
        decreases paths.len() - i,
    {
        let ghost before = strings_view(names@);
        let b = basename(paths[i].as_str());
        names.push(b);
        assert(strings_view(names@) =~= before.push(b@));
        assert(strings_view(paths@).take(i + 1).map_values(|q: Seq<char>| basename_spec(q))
            =~= strings_view(paths@).take(i as int).map_values(|q: Seq<char>| basename_spec(q)).push(basename_spec(paths@[i as int]@)));
        i += 1;
    }
    assert(strings_view(paths@).take(paths@.len() as int) =~= strings_view(paths@));
    let want = wanted_indices(&p.entries, names.as_slice());
    let mut v = selection_toggles(side, &p.selection, &want);
    v.push(PaneCommand::Copy { side: other(side) });
    v
}

/// The command for a panel's mount button: unmount when mounted, else
/// mount.
pub fn mount_command(side: Side, p: &PaneState) -> (res: PaneCommand)
    ensures
        res == (if p.mounted { PaneCommand::Unmount { side } } else { PaneCommand::Mount { side } }),
{
    if p.mounted { PaneCommand::Unmount { side } } else { PaneCommand::Mount { side } }
}

/// Focusing a panel makes it the active one; the service is told only when
/// the active panel changes.
pub fn focus_panel(active: Side, focused: Side) -> (res: Option<PaneCommand>)
    ensures
        res == (if active != focused { Some(PaneCommand::Activate { side: focused }) } else { None }),
{
    if active != focused { Some(PaneCommand::Activate { side: focused }) } else { None }
}

/// Where a panel's listing comes from, as the file panel shows it.
pub struct ListingSource {
    pub is_local: bool,
    pub can_mount: bool,
    pub is_mounted: bool,
    pub mount_name: String,
    pub fs_label_key: &'static str,
    pub root_icon: &'static str,
}

/// Where a panel's listing comes from: the left panel is this device's
/// files, the right one a peer's, which can be mounted; a mounted drive is
/// named by the label of the active resource.
pub fn listing_source(side: Side, mounted: bool, active_label: Option<String>) -> (res: ListingSource)
    ensures
        res.is_local == (side == Side::Left),
        res.can_mount == (side != Side::Left),
        res.is_mounted == mounted,
        res.mount_name@ == (match active_label { Some(l) => l@, None => Seq::<char>::empty() }),
        res.fs_label_key@ == (if side == Side::Left { "files.local_fs"@ } else { "files.remote_fs"@ }),
        res.root_icon@ == (if side == Side::Left { "/com/fm-ui/gtk/home.svg"@ } else { "/com/fm-ui/gtk/netdrive.svg"@ }),
{
    let local = side == Side::Left;
    ListingSource {
        is_local: local,
        can_mount: !local,
        is_mounted: mounted,
        mount_name: match active_label {
            Some(l) => l,
            None => String::new(),
        },
        fs_label_key: if local { "files.local_fs" } else { "files.remote_fs" },
        root_icon: if local { "/com/fm-ui/gtk/home.svg" } else { "/com/fm-ui/gtk/netdrive.svg" },
    }
}

/// The name a listing selects: that of the entry under the service's
/// cursor, if there is one.
pub fn cursor_entry_name(p: &PaneState) -> (res: Option<String>)
    ensures
        p.cursor < p.entries@.len() ==> (res matches Some(n) && n@ == p.entries@[p.cursor as int].name@),
        p.cursor >= p.entries@.len() ==> res is None,
{
    if p.cursor < p.entries.len() {
        Some(p.entries[p.cursor].name.clone())
    } else {
        None
    }
}

} // verus!
