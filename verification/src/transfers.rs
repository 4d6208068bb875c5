//! Copying and moving files between the panels through the clipboard: the
//! list of names a confirmation shows, the questions asked about names
//! that already exist at the destination, and the clipboard buttons.
use vstd::prelude::*;
use crate::paths::strings_view;
use crate::pane::Side;
use crate::text::{decimal, decimal_string, str_eq};
use crate::i18n::{Catalog, translate, interpolate};

verus! {

/// How many names a confirmation lists before it sums up the rest.
pub const NAMES_SHOWN: usize = 12;

/// The lines of a confirmation's name list: the first twelve names, and
/// when there are more, a line saying how many more there are.
pub open spec fn name_lines_spec(c: crate::i18n::CatalogView, names: Seq<Seq<char>>) -> Seq<Seq<char>> {
    if names.len() > 12 {
        names.take(12).push(interpolate(translate(c, "files.and_more"@), seq![("count"@, decimal((names.len() - 12) as nat))]))
    } else {
        names
    }
}

/// The lines of a confirmation's name list.
pub fn name_lines(catalog: &Catalog, names: &[String]) -> (res: Vec<String>)
    ensures
        strings_view(res@) == name_lines_spec(catalog@, strings_view(names@)),
{
    let mut v: Vec<String> = Vec::new();
    let mut i: usize = 0;
    let n = if names.len() > NAMES_SHOWN { NAMES_SHOWN } else { names.len() };
    while i < n
        invariant
            i <= n <= names@.len(),
            n == (if names@.len() > 12 { 12 } else { names@.len() }),
            strings_view(v@) == strings_view(names@).take(i as int),
        decreases n - i,
    {
        let ghost before = strings_view(v@);
        let s = names[i].clone();
        v.push(s);
        assert(strings_view(v@) =~= before.push(s@));
        assert(strings_view(names@).take(i + 1) =~= strings_view(names@).take(i as int).push(names@[i as int]@));
        i += 1;
    }
    if names.len() > NAMES_SHOWN {
        let more = decimal_string((names.len() - NAMES_SHOWN) as u64);
        let args = [("count", more.as_str())];
        let line = catalog.trf("files.and_more", &args);
        assert(crate::i18n::args_view(args@) =~= seq![("count"@, decimal((names@.len() - 12) as nat))]);
        let ghost before = strings_view(v@);
        v.push(line);
        assert(strings_view(v@) =~= before.push(line@));
    } else {
        assert(strings_view(names@).take(names@.len() as int) =~= strings_view(names@));
    }
    v
}

/// What to do with a name that already exists at the destination.
#[derive(Clone, Copy, Debug, PartialEq, Eq, Structural)]
pub enum OnConflict {
    Skip,
    KeepBoth,
    Replace,
}

/// An answer to a conflict question.
#[derive(Clone, Copy, Debug, PartialEq, Eq, Structural)]
pub enum ConflictAnswer {
    Cancel,
    Choose { choice: OnConflict, for_the_rest: bool },
}

/// The answer a dialog response stands for: `skip`, `keep_both` or
/// `replace`; anything else cancels.
pub fn conflict_answer(response: &str, for_the_rest: bool) -> (res: ConflictAnswer)
    ensures
        res == (if response@ == "skip"@ { ConflictAnswer::Choose { choice: OnConflict::Skip, for_the_rest } }
            else if response@ == "keep_both"@ { ConflictAnswer::Choose { choice: OnConflict::KeepBoth, for_the_rest } }
            else if response@ == "replace"@ { ConflictAnswer::Choose { choice: OnConflict::Replace, for_the_rest } }
            else { ConflictAnswer::Cancel }),
{
    if str_eq(response, "skip") {
        ConflictAnswer::Choose { choice: OnConflict::Skip, for_the_rest }
    } else if str_eq(response, "keep_both") {
        ConflictAnswer::Choose { choice: OnConflict::KeepBoth, for_the_rest }
    } else if str_eq(response, "replace") {
        ConflictAnswer::Choose { choice: OnConflict::Replace, for_the_rest }
    } else {
        ConflictAnswer::Cancel
    }
}

/// The questions about conflicting names, asked one name after the other.
pub struct ConflictResolver {
    pub conflicts: Vec<String>,
    pub answers: Vec<(String, OnConflict)>,
    pub for_the_rest: Option<OnConflict>,
    pub next: usize,
    pub cancelled: bool,
}

/// Where the questions stand.
pub enum ResolverStep {
    /// Ask about this name; offer "apply to the rest" when there are
    /// several conflicts.
    Ask { name: String, offer_rest: bool },
    /// Every name has its answer.
    Done,
    /// The questions were cancelled.
    Cancelled,
}

/// The answers of a resolver, by name and choice.
pub open spec fn answers_view(a: Seq<(String, OnConflict)>) -> Seq<(Seq<char>, OnConflict)> {
    a.map_values(|x: (String, OnConflict)| (x.0@, x.1))
}

impl ConflictResolver {
    /// The well-formedness of a resolver: one answer for each name asked
    /// about so far, in order.
    pub open spec fn wf(&self) -> bool {
        &&& self.next <= self.conflicts@.len()
        &&& self.answers@.len() == self.next
        &&& forall|k: int| 0 <= k < self.next ==> (#[trigger] self.answers@[k]).0@ == self.conflicts@[k]@
    }

    /// Starts the questions for the conflicting names.
    pub fn new(conflicts: Vec<String>) -> (res: ConflictResolver)
        ensures
            res.wf(),
            res.conflicts@ == conflicts@,
            res.next == 0,
            res.for_the_rest is None,
            !res.cancelled,
    {
        ConflictResolver { conflicts, answers: Vec::new(), for_the_rest: None, next: 0, cancelled: false }
    }

    /// Moves on: names covered by an "apply to the rest" answer get it
    /// without a question; then the next name is asked about, or the
    /// questions are done.
    pub fn step(&mut self) -> (res: ResolverStep)
        requires
            old(self).wf(),
        ensures
            final(self).wf(),
            final(self).conflicts == old(self).conflicts,
            final(self).for_the_rest == old(self).for_the_rest,
            final(self).cancelled == old(self).cancelled,
            old(self).cancelled ==> res is Cancelled && final(self).next == old(self).next,
            !old(self).cancelled && old(self).for_the_rest is Some ==> res is Done
                && final(self).next == final(self).conflicts@.len()
                && forall|k: int| old(self).next <= k < final(self).next ==> (#[trigger] final(self).answers@[k]).1 == old(self).for_the_rest->0,
            !old(self).cancelled && old(self).for_the_rest is None ==> final(self).next == old(self).next
                && (old(self).next == old(self).conflicts@.len() ==> res is Done)
                && (old(self).next < old(self).conflicts@.len() ==> (res matches ResolverStep::Ask { name, offer_rest }
                    && name@ == old(self).conflicts@[old(self).next as int]@ && offer_rest == (old(self).conflicts@.len() > 1))),
            forall|k: int| 0 <= k < old(self).next ==> final(self).answers@[k] == old(self).answers@[k],
    {
        if self.cancelled {
            return ResolverStep::Cancelled;
        }
        match self.for_the_rest {
            Some(all) => {
                while self.next < self.conflicts.len()
                    invariant
                        self.wf(),
                        self.for_the_rest == Some(all),
                        self.conflicts == old(self).conflicts,
                        self.for_the_rest == old(self).for_the_rest,
                        self.cancelled == old(self).cancelled,
                        old(self).next <= self.next,
                        forall|k: int| 0 <= k < old(self).next ==> self.answers@[k] == old(self).answers@[k],
                        forall|k: int| old(self).next <= k < self.next ==> (#[trigger] self.answers@[k]).1 == all,
                    decreases self.conflicts@.len() - self.next,
                {
                    let name = self.conflicts[self.next].clone();
                    self.answers.push((name, all));
                    self.next = self.next + 1;
                }
                ResolverStep::Done
            },
            None => {
                if self.next == self.conflicts.len() {
                    ResolverStep::Done
                } else {
                    ResolverStep::Ask { name: self.conflicts[self.next].clone(), offer_rest: self.conflicts.len() > 1 }
                }
            },
        }
    }

    /// Takes the answer about the name asked about: a cancel ends the
    /// questions; a choice is recorded for the name (and for the rest when
    /// asked to).
    pub fn answer(&mut self, a: ConflictAnswer)
        requires
            old(self).wf(),
            old(self).next < old(self).conflicts@.len(),
            !old(self).cancelled,
        ensures
            final(self).wf(),
            final(self).conflicts == old(self).conflicts,
            a is Cancel ==> final(self).cancelled && final(self).next == old(self).next,
            a matches ConflictAnswer::Choose { choice, for_the_rest } ==> !final(self).cancelled
                && final(self).next == old(self).next + 1
                && final(self).answers@[old(self).next as int].1 == choice
                && final(self).for_the_rest == (if for_the_rest { Some(choice) } else { old(self).for_the_rest }),
            forall|k: int| 0 <= k < old(self).next ==> final(self).answers@[k] == old(self).answers@[k],
    {
        match a {
            ConflictAnswer::Cancel => {
                self.cancelled = true;
            },
            ConflictAnswer::Choose { choice, for_the_rest } => {
                if for_the_rest {
                    self.for_the_rest = Some(choice);
                }
                let name = self.conflicts[self.next].clone();
                self.answers.push((name, choice));
                assert(self.next < self.conflicts.len());
                self.next = self.next + 1;
            },
        }
    }
}

/// When the questions are done, every conflicting name has exactly one
/// answer, in the order of the conflicts.
pub proof fn lemma_every_conflict_answered(r: ConflictResolver)
    requires
        r.wf(),
        r.next == r.conflicts@.len(),
    ensures
        answers_view(r.answers@).map_values(|x: (Seq<char>, OnConflict)| x.0) == strings_view(r.conflicts@),
{
    assert(answers_view(r.answers@).map_values(|x: (Seq<char>, OnConflict)| x.0) =~= strings_view(r.conflicts@));
}

/// Where a transfer comes from.
#[derive(Clone, Copy, Debug, PartialEq, Eq, Structural)]
pub enum TransferOrigin {
    Clipboard,
    Panel,
}

/// What ends a transfer's questions: run it with the answers; a clipboard
/// transfer that was declined or cancelled clears the clipboard; any other
/// does nothing.
pub enum TransferEnd {
    Run(Vec<(String, OnConflict)>),
    ClearClipboard,
    Nothing,
}

/// The end of a transfer's questions.
pub fn transfer_end(resolutions: Option<Vec<(String, OnConflict)>>, from: TransferOrigin) -> (res: TransferEnd)
    ensures
        match resolutions {
            Some(r) => res matches TransferEnd::Run(x) && x@ == r@,
            None => if from == TransferOrigin::Clipboard { res is ClearClipboard } else { res is Nothing },
        },
{
    match resolutions {
        Some(r) => TransferEnd::Run(r),
        None => if from == TransferOrigin::Clipboard { TransferEnd::ClearClipboard } else { TransferEnd::Nothing },
    }
}

/// A transfer plan is worth asking about: no error, and something to move.
pub fn plan_worth_asking(has_error: bool, items: usize) -> (res: bool)
    ensures
        res == (!has_error && items > 0),
{
    !has_error && items > 0
}

/// The kind of a transfer.
#[derive(Clone, Copy, Debug, PartialEq, Eq, Structural)]
pub enum TransferKind {
    Copy,
    Move,
}

/// The translation keys of a transfer's confirmation: title and heading.
pub fn confirmation_keys(kind: TransferKind) -> (res: (&'static str, &'static str))
    ensures
        kind == TransferKind::Copy ==> res.0@ == "files.copy_title"@ && res.1@ == "files.copy_n"@,
        kind == TransferKind::Move ==> res.0@ == "files.move_title"@ && res.1@ == "files.move_n"@,
{
    match kind {
        TransferKind::Copy => ("files.copy_title", "files.copy_n"),
        TransferKind::Move => ("files.move_title", "files.move_n"),
    }
}

/// What the clipboard holds.
pub struct ClipboardView {
    pub side: Side,
    pub kind: TransferKind,
    pub count: usize,
    pub source: String,
}

/// How the clipboard buttons of a panel look: which button carries the
/// count badge (the cut button for a move, the copy button for a copy,
/// when this panel's files are held), whether paste and clear are
/// enabled, and the paste tooltip.
pub struct ClipButtonsView {
    pub badge: Option<(TransferKind, usize)>,
    pub paste_enabled: bool,
    pub clear_enabled: bool,
    pub paste_tooltip: String,
}

/// How the clipboard buttons of a panel look for what the clipboard holds.
pub fn clip_buttons(catalog: &Catalog, side: Side, view: Option<&ClipboardView>) -> (res: ClipButtonsView)
    ensures
        ({
            let held = match view { Some(v) => v.count > 0, None => false };
            &&& res.paste_enabled == held
            &&& res.clear_enabled == held
            &&& (held && view->0.side == side) ==> res.badge == Some((view->0.kind, view->0.count))
            &&& !(held && view->0.side == side) ==> res.badge is None
            &&& held ==> res.paste_tooltip@ == interpolate(translate(catalog@, "files.paste_n"@),
                seq![("count"@, decimal(view->0.count as nat)), ("from"@, view->0.source@)])
            &&& !held ==> res.paste_tooltip@ == translate(catalog@, "files.paste"@)
        }),
{
    match view {
        Some(v) => {
            if v.count > 0 {
                let badge = if v.side == side { Some((v.kind, v.count)) } else { None };
                let n = decimal_string(v.count as u64);
                let args = [("count", n.as_str()), ("from", v.source.as_str())];
                let tip = catalog.trf("files.paste_n", &args);
                assert(crate::i18n::args_view(args@) =~= seq![("count"@, decimal(v.count as nat)), ("from"@, v.source@)]);
                return ClipButtonsView { badge, paste_enabled: true, clear_enabled: true, paste_tooltip: tip };
            }
            ClipButtonsView { badge: None, paste_enabled: false, clear_enabled: false, paste_tooltip: catalog.tr("files.paste") }
        },
        None => ClipButtonsView { badge: None, paste_enabled: false, clear_enabled: false, paste_tooltip: catalog.tr("files.paste") },
    }
}

} // verus!
