//! The local applications offered for the tunnel: those found in the
//! `.desktop` files, listed by name without regard to case (applications
//! of equal names in the order they were found), and each name once.
use vstd::prelude::*;
use crate::net::DesktopEntry;
use crate::sorting::{Order, lex_order, lex_compare, lemma_lex_transitive, lemma_lex_antisymmetric};
use crate::text::{chars_of, lowercase, to_lowercase, str_eq, string_from_chars};
use crate::workspace::opt_text;

verus! {

/// An application as values: name, command and icon.
pub type EntryView = (Seq<char>, Seq<char>, Option<Seq<char>>);

/// An application as values.
pub open spec fn entry_view(e: DesktopEntry) -> EntryView {
    (e.name@, e.command@, opt_text(e.icon))
}

/// The views of a list of applications.
pub open spec fn entries_view(s: Seq<DesktopEntry>) -> Seq<EntryView> {
    s.map_values(|e: DesktopEntry| entry_view(e))
}

/// `a` comes no later than `b`: its lowercase name is not greater.
pub open spec fn key_le(a: EntryView, b: EntryView) -> bool {
    lex_order(lowercase(a.0), lowercase(b.0)) != Order::Larger
}

/// A list sorted by name, without regard to case.
pub open spec fn sorted_by_name(s: Seq<EntryView>) -> bool {
    forall|i: int, j: int| 0 <= i < j < s.len() ==> key_le(s[i], s[j])
}

/// `e` placed into a list after every application whose name is not
/// greater, counting from the end: into a sorted list, after all those of
/// equal or smaller name.
pub open spec fn insert_sorted(s: Seq<EntryView>, e: EntryView) -> Seq<EntryView>
    decreases s.len(),
{
    if s.len() == 0 {
        seq![e]
    } else if key_le(s.last(), e) {
        s.push(e)
    } else {
        insert_sorted(s.drop_last(), e).push(s.last())
    }
}

/// A list sorted by name, stably: applications are placed one after the
/// other in the order they come.
pub open spec fn sort_by_name(s: Seq<EntryView>) -> Seq<EntryView>
    decreases s.len(),
{
    if s.len() == 0 {
        s
    } else {
        insert_sorted(sort_by_name(s.drop_last()), s.last())
    }
}

/// A list without the applications whose name is that of the one before.
pub open spec fn dedup_names(s: Seq<EntryView>) -> Seq<EntryView>
    decreases s.len(),
{
    if s.len() == 0 {
        s
    } else if s.len() >= 2 && s[s.len() - 2].0 == s.last().0 {
        dedup_names(s.drop_last())
    } else {
        dedup_names(s.drop_last()).push(s.last())
    }
}

proof fn lemma_insert_at(s: Seq<EntryView>, e: EntryView, j: int)
    requires
        0 <= j <= s.len(),
        j == 0 || key_le(s[j - 1], e),
        forall|k: int| j <= k < s.len() ==> !key_le(#[trigger] s[k], e),
    ensures
        insert_sorted(s, e) == s.take(j).push(e) + s.skip(j),
    decreases s.len(),
{
    if s.len() == 0 {
        assert(s.take(j).push(e) + s.skip(j) =~= seq![e]);
    } else if j == s.len() {
        assert(s.take(j).push(e) + s.skip(j) =~= s.push(e));
    } else {
        assert(!key_le(s[s.len() - 1], e));
        let d = s.drop_last();
        assert forall|k: int| j <= k < d.len() implies !key_le(#[trigger] d[k], e) by {
            assert(d[k] == s[k]);
        }
        if j > 0 {
            assert(d[j - 1] == s[j - 1]);
        }
        lemma_insert_at(d, e, j);
        assert(d.take(j).push(e) + d.skip(j) + seq![s.last()] =~= s.take(j).push(e) + s.skip(j));
        assert((d.take(j).push(e) + d.skip(j)).push(s.last()) =~= d.take(j).push(e) + d.skip(j) + seq![s.last()]);
    }
}

proof fn lemma_insert_multiset(s: Seq<EntryView>, e: EntryView)
    ensures
        insert_sorted(s, e).to_multiset() == s.to_multiset().insert(e),
    decreases s.len(),
{
    broadcast use vstd::seq_lib::group_to_multiset_ensures;
    if s.len() == 0 {
        assert(seq![e] =~= Seq::<EntryView>::empty().push(e));
    } else if key_le(s.last(), e) {
    } else {
        let d = s.drop_last();
        lemma_insert_multiset(d, e);
        assert(s =~= d.push(s.last()));
    }
}

proof fn lemma_insert_sorted(s: Seq<EntryView>, e: EntryView)
    requires
        sorted_by_name(s),
    ensures
        sorted_by_name(insert_sorted(s, e)),
    decreases s.len(),
{
    broadcast use vstd::seq_lib::group_to_multiset_ensures;
    let r = insert_sorted(s, e);
    if s.len() == 0 {
    } else if key_le(s.last(), e) {
        assert forall|i: int, j: int| 0 <= i < j < r.len() implies key_le(r[i], r[j]) by {
            if j == s.len() {
                if i < s.len() - 1 {
                    assert(key_le(s[i], s[s.len() - 1]));
                    lemma_lex_transitive(lowercase(s[i].0), lowercase(s.last().0), lowercase(e.0));
                }
            } else {
                assert(r[i] == s[i] && r[j] == s[j]);
            }
        }
    } else {
        let d = s.drop_last();
        let last = s.last();
        lemma_lex_antisymmetric(lowercase(last.0), lowercase(e.0));
        assert(sorted_by_name(d)) by {
            assert forall|i: int, j: int| 0 <= i < j < d.len() implies key_le(d[i], d[j]) by {
                assert(d[i] == s[i] && d[j] == s[j]);
            }
        }
        lemma_insert_sorted(d, e);
        lemma_insert_multiset(d, e);
        let m = insert_sorted(d, e);
        assert forall|i: int| 0 <= i < m.len() implies key_le(#[trigger] m[i], last) by {
            assert(m.to_multiset().count(m[i]) > 0);
            assert(d.to_multiset().insert(e).count(m[i]) > 0);
            if m[i] != e {
                assert(d.to_multiset().count(m[i]) > 0);
                assert(d.contains(m[i]));
                let k = choose|k: int| 0 <= k < d.len() && d[k] == m[i];
                assert(s[k] == d[k]);
            }
        }
        assert forall|i: int, j: int| 0 <= i < j < r.len() implies key_le(r[i], r[j]) by {
            if j == r.len() - 1 {
                assert(r[j] == last);
                assert(r[i] == m[i]);
            } else {
                assert(r[i] == m[i] && r[j] == m[j]);
            }
        }
    }
}

/// Sorting by name gives a list sorted by name that holds the same
/// applications as many times each.
pub proof fn lemma_sort_by_name(s: Seq<EntryView>)
    ensures
        sorted_by_name(sort_by_name(s)),
        sort_by_name(s).to_multiset() == s.to_multiset(),
    decreases s.len(),
{
    broadcast use vstd::seq_lib::group_to_multiset_ensures;
    if s.len() > 0 {
        let d = s.drop_last();
        lemma_sort_by_name(d);
        lemma_insert_sorted(sort_by_name(d), s.last());
        lemma_insert_multiset(sort_by_name(d), s.last());
        assert(s =~= d.push(s.last()));
    }
}

/// After removing repeated names no two neighbours have the same name,
/// and every application left was in the list.
pub proof fn lemma_dedup_names(s: Seq<EntryView>)
    ensures
        forall|i: int| 0 <= i < dedup_names(s).len() - 1 ==> #[trigger] dedup_names(s)[i].0 != dedup_names(s)[i + 1].0,
        forall|i: int| 0 <= i < dedup_names(s).len() ==> s.contains(#[trigger] dedup_names(s)[i]),
        s.len() > 0 ==> dedup_names(s).len() > 0 && dedup_names(s).last().0 == s.last().0,
    decreases s.len(),
{
    if s.len() > 0 {
        let d = s.drop_last();
        lemma_dedup_names(d);
        let prev = dedup_names(d);
        let cur = dedup_names(s);
        assert forall|i: int| 0 <= i < prev.len() implies s.contains(#[trigger] prev[i]) by {
            assert(d.contains(prev[i]));
            let k = choose|k: int| 0 <= k < d.len() && d[k] == prev[i];
            assert(s[k] == d[k]);
        }
        if s.len() >= 2 && s[s.len() - 2].0 == s.last().0 {
            assert(d.last() == s[s.len() - 2]);
        } else {
            assert(cur == prev.push(s.last()));
            assert(cur[cur.len() - 1] == s.last());
            assert(s.contains(s.last()));
            assert forall|i: int| 0 <= i < cur.len() - 1 implies #[trigger] cur[i].0 != cur[i + 1].0 by {
                if i == cur.len() - 2 {
                    assert(cur[i] == prev.last());
                    assert(d.last() == s[s.len() - 2]);
                } else {
                    assert(cur[i] == prev[i] && cur[i + 1] == prev[i + 1]);
                }
            }
        }
    }
}

fn copy_entry(e: &DesktopEntry) -> (res: DesktopEntry)
    ensures
        entry_view(res) == entry_view(*e),
{
    DesktopEntry {
        name: e.name.clone(),
        command: e.command.clone(),
        icon: match &e.icon {
            Some(i) => Some(i.clone()),
            None => None,
        },
    }
}

/// The applications found, sorted by name without regard to case (stably)
/// and each name once.
pub fn order_installed_apps(apps: &Vec<DesktopEntry>) -> (res: Vec<DesktopEntry>)
    ensures
        entries_view(res@) == dedup_names(sort_by_name(entries_view(apps@))),
{
    let ghost av = entries_view(apps@);
    let mut out: Vec<DesktopEntry> = Vec::new();
    let mut keys: Vec<Vec<char>> = Vec::new();
    let mut i: usize = 0;
    while i < apps.len()
        invariant
            i <= apps@.len(),
            av == entries_view(apps@),
            entries_view(out@) == sort_by_name(av.take(i as int)),
            keys@.len() == out@.len(),
            forall|k: int| 0 <= k < keys@.len() ==> (#[trigger] keys@[k])@ == lowercase(out@[k].name@),
        decreases apps.len() - i,
    {
        let ghost s = entries_view(out@);
        let e = copy_entry(&apps[i]);
        let low = to_lowercase(e.name.as_str());
        let key = chars_of(low.as_str());
        let mut j: usize = out.len();
        while j > 0 && lex_compare(keys[j - 1].as_slice(), key.as_slice()) == Order::Larger
            invariant
                j <= out@.len(),
                s == entries_view(out@),
                keys@.len() == out@.len(),
                forall|k: int| 0 <= k < keys@.len() ==> (#[trigger] keys@[k])@ == lowercase(out@[k].name@),
                key@ == lowercase(e.name@),
                forall|k: int| j <= k < s.len() ==> !key_le(#[trigger] s[k], entry_view(e)),
            decreases j,
        {
            assert(s[j - 1] == entry_view(out@[j - 1]));
            j -= 1;
        }
        proof {
            if j > 0 {
                assert(s[j - 1] == entry_view(out@[j - 1]));
            }
            lemma_insert_at(s, entry_view(e), j as int);
            assert(av.take(i + 1).drop_last() =~= av.take(i as int));
            assert(av.take(i + 1).last() == entry_view(apps@[i as int]));
        }
        let ghost ev = entry_view(e);
        out.insert(j, e);
        keys.insert(j, key);
        assert(entries_view(out@) =~= s.take(j as int).push(ev) + s.skip(j as int));
        assert forall|k: int| 0 <= k < keys@.len() implies (#[trigger] keys@[k])@ == lowercase(out@[k].name@) by {
            if k < j {
            } else if k == j {
            } else {
            }
        }
        i += 1;
    }
    assert(av.take(apps@.len() as int) =~= av);
    let ghost sorted = entries_view(out@);
    let mut res: Vec<DesktopEntry> = Vec::new();
    let mut m: usize = 0;
    while m < out.len()
        invariant
            m <= out@.len(),
            sorted == entries_view(out@),
            entries_view(res@) == dedup_names(sorted.take(m as int)),
        decreases out.len() - m,
    {
        assert(sorted.take(m + 1).drop_last() =~= sorted.take(m as int));
        assert(sorted.take(m + 1).last() == entry_view(out@[m as int]));
        if m > 0 {
            assert(sorted.take(m + 1)[m - 1] == entry_view(out@[m - 1]));
        }
        if m == 0 || !str_eq(out[m - 1].name.as_str(), out[m].name.as_str()) {
            let c = copy_entry(&out[m]);
            let ghost before = entries_view(res@);
            res.push(c);
            assert(entries_view(res@) =~= before.push(entry_view(c)));
        }
        m += 1;
    }
    assert(sorted.take(out@.len() as int) =~= sorted);
    res
}

} // verus!
