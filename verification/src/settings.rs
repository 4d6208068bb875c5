//! The settings dialog: its pages, built the first time they are opened;
//! the shared folders, each under a name no other share takes; the
//! connection timeouts and network limits as the spin buttons show them;
//! and the language menu.
use vstd::prelude::*;
use crate::text::{str_eq, chars_of, extend_str, extend_chars, string_from_chars, decimal, decimal_string};
use crate::fm_actions::{lemma_decimal_injective, lemma_decimal_len};
use crate::i18n::{LANG_COUNT, lang_code, lang_at, lang_index};
use crate::workspace::{opt_text, ServiceKind};

verus! {

/// How many pages the settings dialog has.
pub const PAGE_COUNT: usize = 5;

/// The page at a position of the sidebar: its name and its title key.
pub open spec fn category(i: int) -> (Seq<char>, Seq<char>) {
    if i == 0 { ("sharing"@, "settings.cat_sharing"@) }
    else if i == 1 { ("network"@, "settings.cat_network"@) }
    else if i == 2 { ("connection"@, "settings.cat_connection"@) }
    else if i == 3 { ("general"@, "settings.cat_general"@) }
    else { ("about"@, "settings.cat_about"@) }
}

/// The page at a position of the sidebar: its name and its title key.
pub fn category_at(i: usize) -> (res: (&'static str, &'static str))
    requires
        i < PAGE_COUNT,
    ensures
        (res.0@, res.1@) == category(i as int),
{
    match i {
        0 => ("sharing", "settings.cat_sharing"),
        1 => ("network", "settings.cat_network"),
        2 => ("connection", "settings.cat_connection"),
        3 => ("general", "settings.cat_general"),
        _ => ("about", "settings.cat_about"),
    }
}

/// The name of the stack child that holds a page.
pub fn page_name(i: usize) -> (res: String)
    ensures
        res@ == "page_"@ + decimal(i as nat),
{
    let mut out: Vec<char> = Vec::new();
    extend_str(&mut out, "page_");
    let d = decimal_string(i as u64);
    extend_str(&mut out, d.as_str());
    string_from_chars(out.as_slice())
}

/// Which pages of the dialog were built.
pub struct SettingsPages {
    pub built: Vec<bool>,
}

impl SettingsPages {
    /// A dialog with no page built yet.
    pub fn new() -> (res: SettingsPages)
        ensures
            res.built@.len() == PAGE_COUNT,
            forall|i: int| 0 <= i < PAGE_COUNT ==> !#[trigger] res.built@[i],
    {
        let mut built: Vec<bool> = Vec::new();
        let mut i: usize = 0;
        while i < PAGE_COUNT
            invariant
                i <= PAGE_COUNT,
                built@.len() == i,
                forall|k: int| 0 <= k < i ==> !#[trigger] built@[k],
            decreases PAGE_COUNT - i,
        {
            built.push(false);
            i += 1;
        }
        SettingsPages { built }
    }

    /// A row of the sidebar was selected: says whether its page is built
    /// now, which happens the first time only.
    pub fn select(&mut self, index: usize) -> (res: bool)
        ensures
            (final(self).built@, res) == select_spec(old(self).built@, index as int),
    {
        if index < self.built.len() && !self.built[index] {
            self.built.set(index, true);
            true
        } else {
            if index < self.built.len() {
                assert(self.built@.update(index as int, true) =~= self.built@);
            }
            false
        }
    }
}

/// Selecting a page: it is built when it exists and was not built yet,
/// and counts as built afterwards.
pub open spec fn select_spec(built: Seq<bool>, index: int) -> (Seq<bool>, bool) {
    if 0 <= index < built.len() {
        (built.update(index, true), !built[index])
    } else {
        (built, false)
    }
}

/// A page is built at most once: selecting it again builds nothing.
pub proof fn lemma_page_built_once(built: Seq<bool>, index: int)
    ensures
        !select_spec(select_spec(built, index).0, index).1,
{
}

/// The `n`th name tried for a shared folder: the folder's own name, then
/// that name with 2, 3 and so on after a space.
pub open spec fn share_candidate(base: Seq<char>, n: nat) -> Seq<char> {
    if n == 1 { base } else { base + " "@ + decimal(n) }
}

/// The name a new share gets: the first candidate no share has yet.
pub open spec fn is_share_name(base: Seq<char>, existing: Seq<Seq<char>>, res: Seq<char>) -> bool {
    exists|n: nat| n >= 1 && res == #[trigger] share_candidate(base, n) && !existing.contains(res)
        && forall|m: nat| 1 <= m < n ==> existing.contains(share_candidate(base, m))
}

proof fn lemma_share_candidates_distinct(base: Seq<char>, n: nat, m: nat)
    requires
        n >= 1,
        m >= 1,
        share_candidate(base, n) == share_candidate(base, m),
    ensures
        n == m,
{
    reveal_strlit(" ");
    let cn = share_candidate(base, n);
    let cm = share_candidate(base, m);
    if n != 1 && m != 1 {
        let lo: int = base.len() as int + 1;
        assert(cn.subrange(lo, cn.len() as int) =~= decimal(n));
        assert(cm.subrange(lo, cm.len() as int) =~= decimal(m));
        lemma_decimal_injective(n, m);
    } else if n == 1 && m != 1 {
        lemma_decimal_len(m);
        assert(cn.len() != cm.len());
    } else if n != 1 && m == 1 {
        lemma_decimal_len(n);
        assert(cn.len() != cm.len());
    }
}

proof fn lemma_free_share_candidate(base: Seq<char>, existing: Seq<Seq<char>>)
    ensures
        exists|n: nat| 1 <= n <= existing.len() + 1 && !existing.contains(#[trigger] share_candidate(base, n)),
{
    if forall|n: nat| 1 <= n <= existing.len() + 1 ==> existing.contains(#[trigger] share_candidate(base, n)) {
        let l = existing.len() as int;
        let x = vstd::set_lib::set_int_range(1, l + 2);
        vstd::set_lib::lemma_int_range(1, l + 2);
        let f = |i: int| share_candidate(base, i as nat);
        assert(vstd::relations::injective_on(f, x)) by {
            assert forall|a: int, b: int| x.contains(a) && x.contains(b) && #[trigger] f(a) == #[trigger] f(b) implies a == b by {
                lemma_share_candidates_distinct(base, a as nat, b as nat);
            }
        }
        let y = x.map(f);
        vstd::set_lib::lemma_map_size(x, y, f);
        existing.lemma_cardinality_of_set();
        assert(y.subset_of(existing.to_set())) by {
            assert forall|s: Seq<char>| y.contains(s) implies existing.to_set().contains(s) by {
                let i = choose|i: int| x.contains(i) && f(i) == s;
                assert(existing.contains(share_candidate(base, i as nat)));
            }
        }
        vstd::set_lib::lemma_len_subset(y, existing.to_set());
    }
}

/// The names of a list of shares.
pub open spec fn share_names(shares: Seq<(String, String)>) -> Seq<Seq<char>> {
    shares.map_values(|s: (String, String)| s.0@)
}

/// The name for a new share of a folder called `base`.
pub fn unique_share_name(base: &str, shares: &Vec<(String, String)>) -> (res: String)
    requires
        shares@.len() < usize::MAX,
    ensures
        is_share_name(base@, share_names(shares@), res@),
{
    let ghost ex = share_names(shares@);
    proof { lemma_free_share_candidate(base@, ex); }
    let mut n: usize = 1;
    loop
        invariant
            1 <= n <= ex.len() + 1,
            ex == share_names(shares@),
            shares@.len() < usize::MAX,
            exists|k: nat| 1 <= k <= ex.len() + 1 && !ex.contains(#[trigger] share_candidate(base@, k)),
            forall|m: nat| 1 <= m < n ==> ex.contains(#[trigger] share_candidate(base@, m)),
        decreases ex.len() + 1 - n,
    {
        let mut cand: Vec<char> = chars_of(base);
        if n > 1 {
            extend_str(&mut cand, " ");
            let d = decimal_string(n as u64);
            extend_str(&mut cand, d.as_str());
        }
        assert(cand@ =~= share_candidate(base@, n as nat));
        let c = string_from_chars(cand.as_slice());
        let mut found = false;
        let mut j: usize = 0;
        while j < shares.len()
            invariant
                j <= shares@.len(),
                ex == share_names(shares@),
                found <==> exists|k: int| 0 <= k < j && ex[k] == c@,
            decreases shares.len() - j,
        {
            if str_eq(shares[j].0.as_str(), c.as_str()) {
                assert(ex[j as int] == c@);
                found = true;
            }
            j += 1;
        }
        if !found {
            proof {
                assert(!ex.contains(c@));
                assert(c@ == share_candidate(base@, n as nat));
            }
            return c;
        }
        proof {
            assert(ex.contains(c@));
            if n == ex.len() + 1 {
                let k = choose|k: nat| 1 <= k <= ex.len() + 1 && !ex.contains(#[trigger] share_candidate(base@, k));
                assert(ex.contains(share_candidate(base@, k)));
            }
        }
        n += 1;
    }
}

/// What `std::path::Path::file_name` gives for a path, as text.
pub uninterp spec fn file_name_of(path: Seq<char>) -> Option<Seq<char>>;

/// The last component of a path: `Path::new(path).file_name()` as text.
/// The contract names the result and says nothing more of it.
#[verifier::external_body]
pub(crate) fn path_file_name(path: &str) -> (res: Option<String>)
    ensures
        opt_text(res) == file_name_of(path@),
{
    match std::path::Path::new(path).file_name() {
        Some(n) => Some(n.to_string_lossy().to_string()),
        None => None,
    }
}

/// The name a folder is shared under before it is made unique: its last
/// component, or "share" when it has none.
pub open spec fn share_base(file_name: Option<Seq<char>>) -> Seq<char> {
    match file_name {
        Some(n) => n,
        None => "share"@,
    }
}

/// The shared folders: name and path of each.
pub struct ShareList {
    pub shares: Vec<(String, String)>,
}

/// The views of a list of shares.
pub open spec fn shares_view(shares: Seq<(String, String)>) -> Seq<(Seq<char>, Seq<char>)> {
    shares.map_values(|s: (String, String)| (s.0@, s.1@))
}

/// The shares without those of this name.
pub open spec fn without_share(shares: Seq<(Seq<char>, Seq<char>)>, name: Seq<char>) -> Seq<(Seq<char>, Seq<char>)>
    decreases shares.len(),
{
    if shares.len() == 0 {
        shares
    } else {
        let prev = without_share(shares.drop_last(), name);
        if shares.last().0 != name { prev.push(shares.last()) } else { prev }
    }
}

/// No two shares have the same name.
pub open spec fn names_distinct(shares: Seq<(Seq<char>, Seq<char>)>) -> bool {
    forall|i: int, j: int| 0 <= i < j < shares.len() ==> shares[i].0 != shares[j].0
}

impl ShareList {
    /// Shares a folder under the first free name made from its last
    /// component, and gives that name.
    pub fn add_folder(&mut self, path: &str) -> (res: String)
        requires
            old(self).shares@.len() < usize::MAX,
        ensures
            is_share_name(share_base(file_name_of(path@)), share_names(old(self).shares@), res@),
            shares_view(final(self).shares@) == shares_view(old(self).shares@).push((res@, path@)),
    {
        let base = match path_file_name(path) {
            Some(n) => n,
            None => "share".to_owned(),
        };
        let name = unique_share_name(base.as_str(), &self.shares);
        let ghost before = shares_view(self.shares@);
        self.shares.push((name.clone(), path.to_owned()));
        assert(shares_view(self.shares@) =~= before.push((name@, path@)));
        name
    }

    /// Stops sharing the folders of a name.
    pub fn remove(&mut self, name: &str)
        ensures
            shares_view(final(self).shares@) == without_share(shares_view(old(self).shares@), name@),
    {
        let ghost v = shares_view(self.shares@);
        let mut out: Vec<(String, String)> = Vec::new();
        let mut i: usize = 0;
        while i < self.shares.len()
            invariant
                i <= self.shares@.len(),
                v == shares_view(self.shares@),
                shares_view(out@) == without_share(v.take(i as int), name@),
            decreases self.shares.len() - i,
        {
            assert(v.take(i + 1).drop_last() =~= v.take(i as int));
            if !str_eq(self.shares[i].0.as_str(), name) {
                let ghost before = shares_view(out@);
                let pair = (self.shares[i].0.clone(), self.shares[i].1.clone());
                out.push(pair);
                assert(shares_view(out@) =~= before.push(v[i as int]));
            }
            i += 1;
        }
        assert(v.take(self.shares@.len() as int) =~= v);
        self.shares = out;
    }
}

proof fn lemma_without_share(shares: Seq<(Seq<char>, Seq<char>)>, name: Seq<char>)
    ensures
        forall|i: int| 0 <= i < without_share(shares, name).len() ==> #[trigger] without_share(shares, name)[i].0 != name,
        forall|i: int| 0 <= i < without_share(shares, name).len() ==>
            exists|k: int| 0 <= k < shares.len() && shares[k] == #[trigger] without_share(shares, name)[i],
        names_distinct(shares) ==> names_distinct(without_share(shares, name)),
    decreases shares.len(),
{
    if shares.len() > 0 {
        let d = shares.drop_last();
        lemma_without_share(d, name);
        let prev = without_share(d, name);
        let cur = without_share(shares, name);
        assert forall|k: int| 0 <= k < d.len() implies d[k] == shares[k] by {}
        assert forall|i: int| 0 <= i < prev.len() implies cur[i] == prev[i] by {}
        assert forall|i: int| 0 <= i < cur.len() implies exists|k: int| 0 <= k < shares.len() && shares[k] == #[trigger] cur[i] by {
            if i < prev.len() {
                let k = choose|k: int| 0 <= k < d.len() && d[k] == prev[i];
                assert(shares[k] == cur[i]);
            } else {
                assert(cur[i] == shares[shares.len() - 1]);
            }
        }
        if names_distinct(shares) && shares.last().0 != name {
            assert forall|i: int, j: int| 0 <= i < j < cur.len() implies cur[i].0 != cur[j].0 by {
                if j == cur.len() - 1 {
                    let k = choose|k: int| 0 <= k < d.len() && d[k] == prev[i];
                    assert(shares[k].0 != shares[shares.len() - 1].0);
                }
            }
        }
    }
}

/// Adding a folder keeps the share names distinct, and removing a name
/// leaves no share of that name and the others distinct.
pub proof fn lemma_share_names_stay_distinct(shares: Seq<(Seq<char>, Seq<char>)>, base: Seq<char>, new_name: Seq<char>,
    path: Seq<char>, gone: Seq<char>)
    requires
        names_distinct(shares),
        is_share_name(base, shares.map_values(|s: (Seq<char>, Seq<char>)| s.0), new_name),
    ensures
        names_distinct(shares.push((new_name, path))),
        names_distinct(without_share(shares, gone)),
        forall|i: int| 0 <= i < without_share(shares, gone).len() ==> #[trigger] without_share(shares, gone)[i].0 != gone,
{
    let names = shares.map_values(|s: (Seq<char>, Seq<char>)| s.0);
    let after = shares.push((new_name, path));
    assert forall|i: int, j: int| 0 <= i < j < after.len() implies after[i].0 != after[j].0 by {
        if j == shares.len() {
            assert(names[i] == shares[i].0);
            if shares[i].0 == new_name {
                assert(names.contains(new_name));
            }
        } else {
            assert(after[i] == shares[i] && after[j] == shares[j]);
        }
    }
    lemma_without_share(shares, gone);
}

/// The connection timeouts the client keeps.
#[derive(Clone, Copy, Debug, PartialEq, Eq, Structural)]
pub struct Timeouts {
    pub ping_interval_secs: u64,
    pub pong_timeout_ms: u64,
    pub ws_connect_secs: u64,
}

/// The timeouts stored in the configuration, each falling back to its
/// default.
pub fn stored_timeouts(defaults: Timeouts, ping_secs: Option<u64>, pong_ms: Option<u64>, connect_secs: Option<u64>) -> (res: Timeouts)
    ensures
        res.ping_interval_secs == (match ping_secs { Some(v) => v, None => defaults.ping_interval_secs }),
        res.pong_timeout_ms == (match pong_ms { Some(v) => v, None => defaults.pong_timeout_ms }),
        res.ws_connect_secs == (match connect_secs { Some(v) => v, None => defaults.ws_connect_secs }),
{
    Timeouts {
        ping_interval_secs: match ping_secs { Some(v) => v, None => defaults.ping_interval_secs },
        pong_timeout_ms: match pong_ms { Some(v) => v, None => defaults.pong_timeout_ms },
        ws_connect_secs: match connect_secs { Some(v) => v, None => defaults.ws_connect_secs },
    }
}

/// The timeouts the spin buttons ask for: the pong timeout is shown in
/// seconds and kept in milliseconds.
pub fn timeouts_from_form(ping_secs: u64, pong_secs: u64, connect_secs: u64) -> (res: Timeouts)
    requires
        pong_secs * 1000 <= u64::MAX,
    ensures
        res == (Timeouts { ping_interval_secs: ping_secs, pong_timeout_ms: (pong_secs * 1000) as u64, ws_connect_secs: connect_secs }),
{
    Timeouts { ping_interval_secs: ping_secs, pong_timeout_ms: pong_secs * 1000, ws_connect_secs: connect_secs }
}

/// The pong spin button follows the timeout in force: the whole seconds
/// of it, when they differ from what the button shows.
pub fn pong_correction(shown_secs: u64, live_pong_ms: u64) -> (res: Option<u64>)
    ensures
        res == (if shown_secs != live_pong_ms / 1000 { Some(live_pong_ms / 1000) } else { None }),
{
    let live = live_pong_ms / 1000;
    if shown_secs != live { Some(live) } else { None }
}

/// A limit spin button follows the limit in force when it differs from
/// the one asked for.
pub fn limit_correction(requested: u32, effective: u32) -> (res: Option<u32>)
    ensures
        res == (if effective != requested { Some(effective) } else { None }),
{
    if effective != requested { Some(effective) } else { None }
}

/// The position of a language in the language menu: that of the first
/// language with its code, or English's.
pub fn language_position(code: &str) -> (res: u32)
    ensures
        res as nat == lang_index(code@),
        res < LANG_COUNT,
{
    let mut i: usize = 0;
    while i < LANG_COUNT
        invariant
            i <= LANG_COUNT,
            forall|k: int| 0 <= k < i ==> lang_code(k) != code@,
        decreases LANG_COUNT - i,
    {
        if str_eq(lang_at(i).0, code) {
            proof {
                assert(exists|x: int| 0 <= x < LANG_COUNT && lang_code(x) == code@) by {
                    assert(lang_code(i as int) == code@);
                }
                let c = choose|x: nat| x < LANG_COUNT && lang_code(x as int) == code@
                    && forall|k: int| 0 <= k < x ==> lang_code(k) != code@;
                assert((i as nat) < LANG_COUNT && lang_code(i as int) == code@
                    && forall|k: int| 0 <= k < i ==> lang_code(k) != code@);
                if c < i {
                } else if c > i {
                    assert(lang_code(i as int) != code@);
                }
            }
            return i as u32;
        }
        i += 1;
    }
    0
}

/// The code of the language picked at a position of the menu; nothing
/// past its end.
pub fn language_at(index: u32) -> (res: Option<&'static str>)
    ensures
        index < LANG_COUNT ==> (res matches Some(c) && c@ == lang_code(index as int)),
        index >= LANG_COUNT ==> res is None,
{
    if (index as usize) < LANG_COUNT {
        Some(lang_at(index as usize).0)
    } else {
        None
    }
}

/// The services the sharing page offers a switch for: system information,
/// files, terminal, desktop and network, and the registry on Windows.
pub open spec fn sharing_kinds(windows: bool) -> Seq<ServiceKind> {
    let base = seq![ServiceKind::SystemInfo, ServiceKind::Files, ServiceKind::Terminal,
        ServiceKind::Desktop, ServiceKind::Network];
    if windows { base.push(ServiceKind::Registry) } else { base }
}

/// The services the sharing page offers a switch for, in order.
pub fn sharing_switches(windows: bool) -> (res: Vec<ServiceKind>)
    ensures
        res@ == sharing_kinds(windows),
{
    let mut v: Vec<ServiceKind> = Vec::new();
    v.push(ServiceKind::SystemInfo);
    v.push(ServiceKind::Files);
    v.push(ServiceKind::Terminal);
    v.push(ServiceKind::Desktop);
    v.push(ServiceKind::Network);
    if windows {
        v.push(ServiceKind::Registry);
    }
    v
}

/// What turning a sharing switch changes in the configuration.
#[derive(Clone, Copy, Debug, PartialEq, Eq, Structural)]
pub enum SharingChange {
    /// Nothing: the shared-folders editor is shown and folders are added there.
    ShowShares,
    /// No folder is shared any more, and the editor is hidden.
    ClearShares,
    /// The service is shared or not.
    SetService(ServiceKind, bool),
    /// The registry is shared or not.
    SetRegistry(bool),
}

/// What turning a switch of the sharing page does: the change to the
/// configuration, and whether the shared services are reloaded after it.
pub open spec fn sharing_toggle_spec(kind: ServiceKind, on: bool) -> (SharingChange, bool) {
    match kind {
        ServiceKind::Files => if on { (SharingChange::ShowShares, false) } else { (SharingChange::ClearShares, true) },
        ServiceKind::Registry => (SharingChange::SetRegistry(on), true),
        _ => (SharingChange::SetService(kind, on), true),
    }
}

/// What turning a switch of the sharing page does: the change to the
/// configuration, and whether the shared services are reloaded after it.
pub fn sharing_toggle(kind: ServiceKind, on: bool) -> (res: (SharingChange, bool))
    ensures
        res == sharing_toggle_spec(kind, on),
{
    match kind {
        ServiceKind::Files => if on { (SharingChange::ShowShares, false) } else { (SharingChange::ClearShares, true) },
        ServiceKind::Registry => (SharingChange::SetRegistry(on), true),
        _ => (SharingChange::SetService(kind, on), true),
    }
}

} // verus!
