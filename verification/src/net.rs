//! The network page: the applications a peer offers to start behind the
//! tunnel (asked for when a connected peer is selected, shown as a list
//! with a start or stop button, or as the reason the peer refused), the
//! socket counter, and the `.desktop` files that describe local
//! applications.
use vstd::prelude::*;
use crate::i18n::{Catalog, CatalogView, translate, interpolate, args_view};
use crate::text::{str_eq, chars_of, string_from_chars, extend_str, has_prefix, starts_with, trim, trim_chars,
    split_on, split_chars, skip_chars, occurs_at, occurs_at_exec, decimal, decimal_string};
use crate::workspace::opt_text;
use crate::text::{lowercase, to_lowercase, contains_chars, contains_seq};
use crate::settings::{file_name_of, path_file_name};

verus! {

/// An application a peer offers.
pub struct RemoteApp {
    pub id: String,
    pub name: String,
    pub icon_name: Option<String>,
}

/// An application running on a peer for this device.
pub struct RemoteSession {
    pub app_id: String,
    pub session_id: u64,
}

/// What a peer answered when asked for its applications.
pub struct RemoteApps {
    /// Why the peer refused, if it did.
    pub refused: Option<String>,
    pub apps: Vec<RemoteApp>,
    pub sessions: Vec<RemoteSession>,
}

/// An application as values.
pub struct AppView {
    pub id: Seq<char>,
    pub name: Seq<char>,
    pub icon: Option<Seq<char>>,
}

/// A peer's answer as values.
pub struct RemoteView {
    pub refused: Option<Seq<char>>,
    pub apps: Seq<AppView>,
    pub sessions: Seq<(Seq<char>, u64)>,
}

impl View for RemoteApp {
    type V = AppView;

    open spec fn view(&self) -> AppView {
        AppView { id: self.id@, name: self.name@, icon: opt_text(self.icon_name) }
    }
}

/// The views of a peer's applications.
pub open spec fn apps_view(apps: Seq<RemoteApp>) -> Seq<AppView> {
    apps.map_values(|a: RemoteApp| a@)
}

/// The views of a peer's sessions.
pub open spec fn sessions_view(ss: Seq<RemoteSession>) -> Seq<(Seq<char>, u64)> {
    ss.map_values(|s: RemoteSession| (s.app_id@, s.session_id))
}

impl View for RemoteApps {
    type V = RemoteView;

    open spec fn view(&self) -> RemoteView {
        RemoteView { refused: opt_text(self.refused), apps: apps_view(self.apps@), sessions: sessions_view(self.sessions@) }
    }
}

/// An optional answer as values.
pub open spec fn remote_view(r: Option<RemoteApps>) -> Option<RemoteView> {
    match r {
        Some(v) => Some(v@),
        None => None,
    }
}

fn opt_str_eq(a: &Option<String>, b: &Option<String>) -> (res: bool)
    ensures
        res == (opt_text(*a) == opt_text(*b)),
{
    match (a, b) {
        (Some(x), Some(y)) => str_eq(x.as_str(), y.as_str()),
        (None, None) => true,
        _ => false,
    }
}

fn answers_eq(a: &RemoteApps, b: &RemoteApps) -> (res: bool)
    ensures
        res == (a@ == b@),
{
    if !opt_str_eq(&a.refused, &b.refused) {
        return false;
    }
    if a.apps.len() != b.apps.len() || a.sessions.len() != b.sessions.len() {
        assert(a@.apps.len() != b@.apps.len() || a@.sessions.len() != b@.sessions.len());
        return false;
    }
    let ghost av = apps_view(a.apps@);
    let ghost bv = apps_view(b.apps@);
    let mut i: usize = 0;
    while i < a.apps.len()
        invariant
            i <= a.apps@.len(),
            a.apps@.len() == b.apps@.len(),
            av == apps_view(a.apps@),
            bv == apps_view(b.apps@),
            forall|k: int| 0 <= k < i ==> av[k] == bv[k],
        decreases a.apps.len() - i,
    {
        if !str_eq(a.apps[i].id.as_str(), b.apps[i].id.as_str())
            || !str_eq(a.apps[i].name.as_str(), b.apps[i].name.as_str())
            || !opt_str_eq(&a.apps[i].icon_name, &b.apps[i].icon_name) {
            assert(av[i as int] != bv[i as int]);
            return false;
        }
        i += 1;
    }
    assert(av =~= bv);
    let ghost asv = sessions_view(a.sessions@);
    let ghost bsv = sessions_view(b.sessions@);
    let mut j: usize = 0;
    while j < a.sessions.len()
        invariant
            j <= a.sessions@.len(),
            a.sessions@.len() == b.sessions@.len(),
            asv == sessions_view(a.sessions@),
            bsv == sessions_view(b.sessions@),
            forall|k: int| 0 <= k < j ==> asv[k] == bsv[k],
        decreases a.sessions.len() - j,
    {
        if !str_eq(a.sessions[j].app_id.as_str(), b.sessions[j].app_id.as_str())
            || a.sessions[j].session_id != b.sessions[j].session_id {
            assert(asv[j as int] != bsv[j as int]);
            return false;
        }
        j += 1;
    }
    assert(asv =~= bsv);
    true
}

/// The network page's state.
pub struct NetworkState {
    pub peer_name: String,
    pub has_peer: bool,
    pub connected: bool,
    pub remote: Option<RemoteApps>,
    pub sockets: u64,
    pub rx: u64,
    pub tx: u64,
}

impl NetworkState {
    /// The page before any peer is selected.
    pub fn new() -> (res: NetworkState)
        ensures
            res.peer_name@ == Seq::<char>::empty(),
            !res.has_peer && !res.connected,
            res.remote is None,
            res.sockets == 0 && res.rx == 0 && res.tx == 0,
    {
        NetworkState { peer_name: String::new(), has_peer: false, connected: false, remote: None, sockets: 0, rx: 0, tx: 0 }
    }

    /// The selected peer changed or its link did: another peer's answer is
    /// forgotten, and the applications are asked for (the result is true)
    /// when a connected peer has no answer yet.
    pub fn set_context(&mut self, peer_name: String, has_peer: bool, connected: bool) -> (res: bool)
        ensures
            final(self).peer_name@ == peer_name@,
            final(self).has_peer == has_peer,
            final(self).connected == connected,
            remote_view(final(self).remote) == (if old(self).peer_name@ != peer_name@ { None } else { remote_view(old(self).remote) }),
            res == (has_peer && connected && final(self).remote is None),
            final(self).sockets == old(self).sockets && final(self).rx == old(self).rx && final(self).tx == old(self).tx,
    {
        if !str_eq(self.peer_name.as_str(), peer_name.as_str()) {
            self.remote = None;
        }
        self.peer_name = peer_name;
        self.has_peer = has_peer;
        self.connected = connected;
        has_peer && connected && self.remote.is_none()
    }

    /// A peer's answer came: kept when it differs from the last one, and
    /// then the list is drawn again (the result is true).
    pub fn set_remote(&mut self, answer: Option<RemoteApps>) -> (res: bool)
        ensures
            res == (remote_view(answer) != remote_view(old(self).remote)),
            remote_view(final(self).remote) == remote_view(answer),
            final(self).peer_name@ == old(self).peer_name@,
            final(self).has_peer == old(self).has_peer,
            final(self).connected == old(self).connected,
    {
        let same = match (&self.remote, &answer) {
            (Some(a), Some(b)) => answers_eq(a, b),
            (None, None) => true,
            _ => false,
        };
        if !same {
            self.remote = answer;
        }
        !same
    }

    /// New counters of sockets and traffic.
    pub fn set_totals(&mut self, sockets: u64, rx: u64, tx: u64)
        ensures
            final(self).sockets == sockets && final(self).rx == rx && final(self).tx == tx,
            final(self).peer_name@ == old(self).peer_name@,
            remote_view(final(self).remote) == remote_view(old(self).remote),
    {
        self.sockets = sockets;
        self.rx = rx;
        self.tx = tx;
    }

    /// The socket counter line.
    pub fn sockets_label(&self, catalog: &Catalog) -> (res: String)
        ensures
            res@ == interpolate(translate(catalog@, "net.sockets_count"@), seq![("count"@, decimal(self.sockets as nat))]),
    {
        let n = decimal_string(self.sockets);
        let args = [("count", n.as_str())];
        let t = catalog.trf("net.sockets_count", &args);
        assert(args_view(args@) =~= seq![("count"@, decimal(self.sockets as nat))]);
        t
    }

    /// What the remote applications pane shows.
    pub fn remote_pane(&self, catalog: &Catalog) -> (res: RemotePane)
        ensures
            (!self.has_peer || !self.connected) ==> (res matches RemotePane::Problem(t)
                && t@ == translate(catalog@, "net.remote_no_peer"@)),
            (self.has_peer && self.connected && self.remote is None) ==> res is Asking,
            (self.has_peer && self.connected && self.remote is Some) ==> ({
                let v = self.remote->0@;
                match v.refused {
                    Some(code) => (res matches RemotePane::Problem(t) && t@ == translate(catalog@, refusal_key_for(code))),
                    None => if v.apps.len() == 0 { res is Empty } else {
                        res matches RemotePane::List(rows) && rows_view(rows@) == rows_for(v)
                    },
                }
            }),
    {
        if !self.has_peer || !self.connected {
            return RemotePane::Problem(catalog.tr("net.remote_no_peer"));
        }
        let view = match &self.remote {
            Some(v) => v,
            None => return RemotePane::Asking,
        };
        if let Some(code) = &view.refused {
            return RemotePane::Problem(catalog.tr(refusal_key(code.as_str())));
        }
        if view.apps.len() == 0 {
            return RemotePane::Empty;
        }
        let ghost v = view@;
        let mut rows: Vec<RemoteRow> = Vec::new();
        let mut i: usize = 0;
        while i < view.apps.len()
            invariant
                i <= view.apps@.len(),
                v == view@,
                rows_view(rows@) == rows_for(v).take(i as int),
            decreases view.apps.len() - i,
        {
            let app = &view.apps[i];
            let action = match session_of(&view.sessions, app.id.as_str()) {
                Some(sid) => RowAction::Stop(sid),
                None => RowAction::Launch(app.id.clone()),
            };
            let icon = match &app.icon_name {
                Some(n) => Some(n.clone()),
                None => None,
            };
            let row = RemoteRow { name: app.name.clone(), icon, action };
            let ghost before = rows_view(rows@);
            rows.push(row);
            assert(v.apps[i as int] == app@);
            assert(rows_view(rows@) =~= before.push(row_view(row)));
            assert(rows_for(v).take(i + 1) =~= rows_for(v).take(i as int).push(rows_for(v)[i as int]));
            i += 1;
        }
        assert(rows_for(v).take(v.apps.len() as int) =~= rows_for(v));
        RemotePane::List(rows)
    }
}

/// Whether a row of the local applications stays visible for a search: an
/// empty search shows everything; otherwise the lowercase title or
/// subtitle must hold the lowercase search.
pub fn app_row_visible(title: &str, subtitle: &str, query: &str) -> (res: bool)
    ensures
        res == (lowercase(query@).len() == 0 || contains_seq(lowercase(title@), lowercase(query@))
            || contains_seq(lowercase(subtitle@), lowercase(query@))),
{
    let q = to_lowercase(query);
    let qc = chars_of(q.as_str());
    if qc.len() == 0 {
        return true;
    }
    let t = to_lowercase(title);
    let tc = chars_of(t.as_str());
    if contains_chars(tc.as_slice(), qc.as_slice()) {
        return true;
    }
    let s = to_lowercase(subtitle);
    let sc = chars_of(s.as_str());
    contains_chars(sc.as_slice(), qc.as_slice())
}

/// The message key of a refusal code.
pub open spec fn refusal_key_for(code: Seq<char>) -> Seq<char> {
    if code == "not_supported"@ { "net.remote_not_supported"@ }
    else if code == "network_off"@ { "net.remote_network_off"@ }
    else if code == "no_consent"@ { "net.remote_no_consent"@ }
    else if code == "unknown_app"@ { "net.remote_unknown_app"@ }
    else if code == "too_many"@ { "net.remote_too_many"@ }
    else { "net.remote_unknown_reason"@ }
}

/// The message key of a refusal code.
pub fn refusal_key(code: &str) -> (res: &'static str)
    ensures
        res@ == refusal_key_for(code@),
{
    if str_eq(code, "not_supported") {
        "net.remote_not_supported"
    } else if str_eq(code, "network_off") {
        "net.remote_network_off"
    } else if str_eq(code, "no_consent") {
        "net.remote_no_consent"
    } else if str_eq(code, "unknown_app") {
        "net.remote_unknown_app"
    } else if str_eq(code, "too_many") {
        "net.remote_too_many"
    } else {
        "net.remote_unknown_reason"
    }
}

/// The message shown for a refusal code.
pub fn refusal_text(catalog: &Catalog, code: &str) -> (res: String)
    ensures
        res@ == translate(catalog@, refusal_key_for(code@)),
{
    catalog.tr(refusal_key(code))
}

/// The button of an application's row.
pub enum RowAction {
    /// Stop the running session.
    Stop(u64),
    /// Start the application of this id.
    Launch(String),
}

/// A row of the remote applications list.
pub struct RemoteRow {
    pub name: String,
    pub icon: Option<String>,
    pub action: RowAction,
}

/// The button of a row, as values.
pub enum ActionView {
    Stop(u64),
    Launch(Seq<char>),
}

/// What the remote applications pane shows.
pub enum RemotePane {
    /// A message: no connected peer, or the peer's refusal.
    Problem(String),
    /// Waiting for the peer's answer.
    Asking,
    /// The peer offers nothing.
    Empty,
    /// The peer's applications.
    List(Vec<RemoteRow>),
}

/// A row as values.
pub open spec fn row_view(r: RemoteRow) -> (Seq<char>, Option<Seq<char>>, ActionView) {
    (r.name@, opt_text(r.icon), match r.action {
        RowAction::Stop(s) => ActionView::Stop(s),
        RowAction::Launch(id) => ActionView::Launch(id@),
    })
}

/// The views of rows.
pub open spec fn rows_view(rs: Seq<RemoteRow>) -> Seq<(Seq<char>, Option<Seq<char>>, ActionView)> {
    rs.map_values(|r: RemoteRow| row_view(r))
}

/// The session of the first running instance of an application.
pub open spec fn session_for(ss: Seq<(Seq<char>, u64)>, app_id: Seq<char>) -> Option<u64>
    decreases ss.len(),
{
    if ss.len() == 0 {
        None
    } else if ss[0].0 == app_id {
        Some(ss[0].1)
    } else {
        session_for(ss.drop_first(), app_id)
    }
}

/// The row of an application: a stop button for a running one, else a
/// start button.
pub open spec fn row_for(v: RemoteView, a: AppView) -> (Seq<char>, Option<Seq<char>>, ActionView) {
    (a.name, a.icon, match session_for(v.sessions, a.id) {
        Some(s) => ActionView::Stop(s),
        None => ActionView::Launch(a.id),
    })
}

/// The rows of a peer's answer, one per application in its order.
pub open spec fn rows_for(v: RemoteView) -> Seq<(Seq<char>, Option<Seq<char>>, ActionView)> {
    v.apps.map_values(|a: AppView| row_for(v, a))
}

fn session_of(ss: &Vec<RemoteSession>, app_id: &str) -> (res: Option<u64>)
    ensures
        res == session_for(sessions_view(ss@), app_id@),
{
    let ghost sv = sessions_view(ss@);
    assert(sv.skip(0) =~= sv);
    let mut i: usize = 0;
    while i < ss.len()
        invariant
            i <= ss@.len(),
            sv == sessions_view(ss@),
            session_for(sv, app_id@) == session_for(sv.skip(i as int), app_id@),
        decreases ss.len() - i,
    {
        assert(sv.skip(i as int)[0] == sv[i as int]);
        if str_eq(ss[i].app_id.as_str(), app_id) {
            return Some(ss[i].session_id);
        }
        assert(sv.skip(i as int).drop_first() =~= sv.skip(i + 1));
        i += 1;
    }
    None
}

/// `s` with every occurrence of `pat` taken out, scanning from the left
/// as `str::replace` with an empty replacement does.
pub open spec fn remove_all(s: Seq<char>, pat: Seq<char>) -> Seq<char>
    decreases s.len(),
{
    if s.len() == 0 {
        s
    } else if pat.len() > 0 && starts_with(s, pat) {
        remove_all(s.skip(pat.len() as int), pat)
    } else {
        seq![s[0]] + remove_all(s.drop_first(), pat)
    }
}

/// Takes every occurrence of `pat` out of `s`.
pub fn remove_all_chars(s: &[char], pat: &[char]) -> (res: Vec<char>)
    ensures
        res@ == remove_all(s@, pat@),
{
    let mut out: Vec<char> = Vec::new();
    let mut i: usize = 0;
    assert(s@.skip(0) =~= s@);
    assert(out@ + remove_all(s@, pat@) =~= remove_all(s@, pat@));
    while i < s.len()
        invariant
            i <= s@.len(),
            out@ + remove_all(s@.skip(i as int), pat@) == remove_all(s@, pat@),
        decreases s.len() - i,
    {
        let ghost rest = s@.skip(i as int);
        if pat.len() > 0 && occurs_at_exec(s, pat, i) {
            assert(starts_with(rest, pat@)) by {
                assert(rest.take(pat@.len() as int) =~= s@.subrange(i as int, i + pat@.len()));
            }
            assert(rest.skip(pat@.len() as int) =~= s@.skip(i + pat@.len()));
            i = i + pat.len();
        } else {
            assert(!(pat@.len() > 0 && starts_with(rest, pat@))) by {
                if pat@.len() > 0 && starts_with(rest, pat@) {
                    assert(rest.take(pat@.len() as int) =~= s@.subrange(i as int, i + pat@.len()));
                }
            }
            assert(rest.drop_first() =~= s@.skip(i + 1));
            assert(out@.push(s@[i as int]) + remove_all(s@.skip(i + 1), pat@) =~= out@ + remove_all(rest, pat@));
            out.push(s[i]);
            i += 1;
        }
    }
    assert(s@.skip(s@.len() as int) =~= Seq::<char>::empty());
    assert(out@ + Seq::<char>::empty() =~= out@);
    out
}

/// The command of an `Exec=` line: the field codes `%u %U %f %F %c %k %i
/// %m` taken out, one after the other, and the rest trimmed.
pub open spec fn exec_command(cmd: Seq<char>) -> Seq<char> {
    trim(remove_all(remove_all(remove_all(remove_all(remove_all(remove_all(remove_all(remove_all(cmd,
        "%u"@), "%U"@), "%f"@), "%F"@), "%c"@), "%k"@), "%i"@), "%m"@))
}

/// What the scan of a `.desktop` file has found so far.
pub struct DesktopScan {
    pub name: Option<Seq<char>>,
    pub command: Option<Seq<char>>,
    pub icon: Option<Seq<char>>,
    pub hidden: bool,
}

/// One line of a `.desktop` file, trimmed: the first `Name=`, `Exec=` and
/// `Icon=` lines give the name, command and icon, and `NoDisplay=true`
/// hides the application.
pub open spec fn scan_line(st: DesktopScan, raw: Seq<char>) -> DesktopScan {
    let line = trim(raw);
    if starts_with(line, "Name="@) && st.name is None {
        DesktopScan { name: Some(line.skip(5)), ..st }
    } else if starts_with(line, "Exec="@) && st.command is None {
        DesktopScan { command: Some(exec_command(line.skip(5))), ..st }
    } else if starts_with(line, "Icon="@) && st.icon is None {
        DesktopScan { icon: Some(line.skip(5)), ..st }
    } else if starts_with(line, "NoDisplay=true"@) {
        DesktopScan { hidden: true, ..st }
    } else {
        st
    }
}

/// The scan of a file's lines, in order.
pub open spec fn scan_lines(lines: Seq<Seq<char>>) -> DesktopScan
    decreases lines.len(),
{
    if lines.len() == 0 {
        DesktopScan { name: None, command: None, icon: None, hidden: false }
    } else {
        scan_line(scan_lines(lines.drop_last()), lines.last())
    }
}

/// The application a `.desktop` file describes: none when it is hidden or
/// lacks a name or a command.
pub open spec fn desktop_entry(text: Seq<char>) -> Option<(Seq<char>, Seq<char>, Option<Seq<char>>)> {
    let st = scan_lines(split_on(text, '\n'));
    if st.hidden {
        None
    } else {
        match (st.name, st.command) {
            (Some(n), Some(e)) => Some((n, e, st.icon)),
            _ => None,
        }
    }
}

/// A line that, trimmed, starts with `Exec=`.
pub open spec fn is_exec_line(raw: Seq<char>) -> bool {
    starts_with(trim(raw), "Exec="@)
}

/// The command an `Exec=` line gives.
pub open spec fn exec_of_line(raw: Seq<char>) -> Seq<char> {
    exec_command(trim(raw).skip(5))
}

proof fn lemma_scan_no_exec_yet(lines: Seq<Seq<char>>, m: int)
    requires
        0 <= m <= lines.len(),
        forall|j: int| 0 <= j < m ==> !is_exec_line(#[trigger] lines[j]),
    ensures
        scan_lines(lines.take(m)).command is None,
    decreases m,
{
    if m > 0 {
        lemma_scan_no_exec_yet(lines, m - 1);
        assert(lines.take(m).drop_last() =~= lines.take(m - 1));
        assert(lines.take(m).last() == lines[m - 1]);
        assert(!is_exec_line(lines[m - 1]));
    }
}

proof fn lemma_scan_keeps_first_exec(lines: Seq<Seq<char>>, k: int, m: int)
    requires
        0 <= k < m <= lines.len(),
        is_exec_line(lines[k]),
        forall|j: int| 0 <= j < k ==> !is_exec_line(#[trigger] lines[j]),
    ensures
        scan_lines(lines.take(m)).command == Some(exec_of_line(lines[k])),
    decreases m,
{
    assert(lines.take(m).drop_last() =~= lines.take(m - 1));
    assert(lines.take(m).last() == lines[m - 1]);
    if m == k + 1 {
        lemma_scan_no_exec_yet(lines, k);
        let line = trim(lines[k]);
        assert(!starts_with(line, "Name="@)) by {
            reveal_strlit("Name=");
            reveal_strlit("Exec=");
            assert(line[0] == "Exec="@[0]);
        }
    } else {
        lemma_scan_keeps_first_exec(lines, k, m - 1);
    }
}

/// A `.desktop` file's command comes from its first `Exec=` line, whatever
/// `Exec=` lines follow (those of its actions, say); a file without one
/// describes no application.
pub proof fn lemma_first_exec_line_wins(text: Seq<char>, k: int)
    ensures
        ({
            let lines = split_on(text, '\n');
            &&& (0 <= k < lines.len() && is_exec_line(lines[k])
                && forall|j: int| 0 <= j < k ==> !is_exec_line(#[trigger] lines[j])) ==> {
                &&& scan_lines(lines).command == Some(exec_of_line(lines[k]))
                &&& desktop_entry(text) matches Some((n, e, i)) ==> e == exec_of_line(lines[k])
            }
            &&& (forall|j: int| 0 <= j < lines.len() ==> !is_exec_line(#[trigger] lines[j])) ==> desktop_entry(text) is None
        }),
{
    let lines = split_on(text, '\n');
    assert(lines.take(lines.len() as int) =~= lines);
    if 0 <= k < lines.len() && is_exec_line(lines[k])
        && forall|j: int| 0 <= j < k ==> !is_exec_line(#[trigger] lines[j]) {
        lemma_scan_keeps_first_exec(lines, k, lines.len() as int);
    }
    if forall|j: int| 0 <= j < lines.len() ==> !is_exec_line(#[trigger] lines[j]) {
        lemma_scan_no_exec_yet(lines, lines.len() as int);
    }
}

/// A local application: its name, the command that starts it and its icon.
pub struct DesktopEntry {
    pub name: String,
    pub command: String,
    pub icon: Option<String>,
}

fn exec_command_chars(cmd: &[char]) -> (res: Vec<char>)
    ensures
        res@ == exec_command(cmd@),
{
    let a = remove_all_chars(cmd, chars_of("%u").as_slice());
    let b = remove_all_chars(a.as_slice(), chars_of("%U").as_slice());
    let c = remove_all_chars(b.as_slice(), chars_of("%f").as_slice());
    let d = remove_all_chars(c.as_slice(), chars_of("%F").as_slice());
    let e = remove_all_chars(d.as_slice(), chars_of("%c").as_slice());
    let f = remove_all_chars(e.as_slice(), chars_of("%k").as_slice());
    let g = remove_all_chars(f.as_slice(), chars_of("%i").as_slice());
    let h = remove_all_chars(g.as_slice(), chars_of("%m").as_slice());
    trim_chars(h.as_slice())
}

/// Reads the application a `.desktop` file describes.
pub fn parse_desktop_entry(text: &str) -> (res: Option<DesktopEntry>)
    ensures
        match desktop_entry(text@) {
            Some((n, e, i)) => (res matches Some(d) && d.name@ == n && d.command@ == e && opt_text(d.icon) == i),
            None => res is None,
        },
{
    let tc = chars_of(text);
    let lines = split_chars(tc.as_slice(), '\n');
    let ghost ls = split_on(text@, '\n');
    let name_p = chars_of("Name=");
    let exec_p = chars_of("Exec=");
    let icon_p = chars_of("Icon=");
    let hide_p = chars_of("NoDisplay=true");
    proof {
        reveal_strlit("Name=");
        reveal_strlit("Exec=");
        reveal_strlit("Icon=");
    }
    let mut name: Option<Vec<char>> = None;
    let mut command: Option<Vec<char>> = None;
    let mut icon: Option<Vec<char>> = None;
    let mut hidden = false;
    let mut i: usize = 0;
    while i < lines.len()
        invariant
            i <= lines@.len(),
            lines@.len() == ls.len(),
            forall|k: int| 0 <= k < lines@.len() ==> (#[trigger] lines@[k])@ == ls[k],
            name_p@ == "Name="@, exec_p@ == "Exec="@, icon_p@ == "Icon="@, hide_p@ == "NoDisplay=true"@,
            "Name="@.len() == 5, "Exec="@.len() == 5, "Icon="@.len() == 5,
            ({
                let st = scan_lines(ls.take(i as int));
                &&& st.name == (match name { Some(v) => Some(v@), None => None::<Seq<char>> })
                &&& st.command == (match command { Some(v) => Some(v@), None => None::<Seq<char>> })
                &&& st.icon == (match icon { Some(v) => Some(v@), None => None::<Seq<char>> })
                &&& st.hidden == hidden
            }),
        decreases lines.len() - i,
    {
        assert(ls.take(i + 1).drop_last() =~= ls.take(i as int));
        assert(ls.take(i + 1).last() == ls[i as int]);
        let line = trim_chars(lines[i].as_slice());
        if has_prefix(line.as_slice(), name_p.as_slice()) && name.is_none() {
            name = Some(skip_chars(line.as_slice(), 5));
        } else if has_prefix(line.as_slice(), exec_p.as_slice()) && command.is_none() {
            let rest = skip_chars(line.as_slice(), 5);
            command = Some(exec_command_chars(rest.as_slice()));
        } else if has_prefix(line.as_slice(), icon_p.as_slice()) && icon.is_none() {
            icon = Some(skip_chars(line.as_slice(), 5));
        } else if has_prefix(line.as_slice(), hide_p.as_slice()) {
            hidden = true;
        }
        i += 1;
    }
    assert(ls.take(lines@.len() as int) =~= ls);
    if hidden {
        return None;
    }
    match (name, command) {
        (Some(n), Some(e)) => Some(DesktopEntry {
            name: string_from_chars(n.as_slice()),
            command: string_from_chars(e.as_slice()),
            icon: match icon {
                Some(v) => Some(string_from_chars(v.as_slice())),
                None => None,
            },
        }),
        _ => None,
    }
}

/// What `std::path::Path::extension` gives for a path, as text.
pub uninterp spec fn extension_of(path: Seq<char>) -> Option<Seq<char>>;

/// The extension of a path's last component:
/// `Path::new(path).extension()` as text. The contract names the result
/// and says nothing more of it.
#[verifier::external_body]
fn path_extension(path: &str) -> (res: Option<String>)
    ensures
        opt_text(res) == extension_of(path@),
{
    match std::path::Path::new(path).extension() {
        Some(e) => Some(e.to_string_lossy().to_string()),
        None => None,
    }
}

/// Whether a picked file is read as a `.desktop` file: its extension is
/// exactly `desktop`.
pub open spec fn is_desktop_path(path: Seq<char>) -> bool {
    extension_of(path) == Some("desktop"@)
}

/// Whether the application picked at `path` is described by a `.desktop`
/// file, whose text is then worth reading.
pub fn wants_desktop_text(path: &str) -> (res: bool)
    ensures
        res == is_desktop_path(path@),
{
    let ext = path_extension(path);
    match ext {
        Some(e) => str_eq(e.as_str(), "desktop"),
        None => false,
    }
}

/// The entry of a picked program that no `.desktop` file describes: named
/// after the file that was picked (empty when its path has no last
/// component), started by the path it resolved to, and without an icon.
pub fn fallback_entry(picked: &str, final_path: &str) -> (res: DesktopEntry)
    ensures
        res.name@ == (match file_name_of(picked@) { Some(n) => n, None => Seq::<char>::empty() }),
        res.command@ == final_path@,
        res.icon is None,
{
    let name = path_file_name(picked);
    match name {
        Some(n) => pick_entry(Some(n.as_str()), final_path, false, None),
        None => pick_entry(None, final_path, false, None),
    }
}

/// The entry for a picked program, from the last component of the path
/// picked (`file_name`), the path it resolved to, whether that path names
/// a `.desktop` file, and that file's text where it was read. A `.desktop`
/// file that describes a shown application gives that application;
/// anything else gives an entry named after `file_name` (empty when there
/// is none), started by `final_path`, without an icon.
pub fn pick_entry(file_name: Option<&str>, final_path: &str, is_desktop: bool, desktop_text: Option<&str>)
    -> (res: DesktopEntry)
    ensures
        ({
            let parsed = match desktop_text { Some(t) => desktop_entry(t@), None => None };
            if is_desktop && parsed is Some {
                let (n, e, i) = parsed->0;
                res.name@ == n && res.command@ == e && opt_text(res.icon) == i
            } else {
                &&& res.name@ == (match file_name { Some(n) => n@, None => Seq::<char>::empty() })
                &&& res.command@ == final_path@
                &&& res.icon is None
            }
        }),
{
    if is_desktop {
        match desktop_text {
            Some(t) => {
                match parse_desktop_entry(t) {
                    Some(e) => { return e; }
                    None => {}
                }
            }
            None => {}
        }
    }
    let name = match file_name {
        Some(n) => string_from_chars(chars_of(n).as_slice()),
        None => string_from_chars(Vec::new().as_slice()),
    };
    DesktopEntry { name, command: string_from_chars(chars_of(final_path).as_slice()), icon: None }
}

/// The entry for a program picked in the file chooser. `picked` is the
/// path chosen and `final_path` the one it resolves to; `desktop_text` is
/// the text of `final_path`, where it was read. A `.desktop` file that
/// describes a shown application gives that application; anything else
/// gives the fallback entry.
pub fn entry_for_pick(picked: &str, final_path: &str, desktop_text: Option<&str>) -> (res: DesktopEntry)
    ensures
        ({
            let parsed = match desktop_text { Some(t) => desktop_entry(t@), None => None };
            if is_desktop_path(final_path@) && parsed is Some {
                let (n, e, i) = parsed->0;
                res.name@ == n && res.command@ == e && opt_text(res.icon) == i
            } else {
                &&& res.name@ == (match file_name_of(picked@) { Some(n) => n, None => Seq::<char>::empty() })
                &&& res.command@ == final_path@
                &&& res.icon is None
            }
        }),
{
    let name = path_file_name(picked);
    let desktop = wants_desktop_text(final_path);
    match name {
        Some(n) => pick_entry(Some(n.as_str()), final_path, desktop, desktop_text),
        None => pick_entry(None, final_path, desktop, desktop_text),
    }
}

} // verus!
