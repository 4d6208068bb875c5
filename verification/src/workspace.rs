//! The workspace: the device list with its status dots and search, the
//! tabs of open devices and their services, and the decisions a new
//! snapshot of the workspace leads to (which page to show, when the
//! terminal restarts, when system information is polled).
use vstd::prelude::*;
use crate::i18n::{Catalog, CatalogView, translate};
use crate::text::{chars_of, str_eq, lowercase, to_lowercase, contains_chars, contains_seq};
use crate::rdesk::RdeskEvent;
use crate::paths::{after_last_sep, after_last_sep_chars};
use crate::text::{words, split_words, string_from_chars, decimal, decimal_string};
use crate::icons::{os_pretty, pretty_os};

verus! {

/// The state of the link to a device.
#[derive(Clone, Copy, Debug, PartialEq, Eq, Structural)]
pub enum LinkState {
    Idle,
    Connecting,
    Connected,
    Failed,
}

/// The services a device can offer.
#[derive(Clone, Copy, Debug, PartialEq, Eq, Structural)]
pub enum ServiceKind {
    SystemInfo,
    Files,
    Terminal,
    Desktop,
    Network,
    Registry,
}

/// A device of the account.
pub struct DeviceInfo {
    pub id: String,
    pub name: String,
    pub os: String,
    pub online: bool,
    pub link: LinkState,
    pub services: Vec<ServiceKind>,
}

/// The services shown as tabs, in order, with their icon and label key.
pub open spec fn service_tab(i: int) -> (ServiceKind, Seq<char>, Seq<char>) {
    if i == 0 { (ServiceKind::SystemInfo, "sysinfo"@, "services.sysinfo"@) }
    else if i == 1 { (ServiceKind::Files, "fileexplorer"@, "services.files"@) }
    else if i == 2 { (ServiceKind::Terminal, "unix-console"@, "services.terminal"@) }
    else if i == 3 { (ServiceKind::Desktop, "display"@, "services.desktop"@) }
    else if i == 4 { (ServiceKind::Network, "vpn"@, "services.network"@) }
    else { (ServiceKind::Registry, "registry"@, "services.registry"@) }
}

/// The service tab at position `i`.
pub fn service_tab_at(i: usize) -> (res: (ServiceKind, &'static str, &'static str))
    requires
        i < 6,
    ensures
        (res.0, res.1@, res.2@) == service_tab(i as int),
{
    match i {
        0 => (ServiceKind::SystemInfo, "sysinfo", "services.sysinfo"),
        1 => (ServiceKind::Files, "fileexplorer", "services.files"),
        2 => (ServiceKind::Terminal, "unix-console", "services.terminal"),
        3 => (ServiceKind::Desktop, "display", "services.desktop"),
        4 => (ServiceKind::Network, "vpn", "services.network"),
        _ => (ServiceKind::Registry, "registry", "services.registry"),
    }
}

/// The services every demonstration device offers.
fn demo_services() -> (res: Vec<ServiceKind>)
    ensures
        res@ == seq![ServiceKind::SystemInfo, ServiceKind::Files, ServiceKind::Terminal, ServiceKind::Desktop, ServiceKind::Network],
{
    let mut v: Vec<ServiceKind> = Vec::new();
    v.push(ServiceKind::SystemInfo);
    v.push(ServiceKind::Files);
    v.push(ServiceKind::Terminal);
    v.push(ServiceKind::Desktop);
    v.push(ServiceKind::Network);
    assert(v@ =~= seq![ServiceKind::SystemInfo, ServiceKind::Files, ServiceKind::Terminal, ServiceKind::Desktop, ServiceKind::Network]);
    v
}

fn demo_device(id: &str, name: &str, os: &str, online: bool) -> (res: DeviceInfo)
    ensures
        res.id@ == id@,
        res.name@ == name@,
        res.os@ == os@,
        res.online == online,
        res.link == LinkState::Idle,
        res.services@ == seq![ServiceKind::SystemInfo, ServiceKind::Files, ServiceKind::Terminal, ServiceKind::Desktop, ServiceKind::Network],
{
    DeviceInfo { id: id.to_owned(), name: name.to_owned(), os: os.to_owned(), online, link: LinkState::Idle, services: demo_services() }
}

/// The devices of the demonstration workspace: two online, two offline.
pub fn mock_devices() -> (res: Vec<DeviceInfo>)
    ensures
        res@.len() == 4,
        res@[0].id@ == "server-1"@ && res@[0].os@ == "linux"@ && res@[0].online,
        res@[1].id@ == "laptop-win32"@ && res@[1].os@ == "windows"@ && res@[1].online,
        res@[2].id@ == "pixel-9"@ && res@[2].name@ == "Pixel 9 Pro XL"@ && res@[2].os@ == "android"@ && !res@[2].online,
        res@[3].id@ == "laptop-1"@ && res@[3].os@ == "linux"@ && !res@[3].online,
        forall|i: int| 0 <= i < 4 ==> (#[trigger] res@[i]).link == LinkState::Idle && res@[i].services@.len() == 5,
{
    let mut v: Vec<DeviceInfo> = Vec::new();
    v.push(demo_device("server-1", "server-1", "linux", true));
    v.push(demo_device("laptop-win32", "laptop-win32", "windows", true));
    v.push(demo_device("pixel-9", "Pixel 9 Pro XL", "android", false));
    v.push(demo_device("laptop-1", "laptop-1", "linux", false));
    v
}

/// The login check of the offline demonstration: every login succeeds and
/// every device registers.
pub struct AcceptAnyAuth;

impl AcceptAnyAuth {
    /// Accepts any login and password.
    pub fn login(&self, login: &str, password: &str) -> (res: Result<(), String>)
        ensures
            res is Ok,
    {
        Ok(())
    }

    /// Accepts any device registration.
    pub fn register_device(&self, node_id: &str, device_name: &str) -> (res: Result<(), String>)
        ensures
            res is Ok,
    {
        Ok(())
    }
}

/// The style class of a device's status dot: `off` when offline, else by
/// the link's state.
pub fn dot_class(online: bool, link: LinkState) -> (res: &'static str)
    ensures
        res@ == (if !online { "off"@ } else {
            match link {
                LinkState::Connected => "on"@,
                LinkState::Connecting => "busy"@,
                LinkState::Failed => "failed"@,
                LinkState::Idle => "idle"@,
            }
        }),
{
    if !online {
        return "off";
    }
    match link {
        LinkState::Connected => "on",
        LinkState::Connecting => "busy",
        LinkState::Failed => "failed",
        LinkState::Idle => "idle",
    }
}

/// The translation key of a device's status tooltip.
pub fn link_tooltip_key(online: bool, link: LinkState) -> (res: &'static str)
    ensures
        res@ == (if !online { "link.offline"@ } else {
            match link {
                LinkState::Connected => "link.connected"@,
                LinkState::Connecting => "link.connecting"@,
                LinkState::Failed => "link.failed"@,
                LinkState::Idle => "link.idle"@,
            }
        }),
{
    if !online {
        return "link.offline";
    }
    match link {
        LinkState::Connected => "link.connected",
        LinkState::Connecting => "link.connecting",
        LinkState::Failed => "link.failed",
        LinkState::Idle => "link.idle",
    }
}

/// How many devices are online.
pub open spec fn online_count(devs: Seq<DeviceInfo>) -> nat
    decreases devs.len(),
{
    if devs.len() == 0 { 0 } else { online_count(devs.drop_last()) + if devs.last().online { 1nat } else { 0nat } }
}

/// The online pill: the number of online devices (all devices when none
/// is online), whether it shows as idle, and its tooltip key.
pub fn online_pill(devs: &Vec<DeviceInfo>) -> (res: (usize, bool, &'static str))
    ensures
        online_count(devs@) > 0 ==> res.0 as nat == online_count(devs@) && !res.1 && res.2@ == "link.online_count"@,
        online_count(devs@) == 0 ==> res.0 == devs@.len() && res.1 && res.2@ == "link.total_count"@,
{
    let mut n: usize = 0;
    let mut i: usize = 0;
    assert(devs@.take(0) =~= Seq::<DeviceInfo>::empty());
    while i < devs.len()
        invariant
            i <= devs@.len(),
            n as nat == online_count(devs@.take(i as int)),
            n <= i,
        decreases devs.len() - i,
    {
        assert(devs@.take(i + 1).drop_last() =~= devs@.take(i as int));
        if devs[i].online {
            n += 1;
        }
        i += 1;
    }
    assert(devs@.take(devs@.len() as int) =~= devs@);
    if n > 0 { (n, false, "link.online_count") } else { (devs.len(), true, "link.total_count") }
}

/// The account shown in the rail: the saved login, or "guest" when there
/// is none.
pub fn account_label(catalog: &Catalog, login: Option<&str>) -> (res: String)
    ensures
        res@ == (match login {
            Some(l) => if l@.len() > 0 { l@ } else { translate(catalog@, "workspace.guest"@) },
            None => translate(catalog@, "workspace.guest"@),
        }),
{
    match login {
        Some(l) => {
            let c = chars_of(l);
            if c.len() > 0 { l.to_owned() } else { catalog.tr("workspace.guest") }
        },
        None => catalog.tr("workspace.guest"),
    }
}

/// Whether a device row stays visible for a search: an empty search shows
/// everything; otherwise the lowercase name must hold the lowercase search.
pub fn device_visible(name: &str, search: &str) -> (res: bool)
    ensures
        res == (lowercase(search@).len() == 0 || contains_seq(lowercase(name@), lowercase(search@))),
{
    let needle = to_lowercase(search);
    let nc = chars_of(needle.as_str());
    if nc.len() == 0 {
        return true;
    }
    let ln = to_lowercase(name);
    let lc = chars_of(ln.as_str());
    contains_chars(lc.as_slice(), nc.as_slice())
}

/// The position of the first device with this id.
pub open spec fn device_index(devs: Seq<DeviceInfo>, id: Seq<char>) -> Option<int> {
    if exists|i: int| 0 <= i < devs.len() && devs[i].id@ == id {
        Some(choose|i: int| 0 <= i < devs.len() && devs[i].id@ == id && forall|k: int| 0 <= k < i ==> devs[k].id@ != id)
    } else {
        None
    }
}

/// The position of the device with this id.
pub fn find_device(devs: &Vec<DeviceInfo>, id: &str) -> (res: Option<usize>)
    ensures
        device_index(devs@, id@) == (match res { Some(i) => Some(i as int), None => None::<int> }),
        res matches Some(i) ==> i < devs@.len(),
{
    let mut k: usize = 0;
    while k < devs.len()
        invariant
            k <= devs@.len(),
            forall|j: int| 0 <= j < k ==> devs@[j].id@ != id@,
        decreases devs.len() - k,
    {
        if str_eq(devs[k].id.as_str(), id) {
            proof {
                let c = choose|c: int| 0 <= c < devs@.len() && devs@[c].id@ == id@ && forall|j: int| 0 <= j < c ==> devs@[j].id@ != id@;
                if c < k {
                } else if c > k {
                }
            }
            return Some(k);
        }
        k += 1;
    }
    None
}

/// The panes open for the selected device, and the focused one.
pub struct Panes {
    pub open: Vec<ServiceKind>,
    pub focused: Option<ServiceKind>,
}

/// A snapshot of the workspace.
pub struct WorkspaceSnapshot {
    pub devices: Vec<DeviceInfo>,
    pub selected: Option<String>,
    pub open_tabs: Vec<String>,
    pub panes: Panes,
}

/// The page the workspace shows.
#[derive(Clone, Copy, Debug, PartialEq, Eq, Structural)]
pub enum Page {
    Empty,
    Offline,
    Service(ServiceKind),
}

/// The selected device of a snapshot, if it is among its devices.
pub open spec fn selected_device(s: WorkspaceSnapshot) -> Option<int> {
    match s.selected {
        Some(id) => device_index(s.devices@, id@),
        None => None,
    }
}

/// The page for a snapshot: a selected device that is offline shows the
/// offline page; otherwise the focused service when a device is selected,
/// else the empty page.
pub open spec fn page_for(s: WorkspaceSnapshot) -> Page {
    match selected_device(s) {
        Some(i) => if !s.devices@[i].online {
            Page::Offline
        } else {
            match s.panes.focused { Some(k) => Page::Service(k), None => Page::Empty }
        },
        None => Page::Empty,
    }
}

/// What the workspace remembers between snapshots.
pub struct WorkspaceView {
    pub session_device: Option<String>,
    pub session_connected: bool,
    pub page: Page,
    pub terminal_live: bool,
    pub registry_live: bool,
    pub sysinfo_polling: bool,
}

/// What a snapshot makes the workspace do.
pub struct RenderActions {
    pub page: Page,
    pub clear_terminal: bool,
    pub start_terminal: bool,
    pub focus_terminal: bool,
    pub reset_registry: bool,
    pub polling: Option<bool>,
    pub refresh_sysinfo: bool,
    pub peer_name: String,
    pub has_peer: bool,
    pub connected: bool,
}

/// The text of an optional string.
pub open spec fn opt_text(o: Option<String>) -> Option<Seq<char>> {
    match o {
        Some(s) => Some(s@),
        None => None,
    }
}

fn services_contain(v: &Vec<ServiceKind>, k: ServiceKind) -> (res: bool)
    ensures
        res == v@.contains(k),
{
    let mut i: usize = 0;
    while i < v.len()
        invariant
            i <= v@.len(),
            forall|j: int| 0 <= j < i ==> v@[j] != k,
        decreases v.len() - i,
    {
        if v[i] == k {
            return true;
        }
        i += 1;
    }
    false
}

impl WorkspaceView {
    /// The workspace before any snapshot.
    pub fn new() -> (res: WorkspaceView)
        ensures
            res.session_device is None,
            !res.session_connected,
            res.page == Page::Empty,
            !res.terminal_live && !res.registry_live && !res.sysinfo_polling,
    {
        WorkspaceView { session_device: None, session_connected: false, page: Page::Empty, terminal_live: false, registry_live: false, sysinfo_polling: false }
    }

    /// Takes a snapshot: picks the page; when the selected device changes
    /// or its link comes back up, the terminal and the registry start over;
    /// the terminal starts when its page is shown, the registry resets when
    /// its page first shows, and system information is polled exactly while
    /// its page shows.
    pub fn render(&mut self, snap: &WorkspaceSnapshot) -> (res: RenderActions)
        ensures
            ({
                let sel = selected_device(*snap);
                let dev_id = match sel { Some(i) => Some(snap.devices@[i].id@), None => None::<Seq<char>> };
                let connected = match sel { Some(i) => snap.devices@[i].link == LinkState::Connected, None => false };
                let restarted = connected && !old(self).session_connected;
                let reset = dev_id != opt_text(old(self).session_device) || restarted;
                let page = page_for(*snap);
                let terminal_was = if reset { false } else { old(self).terminal_live };
                let registry_was = if reset { false } else { old(self).registry_live };
                let polling = page == Page::Service(ServiceKind::SystemInfo) && sel is Some;
                &&& res.page == page
                &&& final(self).page == page
                &&& opt_text(final(self).session_device) == dev_id
                &&& final(self).session_connected == connected
                &&& res.clear_terminal == reset
                &&& res.start_terminal == (page == Page::Service(ServiceKind::Terminal) && !terminal_was)
                &&& final(self).terminal_live == (terminal_was || page == Page::Service(ServiceKind::Terminal))
                &&& res.focus_terminal == (page == Page::Service(ServiceKind::Terminal) && old(self).page != page)
                &&& res.reset_registry == (page == Page::Service(ServiceKind::Registry) && !registry_was)
                &&& final(self).registry_live == (registry_was || page == Page::Service(ServiceKind::Registry))
                &&& res.polling == (if polling != old(self).sysinfo_polling { Some(polling) } else { None::<bool> })
                &&& res.refresh_sysinfo == (polling && !old(self).sysinfo_polling)
                &&& final(self).sysinfo_polling == polling
                &&& res.peer_name@ == (match sel { Some(i) => snap.devices@[i].name@, None => Seq::<char>::empty() })
                &&& res.has_peer == (match sel { Some(i) => snap.devices@[i].services@.contains(ServiceKind::Network), None => false })
                &&& res.connected == connected
            }),
    {
        let sel: Option<usize> = match &snap.selected {
            Some(id) => find_device(&snap.devices, id.as_str()),
            None => None,
        };
        let (dev_id, connected, online): (Option<String>, bool, bool) = match sel {
            Some(i) => (Some(snap.devices[i].id.clone()), snap.devices[i].link == LinkState::Connected, snap.devices[i].online),
            None => (None, false, true),
        };
        let restarted = connected && !self.session_connected;
        let same_device = match (&dev_id, &self.session_device) {
            (Some(a), Some(b)) => str_eq(a.as_str(), b.as_str()),
            (None, None) => true,
            _ => false,
        };
        let reset = !same_device || restarted;
        if reset {
            self.terminal_live = false;
            self.registry_live = false;
        }
        self.session_device = dev_id;
        self.session_connected = connected;
        let page = match sel {
            Some(_) => if !online {
                Page::Offline
            } else {
                match snap.panes.focused { Some(k) => Page::Service(k), None => Page::Empty }
            },
            None => Page::Empty,
        };
        let opened = self.page != page;
        self.page = page;
        let mut start_terminal = false;
        let mut focus_terminal = false;
        if page == Page::Service(ServiceKind::Terminal) {
            if !self.terminal_live {
                self.terminal_live = true;
                start_terminal = true;
            }
            if opened {
                focus_terminal = true;
            }
        }
        let mut reset_registry = false;
        if page == Page::Service(ServiceKind::Registry) && !self.registry_live {
            self.registry_live = true;
            reset_registry = true;
        }
        let want_polling = page == Page::Service(ServiceKind::SystemInfo) && sel.is_some();
        let mut polling: Option<bool> = None;
        let mut refresh = false;
        if want_polling != self.sysinfo_polling {
            self.sysinfo_polling = want_polling;
            polling = Some(want_polling);
            if want_polling {
                refresh = true;
            }
        }
        let (peer_name, has_peer) = match sel {
            Some(i) => (snap.devices[i].name.clone(), services_contain(&snap.devices[i].services, ServiceKind::Network)),
            None => (String::new(), false),
        };
        RenderActions {
            page,
            clear_terminal: reset,
            start_terminal,
            focus_terminal,
            reset_registry,
            polling,
            refresh_sysinfo: refresh,
            peer_name,
            has_peer,
            connected,
        }
    }
}

/// The service tabs of a device: each service it offers, in tab order,
/// with whether its pane is open and whether it is focused.
pub fn service_tabs(dev: &DeviceInfo, panes: &Panes) -> (res: Vec<(ServiceKind, bool, bool)>)
    ensures
        forall|k: int| 0 <= k < res@.len() ==> dev.services@.contains((#[trigger] res@[k]).0)
            && res@[k].1 == panes.open@.contains(res@[k].0)
            && res@[k].2 == (panes.focused == Some(res@[k].0)),
        forall|i: int| 0 <= i < 6 && dev.services@.contains(#[trigger] service_tab(i).0) ==>
            exists|k: int| 0 <= k < res@.len() && res@[k].0 == service_tab(i).0,
{
    let mut v: Vec<(ServiceKind, bool, bool)> = Vec::new();
    let mut i: usize = 0;
    while i < 6
        invariant
            i <= 6,
            forall|k: int| 0 <= k < v@.len() ==> dev.services@.contains((#[trigger] v@[k]).0)
                && v@[k].1 == panes.open@.contains(v@[k].0)
                && v@[k].2 == (panes.focused == Some(v@[k].0)),
            forall|j: int| 0 <= j < i && dev.services@.contains(#[trigger] service_tab(j).0) ==>
                exists|k: int| 0 <= k < v@.len() && v@[k].0 == service_tab(j).0,
        decreases 6 - i,
    {
        let (kind, _, _) = service_tab_at(i);
        if services_contain(&dev.services, kind) {
            let open = services_contain(&panes.open, kind);
            let focused = match panes.focused { Some(f) => f == kind, None => false };
            let ghost before = v@;
            v.push((kind, open, focused));
            assert forall|j: int| 0 <= j < i + 1 && dev.services@.contains(#[trigger] service_tab(j).0) implies
                exists|k: int| 0 <= k < v@.len() && v@[k].0 == service_tab(j).0 by {
                if j < i {
                    let k = choose|k: int| 0 <= k < before.len() && before[k].0 == service_tab(j).0;
                    assert(v@[k] == before[k]);
                } else {
                    assert(v@[before.len() as int].0 == service_tab(j).0);
                }
            }
        }
        i += 1;
    }
    v
}

/// The rail's width after a drag: kept between 200 and 400 pixels;
/// `Some` when the dragged position had to be corrected.
pub fn clamp_rail(pos: i32) -> (res: Option<i32>)
    ensures
        pos < 200 ==> res == Some(200i32),
        pos > 400 ==> res == Some(400i32),
        200 <= pos <= 400 ==> res is None,
{
    if pos < 200 {
        Some(200)
    } else if pos > 400 {
        Some(400)
    } else {
        None
    }
}

/// The number of open streams: opened minus closed, never below zero.
pub fn live_streams(opened: u64, closed: u64) -> (res: u64)
    ensures
        res == (if opened >= closed { (opened - closed) as u64 } else { 0u64 }),
{
    opened.saturating_sub(closed)
}

/// The remote-desktop events for a new desktop state: a new session when
/// the resource changed to another one, then the connection and control
/// state. Gives the events and the resource now remembered.
pub fn desktop_events(current: &Option<String>, resource_id: Option<String>, connected: bool, controlling: bool)
    -> (res: (Vec<RdeskEvent>, Option<String>))
    ensures
        opt_text(res.1) == opt_text(resource_id),
        ({
            let changed = opt_text(resource_id) != opt_text(*current);
            let n = if changed && resource_id is Some { 3int } else { 2int };
            &&& res.0@.len() == n
            &&& (n == 3 ==> (res.0@[0] matches RdeskEvent::SetSession { resource_id: r, local } && !local
                    && Some(r@) == opt_text(resource_id)))
            &&& res.0@[n - 2] matches RdeskEvent::ConnectionChanged { connected: c, remote_w, remote_h } && c == connected
                    && remote_w == 0 && remote_h == 0
            &&& res.0@[n - 1] matches RdeskEvent::ControlChanged(c) && c == controlling
        }),
{
    let changed = match (&resource_id, current) {
        (Some(a), Some(b)) => !str_eq(a.as_str(), b.as_str()),
        (None, None) => false,
        _ => true,
    };
    let mut v: Vec<RdeskEvent> = Vec::new();
    let kept = if changed {
        match &resource_id {
            Some(r) => {
                v.push(RdeskEvent::SetSession { resource_id: r.clone(), local: false });
            },
            None => {},
        }
        resource_id
    } else {
        resource_id
    };
    v.push(RdeskEvent::ConnectionChanged { connected, remote_w: 0, remote_h: 0 });
    v.push(RdeskEvent::ControlChanged(controlling));
    (v, kept)
}

/// The name a proxied program's row shows: the file name of the first
/// word of its command, or the whole command when it has no word.
pub open spec fn tunnel_binary_spec(command: Seq<char>) -> Seq<char> {
    if words(command).len() > 0 { after_last_sep(words(command)[0]) } else { command }
}

/// The name a proxied program's row shows.
pub fn tunnel_binary(command: &str) -> (res: String)
    ensures
        res@ == tunnel_binary_spec(command@),
{
    let cs = chars_of(command);
    let ws = split_words(cs.as_slice());
    if ws.len() > 0 {
        let tail = after_last_sep_chars(ws[0].as_slice());
        string_from_chars(tail.as_slice())
    } else {
        command.to_owned()
    }
}

/// The line under a proxied program's name: its process id.
pub fn tunnel_subtitle(catalog: &Catalog, pid: u32) -> (res: String)
    ensures
        res@ == crate::i18n::interpolate(translate(catalog@, "workspace.proxied_row_sub"@), seq![("pid"@, decimal(pid as nat))]),
{
    let n = decimal_string(pid as u64);
    let args = [("pid", n.as_str())];
    let t = catalog.trf("workspace.proxied_row_sub", &args);
    assert(crate::i18n::args_view(args@) =~= seq![("pid"@, decimal(pid as nat))]);
    t
}

/// The line under a device's name: its system's display name in lower case.
pub fn device_subtitle(os: &str) -> (res: String)
    ensures
        res@ == lowercase(pretty_os(os@)),
{
    to_lowercase(os_pretty(os))
}

} // verus!
