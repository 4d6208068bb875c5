//! The first-run wizard and the window around it: which wizard page a
//! session stage shows and what changes when it does, the window title,
//! what submitting the wizard sends, which core events call for a fresh
//! state, the server pill and relay region in the header, the colour
//! scheme, and the port given on the command line.
use vstd::prelude::*;
use crate::i18n::{Catalog, CatalogView, translate, interpolate, args_view};
use crate::icons::{os_pretty, pretty_os};
use crate::text::{str_eq, chars_of, extend_str, string_from_chars, parse_u16, parse_unsigned_spec};
use crate::workspace::{LinkState, opt_text};

verus! {

/// Where the session stands.
pub enum Stage {
    Welcome,
    NamingDevice { suggested_name: String },
    SigningIn,
    AllSet,
    Ready,
}

/// The session as the core reports it.
pub struct SessionState {
    pub stage: Stage,
    pub account_login: Option<String>,
    pub device_name: Option<String>,
    pub last_error: Option<String>,
}

/// The wizard page of a stage, and the name the page is reported under.
pub open spec fn stage_page(s: Stage) -> (nat, Seq<char>) {
    match s {
        Stage::Welcome => (0, "welcome"@),
        Stage::NamingDevice { .. } => (1, "naming_device"@),
        Stage::SigningIn => (2, "signing_in"@),
        Stage::AllSet => (3, "all_set"@),
        Stage::Ready => (3, "ready"@),
    }
}

/// The wizard page of a stage, and the name the page is reported under.
pub fn wizard_page(stage: &Stage) -> (res: (usize, &'static str))
    ensures
        (res.0 as nat, res.1@) == stage_page(*stage),
{
    match stage {
        Stage::Welcome => (0, "welcome"),
        Stage::NamingDevice { .. } => (1, "naming_device"),
        Stage::SigningIn => (2, "signing_in"),
        Stage::AllSet => (3, "all_set"),
        Stage::Ready => (3, "ready"),
    }
}

/// The window title while the wizard shows a stage.
pub open spec fn title_for(c: CatalogView, s: Stage) -> Seq<char> {
    match s {
        Stage::NamingDevice { .. } => translate(c, "wizard.title_setup"@),
        Stage::SigningIn => translate(c, "wizard.title_signin"@),
        _ => "Node.In.Net"@,
    }
}

/// The window title for a session.
pub fn window_title(catalog: &Catalog, state: &SessionState) -> (res: String)
    ensures
        res@ == title_for(catalog@, state.stage),
{
    match &state.stage {
        Stage::NamingDevice { .. } => catalog.tr("wizard.title_setup"),
        Stage::SigningIn => catalog.tr("wizard.title_signin"),
        _ => "Node.In.Net".to_owned(),
    }
}

/// A command the wizard sends to the core.
pub enum WizardCommand {
    SetupBegin,
    SetupName { name: String },
    AuthLogin { login: String, password: String, guest: bool },
    EnterWorkspace,
}

/// What submitting the wizard sends, by the page it last showed: the
/// device name on the naming page, the credentials on the sign-in page,
/// entering the workspace on the last page, and the start otherwise.
pub fn submit_command(last_stage: &str, name: &str, login: &str, password: &str, guest: bool) -> (res: WizardCommand)
    ensures
        last_stage@ == "naming_device"@ ==> (res matches WizardCommand::SetupName { name: n } && n@ == name@),
        last_stage@ == "signing_in"@ ==> (res matches WizardCommand::AuthLogin { login: l, password: p, guest: g }
            && l@ == login@ && p@ == password@ && g == guest),
        last_stage@ == "all_set"@ ==> res is EnterWorkspace,
        (last_stage@ != "naming_device"@ && last_stage@ != "signing_in"@ && last_stage@ != "all_set"@)
            ==> res is SetupBegin,
{
    proof {
        reveal_strlit("naming_device");
        reveal_strlit("signing_in");
        reveal_strlit("all_set");
        assert("naming_device"@.len() == 13);
        assert("signing_in"@[0] != "naming_device"@[0]);
        assert("all_set"@[0] != "naming_device"@[0]);
        assert("all_set"@ != "signing_in"@);
    }
    if str_eq(last_stage, "naming_device") {
        WizardCommand::SetupName { name: name.to_owned() }
    } else if str_eq(last_stage, "signing_in") {
        WizardCommand::AuthLogin { login: login.to_owned(), password: password.to_owned(), guest }
    } else if str_eq(last_stage, "all_set") {
        WizardCommand::EnterWorkspace
    } else {
        WizardCommand::SetupBegin
    }
}

/// The text fields of the wizard.
#[derive(Clone, Copy, Debug, PartialEq, Eq, Structural)]
pub enum WizardField {
    Name,
    Login,
    Password,
}

/// The field a `set_field` request names.
pub open spec fn field_for(f: Seq<char>) -> Option<WizardField> {
    if f == "name"@ { Some(WizardField::Name) }
    else if f == "login"@ { Some(WizardField::Login) }
    else if f == "password"@ { Some(WizardField::Password) }
    else { None }
}

/// The field a `set_field` request names; other names are ignored.
pub fn field_target(field: &str) -> (res: Option<WizardField>)
    ensures
        res == field_for(field@),
{
    if str_eq(field, "name") {
        Some(WizardField::Name)
    } else if str_eq(field, "login") {
        Some(WizardField::Login)
    } else if str_eq(field, "password") {
        Some(WizardField::Password)
    } else {
        None
    }
}

/// What the wizard remembers between renders: the page it last showed.
pub struct WizardView {
    pub last_stage: String,
}

/// What a render makes the wizard do.
pub struct WizardRender {
    /// Whether the page changed.
    pub changed: bool,
    /// The carousel page to show.
    pub page: usize,
    /// The page name reported to the core when the page changed.
    pub report_page: Option<String>,
    /// The text put into the device-name field.
    pub name_text: Option<String>,
    /// The "detected" line under the device name.
    pub detected: Option<String>,
    /// Whether the password field is emptied.
    pub clear_password: bool,
    /// The field that takes the focus.
    pub focus: Option<WizardField>,
    /// The title of the last page.
    pub all_set_title: Option<String>,
    /// The subtitle of the last page.
    pub all_set_subtitle: Option<String>,
    /// The error shown, if any.
    pub error: Option<String>,
}

/// The title of the last page: named after the account when there is one.
pub open spec fn all_set_title_for(c: CatalogView, login: Option<Seq<char>>) -> Seq<char> {
    match login {
        Some(l) => interpolate(translate(c, "wizard.all_set_named"@), seq![("login"@, l)]),
        None => translate(c, "wizard.all_set"@),
    }
}

/// The subtitle of the last page: the device this computer joined as.
pub open spec fn all_set_subtitle_for(c: CatalogView, device: Option<Seq<char>>) -> Seq<char> {
    let d = match device {
        Some(d) => d,
        None => translate(c, "wizard.this_device"@),
    };
    interpolate(translate(c, "wizard.connected_to_network"@), seq![("device"@, d)])
}

impl WizardView {
    /// The wizard before its first render.
    pub fn new() -> (res: WizardView)
        ensures
            res.last_stage@ == Seq::<char>::empty(),
    {
        WizardView { last_stage: String::new() }
    }

    /// Renders a session: when the stage's page differs from the last one
    /// shown, the wizard scrolls there and reports it, fills in the
    /// suggested name, empties the password, moves the focus and writes
    /// the last page's texts; the error line follows the session always.
    pub fn render(&mut self, catalog: &Catalog, state: &SessionState, os: &str) -> (res: WizardRender)
        ensures
            ({
                let key = stage_page(state.stage).1;
                let changed = old(self).last_stage@ != key;
                let naming = state.stage is NamingDevice;
                let signing = state.stage is SigningIn;
                let all_set = state.stage is AllSet;
                &&& res.changed == changed
                &&& res.page as nat == stage_page(state.stage).0
                &&& final(self).last_stage@ == key
                &&& opt_text(res.report_page) == (if changed { Some(key) } else { None })
                &&& opt_text(res.name_text) == (if changed && naming {
                        Some(state.stage->suggested_name@) } else { None })
                &&& opt_text(res.detected) == (if changed && naming {
                        Some(interpolate(translate(catalog@, "wizard.detected"@), seq![("name"@, pretty_os(os@))]))
                    } else { None })
                &&& res.clear_password == (changed && signing)
                &&& res.focus == (if changed && naming { Some(WizardField::Name) }
                        else if changed && signing { Some(WizardField::Login) } else { None })
                &&& opt_text(res.all_set_title) == (if changed && all_set {
                        Some(all_set_title_for(catalog@, opt_text(state.account_login))) } else { None })
                &&& opt_text(res.all_set_subtitle) == (if changed && all_set {
                        Some(all_set_subtitle_for(catalog@, opt_text(state.device_name))) } else { None })
                &&& opt_text(res.error) == opt_text(state.last_error)
            }),
    {
        let (page, key) = wizard_page(&state.stage);
        let changed = !str_eq(self.last_stage.as_str(), key);
        let mut out = WizardRender {
            changed,
            page,
            report_page: None,
            name_text: None,
            detected: None,
            clear_password: false,
            focus: None,
            all_set_title: None,
            all_set_subtitle: None,
            error: match &state.last_error {
                Some(e) => Some(e.clone()),
                None => None,
            },
        };
        if changed {
            self.last_stage = key.to_owned();
            out.report_page = Some(key.to_owned());
            match &state.stage {
                Stage::NamingDevice { suggested_name } => {
                    out.name_text = Some(suggested_name.clone());
                    let pretty = os_pretty(os);
                    let args = [("name", pretty)];
                    let d = catalog.trf("wizard.detected", &args);
                    assert(args_view(args@) =~= seq![("name"@, pretty_os(os@))]);
                    out.detected = Some(d);
                    out.focus = Some(WizardField::Name);
                },
                Stage::SigningIn => {
                    out.clear_password = true;
                    out.focus = Some(WizardField::Login);
                },
                Stage::AllSet => {
                    let title = match &state.account_login {
                        Some(l) => {
                            let args = [("login", l.as_str())];
                            let t = catalog.trf("wizard.all_set_named", &args);
                            assert(args_view(args@) =~= seq![("login"@, l@)]);
                            t
                        },
                        None => catalog.tr("wizard.all_set"),
                    };
                    out.all_set_title = Some(title);
                    let this_device = catalog.tr("wizard.this_device");
                    let device: &str = match &state.device_name {
                        Some(d) => d.as_str(),
                        None => this_device.as_str(),
                    };
                    let args = [("device", device)];
                    let sub = catalog.trf("wizard.connected_to_network", &args);
                    assert(args_view(args@) =~= seq![("device"@, device@)]);
                    out.all_set_subtitle = Some(sub);
                },
                _ => {},
            }
        }
        out
    }
}

/// The core events after which the whole state is fetched again.
pub open spec fn structural_event(e: Seq<char>) -> bool {
    ||| e == "devices_changed"@
    ||| e == "selection_changed"@
    ||| e == "services_changed"@
    ||| e == "tabs_changed"@
    ||| e == "map_changed"@
    ||| e == "rail_mode_changed"@
    ||| e == "theme_changed"@
    ||| e == "mounts_changed"@
}

/// Whether an event changes the structure of the workspace, so that the
/// whole state is fetched again after it.
pub fn is_structural(event: &str) -> (res: bool)
    ensures
        res == structural_event(event@),
{
    str_eq(event, "devices_changed")
        || str_eq(event, "selection_changed")
        || str_eq(event, "services_changed")
        || str_eq(event, "tabs_changed")
        || str_eq(event, "map_changed")
        || str_eq(event, "rail_mode_changed")
        || str_eq(event, "theme_changed")
        || str_eq(event, "mounts_changed")
}

/// Where the window sends a core event.
#[derive(Clone, Copy, Debug, PartialEq, Eq, Structural)]
pub enum EventRoute {
    Session,
    SetField,
    SetService,
    Submit,
    Screenshot,
    PanelUpdated,
    WebVpn,
    ProxiedApps,
    Desktop,
    SystemInfo,
    Registry,
    Ignored,
}

/// Where an event goes, by its name.
pub open spec fn route_for(e: Seq<char>) -> EventRoute {
    if e == "session_changed"@ { EventRoute::Session }
    else if e == "set_field"@ { EventRoute::SetField }
    else if e == "set_service"@ { EventRoute::SetService }
    else if e == "submit"@ { EventRoute::Submit }
    else if e == "screenshot"@ { EventRoute::Screenshot }
    else if e == "panel_updated"@ { EventRoute::PanelUpdated }
    else if e == "webvpn_changed"@ { EventRoute::WebVpn }
    else if e == "proxied_apps_changed"@ { EventRoute::ProxiedApps }
    else if e == "desktop_changed"@ { EventRoute::Desktop }
    else if e == "system_info_changed"@ { EventRoute::SystemInfo }
    else if e == "registry_changed"@ { EventRoute::Registry }
    else { EventRoute::Ignored }
}

/// Where an event goes; an event without a name is ignored.
pub fn route_event(event: Option<&str>) -> (res: EventRoute)
    ensures
        res == (match event { Some(e) => route_for(e@), None => EventRoute::Ignored }),
{
    let e = match event {
        Some(e) => e,
        None => return EventRoute::Ignored,
    };
    if str_eq(e, "session_changed") { EventRoute::Session }
    else if str_eq(e, "set_field") { EventRoute::SetField }
    else if str_eq(e, "set_service") { EventRoute::SetService }
    else if str_eq(e, "submit") { EventRoute::Submit }
    else if str_eq(e, "screenshot") { EventRoute::Screenshot }
    else if str_eq(e, "panel_updated") { EventRoute::PanelUpdated }
    else if str_eq(e, "webvpn_changed") { EventRoute::WebVpn }
    else if str_eq(e, "proxied_apps_changed") { EventRoute::ProxiedApps }
    else if str_eq(e, "desktop_changed") { EventRoute::Desktop }
    else if str_eq(e, "system_info_changed") { EventRoute::SystemInfo }
    else if str_eq(e, "registry_changed") { EventRoute::Registry }
    else { EventRoute::Ignored }
}

/// What rendering a session does to the window.
pub struct WindowRender {
    /// Whether the workspace shows (else the wizard).
    pub show_workspace: bool,
    /// The window title.
    pub title: String,
    /// Whether the "ready" page is reported to the core.
    pub report_ready: bool,
    /// Whether the window grows to the workspace size.
    pub resize: bool,
    /// Whether the session is handed to the wizard.
    pub to_wizard: bool,
}

/// Renders a session in the window: a ready session shows the workspace,
/// and entering it from elsewhere reports the page and resizes the window;
/// any other stage shows the wizard under the stage's title.
pub fn render_session(catalog: &Catalog, state: &SessionState, visible: Option<&str>) -> (res: WindowRender)
    ensures
        ({
            let ready = state.stage is Ready;
            let entering = match visible { Some(v) => v@ != "workspace"@, None => true };
            &&& res.show_workspace == ready
            &&& res.to_wizard == !ready
            &&& res.report_ready == (ready && entering)
            &&& res.resize == (ready && entering)
            &&& res.title@ == (if ready { "Node.In.Net"@ } else { title_for(catalog@, state.stage) })
        }),
{
    if let Stage::Ready = state.stage {
        let entering = match visible {
            Some(v) => !str_eq(v, "workspace"),
            None => true,
        };
        WindowRender { show_workspace: true, title: "Node.In.Net".to_owned(), report_ready: entering, resize: entering, to_wizard: false }
    } else {
        WindowRender { show_workspace: false, title: window_title(catalog, state), report_ready: false, resize: false, to_wizard: true }
    }
}

/// Whether closing the window goes ahead at once: only when no proxied
/// application is running.
pub fn close_proceeds(running_apps: u64) -> (res: bool)
    ensures
        res == (running_apps == 0),
{
    running_apps == 0
}

/// The class of the server dot.
pub fn server_dot_class(online: bool) -> (res: &'static str)
    ensures
        res@ == (if online { "on"@ } else { "off"@ }),
{
    if online { "on" } else { "off" }
}

/// The tooltip key of the server dot.
pub fn server_tooltip_key(online: bool) -> (res: &'static str)
    ensures
        res@ == (if online { "server.online"@ } else { "server.offline"@ }),
{
    if online { "server.online" } else { "server.offline" }
}

/// The relay region used for connections that need a relay.
#[derive(Clone, Copy, Debug, PartialEq, Eq, Structural)]
pub enum TurnRegion {
    Auto,
    Eu,
    Us,
    Main,
}

/// The icon of a relay region.
pub open spec fn region_icon_spec(r: TurnRegion) -> Seq<char> {
    match r {
        TurnRegion::Eu => "flag-eu"@,
        TurnRegion::Us => "flag-us"@,
        TurnRegion::Auto => "radar"@,
        TurnRegion::Main => "setting"@,
    }
}

/// The icon of a relay region.
pub fn region_icon(r: TurnRegion) -> (res: &'static str)
    ensures
        res@ == region_icon_spec(r),
{
    match r {
        TurnRegion::Eu => "flag-eu",
        TurnRegion::Us => "flag-us",
        TurnRegion::Auto => "radar",
        TurnRegion::Main => "setting",
    }
}

/// The resource path of a relay region's icon.
pub fn region_resource(r: TurnRegion) -> (res: String)
    ensures
        res@ == "/com/nodeinnet/gtk/"@ + region_icon_spec(r) + ".svg"@,
{
    let mut out: Vec<char> = Vec::new();
    extend_str(&mut out, "/com/nodeinnet/gtk/");
    extend_str(&mut out, region_icon(r));
    extend_str(&mut out, ".svg");
    string_from_chars(out.as_slice())
}

/// The tooltip key of a relay region.
pub fn region_tooltip_key(r: TurnRegion) -> (res: &'static str)
    ensures
        res@ == (match r {
            TurnRegion::Eu => "relay.region_eu"@,
            TurnRegion::Us => "relay.region_us"@,
            TurnRegion::Auto => "relay.region_auto"@,
            TurnRegion::Main => "relay.region_main"@,
        }),
{
    match r {
        TurnRegion::Eu => "relay.region_eu",
        TurnRegion::Us => "relay.region_us",
        TurnRegion::Auto => "relay.region_auto",
        TurnRegion::Main => "relay.region_main",
    }
}

/// The position of a region in the settings list.
pub open spec fn region_position(r: TurnRegion) -> nat {
    match r {
        TurnRegion::Auto => 0,
        TurnRegion::Eu => 1,
        TurnRegion::Us => 2,
        TurnRegion::Main => 3,
    }
}

/// The region at a position of the settings list.
pub open spec fn region_from_position(i: nat) -> Option<TurnRegion> {
    if i == 0 { Some(TurnRegion::Auto) }
    else if i == 1 { Some(TurnRegion::Eu) }
    else if i == 2 { Some(TurnRegion::Us) }
    else if i == 3 { Some(TurnRegion::Main) }
    else { None }
}

/// The position of a region in the settings list.
pub fn region_index(r: TurnRegion) -> (res: u32)
    ensures
        res as nat == region_position(r),
{
    match r {
        TurnRegion::Auto => 0,
        TurnRegion::Eu => 1,
        TurnRegion::Us => 2,
        TurnRegion::Main => 3,
    }
}

/// The region picked at a position of the settings list; nothing past the
/// end.
pub fn region_at(index: u32) -> (res: Option<TurnRegion>)
    ensures
        res == region_from_position(index as nat),
{
    match index {
        0 => Some(TurnRegion::Auto),
        1 => Some(TurnRegion::Eu),
        2 => Some(TurnRegion::Us),
        3 => Some(TurnRegion::Main),
        _ => None,
    }
}

/// Picking the region shown for the current one gives that region back.
pub proof fn lemma_region_round_trip(r: TurnRegion)
    ensures
        region_from_position(region_position(r)) == Some(r),
{
}

/// The colour scheme asked of the style manager.
#[derive(Clone, Copy, Debug, PartialEq, Eq, Structural)]
pub enum ColorScheme {
    Default,
    ForceLight,
    ForceDark,
}

/// The colour scheme of a stored theme index: light, dark, or the
/// system's for anything else.
pub open spec fn scheme_of(index: u32) -> ColorScheme {
    if index == 1 { ColorScheme::ForceLight }
    else if index == 2 { ColorScheme::ForceDark }
    else { ColorScheme::Default }
}

/// The colour scheme of a stored theme index.
pub fn color_scheme_for(index: u32) -> (res: ColorScheme)
    ensures
        res == scheme_of(index),
{
    match index {
        1 => ColorScheme::ForceLight,
        2 => ColorScheme::ForceDark,
        _ => ColorScheme::Default,
    }
}

/// The label key of each theme index.
pub fn theme_key(index: usize) -> (res: &'static str)
    requires
        index < 3,
    ensures
        res@ == (if index == 0 { "settings.theme_system"@ }
            else if index == 1 { "settings.theme_light"@ } else { "settings.theme_dark"@ }),
{
    match index {
        0 => "settings.theme_system",
        1 => "settings.theme_light",
        _ => "settings.theme_dark",
    }
}

/// The theme the core is told of.
#[derive(Clone, Copy, Debug, PartialEq, Eq, Structural)]
pub enum Theme {
    Light,
    Dark,
}

/// The theme that goes with the style manager's darkness.
pub fn theme_for(dark: bool) -> (res: Theme)
    ensures
        res == (if dark { Theme::Dark } else { Theme::Light }),
{
    if dark { Theme::Dark } else { Theme::Light }
}

/// What the header's theme button does: it flips between forced light
/// and forced dark, stores the index of the new scheme, and tells the core.
pub fn theme_toggle(is_dark: bool) -> (res: (ColorScheme, u32, Theme))
    ensures
        res.0 == (if is_dark { ColorScheme::ForceLight } else { ColorScheme::ForceDark }),
        res.1 == (if is_dark { 1u32 } else { 2u32 }),
        res.2 == (if is_dark { Theme::Light } else { Theme::Dark }),
        scheme_of(res.1) == res.0,
{
    if is_dark {
        (ColorScheme::ForceLight, 1, Theme::Light)
    } else {
        (ColorScheme::ForceDark, 2, Theme::Dark)
    }
}

/// The icon of the theme button: the sun while dark, the moon while light.
pub fn theme_icon(dark: bool) -> (res: &'static str)
    ensures
        res@ == (if dark { "/com/nodeinnet/gtk/afternoon.svg"@ } else { "/com/nodeinnet/gtk/night.svg"@ }),
{
    if dark { "/com/nodeinnet/gtk/afternoon.svg" } else { "/com/nodeinnet/gtk/night.svg" }
}

/// The port given by the first `--headless-port` argument, if the
/// argument after it is a port number.
pub open spec fn port_arg(args: Seq<Seq<char>>) -> Option<u16> {
    if exists|i: int| 0 <= i < args.len() && args[i] == "--headless-port"@ {
        let i = choose|i: int| 0 <= i < args.len() && args[i] == "--headless-port"@
            && forall|k: int| 0 <= k < i ==> args[k] != "--headless-port"@;
        if i + 1 < args.len() {
            match parse_unsigned_spec(args[i + 1], 10, 0xffff) {
                Some(v) => Some(v as u16),
                None => None,
            }
        } else {
            None
        }
    } else {
        None
    }
}

/// The views of a list of strings.
pub open spec fn arg_views(args: Seq<String>) -> Seq<Seq<char>> {
    args.map_values(|a: String| a@)
}

/// The port given on the command line after `--headless-port`.
pub fn headless_port_arg(args: &[String]) -> (res: Option<u16>)
    ensures
        res == port_arg(arg_views(args@)),
{
    let ghost v = arg_views(args@);
    let mut i: usize = 0;
    while i < args.len()
        invariant
            i <= args@.len(),
            v == arg_views(args@),
            forall|k: int| 0 <= k < i ==> v[k] != "--headless-port"@,
        decreases args.len() - i,
    {
        if str_eq(args[i].as_str(), "--headless-port") {
            proof {
                assert(v[i as int] == "--headless-port"@);
                let j = choose|j: int| 0 <= j < v.len() && v[j] == "--headless-port"@
                    && forall|k: int| 0 <= k < j ==> v[k] != "--headless-port"@;
                assert(j == i as int) by {
                    if j < i as int {
                        assert(v[j] != "--headless-port"@);
                    }
                    if j > i as int {
                        assert(v[i as int] != "--headless-port"@);
                    }
                }
            }
            if i + 1 < args.len() {
                return parse_u16(args[i + 1].as_str());
            }
            return None;
        }
        i += 1;
    }
    None
}

/// The link state a peer state of the network layer shows as.
#[derive(Clone, Copy, Debug, PartialEq, Eq, Structural)]
pub enum PeerState {
    Connected,
    ConnectingTransport,
    Authenticating,
    Failed,
    Disconnected,
}

/// The link state of a peer state: both steps of setting up a link show
/// as connecting, and a dropped link as idle.
pub fn link_state(state: PeerState) -> (res: LinkState)
    ensures
        res == (match state {
            PeerState::Connected => LinkState::Connected,
            PeerState::ConnectingTransport => LinkState::Connecting,
            PeerState::Authenticating => LinkState::Connecting,
            PeerState::Failed => LinkState::Failed,
            PeerState::Disconnected => LinkState::Idle,
        }),
{
    match state {
        PeerState::Connected => LinkState::Connected,
        PeerState::ConnectingTransport | PeerState::Authenticating => LinkState::Connecting,
        PeerState::Failed => LinkState::Failed,
        PeerState::Disconnected => LinkState::Idle,
    }
}

/// Whether a saved session is restored at start: only with a refresh
/// token that is not empty.
pub fn restoring(refresh_token: Option<&str>) -> (res: bool)
    ensures
        res == (match refresh_token { Some(t) => t@.len() > 0, None => false }),
{
    match refresh_token {
        Some(t) => chars_of(t).len() > 0,
        None => false,
    }
}

/// The server the client talks to: the configured one, else the public one.
pub fn api_target(configured: Option<String>) -> (res: String)
    ensures
        res@ == (match configured { Some(c) => c@, None => "https://node.in.net"@ }),
{
    match configured {
        Some(c) => c,
        None => "https://node.in.net".to_owned(),
    }
}

} // verus!
