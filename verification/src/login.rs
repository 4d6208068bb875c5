//! Signing in: the device name offered on the login form and the welcome
//! panel, the login form's state machine (submitting, failing, the
//! transition after success and the reset that cancels it, the banner
//! that installs screen-capture requirements), and the line that says how
//! many other devices are online.
use vstd::prelude::*;
use crate::i18n::{Catalog, CatalogView, translate, interpolate, args_view};
use crate::text::{str_eq, chars_of, extend_str, extend_chars, string_from_chars, decimal, decimal_string};
use crate::workspace::opt_text;

verus! {

/// The configuration key under which an application stores its device name.
pub open spec fn name_key_for(prefix: Seq<char>) -> Seq<char> {
    if prefix == "fm"@ { "app-fm-name"@ }
    else if prefix == "net"@ { "app-net-name"@ }
    else if prefix == "sync"@ { "app-sync-name"@ }
    else if prefix == "rdesk"@ { "app-rdesk-name"@ }
    else { "app-name"@ }
}

/// The configuration key under which an application stores its device name.
pub fn device_name_key(prefix: &str) -> (res: &'static str)
    ensures
        res@ == name_key_for(prefix@),
{
    if str_eq(prefix, "fm") {
        "app-fm-name"
    } else if str_eq(prefix, "net") {
        "app-net-name"
    } else if str_eq(prefix, "sync") {
        "app-sync-name"
    } else if str_eq(prefix, "rdesk") {
        "app-rdesk-name"
    } else {
        "app-name"
    }
}

/// The name made from the computer's name: the host name, after the
/// application's prefix and a hyphen when there is a prefix; "Node" when
/// the host name is unknown.
pub open spec fn generated_name(prefix: Seq<char>, host: Option<Seq<char>>) -> Seq<char> {
    let h = match host { Some(h) => h, None => "Node"@ };
    if prefix.len() == 0 { h } else { prefix + "-"@ + h }
}

/// The name made from the computer's name.
pub fn generate_name(prefix: &str, host: Option<String>) -> (res: String)
    ensures
        res@ == generated_name(prefix@, opt_text(host)),
{
    let h = match host {
        Some(h) => h,
        None => "Node".to_owned(),
    };
    let p = chars_of(prefix);
    if p.len() == 0 {
        return h;
    }
    let mut out: Vec<char> = Vec::new();
    extend_chars(&mut out, p.as_slice());
    extend_str(&mut out, "-");
    extend_str(&mut out, h.as_str());
    string_from_chars(out.as_slice())
}

/// The device name the login form offers: the one stored under the
/// application's key, else the one shared by all applications, else one
/// made from the computer's name.
pub fn default_device_name(own: Option<String>, shared: Option<String>, prefix: &str, host: Option<String>) -> (res: String)
    ensures
        res@ == (match own {
            Some(o) => o@,
            None => match shared {
                Some(s) => s@,
                None => generated_name(prefix@, opt_text(host)),
            },
        }),
{
    match own {
        Some(o) => o,
        None => match shared {
            Some(s) => s,
            None => generate_name(prefix, host),
        },
    }
}

/// The device name the welcome panel starts with, and whether it must be
/// stored under the panel's key: a name that was not stored there yet is.
pub fn welcome_device_name(own: Option<String>, shared: Option<String>, prefix: &str, host: Option<String>) -> (res: (String, bool))
    ensures
        res.0@ == (match own {
            Some(o) => o@,
            None => match shared {
                Some(s) => s@,
                None => generated_name(prefix@, opt_text(host)),
            },
        }),
        res.1 == (own is None),
{
    let save = own.is_none();
    (default_device_name(own, shared, prefix, host), save)
}

/// The welcome panel: the account shown and the device name being edited.
pub struct WelcomeState {
    pub login: Option<String>,
    pub premium: bool,
    pub device_name: String,
}

/// What pressing "apply" on the welcome panel does.
pub enum WelcomeApply {
    /// An empty name is ignored.
    Ignored,
    /// The name is stored under the panel's key and announced.
    Apply { name: String },
}

impl WelcomeState {
    /// The panel with its starting device name and no account.
    pub fn new(device_name: String) -> (res: WelcomeState)
        ensures
            res.login is None,
            !res.premium,
            res.device_name@ == device_name@,
    {
        WelcomeState { login: None, premium: false, device_name }
    }

    /// The account the panel shows.
    pub fn set_account(&mut self, login: String, premium: bool)
        ensures
            opt_text(final(self).login) == Some(login@),
            final(self).premium == premium,
            final(self).device_name@ == old(self).device_name@,
    {
        self.login = Some(login);
        self.premium = premium;
    }

    /// Applies a device name typed in: an empty one changes nothing.
    pub fn apply_pressed(&mut self, name: String) -> (res: WelcomeApply)
        ensures
            name@.len() == 0 ==> (res is Ignored && final(self).device_name@ == old(self).device_name@),
            name@.len() > 0 ==> (res matches WelcomeApply::Apply { name: n } && n@ == name@
                && final(self).device_name@ == name@),
            opt_text(final(self).login) == opt_text(old(self).login),
            final(self).premium == old(self).premium,
    {
        if chars_of(name.as_str()).len() == 0 {
            return WelcomeApply::Ignored;
        }
        self.device_name = name.clone();
        WelcomeApply::Apply { name }
    }

    /// The line under the welcome title: who is signed in, or nothing.
    pub fn login_label(&self, catalog: &Catalog) -> (res: String)
        ensures
            res@ == (match self.login {
                Some(l) => interpolate(translate(catalog@, "graph.logged_in_as"@), seq![("user"@, l@)]),
                None => Seq::<char>::empty(),
            }),
    {
        match &self.login {
            Some(l) => {
                let args = [("user", l.as_str())];
                let t = catalog.trf("graph.logged_in_as", &args);
                assert(args_view(args@) =~= seq![("user"@, l@)]);
                t
            },
            None => String::new(),
        }
    }
}

/// What the login form shows.
#[derive(Clone, Copy, Debug, PartialEq, Eq, Structural)]
pub enum Phase {
    Form,
    Transition,
}

/// The banner that offers to install screen-capture requirements.
pub enum InstallState {
    Hidden,
    Offered,
    Installing,
    Succeeded,
    Failed(String),
}

/// The banner state as text.
pub enum InstallView {
    Hidden,
    Offered,
    Installing,
    Succeeded,
    Failed(Seq<char>),
}

impl View for InstallState {
    type V = InstallView;

    open spec fn view(&self) -> InstallView {
        match self {
            InstallState::Hidden => InstallView::Hidden,
            InstallState::Offered => InstallView::Offered,
            InstallState::Installing => InstallView::Installing,
            InstallState::Succeeded => InstallView::Succeeded,
            InstallState::Failed(e) => InstallView::Failed(e@),
        }
    }
}

/// How the banner starts: offered on Linux when a requirement is missing.
pub fn initial_install(linux: bool, gstreamer_ok: bool, portal_ok: bool) -> (res: InstallState)
    ensures
        res@ == (if linux && (!gstreamer_ok || !portal_ok) { InstallView::Offered } else { InstallView::Hidden }),
{
    if linux && (!gstreamer_ok || !portal_ok) { InstallState::Offered } else { InstallState::Hidden }
}

/// The login form.
pub struct LoginState {
    pub busy: bool,
    pub error: Option<String>,
    pub phase: Phase,
    pub pending_device_name: String,
    pub peers: Vec<String>,
    pub transition_armed: bool,
    pub install: InstallState,
}

/// The login form as values.
pub struct LoginView {
    pub busy: bool,
    pub error: Option<Seq<char>>,
    pub phase: Phase,
    pub pending_device_name: Seq<char>,
    pub peers: Seq<Seq<char>>,
    pub transition_armed: bool,
    pub install: InstallView,
}

/// The views of a list of strings.
pub open spec fn texts(v: Seq<String>) -> Seq<Seq<char>> {
    v.map_values(|s: String| s@)
}

impl View for LoginState {
    type V = LoginView;

    open spec fn view(&self) -> LoginView {
        LoginView {
            busy: self.busy,
            error: opt_text(self.error),
            phase: self.phase,
            pending_device_name: self.pending_device_name@,
            peers: texts(self.peers@),
            transition_armed: self.transition_armed,
            install: self.install@,
        }
    }
}

/// What happens to the login form.
pub enum LoginInput {
    Submit { login: String, password: String, device_name: String, guest: bool },
    LoginFailed(String),
    LoginSucceeded,
    PeersChanged(Vec<String>),
    Reset,
    /// The transition's timer ran out.
    TransitionTimer,
    InstallRequested,
    InstallFinished(Result<(), String>),
    HideInstallBanner,
}

/// An input as values.
pub enum LoginInputView {
    Submit { login: Seq<char>, password: Seq<char>, device_name: Seq<char>, guest: bool },
    LoginFailed(Seq<char>),
    LoginSucceeded,
    PeersChanged(Seq<Seq<char>>),
    Reset,
    TransitionTimer,
    InstallRequested,
    InstallFinished(Result<(), Seq<char>>),
    HideInstallBanner,
}

impl View for LoginInput {
    type V = LoginInputView;

    open spec fn view(&self) -> LoginInputView {
        match self {
            LoginInput::Submit { login, password, device_name, guest } => LoginInputView::Submit {
                login: login@, password: password@, device_name: device_name@, guest: *guest },
            LoginInput::LoginFailed(m) => LoginInputView::LoginFailed(m@),
            LoginInput::LoginSucceeded => LoginInputView::LoginSucceeded,
            LoginInput::PeersChanged(p) => LoginInputView::PeersChanged(texts(p@)),
            LoginInput::Reset => LoginInputView::Reset,
            LoginInput::TransitionTimer => LoginInputView::TransitionTimer,
            LoginInput::InstallRequested => LoginInputView::InstallRequested,
            LoginInput::InstallFinished(r) => LoginInputView::InstallFinished(match r {
                Ok(()) => Ok(()),
                Err(e) => Err(e@),
            }),
            LoginInput::HideInstallBanner => LoginInputView::HideInstallBanner,
        }
    }
}

/// What the login form tells its owner.
pub enum LoginOutput {
    SubmitLogin { login: String, password: String, device_name: String, guest: bool },
    TransitionFinished,
}

/// What the login form tells its owner, as values.
pub enum LoginOutputView {
    SubmitLogin { login: Seq<char>, password: Seq<char>, device_name: Seq<char>, guest: bool },
    TransitionFinished,
}

/// What a step asks of the world around the form.
pub struct LoginEffects {
    pub output: Option<LoginOutput>,
    /// The device name to store under the application's key.
    pub save_name: Option<String>,
    /// Whether the transition's timer is started.
    pub arm_timer: bool,
    /// Whether the requirements are installed.
    pub start_install: bool,
    /// Whether the banner's hiding timer is started.
    pub schedule_hide: bool,
    /// Whether the peer line and graph are drawn again.
    pub redraw_peers: bool,
    /// Whether the password field is emptied.
    pub clear_password: bool,
}

/// The effects as values.
pub struct LoginEffectsView {
    pub output: Option<LoginOutputView>,
    pub save_name: Option<Seq<char>>,
    pub arm_timer: bool,
    pub start_install: bool,
    pub schedule_hide: bool,
    pub redraw_peers: bool,
    pub clear_password: bool,
}

impl View for LoginEffects {
    type V = LoginEffectsView;

    open spec fn view(&self) -> LoginEffectsView {
        LoginEffectsView {
            output: match self.output {
                Some(LoginOutput::SubmitLogin { login, password, device_name, guest }) => Some(LoginOutputView::SubmitLogin {
                    login: login@, password: password@, device_name: device_name@, guest: guest }),
                Some(LoginOutput::TransitionFinished) => Some(LoginOutputView::TransitionFinished),
                None => None,
            },
            save_name: opt_text(self.save_name),
            arm_timer: self.arm_timer,
            start_install: self.start_install,
            schedule_hide: self.schedule_hide,
            redraw_peers: self.redraw_peers,
            clear_password: self.clear_password,
        }
    }
}

/// No effects.
pub open spec fn quiet() -> LoginEffectsView {
    LoginEffectsView { output: None, save_name: None, arm_timer: false, start_install: false,
        schedule_hide: false, redraw_peers: false, clear_password: false }
}

/// One step of the login form.
pub open spec fn login_next(s: LoginView, i: LoginInputView) -> (LoginView, LoginEffectsView) {
    match i {
        LoginInputView::Submit { login, password, device_name, guest } => (
            LoginView { pending_device_name: device_name, busy: true, error: None, ..s },
            LoginEffectsView { output: Some(LoginOutputView::SubmitLogin { login, password, device_name, guest }), ..quiet() },
        ),
        LoginInputView::LoginFailed(m) => (
            LoginView { busy: false, error: Some(m), ..s },
            quiet(),
        ),
        LoginInputView::LoginSucceeded => (
            LoginView { busy: false, error: None, phase: Phase::Transition, transition_armed: true, ..s },
            LoginEffectsView { save_name: Some(s.pending_device_name), arm_timer: true, ..quiet() },
        ),
        LoginInputView::PeersChanged(p) => (
            LoginView { peers: p, ..s },
            LoginEffectsView { redraw_peers: true, ..quiet() },
        ),
        LoginInputView::Reset => (
            LoginView { phase: Phase::Form, busy: false, error: None, transition_armed: false, ..s },
            LoginEffectsView { clear_password: true, ..quiet() },
        ),
        LoginInputView::TransitionTimer => (
            LoginView { transition_armed: false, ..s },
            if s.transition_armed {
                LoginEffectsView { output: Some(LoginOutputView::TransitionFinished), ..quiet() }
            } else {
                quiet()
            },
        ),
        LoginInputView::InstallRequested => if s.install is Installing {
            (s, quiet())
        } else {
            (LoginView { install: InstallView::Installing, ..s }, LoginEffectsView { start_install: true, ..quiet() })
        },
        LoginInputView::InstallFinished(r) => match r {
            Ok(()) => (LoginView { install: InstallView::Succeeded, ..s }, LoginEffectsView { schedule_hide: true, ..quiet() }),
            Err(e) => (LoginView { install: InstallView::Failed(e), ..s }, quiet()),
        },
        LoginInputView::HideInstallBanner => (LoginView { install: InstallView::Hidden, ..s }, quiet()),
    }
}

/// The effects of a step with nothing to do.
fn no_effects() -> (res: LoginEffects)
    ensures
        res@ == quiet(),
{
    LoginEffects { output: None, save_name: None, arm_timer: false, start_install: false,
        schedule_hide: false, redraw_peers: false, clear_password: false }
}

impl LoginState {
    /// The form as it opens.
    pub fn new(install: InstallState) -> (res: LoginState)
        ensures
            !res@.busy,
            res@.error is None,
            res@.phase == Phase::Form,
            res@.pending_device_name == Seq::<char>::empty(),
            res@.peers == Seq::<Seq<char>>::empty(),
            !res@.transition_armed,
            res@.install == install@,
    {
        let r = LoginState { busy: false, error: None, phase: Phase::Form, pending_device_name: String::new(),
            peers: Vec::new(), transition_armed: false, install };
        assert(texts(r.peers@) =~= Seq::<Seq<char>>::empty());
        r
    }

    /// Takes one input.
    pub fn step(&mut self, input: LoginInput) -> (res: LoginEffects)
        ensures
            (final(self)@, res@) == login_next(old(self)@, input@),
    {
        let mut fx = no_effects();
        match input {
            LoginInput::Submit { login, password, device_name, guest } => {
                self.pending_device_name = device_name.clone();
                self.busy = true;
                self.error = None;
                fx.output = Some(LoginOutput::SubmitLogin { login, password, device_name, guest });
            },
            LoginInput::LoginFailed(m) => {
                self.busy = false;
                self.error = Some(m);
            },
            LoginInput::LoginSucceeded => {
                fx.save_name = Some(self.pending_device_name.clone());
                self.busy = false;
                self.error = None;
                self.phase = Phase::Transition;
                self.transition_armed = true;
                fx.arm_timer = true;
            },
            LoginInput::PeersChanged(p) => {
                self.peers = p;
                fx.redraw_peers = true;
            },
            LoginInput::Reset => {
                self.phase = Phase::Form;
                self.busy = false;
                self.error = None;
                self.transition_armed = false;
                fx.clear_password = true;
            },
            LoginInput::TransitionTimer => {
                if self.transition_armed {
                    self.transition_armed = false;
                    fx.output = Some(LoginOutput::TransitionFinished);
                }
            },
            LoginInput::InstallRequested => {
                if let InstallState::Installing = self.install {
                } else {
                    self.install = InstallState::Installing;
                    fx.start_install = true;
                }
            },
            LoginInput::InstallFinished(r) => {
                match r {
                    Ok(()) => {
                        self.install = InstallState::Succeeded;
                        fx.schedule_hide = true;
                    },
                    Err(e) => {
                        self.install = InstallState::Failed(e);
                    },
                }
            },
            LoginInput::HideInstallBanner => {
                self.install = InstallState::Hidden;
            },
        }
        fx
    }

    /// The name of the page the form shows.
    pub fn page_name(&self) -> (res: &'static str)
        ensures
            res@ == (if self.phase == Phase::Form { "login"@ } else { "transition"@ }),
    {
        match self.phase {
            Phase::Form => "login",
            Phase::Transition => "transition",
        }
    }
}

/// A reset before the transition's timer runs out cancels the transition:
/// the timer then announces nothing.
pub proof fn lemma_reset_cancels_transition(s: LoginView)
    ensures
        login_next(login_next(s, LoginInputView::Reset).0, LoginInputView::TransitionTimer).1.output is None,
        login_next(s, LoginInputView::Reset).0.phase == Phase::Form,
{
}

/// After a successful sign-in the timer announces the end of the
/// transition once, and only once.
pub proof fn lemma_transition_finishes_once(s: LoginView)
    ensures
        ({
            let s1 = login_next(s, LoginInputView::LoginSucceeded).0;
            let (s2, e2) = login_next(s1, LoginInputView::TransitionTimer);
            let e3 = login_next(s2, LoginInputView::TransitionTimer).1;
            &&& e2.output == Some(LoginOutputView::TransitionFinished)
            &&& e3.output is None
        }),
{
}

/// A failed sign-in gives the form back, with the error shown.
pub proof fn lemma_failure_reopens_form(s: LoginView, m: Seq<char>)
    ensures
        !login_next(s, LoginInputView::LoginFailed(m)).0.busy,
        login_next(s, LoginInputView::LoginFailed(m)).0.error == Some(m),
{
}

/// The name stored after a successful sign-in is the one last submitted.
pub proof fn lemma_success_stores_submitted_name(s: LoginView, login: Seq<char>, password: Seq<char>, name: Seq<char>, guest: bool)
    ensures
        ({
            let s1 = login_next(s, LoginInputView::Submit { login, password, device_name: name, guest }).0;
            login_next(s1, LoginInputView::LoginSucceeded).1.save_name == Some(name)
        }),
{
}

/// While the requirements install, asking again starts nothing.
pub proof fn lemma_install_not_restarted(s: LoginView)
    requires
        s.install is Installing,
    ensures
        !login_next(s, LoginInputView::InstallRequested).1.start_install,
        login_next(s, LoginInputView::InstallRequested).0 == s,
{
}

/// The number of peers other than this device.
pub open spec fn others_count(peers: Seq<Seq<char>>, me: Seq<char>) -> nat
    decreases peers.len(),
{
    if peers.len() == 0 {
        0
    } else {
        others_count(peers.drop_last(), me) + if peers.last() != me { 1nat } else { 0nat }
    }
}

/// The number of peers other than this device.
pub fn other_peers(peers: &Vec<String>, me: &str) -> (res: usize)
    ensures
        res as nat == others_count(texts(peers@), me@),
{
    let ghost t = texts(peers@);
    let mut n: usize = 0;
    let mut i: usize = 0;
    while i < peers.len()
        invariant
            i <= peers@.len(),
            t == texts(peers@),
            n as nat == others_count(t.take(i as int), me@),
            n <= i,
        decreases peers.len() - i,
    {
        assert(t.take(i + 1).drop_last() =~= t.take(i as int));
        assert(t.take(i + 1).last() == peers@[i as int]@);
        if !str_eq(peers[i].as_str(), me) {
            n += 1;
        }
        i += 1;
    }
    assert(t.take(peers@.len() as int) =~= t);
    n
}

/// The markup of the peer line: a warning with a hint when no other
/// device is online, else the number of devices connected.
pub open spec fn peer_markup(c: CatalogView, others: nat) -> Seq<char> {
    if others == 0 {
        "<span foreground='#ff9900' weight='bold'>"@ + translate(c, "auth.no_devices"@)
            + "</span>\n<span size='small' alpha='70%'>"@ + translate(c, "auth.no_devices_help"@) + "</span>"@
    } else {
        "<span foreground='#00cc66' weight='bold'>"@
            + interpolate(translate(c, "auth.connected_devices"@), seq![("count"@, decimal(others))]) + "</span>"@
    }
}

/// The markup of the peer line under the transition graph.
pub fn peer_status_markup(catalog: &Catalog, peers: &Vec<String>, me: &str) -> (res: String)
    ensures
        res@ == peer_markup(catalog@, others_count(texts(peers@), me@)),
{
    let n = other_peers(peers, me);
    let mut out: Vec<char> = Vec::new();
    if n == 0 {
        let a = catalog.tr("auth.no_devices");
        let b = catalog.tr("auth.no_devices_help");
        extend_str(&mut out, "<span foreground='#ff9900' weight='bold'>");
        extend_str(&mut out, a.as_str());
        extend_str(&mut out, "</span>\n<span size='small' alpha='70%'>");
        extend_str(&mut out, b.as_str());
        extend_str(&mut out, "</span>");
    } else {
        let count = decimal_string(n as u64);
        let args = [("count", count.as_str())];
        let t = catalog.trf("auth.connected_devices", &args);
        assert(args_view(args@) =~= seq![("count"@, decimal(n as nat))]);
        extend_str(&mut out, "<span foreground='#00cc66' weight='bold'>");
        extend_str(&mut out, t.as_str());
        extend_str(&mut out, "</span>");
    }
    string_from_chars(out.as_slice())
}

/// What the banner shows.
pub struct BannerView {
    pub revealed: bool,
    /// The new title, if it changes.
    pub title: Option<String>,
    /// The new button label: `Some(Some(..))` sets one, `Some(None)` removes it.
    pub button: Option<Option<String>>,
    /// Whether the banner reacts, if that changes.
    pub sensitive: Option<bool>,
}

/// What the banner shows in each state.
pub fn banner_view(catalog: &Catalog, install: &InstallState) -> (res: BannerView)
    ensures
        res.revealed == !(install@ is Hidden),
        install@ is Hidden ==> (res.title is None && res.button is None && res.sensitive is None),
        install@ is Offered ==> (opt_text(res.title) == Some(translate(catalog@, "auth.dependencies_missing"@))
            && (res.button matches Some(Some(b)) && b@ == translate(catalog@, "auth.install"@))
            && res.sensitive == Some(true)),
        install@ is Installing ==> (opt_text(res.title) == Some(translate(catalog@, "auth.installing_requirements"@))
            && res.button is None && res.sensitive == Some(false)),
        install@ is Succeeded ==> (opt_text(res.title) == Some(translate(catalog@, "auth.install_success"@))
            && res.button == Some(None::<String>) && res.sensitive == Some(true)),
        (install@ matches InstallView::Failed(e) ==> (opt_text(res.title) == Some(interpolate(
            translate(catalog@, "auth.install_failed"@), seq![("error"@, e)]))
            && res.button is None && res.sensitive == Some(true))),
{
    match install {
        InstallState::Hidden => BannerView { revealed: false, title: None, button: None, sensitive: None },
        InstallState::Offered => BannerView {
            revealed: true,
            title: Some(catalog.tr("auth.dependencies_missing")),
            button: Some(Some(catalog.tr("auth.install"))),
            sensitive: Some(true),
        },
        InstallState::Installing => BannerView {
            revealed: true,
            title: Some(catalog.tr("auth.installing_requirements")),
            button: None,
            sensitive: Some(false),
        },
        InstallState::Succeeded => BannerView {
            revealed: true,
            title: Some(catalog.tr("auth.install_success")),
            button: Some(None),
            sensitive: Some(true),
        },
        InstallState::Failed(e) => {
            let args = [("error", e.as_str())];
            let t = catalog.trf("auth.install_failed", &args);
            assert(args_view(args@) =~= seq![("error"@, e@)]);
            BannerView { revealed: true, title: Some(t), button: None, sensitive: Some(true) }
        },
    }
}

} // verus!
