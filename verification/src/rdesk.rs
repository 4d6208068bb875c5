//! The remote-desktop view as a state machine: which session it shows,
//! whether it is connected and in control, the stream settings it asks
//! for, the traffic counted between statistics ticks, and the input
//! events it forwards while the pointer and keyboard are captured.
use vstd::prelude::*;
use crate::i18n::{Catalog, CatalogView, translate, interpolate};
use crate::text::{decimal, decimal_string};

verus! {

/// The stream qualities offered, as bit rates in bits per second.
pub open spec fn bitrate_at(i: int) -> u32 {
    if i == 0 { 400_000 } else if i == 1 { 800_000 } else if i == 2 { 1_500_000 } else { 3_000_000 }
}

/// The bit rate of the quality chosen in the quality list: the standard
/// quality when the choice is outside the list.
pub fn selected_bitrate(index: u32) -> (res: u32)
    ensures
        res == (if index < 4 { bitrate_at(index as int) } else { bitrate_at(1) }),
{
    match index {
        0 => 400_000,
        1 => 800_000,
        2 => 1_500_000,
        3 => 3_000_000,
        _ => 800_000,
    }
}

/// The protocol's mouse button for a toolkit button: the middle (2) and
/// right (3) buttons trade numbers; others keep theirs (cut to a byte).
pub fn remap_button(button: u32) -> (res: u8)
    ensures
        button == 1 ==> res == 1,
        button == 3 ==> res == 2,
        button == 2 ==> res == 3,
        button != 1 && button != 2 && button != 3 ==> res == (button % 256) as u8,
{
    match button {
        1 => 1,
        3 => 2,
        2 => 3,
        _ => {
            let b = button % 256;
            b as u8
        },
    }
}

/// An input event forwarded to the remote host.
#[derive(Debug, PartialEq, Eq, Structural)]
pub enum DesktopInputEvent {
    MouseMove { x: i32, y: i32 },
    MouseDown { button: u8 },
    MouseUp { button: u8 },
    MouseScroll { dy: i32 },
    KeyPress { keyval: u32 },
    KeyRelease { keyval: u32 },
}

/// A request to (re)connect or disconnect the stream with its settings.
#[derive(Debug, PartialEq, Eq, Structural)]
pub struct ConnectRequest {
    pub connect: bool,
    pub original_size: bool,
    pub bitrate_bps: Option<u32>,
    pub force_select: bool,
}

/// What the view is told.
pub enum RdeskEvent {
    SetSession { resource_id: String, local: bool },
    ConnectionChanged { connected: bool, remote_w: usize, remote_h: usize },
    ConnectionError(String),
    ControlChanged(bool),
    Frame { width: usize, height: usize, compressed_len: usize },
    ScreenSize { width: usize, height: usize },
    SetOriginalSize(bool),
    SetBitrate(u32),
    SetForceSelect(bool),
}

/// The state of the remote-desktop view.
pub struct RdeskSession {
    pub resource_id: String,
    pub local: bool,
    pub connected: bool,
    pub controlling: bool,
    pub original_size: bool,
    pub bitrate_bps: u32,
    pub force_select: bool,
    pub remote_w: usize,
    pub remote_h: usize,
    pub error: Option<String>,
    pub window_bytes: usize,
    pub window_frames: usize,
    pub frame_generation: u64,
    pub frame_received: bool,
    pub frame_w: usize,
    pub frame_h: usize,
    pub stats_running: bool,
    pub stats_fresh: bool,
}

/// The reconnect request for changed settings: sent only while connected.
pub open spec fn reconnect(s: RdeskSession) -> Option<ConnectRequest> {
    if s.connected {
        Some(ConnectRequest { connect: true, original_size: s.original_size, bitrate_bps: Some(s.bitrate_bps), force_select: s.force_select })
    } else {
        None
    }
}

/// An event can be taken without a counter overflowing.
pub open spec fn fits(s: RdeskSession, e: RdeskEvent) -> bool {
    match e {
        RdeskEvent::Frame { compressed_len, .. } => s.window_bytes + compressed_len <= usize::MAX
            && s.window_frames < usize::MAX && s.frame_generation < u64::MAX,
        _ => true,
    }
}

/// How the view's state changes with an event (the stream's picture and
/// the statistics text aside) and what it asks for.
pub open spec fn step_spec(s: RdeskSession, e: RdeskEvent, t: RdeskSession, out: Option<ConnectRequest>) -> bool {
    match e {
        RdeskEvent::SetSession { resource_id, local } => {
            &&& t == RdeskSession {
                resource_id, local, error: None,
                connected: false,
                force_select: if s.connected { false } else { s.force_select },
                stats_running: false, window_bytes: 0, window_frames: 0, frame_received: false, stats_fresh: true,
                ..s
            }
            &&& out is None
        },
        RdeskEvent::ConnectionChanged { connected, remote_w, remote_h } => {
            &&& if connected {
                t == RdeskSession {
                    connected: true, error: None,
                    remote_w: if remote_w > 0 && remote_h > 0 { remote_w } else { s.remote_w },
                    remote_h: if remote_w > 0 && remote_h > 0 { remote_h } else { s.remote_h },
                    window_bytes: 0, window_frames: 0, stats_fresh: true, stats_running: true,
                    ..s
                }
            } else {
                t == RdeskSession { connected: false, force_select: false, stats_running: false, frame_received: false, ..s }
            }
            &&& out is None
        },
        RdeskEvent::ConnectionError(msg) => {
            &&& t == RdeskSession { connected: false, force_select: false, stats_running: false, error: Some(msg), frame_received: false, ..s }
            &&& out is None
        },
        RdeskEvent::ControlChanged(c) => t == RdeskSession { controlling: c, ..s } && out is None,
        RdeskEvent::Frame { width, height, compressed_len } => {
            &&& t == RdeskSession {
                frame_w: width, frame_h: height, frame_received: true,
                frame_generation: (s.frame_generation + 1) as u64,
                window_bytes: (s.window_bytes + compressed_len) as usize,
                window_frames: (s.window_frames + 1) as usize,
                ..s
            }
            &&& out is None
        },
        RdeskEvent::ScreenSize { width, height } => {
            &&& t == (if width > 0 && height > 0 { RdeskSession { remote_w: width, remote_h: height, ..s } } else { s })
            &&& out is None
        },
        RdeskEvent::SetOriginalSize(v) => t == RdeskSession { original_size: v, ..s } && out == reconnect(t),
        RdeskEvent::SetBitrate(v) => t == RdeskSession { bitrate_bps: v, ..s } && out == reconnect(t),
        RdeskEvent::SetForceSelect(v) => t == RdeskSession { force_select: v, ..s } && out == reconnect(t),
    }
}

/// The status line of the view, and whether it shows as active.
pub open spec fn status_spec(c: CatalogView, s: RdeskSession, stats: Seq<char>) -> (Seq<char>, bool) {
    match s.error {
        Some(err) => (interpolate(translate(c, "rdesk.error_fmt"@), seq![("error"@, err@)]), false),
        None => if s.local {
            (translate(c, "rdesk.local_host"@), true)
        } else if s.connected {
            (interpolate(translate(c, "rdesk.connected_fmt"@),
                seq![("w"@, decimal(s.remote_w as nat)), ("h"@, decimal(s.remote_h as nat)), ("stats"@, stats)]), true)
        } else {
            (translate(c, "rdesk.disconnected"@), false)
        },
    }
}

impl RdeskSession {
    /// The view before any session: standard quality, in control, and a
    /// 1280×720 remote screen.
    pub fn new() -> (res: RdeskSession)
        ensures
            res.resource_id@.len() == 0,
            !res.local && !res.connected && res.controlling && !res.original_size && !res.force_select,
            res.bitrate_bps == bitrate_at(1),
            res.remote_w == 1280 && res.remote_h == 720,
            res.error is None,
            res.window_bytes == 0 && res.window_frames == 0 && res.frame_generation == 0,
            !res.frame_received && !res.stats_running && res.stats_fresh,
    {
        RdeskSession {
            resource_id: String::new(),
            local: false,
            connected: false,
            controlling: true,
            original_size: false,
            bitrate_bps: 800_000,
            force_select: false,
            remote_w: 1280,
            remote_h: 720,
            error: None,
            window_bytes: 0,
            window_frames: 0,
            frame_generation: 0,
            frame_received: false,
            frame_w: 640,
            frame_h: 480,
            stats_running: false,
            stats_fresh: true,
        }
    }

    /// The pointer and keyboard are forwarded to the remote host.
    pub open spec fn capturing_spec(&self) -> bool {
        self.connected && self.controlling && !self.local
    }

    /// Whether input is forwarded.
    pub fn capturing(&self) -> (res: bool)
        ensures
            res == self.capturing_spec(),
    {
        self.connected && self.controlling && !self.local
    }

    /// Takes an event; gives the connect request it leads to, if any.
    pub fn step(&mut self, e: RdeskEvent) -> (out: Option<ConnectRequest>)
        requires
            fits(*old(self), e),
        ensures
            step_spec(*old(self), e, *final(self), out),
    {
        match e {
            RdeskEvent::SetSession { resource_id, local } => {
                self.resource_id = resource_id;
                self.local = local;
                self.error = None;
                if self.connected {
                    self.connected = false;
                    self.force_select = false;
                }
                self.stats_running = false;
                self.window_bytes = 0;
                self.window_frames = 0;
                self.stats_fresh = true;
                self.frame_received = false;
                None
            },
            RdeskEvent::ConnectionChanged { connected, remote_w, remote_h } => {
                if connected {
                    self.connected = true;
                    self.error = None;
                    if remote_w > 0 && remote_h > 0 {
                        self.remote_w = remote_w;
                        self.remote_h = remote_h;
                    }
                    self.window_bytes = 0;
                    self.window_frames = 0;
                    self.stats_fresh = true;
                    self.stats_running = true;
                } else {
                    self.connected = false;
                    self.force_select = false;
                    self.stats_running = false;
                    self.frame_received = false;
                }
                None
            },
            RdeskEvent::ConnectionError(msg) => {
                self.connected = false;
                self.force_select = false;
                self.stats_running = false;
                self.error = Some(msg);
                self.frame_received = false;
                None
            },
            RdeskEvent::ControlChanged(c) => {
                self.controlling = c;
                None
            },
            RdeskEvent::Frame { width, height, compressed_len } => {
                self.frame_w = width;
                self.frame_h = height;
                self.frame_received = true;
                self.frame_generation = self.frame_generation + 1;
                self.window_bytes = self.window_bytes + compressed_len;
                self.window_frames = self.window_frames + 1;
                None
            },
            RdeskEvent::ScreenSize { width, height } => {
                if width > 0 && height > 0 {
                    self.remote_w = width;
                    self.remote_h = height;
                }
                None
            },
            RdeskEvent::SetOriginalSize(v) => {
                self.original_size = v;
                self.reconnect_request()
            },
            RdeskEvent::SetBitrate(v) => {
                self.bitrate_bps = v;
                self.reconnect_request()
            },
            RdeskEvent::SetForceSelect(v) => {
                self.force_select = v;
                self.reconnect_request()
            },
        }
    }

    fn reconnect_request(&self) -> (res: Option<ConnectRequest>)
        ensures
            res == reconnect(*self),
    {
        if self.connected {
            Some(ConnectRequest { connect: true, original_size: self.original_size, bitrate_bps: Some(self.bitrate_bps), force_select: self.force_select })
        } else {
            None
        }
    }

    /// A statistics tick: while connected, hands out the bytes and frames
    /// counted since the last tick and starts counting again.
    pub fn take_stats(&mut self) -> (res: Option<(usize, usize)>)
        ensures
            old(self).connected ==> (res == Some((old(self).window_bytes, old(self).window_frames))
                && *final(self) == (RdeskSession { window_bytes: 0, window_frames: 0, stats_fresh: false, ..*old(self) })),
            !old(self).connected ==> (res is None && *final(self) == *old(self)),
    {
        if self.connected {
            let r = (self.window_bytes, self.window_frames);
            self.window_bytes = 0;
            self.window_frames = 0;
            self.stats_fresh = false;
            Some(r)
        } else {
            None
        }
    }

    /// The connect button: nothing for the local host; otherwise connect
    /// or disconnect with the chosen settings.
    pub fn connect_clicked(&self, original_size: bool, bitrate_bps: u32, force_select: bool) -> (res: Option<ConnectRequest>)
        ensures
            self.local ==> res is None,
            !self.local ==> res == Some(ConnectRequest { connect: !self.connected, original_size, bitrate_bps: Some(bitrate_bps), force_select }),
    {
        if self.local {
            return None;
        }
        Some(ConnectRequest { connect: !self.connected, original_size, bitrate_bps: Some(bitrate_bps), force_select })
    }

    /// The dashboard's connect button: only when neither local nor
    /// connected.
    pub fn dashboard_connect_clicked(&self, original_size: bool, bitrate_bps: u32, force_select: bool) -> (res: Option<ConnectRequest>)
        ensures
            (self.local || self.connected) ==> res is None,
            !(self.local || self.connected) ==> res == Some(ConnectRequest { connect: true, original_size, bitrate_bps: Some(bitrate_bps), force_select }),
    {
        if self.local || self.connected {
            return None;
        }
        Some(ConnectRequest { connect: true, original_size, bitrate_bps: Some(bitrate_bps), force_select })
    }

    /// The events a pointer press or release forwards: nothing unless input
    /// is captured and the pointer is on the remote screen; then a move to
    /// the point and the button change.
    pub fn button_events(&self, point: Option<(i32, i32)>, button: u32, pressed: bool) -> (res: Vec<DesktopInputEvent>)
        ensures
            !(self.capturing_spec() && point is Some) ==> res@.len() == 0,
            (self.capturing_spec() && point is Some) ==> res@ == seq![
                DesktopInputEvent::MouseMove { x: (point->0).0, y: (point->0).1 },
                if pressed { DesktopInputEvent::MouseDown { button: remap_button_spec(button) } }
                else { DesktopInputEvent::MouseUp { button: remap_button_spec(button) } },
            ],
    {
        let mut v: Vec<DesktopInputEvent> = Vec::new();
        if !self.capturing() {
            return v;
        }
        match point {
            Some((x, y)) => {
                let b = remap_button(button);
                v.push(DesktopInputEvent::MouseMove { x, y });
                if pressed {
                    v.push(DesktopInputEvent::MouseDown { button: b });
                } else {
                    v.push(DesktopInputEvent::MouseUp { button: b });
                }
                assert(v@ =~= seq![
                    DesktopInputEvent::MouseMove { x, y },
                    if pressed { DesktopInputEvent::MouseDown { button: remap_button_spec(button) } }
                    else { DesktopInputEvent::MouseUp { button: remap_button_spec(button) } },
                ]);
                v
            },
            None => v,
        }
    }

    /// The event a pointer move forwards while captured.
    pub fn motion_event(&self, point: Option<(i32, i32)>) -> (res: Option<DesktopInputEvent>)
        ensures
            res == (if self.capturing_spec() && point is Some {
                Some(DesktopInputEvent::MouseMove { x: (point->0).0, y: (point->0).1 })
            } else {
                None
            }),
    {
        if !self.capturing() {
            return None;
        }
        match point {
            Some((x, y)) => Some(DesktopInputEvent::MouseMove { x, y }),
            None => None,
        }
    }

    /// The event a scroll forwards while captured: one step up for an
    /// upward scroll, else one step down.
    pub fn scroll_event(&self, upward: bool) -> (res: Option<DesktopInputEvent>)
        ensures
            res == (if self.capturing_spec() { Some(DesktopInputEvent::MouseScroll { dy: if upward { 1i32 } else { -1i32 } }) } else { None }),
    {
        if !self.capturing() {
            return None;
        }
        Some(DesktopInputEvent::MouseScroll { dy: if upward { 1 } else { -1 } })
    }

    /// The event a key forwards while captured.
    pub fn key_event(&self, keyval: u32, pressed: bool) -> (res: Option<DesktopInputEvent>)
        ensures
            res == (if self.capturing_spec() {
                Some(if pressed { DesktopInputEvent::KeyPress { keyval } } else { DesktopInputEvent::KeyRelease { keyval } })
            } else {
                None
            }),
    {
        if !self.capturing() {
            return None;
        }
        Some(if pressed { DesktopInputEvent::KeyPress { keyval } } else { DesktopInputEvent::KeyRelease { keyval } })
    }

    /// The status line and whether it shows as active; `stats` is the
    /// statistics text.
    pub fn status(&self, catalog: &Catalog, stats: &str) -> (res: (String, bool))
        ensures
            (res.0@, res.1) == status_spec(catalog@, *self, stats@),
    {
        match &self.error {
            Some(err) => {
                let args = [("error", err.as_str())];
                let t = catalog.trf("rdesk.error_fmt", &args);
                assert(crate::i18n::args_view(args@) =~= seq![("error"@, err@)]);
                (t, false)
            },
            None => {
                if self.local {
                    (catalog.tr("rdesk.local_host"), true)
                } else if self.connected {
                    let w = decimal_string(self.remote_w as u64);
                    let h = decimal_string(self.remote_h as u64);
                    let args = [("w", w.as_str()), ("h", h.as_str()), ("stats", stats)];
                    let t = catalog.trf("rdesk.connected_fmt", &args);
                    assert(crate::i18n::args_view(args@) =~= seq![("w"@, decimal(self.remote_w as nat)), ("h"@, decimal(self.remote_h as nat)), ("stats"@, stats@)]);
                    (t, true)
                } else {
                    (catalog.tr("rdesk.disconnected"), false)
                }
            },
        }
    }

    /// Which page the view shows: the session while connected or local,
    /// else the dashboard.
    pub fn shows_session(&self) -> (res: bool)
        ensures
            res == (self.connected || self.local),
    {
        self.connected || self.local
    }
}

/// The protocol's mouse button for a toolkit button.
pub open spec fn remap_button_spec(button: u32) -> u8 {
    if button == 1 { 1 } else if button == 3 { 2 } else if button == 2 { 3 } else { (button % 256) as u8 }
}

/// Remapping is its own inverse on the three buttons it trades, so a
/// press and its release always name the same protocol button.
pub proof fn lemma_remap_button_involution(b: u32)
    requires
        1 <= b <= 3,
    ensures
        remap_button_spec(remap_button_spec(b) as u32) == b,
{
}

/// While connected, changing a stream setting always asks to reconnect
/// with all current settings; while not connected it asks nothing.
pub proof fn lemma_settings_reconnect(s: RdeskSession, e: RdeskEvent, t: RdeskSession, out: Option<ConnectRequest>)
    requires
        e is SetOriginalSize || e is SetBitrate || e is SetForceSelect,
        step_spec(s, e, t, out),
    ensures
        s.connected ==> out == Some(ConnectRequest { connect: true, original_size: t.original_size, bitrate_bps: Some(t.bitrate_bps), force_select: t.force_select }),
        !s.connected ==> out is None,
{
}

/// A new session never starts connected, and never starts with an error,
/// a picture or counted traffic.
pub proof fn lemma_new_session_clean(s: RdeskSession, id: String, local: bool, t: RdeskSession, out: Option<ConnectRequest>)
    requires
        step_spec(s, RdeskEvent::SetSession { resource_id: id, local }, t, out),
    ensures
        !t.connected,
        t.error is None,
        !t.frame_received,
        t.window_bytes == 0 && t.window_frames == 0,
        !t.capturing_spec(),
{
}

} // verus!
