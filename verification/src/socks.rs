//! Redirecting one program's outbound connections through the SOCKS5 proxy
//! on loopback. The interposed socket calls do the I/O; every decision they
//! take lives here: which destinations are left alone, which are refused,
//! and the SOCKS5 exchange itself, as a machine from stage and event to the
//! next stage and the action to perform.
use vstd::prelude::*;
use std::collections::HashMap;
use crate::text::{contains_seq, lowercase};

verus! {

/// The platform flavour of the handshake: the Unix library reads the proxy
/// port from the environment and reads a variable-length reply; the Windows
/// library always dials port 1080 and reads a fixed ten-byte reply.
#[derive(Clone, Copy, Debug, PartialEq, Eq, Structural)]
pub enum Platform {
    Unix,
    Windows,
}

/// The address family of a destination.
#[derive(Clone, Copy, Debug, PartialEq, Eq, Structural)]
pub enum Family {
    V4,
    V6,
    Other,
}

/// A destination that a program asked to connect or send to: the family,
/// the address bytes (4 for IPv4, 16 for IPv6) and the port bytes as they
/// stand in the socket address (network order).
pub struct Destination {
    pub family: Family,
    pub ip: Vec<u8>,
    pub port: [u8; 2],
}

impl Destination {
    /// The address bytes fit the family.
    pub open spec fn wf(&self) -> bool {
        &&& self.family == Family::V4 ==> self.ip@.len() == 4
        &&& self.family == Family::V6 ==> self.ip@.len() == 16
    }
}

/// The IPv6 loopback address `::1`.
pub open spec fn ipv6_loopback() -> Seq<u8> {
    Seq::new(16, |k: int| if k == 15 { 1u8 } else { 0u8 })
}

/// The destination is on this machine: `127.x.x.x` or `::1`.
pub open spec fn is_loopback(d: Destination) -> bool {
    match d.family {
        Family::V4 => d.ip@[0] == 127,
        Family::V6 => d.ip@ == ipv6_loopback(),
        Family::Other => false,
    }
}

/// Whether a destination is on this machine.
pub fn loopback(d: &Destination) -> (res: bool)
    requires
        d.wf(),
    ensures
        res == is_loopback(*d),
{
    match d.family {
        Family::V4 => d.ip[0] == 127,
        Family::V6 => {
            let mut i: usize = 0;
            while i < 15
                invariant
                    i <= 15,
                    d.ip@.len() == 16,
                    d.family == Family::V6,
                    forall|k: int| 0 <= k < i ==> d.ip@[k] == 0,
                decreases 15 - i,
            {
                if d.ip[i] != 0 {
                    assert(d.ip@[i as int] != ipv6_loopback()[i as int]);
                    return false;
                }
                i += 1;
            }
            if d.ip[15] != 1 {
                assert(d.ip@[15] != ipv6_loopback()[15]);
                return false;
            }
            assert(d.ip@ =~= ipv6_loopback());
            true
        },
        Family::Other => false,
    }
}

/// A datagram leaving for another machine, which the library refuses: an
/// IPv4 or IPv6 destination that is not loopback, on a socket known to be a
/// datagram socket.
pub open spec fn external_udp(d: Destination, type_known: bool, datagram: bool) -> bool {
    d.family != Family::Other && type_known && datagram && !is_loopback(d)
}

/// Whether a datagram to `d` must be refused. `type_known` says whether the
/// socket type could be read; `datagram` whether it is a datagram socket.
pub fn is_external_udp(d: &Destination, type_known: bool, datagram: bool) -> (res: bool)
    requires
        d.wf(),
    ensures
        res == external_udp(*d, type_known, datagram),
{
    if d.family == Family::Other {
        return false;
    }
    if !type_known || !datagram {
        return false;
    }
    !loopback(d)
}

/// Whether a batch of datagrams (`sendmmsg`) must be refused: one of its
/// messages names a destination on another machine, on a socket known to
/// be a datagram socket. Messages without a destination (`None`) go where
/// the socket is connected and are not judged here. Refusing the batch
/// whichever message it is keeps the library from letting any datagram
/// out unnoticed.
pub fn batch_is_external(dests: &[Option<Destination>], type_known: bool, datagram: bool) -> (res: bool)
    requires
        forall|i: int| 0 <= i < dests@.len() ==> (#[trigger] dests@[i] matches Some(d) ==> d.wf()),
    ensures
        res == exists|i: int| 0 <= i < dests@.len() && (#[trigger] dests@[i] matches Some(d) && external_udp(d, type_known, datagram)),
{
    let mut i: usize = 0;
    while i < dests.len()
        invariant
            i <= dests@.len(),
            forall|k: int| 0 <= k < dests@.len() ==> (#[trigger] dests@[k] matches Some(d) ==> d.wf()),
            forall|k: int| 0 <= k < i ==> !(#[trigger] dests@[k] matches Some(d) && external_udp(d, type_known, datagram)),
        decreases dests.len() - i,
    {
        match &dests[i] {
            Some(d) => {
                if is_external_udp(d, type_known, datagram) {
                    assert(dests@[i as int] matches Some(d) && external_udp(d, type_known, datagram));
                    return true;
                }
            }
            None => {}
        }
        i += 1;
    }
    false
}

/// The proxy port configured for this process: the value of the variable
/// when it parses as a port number, and 0 (no proxy) otherwise.
pub open spec fn proxy_port_spec(value: Option<Seq<char>>) -> u16 {
    match value {
        Some(v) => match crate::text::parse_unsigned_spec(v, 10, 0xffff) {
            Some(p) => p as u16,
            None => 0,
        },
        None => 0,
    }
}

/// The proxy port from the value of `NODEINNET_NETWORK_PORT`, if set.
pub fn proxy_port(value: Option<&str>) -> (res: u16)
    ensures
        res == proxy_port_spec(match value { Some(v) => Some(v@), None => None }),
{
    match value {
        Some(v) => match crate::text::parse_u16(v) {
            Some(p) => p,
            None => 0,
        },
        None => 0,
    }
}

/// The error code the interposed call leaves behind.
#[derive(Clone, Copy, Debug, PartialEq, Eq, Structural)]
pub enum Errno {
    /// Permission denied (`EACCES` / `WSAEACCES`).
    Access,
    /// Connection refused (`ECONNREFUSED` / `WSAECONNREFUSED`).
    ConnectionRefused,
}

/// Where the handshake stands.
#[derive(Clone, Copy, Debug, PartialEq, Eq, Structural)]
pub enum Stage {
    Start,
    SockType,
    ProxyConnect,
    Greeting,
    MethodReply,
    Request,
    ReplyHeader,
    DomainLength,
    ReplyTail,
    Finished,
}

/// What the socket layer reports back to the machine.
pub enum Event {
    /// The interposed `connect` was called.
    Begin,
    /// The socket type was queried; `known` when the query succeeded.
    SockType { known: bool, datagram: bool },
    /// The result of `connect` to the proxy.
    Connected(i32),
    /// The result of a `send`.
    Sent(i64),
    /// The result of a `recv` and the receive buffer (zero-filled where
    /// nothing was written).
    Received { count: i64, bytes: Vec<u8> },
}

/// What the socket layer must do next.
pub enum Action {
    /// Call the original `connect` with the caller's own arguments.
    CallOriginal,
    /// Read the socket type.
    QuerySockType,
    /// Make the socket blocking and connect it to the proxy on loopback.
    ConnectProxy { port: u16, ipv6: bool },
    /// Send these bytes.
    Send(Vec<u8>),
    /// Receive this many bytes.
    Receive(usize),
    /// Restore the socket mode and return `code`, setting the error if any.
    Return { code: i32, errno: Option<Errno> },
}

/// The mathematical content of an action.
pub enum Act {
    CallOriginal,
    QuerySockType,
    ConnectProxy { port: u16, ipv6: bool },
    Send(Seq<u8>),
    Receive(nat),
    Return { code: i32, errno: Option<Errno> },
}

impl View for Action {
    type V = Act;

    open spec fn view(&self) -> Act {
        match self {
            Action::CallOriginal => Act::CallOriginal,
            Action::QuerySockType => Act::QuerySockType,
            Action::ConnectProxy { port, ipv6 } => Act::ConnectProxy { port: *port, ipv6: *ipv6 },
            Action::Send(b) => Act::Send(b@),
            Action::Receive(n) => Act::Receive(*n as nat),
            Action::Return { code, errno } => Act::Return { code: *code, errno: *errno },
        }
    }
}

/// The SOCKS5 greeting: version 5, one method, "no authentication".
pub open spec fn greeting() -> Seq<u8> {
    seq![5u8, 1, 0]
}

/// The SOCKS5 CONNECT request for a destination: version, command, reserved,
/// address type (1 for IPv4, 4 for IPv6), the address and the port.
pub open spec fn connect_request(d: Destination) -> Seq<u8> {
    seq![5u8, 1, 0, if d.family == Family::V6 { 4u8 } else { 1u8 }] + d.ip@ + d.port@
}

/// A byte of a receive buffer, zero where the buffer is shorter.
pub open spec fn byte_at(b: Seq<u8>, i: int) -> u8 {
    if 0 <= i < b.len() { b[i] } else { 0 }
}

/// The port the proxy is dialled on.
pub open spec fn dial_port(p: Platform, port: u16) -> u16 {
    match p {
        Platform::Unix => port,
        Platform::Windows => 1080,
    }
}

/// Returns `code` with no error set.
pub open spec fn ret(code: i32) -> Act {
    Act::Return { code, errno: None }
}

/// Returns -1 with the error set.
pub open spec fn fail(e: Errno) -> Act {
    Act::Return { code: -1i32, errno: Some(e) }
}

/// One step of the redirect: from the stage and the event, the next stage
/// and the action to perform.
pub open spec fn step_spec(p: Platform, port: u16, d: Destination, st: Stage, ev: Event) -> (Stage, Act) {
    match (st, ev) {
        (Stage::Start, Event::Begin) => {
            if d.family == Family::Other || is_loopback(d) {
                (Stage::Finished, Act::CallOriginal)
            } else {
                (Stage::SockType, Act::QuerySockType)
            }
        },
        (Stage::SockType, Event::SockType { known, datagram }) => {
            if known && datagram {
                (Stage::Finished, fail(Errno::Access))
            } else if p == Platform::Unix && port == 0 {
                (Stage::Finished, fail(Errno::ConnectionRefused))
            } else {
                (Stage::ProxyConnect, Act::ConnectProxy { port: dial_port(p, port), ipv6: d.family == Family::V6 })
            }
        },
        (Stage::ProxyConnect, Event::Connected(res)) => {
            if (p == Platform::Unix && res < 0) || (p == Platform::Windows && res != 0) {
                (Stage::Finished, ret(res))
            } else {
                (Stage::Greeting, Act::Send(greeting()))
            }
        },
        (Stage::Greeting, Event::Sent(n)) => {
            if n < 0 {
                (Stage::Finished, ret(-1i32))
            } else {
                (Stage::MethodReply, Act::Receive(2))
            }
        },
        (Stage::MethodReply, Event::Received { count, bytes }) => {
            if count != 2 || byte_at(bytes@, 0) != 5 || byte_at(bytes@, 1) != 0 {
                (Stage::Finished, ret(-1i32))
            } else {
                (Stage::Request, Act::Send(connect_request(d)))
            }
        },
        (Stage::Request, Event::Sent(n)) => {
            if n < 0 {
                (Stage::Finished, ret(-1i32))
            } else if p == Platform::Unix {
                (Stage::ReplyHeader, Act::Receive(4))
            } else {
                (Stage::ReplyHeader, Act::Receive(10))
            }
        },
        (Stage::ReplyHeader, Event::Received { count, bytes }) => {
            if p == Platform::Windows {
                if count < 10 || byte_at(bytes@, 1) != 0 {
                    (Stage::Finished, fail(Errno::ConnectionRefused))
                } else {
                    (Stage::Finished, ret(0i32))
                }
            } else if count == 4 && byte_at(bytes@, 1) == 0 {
                if byte_at(bytes@, 3) == 1 {
                    (Stage::ReplyTail, Act::Receive(6))
                } else if byte_at(bytes@, 3) == 4 {
                    (Stage::ReplyTail, Act::Receive(18))
                } else if byte_at(bytes@, 3) == 3 {
                    (Stage::DomainLength, Act::Receive(1))
                } else {
                    (Stage::Finished, ret(0i32))
                }
            } else {
                (Stage::Finished, fail(Errno::ConnectionRefused))
            }
        },
        (Stage::DomainLength, Event::Received { count, bytes }) => {
            (Stage::ReplyTail, Act::Receive(byte_at(bytes@, 0) as nat + 2))
        },
        (Stage::ReplyTail, Event::Received { count, bytes }) => (Stage::Finished, ret(0i32)),
        _ => (Stage::Finished, ret(-1i32)),
    }
}

/// The redirect of one `connect` call.
pub struct Redirect {
    pub platform: Platform,
    pub proxy_port: u16,
    pub dest: Destination,
    pub stage: Stage,
}

/// The first byte of a buffer, zero when it is empty.
fn first_byte(b: &Vec<u8>, i: usize) -> (res: u8)
    ensures
        res == byte_at(b@, i as int),
{
    if i < b.len() { b[i] } else { 0 }
}

/// Builds the CONNECT request for a destination.
pub fn build_connect_request(d: &Destination) -> (res: Vec<u8>)
    ensures
        res@ == connect_request(*d),
{
    let mut req: Vec<u8> = Vec::new();
    req.push(5);
    req.push(1);
    req.push(0);
    if d.family == Family::V6 {
        req.push(4);
    } else {
        req.push(1);
    }
    let mut i: usize = 0;
    while i < d.ip.len()
        invariant
            i <= d.ip.len(),
            req@ == seq![5u8, 1, 0, if d.family == Family::V6 { 4u8 } else { 1u8 }] + d.ip@.take(i as int),
        decreases d.ip.len() - i,
    {
        req.push(d.ip[i]);
        assert(d.ip@.take(i + 1) =~= d.ip@.take(i as int).push(d.ip@[i as int]));
        i += 1;
    }
    req.push(d.port[0]);
    req.push(d.port[1]);
    assert(d.ip@.take(d.ip@.len() as int) =~= d.ip@);
    assert(req@ =~= connect_request(*d));
    req
}

impl Redirect {
    /// A redirect that has not started.
    pub fn new(platform: Platform, proxy_port: u16, dest: Destination) -> (res: Redirect)
        ensures
            res.platform == platform,
            res.proxy_port == proxy_port,
            res.dest == dest,
            res.stage == Stage::Start,
    {
        Redirect { platform, proxy_port, dest, stage: Stage::Start }
    }

    /// Feeds one event to the redirect and returns the action to perform.
    pub fn step(&mut self, ev: Event) -> (a: Action)
        requires
            old(self).dest.wf(),
        ensures
            final(self).platform == old(self).platform,
            final(self).proxy_port == old(self).proxy_port,
            final(self).dest == old(self).dest,
            (final(self).stage, a@) == step_spec(old(self).platform, old(self).proxy_port, old(self).dest, old(self).stage, ev),
    {
        let p = self.platform;
        let port = self.proxy_port;
        let (st, a) = match (self.stage, ev) {
            (Stage::Start, Event::Begin) => {
                if self.dest.family == Family::Other || loopback(&self.dest) {
                    (Stage::Finished, Action::CallOriginal)
                } else {
                    (Stage::SockType, Action::QuerySockType)
                }
            },
            (Stage::SockType, Event::SockType { known, datagram }) => {
                if known && datagram {
                    (Stage::Finished, Action::Return { code: -1, errno: Some(Errno::Access) })
                } else if p == Platform::Unix && port == 0 {
                    (Stage::Finished, Action::Return { code: -1, errno: Some(Errno::ConnectionRefused) })
                } else {
                    let dial = match p {
                        Platform::Unix => port,
                        Platform::Windows => 1080,
                    };
                    (Stage::ProxyConnect, Action::ConnectProxy { port: dial, ipv6: self.dest.family == Family::V6 })
                }
            },
            (Stage::ProxyConnect, Event::Connected(res)) => {
                if (p == Platform::Unix && res < 0) || (p == Platform::Windows && res != 0) {
                    (Stage::Finished, Action::Return { code: res, errno: None })
                } else {
                    let mut g: Vec<u8> = Vec::new();
                    g.push(5);
                    g.push(1);
                    g.push(0);
                    assert(g@ =~= greeting());
                    (Stage::Greeting, Action::Send(g))
                }
            },
            (Stage::Greeting, Event::Sent(n)) => {
                if n < 0 {
                    (Stage::Finished, Action::Return { code: -1, errno: None })
                } else {
                    (Stage::MethodReply, Action::Receive(2))
                }
            },
            (Stage::MethodReply, Event::Received { count, bytes }) => {
                if count != 2 || first_byte(&bytes, 0) != 5 || first_byte(&bytes, 1) != 0 {
                    (Stage::Finished, Action::Return { code: -1, errno: None })
                } else {
                    (Stage::Request, Action::Send(build_connect_request(&self.dest)))
                }
            },
            (Stage::Request, Event::Sent(n)) => {
                if n < 0 {
                    (Stage::Finished, Action::Return { code: -1, errno: None })
                } else if p == Platform::Unix {
                    (Stage::ReplyHeader, Action::Receive(4))
                } else {
                    (Stage::ReplyHeader, Action::Receive(10))
                }
            },
            (Stage::ReplyHeader, Event::Received { count, bytes }) => {
                if p == Platform::Windows {
                    if count < 10 || first_byte(&bytes, 1) != 0 {
                        (Stage::Finished, Action::Return { code: -1, errno: Some(Errno::ConnectionRefused) })
                    } else {
                        (Stage::Finished, Action::Return { code: 0, errno: None })
                    }
                } else if count == 4 && first_byte(&bytes, 1) == 0 {
                    let atyp = first_byte(&bytes, 3);
                    if atyp == 1 {
                        (Stage::ReplyTail, Action::Receive(6))
                    } else if atyp == 4 {
                        (Stage::ReplyTail, Action::Receive(18))
                    } else if atyp == 3 {
                        (Stage::DomainLength, Action::Receive(1))
                    } else {
                        (Stage::Finished, Action::Return { code: 0, errno: None })
                    }
                } else {
                    (Stage::Finished, Action::Return { code: -1, errno: Some(Errno::ConnectionRefused) })
                }
            },
            (Stage::DomainLength, Event::Received { count, bytes }) => {
                let len = first_byte(&bytes, 0);
                (Stage::ReplyTail, Action::Receive(len as usize + 2))
            },
            (Stage::ReplyTail, Event::Received { count, bytes }) => {
                (Stage::Finished, Action::Return { code: 0, errno: None })
            },
            _ => (Stage::Finished, Action::Return { code: -1, errno: None }),
        };
        self.stage = st;
        a
    }
}

// ---------------------------------------------------------------------------
// Laws
// ---------------------------------------------------------------------------

/// With no proxy port configured, the Unix library fails closed: a
/// connection to another machine is never dialled or sent anywhere; the
/// only actions are reading the socket type and then refusing the call.
pub proof fn lemma_fail_closed(d: Destination, ev: Event)
    requires
        d.wf(),
        d.family != Family::Other,
        !is_loopback(d),
    ensures
        step_spec(Platform::Unix, 0, d, Stage::Start, Event::Begin) == (Stage::SockType, Act::QuerySockType),
        step_spec(Platform::Unix, 0, d, Stage::SockType, ev).0 == Stage::Finished,
        step_spec(Platform::Unix, 0, d, Stage::SockType, ev).1 matches Act::Return { code, errno } && code == -1,
{
}

/// Connections to this machine, and to addresses that are neither IPv4 nor
/// IPv6, are left alone: the original `connect` is called unchanged.
pub proof fn lemma_local_untouched(p: Platform, port: u16, d: Destination)
    requires
        d.wf(),
        d.family == Family::Other || is_loopback(d),
    ensures
        step_spec(p, port, d, Stage::Start, Event::Begin) == (Stage::Finished, Act::CallOriginal),
{
}

/// The redirect rewrites the destination and nothing else: the CONNECT
/// request names exactly the address and port the program asked for.
pub proof fn lemma_request_names_destination(d: Destination)
    requires
        d.wf(),
        d.family != Family::Other,
    ensures
        connect_request(d).len() == 6 + d.ip@.len(),
        connect_request(d).subrange(4, 4 + d.ip@.len() as int) == d.ip@,
        connect_request(d)[4 + d.ip@.len() as int] == d.port[0],
        connect_request(d)[5 + d.ip@.len() as int] == d.port[1],
        connect_request(d)[3] == (if d.family == Family::V4 { 1u8 } else { 4u8 }),
{
    assert(connect_request(d).subrange(4, 4 + d.ip@.len() as int) =~= d.ip@);
}

/// A datagram socket is never redirected: once its type is known, the
/// connection is refused with "permission denied".
pub proof fn lemma_datagram_refused(p: Platform, port: u16, d: Destination)
    ensures
        step_spec(p, port, d, Stage::SockType, Event::SockType { known: true, datagram: true })
            == (Stage::Finished, fail(Errno::Access)),
{
}

/// The handshake only reports success after the proxy accepted the
/// greeting and the request: every step from a stage before the reply
/// returns either a failure or another step of the exchange.
pub proof fn lemma_no_early_success(p: Platform, port: u16, d: Destination, st: Stage, ev: Event)
    requires
        st == Stage::SockType || st == Stage::ProxyConnect || st == Stage::Greeting || st == Stage::MethodReply
            || st == Stage::Request,
    ensures
        step_spec(p, port, d, st, ev).1 matches Act::Return { code, errno } ==> code != 0 || st == Stage::ProxyConnect,
{
}

// ---------------------------------------------------------------------------
// Launching child processes (Windows)
// ---------------------------------------------------------------------------

/// `CREATE_SUSPENDED`, the process creation flag that holds the new
/// process's first thread until it is resumed.
pub const CREATE_SUSPENDED: u32 = 4;

/// The command names a console host, into which the library is never loaded:
/// its lowercase form contains `conhost.exe` or `openconsole.exe`.
pub open spec fn console_host(cmd: Seq<char>) -> bool {
    contains_seq(lowercase(cmd), "conhost.exe"@) || contains_seq(lowercase(cmd), "openconsole.exe"@)
}

/// Whether an application name or command line names a console host.
pub fn is_console_host(cmd: &str) -> (res: bool)
    ensures
        res == console_host(cmd@),
{
    let lower = crate::text::to_lowercase(cmd);
    let l = crate::text::chars_of(lower.as_str());
    let a = crate::text::chars_of("conhost.exe");
    let b = crate::text::chars_of("openconsole.exe");
    crate::text::contains_chars(l.as_slice(), a.as_slice()) || crate::text::contains_chars(l.as_slice(), b.as_slice())
}

/// The creation flags passed on to the original `CreateProcess`: suspended
/// unless injection is skipped, so that the library is loaded before the
/// child runs.
pub fn launch_flags(flags: u32, skip_injection: bool) -> (res: u32)
    ensures
        res == (if skip_injection { flags } else { flags | CREATE_SUSPENDED }),
{
    if skip_injection { flags } else { flags | CREATE_SUSPENDED }
}

/// Whether the child's thread is resumed after injection: only when the
/// library suspended it, not when the caller asked for a suspended child.
pub fn resume_after_injection(flags: u32, skip_injection: bool) -> (res: bool)
    ensures
        res == (!skip_injection && flags & CREATE_SUSPENDED == 0),
{
    !skip_injection && flags & CREATE_SUSPENDED == 0
}

/// The blocking mode each socket's program last asked for with
/// `ioctlsocket(FIONBIO)`; the handshake makes a socket blocking and then
/// puts back what the program asked for.
pub struct BlockingModes {
    modes: HashMap<u64, u32>,
}

impl View for BlockingModes {
    type V = Map<u64, u32>;

    closed spec fn view(&self) -> Map<u64, u32> {
        self.modes@
    }
}

/// The mode to put back on a socket after the handshake: the recorded mode
/// when it is non-blocking (non-zero), nothing otherwise.
pub open spec fn mode_to_restore(m: Map<u64, u32>, socket: u64) -> Option<u32> {
    if m.contains_key(socket) && m[socket] != 0 { Some(m[socket]) } else { None }
}

impl BlockingModes {
    /// No socket has asked for a mode.
    pub fn new() -> (res: BlockingModes)
        ensures
            res@ == Map::<u64, u32>::empty(),
    {
        broadcast use vstd::std_specs::hash::group_hash_axioms;
        BlockingModes { modes: HashMap::new() }
    }

    /// Records the mode a program set on a socket.
    pub fn record(&mut self, socket: u64, mode: u32)
        ensures
            final(self)@ == old(self)@.insert(socket, mode),
    {
        broadcast use vstd::std_specs::hash::group_hash_axioms;
        self.modes.insert(socket, mode);
    }

    /// Forgets a socket that was closed.
    pub fn forget(&mut self, socket: u64)
        ensures
            final(self)@ == old(self)@.remove(socket),
    {
        broadcast use vstd::std_specs::hash::group_hash_axioms;
        self.modes.remove(&socket);
    }

    /// The mode to put back on a socket after the handshake.
    pub fn restore_mode(&self, socket: u64) -> (res: Option<u32>)
        ensures
            res == mode_to_restore(self@, socket),
    {
        broadcast use vstd::std_specs::hash::group_hash_axioms;
        match self.modes.get(&socket) {
            Some(m) => if *m != 0 { Some(*m) } else { None },
            None => None,
        }
    }
}

/// What a program set on a socket is what the handshake puts back, and a
/// closed socket leaves nothing behind to restore.
pub proof fn lemma_modes_round_trip(m: Map<u64, u32>, socket: u64, other: u64, mode: u32)
    ensures
        mode_to_restore(m.insert(socket, mode), socket) == (if mode != 0 { Some(mode) } else { None }),
        mode_to_restore(m.remove(socket), socket) == None::<u32>,
        other != socket ==> mode_to_restore(m.insert(socket, mode), other) == mode_to_restore(m, other),
{
}

} // verus!
