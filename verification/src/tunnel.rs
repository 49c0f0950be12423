//! SSH tunnels: the checks and the order of the steps that open one (TCP
//! connection, handshake, key then password authentication, local listener),
//! what each failure is reported as, and the address a driver then uses.
use crate::error::prefixed;
use crate::text::{chars_of, nat_text, push_str, push_u64, string_of, text_of};
use crate::types::{ConnectionConfig, ConnectionSecrets, DatabaseKind, SshConfig};
use vstd::prelude::*;

verus! {

/// Why a tunnel could not be opened.
#[derive(Clone, Debug)]
pub enum SshError {
    Connect(String),
    Auth(String),
    Tunnel(String),
}

pub open spec fn ssh_error_text(e: SshError) -> Seq<char> {
    match e {
        SshError::Connect(m) => "ssh connect failed: "@ + m@,
        SshError::Auth(m) => "ssh auth failed: "@ + m@,
        SshError::Tunnel(m) => "ssh tunnel failed: "@ + m@,
    }
}

impl SshError {
    /// The error's text: `ssh connect failed: …`, `ssh auth failed: …` or
    /// `ssh tunnel failed: …`.
    pub fn describe(&self) -> (s: String)
        ensures
            s@ == ssh_error_text(*self),
    {
        match self {
            SshError::Connect(m) => prefixed("ssh connect failed: ", m.as_str()),
            SshError::Auth(m) => prefixed("ssh auth failed: ", m.as_str()),
            SshError::Tunnel(m) => prefixed("ssh tunnel failed: ", m.as_str()),
        }
    }
}

/// Where the opening of a tunnel stands.
#[derive(Clone, Copy, Debug, PartialEq, Eq, Structural)]
pub enum TunnelPhase {
    Start,
    Connecting,
    Handshaking,
    KeyAuth,
    PasswordAuth,
    Binding,
    Open { local_port: u16 },
    Failed,
}

/// What the last step gave.
#[derive(Clone, Debug)]
pub enum TunnelEvent {
    Begin,
    TcpOpened,
    TcpFailed(String),
    /// The SSH session could not be created.
    SessionFailed(String),
    HandshakeFailed(String),
    /// The handshake is done; whether the session is already authenticated.
    HandshakeDone { authenticated: bool },
    AuthFailed(String),
    /// An authentication call returned; whether the session is authenticated.
    AuthDone { authenticated: bool },
    /// The local port could not be bound.
    BindFailed(String),
    /// The bound listener could not be set up (non-blocking mode, address).
    ListenerFailed(String),
    Bound { local_port: u16 },
}

/// What to do next.
#[derive(Clone, Debug)]
pub enum TunnelAction {
    /// Open a TCP connection to `host:port` of the SSH server.
    OpenTcp { address: String },
    /// Create the session over the connection and run the handshake.
    Handshake,
    /// Authenticate with the private key file, the SSH password as passphrase.
    KeyAuth { username: String, key_path: String, passphrase: Option<String> },
    PasswordAuth { username: String, password: String },
    /// Bind a listener on `127.0.0.1`, port chosen by the system.
    Listen,
    /// Forward each local connection to `host:port` through the session.
    Forward { host: String, port: u16 },
    Fail(SshError),
}

/// The events each phase waits for.
pub open spec fn event_fits(phase: TunnelPhase, event: TunnelEvent) -> bool {
    match phase {
        TunnelPhase::Start => event is Begin,
        TunnelPhase::Connecting => event is TcpOpened || event is TcpFailed,
        TunnelPhase::Handshaking => event is SessionFailed || event is HandshakeFailed
            || event is HandshakeDone,
        TunnelPhase::KeyAuth => event is AuthFailed || event is AuthDone,
        TunnelPhase::PasswordAuth => event is AuthFailed || event is AuthDone,
        TunnelPhase::Binding => event is BindFailed || event is ListenerFailed || event is Bound,
        _ => false,
    }
}

/// Whether `event` is one that `phase` waits for.
pub fn accepts(phase: TunnelPhase, event: &TunnelEvent) -> (b: bool)
    ensures
        b == event_fits(phase, *event),
{
    match phase {
        TunnelPhase::Start => match event {
            TunnelEvent::Begin => true,
            _ => false,
        },
        TunnelPhase::Connecting => match event {
            TunnelEvent::TcpOpened | TunnelEvent::TcpFailed(_) => true,
            _ => false,
        },
        TunnelPhase::Handshaking => match event {
            TunnelEvent::SessionFailed(_) | TunnelEvent::HandshakeFailed(_)
            | TunnelEvent::HandshakeDone { .. } => true,
            _ => false,
        },
        TunnelPhase::KeyAuth | TunnelPhase::PasswordAuth => match event {
            TunnelEvent::AuthFailed(_) | TunnelEvent::AuthDone { .. } => true,
            _ => false,
        },
        TunnelPhase::Binding => match event {
            TunnelEvent::BindFailed(_) | TunnelEvent::ListenerFailed(_) | TunnelEvent::Bound {
                ..
            } => true,
            _ => false,
        },
        _ => false,
    }
}

pub open spec fn connect_error(r: (TunnelPhase, TunnelAction), m: Seq<char>) -> bool {
    r.0 == TunnelPhase::Failed && (r.1 matches TunnelAction::Fail(SshError::Connect(s)) && s@ == m)
}

pub open spec fn auth_error(r: (TunnelPhase, TunnelAction), m: Seq<char>) -> bool {
    r.0 == TunnelPhase::Failed && (r.1 matches TunnelAction::Fail(SshError::Auth(s)) && s@ == m)
}

pub open spec fn tunnel_error(r: (TunnelPhase, TunnelAction), m: Seq<char>) -> bool {
    r.0 == TunnelPhase::Failed && (r.1 matches TunnelAction::Fail(SshError::Tunnel(s)) && s@ == m)
}

/// The key file to authenticate with: the configured path, when not empty.
pub open spec fn key_path_of(ssh: SshConfig) -> Option<Seq<char>> {
    match ssh.private_key_path {
        Some(p) => if p@.len() > 0 {
            Some(p@)
        } else {
            None
        },
        None => None,
    }
}

/// The SSH password, empty when there is none.
pub open spec fn ssh_password_of(secrets: ConnectionSecrets) -> Seq<char> {
    match secrets.ssh_password {
        Some(p) => p@,
        None => Seq::empty(),
    }
}

/// After the key step (or with no key): an authenticated session goes on to
/// the listener; otherwise the password is tried, and with no password the
/// opening fails.
pub open spec fn password_stage(
    ssh: SshConfig,
    secrets: ConnectionSecrets,
    authenticated: bool,
    r: (TunnelPhase, TunnelAction),
) -> bool {
    if authenticated {
        r.0 == TunnelPhase::Binding && r.1 is Listen
    } else if ssh_password_of(secrets).len() == 0 {
        auth_error(r, "需要提供 SSH 密码或私钥"@)
    } else {
        &&& r.0 == TunnelPhase::PasswordAuth
        &&& r.1 matches TunnelAction::PasswordAuth { username, password }
        &&& username@ == ssh.username@
        &&& password@ == ssh_password_of(secrets)
    }
}

/// One step of opening a tunnel to `remote_host:remote_port`: the phase and
/// action that follow `event` in `phase`. Key authentication comes first when
/// a key file is configured, then password authentication if the session is
/// still not authenticated.
pub open spec fn tunnel_step_ok(
    ssh: SshConfig,
    secrets: ConnectionSecrets,
    remote_host: Seq<char>,
    remote_port: u16,
    phase: TunnelPhase,
    event: TunnelEvent,
    r: (TunnelPhase, TunnelAction),
) -> bool {
    match event {
        TunnelEvent::Begin => if !ssh.enabled {
            tunnel_error(r, "SSH 未启用"@)
        } else if ssh.host@.len() == 0 || ssh.username@.len() == 0 {
            connect_error(r, "SSH 主机或用户名为空"@)
        } else {
            &&& r.0 == TunnelPhase::Connecting
            &&& r.1 matches TunnelAction::OpenTcp { address }
            &&& address@ == ssh.host@ + ":"@ + nat_text(ssh.port as nat)
        },
        TunnelEvent::TcpOpened => r.0 == TunnelPhase::Handshaking && r.1 is Handshake,
        TunnelEvent::TcpFailed(e) => connect_error(r, "无法连接 SSH 服务器："@ + e@),
        TunnelEvent::SessionFailed(e) => connect_error(r, e@),
        TunnelEvent::HandshakeFailed(e) => connect_error(r, "SSH 握手失败："@ + e@),
        TunnelEvent::HandshakeDone { authenticated } => match key_path_of(ssh) {
            Some(path) => {
                &&& r.0 == TunnelPhase::KeyAuth
                &&& r.1 matches TunnelAction::KeyAuth { username, key_path, passphrase }
                &&& username@ == ssh.username@
                &&& key_path@ == path
                &&& passphrase == secrets.ssh_password
            },
            None => password_stage(ssh, secrets, authenticated, r),
        },
        TunnelEvent::AuthFailed(e) => if phase == TunnelPhase::KeyAuth {
            auth_error(r, "SSH 密钥认证失败："@ + e@)
        } else {
            auth_error(r, "SSH 密码认证失败："@ + e@)
        },
        TunnelEvent::AuthDone { authenticated } => if phase == TunnelPhase::KeyAuth {
            password_stage(ssh, secrets, authenticated, r)
        } else if authenticated {
            r.0 == TunnelPhase::Binding && r.1 is Listen
        } else {
            auth_error(r, "SSH 认证未成功"@)
        },
        TunnelEvent::BindFailed(e) => tunnel_error(r, "无法绑定本地端口："@ + e@),
        TunnelEvent::ListenerFailed(e) => tunnel_error(r, e@),
        TunnelEvent::Bound { local_port } => {
            &&& r.0 == TunnelPhase::Open { local_port }
            &&& r.1 matches TunnelAction::Forward { host, port }
            &&& host@ == remote_host
            &&& port == remote_port
        },
    }
}

fn auth_err(m: &str) -> (r: (TunnelPhase, TunnelAction))
    ensures
        auth_error(r, m@),
{
    (TunnelPhase::Failed, TunnelAction::Fail(SshError::Auth(text_of(m))))
}

fn password_step(ssh: &SshConfig, secrets: &ConnectionSecrets, authenticated: bool) -> (r: (
    TunnelPhase,
    TunnelAction,
))
    ensures
        password_stage(*ssh, *secrets, authenticated, r),
{
    if authenticated {
        return (TunnelPhase::Binding, TunnelAction::Listen);
    }
    let pwd: String = match &secrets.ssh_password {
        Some(p) => p.clone(),
        None => String::new(),
    };
    let pc = chars_of(pwd.as_str());
    if pc.len() == 0 {
        auth_err("需要提供 SSH 密码或私钥")
    } else {
        (
            TunnelPhase::PasswordAuth,
            TunnelAction::PasswordAuth { username: ssh.username.clone(), password: pwd },
        )
    }
}

fn key_path(ssh: &SshConfig) -> (r: Option<String>)
    ensures
        match r {
            Some(p) => key_path_of(*ssh) == Some(p@),
            None => key_path_of(*ssh) is None,
        },
{
    match &ssh.private_key_path {
        Some(p) => {
            let pc = chars_of(p.as_str());
            if pc.len() > 0 {
                Some(p.clone())
            } else {
                None
            }
        },
        None => None,
    }
}

/// One step of opening a tunnel: what follows `event` in `phase`.
pub fn tunnel_step(
    ssh: &SshConfig,
    secrets: &ConnectionSecrets,
    remote_host: &str,
    remote_port: u16,
    phase: TunnelPhase,
    event: TunnelEvent,
) -> (r: (TunnelPhase, TunnelAction))
    requires
        event_fits(phase, event),
    ensures
        tunnel_step_ok(*ssh, *secrets, remote_host@, remote_port, phase, event, r),
{
    match event {
        TunnelEvent::Begin => {
            if !ssh.enabled {
                return (TunnelPhase::Failed, TunnelAction::Fail(SshError::Tunnel(text_of("SSH 未启用"))));
            }
            let h = chars_of(ssh.host.as_str());
            let u = chars_of(ssh.username.as_str());
            if h.len() == 0 || u.len() == 0 {
                return (
                    TunnelPhase::Failed,
                    TunnelAction::Fail(SshError::Connect(text_of("SSH 主机或用户名为空"))),
                );
            }
            let mut out: Vec<char> = Vec::new();
            push_str(&mut out, ssh.host.as_str());
            push_str(&mut out, ":");
            push_u64(&mut out, ssh.port as u64);
            (TunnelPhase::Connecting, TunnelAction::OpenTcp { address: string_of(&out) })
        },
        TunnelEvent::TcpOpened => (TunnelPhase::Handshaking, TunnelAction::Handshake),
        TunnelEvent::TcpFailed(e) => (
            TunnelPhase::Failed,
            TunnelAction::Fail(SshError::Connect(prefixed("无法连接 SSH 服务器：", e.as_str()))),
        ),
        TunnelEvent::SessionFailed(e) => (
            TunnelPhase::Failed,
            TunnelAction::Fail(SshError::Connect(e)),
        ),
        TunnelEvent::HandshakeFailed(e) => (
            TunnelPhase::Failed,
            TunnelAction::Fail(SshError::Connect(prefixed("SSH 握手失败：", e.as_str()))),
        ),
        TunnelEvent::HandshakeDone { authenticated } => match key_path(ssh) {
            Some(path) => (
                TunnelPhase::KeyAuth,
                TunnelAction::KeyAuth {
                    username: ssh.username.clone(),
                    key_path: path,
                    passphrase: secrets.ssh_password.clone(),
                },
            ),
            None => password_step(ssh, secrets, authenticated),
        },
        TunnelEvent::AuthFailed(e) => {
            if phase == TunnelPhase::KeyAuth {
                (
                    TunnelPhase::Failed,
                    TunnelAction::Fail(SshError::Auth(prefixed("SSH 密钥认证失败：", e.as_str()))),
                )
            } else {
                (
                    TunnelPhase::Failed,
                    TunnelAction::Fail(SshError::Auth(prefixed("SSH 密码认证失败：", e.as_str()))),
                )
            }
        },
        TunnelEvent::AuthDone { authenticated } => {
            if phase == TunnelPhase::KeyAuth {
                password_step(ssh, secrets, authenticated)
            } else if authenticated {
                (TunnelPhase::Binding, TunnelAction::Listen)
            } else {
                auth_err("SSH 认证未成功")
            }
        },
        TunnelEvent::BindFailed(e) => (
            TunnelPhase::Failed,
            TunnelAction::Fail(SshError::Tunnel(prefixed("无法绑定本地端口：", e.as_str()))),
        ),
        TunnelEvent::ListenerFailed(e) => (
            TunnelPhase::Failed,
            TunnelAction::Fail(SshError::Tunnel(e)),
        ),
        TunnelEvent::Bound { local_port } => (
            TunnelPhase::Open { local_port },
            TunnelAction::Forward { host: text_of(remote_host), port: remote_port },
        ),
    }
}

/// A tunnel listens only once the session is authenticated: the step into
/// `Binding` is always one that reported an authenticated session.
pub proof fn law_listen_only_when_authenticated(
    ssh: SshConfig,
    secrets: ConnectionSecrets,
    remote_host: Seq<char>,
    remote_port: u16,
    phase: TunnelPhase,
    event: TunnelEvent,
    r: (TunnelPhase, TunnelAction),
)
    requires
        event_fits(phase, event),
        tunnel_step_ok(ssh, secrets, remote_host, remote_port, phase, event, r),
        r.0 == TunnelPhase::Binding,
    ensures
        event matches TunnelEvent::HandshakeDone { authenticated } ==> authenticated,
        event matches TunnelEvent::AuthDone { authenticated } ==> authenticated,
        event is HandshakeDone || event is AuthDone,
{
}

/// The key comes first: after the handshake, a configured key file is always
/// tried before any password, whatever the session reports.
pub proof fn law_key_before_password(
    ssh: SshConfig,
    secrets: ConnectionSecrets,
    remote_host: Seq<char>,
    remote_port: u16,
    authenticated: bool,
    r: (TunnelPhase, TunnelAction),
)
    requires
        key_path_of(ssh) is Some,
        tunnel_step_ok(
            ssh,
            secrets,
            remote_host,
            remote_port,
            TunnelPhase::Handshaking,
            TunnelEvent::HandshakeDone { authenticated },
            r,
        ),
    ensures
        r.0 == TunnelPhase::KeyAuth,
        r.1 is KeyAuth,
{
}

/// Where a driver connects.
#[derive(Clone, Debug)]
pub enum ResolvePlan {
    /// Straight to the configured host and port.
    Direct { host: String, port: u16 },
    /// Through an SSH tunnel to the configured host and port.
    Tunnel { remote_host: String, remote_port: u16 },
}

/// SQLite files and connections without SSH are reached directly; the others
/// through a tunnel to the configured host and port.
pub fn resolve_plan(config: &ConnectionConfig) -> (p: ResolvePlan)
    ensures
        (config.kind == DatabaseKind::Sqlite || !config.ssh.enabled) ==> (p matches ResolvePlan::Direct {
            host,
            port,
        } && host@ == config.host@ && port == config.port),
        !(config.kind == DatabaseKind::Sqlite || !config.ssh.enabled) ==> (p matches ResolvePlan::Tunnel {
            remote_host,
            remote_port,
        } && remote_host@ == config.host@ && remote_port == config.port),
{
    if config.kind == DatabaseKind::Sqlite || !config.ssh.enabled {
        ResolvePlan::Direct { host: config.host.clone(), port: config.port }
    } else {
        ResolvePlan::Tunnel { remote_host: config.host.clone(), remote_port: config.port }
    }
}

/// The address a driver uses through an open tunnel: `127.0.0.1` and the
/// tunnel's local port.
pub fn tunneled_address(local_port: u16) -> (r: (String, u16))
    ensures
        r.0@ == "127.0.0.1"@,
        r.1 == local_port,
{
    (text_of("127.0.0.1"), local_port)
}

/// Relaying through the tunnel stops when a read succeeds with nothing (the
/// peer closed) or the write of what was read fails; a failed read goes on.
pub fn relay_stops(read: Option<usize>, write_failed: bool) -> (stop: bool)
    ensures
        stop == (read matches Some(n) && (n == 0 || write_failed)),
{
    match read {
        Some(n) => n == 0 || write_failed,
        None => false,
    }
}

} // verus!
