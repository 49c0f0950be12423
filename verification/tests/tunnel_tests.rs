use simplsource::tunnel::{accepts, relay_stops, resolve_plan, tunnel_step, tunneled_address, ResolvePlan, SshError, TunnelAction, TunnelEvent, TunnelPhase};
use simplsource::types::{ConnectionConfig, ConnectionSecrets, DatabaseKind, SshConfig};

fn ssh(enabled: bool, key: Option<&str>) -> SshConfig {
    SshConfig { enabled, host: "bastion".into(), port: 2222, username: "ops".into(), private_key_path: key.map(|k| k.to_string()) }
}

fn secrets(pw: Option<&str>) -> ConnectionSecrets {
    ConnectionSecrets { password: None, ssh_password: pw.map(|p| p.to_string()) }
}

fn step(s: &SshConfig, sec: &ConnectionSecrets, phase: TunnelPhase, ev: TunnelEvent) -> (TunnelPhase, TunnelAction) {
    assert!(accepts(phase, &ev));
    tunnel_step(s, sec, "db.internal", 5432, phase, ev)
}

#[test]
fn password_path_opens_a_tunnel() {
    let s = ssh(true, None);
    let sec = secrets(Some("pw"));
    let (p, a) = step(&s, &sec, TunnelPhase::Start, TunnelEvent::Begin);
    assert_eq!(p, TunnelPhase::Connecting);
    assert!(matches!(a, TunnelAction::OpenTcp { address } if address == "bastion:2222"));
    let (p, a) = step(&s, &sec, p, TunnelEvent::TcpOpened);
    assert!(matches!(a, TunnelAction::Handshake));
    let (p, a) = step(&s, &sec, p, TunnelEvent::HandshakeDone { authenticated: false });
    assert_eq!(p, TunnelPhase::PasswordAuth);
    assert!(matches!(a, TunnelAction::PasswordAuth { username, password } if username == "ops" && password == "pw"));
    let (p, a) = step(&s, &sec, p, TunnelEvent::AuthDone { authenticated: true });
    assert_eq!(p, TunnelPhase::Binding);
    assert!(matches!(a, TunnelAction::Listen));
    let (p, a) = step(&s, &sec, p, TunnelEvent::Bound { local_port: 40001 });
    assert_eq!(p, TunnelPhase::Open { local_port: 40001 });
    assert!(matches!(a, TunnelAction::Forward { host, port } if host == "db.internal" && port == 5432));
}

#[test]
fn key_comes_before_password() {
    let s = ssh(true, Some("/home/ops/.ssh/id"));
    let sec = secrets(Some("phrase"));
    let (p, a) = step(&s, &sec, TunnelPhase::Handshaking, TunnelEvent::HandshakeDone { authenticated: false });
    assert_eq!(p, TunnelPhase::KeyAuth);
    assert!(matches!(a, TunnelAction::KeyAuth { key_path, passphrase, .. } if key_path == "/home/ops/.ssh/id" && passphrase.as_deref() == Some("phrase")));
    let (p, _) = step(&s, &sec, p, TunnelEvent::AuthDone { authenticated: true });
    assert_eq!(p, TunnelPhase::Binding);
    let (p, a) = step(&s, &sec, TunnelPhase::KeyAuth, TunnelEvent::AuthDone { authenticated: false });
    assert_eq!(p, TunnelPhase::PasswordAuth);
    assert!(matches!(a, TunnelAction::PasswordAuth { .. }));
    let empty_key = ssh(true, Some(""));
    let (p, _) = step(&empty_key, &sec, TunnelPhase::Handshaking, TunnelEvent::HandshakeDone { authenticated: false });
    assert_eq!(p, TunnelPhase::PasswordAuth);
}

fn failure(a: TunnelAction) -> SshError {
    match a {
        TunnelAction::Fail(e) => e,
        _ => panic!("failure expected"),
    }
}

#[test]
fn refusals() {
    let sec = secrets(None);
    let (p, a) = step(&ssh(false, None), &sec, TunnelPhase::Start, TunnelEvent::Begin);
    assert_eq!(p, TunnelPhase::Failed);
    assert!(matches!(failure(a), SshError::Tunnel(m) if m == "SSH 未启用"));
    let mut no_host = ssh(true, None);
    no_host.host = String::new();
    let (_, a) = step(&no_host, &sec, TunnelPhase::Start, TunnelEvent::Begin);
    assert!(matches!(failure(a), SshError::Connect(m) if m == "SSH 主机或用户名为空"));
    let (_, a) = step(&ssh(true, None), &sec, TunnelPhase::Handshaking, TunnelEvent::HandshakeDone { authenticated: false });
    assert!(matches!(failure(a), SshError::Auth(m) if m == "需要提供 SSH 密码或私钥"));
    let (_, a) = step(&ssh(true, None), &secrets(Some("x")), TunnelPhase::PasswordAuth, TunnelEvent::AuthDone { authenticated: false });
    assert!(matches!(failure(a), SshError::Auth(m) if m == "SSH 认证未成功"));
}

#[test]
fn step_failures_carry_their_messages() {
    let s = ssh(true, None);
    let sec = secrets(None);
    let e = failure(step(&s, &sec, TunnelPhase::Connecting, TunnelEvent::TcpFailed("refused".into())).1);
    assert!(matches!(&e, SshError::Connect(m) if m == "无法连接 SSH 服务器：refused"));
    assert_eq!(e.describe(), "ssh connect failed: 无法连接 SSH 服务器：refused");
    let e = failure(step(&s, &sec, TunnelPhase::Handshaking, TunnelEvent::HandshakeFailed("kex".into())).1);
    assert!(matches!(e, SshError::Connect(m) if m == "SSH 握手失败：kex"));
    let e = failure(step(&s, &sec, TunnelPhase::Handshaking, TunnelEvent::SessionFailed("oom".into())).1);
    assert!(matches!(e, SshError::Connect(m) if m == "oom"));
    let e = failure(step(&s, &sec, TunnelPhase::KeyAuth, TunnelEvent::AuthFailed("denied".into())).1);
    assert!(matches!(&e, SshError::Auth(m) if m == "SSH 密钥认证失败：denied"));
    assert_eq!(e.describe(), "ssh auth failed: SSH 密钥认证失败：denied");
    let e = failure(step(&s, &sec, TunnelPhase::PasswordAuth, TunnelEvent::AuthFailed("denied".into())).1);
    assert!(matches!(e, SshError::Auth(m) if m == "SSH 密码认证失败：denied"));
    let e = failure(step(&s, &sec, TunnelPhase::Binding, TunnelEvent::BindFailed("in use".into())).1);
    assert!(matches!(&e, SshError::Tunnel(m) if m == "无法绑定本地端口：in use"));
    assert_eq!(e.describe(), "ssh tunnel failed: 无法绑定本地端口：in use");
    let e = failure(step(&s, &sec, TunnelPhase::Binding, TunnelEvent::ListenerFailed("nb".into())).1);
    assert!(matches!(e, SshError::Tunnel(m) if m == "nb"));
}

#[test]
fn phases_accept_only_their_events() {
    assert!(accepts(TunnelPhase::Start, &TunnelEvent::Begin));
    assert!(!accepts(TunnelPhase::Start, &TunnelEvent::TcpOpened));
    assert!(!accepts(TunnelPhase::Failed, &TunnelEvent::Begin));
    assert!(!accepts(TunnelPhase::Open { local_port: 1 }, &TunnelEvent::Begin));
    assert!(accepts(TunnelPhase::Binding, &TunnelEvent::Bound { local_port: 1 }));
}

#[test]
fn where_drivers_connect() {
    let mut c = ConnectionConfig::with_identity("x", DatabaseKind::Postgres, 1, "t");
    c.host = "db".into();
    c.port = 5433;
    assert!(matches!(resolve_plan(&c), ResolvePlan::Direct { host, port } if host == "db" && port == 5433));
    c.ssh.enabled = true;
    assert!(matches!(resolve_plan(&c), ResolvePlan::Tunnel { remote_host, remote_port } if remote_host == "db" && remote_port == 5433));
    c.kind = DatabaseKind::Sqlite;
    assert!(matches!(resolve_plan(&c), ResolvePlan::Direct { .. }));
    assert_eq!(tunneled_address(40000), ("127.0.0.1".to_string(), 40000));
}

#[test]
fn relaying_stops() {
    assert!(relay_stops(Some(0), false));
    assert!(relay_stops(Some(5), true));
    assert!(!relay_stops(Some(5), false));
    assert!(!relay_stops(None, true));
}
