use conduit::audit::AuditCtx;
use conduit::clock::Timestamp;
use conduit::error::Error;
use conduit::models::{AuthKind, ResolvedServer};
use conduit::session::{
    channel_error, open_session_at, CappedBuffer, ChainStep, ChannelEvent, ChannelFailure, DialAction, DialReply,
    ExecControl, ListedFile, SshSession, MAX_OUTPUT_BYTES,
};
use conduit::sshkey::{
    applicable_passphrase, attempted, auth_outcome, authenticate, load_private_key, AuthReply,
    AuthRequest,
};
use russh::keys::ssh_key::certificate::Builder;
use russh::keys::ssh_key::private::{Ed25519Keypair, PrivateKey};
use russh::keys::ssh_key::{Certificate, Cipher, Kdf, LineEnding};

fn hop(alias: &str, secret: &[u8]) -> ResolvedServer {
    ResolvedServer {
        alias: alias.into(),
        host: format!("{alias}.example"),
        port: 22,
        username: "ops".into(),
        auth_kind: AuthKind::Password,
        secret: secret.to_vec(),
        key_passphrase: None,
        certificate: None,
        jump_host_alias: None,
    }
}

fn key() -> PrivateKey {
    PrivateKey::from(Ed25519Keypair::from_seed(&[9u8; 32]))
}

fn pem(key: &PrivateKey) -> String {
    key.to_openssh(LineEnding::LF).unwrap().to_string()
}

fn locked(key: &PrivateKey, passphrase: &[u8]) -> PrivateKey {
    let kdf = Kdf::Bcrypt { salt: vec![3u8; 16], rounds: 1 };
    key.encrypt_with(Cipher::Aes256Ctr, kdf, 7, passphrase).unwrap()
}

fn key_hop(pem: &str, passphrase: Option<&[u8]>) -> ResolvedServer {
    let mut h = hop("db", pem.as_bytes());
    h.auth_kind = AuthKind::Key;
    h.key_passphrase = passphrase.map(|p| p.to_vec());
    h
}

fn failure(e: Error) -> String {
    e.to_string()
}

#[test]
fn plain_key_is_loaded() {
    let text = pem(&key());
    let loaded = load_private_key(&key_hop(&text, None)).unwrap();
    assert_eq!(PrivateKey::from_openssh(&loaded).unwrap(), key());
}

#[test]
fn encrypted_key_is_opened_with_its_passphrase() {
    let sealed = locked(&key(), b"open sesame");
    assert!(sealed.is_encrypted());
    let loaded = load_private_key(&key_hop(&pem(&sealed), Some(b"open sesame"))).unwrap();
    let opened = PrivateKey::from_openssh(&loaded).unwrap();
    assert!(!opened.is_encrypted());
    assert_eq!(opened.key_data(), key().key_data());
}

#[test]
fn wrong_passphrase_is_an_error() {
    let sealed = locked(&key(), b"open sesame");
    let e = load_private_key(&key_hop(&pem(&sealed), Some(b"close"))).unwrap_err();
    assert!(failure(e).starts_with("invalid input: decrypt key: "));
}

#[test]
fn encrypted_key_without_passphrase_stays_encrypted() {
    let sealed = locked(&key(), b"open sesame");
    for passphrase in [None, Some(&[0xffu8, 0xfe][..])] {
        let loaded = load_private_key(&key_hop(&pem(&sealed), passphrase)).unwrap();
        assert!(PrivateKey::from_openssh(&loaded).unwrap().is_encrypted());
    }
}

#[test]
fn passphrase_of_a_plain_key_is_not_used() {
    let loaded = load_private_key(&key_hop(&pem(&key()), Some(b"unused"))).unwrap();
    assert_eq!(PrivateKey::from_openssh(&loaded).unwrap(), key());
}

#[test]
fn passphrases_that_apply() {
    assert_eq!(applicable_passphrase(true, &Some(b"p".to_vec())), Some(b"p".to_vec()));
    assert_eq!(applicable_passphrase(false, &Some(b"p".to_vec())), None);
    assert_eq!(applicable_passphrase(true, &Some(vec![0xff])), None);
    assert_eq!(applicable_passphrase(true, &None), None);
}

#[test]
fn unreadable_keys_are_errors() {
    let mut h = key_hop("no key", None);
    assert!(failure(load_private_key(&h).unwrap_err()).starts_with("invalid input: parse key: "));
    h.secret = vec![0xff, 0xfe];
    assert_eq!(failure(load_private_key(&h).unwrap_err()), "invalid input: key not utf8");
}

#[test]
fn attempts_name_their_step() {
    assert_eq!(attempted("parse key: ", Ok("k".into())).unwrap(), "k");
    let e = attempted("parse key: ", Err("bad".into())).unwrap_err();
    assert_eq!(failure(e), "invalid input: parse key: bad");
}

#[test]
fn password_is_offered() {
    match authenticate(&hop("web", b"pw")).unwrap() {
        AuthRequest::Password { username, password } => {
            assert_eq!((username.as_str(), password.as_str()), ("ops", "pw"))
        }
        _ => panic!("no password offered"),
    }
    let e = authenticate(&hop("web", &[0xff])).err().unwrap();
    assert_eq!(failure(e), "invalid input: password not utf8");
}

#[test]
fn key_is_offered() {
    match authenticate(&key_hop(&pem(&key()), None)).unwrap() {
        AuthRequest::PublicKey { username, key: text } => {
            assert_eq!(username, "ops");
            assert_eq!(PrivateKey::from_openssh(&text).unwrap(), key());
        }
        _ => panic!("no key offered"),
    }
}

#[test]
fn certificate_is_offered_with_its_key() {
    let ca = PrivateKey::from(Ed25519Keypair::from_seed(&[5u8; 32]));
    let mut builder = Builder::new([1u8; 16], key().public_key(), 0, 4_000_000_000).unwrap();
    builder.all_principals_valid().unwrap();
    let cert = builder.sign(&ca).unwrap();
    let mut h = key_hop(&pem(&key()), None);
    h.auth_kind = AuthKind::Cert;
    h.certificate = Some(format!("\n {}\n", cert.to_openssh().unwrap()).into_bytes());
    match authenticate(&h).unwrap() {
        AuthRequest::Certificate { username, key: text, certificate } => {
            assert_eq!(username, "ops");
            assert_eq!(PrivateKey::from_openssh(&text).unwrap(), key());
            assert_eq!(Certificate::from_openssh(&certificate).unwrap(), cert);
        }
        _ => panic!("no certificate offered"),
    }
}

#[test]
fn certificate_errors() {
    let mut h = key_hop(&pem(&key()), None);
    h.auth_kind = AuthKind::Cert;
    let e = authenticate(&h).err().unwrap();
    assert_eq!(failure(e), "invalid input: cert auth without certificate");
    h.certificate = Some(vec![0xff]);
    let e = authenticate(&h).err().unwrap();
    assert_eq!(failure(e), "invalid input: certificate not utf8");
    h.certificate = Some(b"nothing".to_vec());
    let e = authenticate(&h).err().unwrap();
    assert!(failure(e).starts_with("invalid input: parse certificate: "));
}

#[test]
fn answers_of_a_hop() {
    let h = hop("web", b"pw");
    assert!(auth_outcome(&h, AuthReply::Accepted).is_ok());
    let e = auth_outcome(&h, AuthReply::Rejected).unwrap_err();
    assert_eq!(failure(e), "unauthorized: ssh authentication rejected for ops@web.example");
    let e = auth_outcome(&h, AuthReply::RsaHashFailed("x".into())).unwrap_err();
    assert_eq!(failure(e), "other: rsa hash: x");
    let e = auth_outcome(&h, AuthReply::Failed("x".into())).unwrap_err();
    assert_eq!(failure(e), "other: auth: x");
}

#[test]
fn chain_of_two_hops_is_connected() {
    let chain = vec![hop("jump", b"a"), hop("web", b"b")];
    let d = SshSession::connect_chain(7, 8, chain).unwrap();
    match d.action() {
        DialAction::Connect { host, port } => assert_eq!((host.as_str(), port), ("jump.example", 22)),
        _ => panic!("the first hop is not connected directly"),
    }
    let (a, q) = d.reached(DialReply::Connected).ok().unwrap();
    assert!(matches!(q, AuthRequest::Password { password, .. } if password == "a"));
    let d = match a.answered(AuthReply::Accepted).ok().unwrap() {
        ChainStep::Dial(d) => d,
        ChainStep::Established(_) => panic!("the target was not reached"),
    };
    match d.action() {
        DialAction::Tunnel { via, host, port } => {
            assert_eq!((via, host.as_str(), port), (0, "web.example", 22))
        }
        _ => panic!("the second hop is not tunneled"),
    }
    let (a, _) = d.reached(DialReply::Connected).ok().unwrap();
    match a.answered(AuthReply::Accepted).ok().unwrap() {
        ChainStep::Established(s) => {
            assert!(s.id.starts_with("cs_"));
            assert_eq!(s.id.len(), 35);
            assert_eq!((s.user_id, s.token_id), (7, 8));
            assert_eq!(s.server_alias, "web");
            assert_eq!(s.hop_path, vec!["jump", "web"]);
            assert_eq!(s.last_used_epoch, s.created_at.secs);
        }
        ChainStep::Dial(_) => panic!("the session is not open"),
    }
}

#[test]
fn chain_failures() {
    let e = SshSession::connect_chain(1, 1, vec![]).err().unwrap();
    assert_eq!(failure(e), "invalid input: empty chain");
    let dial = || SshSession::connect_chain(1, 1, vec![hop("web", b"b")]).unwrap();
    let e = dial().reached(DialReply::ConnectFailed("x".into())).err().unwrap();
    assert_eq!(failure(e), "other: ssh connect web.example: x");
    let e = dial().reached(DialReply::TunnelFailed("x".into())).err().unwrap();
    assert_eq!(failure(e), "other: direct-tcpip to web.example:22: x");
    let e = dial().reached(DialReply::HandshakeFailed("x".into())).err().unwrap();
    assert_eq!(failure(e), "other: tunneled handshake to web.example: x");
    let (a, _) = dial().reached(DialReply::Connected).ok().unwrap();
    assert!(a.answered(AuthReply::Rejected).is_err());
}

#[test]
fn hops_are_closed_from_the_target_outwards() {
    assert_eq!(SshSession::close(3), vec![2, 1, 0]);
    assert!(SshSession::close(0).is_empty());
}

#[test]
fn one_shot_command_is_captured() {
    let mut run = SshSession::exec("ls", 60);
    assert_eq!(run.plan(), ("ls", 60));
    assert_eq!(run.step(&ChannelEvent::Data(b"he".to_vec())), ExecControl::Continue);
    assert_eq!(run.step(&ChannelEvent::Data(b"llo".to_vec())), ExecControl::Continue);
    run.step(&ChannelEvent::ExtendedData(1, b"oops".to_vec()));
    run.step(&ChannelEvent::ExtendedData(2, b"elsewhere".to_vec()));
    run.step(&ChannelEvent::Other);
    run.step(&ChannelEvent::ExitStatus(3));
    assert_eq!(run.step(&ChannelEvent::Close), ExecControl::Finish);
    let out = run.finish_after(12_999_999);
    assert_eq!((out.stdout.as_str(), out.stderr.as_str()), ("hello", "oops"));
    assert_eq!((out.exit_code, out.duration_ms, out.truncated), (3, 12, false));
}

#[test]
fn command_that_reports_no_status_ends_with_minus_one() {
    let mut run = SshSession::exec("ls", 60);
    assert_eq!(run.step(&ChannelEvent::Ended), ExecControl::CloseAndFinish);
    let out = run.finish();
    assert_eq!((out.exit_code, out.stdout.as_str(), out.truncated), (-1, "", false));
    assert!(out.duration_ms >= 0);
}

#[test]
fn invalid_utf8_output_is_replaced() {
    let mut run = SshSession::exec("cat", 60);
    run.step(&ChannelEvent::Data(vec![b'a', 0xff, b'b']));
    assert_eq!(run.finish_after(0).stdout, "a\u{fffd}b");
}

#[test]
fn long_output_is_cut() {
    let mut run = SshSession::exec("cat", 60);
    run.step(&ChannelEvent::Data(vec![b'a'; MAX_OUTPUT_BYTES]));
    run.step(&ChannelEvent::Data(vec![]));
    run.step(&ChannelEvent::ExtendedData(1, vec![b'e'; 10]));
    let mut cut = SshSession::exec("cat", 60);
    cut.step(&ChannelEvent::Data(vec![b'a'; MAX_OUTPUT_BYTES - 1]));
    cut.step(&ChannelEvent::Data(b"bcd".to_vec()));
    cut.step(&ChannelEvent::Data(b"e".to_vec()));
    let whole = run.finish_after(0);
    assert_eq!(whole.stdout.len(), MAX_OUTPUT_BYTES);
    assert!(!whole.truncated);
    let out = cut.finish_after(0);
    assert_eq!(out.stdout.len(), MAX_OUTPUT_BYTES);
    assert!(out.stdout.ends_with("ab"));
    assert!(out.truncated);
}

#[test]
fn command_timeout() {
    let run = SshSession::exec("sleep", 5);
    assert_eq!(failure(run.timed_out()), "invalid input: exec timeout after 5s");
}

#[test]
fn channel_failures() {
    let x = || "x".to_string();
    let text = |f| failure(channel_error(f));
    assert_eq!(text(ChannelFailure::SessionClosed), "invalid input: session closed");
    assert_eq!(text(ChannelFailure::OpenChannel(x())), "other: open channel: x");
    assert_eq!(text(ChannelFailure::Exec(x())), "other: exec: x");
    assert_eq!(text(ChannelFailure::Subsystem(x())), "other: subsystem: x");
    assert_eq!(text(ChannelFailure::SftpInit(x())), "other: sftp init: x");
    assert_eq!(text(ChannelFailure::ReadDir(x())), "other: readdir: x");
    assert_eq!(text(ChannelFailure::Open(x())), "other: open: x");
    assert_eq!(text(ChannelFailure::Read(x())), "other: read: x");
    assert_eq!(text(ChannelFailure::Write(x())), "other: write: x");
}

#[test]
fn capped_buffer_keeps_the_beginning() {
    let mut b = CappedBuffer::new(4);
    assert!(!b.push(b"abcd"));
    assert!(!b.push(b""));
    assert!(b.push(b"e"));
    assert_eq!(b.into_parts(), (b"abcd".to_vec(), true));
    let b = CappedBuffer::new(0);
    assert_eq!(b.into_parts(), (vec![], false));
}

#[test]
fn download_stops_at_the_end_or_the_cap() {
    let mut d = SshSession::sftp_download(5);
    assert!(d.chunk(b"abc"));
    assert!(!d.chunk(b""));
    assert_eq!(d.finish(), (b"abc".to_vec(), false));
    let mut d = SshSession::sftp_download(5);
    assert!(d.chunk(b"abcde"));
    assert!(!d.chunk(b"f"));
    assert_eq!(d.finish(), (b"abcde".to_vec(), true));
    let mut d = SshSession::sftp_download(2);
    assert!(!d.chunk(b"abc"));
    assert_eq!(d.finish(), (b"ab".to_vec(), true));
}

#[test]
fn directory_entries() {
    let listed = vec![
        ListedFile { name: "a".into(), is_dir: true, size: None, permissions: None },
        ListedFile { name: "b".into(), is_dir: false, size: Some(9), permissions: Some(0o644) },
    ];
    let e = SshSession::sftp_list(Ok(listed)).unwrap();
    assert_eq!(e.len(), 2);
    assert_eq!((e[0].name.as_str(), e[0].is_dir, e[0].size, e[0].mode), ("a", true, 0, 0));
    assert_eq!((e[1].name.as_str(), e[1].is_dir, e[1].size, e[1].mode), ("b", false, 9, 0o644));
    assert!(SshSession::sftp_list(Err(ChannelFailure::ReadDir("x".into()))).is_err());
}

#[test]
fn upload_reports_its_length() {
    assert_eq!(SshSession::sftp_upload(b"abc", Ok(())).unwrap(), 3);
    let e = SshSession::sftp_upload(b"abc", Err(ChannelFailure::Write("x".into()))).unwrap_err();
    assert_eq!(failure(e), "other: write: x");
}

fn established(secret: &[u8]) -> SshSession {
    let d = SshSession::connect_chain(7, 8, vec![hop("web", secret)]).unwrap();
    let (a, _) = d.reached(DialReply::Connected).ok().unwrap();
    match a.answered(AuthReply::Accepted).ok().unwrap() {
        ChainStep::Established(s) => s,
        ChainStep::Dial(_) => panic!("the session is not open"),
    }
}

#[test]
fn sessions_hold_no_credentials() {
    let (a, b) = (established(b"one"), established(b"another"));
    assert_eq!((a.user_id, a.token_id), (b.user_id, b.token_id));
    assert_eq!((a.server_alias, a.hop_path), (b.server_alias, b.hop_path));
    assert_ne!(a.id, b.id);
}

#[test]
fn sessions_are_dated_when_they_open() {
    let now = Timestamp { secs: 1_700_000_000, nanos: 5 };
    let chain = vec![hop("bastion", b"x"), hop("web", b"y")];
    let s = open_session_at(7, 8, &chain, "cs_1".into(), now);
    assert_eq!((s.id.as_str(), s.user_id, s.token_id), ("cs_1", 7, 8));
    assert_eq!((s.created_at, s.last_used_epoch), (now, 1_700_000_000));
    assert_eq!(s.server_alias, "web");
    assert_eq!(s.hop_path, ["bastion", "web"]);
    assert!(established(b"x").last_used_epoch > 1_600_000_000);
}

#[test]
fn jobs_are_dated_when_they_start() {
    let ctx = AuditCtx {
        user_id: 7,
        token_id: 8,
        server_alias: "web".into(),
        session_id: "cs_1".into(),
    };
    let now = Timestamp { secs: 1_700_000_000, nanos: 5 };
    let job = SshSession::job_started_at("job_1".into(), &ctx, "top -b".into(), now);
    assert_eq!((job.started_at, job.command.as_str()), (now, "top -b"));
    assert_eq!((job.inner.out.total(), job.inner.err.total()), (0, 0));
}

#[test]
fn hops_can_be_copied() {
    let h = key_hop("pem", Some(b"pass")).clone();
    assert_eq!((h.alias.as_str(), h.secret.as_slice()), ("db", &b"pem"[..]));
    assert_eq!(h.key_passphrase.as_deref(), Some(&b"pass"[..]));
}

#[test]
fn refusals_tell_no_credentials() {
    let text = |secret: &[u8]| {
        failure(auth_outcome(&hop("web", secret), AuthReply::Rejected).unwrap_err())
    };
    assert_eq!(text(b"one"), text(b"another"));
    assert!(!text(b"hunter").contains("hunter"));
}

#[test]
fn key_with_other_line_endings_is_rewritten() {
    let text = pem(&key());
    let loaded = load_private_key(&key_hop(&text.replace('\n', "\r\n"), None)).unwrap();
    assert_eq!(loaded, text);
}
