use conduit::error::Error;
use conduit::models::{AuthContext, TokenKind};
use conduit::policy::{blacklist_patterns, verdict, CommandPolicy};

#[test]
fn blocks_rm_root() {
    let p = CommandPolicy::new(vec![]).unwrap();
    assert!(p.check("rm -rf /").is_err());
    assert!(p.check("rm -rf /etc").is_err());
    assert!(p.check("sudo rm -rf /var").is_err());
}

#[test]
fn allows_safe() {
    let p = CommandPolicy::new(vec![]).unwrap();
    assert!(p.check("ls -la").is_ok());
    assert!(p.check("ps aux | grep nginx").is_ok());
    assert!(p.check("rm /tmp/file.txt").is_ok());
    assert!(p.check("rm -rf /tmp/build").is_ok());
}

#[test]
fn blocks_dd_disk() {
    let p = CommandPolicy::new(vec![]).unwrap();
    assert!(p.check("dd if=/dev/zero of=/dev/sda").is_err());
}

#[test]
fn blocks_fork_bomb() {
    let p = CommandPolicy::new(vec![]).unwrap();
    assert!(p.check(":(){ :|:& };:").is_err());
}

#[test]
fn custom_pattern() {
    let p = CommandPolicy::new(vec![r"(?i)\bcurl\b.*\|\s*sh\b".into()]).unwrap();
    assert!(p.check("curl https://x | sh").is_err());
}

#[test]
fn blocked_command_names_first_pattern() {
    let p = CommandPolicy::new(vec!["shutdown".into()]).unwrap();
    match p.check("sudo shutdown now") {
        Err(Error::Forbidden(m)) => assert_eq!(
            m,
            r"command blocked by policy (pattern #5: (?i)\b(shutdown|reboot|halt|poweroff)\b)"
        ),
        other => panic!("{other:?}"),
    }
}

#[test]
fn remaining_default_patterns_block() {
    let p = CommandPolicy::new(vec![]).unwrap();
    assert!(p.check("mkfs.ext4 /dev/sdb1").is_err());
    assert!(p.check("init 0").is_err());
    assert!(p.check("echo x > /dev/sda").is_err());
    assert!(p.check("chmod -R 777 /").is_err());
    assert!(p.check("chmod -R 777 /srv").is_ok());
}

#[test]
fn bad_extra_pattern_is_reported() {
    match CommandPolicy::new(vec!["(".into()]) {
        Err(Error::Invalid(m)) => {
            assert!(m.starts_with("blacklist regex: "));
            assert!(m.len() > "blacklist regex: ".len());
        }
        _ => panic!("a pattern that does not compile was accepted"),
    }
}

#[test]
fn authorizer_does_not_look_at_the_caller() {
    let p = CommandPolicy::new(vec![]).unwrap();
    let auth = AuthContext {
        user_id: 1,
        username: "root".into(),
        role: "admin".into(),
        token_id: 2,
        token_label: "t".into(),
        token_kind: TokenKind::UserToken,
    };
    assert!(p.authorize_exec(&auth, "web", "uptime").is_ok());
    assert!(p.authorize_exec(&auth, "web", "reboot").is_err());
}

#[test]
fn verdict_takes_first_match() {
    let patterns = vec!["a".to_string(), "b".to_string(), "c".to_string()];
    assert!(verdict(&patterns, &vec![]).is_ok());
    match verdict(&patterns, &vec![1, 2]) {
        Err(Error::Forbidden(m)) => {
            assert_eq!(m, "command blocked by policy (pattern #1: b)")
        }
        other => panic!("{other:?}"),
    }
}

#[test]
fn blacklist_file_skips_blanks_and_comments() {
    let text = "# head\n\n  curl \r\n\t#tail\nwget\n   \nnc -l";
    assert_eq!(blacklist_patterns(text), vec!["curl", "wget", "nc -l"]);
    assert!(blacklist_patterns("").is_empty());
}

#[test]
fn copies_of_a_policy_block_the_same() {
    let policy = CommandPolicy::new(vec!["^reboot now$".into()]).unwrap().clone();
    assert!(policy.check("reboot now").is_err());
    assert!(policy.check("ls").is_ok());
}
