use conduit::admin::{entry_line, entry_line_at, is_showable, shorten, show_entry};
use conduit::audit::{build_entry, log, AuditCtx, AuditDetail};
use conduit::clock::Timestamp;
use conduit::crypto::{sha256_hex, MasterKey};
use conduit::error::Error;
use conduit::models::{AuditEntry, AuditQuery, AuthKind, TokenKind};
use conduit::store::{
    audit_entries, audit_statement, database_url, legacy_statement, list_statement, parse_ts,
    parsed_or, record_statement, resolve_statement, token_statement, used_statement, AuditRow,
    Bind, DibsStore, LegacyTokenRow, McpTokenRow, ServerRow, SummaryRow, TokenStep,
};

const NOW: Timestamp = Timestamp { secs: 5, nanos: 6 };

fn user_row() -> McpTokenRow {
    McpTokenRow {
        id: 3,
        user_id: 9,
        label: "laptop".into(),
        username: "ann".into(),
        role: "ops".into(),
    }
}

fn legacy_row() -> LegacyTokenRow {
    LegacyTokenRow { id: 4, username: "bob".into(), role: "viewer".into() }
}

fn entry() -> AuditEntry {
    AuditEntry {
        id: "i".into(),
        user_id: 1,
        token_id: 2,
        server_alias: "web".into(),
        session_id: "cs_1".into(),
        event: "exec".into(),
        command: Some("ls".into()),
        stdout: Some("a\nb".into()),
        stderr: Some("".into()),
        exit_code: Some(0),
        duration_ms: None,
        error: Some("e".into()),
        created_at: Timestamp { secs: 1_700_000_000, nanos: 123_000_000 },
    }
}

fn server_row(key: &MasterKey) -> ServerRow {
    ServerRow {
        alias: "web".into(),
        host: "web.example".into(),
        port: 2222,
        username: "ops".into(),
        auth_kind: "KEY".into(),
        secret_enc: key.encrypt(b"pem").unwrap(),
        key_passphrase_enc: Some(key.encrypt(b"pass").unwrap()),
        certificate_enc: None,
        jump_host_alias: Some("edge".into()),
    }
}

#[test]
fn urls_of_databases() {
    assert_eq!(database_url("./conduit.db"), "sqlite://./conduit.db");
}

#[test]
fn empty_tokens_are_refused() {
    for t in ["", "  \t"] {
        let e = DibsStore::validate(t).unwrap_err();
        assert_eq!(e.to_string(), "unauthorized: empty token");
        let e = DibsStore::identify(t, Ok(Some(user_row())), Ok(None)).unwrap_err();
        assert_eq!(e.to_string(), "unauthorized: empty token");
    }
}

#[test]
fn tokens_are_looked_up_by_hash() {
    assert_eq!(DibsStore::validate(" abc ").unwrap(), sha256_hex("abc"));
}

#[test]
fn user_tokens_come_first() {
    let a = DibsStore::identify("t", Ok(Some(user_row())), Ok(Some(legacy_row()))).unwrap();
    assert_eq!((a.user_id, a.token_id, a.token_kind), (9, 3, TokenKind::UserToken));
    assert_eq!((a.username.as_str(), a.role.as_str()), ("ann", "ops"));
    assert_eq!(a.token_label, "laptop");
    match DibsStore::user_token(Ok(Some(user_row()))) {
        TokenStep::Found { auth, token_id, used_at } => {
            assert_eq!((auth.user_id, token_id), (9, 3));
            assert!(used_at.ends_with("+00:00"));
        }
        TokenStep::TryLegacy => panic!("the token was not found"),
    }
}

#[test]
fn legacy_tokens_are_the_fallback() {
    for missing in [Ok(None), Err("no such table".to_string())] {
        let a = DibsStore::identify("t", missing, Ok(Some(legacy_row()))).unwrap();
        assert_eq!((a.user_id, a.token_id, a.token_kind), (4, 0, TokenKind::Legacy));
        assert_eq!((a.username.as_str(), a.token_label.as_str()), ("bob", "legacy"));
    }
}

#[test]
fn unknown_tokens_are_refused() {
    let e = DibsStore::identify("t", Ok(None), Ok(None)).unwrap_err();
    assert_eq!(e.to_string(), "unauthorized: invalid or revoked token");
    let e = DibsStore::identify("t", Ok(None), Err("locked".into())).unwrap_err();
    assert_eq!(e.to_string(), "db: locked");
}

#[test]
fn catalog_lists_rows() {
    let rows = vec![SummaryRow { alias: "a".into(), description: None, tags: Some("t".into()) }];
    let all = DibsStore::list(Ok(rows)).unwrap();
    assert_eq!((all[0].alias.as_str(), all[0].tags.as_deref()), ("a", Some("t")));
    assert_eq!(DibsStore::list(Err("x".into())).unwrap_err().to_string(), "db: x");
}

#[test]
fn server_is_resolved_with_its_secrets() {
    let key = MasterKey::from_hex(&"11".repeat(32)).unwrap();
    let store = DibsStore::new(key.clone());
    let s = store.resolve("web", Ok(Some(server_row(&key)))).unwrap();
    assert_eq!((s.alias.as_str(), s.host.as_str(), s.port), ("web", "web.example", 2222));
    assert_eq!(s.auth_kind, AuthKind::Key);
    assert_eq!(s.secret, b"pem".to_vec());
    assert_eq!(s.key_passphrase, Some(b"pass".to_vec()));
    assert_eq!(s.certificate, None);
    assert_eq!(s.jump_host_alias.as_deref(), Some("edge"));
    let blob = store.master_key().encrypt(b"x").unwrap();
    assert_eq!(key.decrypt(&blob).unwrap(), b"x".to_vec());
}

#[test]
fn ports_are_cut_to_sixteen_bits() {
    let key = MasterKey::from_hex(&"11".repeat(32)).unwrap();
    let mut row = server_row(&key);
    row.port = 65_536 + 22;
    let s = DibsStore::new(key).resolve("web", Ok(Some(row))).unwrap();
    assert_eq!(s.port, 22);
}

#[test]
fn server_resolution_errors() {
    let key = MasterKey::from_hex(&"11".repeat(32)).unwrap();
    let store = DibsStore::new(key.clone());
    let text = |r: Result<_, Error>| r.err().map(|e: Error| e.to_string()).unwrap();
    assert_eq!(
        text(store.resolve("web", Ok(None))),
        "not found: server web (no permission or not found)"
    );
    assert_eq!(text(store.resolve("web", Err("x".into()))), "db: x");
    let mut row = server_row(&key);
    row.secret_enc = vec![1, 2, 3];
    assert_eq!(text(store.resolve("web", Ok(Some(row)))), "crypto: blob too short");
    let mut row = server_row(&key);
    row.certificate_enc = Some(vec![0; 40]);
    assert_eq!(text(store.resolve("web", Ok(Some(row)))), "crypto: aead::Error");
}

#[test]
fn audit_row_gives_its_entry_back() {
    let row = AuditRow::of_entry(&entry());
    assert_eq!(row.created_at, "2023-11-14T22:13:20.123+00:00");
    let back = row.into_entry_at(NOW);
    let e = entry();
    assert_eq!(back.created_at, e.created_at);
    assert_eq!((back.id, back.user_id, back.token_id), (e.id, e.user_id, e.token_id));
    assert_eq!((back.command, back.stdout, back.stderr), (e.command, e.stdout, e.stderr));
    assert_eq!((back.exit_code, back.duration_ms, back.error), (e.exit_code, e.duration_ms, e.error));
    assert_eq!((back.server_alias, back.session_id, back.event), (e.server_alias, e.session_id, e.event));
}

#[test]
fn stored_times_sort_as_texts() {
    let points = [
        (-62_167_219_200, 0),
        (-1, 999_999_999),
        (0, 0),
        (0, 1),
        (0, 999),
        (0, 1_000),
        (0, 1_000_000),
        (0, 1_000_001),
        (0, 1_001_000),
        (0, 10_000_000),
        (0, 999_000_000),
        (0, 999_999_999),
        (1, 0),
        (59, 500_000_000),
        (59, 999_999_999),
        (59, 1_000_000_000),
        (59, 1_000_000_001),
        (59, 1_500_000_000),
        (60, 0),
        (1_700_000_000, 123_000_000),
        (253_402_300_799, 999_999_999),
    ];
    let texts: Vec<String> = points
        .iter()
        .map(|&(secs, nanos)| {
            let e = AuditEntry { created_at: Timestamp { secs, nanos }, ..entry() };
            AuditRow::of_entry(&e).created_at
        })
        .collect();
    for i in 0..texts.len() {
        for j in 0..texts.len() {
            assert_eq!(texts[i] < texts[j], i < j, "{} {}", texts[i], texts[j]);
        }
    }
    assert_eq!(texts[2], "1970-01-01T00:00:00+00:00");
    assert_eq!(texts[5], "1970-01-01T00:00:00.000001+00:00");
    assert_eq!(texts[15], "1970-01-01T00:00:60+00:00");
    for (text, &(secs, nanos)) in texts.iter().zip(&points) {
        assert_eq!(parse_ts(text, NOW), Timestamp { secs, nanos });
    }
}

fn text_of(b: &Bind) -> &str {
    match b {
        Bind::Text(s) => s,
        _ => panic!("no text"),
    }
}

#[test]
fn tokens_are_looked_up_unless_revoked() {
    let s = token_statement("h");
    assert_eq!(
        s.sql,
        "SELECT t.id, t.user_id, t.label, u.username, u.role, u.active FROM mcp_tokens t \
         JOIN users u ON u.id = t.user_id \
         WHERE t.token_hash = ? AND t.revoked_at IS NULL AND u.active = 1 LIMIT 1"
    );
    assert_eq!((s.binds.len(), text_of(&s.binds[0])), (1, "h"));
    let s = legacy_statement("h");
    assert_eq!(
        s.sql,
        "SELECT id, username, role, active FROM users \
         WHERE mcp_token_hash = ? AND active = 1 LIMIT 1"
    );
    assert_eq!((s.binds.len(), text_of(&s.binds[0])), (1, "h"));
    let s = used_statement("t".into(), 9);
    assert_eq!(s.sql, "UPDATE mcp_tokens SET last_used_at = ? WHERE id = ?");
    assert_eq!(text_of(&s.binds[0]), "t");
    assert!(matches!(s.binds[1], Bind::Int(9)));
}

#[test]
fn servers_are_looked_up_by_permission() {
    let s = list_statement(7);
    assert_eq!(
        s.sql,
        "SELECT s.alias, s.description, s.tags FROM servers s \
         JOIN server_user_permissions p ON p.server_id = s.id \
         WHERE p.user_id = ? ORDER BY s.alias"
    );
    assert!(matches!(s.binds[..], [Bind::Int(7)]));
    let s = resolve_statement(7, "web");
    assert!(s.sql.ends_with(
        " FROM servers s JOIN server_user_permissions p ON p.server_id = s.id \
         WHERE p.user_id = ? AND s.alias = ? LIMIT 1"
    ));
    assert!(matches!(s.binds[0], Bind::Int(7)));
    assert_eq!((s.binds.len(), text_of(&s.binds[1])), (2, "web"));
}

#[test]
fn entries_are_stored_column_by_column() {
    let s = record_statement(AuditRow::of_entry(&entry()));
    assert!(s.sql.ends_with(" VALUES(?,?,?,?,?,?,?,?,?,?,?,?,?)"));
    assert_eq!(s.binds.len(), 13);
    assert_eq!(text_of(&s.binds[0]), "i");
    assert!(matches!(s.binds[2], Bind::Int(2)));
    assert_eq!(text_of(&s.binds[6]), "ls");
    assert!(matches!(s.binds[9], Bind::Int(0)));
    assert!(matches!(s.binds[10], Bind::Null));
    assert_eq!(text_of(&s.binds[12]), "2023-11-14T22:13:20.123+00:00");
}

#[test]
fn last_use_of_a_token_is_dated() {
    let now = Timestamp { secs: 1_700_000_000, nanos: 0 };
    match DibsStore::user_token_at(Ok(Some(user_row())), now) {
        TokenStep::Found { used_at, token_id, .. } => {
            assert_eq!(used_at, "2023-11-14T22:13:20+00:00");
            assert_eq!(token_id, user_row().id);
        }
        TokenStep::TryLegacy => panic!("the token is known"),
    }
    assert!(matches!(DibsStore::user_token_at(Ok(None), now), TokenStep::TryLegacy));
}

#[test]
fn records_can_be_copied() {
    let e = entry().clone();
    assert_eq!((e.id.as_str(), e.command.as_deref(), e.created_at.secs), ("i", Some("ls"), 1_700_000_000));
    let q = AuditQuery { server: Some("web".into()), limit: 3, ..AuditQuery::default() }.clone();
    assert_eq!((q.server.as_deref(), q.limit), (Some("web"), 3));
    let store = DibsStore::new(MasterKey::from_hex(&MasterKey::generate_hex()).unwrap());
    let blob = store.master_key().encrypt(b"secret").unwrap();
    assert_eq!(store.clone().master_key().decrypt(&blob).unwrap(), b"secret");
}

#[test]
fn times_with_an_offset_are_read_as_utc() {
    let t = parse_ts("2023-11-15T00:13:20+02:00", NOW);
    assert_eq!(t, Timestamp { secs: 1_700_000_000, nanos: 0 });
    assert_eq!(parse_ts("yesterday", NOW), NOW);
    assert_eq!(parsed_or(None, NOW), NOW);
    assert_eq!(parsed_or(Some(t), NOW), t);
}

#[test]
fn audit_query_without_filters() {
    let q = AuditQuery { limit: 50, ..AuditQuery::default() };
    let s = audit_statement(&q);
    assert!(s.sql.ends_with(" FROM conduit_audit WHERE 1=1 ORDER BY created_at DESC LIMIT ?"));
    assert_eq!(s.binds.len(), 1);
    assert!(matches!(s.binds[0], Bind::Int(50)));
}

#[test]
fn audit_query_with_every_filter() {
    let q = AuditQuery {
        user_id: Some(7),
        server: Some("web".into()),
        session_id: Some("cs_1".into()),
        since: Some(Timestamp { secs: 0, nanos: 0 }),
        limit: 5,
    };
    let s = audit_statement(&q);
    assert!(s.sql.ends_with(
        " WHERE 1=1 AND user_id=? AND server_alias=? AND session_id=? AND created_at>=? ORDER BY created_at DESC LIMIT ?"
    ));
    assert!(matches!(&s.binds[0], Bind::Int(7)));
    assert!(matches!(&s.binds[1], Bind::Text(t) if t == "web"));
    assert!(matches!(&s.binds[2], Bind::Text(t) if t == "cs_1"));
    assert!(matches!(&s.binds[3], Bind::Text(t) if t == "1970-01-01T00:00:00+00:00"));
    assert!(matches!(&s.binds[4], Bind::Int(5)));
}

#[test]
fn audit_queries_bind_what_they_ask_for() {
    for mask in 0..16u32 {
        let q = AuditQuery {
            user_id: (mask & 1 != 0).then_some(1),
            server: (mask & 2 != 0).then_some("s".to_string()),
            session_id: (mask & 4 != 0).then_some("c".to_string()),
            since: (mask & 8 != 0).then_some(NOW),
            limit: 1,
        };
        let s = audit_statement(&q);
        assert_eq!(s.sql.matches('?').count(), s.binds.len());
        assert_eq!(s.binds.len() as u32, 1 + mask.count_ones());
    }
}

#[test]
fn audit_entries_keep_their_order() {
    let mut second = AuditRow::of_entry(&entry());
    second.id = "j".into();
    second.created_at = "bad".into();
    let rows = vec![AuditRow::of_entry(&entry()), second];
    let all = audit_entries(Ok(rows)).unwrap();
    assert_eq!((all[0].id.as_str(), all[1].id.as_str()), ("i", "j"));
    assert!(all[1].created_at.secs > 1_700_000_000);
    assert_eq!(audit_entries(Err("x".into())).unwrap_err().to_string(), "db: x");
}

#[test]
fn entries_are_built_for_their_context() {
    let ctx = AuditCtx {
        user_id: 1,
        token_id: 2,
        server_alias: "web".into(),
        session_id: "cs_1".into(),
    };
    let e = build_entry("id".into(), NOW, &ctx, "exec", AuditDetail::of_command("ls".into()));
    assert_eq!((e.id.as_str(), e.event.as_str(), e.created_at), ("id", "exec", NOW));
    assert_eq!((e.user_id, e.token_id), (1, 2));
    assert_eq!(e.command.as_deref(), Some("ls"));
    let a = log(&ctx.clone(), "close_channel", AuditDetail::none());
    let b = log(&ctx, "close_channel", AuditDetail::none());
    assert_ne!(a.id, b.id);
    assert!(a.command.is_none() && a.created_at.secs > 1_700_000_000);
}

#[test]
fn entry_is_shown_in_a_line() {
    assert_eq!(
        entry_line(&entry()),
        "2023-11-14 22:13:20\texec\tuser=1\tweb\tcs_1\tec=Some(0)\tdur=Nonems\tls"
    );
    let mut e = entry();
    e.command = None;
    e.exit_code = Some(-1);
    e.duration_ms = Some(12);
    assert_eq!(
        entry_line_at("T".into(), &e),
        "T\texec\tuser=1\tweb\tcs_1\tec=Some(-1)\tdur=Some(12)ms\t"
    );
}

#[test]
fn full_entry_has_its_streams() {
    assert_eq!(show_entry(&entry(), false).len(), 1);
    let blocks = show_entry(&entry(), true);
    assert_eq!(blocks[1..], ["  stdout:\n    a\n    b".to_string(), "  error: e".to_string()]);
    let mut e = entry();
    e.stderr = Some("w".into());
    e.stdout = None;
    e.error = None;
    assert_eq!(show_entry(&e, true)[1..], ["  stderr:\n    w".to_string()]);
}

#[test]
fn long_commands_are_shortened() {
    let short = "x".repeat(80);
    assert_eq!(shorten(&short), short);
    assert_eq!(shorten(&"x".repeat(81)), format!("{short}…"));
    let wide = "é".repeat(41);
    assert!(is_showable(&wide));
    assert_eq!(shorten(&wide), format!("{}…", "é".repeat(40)));
    assert!(!is_showable(&format!("x{wide}")));
    assert!(is_showable("é"));
}
