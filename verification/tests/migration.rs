//! Bringing an older token store up to date, and starting from what is left.

use simple_im::clock::{secs, Moment};
use simple_im::config::Settings;
use simple_im::delivery::{AnnounceResult, DeliveryHub};
use simple_im::error::Error;
use simple_im::migration::{migrate, Migration, StoredToken};
use simple_im::persistence::{PersistedIdentity, PersistedToken};

/// A row with the retired column for the name.
fn row(token: &str, identity: &str, token_type: &str, name: Option<&str>) -> StoredToken {
    StoredToken {
        token: token.into(),
        identity: identity.into(),
        token_type: token_type.into(),
        name: name.map(String::from),
        expires_at: None,
        created_at: "1750000000".into(),
    }
}

/// Rows brought up to date in a store that has the retired column and no identities yet.
fn migrated(rows: Vec<StoredToken>) -> Migration {
    migrate(&rows, Vec::new(), true)
}

fn find<'a>(m: &'a Migration, token: &str) -> Option<&'a StoredToken> {
    m.tokens.iter().find(|t| t.token == token)
}

fn has_identity(m: &Migration, name: &str) -> bool {
    m.identities.iter().any(|i| i.name == name)
}

fn count_by_type(m: &Migration, token_type: &str) -> usize {
    m.tokens.iter().filter(|t| t.token_type == token_type).count()
}

fn now() -> Moment {
    Moment { instant: secs(1_000_000), system: 1_750_000_000 * 1_000_000_000 }
}

fn build_hub(m: Migration) -> DeliveryHub {
    let tokens = m
        .tokens
        .into_iter()
        .map(|t| PersistedToken {
            token: t.token,
            identity: t.identity,
            token_type: t.token_type,
            expires_at_secs: None,
        })
        .collect();
    let mut hub = DeliveryHub::new_with_persisted_state(
        secs(30),
        Settings::default(),
        tokens,
        Vec::new(),
        Vec::new(),
        m.identities,
        now(),
    );
    let _ = hub.take_effects();
    hub
}

#[test]
fn test_s1_migrate_idempotent() {
    let m = migrated(vec![
        row("111111111", "111111111", "listen", Some("Scout7")),
        row("gov-1", "gov-1", "governor", None),
        row("agent-1", "id-alpha", "agent", None),
    ]);
    let before: Vec<String> = m.tokens.iter().map(|t| t.token.clone()).collect();
    let again = migrate(&m.tokens, m.identities, true);
    let after: Vec<String> = again.tokens.iter().map(|t| t.token.clone()).collect();
    assert_eq!(before, after);
    assert_eq!(again.identities.len(), 1);
    assert_eq!(again.identities_created, 0);
    assert_eq!(again.listen_renamed, 0);
    assert_eq!(again.agent_purged, 0);
    assert_eq!(again.orphan_purged, 0);
    let third = migrate(&again.tokens, again.identities, false);
    assert_eq!(third.tokens.len(), 2);
    assert!(!third.name_col_dropped);
}

#[test]
fn test_s1_identities_populated_from_listen_tokens() {
    let m = migrated(vec![row("111111111", "111111111", "listen", Some("Scout7"))]);
    assert!(has_identity(&m, "Scout7"));
}

#[test]
fn test_s1_listen_renamed_to_participant() {
    let m = migrated(vec![row("222222222", "222222222", "listen", Some("Scout7"))]);
    assert_eq!(count_by_type(&m, "listen"), 0);
    assert_eq!(find(&m, "222222222").map(|t| t.token_type.as_str()), Some("participant"));
}

#[test]
fn test_s1_v2_renamed_via_listen() {
    let m = migrated(vec![row("333333333", "333333333", "v2", Some("Unit12"))]);
    assert_eq!(count_by_type(&m, "v2"), 0);
    assert_eq!(find(&m, "333333333").map(|t| t.token_type.as_str()), Some("participant"));
    assert!(has_identity(&m, "Unit12"));
}

#[test]
fn test_s1_agent_tokens_purged() {
    let m = migrated(vec![row("agent-1", "id-alpha", "agent", None)]);
    assert_eq!(count_by_type(&m, "agent"), 0);
}

#[test]
fn test_s1_orphan_tokens_purged() {
    let m = migrated(vec![row("444444444", "444444444", "listen", None)]);
    assert!(find(&m, "444444444").is_none());
}

/// A name may look like a number, as long as it is not the token.
#[test]
fn test_s1_named_token_survives_purge() {
    let m = migrated(vec![
        row("555555555", "Scout7", "listen", None),
        row("666666666", "42", "listen", None),
    ]);
    assert_eq!(find(&m, "555555555").map(|t| t.identity.as_str()), Some("Scout7"));
    assert_eq!(find(&m, "666666666").map(|t| t.identity.as_str()), Some("42"));
    let hub = build_hub(m);
    assert_eq!(hub.name_to_token.get("Scout7").map(String::as_str), Some("555555555"));
    assert_eq!(hub.name_to_token.get("42").map(String::as_str), Some("666666666"));
}

#[test]
fn test_s1_startup_partition_on_participant() {
    let hub = build_hub(migrated(vec![row("777777777", "Scout7", "participant", None)]));
    assert!(hub.tokens.contains_key("777777777"));
}

#[test]
fn test_s1_startup_reads_identity_for_name() {
    let hub = build_hub(migrated(vec![row("888888888", "Scout7", "participant", None)]));
    assert_eq!(hub.name_to_token.get("Scout7").map(String::as_str), Some("888888888"));
    assert_eq!(hub.token_to_name.get("888888888").map(String::as_str), Some("Scout7"));
}

#[test]
fn test_s1_identities_hashset_loaded() {
    let known = vec![PersistedIdentity { name: "Scout7".into(), created_at: "1".into() }];
    let hub = build_hub(migrate(&Vec::new(), known, false));
    assert!(hub.identities.contains("Scout7"));
}

#[test]
fn test_no_agent_rows_after_startup() {
    let m = migrated(vec![row("agent-7", "id-x", "agent", None)]);
    assert_eq!(count_by_type(&m, "agent"), 0);
}

#[test]
fn test_no_listen_rows_after_startup() {
    let m = migrated(vec![row("999999999", "Scout7", "listen", None)]);
    assert_eq!(count_by_type(&m, "listen"), 0);
}

#[test]
fn test_identities_table_populated_on_startup() {
    let m = migrated(vec![row("121212121", "Alice", "participant", None)]);
    assert!(has_identity(&m, "Alice"));
}

#[test]
fn test_s7_no_agent_in_trustchain() {
    let m = migrated(vec![
        row("agent-3", "id-x", "agent", None),
        row("131313131", "Scout7", "participant", None),
    ]);
    assert_eq!(count_by_type(&m, "agent"), 0);
    let hub = build_hub(m);
    assert!(hub.validate_token("agent-3").is_err());
}

#[test]
fn test_s7_legacy_db_upgrade() {
    let mut hub = build_hub(migrated(vec![
        row("141414141", "141414141", "listen", Some("Scout7")),
        row("agent-9", "id-legacy", "agent", None),
    ]));
    let (tok, _stream) =
        hub.open_listen(Some("141414141"), None, None, false, false, now()).unwrap();
    assert_eq!(tok, "141414141");
    assert!(matches!(hub.announce("141414141", "Scout7", now()), Ok(AnnounceResult::Bound)));
    assert!(hub.validate_token("agent-9").is_err());
}

#[test]
fn test_s7_fresh_and_migrated_db_both_pass() {
    {
        let mut hub = build_hub(migrate(&Vec::new(), Vec::new(), false));
        let reg = hub.register_participant(now());
        let (tok, _stream) = hub.open_listen(Some(&reg), None, None, false, false, now()).unwrap();
        hub.announce(&tok, "FreshOne", now()).unwrap();
        assert_eq!(hub.validate_token(&tok).unwrap().as_deref(), Some("FreshOne"));
    }
    {
        let hub = build_hub(migrated(vec![row(
            "151515151",
            "151515151",
            "listen",
            Some("LegacyOne"),
        )]));
        assert_eq!(hub.validate_token("151515151").unwrap().as_deref(), Some("LegacyOne"));
    }
}

#[test]
fn every_change_is_counted() {
    let m = migrated(vec![
        row("1", "Alice", "listen", None),
        row("2", "2", "v2", Some("Bob")),
        row("3", "3", "participant", None),
        row("4", "x", "agent", None),
        row("5", "Alice", "participant", None),
        row("gov-1", "gov-1", "governor", None),
    ]);
    assert_eq!(m.identities_created, 2);
    assert_eq!(m.listen_renamed, 2);
    assert_eq!(m.agent_purged, 1);
    assert_eq!(m.orphan_purged, 1);
    assert!(m.name_col_dropped);
    let left: Vec<&str> = m.tokens.iter().map(|t| t.token.as_str()).collect();
    assert_eq!(left, ["1", "2", "5", "gov-1"]);
    assert_eq!(m.tokens[1].identity, "Bob");
    assert!(m.tokens.iter().all(|t| t.name.is_none()));
}

#[test]
fn first_announcement_is_remembered() {
    let mut early = row("1", "Alice", "participant", None);
    early.created_at = "100".into();
    let mut late = row("2", "Alice", "participant", None);
    late.created_at = "200".into();
    let m = migrated(vec![early, late]);
    assert_eq!(m.identities.len(), 1);
    assert_eq!(m.identities[0].created_at, "100");

    let known = vec![PersistedIdentity { name: "Alice".into(), created_at: "7".into() }];
    let m = migrate(&vec![row("1", "Alice", "listen", None)], known, true);
    assert_eq!(m.identities[0].created_at, "7");
    assert_eq!(m.identities_created, 0);
}

#[test]
fn without_the_column_names_are_not_collected() {
    let m = migrate(&vec![row("1", "Alice", "participant", None)], Vec::new(), false);
    assert!(m.tokens.is_empty());
    assert_eq!(m.orphan_purged, 1);

    let known = vec![PersistedIdentity { name: "Alice".into(), created_at: "7".into() }];
    let m = migrate(&vec![row("1", "Alice", "participant", None)], known, false);
    assert_eq!(m.tokens.len(), 1);
}

#[test]
fn store_is_emptied_once() {
    let rows = vec![row("1", "Alice", "participant", None), row("gov-1", "gov-1", "governor", None)];
    let (m, cleared) = migrated(rows).reset(false);
    assert!(m.tokens.is_empty());
    assert!(m.identities.is_empty());
    let cleared = cleared.unwrap();
    assert_eq!(cleared.tokens, 2);
    assert_eq!(cleared.identities, 1);
    assert_eq!(cleared.tables, ["grants", "denial_blocks", "governor"]);

    let rows = vec![row("1", "Alice", "participant", None)];
    let (m, cleared) = migrated(rows).reset(true);
    assert_eq!(m.tokens.len(), 1);
    assert!(cleared.is_none());
}

#[test]
fn purged_participant_cannot_listen() {
    let mut hub = build_hub(migrated(vec![row("444444444", "444444444", "listen", None)]));
    assert!(matches!(
        hub.open_listen(Some("444444444"), None, None, false, false, now()),
        Err(Error::AuthFailed)
    ));
}
