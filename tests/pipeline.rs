use minigolf_session::identity::{PlayerInfo, SyncPlayerIdEvent};
use minigolf_session::pending::PlayerInfoStorage;
use minigolf_session::reconcile::{reconcile, reconcile_rows, Reconciliation, StoredPlayer};
use minigolf_session::registry::ConnectedPlayers;
use minigolf_session::session::{client_state_update, db_pipeline_player_init, handle_client_message, sync_player_id_init_system, Inbound};
use minigolf_session::trigger::RunTrigger;

fn player(id: &str, username: &str, email: &str) -> PlayerInfo {
    PlayerInfo::new(String::from(id), String::from(email), String::from(username))
}

fn row_of(p: &PlayerInfo) -> StoredPlayer {
    StoredPlayer { player_id: Some(p.get_id()), email: p.get_email() }
}

/// Carries out a decision on an in-memory table the way the store adapter does.
fn apply(rows: &mut Vec<StoredPlayer>, p: &PlayerInfo) -> Reconciliation {
    let r = reconcile_rows(p, rows);
    if r == Reconciliation::InsertNew {
        rows.push(row_of(p));
    }
    r
}

#[test]
fn init_against_empty_store_inserts_one_row() {
    let mut reg = ConnectedPlayers::new();
    let mut pending = PlayerInfoStorage::new();
    let mut trigger = RunTrigger::new();
    let bytes = rmp_serde::to_vec("(abc-123, InitPlayerConnection(abc-123, alice, alice@example.com))").unwrap();
    let inbound = handle_client_message(&bytes, 0, &mut reg, &mut pending, &mut trigger);
    assert_eq!(inbound, Inbound::PlayerQueued);
    assert!(trigger.db_pipeline_player_init());
    // "abc-123" is no UUID, so no liveness entry is made for it
    assert!(reg.players.is_empty());
    let p = db_pipeline_player_init(&mut pending, &mut trigger).unwrap();
    assert!(!trigger.db_pipeline_player_init());
    assert_eq!(pending.players_vec_len(), 0);
    assert_eq!(p.get_id(), "abc-123");
    assert_eq!(p.get_username(), "alice");
    assert_eq!(p.get_email(), "alice@example.com");
    let mut rows: Vec<StoredPlayer> = Vec::new();
    assert_eq!(apply(&mut rows, &p), Reconciliation::InsertNew);
    assert_eq!(rows, vec![StoredPlayer { player_id: Some(String::from("abc-123")), email: String::from("alice@example.com") }]);
}

#[test]
fn known_email_under_new_id_syncs_host_id() {
    let x = uuid::Uuid::from_u128(0x0191_0000_0000_7000_8000_0000_0000_00aa);
    let fetched = vec![(Some(x.as_u128()), String::from("alice@example.com"))];
    let y = player("0191a2b3-c4d5-7e6f-8a9b-0c1d2e3f4a5b", "alice", "alice@example.com");
    let r = reconcile(&y, &fetched);
    let event = SyncPlayerIdEvent { player_id_host: x.to_string(), player_id_client: y.get_id() };
    assert_eq!(r, Reconciliation::SyncPlayerId(SyncPlayerIdEvent { player_id_host: x.to_string(), player_id_client: y.get_id() }));
    assert_eq!(
        sync_player_id_init_system(&event),
        format!("(0191a2b3-c4d5-7e6f-8a9b-0c1d2e3f4a5b, SyncExistingPlayerId({}))", x)
    );
}

#[test]
fn stored_ids_compare_in_canonical_text() {
    let x = uuid::Uuid::from_u128(0x0191_0000_0000_7000_8000_0000_0000_00aa);
    let fetched = vec![(Some(x.as_u128()), String::from("someone@example.com"))];
    let same = player(&x.to_string(), "alice", "alice@example.com");
    assert_eq!(reconcile(&same, &fetched), Reconciliation::AlreadyExists);
    let upper = player(&x.to_string().to_uppercase(), "alice", "alice@example.com");
    assert_eq!(reconcile(&upper, &fetched), Reconciliation::InsertNew);
}

#[test]
fn same_email_second_identity_is_synced_to_first() {
    let a = player("id-a", "alice", "alice@example.com");
    let b = player("id-b", "alice2", "alice@example.com");
    let mut rows: Vec<StoredPlayer> = Vec::new();
    assert_eq!(apply(&mut rows, &a), Reconciliation::InsertNew);
    assert_eq!(
        apply(&mut rows, &b),
        Reconciliation::SyncPlayerId(SyncPlayerIdEvent { player_id_host: String::from("id-a"), player_id_client: String::from("id-b") })
    );
    assert_eq!(rows, vec![row_of(&a)]);
}

#[test]
fn reconciling_twice_is_idempotent() {
    let a = player("id-a", "alice", "alice@example.com");
    let mut rows = vec![StoredPlayer { player_id: Some(String::from("other")), email: String::from("o@example.com") }];
    assert_eq!(apply(&mut rows, &a), Reconciliation::InsertNew);
    assert_eq!(rows.len(), 2);
    assert_eq!(apply(&mut rows, &a), Reconciliation::AlreadyExists);
    assert_eq!(rows.len(), 2);
}

#[test]
fn email_row_without_id() {
    let rows = vec![
        StoredPlayer { player_id: None, email: String::from("alice@example.com") },
        StoredPlayer { player_id: Some(String::from("later")), email: String::from("alice@example.com") },
    ];
    let a = player("id-a", "alice", "alice@example.com");
    assert_eq!(reconcile_rows(&a, &rows), Reconciliation::StoredIdMissing);
}

#[test]
fn pending_queue_is_lifo() {
    let mut q = PlayerInfoStorage::new();
    assert_eq!(q.get_last_player(), None);
    assert_eq!(q.get_last_player_id_string(), None);
    q.add(player("1", "u1", "e1"));
    q.add(player("2", "u2", "e2"));
    assert_eq!(q.get_last_player_id_string(), Some(String::from("2")));
    assert_eq!(q.get_last_player().unwrap().get_id(), "2");
    assert_eq!(q.players_vec_len(), 2);
    assert_eq!(q.get_last_player_id_and_pop_player(), Some(String::from("2")));
    assert_eq!(q.get_last_player_and_pop().unwrap().get_id(), "1");
    assert_eq!(q.get_last_player_and_pop(), None);
}

#[test]
fn empty_queue_activation_only_clears_latch() {
    let mut q = PlayerInfoStorage::new();
    let mut t = RunTrigger::new();
    t.set_target("db_pipeline_player_init", true);
    assert_eq!(db_pipeline_player_init(&mut q, &mut t), None);
    assert!(!t.db_pipeline_player_init());
}

#[test]
fn identity_from_field_lists() {
    let p = PlayerInfo::from_vec_str(vec!["id", "e@x", "name"]);
    assert_eq!((p.get_id(), p.get_email(), p.get_username()), (String::from("id"), String::from("e@x"), String::from("name")));
    let q = PlayerInfo::from_vec_string(vec![String::from("i"), String::from("e"), String::from("n")]);
    assert_eq!(q.get_email(), "e");
    assert_eq!(q.clone(), q);
}

#[test]
fn heartbeat_and_other_messages_leave_state() {
    let mut reg = ConnectedPlayers::new();
    let mut pending = PlayerInfoStorage::new();
    let mut trigger = RunTrigger::new();
    let hb = rmp_serde::to_vec("(PacketHeartBeat, ({\"player_id\":\"p\"}))").unwrap();
    assert_eq!(
        handle_client_message(&hb, 0, &mut reg, &mut pending, &mut trigger),
        Inbound::HeartBeat(String::from("{\"player_id\":\"p\"}"))
    );
    let bad = rmp_serde::to_vec("junk").unwrap();
    assert_eq!(
        handle_client_message(&bad, 0, &mut reg, &mut pending, &mut trigger),
        Inbound::Dropped(minigolf_session::codec::DecodeError::Malformed)
    );
    assert_eq!(pending.players_vec_len(), 0);
    assert!(!trigger.db_pipeline_player_init());
}

#[test]
fn init_with_uuid_registers_player() {
    let mut reg = ConnectedPlayers::new();
    let mut pending = PlayerInfoStorage::new();
    let mut trigger = RunTrigger::new();
    let id = "0191a2b3-c4d5-7e6f-8a9b-0c1d2e3f4a5b";
    let bytes = rmp_serde::to_vec(&format!("(InitPlayerConnection, ({}, bob, bob@example.com))", id)).unwrap();
    assert_eq!(handle_client_message(&bytes, 42, &mut reg, &mut pending, &mut trigger), Inbound::PlayerQueued);
    assert_eq!(reg.players.len(), 1);
    assert_eq!(reg.last_heartbeat(uuid::Uuid::parse_str(id).unwrap().as_u128()), Some(42));
    assert_eq!(pending.get_last_player().unwrap().get_email(), "bob@example.com");
}

#[test]
fn plain_text_init_is_queued() {
    let mut reg = ConnectedPlayers::new();
    let mut pending = PlayerInfoStorage::new();
    let mut trigger = RunTrigger::new();
    let text = "(abc-123, InitPlayerConnection(abc-123, alice, alice@example.com))";
    assert_eq!(handle_client_message(text.as_bytes(), 0, &mut reg, &mut pending, &mut trigger), Inbound::PlayerQueued);
    assert_eq!(pending.get_last_player_id_string(), Some(String::from("abc-123")));
    assert!(trigger.db_pipeline_player_init());
}

#[test]
fn state_update_only_after_init() {
    let mut pending = PlayerInfoStorage::new();
    assert_eq!(client_state_update(&pending, true), None);
    pending.add(player("id-9", "u", "e"));
    assert_eq!(client_state_update(&pending, false), None);
    assert_eq!(client_state_update(&pending, true), Some(String::from("(id-9, InitPlayerConnection)")));
}

#[test]
fn stored_id_text_is_hyphenated_lower_case() {
    let fetched = vec![(Some(0x0123_4567_89ab_cdef_0123_4567_89ab_cdefu128), String::from("x@example.com"))];
    let p = player("0123abcd", "u", "x@example.com");
    assert_eq!(
        reconcile(&p, &fetched),
        Reconciliation::SyncPlayerId(SyncPlayerIdEvent {
            player_id_host: String::from("01234567-89ab-cdef-0123-456789abcdef"),
            player_id_client: String::from("0123abcd"),
        })
    );
}
