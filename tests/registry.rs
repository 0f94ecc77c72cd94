use minigolf_session::registry::{heartbeat_monitor_system, ConnectedPlayers, HEARTBEAT_TIMEOUT_MS};
use minigolf_session::session::{heartbeat_from_client, heartbeat_monitor_tick};

const A: u128 = 0x0191_0000_0000_7000_8000_0000_0000_0001;
const B: u128 = 0x0191_0000_0000_7000_8000_0000_0000_0002;

#[test]
fn sweep_keeps_recent_and_evicts_stale() {
    let mut reg = ConnectedPlayers::new();
    reg.add_player(A, 1_000);
    assert!(reg.sweep(15_000, 1_000 + 14_999).is_empty());
    assert!(reg.is_connected(A));
    reg.add_player(B, 16_000);
    let evicted = reg.sweep(15_000, 1_000 + 15_001);
    assert_eq!(evicted, vec![A]);
    assert!(reg.is_connected(B));
    assert!(!reg.is_connected(A));
}

#[test]
fn sweep_at_exact_timeout_keeps_entry() {
    let mut reg = ConnectedPlayers::new();
    reg.add_player(A, 0);
    assert!(reg.sweep(15_000, 15_000).is_empty());
    assert!(reg.is_connected(A));
}

#[test]
fn heartbeat_refreshes_entry() {
    let mut reg = ConnectedPlayers::new();
    reg.add_player(A, 0);
    reg.add_player(B, 0);
    reg.update_heartbeat(A, 10_000);
    assert_eq!(reg.check_timeouts(10_000, 16_000), vec![B]);
    assert_eq!(heartbeat_monitor_system(&mut reg, 16_000), vec![B]);
    assert!(reg.is_connected(A));
    assert!(!reg.is_connected(B));
    assert_eq!(HEARTBEAT_TIMEOUT_MS, 15_000);
}

#[test]
fn heartbeat_for_unregistered_id_is_noop() {
    let mut reg = ConnectedPlayers::new();
    let z = "0191a2b3-c4d5-7e6f-8a9b-0c1d2e3f4a5b";
    assert!(heartbeat_from_client(&mut reg, z, 5_000));
    let zid = uuid::Uuid::parse_str(z).unwrap().as_u128();
    assert!(!reg.is_connected(zid));
    assert!(reg.players.is_empty());
}

#[test]
fn register_by_text() {
    let mut reg = ConnectedPlayers::new();
    let text = "0191a2b3-c4d5-7e6f-8a9b-0c1d2e3f4a5b";
    assert!(reg.add_player_string(text, 7));
    assert!(reg.is_connected(uuid::Uuid::parse_str(text).unwrap().as_u128()));
    assert!(!reg.add_player_string("abc-123", 7));
    assert_eq!(reg.players.len(), 1);
}

#[test]
fn re_registering_refreshes_in_place() {
    let mut reg = ConnectedPlayers::new();
    reg.add_player(A, 1);
    reg.add_player(B, 2);
    reg.add_player(A, 3);
    assert_eq!(reg.players.len(), 2);
    assert_eq!(reg.last_heartbeat(A), Some(3));
    assert_eq!(reg.last_heartbeat(B), Some(2));
    reg.remove_player(A);
    assert_eq!(reg.last_heartbeat(A), None);
    assert_eq!(reg.players.len(), 1);
}

#[test]
fn sweep_runs_on_its_period() {
    let mut reg = ConnectedPlayers::new();
    reg.add_player(A, 0);
    assert_eq!(heartbeat_monitor_tick(&mut reg, 0, 4_999), None);
    assert_eq!(heartbeat_monitor_tick(&mut reg, 0, 5_000), Some(vec![]));
    assert!(reg.is_connected(A));
    assert_eq!(heartbeat_monitor_tick(&mut reg, 10_000, 15_001), Some(vec![A]));
    assert!(!reg.is_connected(A));
}
