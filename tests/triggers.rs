use minigolf_session::session::{client_run_trigger, network_get_client_state_game};
use minigolf_session::trigger::RunTrigger;

#[test]
fn cursor_wraps_both_ways() {
    let mut t = RunTrigger::new();
    let n = t.get_triggers_ref().len();
    assert_eq!(n, 21);
    t.trigger_sub_one();
    assert_eq!(t.get_trigger_idx(), n - 1);
    t.trigger_add_one();
    assert_eq!(t.get_trigger_idx(), 0);
}

#[test]
fn full_cycle_returns_to_start() {
    let mut t = RunTrigger::new();
    t.set_trigger_idx(7);
    for _ in 0..21 {
        t.trigger_add_one();
    }
    assert_eq!(t.get_trigger_idx(), 7);
}

#[test]
fn latches() {
    let mut t = RunTrigger::new();
    assert!(!t.get("db_pipeline_player_init"));
    t.set_target("db_pipeline_player_init", true);
    assert!(t.get("db_pipeline_player_init"));
    assert!(t.db_pipeline_player_init());
    t.set_target("network_get_client_state_game", true);
    assert!(t.network_get_client_state_game());
    t.set_target("unknown", true);
    assert!(!t.get("unknown"));
    assert_eq!(network_get_client_state_game(&mut t), "network_get_client_state_game");
    assert!(!t.network_get_client_state_game());
    assert!(t.db_pipeline_player_init());
}

#[test]
fn dispatch_names_cursor_trigger() {
    let mut t = RunTrigger::new();
    t.trigger_add_one();
    assert_eq!(client_run_trigger(&t, "ada"), "(ada, RunTrigger(game_handler_game_start))");
}
