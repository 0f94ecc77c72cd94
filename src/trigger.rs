use vstd::prelude::*;
use crate::text::text_eq;
use vstd::arithmetic::div_mod::lemma_small_mod;

verus! {

/// The cursor position after one step forward in a catalog of `len` names.
pub open spec fn next_index(idx: nat, len: nat) -> nat {
    if idx + 1 == len { 0 } else { idx + 1 }
}

/// The cursor position after one step back in a catalog of `len` names.
pub open spec fn prev_index(idx: nat, len: nat) -> nat {
    if idx == 0 { (len - 1) as nat } else { (idx - 1) as nat }
}

/// The cursor position after `k` steps forward.
pub open spec fn advanced(idx: nat, len: nat, k: nat) -> nat
    decreases k,
{
    if k == 0 { idx } else { next_index(advanced(idx, len, (k - 1) as nat), len) }
}

/// The names of the standard trigger catalog, in order.
pub open spec fn standard_triggers() -> Seq<Seq<char>> {
    seq![
        "camera_handler_cycle_state_camera"@,
        "game_handler_game_start"@,
        "game_handler_game_state_change_routines"@,
        "game_handler_update_players_ref_ball_locations"@,
        "game_handler_update_players_reset_ref_ball_locations "@,
        "game_handler_update_players_store_current_ball_locations_to_ref"@,
        "leader_board_log_game"@,
        "leader_board_review_last_game"@,
        "level_handler_set_state_next_level"@,
        "level_handler_set_state_next_map_set"@,
        "network_get_client_state_game"@,
        "party_handler_active_player_add_bonk"@,
        "party_handler_active_player_set_ball_location"@,
        "party_handler_active_player_set_hole_completion_state_true"@,
        "party_handler_cycle_active_player"@,
        "party_handler_new_player_ai"@,
        "party_handler_new_player_local"@,
        "party_handler_new_player_remote"@,
        "party_handler_remove_ai"@,
        "party_handler_remove_last_player"@,
        "turn_handler_set_turn_next"@,
    ]
}

/// The operator's catalog of named actions, a cursor into it, and two
/// one-shot latches: a producer sets a latch, and the step it gates runs once
/// and clears it.
#[derive(Debug)]
pub struct RunTrigger {
    pub trigger_idx: usize,
    pub triggers: Vec<String>,
    pub db_pipeline_player_init: bool,
    pub network_get_client_state_game: bool,
}

impl RunTrigger {
    pub open spec fn wf(&self) -> bool {
        self.trigger_idx < self.triggers@.len()
    }

    pub open spec fn names(&self) -> Seq<Seq<char>> {
        self.triggers@.map_values(|t: String| t@)
    }

    pub fn new() -> (r: Self)
        ensures
            r.wf(),
            r.names() == standard_triggers(),
            r.triggers@.len() == 21,
            r.trigger_idx == 0,
            !r.db_pipeline_player_init,
            !r.network_get_client_state_game,
    {
        let triggers = vec![
            String::from_str("camera_handler_cycle_state_camera"),
            String::from_str("game_handler_game_start"),
            String::from_str("game_handler_game_state_change_routines"),
            String::from_str("game_handler_update_players_ref_ball_locations"),
            String::from_str("game_handler_update_players_reset_ref_ball_locations "),
            String::from_str("game_handler_update_players_store_current_ball_locations_to_ref"),
            String::from_str("leader_board_log_game"),
            String::from_str("leader_board_review_last_game"),
            String::from_str("level_handler_set_state_next_level"),
            String::from_str("level_handler_set_state_next_map_set"),
            String::from_str("network_get_client_state_game"),
            String::from_str("party_handler_active_player_add_bonk"),
            String::from_str("party_handler_active_player_set_ball_location"),
            String::from_str("party_handler_active_player_set_hole_completion_state_true"),
            String::from_str("party_handler_cycle_active_player"),
            String::from_str("party_handler_new_player_ai"),
            String::from_str("party_handler_new_player_local"),
            String::from_str("party_handler_new_player_remote"),
            String::from_str("party_handler_remove_ai"),
            String::from_str("party_handler_remove_last_player"),
            String::from_str("turn_handler_set_turn_next"),
        ];
        let r = RunTrigger {
            trigger_idx: 0,
            triggers,
            db_pipeline_player_init: false,
            network_get_client_state_game: false,
        };
        assert(r.names() =~= standard_triggers());
        r
    }

    pub fn get_triggers_ref(&self) -> (r: &Vec<String>)
        ensures
            r == &self.triggers,
    {
        &self.triggers
    }

    pub fn get_trigger_idx(&self) -> (r: usize)
        ensures
            r == self.trigger_idx,
    {
        self.trigger_idx
    }

    /// Moves the cursor to `idx`, which must lie in the catalog.
    pub fn set_trigger_idx(&mut self, idx: usize)
        requires
            idx < old(self).triggers@.len(),
        ensures
            final(self).wf(),
            final(self).trigger_idx == idx,
            final(self).triggers == old(self).triggers,
            final(self).db_pipeline_player_init == old(self).db_pipeline_player_init,
            final(self).network_get_client_state_game == old(self).network_get_client_state_game,
    {
        self.trigger_idx = idx;
    }

    /// Steps the cursor forward, from the last name back to the first.
    pub fn trigger_add_one(&mut self)
        requires
            old(self).wf(),
        ensures
            final(self).wf(),
            final(self).trigger_idx == next_index(
                old(self).trigger_idx as nat,
                old(self).triggers@.len(),
            ),
            final(self).triggers == old(self).triggers,
            final(self).db_pipeline_player_init == old(self).db_pipeline_player_init,
            final(self).network_get_client_state_game == old(self).network_get_client_state_game,
    {
        let len_check = self.triggers.len();
        if self.trigger_idx == len_check - 1 {
            self.set_trigger_idx(0);
        } else {
            self.trigger_idx += 1;
        }
    }

    /// Steps the cursor back, from the first name round to the last.
    pub fn trigger_sub_one(&mut self)
        requires
            old(self).wf(),
        ensures
            final(self).wf(),
            final(self).trigger_idx == prev_index(
                old(self).trigger_idx as nat,
                old(self).triggers@.len(),
            ),
            final(self).triggers == old(self).triggers,
            final(self).db_pipeline_player_init == old(self).db_pipeline_player_init,
            final(self).network_get_client_state_game == old(self).network_get_client_state_game,
    {
        let len_check = self.triggers.len();
        if self.trigger_idx == 0 {
            self.set_trigger_idx(len_check - 1);
        } else {
            self.trigger_idx -= 1;
        }
    }

    /// The state of the latch named `target`; `false` for any other name.
    pub fn get(&self, target: &str) -> (r: bool)
        ensures
            r == (if target@ == "network_get_client_state_game"@ {
                self.network_get_client_state_game
            } else if target@ == "db_pipeline_player_init"@ {
                self.db_pipeline_player_init
            } else {
                false
            }),
    {
        if text_eq(target, "network_get_client_state_game") {
            self.network_get_client_state_game
        } else if text_eq(target, "db_pipeline_player_init") {
            self.db_pipeline_player_init
        } else {
            false
        }
    }

    /// Sets the latch named `target` to `state`; any other name changes nothing.
    pub fn set_target(&mut self, target: &str, state: bool)
        ensures
            final(self).trigger_idx == old(self).trigger_idx,
            final(self).triggers == old(self).triggers,
            final(self).db_pipeline_player_init == (if target@ == "db_pipeline_player_init"@ {
                state
            } else {
                old(self).db_pipeline_player_init
            }),
            final(self).network_get_client_state_game == (
            if target@ == "network_get_client_state_game"@
                && target@ != "db_pipeline_player_init"@ {
                state
            } else {
                old(self).network_get_client_state_game
            }),
    {
        if text_eq(target, "db_pipeline_player_init") {
            self.db_pipeline_player_init = state;
        } else if text_eq(target, "network_get_client_state_game") {
            self.network_get_client_state_game = state;
        }
    }

    pub fn db_pipeline_player_init(&self) -> (r: bool)
        ensures
            r == self.db_pipeline_player_init,
    {
        self.db_pipeline_player_init
    }

    pub fn network_get_client_state_game(&self) -> (r: bool)
        ensures
            r == self.network_get_client_state_game,
    {
        self.network_get_client_state_game
    }
}

/// Stepping forward `k` times moves the cursor `k` places round the catalog.
pub proof fn lemma_advanced_mod(idx: nat, len: nat, k: nat)
    requires
        idx < len,
    ensures
        advanced(idx, len, k) == ((idx + k) as int) % (len as int),
    decreases k,
{
    if k == 0 {
        lemma_small_mod(idx, len);
    } else {
        lemma_advanced_mod(idx, len, (k - 1) as nat);
        let prev = advanced(idx, len, (k - 1) as nat);
        assert(prev == ((idx + k - 1) as int) % (len as int));
        if prev + 1 == len {
            assert(((idx + k) as int) % (len as int) == 0) by (nonlinear_arith)
                requires
                    prev == ((idx + k - 1) as int) % (len as int),
                    prev + 1 == len,
                    len > 0,
            {
                let q = (idx + k - 1) / (len as int);
                assert(idx + k - 1 == q * len + prev);
                assert(idx + k == (q + 1) * len);
            }
        } else {
            assert(((idx + k) as int) % (len as int) == prev + 1) by (nonlinear_arith)
                requires
                    prev == ((idx + k - 1) as int) % (len as int),
                    prev + 1 < len,
                    len > 0,
            {
                let q = (idx + k - 1) / (len as int);
                assert(idx + k - 1 == q * len + prev);
                assert(idx + k == q * len + (prev + 1));
            }
        }
    }
}

/// Stepping the cursor forward: from the last name it wraps to the first;
/// stepping back from the first wraps to the last; and as many steps forward
/// as the catalog has names bring it back where it started.
pub proof fn lemma_cursor_wraps(idx: nat, len: nat)
    requires
        idx < len,
    ensures
        next_index((len - 1) as nat, len) == 0,
        prev_index(0, len) == len - 1,
        advanced(idx, len, len) == idx,
{
    lemma_advanced_mod(idx, len, len);
    assert(((idx + len) as int) % (len as int) == idx) by (nonlinear_arith)
        requires
            idx < len,
    {
        assert(idx + len == 1 * len + idx);
    }
}

} // verus!
