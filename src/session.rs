use vstd::prelude::*;
use crate::codec::{encode_spec, encode_text, DecodeError, Message, MessageView};
use crate::envelope::{decode_message, decode_message_spec};
use crate::identity::{PlayerInfo, PlayerView, SyncPlayerIdEvent};
use crate::ids::{parse_uuid, parsed_uuid};
use crate::pending::PlayerInfoStorage;
use crate::registry::{elapsed, heartbeat_monitor_system, stale_ids, swept, ConnectedPlayers, HEARTBEAT_TIMEOUT_MS};
use crate::trigger::RunTrigger;

verus! {

/// What a received message leaves for the rest of the control loop to do.
#[derive(Debug, PartialEq, Eq)]
pub enum Inbound {
    /// An identity was queued for reconciliation and the reconciliation latch set.
    PlayerQueued,
    /// A heartbeat packet, whose JSON payload names the player.
    HeartBeat(String),
    /// A game-state packet, whose JSON payload holds the client's states.
    AllStates(String),
    /// A client asked for the full map sets.
    MapSetsRequested,
    /// A readable message that the host does not act on.
    Ignored,
    /// An unreadable message, dropped.
    Dropped(DecodeError),
}

/// What `handle_client_message` returns for a message that reads as `m`.
pub open spec fn inbound_for(m: MessageView, r: Inbound) -> bool {
    match m {
        MessageView::InitPlayerConnection { .. } => r is PlayerQueued,
        MessageView::PacketHeartBeat { payload } => r matches Inbound::HeartBeat(p) && p@ == payload,
        MessageView::PacketAllStates { payload } => r matches Inbound::AllStates(p) && p@ == payload,
        MessageView::RequestFullMapSets => r is MapSetsRequested,
        _ => r is Ignored,
    }
}

/// Handles one message received from a peer. An init message queues the
/// presented identity, registers its id as live where it is a UUID, and sets
/// the reconciliation latch; any other message changes nothing here.
pub fn handle_client_message(
    message: &[u8],
    now: u64,
    connected_players: &mut ConnectedPlayers,
    player_info_storage: &mut PlayerInfoStorage,
    run_trigger: &mut RunTrigger,
) -> (r: Inbound)
    ensures
        match decode_message_spec(message@) {
            Ok(m) => inbound_for(m, r),
            Err(e) => r == Inbound::Dropped(e),
        },
        match decode_message_spec(message@) {
            Ok(MessageView::InitPlayerConnection { tag, id, username, email }) => {
                &&& final(player_info_storage)@ == old(player_info_storage)@.push(
                    PlayerView { id, email, username },
                )
                &&& final(run_trigger).db_pipeline_player_init
                &&& final(run_trigger).trigger_idx == old(run_trigger).trigger_idx
                &&& final(run_trigger).triggers == old(run_trigger).triggers
                &&& final(run_trigger).network_get_client_state_game == old(
                    run_trigger,
                ).network_get_client_state_game
                &&& final(connected_players)@ == match parsed_uuid(id) {
                    Some(u) => old(connected_players)@.insert(u, now),
                    None => old(connected_players)@,
                }
            },
            _ => {
                &&& final(player_info_storage)@ == old(player_info_storage)@
                &&& *final(run_trigger) == *old(run_trigger)
                &&& final(connected_players)@ == old(connected_players)@
            },
        },
{
    match decode_message(message) {
        Ok(Message::InitPlayerConnection { tag, id, username, email }) => {
            connected_players.add_player_string(id.as_str(), now);
            player_info_storage.add(PlayerInfo::new(id, email, username));
            run_trigger.db_pipeline_player_init = true;
            Inbound::PlayerQueued
        },
        Ok(Message::PacketHeartBeat { payload }) => Inbound::HeartBeat(payload),
        Ok(Message::PacketAllStates { payload }) => Inbound::AllStates(payload),
        Ok(Message::RequestFullMapSets) => Inbound::MapSetsRequested,
        Ok(_) => Inbound::Ignored,
        Err(e) => Inbound::Dropped(e),
    }
}

/// Handles the player id read from a heartbeat packet: refreshes the
/// player's entry where it has one. A heartbeat never creates an entry.
/// Returns whether the id is a UUID.
pub fn heartbeat_from_client(connected_players: &mut ConnectedPlayers, player_id: &str, now: u64) -> (r: bool)
    ensures
        r == parsed_uuid(player_id@) is Some,
        final(connected_players)@ == match parsed_uuid(player_id@) {
            Some(u) => if old(connected_players)@.contains_key(u) {
                old(connected_players)@.insert(u, now)
            } else {
                old(connected_players)@
            },
            None => old(connected_players)@,
        },
{
    match parse_uuid(player_id) {
        Ok(u) => {
            connected_players.update_heartbeat(u, now);
            true
        },
        Err(_) => false,
    }
}

/// Starts one reconciliation: takes the most recent pending identity, if
/// any, and clears the reconciliation latch. With nothing pending it only
/// clears the latch.
pub fn db_pipeline_player_init(
    player_info_storage: &mut PlayerInfoStorage,
    run_trigger: &mut RunTrigger,
) -> (r: Option<PlayerInfo>)
    ensures
        !final(run_trigger).db_pipeline_player_init,
        final(run_trigger).trigger_idx == old(run_trigger).trigger_idx,
        final(run_trigger).triggers == old(run_trigger).triggers,
        final(run_trigger).network_get_client_state_game == old(
            run_trigger,
        ).network_get_client_state_game,
        old(player_info_storage)@.len() == 0 ==> r is None && final(player_info_storage)@ == old(
            player_info_storage,
        )@,
        old(player_info_storage)@.len() > 0 ==> (r matches Some(p) && p@ == old(
            player_info_storage,
        )@.last() && final(player_info_storage)@ == old(player_info_storage)@.drop_last()),
{
    let r = player_info_storage.get_last_player_and_pop();
    run_trigger.db_pipeline_player_init = false;
    r
}

/// The request for the clients' game state, broadcast when the latch is
/// set; clears the latch.
pub fn network_get_client_state_game(run_trigger: &mut RunTrigger) -> (r: String)
    ensures
        r@ == "network_get_client_state_game"@,
        !final(run_trigger).network_get_client_state_game,
        final(run_trigger).trigger_idx == old(run_trigger).trigger_idx,
        final(run_trigger).triggers == old(run_trigger).triggers,
        final(run_trigger).db_pipeline_player_init == old(run_trigger).db_pipeline_player_init,
{
    run_trigger.network_get_client_state_game = false;
    String::from_str("network_get_client_state_game")
}

/// The broadcast that tells the player `player_id` to run the trigger at
/// the cursor.
pub fn client_run_trigger(trigger: &RunTrigger, player_id: &str) -> (r: String)
    requires
        trigger.wf(),
    ensures
        r@ == encode_spec(
            MessageView::RunTrigger {
                player_id: player_id@,
                trigger_name: trigger.names()[trigger.trigger_idx as int],
            },
        ),
{
    let m = Message::RunTrigger {
        player_id: String::from_str(player_id),
        trigger_name: trigger.triggers[trigger.trigger_idx].clone(),
    };
    encode_text(&m)
}

/// The broadcast that tells the client of `event` to adopt the stored id.
pub fn sync_player_id_init_system(event: &SyncPlayerIdEvent) -> (r: String)
    ensures
        r@ == encode_spec(
            MessageView::SyncExistingPlayerId {
                player_id_client: event.player_id_client@,
                player_id_host: event.player_id_host@,
            },
        ),
{
    let m = Message::SyncExistingPlayerId {
        player_id_client: event.player_id_client.clone(),
        player_id_host: event.player_id_host.clone(),
    };
    encode_text(&m)
}

/// The announcement `(player_id, state)` of the protocol state a client is
/// asked to enter.
pub fn send_client_state_update(player_id: &str, state: &str) -> (r: String)
    ensures
        r@ == "("@ + player_id@ + ", "@ + state@ + ")"@,
{
    let mut out = String::from_str("(");
    out.append(player_id);
    out.append(", ");
    out.append(state);
    out.append(")");
    out
}

/// How often the liveness check runs, in milliseconds.
pub const HEARTBEAT_SWEEP_EVERY_MS: u64 = 5000;

/// Runs the liveness check once its period has passed since `last_sweep`,
/// returning the evicted ids; before that it changes nothing.
pub fn heartbeat_monitor_tick(connected_players: &mut ConnectedPlayers, last_sweep: u64, now: u64) -> (r: Option<Vec<u128>>)
    ensures
        elapsed(now, last_sweep) < HEARTBEAT_SWEEP_EVERY_MS ==> r is None && final(connected_players)@
            == old(connected_players)@,
        elapsed(now, last_sweep) >= HEARTBEAT_SWEEP_EVERY_MS ==> (r matches Some(v) && v@.no_duplicates()
            && v@.to_set() == stale_ids(old(connected_players)@, now, HEARTBEAT_TIMEOUT_MS)
            && final(connected_players)@ == swept(old(connected_players)@, now, HEARTBEAT_TIMEOUT_MS)),
{
    if now >= last_sweep && now - last_sweep >= HEARTBEAT_SWEEP_EVERY_MS {
        Some(heartbeat_monitor_system(connected_players, now))
    } else {
        None
    }
}

/// The state update broadcast at the end of a tick: where an identity was
/// queued during the tick, the most recent pending identity is asked to
/// enter the init state.
pub fn client_state_update(player_info_storage: &PlayerInfoStorage, queued_this_tick: bool) -> (r: Option<String>)
    ensures
        !queued_this_tick || player_info_storage@.len() == 0 ==> r is None,
        queued_this_tick && player_info_storage@.len() > 0 ==> (r matches Some(t) && t@ == "("@
            + player_info_storage@.last().id + ", "@ + "InitPlayerConnection"@ + ")"@),
{
    if !queued_this_tick {
        return None;
    }
    match player_info_storage.get_last_player_id_string() {
        Some(id) => Some(send_client_state_update(id.as_str(), "InitPlayerConnection")),
        None => None,
    }
}

} // verus!
