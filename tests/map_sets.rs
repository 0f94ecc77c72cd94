use minigolf_session::map_sets::{encode_full_map_sets, encode_map_set_summary, first_time_boot_setup_map_set, level_path_text, map_set_summary, send_existing_map_sets, MapSet, MapSets, LATEST_UNIX, STANDARD_CREATED};
use minigolf_session::session::send_client_state_update;

#[test]
fn level_paths() {
    assert_eq!(level_path_text(1), "glb/map/level_1.glb");
    assert_eq!(level_path_text(18), "glb/map/level_18.glb");
}

#[test]
fn seeds_three_standard_sets_on_empty_store() {
    let seeds = first_time_boot_setup_map_set(0, (1, 2, 3));
    assert_eq!(seeds.len(), 3);
    assert_eq!(seeds[0].map_set_name, "Standard Maps: Whole Course");
    assert_eq!(seeds[1].map_set_name, "Standard Maps: Front Nine");
    assert_eq!(seeds[2].map_set_name, "Standard Maps: Back Nine");
    assert_eq!((seeds[1].hole_range_start, seeds[1].hole_range_end), (1, 9));
    assert_eq!(seeds[0].file_paths.iter().filter(|p| p.is_some()).count(), 18);
    assert_eq!(seeds[1].file_paths[8], Some(String::from("glb/map/level_9.glb")));
    assert_eq!(seeds[1].file_paths[9], None);
    assert_eq!(seeds[2].file_paths[8], None);
    assert_eq!(seeds[2].file_paths[9], Some(String::from("glb/map/level_10.glb")));
    assert_eq!(seeds[2].map_set_id, 3);
    assert_eq!(seeds[0].created, STANDARD_CREATED);
    assert_eq!(STANDARD_CREATED, 1_733_074_496);
}

#[test]
fn no_seeds_when_store_has_map_sets() {
    assert!(first_time_boot_setup_map_set(2, (1, 2, 3)).is_empty());
}

fn map_set(id: u128, t: i64) -> MapSet {
    MapSet {
        map_set_id: id,
        map_set_name: String::from("n"),
        created: 0,
        last_updated: t,
        hole_range_start: 1,
        hole_range_end: 9,
        file_paths: vec![None; 18],
    }
}

#[test]
fn summary_keeps_order() {
    assert_eq!(map_set_summary(&vec![map_set(5, 50), map_set(4, 40)]), vec![(5, 50), (4, 40)]);
}

#[test]
fn summary_encodes_ids_and_times() {
    let bytes = encode_map_set_summary(&vec![map_set(5, STANDARD_CREATED), map_set(4, 0)]).unwrap();
    let back: Vec<(uuid::Uuid, time::OffsetDateTime)> = rmp_serde::from_slice(&bytes).unwrap();
    assert_eq!(
        back,
        vec![
            (uuid::Uuid::from_u128(5), time::OffsetDateTime::from_unix_timestamp(STANDARD_CREATED).unwrap()),
            (uuid::Uuid::from_u128(4), time::OffsetDateTime::UNIX_EPOCH),
        ]
    );
}

#[test]
fn summary_refuses_times_out_of_range() {
    assert_eq!(encode_map_set_summary(&vec![map_set(1, LATEST_UNIX + 1)]), None);
    assert!(encode_map_set_summary(&vec![map_set(1, LATEST_UNIX)]).is_some());
}

#[test]
fn state_update_text() {
    assert_eq!(send_client_state_update("ada", "InitPlayerConnection"), "(ada, InitPlayerConnection)");
}

#[test]
fn level_paths_past_two_digits() {
    assert_eq!(level_path_text(0), "glb/map/level_0.glb");
    assert_eq!(level_path_text(123), "glb/map/level_123.glb");
    assert_eq!(level_path_text(u32::MAX), "glb/map/level_4294967295.glb");
}

#[test]
fn read_map_sets_join_cache_and_summary_is_sent() {
    let mut cache = MapSets::new();
    let first = send_existing_map_sets(&mut cache, vec![map_set(5, 50)]).unwrap();
    let back: Vec<(uuid::Uuid, time::OffsetDateTime)> = rmp_serde::from_slice(&first).unwrap();
    assert_eq!(back, vec![(uuid::Uuid::from_u128(5), time::OffsetDateTime::from_unix_timestamp(50).unwrap())]);
    assert!(send_existing_map_sets(&mut cache, vec![map_set(6, 60), map_set(7, LATEST_UNIX + 1)]).is_none());
    assert_eq!(cache.map_sets.len(), 3);
    assert_eq!(cache.map_sets[1].map_set_id, 6);
}

#[test]
fn full_map_sets_encode_each_field() {
    let mut cache = MapSets::new();
    send_existing_map_sets(&mut cache, vec![map_set(9, 90)]);
    let bytes = encode_full_map_sets(&cache).unwrap();
    type Row = (uuid::Uuid, String, time::OffsetDateTime, time::OffsetDateTime, i32, i32, Vec<Option<String>>);
    let back: Vec<Row> = rmp_serde::from_slice(&bytes).unwrap();
    assert_eq!(back.len(), 1);
    assert_eq!(back[0].0, uuid::Uuid::from_u128(9));
    assert_eq!(back[0].1, "n");
    assert_eq!(back[0].3, time::OffsetDateTime::from_unix_timestamp(90).unwrap());
    assert_eq!((back[0].4, back[0].5), (1, 9));
    assert_eq!(back[0].6.len(), 18);
    cache.map_sets[0].created = LATEST_UNIX + 1;
    assert_eq!(encode_full_map_sets(&cache), None);
}
