use vstd::prelude::*;

verus! {

/// Creation time of the standard map sets: 2024-12-01 17:34:56 UTC, in
/// seconds since the Unix epoch.
pub const STANDARD_CREATED: i64 = 1733074496;

/// Number of levels a map set can hold.
pub const LEVELS: usize = 18;

pub open spec fn digits() -> Seq<char> {
    seq!['0', '1', '2', '3', '4', '5', '6', '7', '8', '9']
}

/// The decimal digits of `n`.
pub open spec fn decimal(n: nat) -> Seq<char>
    decreases n,
{
    if n < 10 {
        seq![digits()[n as int]]
    } else {
        decimal(n / 10) + seq![digits()[(n % 10) as int]]
    }
}

/// The asset path of level `n`.
pub open spec fn level_path(n: nat) -> Seq<char> {
    "glb/map/level_"@ + decimal(n) + ".glb"@
}

/// The level paths of a map set holding levels `first..=last`: slot `i`
/// holds level `i + 1` where that level is in the set.
pub open spec fn level_paths(first: nat, last: nat) -> Seq<Option<Seq<char>>> {
    Seq::new(
        LEVELS as nat,
        |i: int|
            if first <= i + 1 <= last {
                Some(level_path((i + 1) as nat))
            } else {
                None
            },
    )
}

pub open spec fn paths_view(paths: Seq<Option<String>>) -> Seq<Option<Seq<char>>> {
    paths.map_values(
        |p: Option<String>|
            match p {
                Some(s) => Some(s@),
                None => None,
            },
    )
}

/// A map set to be inserted into the store; the store stamps its update time.
#[derive(Debug, PartialEq, Eq)]
pub struct MapSetSeed {
    pub map_set_id: u128,
    pub map_set_name: String,
    pub created: i64,
    pub hole_range_start: i32,
    pub hole_range_end: i32,
    pub file_paths: Vec<Option<String>>,
}

/// A stored map set, times in seconds since the Unix epoch.
#[derive(Debug, PartialEq, Eq)]
pub struct MapSet {
    pub map_set_id: u128,
    pub map_set_name: String,
    pub created: i64,
    pub last_updated: i64,
    pub hole_range_start: i32,
    pub hole_range_end: i32,
    pub file_paths: Vec<Option<String>>,
}

fn digit_text(d: u32) -> (r: &'static str)
    requires
        d < 10,
    ensures
        r@ == seq![digits()[d as int]],
{
    proof {
        reveal_strlit("0");
        reveal_strlit("1");
        reveal_strlit("2");
        reveal_strlit("3");
        reveal_strlit("4");
        reveal_strlit("5");
        reveal_strlit("6");
        reveal_strlit("7");
        reveal_strlit("8");
        reveal_strlit("9");
    }
    let r = match d {
        0 => "0",
        1 => "1",
        2 => "2",
        3 => "3",
        4 => "4",
        5 => "5",
        6 => "6",
        7 => "7",
        8 => "8",
        _ => "9",
    };
    assert(r@ =~= seq![digits()[d as int]]);
    r
}

/// Appends the decimal digits of `n`.
fn append_decimal(out: &mut String, n: u32)
    ensures
        final(out)@ == old(out)@ + decimal(n as nat),
    decreases n,
{
    if n >= 10 {
        append_decimal(out, n / 10);
    }
    out.append(digit_text(n % 10));
    assert(final(out)@ =~= old(out)@ + decimal(n as nat));
}

/// The asset path of level `n`.
pub fn level_path_text(n: u32) -> (r: String)
    ensures
        r@ == level_path(n as nat),
{
    let mut out = String::from_str("glb/map/level_");
    append_decimal(&mut out, n);
    out.append(".glb");
    assert(out@ =~= level_path(n as nat));
    out
}

/// The level paths of a map set holding levels `first..=last`.
pub fn standard_level_paths(first: u32, last: u32) -> (r: Vec<Option<String>>)
    ensures
        paths_view(r@) == level_paths(first as nat, last as nat),
{
    let mut out: Vec<Option<String>> = Vec::new();
    let mut i: usize = 0;
    while i < LEVELS
        invariant
            i <= LEVELS,
            paths_view(out@) == level_paths(first as nat, last as nat).take(i as int),
        decreases LEVELS - i,
    {
        let level = (i + 1) as u32;
        let p = if first <= level && level <= last {
            Some(level_path_text(level))
        } else {
            None
        };
        let ghost prev = out@;
        out.push(p);
        assert(paths_view(out@) =~= paths_view(prev).push(paths_view(out@)[i as int]));
        assert(paths_view(out@) =~= level_paths(first as nat, last as nat).take(i + 1));
        i += 1;
    }
    assert(level_paths(first as nat, last as nat).take(LEVELS as int) =~= level_paths(
        first as nat,
        last as nat,
    ));
    out
}

/// The three standard map sets, to be inserted where the store holds no map
/// set yet (`existing` is the store's count): the whole course, the front
/// nine and the back nine, under the given ids. Where the store holds map
/// sets already, nothing is to be inserted.
pub fn first_time_boot_setup_map_set(existing: i64, ids: (u128, u128, u128)) -> (r: Vec<MapSetSeed>)
    ensures
        existing != 0 ==> r@.len() == 0,
        existing == 0 ==> {
            &&& r@.len() == 3
            &&& r@[0].map_set_id == ids.0
            &&& r@[0].map_set_name@ == "Standard Maps: Whole Course"@
            &&& r@[0].hole_range_start == 1 && r@[0].hole_range_end == 18
            &&& paths_view(r@[0].file_paths@) == level_paths(1, 18)
            &&& r@[1].map_set_id == ids.1
            &&& r@[1].map_set_name@ == "Standard Maps: Front Nine"@
            &&& r@[1].hole_range_start == 1 && r@[1].hole_range_end == 9
            &&& paths_view(r@[1].file_paths@) == level_paths(1, 9)
            &&& r@[2].map_set_id == ids.2
            &&& r@[2].map_set_name@ == "Standard Maps: Back Nine"@
            &&& r@[2].hole_range_start == 1 && r@[2].hole_range_end == 18
            &&& paths_view(r@[2].file_paths@) == level_paths(10, 18)
            &&& forall|k: int| 0 <= k < 3 ==> (#[trigger] r@[k]).created == STANDARD_CREATED
        },
{
    let mut out: Vec<MapSetSeed> = Vec::new();
    if existing != 0 {
        return out;
    }
    out.push(
        MapSetSeed {
            map_set_id: ids.0,
            map_set_name: String::from_str("Standard Maps: Whole Course"),
            created: STANDARD_CREATED,
            hole_range_start: 1,
            hole_range_end: 18,
            file_paths: standard_level_paths(1, 18),
        },
    );
    out.push(
        MapSetSeed {
            map_set_id: ids.1,
            map_set_name: String::from_str("Standard Maps: Front Nine"),
            created: STANDARD_CREATED,
            hole_range_start: 1,
            hole_range_end: 9,
            file_paths: standard_level_paths(1, 9),
        },
    );
    out.push(
        MapSetSeed {
            map_set_id: ids.2,
            map_set_name: String::from_str("Standard Maps: Back Nine"),
            created: STANDARD_CREATED,
            hole_range_start: 1,
            hole_range_end: 18,
            file_paths: standard_level_paths(10, 18),
        },
    );
    out
}

/// The summary broadcast to peers: each map set's id and last update time,
/// in the store's order.
pub fn map_set_summary(map_sets: &Vec<MapSet>) -> (r: Vec<(u128, i64)>)
    ensures
        r@ == map_sets@.map_values(|m: MapSet| (m.map_set_id, m.last_updated)),
{
    let mut out: Vec<(u128, i64)> = Vec::new();
    let mut i: usize = 0;
    while i < map_sets.len()
        invariant
            i <= map_sets@.len(),
            out@ == map_sets@.map_values(|m: MapSet| (m.map_set_id, m.last_updated)).take(i as int),
        decreases map_sets@.len() - i,
    {
        out.push((map_sets[i].map_set_id, map_sets[i].last_updated));
        assert(out@ =~= map_sets@.map_values(|m: MapSet| (m.map_set_id, m.last_updated)).take(
            i + 1,
        ));
        i += 1;
    }
    assert(map_sets@.map_values(|m: MapSet| (m.map_set_id, m.last_updated)).take(
        map_sets@.len() as int,
    ) =~= map_sets@.map_values(|m: MapSet| (m.map_set_id, m.last_updated)));
    out
}

/// Earliest time `time::OffsetDateTime` holds: -9999-01-01 00:00:00 UTC, in
/// seconds since the Unix epoch.
pub const EARLIEST_UNIX: i64 = -377705203200;

/// Latest whole second `time::OffsetDateTime` holds: 9999-12-31 23:59:59 UTC.
pub const LATEST_UNIX: i64 = 253402300799;

pub open spec fn in_time_range(t: i64) -> bool {
    EARLIEST_UNIX <= t <= LATEST_UNIX
}

pub open spec fn summary_of(map_sets: Seq<MapSet>) -> Seq<(u128, i64)> {
    map_sets.map_values(|m: MapSet| (m.map_set_id, m.last_updated))
}

/// The MessagePack bytes that `rmp_serde` writes for a summary, each entry
/// as a `uuid::Uuid` and a `time::OffsetDateTime`.
pub uninterp spec fn summary_bytes(entries: Seq<(u128, i64)>) -> Seq<u8>;

/// Relies on `rmp_serde::to_vec` on a list of `(uuid::Uuid,
/// time::OffsetDateTime)`; the bytes depend on the entries alone, and its
/// writer fails only when memory runs out. Each time lies in the range of
/// `time::OffsetDateTime::from_unix_timestamp`, so the conversion succeeds.
#[verifier::external_body]
fn seal_summary(entries: &Vec<(u128, i64)>) -> (r: Result<Vec<u8>, rmp_serde::encode::Error>)
    requires
        forall|i: int| 0 <= i < entries@.len() ==> in_time_range(#[trigger] entries@[i].1),
    ensures
        r is Ok,
        r matches Ok(b) ==> b@ == summary_bytes(entries@),
{
    let summary: Vec<(uuid::Uuid, time::OffsetDateTime)> = entries
        .iter()
        .map(|(id, t)| (uuid::Uuid::from_u128(*id), time::OffsetDateTime::from_unix_timestamp(*t).unwrap()))
        .collect();
    rmp_serde::to_vec(&summary)
}

/// The summary of `map_sets` sealed for the wire; `None` exactly where an
/// update time lies outside what a timestamp can hold.
pub fn encode_map_set_summary(map_sets: &Vec<MapSet>) -> (r: Option<Vec<u8>>)
    ensures
        r is Some <==> (forall|i: int|
            0 <= i < map_sets@.len() ==> in_time_range(#[trigger] map_sets@[i].last_updated)),
        r matches Some(b) ==> b@ == summary_bytes(summary_of(map_sets@)),
{
    let summary = map_set_summary(map_sets);
    let mut i: usize = 0;
    while i < summary.len()
        invariant
            i <= summary@.len(),
            summary@ == summary_of(map_sets@),
            forall|j: int| 0 <= j < i ==> in_time_range(#[trigger] summary@[j].1),
        decreases summary@.len() - i,
    {
        let t = summary[i].1;
        if t < EARLIEST_UNIX || t > LATEST_UNIX {
            assert(!in_time_range(map_sets@[i as int].last_updated));
            return None;
        }
        i += 1;
    }
    assert(forall|j: int| 0 <= j < map_sets@.len() ==> #[trigger] map_sets@[j].last_updated == summary@[j].1);
    match seal_summary(&summary) {
        Ok(b) => Some(b),
        Err(_) => None,
    }
}

/// The map sets the host has read from the store, in the order read.
#[derive(Debug)]
pub struct MapSets {
    pub map_sets: Vec<MapSet>,
}

impl MapSets {
    pub fn new() -> (r: Self)
        ensures
            r.map_sets@ == Seq::<MapSet>::empty(),
    {
        MapSets { map_sets: Vec::new() }
    }
}

/// Handles the stored map sets, once read: they join the host's cache, and
/// the summary of what was read is returned for broadcast to every peer
/// (`None` exactly where an update time lies outside what a timestamp holds).
pub fn send_existing_map_sets(cache: &mut MapSets, fetched: Vec<MapSet>) -> (r: Option<Vec<u8>>)
    ensures
        final(cache).map_sets@ == old(cache).map_sets@ + fetched@,
        r is Some <==> (forall|i: int|
            0 <= i < fetched@.len() ==> in_time_range(#[trigger] fetched@[i].last_updated)),
        r matches Some(b) ==> b@ == summary_bytes(summary_of(fetched@)),
{
    let summary = encode_map_set_summary(&fetched);
    let mut fetched = fetched;
    cache.map_sets.append(&mut fetched);
    summary
}

/// A map set as the wire carries it: its fields in order, times in seconds.
pub open spec fn map_set_row(m: MapSet) -> (u128, Seq<char>, i64, i64, i32, i32, Seq<Option<Seq<char>>>) {
    (
        m.map_set_id,
        m.map_set_name@,
        m.created,
        m.last_updated,
        m.hole_range_start,
        m.hole_range_end,
        paths_view(m.file_paths@),
    )
}

pub open spec fn times_in_range(m: MapSet) -> bool {
    in_time_range(m.created) && in_time_range(m.last_updated)
}

/// The MessagePack bytes that `rmp_serde` writes for a list of map sets, each
/// as the array of its fields, ids as `uuid::Uuid` and times as
/// `time::OffsetDateTime`.
pub uninterp spec fn map_sets_bytes(rows: Seq<(u128, Seq<char>, i64, i64, i32, i32, Seq<Option<Seq<char>>>)>) -> Seq<u8>;

/// Relies on `rmp_serde::to_vec` on a list of tuples of the map sets'
/// fields (the compact form, in which a struct is the array of its fields);
/// the bytes depend on the fields alone, and its writer fails only when
/// memory runs out. Each time lies in the range of
/// `time::OffsetDateTime::from_unix_timestamp`, so the conversion succeeds.
#[verifier::external_body]
fn seal_map_sets(map_sets: &Vec<MapSet>) -> (r: Result<Vec<u8>, rmp_serde::encode::Error>)
    requires
        forall|i: int| 0 <= i < map_sets@.len() ==> times_in_range(#[trigger] map_sets@[i]),
    ensures
        r is Ok,
        r matches Ok(b) ==> b@ == map_sets_bytes(map_sets@.map_values(|m: MapSet| map_set_row(m))),
{
    let rows: Vec<_> = map_sets.iter().map(|m| (
        uuid::Uuid::from_u128(m.map_set_id),
        m.map_set_name.clone(),
        time::OffsetDateTime::from_unix_timestamp(m.created).unwrap(),
        time::OffsetDateTime::from_unix_timestamp(m.last_updated).unwrap(),
        m.hole_range_start,
        m.hole_range_end,
        m.file_paths.clone(),
    )).collect();
    rmp_serde::to_vec(&rows)
}

/// The full map sets of the cache sealed for the wire, the answer to a
/// request for them; `None` exactly where a time lies outside what a
/// timestamp holds.
pub fn encode_full_map_sets(cache: &MapSets) -> (r: Option<Vec<u8>>)
    ensures
        r is Some <==> (forall|i: int|
            0 <= i < cache.map_sets@.len() ==> times_in_range(#[trigger] cache.map_sets@[i])),
        r matches Some(b) ==> b@ == map_sets_bytes(
            cache.map_sets@.map_values(|m: MapSet| map_set_row(m)),
        ),
{
    let mut i: usize = 0;
    while i < cache.map_sets.len()
        invariant
            i <= cache.map_sets@.len(),
            forall|j: int| 0 <= j < i ==> times_in_range(#[trigger] cache.map_sets@[j]),
        decreases cache.map_sets@.len() - i,
    {
        let m = &cache.map_sets[i];
        if m.created < EARLIEST_UNIX || m.created > LATEST_UNIX || m.last_updated < EARLIEST_UNIX
            || m.last_updated > LATEST_UNIX {
            assert(!times_in_range(cache.map_sets@[i as int]));
            return None;
        }
        i += 1;
    }
    match seal_map_sets(&cache.map_sets) {
        Ok(b) => Some(b),
        Err(_) => None,
    }
}

} // verus!
