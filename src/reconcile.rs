use vstd::prelude::*;
use crate::identity::{PlayerInfo, PlayerView, SyncPlayerIdEvent};
use crate::ids::{uuid_text, uuid_to_string};
use crate::search::{first_from, is_first_from, lemma_first_from_cases, lemma_first_from_is, lemma_first_from_none};

verus! {

/// A row of the player store as the reconciliation reads it: the stored id in
/// its canonical text form, where the row has one, and the email.
#[derive(Debug, PartialEq, Eq)]
pub struct StoredPlayer {
    pub player_id: Option<String>,
    pub email: String,
}

pub struct StoredView {
    pub id: Option<Seq<char>>,
    pub email: Seq<char>,
}

impl View for StoredPlayer {
    type V = StoredView;

    open spec fn view(&self) -> StoredView {
        StoredView {
            id: match self.player_id {
                Some(s) => Some(s@),
                None => None,
            },
            email: self.email@,
        }
    }
}

/// What to do with a presented identity, given the rows of the store.
#[derive(Debug, PartialEq, Eq)]
pub enum Reconciliation {
    /// A row already has the identity's id: nothing to do.
    AlreadyExists,
    /// A row has the identity's email under another id: the client is told
    /// to adopt the stored id.
    SyncPlayerId(SyncPlayerIdEvent),
    /// Neither id nor email is known: the identity is inserted as a new row.
    InsertNew,
    /// The first row with the identity's email has no id to hand out.
    StoredIdMissing,
}

pub enum ReconciliationView {
    AlreadyExists,
    SyncPlayerId { host: Seq<char>, client: Seq<char> },
    InsertNew,
    StoredIdMissing,
}

impl View for Reconciliation {
    type V = ReconciliationView;

    open spec fn view(&self) -> ReconciliationView {
        match self {
            Reconciliation::AlreadyExists => ReconciliationView::AlreadyExists,
            Reconciliation::SyncPlayerId(e) => ReconciliationView::SyncPlayerId {
                host: e.player_id_host@,
                client: e.player_id_client@,
            },
            Reconciliation::InsertNew => ReconciliationView::InsertNew,
            Reconciliation::StoredIdMissing => ReconciliationView::StoredIdMissing,
        }
    }
}

pub open spec fn has_id(rows: Seq<StoredView>, id: Seq<char>) -> bool {
    exists|i: int| 0 <= i < rows.len() && (#[trigger] rows[i]).id == Some(id)
}

pub open spec fn email_is(email: Seq<char>) -> spec_fn(StoredView) -> bool {
    |r: StoredView| r.email == email
}

/// The decision for identity `p` against the rows `rows`: a known id wins;
/// else the first row with the same email decides; else the identity is new.
pub open spec fn reconcile_spec(p: PlayerView, rows: Seq<StoredView>) -> ReconciliationView {
    if has_id(rows, p.id) {
        ReconciliationView::AlreadyExists
    } else {
        let k = first_from(rows, 0, email_is(p.email));
        if k < rows.len() {
            match rows[k].id {
                Some(host) => ReconciliationView::SyncPlayerId { host, client: p.id },
                None => ReconciliationView::StoredIdMissing,
            }
        } else {
            ReconciliationView::InsertNew
        }
    }
}

/// The row that inserting identity `p` adds to the store.
pub open spec fn row_of(p: PlayerView) -> StoredView {
    StoredView { id: Some(p.id), email: p.email }
}

/// The store's rows once the decision for `p` has been carried out: only an
/// insertion changes them.
pub open spec fn store_after(rows: Seq<StoredView>, p: PlayerView) -> Seq<StoredView> {
    if reconcile_spec(p, rows) is InsertNew {
        rows.push(row_of(p))
    } else {
        rows
    }
}

/// The rows as read from the store, with each stored id written as text.
pub open spec fn stored_rows(rows: Seq<(Option<u128>, String)>) -> Seq<StoredView> {
    rows.map_values(
        |r: (Option<u128>, String)|
            StoredView {
                id: match r.0 {
                    Some(v) => Some(uuid_text(v)),
                    None => None,
                },
                email: r.1@,
            },
    )
}

/// Decides what to do with `player` given the store's rows, ids as text.
pub fn reconcile_rows(player: &PlayerInfo, rows: &Vec<StoredPlayer>) -> (r: Reconciliation)
    ensures
        r@ == reconcile_spec(player@, rows@.map_values(|s: StoredPlayer| s@)),
{
    let ghost v = rows@.map_values(|s: StoredPlayer| s@);
    let mut i: usize = 0;
    while i < rows.len()
        invariant
            i <= rows@.len(),
            v == rows@.map_values(|s: StoredPlayer| s@),
            forall|j: int| 0 <= j < i ==> (#[trigger] v[j]).id != Some(player@.id),
        decreases rows@.len() - i,
    {
        if let Some(id) = &rows[i].player_id {
            if *id == player.player_id {
                assert(v[i as int].id == Some(player@.id));
                return Reconciliation::AlreadyExists;
            }
        }
        i += 1;
    }
    let mut k: usize = 0;
    while k < rows.len()
        invariant
            k <= rows@.len(),
            v == rows@.map_values(|s: StoredPlayer| s@),
            !has_id(v, player@.id),
            forall|j: int| 0 <= j < k ==> !email_is(player@.email)(#[trigger] v[j]),
        decreases rows@.len() - k,
    {
        if rows[k].email == player.player_email {
            proof {
                assert(is_first_from(v, 0, email_is(player@.email), k as int));
                lemma_first_from_is(v, 0, email_is(player@.email), k as int);
            }
            return match &rows[k].player_id {
                Some(host) => Reconciliation::SyncPlayerId(
                    SyncPlayerIdEvent {
                        player_id_host: host.clone(),
                        player_id_client: player.player_id.clone(),
                    },
                ),
                None => Reconciliation::StoredIdMissing,
            };
        }
        k += 1;
    }
    proof {
        lemma_first_from_none(v, 0, email_is(player@.email));
    }
    Reconciliation::InsertNew
}

/// Decides what to do with `player` given the store's rows as fetched: each
/// stored id is written in its canonical text form and compared as text.
pub fn reconcile(player: &PlayerInfo, rows: &Vec<(Option<u128>, String)>) -> (r: Reconciliation)
    ensures
        r@ == reconcile_spec(player@, stored_rows(rows@)),
{
    let mut text_rows: Vec<StoredPlayer> = Vec::new();
    let mut i: usize = 0;
    while i < rows.len()
        invariant
            i <= rows@.len(),
            text_rows@.map_values(|s: StoredPlayer| s@) == stored_rows(rows@).take(i as int),
        decreases rows@.len() - i,
    {
        let id = match rows[i].0 {
            Some(v) => Some(uuid_to_string(v)),
            None => None,
        };
        let ghost prev = text_rows@;
        let row = StoredPlayer { player_id: id, email: rows[i].1.clone() };
        assert(row@ == stored_rows(rows@)[i as int]);
        text_rows.push(row);
        assert(text_rows@.map_values(|s: StoredPlayer| s@) =~= prev.map_values(
            |s: StoredPlayer| s@,
        ).push(row@));
        assert(text_rows@.map_values(|s: StoredPlayer| s@) =~= stored_rows(rows@).take(i + 1));
        i += 1;
    }
    assert(stored_rows(rows@).take(rows@.len() as int) =~= stored_rows(rows@));
    reconcile_rows(player, &text_rows)
}

/// Two identities with the same email and different ids, reconciled in turn
/// against a store that knows neither id nor the email: the first is
/// inserted, the second is told to adopt the first one's id, and the store
/// ends with exactly one new row, the first identity's.
pub proof fn lemma_same_email_first_wins(rows: Seq<StoredView>, a: PlayerView, b: PlayerView)
    requires
        a.email == b.email,
        a.id != b.id,
        !has_id(rows, a.id),
        !has_id(rows, b.id),
        forall|i: int| 0 <= i < rows.len() ==> (#[trigger] rows[i]).email != a.email,
    ensures
        reconcile_spec(a, rows) == ReconciliationView::InsertNew,
        reconcile_spec(b, store_after(rows, a)) == (ReconciliationView::SyncPlayerId {
            host: a.id,
            client: b.id,
        }),
        store_after(store_after(rows, a), b) == rows.push(row_of(a)),
{
    lemma_first_from_none(rows, 0, email_is(a.email));
    let rows2 = rows.push(row_of(a));
    assert(store_after(rows, a) == rows2);
    assert forall|i: int| 0 <= i < rows2.len() implies (#[trigger] rows2[i]).id != Some(b.id) by {
        if i < rows.len() {
            assert(rows2[i] == rows[i]);
        }
    }
    assert forall|j: int| 0 <= j < rows.len() implies !email_is(b.email)(#[trigger] rows2[j]) by {
        assert(rows2[j] == rows[j]);
    }
    assert(is_first_from(rows2, 0, email_is(b.email), rows.len() as int));
    lemma_first_from_is(rows2, 0, email_is(b.email), rows.len() as int);
}

/// An identity whose id and email the store does not know is inserted as one
/// new row; reconciling it again changes nothing.
pub proof fn lemma_new_identity_inserted_once(rows: Seq<StoredView>, a: PlayerView)
    requires
        !has_id(rows, a.id),
        forall|i: int| 0 <= i < rows.len() ==> (#[trigger] rows[i]).email != a.email,
    ensures
        reconcile_spec(a, rows) == ReconciliationView::InsertNew,
        store_after(rows, a) == rows.push(row_of(a)),
        reconcile_spec(a, store_after(rows, a)) == ReconciliationView::AlreadyExists,
        store_after(store_after(rows, a), a) == store_after(rows, a),
{
    lemma_first_from_none(rows, 0, email_is(a.email));
    let rows2 = rows.push(row_of(a));
    assert(rows2[rows.len() as int].id == Some(a.id));
}

} // verus!
