//! Discovery and establishment of list-card membership.
//!
//! The server may drop hierarchy records, so membership is read from three
//! tiers, most authoritative first: the standard child records of the list,
//! the aggregate backup record listing all card ids, and the local cache.
//! The first tier that yields a card the client knows wins.
use vstd::prelude::*;
use crate::ids::{is_room_id, room_id_valid};
use crate::text::{contains_str, strs_view};

verus! {

/// Which tier a list's membership was read from.
#[derive(Debug, Clone, Copy, PartialEq, Eq, Structural)]
pub enum RelationSource {
    /// Standard parent/child records of the hierarchy.
    Primary,
    /// The aggregate record this engine writes on the list.
    BackupRecord,
    /// The local cache of this client.
    LocalCache,
    /// No tier knew of any card.
    Unknown,
}

/// The rooms whose flag is set, in order.
pub open spec fn flagged(rooms: Seq<Seq<char>>, flags: Seq<bool>) -> Seq<Seq<char>>
    decreases rooms.len(),
{
    if rooms.len() == 0 || flags.len() < rooms.len() {
        Seq::empty()
    } else {
        let r = flagged(rooms.drop_last(), flags.take(rooms.len() - 1));
        if flags[rooms.len() - 1] {
            r.push(rooms.last())
        } else {
            r
        }
    }
}

/// The ids of `ids` that name one of `rooms`, in order.
pub open spec fn known_only(ids: Seq<Seq<char>>, rooms: Seq<Seq<char>>) -> Seq<Seq<char>>
    decreases ids.len(),
{
    if ids.len() == 0 {
        Seq::empty()
    } else {
        let r = known_only(ids.drop_last(), rooms);
        if rooms.contains(ids.last()) {
            r.push(ids.last())
        } else {
            r
        }
    }
}

/// The cards of a list and the tier they come from, given the rooms the
/// client knows, which of them the list declares as children, the backup
/// record's ids and the cached ids.
pub open spec fn resolve_spec(
    rooms: Seq<Seq<char>>,
    flags: Seq<bool>,
    backup: Seq<Seq<char>>,
    cached: Seq<Seq<char>>,
) -> (Seq<Seq<char>>, RelationSource) {
    let p = flagged(rooms, flags);
    let b = known_only(backup, rooms);
    let c = known_only(cached, rooms);
    if p.len() > 0 {
        (p, RelationSource::Primary)
    } else if b.len() > 0 {
        (b, RelationSource::BackupRecord)
    } else if c.len() > 0 {
        (c, RelationSource::LocalCache)
    } else {
        (Seq::empty(), RelationSource::Unknown)
    }
}

/// Tiers are consulted in order: a non-empty primary tier decides alone; an
/// empty one gives way to the backup record's known cards; when both remote
/// tiers are empty, the cached known cards are returned.
pub proof fn lemma_resolver_fallback(
    rooms: Seq<Seq<char>>,
    flags: Seq<bool>,
    backup: Seq<Seq<char>>,
    cached: Seq<Seq<char>>,
    other_backup: Seq<Seq<char>>,
    other_cached: Seq<Seq<char>>,
)
    ensures
        flagged(rooms, flags).len() > 0 ==> resolve_spec(rooms, flags, backup, cached) == (
        flagged(rooms, flags),
        RelationSource::Primary,
        ) && resolve_spec(rooms, flags, backup, cached) == resolve_spec(rooms, flags, other_backup, other_cached),
        flagged(rooms, flags).len() == 0 && known_only(backup, rooms).len() > 0 ==> resolve_spec(
            rooms,
            flags,
            backup,
            cached,
        ) == (known_only(backup, rooms), RelationSource::BackupRecord) && resolve_spec(rooms, flags, backup, cached)
            == resolve_spec(rooms, flags, backup, other_cached),
        flagged(rooms, flags).len() == 0 && known_only(backup, rooms).len() == 0 ==> resolve_spec(
            rooms,
            flags,
            backup,
            cached,
        ).0 == known_only(cached, rooms),
{
}

/// The rooms of `rooms` whose entry of `has_child_record` is set.
pub fn children_with_record(rooms: &Vec<String>, has_child_record: &Vec<bool>) -> (r: Vec<String>)
    requires
        has_child_record.len() == rooms.len(),
    ensures
        strs_view(r@) == flagged(strs_view(rooms@), has_child_record@),
{
    let ghost sv = strs_view(rooms@);
    let mut r: Vec<String> = Vec::new();
    let mut i: usize = 0;
    while i < rooms.len()
        invariant
            i <= rooms.len(),
            has_child_record.len() == rooms.len(),
            sv == strs_view(rooms@),
            strs_view(r@) == flagged(sv.take(i as int), has_child_record@.take(i as int)),
        decreases rooms.len() - i,
    {
        let ghost before = r@;
        assert(sv.take(i + 1).drop_last() =~= sv.take(i as int));
        assert(has_child_record@.take(i + 1).take(i as int) =~= has_child_record@.take(i as int));
        assert(sv.take(i + 1).last() == rooms@[i as int]@);
        if has_child_record[i] {
            r.push(rooms[i].clone());
            assert(strs_view(r@) =~= strs_view(before).push(rooms@[i as int]@));
        }
        i = i + 1;
    }
    assert(sv.take(i as int) =~= sv);
    assert(has_child_record@.take(i as int) =~= has_child_record@);
    r
}

/// The ids of `ids` that name one of `rooms`, in order.
pub fn known_rooms(ids: &Vec<String>, rooms: &Vec<String>) -> (r: Vec<String>)
    ensures
        strs_view(r@) == known_only(strs_view(ids@), strs_view(rooms@)),
{
    let ghost sv = strs_view(ids@);
    let mut r: Vec<String> = Vec::new();
    let mut i: usize = 0;
    while i < ids.len()
        invariant
            i <= ids.len(),
            sv == strs_view(ids@),
            strs_view(r@) == known_only(sv.take(i as int), strs_view(rooms@)),
        decreases ids.len() - i,
    {
        let ghost before = r@;
        assert(sv.take(i + 1).drop_last() =~= sv.take(i as int));
        assert(sv.take(i + 1).last() == ids@[i as int]@);
        if contains_str(rooms, &ids[i]) {
            r.push(ids[i].clone());
            assert(strs_view(r@) =~= strs_view(before).push(ids@[i as int]@));
        }
        i = i + 1;
    }
    assert(sv.take(i as int) =~= sv);
    r
}

/// The cards of a list and where they were found. `rooms` are the rooms the
/// client knows and `has_child_record[i]` whether the list declares
/// `rooms[i]` as a child; `backup` holds the ids of the list's backup record
/// and `cached` those of the local cache.
pub fn resolve_children(
    rooms: &Vec<String>,
    has_child_record: &Vec<bool>,
    backup: &Vec<String>,
    cached: &Vec<String>,
) -> (r: (Vec<String>, RelationSource))
    requires
        has_child_record.len() == rooms.len(),
    ensures
        (strs_view(r.0@), r.1) == resolve_spec(strs_view(rooms@), has_child_record@, strs_view(backup@), strs_view(cached@)),
{
    let p = children_with_record(rooms, has_child_record);
    if p.len() > 0 {
        return (p, RelationSource::Primary);
    }
    let b = known_rooms(backup, rooms);
    if b.len() > 0 {
        return (b, RelationSource::BackupRecord);
    }
    let c = known_rooms(cached, rooms);
    if c.len() > 0 {
        return (c, RelationSource::LocalCache);
    }
    let e: Vec<String> = Vec::new();
    assert(strs_view(e@) =~= Seq::<Seq<char>>::empty());
    (e, RelationSource::Unknown)
}

/// The backup record after adding `card`: `None` when the record already
/// lists it (nothing to write), else the list to write; a record that could
/// not be read is replaced by the card alone.
pub open spec fn merged_backup(existing: Option<Seq<Seq<char>>>, card: Seq<char>) -> Option<Seq<Seq<char>>> {
    match existing {
        Some(ids) => if ids.contains(card) {
            None
        } else {
            Some(ids.push(card))
        },
        None => Some(seq![card]),
    }
}

/// The list of card ids to write to the backup record when `card_id` joins
/// a list whose record read as `existing` (`None`: the read failed).
pub fn merge_backup_list(existing: Option<Vec<String>>, card_id: &String) -> (r: Option<Vec<String>>)
    ensures
        match r {
            Some(v) => merged_backup(
                match existing {
                    Some(e) => Some(strs_view(e@)),
                    None => None,
                },
                card_id@,
            ) == Some(strs_view(v@)),
            None => merged_backup(
                match existing {
                    Some(e) => Some(strs_view(e@)),
                    None => None,
                },
                card_id@,
            ) is None,
        },
{
    match existing {
        Some(mut ids) => {
            if contains_str(&ids, card_id) {
                None
            } else {
                let ghost before = ids@;
                ids.push(card_id.clone());
                assert(strs_view(ids@) =~= strs_view(before).push(card_id@));
                Some(ids)
            }
        },
        None => {
            let v = vec![card_id.clone()];
            assert(strs_view(v@) =~= seq![card_id@]);
            Some(v)
        },
    }
}

/// The entries of a backup record that are strings and valid room ids.
pub open spec fn record_card_ids(items: Seq<Option<String>>) -> Seq<Seq<char>>
    decreases items.len(),
{
    if items.len() == 0 {
        Seq::empty()
    } else {
        let r = record_card_ids(items.drop_last());
        match items.last() {
            Some(s) => if room_id_valid(s@) {
                r.push(s@)
            } else {
                r
            },
            None => r,
        }
    }
}

/// Reads the card ids of a backup record whose array held `items`
/// (`None` for an entry that is not a string); invalid ids are skipped.
pub fn card_ids_from_record(items: &Vec<Option<String>>) -> (r: Vec<String>)
    ensures
        strs_view(r@) == record_card_ids(items@),
{
    let mut r: Vec<String> = Vec::new();
    let mut i: usize = 0;
    while i < items.len()
        invariant
            i <= items.len(),
            strs_view(r@) == record_card_ids(items@.take(i as int)),
        decreases items.len() - i,
    {
        let ghost before = r@;
        assert(items@.take(i + 1).drop_last() =~= items@.take(i as int));
        assert(items@.take(i + 1).last() == items@[i as int]);
        match &items[i] {
            Some(s) => {
                if is_room_id(s.as_str()) {
                    r.push(s.clone());
                    assert(strs_view(r@) =~= strs_view(before).push(s@));
                }
            },
            None => {},
        }
        i = i + 1;
    }
    assert(items@.take(i as int) =~= items@);
    r
}

} // verus!
