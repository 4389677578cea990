//! Identifiers: room identifiers of the hierarchy and random suffixes.
use vstd::prelude::*;

verus! {

/// Relies on `uuid::Uuid::new_v4` and `Uuid::as_fields`: the first field of
/// a random identifier, i.e. its first eight hexadecimal digits.
#[verifier::external_body]
pub(crate) fn random_u32() -> (r: u32) {
    uuid::Uuid::new_v4().as_fields().0
}

/// Whether ruma accepts `s` as a room identifier: it starts with `!` and
/// holds no NUL character (matrix-sdk lifts ruma's length limit).
pub open spec fn room_id_valid(s: Seq<char>) -> bool {
    s.len() > 0 && s[0] == '!' && !s.contains('\0')
}

/// Relies on `matrix_sdk::ruma::OwnedRoomId::try_from(&str)`, which runs
/// ruma's room-id validation.
#[verifier::external_body]
pub(crate) fn is_room_id(s: &str) -> (r: bool)
    ensures
        r == room_id_valid(s@),
{
    matrix_sdk::ruma::OwnedRoomId::try_from(s).is_ok()
}

/// The strings of `s` that are valid room identifiers, in order.
pub open spec fn valid_room_ids(s: Seq<Seq<char>>) -> Seq<Seq<char>>
    decreases s.len(),
{
    if s.len() == 0 {
        Seq::empty()
    } else {
        let r = valid_room_ids(s.drop_last());
        if room_id_valid(s.last()) {
            r.push(s.last())
        } else {
            r
        }
    }
}

/// `valid_room_ids` keeps only entries of `s`, and keeps them distinct.
pub proof fn lemma_valid_room_ids_distinct(s: Seq<Seq<char>>)
    ensures
        forall|y: Seq<char>| valid_room_ids(s).contains(y) ==> s.contains(y),
        s.no_duplicates() ==> valid_room_ids(s).no_duplicates(),
    decreases s.len(),
{
    if s.len() > 0 {
        let d = s.drop_last();
        lemma_valid_room_ids_distinct(d);
        let r = valid_room_ids(d);
        assert forall|y: Seq<char>| valid_room_ids(s).contains(y) implies s.contains(y) by {
            if r.contains(y) {
                assert(d.contains(y));
                let j = choose|j: int| 0 <= j < d.len() && d[j] == y;
                assert(s[j] == y);
            } else {
                assert(s[s.len() - 1] == y);
            }
        }
        if s.no_duplicates() {
            assert(d.no_duplicates()) by {
                assert forall|i: int, j: int| 0 <= i < d.len() && 0 <= j < d.len() && i != j implies d[i] != d[j] by {
                    assert(d[i] == s[i] && d[j] == s[j]);
                }
            }
            if room_id_valid(s.last()) {
                assert(!r.contains(s.last())) by {
                    if r.contains(s.last()) {
                        assert(d.contains(s.last()));
                        let j = choose|j: int| 0 <= j < d.len() && d[j] == s.last();
                        assert(s[j] == d[j]);
                        assert(s[j] != s[s.len() - 1]);
                    }
                }
                crate::text::lemma_push_distinct(r, s.last());
            }
        }
    }
}

/// The strings of `v` that are valid room identifiers, in order.
pub fn filter_room_ids(v: &Vec<String>) -> (r: Vec<String>)
    ensures
        crate::text::strs_view(r@) == valid_room_ids(crate::text::strs_view(v@)),
{
    let ghost sv = crate::text::strs_view(v@);
    let mut r: Vec<String> = Vec::new();
    let mut i: usize = 0;
    while i < v.len()
        invariant
            i <= v.len(),
            sv == crate::text::strs_view(v@),
            crate::text::strs_view(r@) == valid_room_ids(sv.take(i as int)),
        decreases v.len() - i,
    {
        let ghost before = r@;
        assert(sv.take(i + 1).drop_last() =~= sv.take(i as int));
        assert(sv.take(i + 1).last() == v@[i as int]@);
        if is_room_id(v[i].as_str()) {
            r.push(v[i].clone());
            assert(crate::text::strs_view(r@) =~= crate::text::strs_view(before).push(v@[i as int]@));
        }
        i = i + 1;
    }
    assert(sv.take(i as int) =~= sv);
    r
}

} // verus!
