//! Local cache of list membership: the last-resort tier of the resolver.
//!
//! Every relationship this client establishes is recorded here, whatever the
//! server kept. The caller persists the whole cache after each change.
use vstd::prelude::*;
use crate::ids::{filter_room_ids, lemma_valid_room_ids_distinct, valid_room_ids};
use crate::keyed::{keyed, keys_unique, lemma_keyed_domain, lemma_keyed_push, lemma_keyed_update, lemma_keyed_value};
use crate::text::{contains_str, lemma_push_distinct, lemma_without_distinct, strings_without, strs_view, without};

verus! {

/// The cards cached for one list.
#[derive(Debug, Clone)]
pub struct SpaceCards {
    pub space_id: String,
    pub card_ids: Vec<String>,
}

/// List id to the ids of its cards, in the order they were added.
#[derive(Debug, Clone)]
pub struct CacheData {
    pub space_cards: Vec<SpaceCards>,
}

pub open spec fn cache_entries(s: Seq<SpaceCards>) -> Seq<(Seq<char>, Seq<Seq<char>>)> {
    s.map_values(|e: SpaceCards| (e.space_id@, strs_view(e.card_ids@)))
}

impl View for CacheData {
    type V = Map<Seq<char>, Seq<Seq<char>>>;

    open spec fn view(&self) -> Map<Seq<char>, Seq<Seq<char>>> {
        keyed(cache_entries(self.space_cards@))
    }
}

/// The cards cached for list `space` (none for an unknown list).
pub open spec fn cached_for(m: Map<Seq<char>, Seq<Seq<char>>>, space: Seq<char>) -> Seq<Seq<char>> {
    if m.contains_key(space) {
        m[space]
    } else {
        Seq::empty()
    }
}

impl CacheData {
    /// Each list has one entry, and the card ids of a list are distinct.
    pub open spec fn wf(&self) -> bool {
        &&& keys_unique(cache_entries(self.space_cards@))
        &&& forall|k: Seq<char>| #[trigger] self@.contains_key(k) ==> self@[k].no_duplicates()
    }

    /// An empty cache.
    pub fn new() -> (r: CacheData)
        ensures
            r.wf(),
            r@ == Map::<Seq<char>, Seq<Seq<char>>>::empty(),
    {
        let r = CacheData { space_cards: Vec::new() };
        assert(cache_entries(r.space_cards@) =~= Seq::empty());
        r
    }

    fn find_space(&self, space_id: &String) -> (r: Option<usize>)
        requires
            self.wf(),
        ensures
            r is None ==> !self@.contains_key(space_id@),
            r is Some ==> r.unwrap() < self.space_cards.len() && self.space_cards[r.unwrap() as int].space_id@
                == space_id@ && self@.contains_key(space_id@) && self@[space_id@] == strs_view(
                self.space_cards[r.unwrap() as int].card_ids@,
            ),
    {
        let mut i: usize = 0;
        while i < self.space_cards.len()
            invariant
                self.wf(),
                i <= self.space_cards.len(),
                forall|j: int| 0 <= j < i ==> self.space_cards@[j].space_id@ != space_id@,
            decreases self.space_cards.len() - i,
        {
            if self.space_cards[i].space_id == *space_id {
                proof {
                    lemma_keyed_value(cache_entries(self.space_cards@), i as int);
                }
                return Some(i);
            }
            i = i + 1;
        }
        proof {
            lemma_keyed_domain(cache_entries(self.space_cards@), space_id@);
            if self@.contains_key(space_id@) {
                let j = choose|j: int|
                    0 <= j < self.space_cards.len() && cache_entries(self.space_cards@)[j].0 == space_id@;
                assert(self.space_cards@[j].space_id@ == space_id@);
            }
        }
        None
    }

    /// Stores `cards` as the entry of `space_id`.
    fn set_entry(&mut self, space_id: &String, cards: Vec<String>)
        requires
            old(self).wf(),
            strs_view(cards@).no_duplicates(),
        ensures
            final(self).wf(),
            final(self)@ == old(self)@.insert(space_id@, strs_view(cards@)),
    {
        let ghost s = cache_entries(self.space_cards@);
        let ghost v = strs_view(cards@);
        let entry = SpaceCards { space_id: space_id.clone(), card_ids: cards };
        match self.find_space(space_id) {
            Some(i) => {
                self.space_cards.set(i, entry);
                proof {
                    lemma_keyed_update(s, i as int, v);
                    assert(cache_entries(self.space_cards@) =~= s.update(i as int, (s[i as int].0, v)));
                }
            },
            None => {
                self.space_cards.push(entry);
                proof {
                    lemma_keyed_push(s, space_id@, v);
                    assert(cache_entries(self.space_cards@) =~= s.push((space_id@, v)));
                }
            },
        }
    }
}

/// Records that card `card_id` belongs to list `space_id`.
pub fn add_card_to_space_cache(cache: &mut CacheData, space_id: &String, card_id: &String)
    requires
        old(cache).wf(),
    ensures
        final(cache).wf(),
        final(cache)@ == old(cache)@.insert(
            space_id@,
            if cached_for(old(cache)@, space_id@).contains(card_id@) {
                cached_for(old(cache)@, space_id@)
            } else {
                cached_for(old(cache)@, space_id@).push(card_id@)
            },
        ),
{
    let mut cards: Vec<String> = match cache.find_space(space_id) {
        Some(i) => crate::text::copy_strings(&cache.space_cards[i].card_ids),
        None => Vec::new(),
    };
    assert(strs_view(cards@) =~= cached_for(old(cache)@, space_id@));
    if !contains_str(&cards, card_id) {
        let ghost before = cards@;
        cards.push(card_id.clone());
        assert(strs_view(cards@) =~= strs_view(before).push(card_id@));
        proof {
            lemma_push_distinct(strs_view(before), card_id@);
        }
    }
    cache.set_entry(space_id, cards);
}

/// The cards cached for list `space_id` that are valid room ids.
pub fn get_cards_from_cache(cache: &CacheData, space_id: &String) -> (r: Vec<String>)
    requires
        cache.wf(),
    ensures
        strs_view(r@) == valid_room_ids(cached_for(cache@, space_id@)),
        strs_view(r@).no_duplicates(),
{
    proof {
        lemma_valid_room_ids_distinct(cached_for(cache@, space_id@));
    }
    match cache.find_space(space_id) {
        Some(i) => filter_room_ids(&cache.space_cards[i].card_ids),
        None => {
            let r: Vec<String> = Vec::new();
            assert(strs_view(r@) =~= Seq::<Seq<char>>::empty());
            r
        },
    }
}

/// Forgets that card `card_id` belongs to list `space_id`.
pub fn remove_card_from_cache(cache: &mut CacheData, space_id: &String, card_id: &String)
    requires
        old(cache).wf(),
    ensures
        final(cache).wf(),
        old(cache)@.contains_key(space_id@) ==> final(cache)@ == old(cache)@.insert(
            space_id@,
            without(old(cache)@[space_id@], card_id@),
        ),
        !old(cache)@.contains_key(space_id@) ==> final(cache)@ == old(cache)@,
{
    match cache.find_space(space_id) {
        Some(i) => {
            let cards = strings_without(&cache.space_cards[i].card_ids, card_id);
            proof {
                lemma_without_distinct(old(cache)@[space_id@], card_id@);
            }
            cache.set_entry(space_id, cards);
        },
        None => {},
    }
}

/// Empties the cache.
pub fn clear_cache(cache: &mut CacheData)
    ensures
        final(cache).wf(),
        final(cache)@ == Map::<Seq<char>, Seq<Seq<char>>>::empty(),
{
    *cache = CacheData::new();
}

} // verus!
