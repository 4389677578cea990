//! Mapping between cards and the records stored on their rooms, and the
//! topic marker that identifies list containers.
use vstd::prelude::*;
use crate::board::{CardView, KanbanCard, TodoItem, TodoView, fresh_card, todos_view};
use crate::order::INITIAL_ORDER;
use crate::text::{copy_opt, copy_strings, opt_view, push_char, strs_view};

verus! {

/// The card-level metadata record of a card room. A field the record did
/// not hold is `None`.
#[derive(Debug, Clone)]
pub struct CardMetadataRaw {
    pub title: String,
    pub description: Option<String>,
    pub position: Option<u64>,
    pub end_time: Option<u64>,
    pub tags: Option<Vec<String>>,
    pub created_at: Option<u64>,
    pub updated_at: Option<u64>,
}

pub struct MetadataView {
    pub title: Seq<char>,
    pub description: Option<Seq<char>>,
    pub position: Option<u64>,
    pub end_time: Option<u64>,
    pub tags: Option<Seq<Seq<char>>>,
    pub created_at: Option<u64>,
    pub updated_at: Option<u64>,
}

impl View for CardMetadataRaw {
    type V = MetadataView;

    open spec fn view(&self) -> MetadataView {
        MetadataView {
            title: self.title@,
            description: opt_view(self.description),
            position: self.position,
            end_time: self.end_time,
            tags: match self.tags {
                Some(t) => Some(strs_view(t@)),
                None => None,
            },
            created_at: self.created_at,
            updated_at: self.updated_at,
        }
    }
}

/// The metadata record written for card `c`.
pub open spec fn encode_spec(c: CardView) -> MetadataView {
    MetadataView {
        title: c.title,
        description: c.description,
        position: Some(c.position),
        end_time: c.end_time,
        tags: Some(c.tags),
        created_at: Some(c.created_at),
        updated_at: Some(c.updated_at),
    }
}

/// The card read from room `id` of list `space_id`: from its metadata record
/// and todo record when it has one, with defaults for missing fields; else a
/// fresh card titled with the room's display name.
pub open spec fn decode_spec(
    id: Seq<char>,
    space_id: Seq<char>,
    m: Option<MetadataView>,
    todos: Seq<TodoView>,
    display_name: Seq<char>,
    now: u64,
) -> CardView {
    match m {
        Some(m) => CardView {
            id,
            title: m.title,
            description: m.description,
            space_id,
            position: match m.position {
                Some(p) => p,
                None => INITIAL_ORDER,
            },
            tags: match m.tags {
                Some(t) => t,
                None => Seq::empty(),
            },
            end_time: m.end_time,
            todos,
            created_at: match m.created_at {
                Some(t) => t,
                None => now,
            },
            updated_at: match m.updated_at {
                Some(t) => t,
                None => now,
            },
        },
        None => fresh_card(id, display_name, space_id, now),
    }
}

/// Encoding a card's metadata and decoding it with the card's own todos
/// gives the card back.
pub proof fn lemma_metadata_round_trip(c: CardView, display_name: Seq<char>, now: u64)
    ensures
        decode_spec(c.id, c.space_id, Some(encode_spec(c)), c.todos, display_name, now) == c,
{
}

/// The metadata record to write for `card`.
pub fn encode_card_metadata(card: &KanbanCard) -> (r: CardMetadataRaw)
    ensures
        r@ == encode_spec(card@),
{
    CardMetadataRaw {
        title: card.title.clone(),
        description: copy_opt(&card.description),
        position: Some(card.position),
        end_time: card.end_time,
        tags: Some(copy_strings(&card.tags)),
        created_at: Some(card.created_at),
        updated_at: Some(card.updated_at),
    }
}

/// The card of room `id` in list `space_id`, from its metadata record (if
/// any) and the todos read from its todo record.
pub fn card_from_metadata(
    id: String,
    space_id: String,
    metadata: Option<CardMetadataRaw>,
    todos: Vec<TodoItem>,
    display_name: String,
    now: u64,
) -> (r: KanbanCard)
    ensures
        r@ == decode_spec(
            id@,
            space_id@,
            match metadata {
                Some(m) => Some(m@),
                None => None,
            },
            todos_view(todos@),
            display_name@,
            now,
        ),
{
    match metadata {
        Some(m) => {
            let tags = match m.tags {
                Some(t) => t,
                None => Vec::new(),
            };
            let r = KanbanCard {
                id,
                title: m.title,
                description: m.description,
                space_id,
                position: match m.position {
                    Some(p) => p,
                    None => INITIAL_ORDER,
                },
                tags,
                end_time: m.end_time,
                todos,
                created_at: match m.created_at {
                    Some(t) => t,
                    None => now,
                },
                updated_at: match m.updated_at {
                    Some(t) => t,
                    None => now,
                },
            };
            assert(m.tags is None ==> strs_view(r.tags@) =~= Seq::<Seq<char>>::empty());
            r
        },
        None => KanbanCard::new(id, display_name, space_id, now),
    }
}


/// The marker that a list's topic carries.
pub open spec fn list_marker() -> Seq<char> {
    seq!['[', 'k', 'a', 'n', 'b', 'a', 'n', '-', 'l', 'i', 's', 't', ']']
}

/// Whether `c` has the Unicode `White_Space` property.
pub open spec fn white_space(c: char) -> bool {
    let u = c as u32;
    (0x9 <= u && u <= 0xD) || u == 0x20 || u == 0x85 || u == 0xA0 || u == 0x1680 || (0x2000 <= u && u <= 0x200A)
        || u == 0x2028 || u == 0x2029 || u == 0x202F || u == 0x205F || u == 0x3000
}

/// Relies on `char::is_whitespace`: the Unicode `White_Space` property.
#[verifier::external_body]
fn is_whitespace(c: char) -> (r: bool)
    ensures
        r == white_space(c),
{
    c.is_whitespace()
}

/// Whether the marker starts at index `i` of `t`.
pub open spec fn marker_at_spec(t: Seq<char>, i: int) -> bool {
    0 <= i && i + list_marker().len() <= t.len() && t.subrange(i, i + list_marker().len()) == list_marker()
}

/// Whether the marker occurs somewhere in `t`.
pub open spec fn has_marker(t: Seq<char>) -> bool {
    exists|i: int| #[trigger] marker_at_spec(t, i)
}

/// `t` without the markers it starts with.
pub open spec fn strip_markers(t: Seq<char>) -> Seq<char>
    decreases t.len(),
{
    if t.len() >= list_marker().len() && t.take(list_marker().len() as int) == list_marker() {
        strip_markers(t.skip(list_marker().len() as int))
    } else {
        t
    }
}

pub open spec fn trim_start(t: Seq<char>) -> Seq<char>
    decreases t.len(),
{
    if t.len() > 0 && white_space(t[0]) {
        trim_start(t.skip(1))
    } else {
        t
    }
}

pub open spec fn trim_end(t: Seq<char>) -> Seq<char>
    decreases t.len(),
{
    if t.len() > 0 && white_space(t.last()) {
        trim_end(t.drop_last())
    } else {
        t
    }
}

/// The list name a topic declares: `None` for a topic without the marker,
/// else the topic without its leading markers and surrounding white space
/// (empty when the room's display name is to be used).
pub open spec fn topic_name(t: Seq<char>) -> Option<Seq<char>> {
    if has_marker(t) {
        Some(trim_end(trim_start(strip_markers(t))))
    } else {
        None
    }
}

/// The topic given to a new list named `name`.
pub open spec fn list_topic_spec(name: Seq<char>) -> Seq<char> {
    list_marker() + seq![' '] + name
}

/// Reading back the topic written for a new list gives the list's name
/// without surrounding white space.
pub proof fn lemma_topic_round_trip(name: Seq<char>)
    ensures
        topic_name(list_topic_spec(name)) == Some(trim_end(trim_start(name))),
{
    let t = list_topic_spec(name);
    let m = list_marker();
    assert(t.subrange(0, m.len() as int) =~= m);
    assert(marker_at_spec(t, 0));
    assert(t.take(m.len() as int) =~= m);
    let rest = t.skip(m.len() as int);
    assert(rest =~= seq![' '] + name);
    assert(rest[0] == ' ');
    if rest.len() >= m.len() {
        assert(rest.take(m.len() as int)[0] != m[0]);
    }
    assert(strip_markers(rest) == rest);
    assert(strip_markers(t) == rest);
    assert(white_space(' '));
    assert(rest.skip(1) =~= name);
}

fn chars_of(s: &str) -> (r: Vec<char>)
    ensures
        r@ == s@,
{
    let n = s.unicode_len();
    let mut r: Vec<char> = Vec::new();
    let mut i: usize = 0;
    while i < n
        invariant
            n == s@.len(),
            i <= n,
            r@ == s@.take(i as int),
        decreases n - i,
    {
        r.push(s.get_char(i));
        i = i + 1;
        assert(r@ =~= s@.take(i as int));
    }
    assert(s@.take(n as int) =~= s@);
    r
}

fn marker_chars() -> (r: Vec<char>)
    ensures
        r@ == list_marker(),
{
    let r = vec!['[', 'k', 'a', 'n', 'b', 'a', 'n', '-', 'l', 'i', 's', 't', ']'];
    assert(r@ =~= list_marker());
    r
}

/// Whether the marker starts at index `i` of `t`.
fn marker_at(t: &Vec<char>, m: &Vec<char>, i: usize) -> (r: bool)
    requires
        m@ == list_marker(),
        i + m.len() <= t.len(),
    ensures
        r == (t@.subrange(i as int, i + m.len()) == list_marker()),
{
    let mut j: usize = 0;
    while j < m.len()
        invariant
            m@ == list_marker(),
            i + m.len() <= t.len(),
            j <= m.len(),
            forall|k: int| 0 <= k < j ==> t@[i + k] == m@[k],
        decreases m.len() - j,
    {
        if t[i + j] != m[j] {
            assert(t@.subrange(i as int, i + m.len())[j as int] != list_marker()[j as int]);
            return false;
        }
        j = j + 1;
    }
    assert(t@.subrange(i as int, i + m.len()) =~= list_marker());
    true
}

/// The list name declared by `topic`; see `topic_name`.
pub fn list_name_from_topic(topic: &str) -> (r: Option<String>)
    ensures
        opt_view(r) == topic_name(topic@),
{
    let t = chars_of(topic);
    let m = marker_chars();
    let n = t.len();
    let ml = m.len();
    // does the marker occur at all?
    let mut found = false;
    let mut i: usize = 0;
    while ml <= n - i
        invariant
            i <= n,
            t@ == topic@,
            m@ == list_marker(),
            n == t.len(),
            ml == m.len(),
            found ==> has_marker(t@),
            !found ==> forall|k: int| 0 <= k < i ==> !#[trigger] marker_at_spec(t@, k),
        ensures
            i <= n,
            found ==> has_marker(t@),
            !found ==> ml > n - i,
            !found ==> forall|k: int| 0 <= k < i ==> !#[trigger] marker_at_spec(t@, k),
        decreases n - i,
    {
        if marker_at(&t, &m, i) {
            assert(marker_at_spec(t@, i as int));
            found = true;
            break;
        }
        i = i + 1;
    }
    if !found {
        assert(!has_marker(t@)) by {
            if has_marker(t@) {
                let k = choose|k: int| marker_at_spec(t@, k);
                assert(k < i);
            }
        }
        return None;
    }
    // leading markers
    let mut start: usize = 0;
    assert(t@.skip(0) =~= t@);
    while ml <= n - start && marker_at(&t, &m, start)
        invariant
            t@ == topic@,
            m@ == list_marker(),
            n == t.len(),
            ml == m.len(),
            start <= n,
            strip_markers(t@) == strip_markers(t@.skip(start as int)),
        decreases n - start,
    {
        assert(t@.skip(start as int).take(ml as int) =~= t@.subrange(start as int, start + ml));
        assert(t@.skip(start as int).skip(ml as int) =~= t@.skip(start + ml));
        start = start + ml;
    }
    proof {
        if ml <= n - start {
            assert(t@.skip(start as int).take(ml as int) =~= t@.subrange(start as int, start + ml));
        }
    }
    let mut end: usize = n;
    assert(t@.skip(start as int) =~= t@.subrange(start as int, end as int));
    // leading white space
    while start < end && is_whitespace(t[start])
        invariant
            t@ == topic@,
            n == t.len(),
            start <= end <= n,
            trim_start(strip_markers(t@)) == trim_start(t@.subrange(start as int, end as int)),
        decreases end - start,
    {
        assert(t@.subrange(start as int, end as int).skip(1) =~= t@.subrange(start + 1, end as int));
        start = start + 1;
    }
    let ghost mid = t@.subrange(start as int, end as int);
    assert(trim_start(mid) == mid);
    // trailing white space
    while start < end && is_whitespace(t[end - 1])
        invariant
            t@ == topic@,
            n == t.len(),
            start <= end <= n,
            trim_end(trim_start(strip_markers(t@))) == trim_end(t@.subrange(start as int, end as int)),
        decreases end - start,
    {
        assert(t@.subrange(start as int, end as int).drop_last() =~= t@.subrange(start as int, end - 1));
        end = end - 1;
    }
    let mut name = String::new();
    let mut k: usize = start;
    while k < end
        invariant
            n == t.len(),
            start <= k <= end <= n,
            name@ == t@.subrange(start as int, k as int),
        decreases end - k,
    {
        push_char(&mut name, t[k]);
        k = k + 1;
        assert(name@ =~= t@.subrange(start as int, k as int));
    }
    Some(name)
}

/// The topic that marks a new list named `name` as a board list.
pub fn list_topic(name: &str) -> (r: String)
    ensures
        r@ == list_topic_spec(name@),
        topic_name(r@) == Some(trim_end(trim_start(name@))),
{
    proof {
        lemma_topic_round_trip(name@);
    }
    let m = marker_chars();
    let mut r = String::new();
    let mut i: usize = 0;
    while i < m.len()
        invariant
            m@ == list_marker(),
            i <= m.len(),
            r@ == list_marker().take(i as int),
        decreases m.len() - i,
    {
        push_char(&mut r, m[i]);
        i = i + 1;
        assert(r@ =~= list_marker().take(i as int));
    }
    push_char(&mut r, ' ');
    let t = chars_of(name);
    let mut j: usize = 0;
    while j < t.len()
        invariant
            t@ == name@,
            j <= t.len(),
            r@ == list_marker() + seq![' '] + name@.take(j as int),
        decreases t.len() - j,
    {
        push_char(&mut r, t[j]);
        j = j + 1;
        assert(r@ =~= list_marker() + seq![' '] + name@.take(j as int));
    }
    assert(name@.take(j as int) =~= name@);
    r
}

} // verus!
