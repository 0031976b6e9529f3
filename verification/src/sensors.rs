//! Sensor values by key, kept in the order of the keys.

use crate::caption::{Caption, PieceView};
use crate::text::{
    lemma_text_le_antisymmetric, lemma_text_le_total, lemma_text_le_transitive, text_before,
    text_equal, text_le, text_lt,
};
use vstd::prelude::*;

verus! {

/// Captions by key. Every key occurs once, and the entries stand in dictionary order of their keys.
pub struct Sensors {
    entries: Vec<(String, Caption)>,
}

/// Whether the keys of the entries ascend strictly in dictionary order.
pub open spec fn ascending(entries: Seq<(String, Caption)>) -> bool {
    forall|i: int, j: int|
        0 <= i < j < entries.len() ==> text_lt((#[trigger] entries[i]).0@, (#[trigger] entries[j]).0@)
}

/// Whether `position` is that of an entry with the key.
pub open spec fn holds_key(
    entries: Seq<(String, Caption)>,
    position: int,
    key: Seq<char>,
) -> bool {
    0 <= position < entries.len() && entries[position].0@ == key
}

/// The entries as a map from keys to captions.
pub open spec fn entry_map(entries: Seq<(String, Caption)>) -> Map<Seq<char>, Seq<PieceView>> {
    Map::new(
        |key: Seq<char>| exists|i: int| holds_key(entries, i, key),
        |key: Seq<char>| entries[choose|i: int| holds_key(entries, i, key)].1@,
    )
}

/// Where the keys ascend, an entry is the one that its key leads to.
proof fn lemma_entry_of_key(entries: Seq<(String, Caption)>, position: int)
    requires
        ascending(entries),
        0 <= position < entries.len(),
    ensures
        entry_map(entries).contains_key(entries[position].0@),
        entry_map(entries)[entries[position].0@] == entries[position].1@,
{
    let key = entries[position].0@;
    assert(holds_key(entries, position, key));
    let chosen = choose|i: int| holds_key(entries, i, key);
    assert(holds_key(entries, chosen, key));
    if chosen < position {
        assert(text_lt(entries[chosen].0@, entries[position].0@));
    } else if position < chosen {
        assert(text_lt(entries[position].0@, entries[chosen].0@));
    }
}

proof fn lemma_text_lt_transitive(a: Seq<char>, b: Seq<char>, c: Seq<char>)
    requires
        text_lt(a, b),
        text_lt(b, c),
    ensures
        text_lt(a, c),
{
    lemma_text_le_transitive(a, b, c);
    if a == c {
        lemma_text_le_antisymmetric(a, b);
    }
}

/// An entry that is put where its key belongs keeps the order and enters the map.
proof fn lemma_inserted(
    old_entries: Seq<(String, Caption)>,
    entry: (String, Caption),
    position: int,
)
    requires
        ascending(old_entries),
        0 <= position <= old_entries.len(),
        forall|i: int| 0 <= i < position ==> text_lt((#[trigger] old_entries[i]).0@, entry.0@),
        forall|i: int|
            position <= i < old_entries.len() ==> text_lt(entry.0@, (#[trigger] old_entries[i]).0@),
    ensures
        ascending(old_entries.insert(position, entry)),
        entry_map(old_entries.insert(position, entry)) == entry_map(old_entries).insert(
            entry.0@,
            entry.1@,
        ),
{
    let entries = old_entries.insert(position, entry);
    assert(ascending(entries));
    let map = entry_map(entries);
    let wanted = entry_map(old_entries).insert(entry.0@, entry.1@);
    assert forall|key: Seq<char>| map.contains_key(key) implies #[trigger] wanted.contains_key(key)
        && map[key] == wanted[key] by {
        let i = choose|i: int| holds_key(entries, i, key);
        assert(holds_key(entries, i, key));
        lemma_entry_of_key(entries, i);
        if i < position {
            assert(entries[i] == old_entries[i]);
            lemma_entry_of_key(old_entries, i);
        } else if i > position {
            assert(entries[i] == old_entries[i - 1]);
            lemma_entry_of_key(old_entries, i - 1);
        }
    }
    assert forall|key: Seq<char>| wanted.contains_key(key) implies #[trigger] map.contains_key(
        key,
    ) by {
        if key == entry.0@ {
            assert(holds_key(entries, position, key));
        } else {
            let i = choose|i: int| holds_key(old_entries, i, key);
            assert(holds_key(old_entries, i, key));
            if i < position {
                assert(holds_key(entries, i, key));
            } else {
                assert(holds_key(entries, i + 1, key));
            }
        }
    }
    assert(map =~= wanted);
}

/// An entry that replaces the one with its key keeps the order and replaces the caption.
proof fn lemma_replaced(
    old_entries: Seq<(String, Caption)>,
    entry: (String, Caption),
    position: int,
)
    requires
        ascending(old_entries),
        0 <= position < old_entries.len(),
        old_entries[position].0@ == entry.0@,
    ensures
        ascending(old_entries.update(position, entry)),
        entry_map(old_entries.update(position, entry)) == entry_map(old_entries).insert(
            entry.0@,
            entry.1@,
        ),
{
    let entries = old_entries.update(position, entry);
    assert(ascending(entries));
    let map = entry_map(entries);
    let wanted = entry_map(old_entries).insert(entry.0@, entry.1@);
    assert forall|key: Seq<char>| map.contains_key(key) implies #[trigger] wanted.contains_key(key)
        && map[key] == wanted[key] by {
        let i = choose|i: int| holds_key(entries, i, key);
        assert(holds_key(entries, i, key));
        lemma_entry_of_key(entries, i);
        lemma_entry_of_key(old_entries, i);
        if i != position {
            lemma_entry_of_key(entries, position);
            if i < position {
                assert(text_lt(entries[i].0@, entries[position].0@));
            } else {
                assert(text_lt(entries[position].0@, entries[i].0@));
            }
        }
    }
    assert forall|key: Seq<char>| wanted.contains_key(key) implies #[trigger] map.contains_key(
        key,
    ) by {
        if key == entry.0@ {
            assert(holds_key(entries, position, key));
        } else {
            let i = choose|i: int| holds_key(old_entries, i, key);
            assert(holds_key(old_entries, i, key));
            assert(holds_key(entries, i, key));
        }
    }
    assert(map =~= wanted);
}

impl View for Sensors {
    type V = Map<Seq<char>, Seq<PieceView>>;

    closed spec fn view(&self) -> Map<Seq<char>, Seq<PieceView>> {
        entry_map(self.entries@)
    }
}

impl Sensors {
    #[verifier::type_invariant]
    spec fn keys_ascend(self) -> bool {
        ascending(self.entries@)
    }

    pub fn new() -> (sensors: Sensors)
        ensures
            sensors@ == Map::<Seq<char>, Seq<PieceView>>::empty(),
    {
        let sensors = Sensors { entries: Vec::new() };
        proof {
            assert forall|key: Seq<char>| !sensors@.contains_key(key) by {
                assert(forall|i: int| !holds_key(sensors.entries@, i, key));
            }
            assert(sensors@ =~= Map::<Seq<char>, Seq<PieceView>>::empty());
        }
        sensors
    }

    /// The entries, in dictionary order of their keys.
    pub fn entries(&self) -> (entries: &Vec<(String, Caption)>)
        ensures
            ascending(entries@),
            entry_map(entries@) == self@,
    {
        proof {
            use_type_invariant(self);
        }
        &self.entries
    }

    /// The first position whose key does not come before `key`.
    fn position_of(entries: &Vec<(String, Caption)>, key: &str) -> (position: usize)
        requires
            ascending(entries@),
        ensures
            position <= entries@.len(),
            forall|i: int| 0 <= i < position ==> text_lt((#[trigger] entries@[i]).0@, key@),
            forall|i: int|
                position <= i < entries@.len() ==> text_le(key@, (#[trigger] entries@[i]).0@),
            forall|i: int|
                position < i < entries@.len() ==> text_lt(key@, (#[trigger] entries@[i]).0@),
    {
        let mut position: usize = 0;
        while position < entries.len() && text_before(entries[position].0.as_str(), key)
            invariant
                position <= entries@.len(),
                forall|i: int| 0 <= i < position ==> text_lt((#[trigger] entries@[i]).0@, key@),
            decreases entries@.len() - position,
        {
            position += 1;
        }
        proof {
            if position < entries@.len() {
                let first = entries@[position as int].0@;
                lemma_text_le_total(first, key@);
                crate::text::lemma_text_le_reflexive(key@);
                assert forall|i: int| position < i < entries@.len() implies text_lt(
                    key@,
                    (#[trigger] entries@[i]).0@,
                ) by {
                    assert(text_lt(first, entries@[i].0@));
                    if key@ != first {
                        lemma_text_lt_transitive(key@, first, entries@[i].0@);
                    }
                }
            }
        }
        position
    }

    /// Puts a caption under a key, in place of one that is there already.
    pub fn insert(&mut self, key: String, caption: Caption)
        ensures
            final(self)@ == old(self)@.insert(key@, caption@),
    {
        proof {
            use_type_invariant(&*self);
        }
        let mut entries: Vec<(String, Caption)> = Vec::new();
        std::mem::swap(&mut entries, &mut self.entries);
        let ghost before = entries@;
        let position: usize = Self::position_of(&entries, key.as_str());
        let ghost entry = (key, caption);
        if position < entries.len() && text_equal(entries[position].0.as_str(), key.as_str()) {
            proof {
                lemma_replaced(before, entry, position as int);
            }
            entries.set(position, (key, caption));
        } else {
            proof {
                lemma_inserted(before, entry, position as int);
            }
            entries.insert(position, (key, caption));
        }
        self.entries = entries;
    }

    /// The caption under a key.
    pub fn get(&self, key: &str) -> (caption: Option<&Caption>)
        ensures
            match caption {
                Some(caption) => self@.contains_key(key@) && self@[key@] == caption@,
                None => !self@.contains_key(key@),
            },
    {
        proof {
            use_type_invariant(self);
        }
        let position: usize = Self::position_of(&self.entries, key);
        if position < self.entries.len() && text_equal(self.entries[position].0.as_str(), key) {
            proof {
                lemma_entry_of_key(self.entries@, position as int);
            }
            Some(&self.entries[position].1)
        } else {
            proof {
                assert forall|i: int| !holds_key(self.entries@, i, key@) by {
                    if 0 <= i < self.entries@.len() && i != position {
                        if i < position {
                            assert(text_lt(self.entries@[i].0@, key@));
                        } else {
                            assert(text_lt(key@, self.entries@[i].0@));
                        }
                    }
                }
            }
            None
        }
    }
}

// ---------------------------------------------------------------------------------------------
// Listings
// ---------------------------------------------------------------------------------------------
/// Whether `lines` holds each key of a map once with its caption, in dictionary order of the keys.
pub open spec fn lists(
    lines: Seq<(Seq<char>, Seq<PieceView>)>,
    map: Map<Seq<char>, Seq<PieceView>>,
) -> bool {
    &&& forall|i: int, j: int|
        0 <= i < j < lines.len() ==> text_lt((#[trigger] lines[i]).0, (#[trigger] lines[j]).0)
    &&& forall|i: int|
        0 <= i < lines.len() ==> map.contains_key((#[trigger] lines[i]).0) && map[lines[i].0]
            == lines[i].1
    &&& forall|key: Seq<char>|
        map.contains_key(key) ==> exists|i: int| 0 <= i < lines.len() && (#[trigger] lines[i]).0
            == key
}

/// The keys of a map with their captions, in dictionary order of the keys.
pub open spec fn listing(map: Map<Seq<char>, Seq<PieceView>>) -> Seq<
    (Seq<char>, Seq<PieceView>),
> {
    choose|lines: Seq<(Seq<char>, Seq<PieceView>)>| lists(lines, map)
}

proof fn lemma_same_line(
    a: Seq<(Seq<char>, Seq<PieceView>)>,
    b: Seq<(Seq<char>, Seq<PieceView>)>,
    map: Map<Seq<char>, Seq<PieceView>>,
    position: int,
)
    requires
        lists(a, map),
        lists(b, map),
        0 <= position < a.len(),
        forall|i: int| 0 <= i < position ==> i < b.len() && #[trigger] a[i] == b[i],
    ensures
        position < b.len(),
        a[position] == b[position],
{
    let key = a[position].0;
    assert(map.contains_key(key));
    let j = choose|j: int| 0 <= j < b.len() && (#[trigger] b[j]).0 == key;
    if j < position {
        assert(a[j] == b[j]);
        assert(text_lt(a[j].0, a[position].0));
    } else if j > position {
        let other = b[position].0;
        assert(text_lt(b[position].0, b[j].0));
        assert(map.contains_key(other));
        let k = choose|k: int| 0 <= k < a.len() && (#[trigger] a[k]).0 == other;
        if k < position {
            assert(a[k] == b[k]);
            assert(text_lt(b[k].0, b[position].0));
        } else if k > position {
            assert(text_lt(a[position].0, a[k].0));
            lemma_text_le_antisymmetric(key, other);
        }
    }
}

proof fn lemma_same_lines(
    a: Seq<(Seq<char>, Seq<PieceView>)>,
    b: Seq<(Seq<char>, Seq<PieceView>)>,
    map: Map<Seq<char>, Seq<PieceView>>,
    count: int,
)
    requires
        lists(a, map),
        lists(b, map),
        0 <= count <= a.len(),
    ensures
        count <= b.len(),
        forall|i: int| 0 <= i < count ==> #[trigger] a[i] == b[i],
    decreases count,
{
    if count > 0 {
        lemma_same_lines(a, b, map, count - 1);
        lemma_same_line(a, b, map, count - 1);
    }
}

/// A map has one listing only.
pub proof fn law_one_listing(
    a: Seq<(Seq<char>, Seq<PieceView>)>,
    b: Seq<(Seq<char>, Seq<PieceView>)>,
    map: Map<Seq<char>, Seq<PieceView>>,
)
    requires
        lists(a, map),
        lists(b, map),
    ensures
        a == b,
{
    lemma_same_lines(a, b, map, a.len() as int);
    lemma_same_lines(b, a, map, b.len() as int);
    assert(a =~= b);
}

/// The entries as keys and captions.
pub open spec fn entry_views(entries: Seq<(String, Caption)>) -> Seq<(Seq<char>, Seq<PieceView>)> {
    entries.map_values(|entry: (String, Caption)| (entry.0@, entry.1@))
}

/// Entries whose keys ascend list the map that they make up.
pub proof fn lemma_entries_are_the_listing(entries: Seq<(String, Caption)>)
    requires
        ascending(entries),
    ensures
        lists(entry_views(entries), entry_map(entries)),
        entry_views(entries) == listing(entry_map(entries)),
{
    let lines = entry_views(entries);
    let map = entry_map(entries);
    assert forall|i: int| 0 <= i < lines.len() implies map.contains_key((#[trigger] lines[i]).0)
        && map[lines[i].0] == lines[i].1 by {
        lemma_entry_of_key(entries, i);
    }
    assert forall|key: Seq<char>| map.contains_key(key) implies exists|i: int|
        0 <= i < lines.len() && (#[trigger] lines[i]).0 == key by {
        let i = choose|i: int| holds_key(entries, i, key);
        assert(holds_key(entries, i, key));
        assert(lines[i].0 == key);
    }
    assert(lists(lines, map));
    law_one_listing(lines, listing(map), map);
}

/// A listing has each key once with its caption, the keys in ascending order, and leaves none out.
pub proof fn law_listing_leaves_nothing_out(
    lines: Seq<(Seq<char>, Seq<PieceView>)>,
    map: Map<Seq<char>, Seq<PieceView>>,
    key: Seq<char>,
)
    requires
        lists(lines, map),
    ensures
        map.contains_key(key) <==> lines.contains((key, map[key])),
        forall|i: int|
            0 <= i < lines.len() ==> (#[trigger] lines[i]).1 == map[lines[i].0]
                && map.contains_key(lines[i].0),
        forall|i: int, j: int|
            0 <= i < j < lines.len() ==> text_lt(
                (#[trigger] lines[i]).0,
                (#[trigger] lines[j]).0,
            ),
{
    if map.contains_key(key) {
        let i = choose|i: int| 0 <= i < lines.len() && (#[trigger] lines[i]).0 == key;
        assert(lines[i] == (key, map[key]));
    }
    if lines.contains((key, map[key])) {
        let i = choose|i: int| 0 <= i < lines.len() && lines[i] == (key, map[key]);
        assert(map.contains_key(lines[i].0));
    }
}

/// Entries whose keys ascend hold what stands under their keys, and nothing else.
pub proof fn law_entries_hold_what_they_say(
    entries: Seq<(String, Caption)>,
    position: int,
    key: Seq<char>,
)
    requires
        ascending(entries),
    ensures
        0 <= position < entries.len() ==> entry_map(entries).contains_key(entries[position].0@)
            && entry_map(entries)[entries[position].0@] == entries[position].1@,
        entry_map(entries).contains_key(key) ==> exists|i: int|
            0 <= i < entries.len() && (#[trigger] entries[i]).0@ == key,
        entry_views(entries).len() == entries.len(),
        0 <= position < entries.len() ==> entry_views(entries)[position] == (
            entries[position].0@,
            entries[position].1@,
        ),
{
    if 0 <= position < entries.len() {
        lemma_entry_of_key(entries, position);
    }
    if entry_map(entries).contains_key(key) {
        let i = choose|i: int| holds_key(entries, i, key);
        assert(holds_key(entries, i, key));
        assert(entries[i].0@ == key);
    }
}

} // verus!
