//! Properties as they are read from a calendar, and the map they are
//! collected into.

use crate::error::ConversionError;
use vstd::prelude::*;

verus! {

/// A name and a value, both as text.
pub type Entry = (Seq<char>, Seq<char>);

/// A list of properties as read: each a name and, where one was given, a
/// value.
pub type RawList = Seq<(Seq<char>, Option<Seq<char>>)>;

/// A property as read from a calendar document: a name and, where the
/// document gave one, a value.
#[derive(Debug, Clone, PartialEq, Eq)]
pub struct RawProperty {
    pub name: String,
    pub value: Option<String>,
}

impl View for RawProperty {
    type V = (Seq<char>, Option<Seq<char>>);

    open spec fn view(&self) -> Self::V {
        (self.name@, self.value.deep_view())
    }
}

impl DeepView for RawProperty {
    type V = (Seq<char>, Option<Seq<char>>);

    open spec fn deep_view(&self) -> Self::V {
        self@
    }
}

/// Whether some entry of `entries` has the name `name`.
pub open spec fn has_name(entries: Seq<Entry>, name: Seq<char>) -> bool {
    exists|i: int| 0 <= i < entries.len() && (#[trigger] entries[i]).0 == name
}

/// Whether no two entries of `entries` share a name.
pub open spec fn distinct_names(entries: Seq<Entry>) -> bool {
    forall|i: int, j: int|
        0 <= i < j < entries.len() ==> (#[trigger] entries[i]).0 != (#[trigger] entries[j]).0
}

/// The index of an entry of `entries` named `name`. Where the names are
/// distinct there is at most one.
pub open spec fn index_of_name(entries: Seq<Entry>, name: Seq<char>) -> int {
    choose|i: int| 0 <= i < entries.len() && (#[trigger] entries[i]).0 == name
}

/// The value of the entry of `entries` named `name`.
pub open spec fn value_of(entries: Seq<Entry>, name: Seq<char>) -> Seq<char> {
    entries[index_of_name(entries, name)].1
}

/// `entries` after `name` has been given the value `value`: an entry of that
/// name keeps its place and takes the new value, a new name goes to the end.
pub open spec fn with_entry(entries: Seq<Entry>, name: Seq<char>, value: Seq<char>) -> Seq<Entry> {
    if has_name(entries, name) {
        entries.update(index_of_name(entries, name), (name, value))
    } else {
        entries.push((name, value))
    }
}

/// The mapping from names to values that `entries` stands for. Of two
/// entries with one name the later one counts.
pub open spec fn as_map(entries: Seq<Entry>) -> Map<Seq<char>, Seq<char>>
    decreases entries.len(),
{
    if entries.len() == 0 {
        Map::empty()
    } else {
        as_map(entries.drop_last()).insert(entries.last().0, entries.last().1)
    }
}

/// What collecting `list` gives: the entries, each name once and in the
/// order in which the names first came, or the name of the first property
/// that has no value.
pub open spec fn extraction(list: RawList) -> Result<Seq<Entry>, Seq<char>>
    decreases list.len(),
{
    if list.len() == 0 {
        Ok(Seq::empty())
    } else {
        match extraction(list.drop_last()) {
            Err(name) => Err(name),
            Ok(entries) => match list.last().1 {
                None => Err(list.last().0),
                Some(value) => Ok(with_entry(entries, list.last().0, value)),
            },
        }
    }
}

/// Giving a name a value keeps the names distinct.
pub proof fn lemma_with_entry_distinct(entries: Seq<Entry>, name: Seq<char>, value: Seq<char>)
    requires
        distinct_names(entries),
    ensures
        distinct_names(with_entry(entries, name, value)),
        has_name(with_entry(entries, name, value), name),
        forall|other: Seq<char>|
            other != name ==> (has_name(with_entry(entries, name, value), other) <==> has_name(
                entries,
                other,
            )),
{
    let after = with_entry(entries, name, value);
    let at = if has_name(entries, name) {
        index_of_name(entries, name)
    } else {
        entries.len() as int
    };
    assert(after[at].0 == name);
    assert forall|other: Seq<char>| other != name implies (has_name(after, other) <==> has_name(
        entries,
        other,
    )) by {
        if has_name(entries, other) {
            let k = index_of_name(entries, other);
            assert(after[k].0 == other);
        }
        if has_name(after, other) {
            let k = index_of_name(after, other);
            assert(entries[k].0 == other);
        }
    }
    assert forall|i: int, j: int| 0 <= i < j < after.len() implies (#[trigger] after[i]).0 != (
    #[trigger] after[j]).0 by {
        if j < entries.len() {
            assert(entries[i].0 != entries[j].0);
        } else {
            assert(entries[i].0 != name);
        }
    }
}

/// Giving a name a value in a list of entries with distinct names gives the
/// name that value in the mapping, and changes nothing else.
pub proof fn lemma_as_map_with_entry(entries: Seq<Entry>, name: Seq<char>, value: Seq<char>)
    requires
        distinct_names(entries),
    ensures
        as_map(with_entry(entries, name, value)) == as_map(entries).insert(name, value),
    decreases entries.len(),
{
    if has_name(entries, name) {
        let at = index_of_name(entries, name);
        let after = entries.update(at, (name, value));
        if at == entries.len() - 1 {
            assert(after.drop_last() == entries.drop_last());
            assert(as_map(after) =~= as_map(entries).insert(name, value));
        } else {
            let front = entries.drop_last();
            assert(front[at].0 == name);
            assert(distinct_names(front)) by {
                assert forall|i: int, j: int| 0 <= i < j < front.len() implies (
                #[trigger] front[i]).0 != (#[trigger] front[j]).0 by {
                    assert(entries[i].0 != entries[j].0);
                }
            }
            assert(index_of_name(front, name) == at) by {
                let chosen = index_of_name(front, name);
                if chosen < at {
                    assert(front[chosen].0 != front[at].0);
                } else if at < chosen {
                    assert(front[at].0 != front[chosen].0);
                }
            }
            lemma_as_map_with_entry(front, name, value);
            assert(after.drop_last() == front.update(at, (name, value)));
            assert(entries[at].0 != entries[entries.len() - 1].0);
            assert(as_map(after) =~= as_map(entries).insert(name, value));
        }
    } else {
        assert(entries.push((name, value)).drop_last() == entries);
    }
}

/// In a list of entries with distinct names the mapping holds exactly the
/// names of the list, each with the value of its entry.
pub proof fn lemma_as_map_of_distinct(entries: Seq<Entry>)
    requires
        distinct_names(entries),
    ensures
        forall|name: Seq<char>| as_map(entries).contains_key(name) <==> has_name(entries, name),
        forall|name: Seq<char>|
            has_name(entries, name) ==> as_map(entries)[name] == value_of(entries, name),
    decreases entries.len(),
{
    if entries.len() > 0 {
        let front = entries.drop_last();
        let last = entries.last();
        assert(distinct_names(front)) by {
            assert forall|i: int, j: int| 0 <= i < j < front.len() implies (#[trigger] front[i]).0
                != (#[trigger] front[j]).0 by {
                assert(entries[i].0 != entries[j].0);
            }
        }
        lemma_as_map_of_distinct(front);
        assert(as_map(entries) == as_map(front).insert(last.0, last.1));
        assert forall|name: Seq<char>| as_map(entries).contains_key(name) <==> has_name(
            entries,
            name,
        ) by {
            if has_name(entries, name) {
                let k = index_of_name(entries, name);
                if k < front.len() {
                    assert(front[k].0 == name);
                    assert(has_name(front, name));
                    assert(as_map(front).contains_key(name));
                } else {
                    assert(name == last.0);
                }
                assert(as_map(entries).contains_key(name));
            }
            if as_map(entries).contains_key(name) {
                if name == last.0 {
                    assert(entries[entries.len() - 1].0 == name);
                } else {
                    assert(as_map(front).contains_key(name));
                    assert(has_name(front, name));
                    let k = index_of_name(front, name);
                    assert(entries[k].0 == name);
                }
                assert(has_name(entries, name));
            }
        }
        assert forall|name: Seq<char>| has_name(entries, name) implies as_map(entries)[name]
            == value_of(entries, name) by {
            let k = index_of_name(entries, name);
            if k < front.len() {
                assert(front[k].0 == name);
                assert(has_name(front, name));
                assert(entries[k].0 != entries[entries.len() - 1].0);
                let in_front = index_of_name(front, name);
                assert(front[in_front].0 == name);
                assert(in_front == k) by {
                    if in_front < k {
                        assert(entries[in_front].0 != entries[k].0);
                    } else if k < in_front {
                        assert(entries[k].0 != entries[in_front].0);
                    }
                }
                assert(as_map(front)[name] == value_of(front, name));
                assert(as_map(entries)[name] == as_map(front)[name]);
            } else {
                assert(name == last.0);
            }
        }
    }
}

/// The properties of one calendar or one event, each name once. The
/// entries stand in the order in which their names first came in, not sorted
/// by name: that is the order in which they are handed out and written.
#[derive(Debug, PartialEq, Eq)]
pub struct PropertyMap {
    entries: Vec<(String, String)>,
}

impl View for PropertyMap {
    type V = Map<Seq<char>, Seq<char>>;

    open spec fn view(&self) -> Self::V {
        as_map(self.entries())
    }
}

impl Clone for PropertyMap {
    fn clone(&self) -> (copy: Self)
        ensures
            copy.entries() == self.entries(),
    {
        proof {
            use_type_invariant(self);
        }
        PropertyMap { entries: self.to_pairs() }
    }
}

impl PropertyMap {
    /// The names and values, in the order in which the names first came.
    pub closed spec fn entries(&self) -> Seq<Entry> {
        self.entries.deep_view()
    }

    /// What holds of every map: no two entries share a name.
    #[verifier::type_invariant]
    pub open spec fn well_formed(&self) -> bool {
        distinct_names(self.entries())
    }

    /// A map without entries.
    pub fn new() -> (map: PropertyMap)
        ensures
            map.entries() == Seq::<Entry>::empty(),
    {
        let map = PropertyMap { entries: Vec::new() };
        assert(map.entries() =~= Seq::<Entry>::empty());
        map
    }

    /// The number of entries.
    pub fn len(&self) -> (n: usize)
        ensures
            n == self.entries().len(),
    {
        self.entries.len()
    }

    /// The name of the entry at `index`.
    pub fn name_at(&self, index: usize) -> (name: &String)
        requires
            index < self.entries().len(),
        ensures
            name@ == self.entries()[index as int].0,
    {
        &self.entries[index].0
    }

    /// The value of the entry at `index`.
    pub fn value_at(&self, index: usize) -> (value: &String)
        requires
            index < self.entries().len(),
        ensures
            value@ == self.entries()[index as int].1,
    {
        &self.entries[index].1
    }

    /// A copy of the entries, in their order.
    pub fn to_pairs(&self) -> (pairs: Vec<(String, String)>)
        ensures
            pairs.deep_view() == self.entries(),
    {
        let mut pairs: Vec<(String, String)> = Vec::new();
        let mut i: usize = 0;
        assert(pairs.deep_view() =~= self.entries().take(0));
        while i < self.entries.len()
            invariant
                i <= self.entries().len(),
                self.entries().len() == self.entries.len(),
                pairs.deep_view() == self.entries().take(i as int),
            decreases self.entries().len() - i,
        {
            let ghost before = pairs.deep_view();
            pairs.push((self.entries[i].0.clone(), self.entries[i].1.clone()));
            assert(pairs.deep_view() =~= before.push(self.entries()[i as int]));
            i += 1;
        }
        assert(self.entries().take(self.entries().len() as int) == self.entries());
        pairs
    }

    /// The place of the entry named `name`, if there is one.
    pub fn position(&self, name: &str) -> (found: Option<usize>)
        ensures
            match found {
                Some(at) => at < self.entries().len() && self.entries()[at as int].0 == name@,
                None => !has_name(self.entries(), name@),
            },
    {
        let key = name.to_owned();
        let mut i: usize = 0;
        while i < self.entries.len()
            invariant
                i <= self.entries.len(),
                key@ == name@,
                forall|k: int| 0 <= k < i ==> (#[trigger] self.entries()[k]).0 != name@,
            decreases self.entries.len() - i,
        {
            if self.entries[i].0 == key {
                return Some(i);
            }
            i += 1;
        }
        None
    }

    /// The value of the entry named `name`, if there is one.
    pub fn get(&self, name: &str) -> (found: Option<&String>)
        ensures
            match found {
                Some(value) => has_name(self.entries(), name@) && value@ == value_of(
                    self.entries(),
                    name@,
                ),
                None => !has_name(self.entries(), name@),
            },
            match found {
                Some(value) => self@.contains_key(name@) && value@ == self@[name@],
                None => !self@.contains_key(name@),
            },
    {
        proof {
            use_type_invariant(self);
            lemma_as_map_of_distinct(self.entries());
        }
        match self.position(name) {
            Some(at) => {
                proof {
                    use_type_invariant(self);
                    let chosen = index_of_name(self.entries(), name@);
                    assert(self.entries()[at as int].0 == name@);
                    assert(chosen == at) by {
                        if chosen < at {
                            assert(self.entries()[chosen].0 != self.entries()[at as int].0);
                        } else if at < chosen {
                            assert(self.entries()[at as int].0 != self.entries()[chosen].0);
                        }
                    }
                }
                assert(has_name(self.entries(), name@));
                assert(self@.contains_key(name@));
                assert(self@[name@] == value_of(self.entries(), name@));
                Some(&self.entries[at].1)
            },
            None => None,
        }
    }

    /// Gives `name` the value `value`, in place of the value it had.
    pub fn insert(&mut self, name: String, value: String)
        ensures
            final(self).entries() == with_entry(old(self).entries(), name@, value@),
            final(self)@ == old(self)@.insert(name@, value@),
    {
        proof {
            use_type_invariant(&*self);
            lemma_with_entry_distinct(self.entries(), name@, value@);
            lemma_as_map_with_entry(self.entries(), name@, value@);
        }
        let ghost before = self.entries();
        let found = self.position(name.as_str());
        let mut entries: Vec<(String, String)> = Vec::new();
        assert(entries.deep_view() =~= Seq::<Entry>::empty());
        core::mem::swap(&mut self.entries, &mut entries);
        match found {
            Some(at) => {
                proof {
                    let chosen = index_of_name(before, name@);
                    assert(before[at as int].0 == name@);
                    assert(chosen == at) by {
                        if chosen < at {
                            assert(before[chosen].0 != before[at as int].0);
                        } else if at < chosen {
                            assert(before[at as int].0 != before[chosen].0);
                        }
                    }
                }
                entries.set(at, (name, value));
            },
            None => {
                entries.push((name, value));
            },
        }
        assert(entries.deep_view() =~= with_entry(before, name@, value@));
        core::mem::swap(&mut self.entries, &mut entries);
    }
}

/// A failure that shows on a front part of a list shows on the whole list.
pub proof fn lemma_extraction_failure_stays(list: RawList, k: int)
    requires
        0 <= k <= list.len(),
        extraction(list.take(k)) is Err,
    ensures
        extraction(list) == extraction(list.take(k)),
    decreases list.len() - k,
{
    if k == list.len() {
        assert(list.take(k) == list);
    } else {
        assert(list.take(k + 1).drop_last() == list.take(k));
        lemma_extraction_failure_stays(list, k + 1);
    }
}

/// Collects a list of properties into a map. A name that comes twice keeps
/// its place and takes the later value. The first property without a value
/// makes the whole list fail.
pub fn extract_properties(source: Vec<RawProperty>) -> (result: Result<
    PropertyMap,
    ConversionError,
>)
    ensures
        match extraction(source.deep_view()) {
            Ok(entries) => result matches Ok(map) && map.entries() == entries,
            Err(name) => result matches Err(ConversionError::MissingPropertyValue(n)) && n@
                == name,
        },
{
    let ghost list = source.deep_view();
    let mut map = PropertyMap::new();
    let mut i: usize = 0;
    assert(list.take(0) =~= Seq::empty());
    while i < source.len()
        invariant
            i <= source.len(),
            list == source.deep_view(),
            extraction(list.take(i as int)) == Ok::<Seq<Entry>, Seq<char>>(map.entries()),
        decreases source.len() - i,
    {
        assert(list.take(i as int + 1).drop_last() == list.take(i as int));
        assert(list.take(i as int + 1).last() == source[i as int]@);
        let name = source[i].name.clone();
        match &source[i].value {
            Some(value) => {
                map.insert(name, value.clone());
            },
            None => {
                proof {
                    lemma_extraction_failure_stays(list, i as int + 1);
                }
                return Err(ConversionError::MissingPropertyValue(name));
            },
        }
        i += 1;
    }
    assert(list.take(source.len() as int) == list);
    Ok(map)
}

} // verus!
