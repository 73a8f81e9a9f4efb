//! The dictionary of subject names and the resolution of a group code to a
//! subject.

use crate::property::{distinct_names, with_entry, Entry, PropertyMap};
use crate::text::{
    contains_char, contains_text, copy_range, first_index, from_chars, is_first_index, occurs_in,
    split, split_on, strip_trailing_digits, to_chars, trim, trimmed, without_trailing_digits,
};
use vstd::prelude::*;

verus! {

/// Pairs of a key and a subject name, each key once, in the order in which
/// the keys first came in. That is the order in which they are tried. A key
/// stands for every group whose name contains it.
#[derive(Debug, PartialEq, Eq)]
pub struct SubjectDictionary {
    pairs: PropertyMap,
}

impl View for SubjectDictionary {
    type V = Seq<Entry>;

    closed spec fn view(&self) -> Self::V {
        self.pairs.entries()
    }
}

impl Clone for SubjectDictionary {
    fn clone(&self) -> (copy: Self)
        ensures
            copy@ == self@,
    {
        proof {
            use_type_invariant(self);
        }
        SubjectDictionary { pairs: self.pairs.clone() }
    }
}

impl SubjectDictionary {
    /// What holds of every dictionary: no key comes twice.
    #[verifier::type_invariant]
    pub open spec fn well_formed(&self) -> bool {
        distinct_names(self@)
    }

    /// A dictionary without pairs.
    pub fn new() -> (dictionary: SubjectDictionary)
        ensures
            dictionary@ == Seq::<Entry>::empty(),
    {
        SubjectDictionary { pairs: PropertyMap::new() }
    }

    /// The number of pairs.
    pub fn len(&self) -> (n: usize)
        ensures
            n == self@.len(),
    {
        self.pairs.len()
    }

    /// The key of the pair at `index`.
    pub fn key_at(&self, index: usize) -> (key: &String)
        requires
            index < self@.len(),
        ensures
            key@ == self@[index as int].0,
    {
        self.pairs.name_at(index)
    }

    /// The subject of the pair at `index`.
    pub fn subject_at(&self, index: usize) -> (subject: &String)
        requires
            index < self@.len(),
        ensures
            subject@ == self@[index as int].1,
    {
        self.pairs.value_at(index)
    }

    /// A copy of the pairs, in their order.
    pub fn to_pairs(&self) -> (pairs: Vec<(String, String)>)
        ensures
            pairs.deep_view() == self@,
    {
        self.pairs.to_pairs()
    }

    /// Gives `key` the subject `subject`. A key that the dictionary holds
    /// keeps its place and takes the new subject; a new key goes to the end.
    pub fn insert(&mut self, key: String, subject: String)
        ensures
            final(self)@ == with_entry(old(self)@, key@, subject@),
    {
        let mut pairs = PropertyMap::new();
        core::mem::swap(&mut self.pairs, &mut pairs);
        pairs.insert(key, subject);
        proof {
            use_type_invariant(&pairs);
        }
        core::mem::swap(&mut self.pairs, &mut pairs);
    }
}

/// The name of the group that a group code stands for: the code without
/// surrounding white space and without the digits at its end.
pub open spec fn group_name(code: Seq<char>) -> Seq<char> {
    without_trailing_digits(trimmed(code))
}

/// The subject of the first pair of `dict` whose key occurs in `group`.
pub open spec fn lookup(dict: Seq<Entry>, group: Seq<char>) -> Option<Seq<char>>
    decreases dict.len(),
{
    if dict.len() == 0 {
        None
    } else if occurs_in(dict.first().0, group) {
        Some(dict.first().1)
    } else {
        lookup(dict.drop_first(), group)
    }
}

/// The subject of a group: what the dictionary gives for its name, and the
/// name itself where the dictionary gives nothing.
pub open spec fn subject_of_group(code: Seq<char>, dict: Seq<Entry>) -> Seq<char> {
    match lookup(dict, group_name(code)) {
        Some(subject) => subject,
        None => group_name(code),
    }
}

/// The subject of a list of group codes: that of the first code. The other
/// codes play no part. An empty list has no subject.
pub open spec fn subject_of(groups: Seq<Seq<char>>, dict: Seq<Entry>) -> Option<Seq<char>> {
    if groups.len() == 0 {
        None
    } else {
        Some(subject_of_group(groups[0], dict))
    }
}

/// The subject for one group code.
pub fn resolve_group(code: &[char], subject_names: &SubjectDictionary) -> (subject: String)
    ensures
        subject@ == subject_of_group(code@, subject_names@),
{
    let stripped = trim(code);
    let name = strip_trailing_digits(stripped.as_slice());
    let ghost dict = subject_names@;
    let mut i: usize = 0;
    assert(dict.skip(0) == dict);
    while i < subject_names.len()
        invariant
            i <= dict.len(),
            dict == subject_names@,
            name@ == group_name(code@),
            lookup(dict, name@) == lookup(dict.skip(i as int), name@),
        decreases dict.len() - i,
    {
        assert(dict.skip(i as int).drop_first() == dict.skip(i as int + 1));
        assert(dict.skip(i as int).first() == dict[i as int]);
        let key = to_chars(subject_names.key_at(i).as_str());
        if contains_text(name.as_slice(), key.as_slice()) {
            return subject_names.subject_at(i).clone();
        }
        i += 1;
    }
    from_chars(name.as_slice())
}

/// The subject for a list of group codes given as characters, or `None` for
/// an empty list. Only the first code is looked at.
pub fn resolve_groups(groups: &Vec<Vec<char>>, subject_names: &SubjectDictionary) -> (subject:
    Option<String>)
    ensures
        subject.deep_view() == subject_of(groups.deep_view(), subject_names@),
{
    if groups.len() == 0 {
        None
    } else {
        assert(groups.deep_view()[0] =~= groups[0]@);
        Some(resolve_group(groups[0].as_slice(), subject_names))
    }
}

/// The subject for a list of group codes, or `None` for an empty list. Only
/// the first code is looked at.
pub fn get_subject(groups: Vec<&str>, subject_names: &SubjectDictionary) -> (subject: Option<
    String,
>)
    ensures
        subject.deep_view() == subject_of(groups.deep_view(), subject_names@),
{
    if groups.len() == 0 {
        None
    } else {
        let code = to_chars(groups[0]);
        Some(resolve_group(code.as_slice(), subject_names))
    }
}

/// The pair that an entry of the form `key:subject` stands for. The key is
/// what stands before the first colon; the subject is the rest of the entry
/// from that colon on, the colon included.
pub open spec fn pair_of(entry: Seq<char>) -> Entry {
    let at = first_index(entry, ':');
    (entry.take(at), entry.skip(at))
}

/// Whether a text can be read as a dictionary: every entry between
/// semicolons holds a colon. The empty text is one entry without a colon.
pub open spec fn is_map_text(input: Seq<char>) -> bool {
    forall|i: int|
        0 <= i < split_on(input, ';').len() ==> (#[trigger] split_on(input, ';')[i]).contains(':')
}

/// The dictionary that a list of pairs is collected into, from front to
/// back: a key that came before keeps its place and takes the later subject.
pub open spec fn collected(pairs: Seq<Entry>) -> Seq<Entry>
    decreases pairs.len(),
{
    if pairs.len() == 0 {
        Seq::empty()
    } else {
        with_entry(collected(pairs.drop_last()), pairs.last().0, pairs.last().1)
    }
}

/// The dictionary that a text of entries set apart by semicolons stands for.
pub open spec fn dictionary_of(input: Seq<char>) -> Seq<Entry> {
    collected(split_on(input, ';').map_values(|entry: Seq<char>| pair_of(entry)))
}

/// The index of the first occurrence of `c` in a text that holds it.
fn index_of_char(s: &[char], c: char) -> (at: usize)
    requires
        s@.contains(c),
    ensures
        at < s.len(),
        at == first_index(s@, c),
{
    let mut i: usize = 0;
    assert(0 < s.len());
    while s[i] != c
        invariant
            i < s.len(),
            s@.contains(c),
            forall|k: int| 0 <= k < i ==> s@[k] != c,
        decreases s.len() - i,
    {
        proof {
            let j = choose|j: int| 0 <= j < s@.len() && s@[j] == c;
            assert(j > i);
        }
        i += 1;
    }
    assert(is_first_index(s@, c, i as int));
    i
}

/// Whether a text can be read as a dictionary: whether every entry between
/// semicolons holds a colon.
pub fn is_map_arg(input: &str) -> (ok: bool)
    ensures
        ok == is_map_text(input@),
{
    let chars = to_chars(input);
    let entries = split(chars.as_slice(), ';');
    let ghost list = split_on(input@, ';');
    let mut i: usize = 0;
    while i < entries.len()
        invariant
            i <= entries.len(),
            list == split_on(input@, ';'),
            entries.deep_view() == list,
            forall|k: int| 0 <= k < i ==> (#[trigger] list[k]).contains(':'),
        decreases entries.len() - i,
    {
        assert(list[i as int] =~= entries[i as int]@);
        if !contains_char(entries[i].as_slice(), ':') {
            return false;
        }
        i += 1;
    }
    true
}

/// Reads a dictionary from a text of the form `key:subject;key:subject`,
/// in which every entry holds a colon. Of two entries with one key the
/// later one gives the subject, in the place of the earlier one.
pub fn deserialize_map_arg(input: String) -> (dictionary: SubjectDictionary)
    requires
        is_map_text(input@),
    ensures
        dictionary@ == dictionary_of(input@),
{
    let chars = to_chars(input.as_str());
    let entries = split(chars.as_slice(), ';');
    let ghost list = split_on(input@, ';');
    let ghost pairs = list.map_values(|entry: Seq<char>| pair_of(entry));
    let mut dictionary = SubjectDictionary::new();
    let mut i: usize = 0;
    assert(pairs.take(0) =~= Seq::empty());
    while i < entries.len()
        invariant
            i <= entries.len(),
            list == split_on(input@, ';'),
            is_map_text(input@),
            entries.deep_view() == list,
            pairs == list.map_values(|entry: Seq<char>| pair_of(entry)),
            dictionary@ == collected(pairs.take(i as int)),
        decreases entries.len() - i,
    {
        assert(list[i as int] =~= entries[i as int]@);
        assert(list[i as int].contains(':'));
        let entry = entries[i].as_slice();
        let at = index_of_char(entry, ':');
        let key = from_chars(copy_range(entry, 0, at).as_slice());
        let subject = from_chars(copy_range(entry, at, entry.len()).as_slice());
        proof {
            assert(pairs.take(i as int + 1).drop_last() == pairs.take(i as int));
            assert(pairs.take(i as int + 1).last() == pair_of(list[i as int]));
        }
        dictionary.insert(key, subject);
        i += 1;
    }
    assert(pairs.take(entries.len() as int) =~= pairs);
    dictionary
}

} // verus!
