use crate::error::ParseError;
use crate::text::{str_eq, unescape_or_empty, unescaped_or_empty};
use vstd::prelude::*;
use vstd::std_specs::cmp::PartialEqSpecImpl;

verus! {

/// The attributes of one inline tag: a mapping from name to value. Two of
/// them are equal where they map the same names to the same values, in
/// whatever order the names were set.
#[derive(Debug, Eq)]
pub struct Attributes {
    entries: Vec<(String, String)>,
}

/// The mapping that a list of entries stands for: a later entry overrides an
/// earlier one of the same name.
pub open spec fn entries_map(entries: Seq<(String, String)>) -> Map<Seq<char>, Seq<char>>
    decreases entries.len(),
{
    if entries.len() == 0 {
        Map::empty()
    } else {
        entries_map(entries.drop_last()).insert(entries.last().0@, entries.last().1@)
    }
}

proof fn lemma_absent(entries: Seq<(String, String)>, key: Seq<char>)
    requires
        forall|k: int| 0 <= k < entries.len() ==> (#[trigger] entries[k]).0@ != key,
    ensures
        !entries_map(entries).contains_key(key),
    decreases entries.len(),
{
    if entries.len() > 0 {
        lemma_absent(entries.drop_last(), key);
    }
}

proof fn lemma_last_occurrence(entries: Seq<(String, String)>, at: int, key: Seq<char>)
    requires
        0 <= at < entries.len(),
        entries[at].0@ == key,
        forall|k: int| at < k < entries.len() ==> (#[trigger] entries[k]).0@ != key,
    ensures
        entries_map(entries).contains_key(key),
        entries_map(entries)[key] == entries[at].1@,
    decreases entries.len(),
{
    if at < entries.len() - 1 {
        lemma_last_occurrence(entries.drop_last(), at, key);
    }
}

proof fn lemma_replace_last_occurrence(
    entries: Seq<(String, String)>,
    at: int,
    entry: (String, String),
)
    requires
        0 <= at < entries.len(),
        entries[at].0@ == entry.0@,
        forall|k: int| at < k < entries.len() ==> (#[trigger] entries[k]).0@ != entry.0@,
    ensures
        entries_map(entries.update(at, entry)) == entries_map(entries).insert(entry.0@, entry.1@),
    decreases entries.len(),
{
    let changed = entries.update(at, entry);
    let front = entries.drop_last();
    if at < entries.len() - 1 {
        lemma_replace_last_occurrence(front, at, entry);
        assert(changed.drop_last() =~= front.update(at, entry));
    } else {
        assert(changed.drop_last() =~= front);
    }
}

/// The value that a mapping gives to `key`, or `default` where it gives none.
pub open spec fn value_or(
    attributes: Map<Seq<char>, Seq<char>>,
    key: Seq<char>,
    default: Seq<char>,
) -> Seq<char> {
    if attributes.contains_key(key) {
        attributes[key]
    } else {
        default
    }
}

impl View for Attributes {
    type V = Map<Seq<char>, Seq<char>>;

    closed spec fn view(&self) -> Map<Seq<char>, Seq<char>> {
        entries_map(self.entries@)
    }
}

impl Clone for Attributes {
    fn clone(&self) -> (copy: Attributes)
        ensures
            copy@ == self@,
    {
        let mut entries: Vec<(String, String)> = Vec::new();
        let mut i: usize = 0;
        while i < self.entries.len()
            invariant
                i <= self.entries.len(),
                entries_map(entries@) == entries_map(self.entries@.take(i as int)),
            decreases self.entries.len() - i,
        {
            let entry = (self.entries[i].0.clone(), self.entries[i].1.clone());
            proof {
                assert(self.entries@.take(i + 1).drop_last() =~= self.entries@.take(i as int));
                assert(entries@.push(entry).drop_last() =~= entries@);
            }
            entries.push(entry);
            i += 1;
        }
        assert(self.entries@.take(i as int) =~= self.entries@);
        Attributes { entries }
    }
}

proof fn lemma_listed_name_is_mapped(entries: Seq<(String, String)>, at: int)
    requires
        0 <= at < entries.len(),
    ensures
        entries_map(entries).contains_key(entries[at].0@),
    decreases entries.len(),
{
    if at < entries.len() - 1 {
        lemma_listed_name_is_mapped(entries.drop_last(), at);
    }
}

proof fn lemma_mapped_name_is_listed(entries: Seq<(String, String)>, key: Seq<char>)
    requires
        entries_map(entries).contains_key(key),
    ensures
        exists|at: int| 0 <= at < entries.len() && (#[trigger] entries[at]).0@ == key,
    decreases entries.len(),
{
    if entries.len() > 0 && entries.last().0@ != key {
        lemma_mapped_name_is_listed(entries.drop_last(), key);
    }
}

/// Whether a mapping gives every name of another mapping the value that the
/// other gives it.
pub open spec fn covers(
    wide: Map<Seq<char>, Seq<char>>,
    narrow: Map<Seq<char>, Seq<char>>,
) -> bool {
    forall|key: Seq<char>| #[trigger]
        narrow.contains_key(key) ==> wide.contains_key(key) && wide[key] == narrow[key]
}

impl PartialEq for Attributes {
    fn eq(&self, other: &Attributes) -> (same: bool) {
        let same = other.covers_all_of(self) && self.covers_all_of(other);
        proof {
            if same {
                assert(self@ =~= other@);
            }
        }
        same
    }
}

impl PartialEqSpecImpl for Attributes {
    open spec fn obeys_eq_spec() -> bool {
        true
    }

    open spec fn eq_spec(&self, other: &Attributes) -> bool {
        self@ == other@
    }
}

impl Attributes {
    /// Whether `self` gives every name of `narrow` the value that `narrow`
    /// gives it.
    pub fn covers_all_of(&self, narrow: &Attributes) -> (yes: bool)
        ensures
            yes == covers(self@, narrow@),
    {
        let mut i: usize = 0;
        while i < narrow.entries.len()
            invariant
                i <= narrow.entries.len(),
                forall|k: int|
                    0 <= k < i ==> self@.contains_key((#[trigger] narrow.entries[k]).0@)
                        && self@[narrow.entries[k].0@] == narrow@[narrow.entries[k].0@],
            decreases narrow.entries.len() - i,
        {
            let key = narrow.entries[i].0.as_str();
            proof {
                lemma_listed_name_is_mapped(narrow.entries@, i as int);
            }
            let agree = match (narrow.get(key), self.get(key)) {
                (Some(theirs), Some(ours)) => str_eq(theirs.as_str(), ours.as_str()),
                _ => false,
            };
            if !agree {
                return false;
            }
            i += 1;
        }
        proof {
            assert forall|key: Seq<char>| #[trigger]
                narrow@.contains_key(key) implies self@.contains_key(key) && self@[key]
                == narrow@[key] by {
                lemma_mapped_name_is_listed(narrow.entries@, key);
            }
        }
        true
    }

    /// No attributes.
    pub fn new() -> (attributes: Attributes)
        ensures
            attributes@ == Map::<Seq<char>, Seq<char>>::empty(),
    {
        Attributes { entries: Vec::new() }
    }

    /// Sets the value of `key`, in place of the value it had, if any.
    pub fn insert(&mut self, key: String, value: String)
        ensures
            final(self)@ == old(self)@.insert(key@, value@),
    {
        let mut i = self.entries.len();
        while i > 0
            invariant
                i <= self.entries.len(),
                self.entries == old(self).entries,
                forall|k: int|
                    i <= k < self.entries.len() ==> (#[trigger] self.entries[k]).0@ != key@,
            decreases i,
        {
            i -= 1;
            if str_eq(self.entries[i].0.as_str(), key.as_str()) {
                proof {
                    lemma_replace_last_occurrence(self.entries@, i as int, (key, value));
                }
                self.entries.set(i, (key, value));
                return;
            }
        }
        self.entries.push((key, value));
        assert(self.entries@.drop_last() =~= old(self).entries@);
    }

    /// The value of `key`, if it has one.
    pub fn get(&self, key: &str) -> (value: Option<&String>)
        ensures
            value is Some == self@.contains_key(key@),
            value is Some ==> value->0@ == self@[key@],
    {
        let mut i = self.entries.len();
        while i > 0
            invariant
                i <= self.entries.len(),
                forall|k: int|
                    i <= k < self.entries.len() ==> (#[trigger] self.entries[k]).0@ != key@,
            decreases i,
        {
            i -= 1;
            if str_eq(self.entries[i].0.as_str(), key) {
                proof {
                    lemma_last_occurrence(self.entries@, i as int, key@);
                }
                return Some(&self.entries[i].1);
            }
        }
        proof {
            lemma_absent(self.entries@, key@);
        }
        None
    }

    /// The value of `key`, or `default` where it has none.
    pub fn get_or(&self, key: &str, default: &str) -> (value: String)
        ensures
            value@ == value_or(self@, key@, default@),
    {
        match self.get(key) {
            Some(value) => value.clone(),
            None => default.to_owned(),
        }
    }

    /// The attributes as a list of names with their values, in the order in
    /// which the names were first set.
    pub fn pairs(&self) -> (pairs: &Vec<(String, String)>)
        ensures
            entries_map(pairs@) == self@,
    {
        &self.entries
    }
}

/// What `quick_xml` finds in the attribute part of a tag: for each attribute
/// in turn its name and its raw value, or `None` where the source is not an
/// attribute it can read.
pub uninterp spec fn xml_attributes(source: Seq<char>) -> Seq<Option<(Seq<char>, Seq<char>)>>;

/// The mathematical value of one raw attribute.
pub open spec fn raw_attribute_view(item: Option<(String, String)>) -> Option<
    (Seq<char>, Seq<char>),
> {
    match item {
        Some((key, value)) => Some((key@, value@)),
        None => None,
    }
}

/// `quick_xml::events::attributes::Attributes`: the attributes in `source`, in
/// order, each with its name and its value as written.
#[verifier::external_body]
fn raw_attributes(source: &str) -> (items: Vec<Option<(String, String)>>)
    ensures
        items@.map_values(|item| raw_attribute_view(item)) == xml_attributes(source@),
{
    let own = |bytes: &[u8]| String::from_utf8_lossy(bytes).into_owned();
    quick_xml::events::attributes::Attributes::new(source, 0)
        .map(|item| item.ok().map(|a| (own(a.key.0), own(&a.value))))
        .collect()
}

/// The mapping made of the first `n` raw attributes: each value with its
/// escapes resolved. An attribute that cannot be read is an error.
pub open spec fn attributes_from(items: Seq<Option<(Seq<char>, Seq<char>)>>, n: int) -> Result<
    Map<Seq<char>, Seq<char>>,
    ParseError,
>
    decreases n,
{
    if n <= 0 {
        Ok(Map::empty())
    } else {
        match attributes_from(items, n - 1) {
            Err(e) => Err(e),
            Ok(map) => match items[n - 1] {
                None => Err(ParseError::BrokenAttribute),
                Some((key, raw)) => Ok(map.insert(key, unescaped_or_empty(raw))),
            },
        }
    }
}

proof fn lemma_attribute_error_stays(
    items: Seq<Option<(Seq<char>, Seq<char>)>>,
    n: int,
    m: int,
)
    requires
        0 <= n <= m,
        attributes_from(items, n) is Err,
    ensures
        attributes_from(items, m) == attributes_from(items, n),
    decreases m - n,
{
    if n < m {
        lemma_attribute_error_stays(items, n, m - 1);
    }
}

/// The attributes that the attribute part `source` of a tag gives.
pub open spec fn attributes_of(source: Seq<char>) -> Result<Map<Seq<char>, Seq<char>>, ParseError> {
    attributes_from(xml_attributes(source), xml_attributes(source).len() as int)
}

/// The mathematical value of the outcome of reading attributes.
pub open spec fn attributes_outcome(res: Result<Attributes, ParseError>) -> Result<
    Map<Seq<char>, Seq<char>>,
    ParseError,
> {
    match res {
        Ok(attributes) => Ok(attributes@),
        Err(e) => Err(e),
    }
}

/// Reads the attributes of a tag from its attribute part. A value whose
/// escapes cannot be resolved degrades to the empty text; an attribute that
/// cannot be read at all fails the whole read.
pub fn get_attributes(source: &str) -> (res: Result<Attributes, ParseError>)
    ensures
        attributes_outcome(res) == attributes_of(source@),
{
    let items = raw_attributes(source);
    let ghost raw = xml_attributes(source@);
    let mut attributes = Attributes::new();
    let mut i: usize = 0;
    while i < items.len()
        invariant
            i <= items.len(),
            raw == xml_attributes(source@),
            items@.map_values(|item| raw_attribute_view(item)) == raw,
            attributes_from(raw, i as int) == Ok::<_, ParseError>(attributes@),
        decreases items.len() - i,
    {
        match &items[i] {
            None => {
                proof {
                    lemma_attribute_error_stays(raw, i + 1, raw.len() as int);
                }
                return Err(ParseError::BrokenAttribute);
            },
            Some((key, value)) => {
                let text = unescape_or_empty(value.as_str());
                attributes.insert(key.clone(), text);
            },
        }
        i += 1;
    }
    Ok(attributes)
}

} // verus!
