use crate::text::{decimal, decimal_text, str_eq};
use vstd::prelude::*;

verus! {

/// How many records a document holds in each language.
#[derive(Debug)]
pub struct MetaInfo {
    languages: Vec<(String, usize)>,
}

/// The count that a mapping gives to `language`, or nothing where it does
/// not list the language.
pub open spec fn count_in(counts: Map<Seq<char>, nat>, language: Seq<char>) -> nat {
    if counts.contains_key(language) {
        counts[language]
    } else {
        0
    }
}

impl View for MetaInfo {
    type V = Map<Seq<char>, nat>;

    closed spec fn view(&self) -> Map<Seq<char>, nat> {
        Map::new(
            |language: Seq<char>| self.lists(language),
            |language: Seq<char>| self.count(language),
        )
    }
}

impl MetaInfo {
    #[verifier::type_invariant]
    spec fn distinct(&self) -> bool {
        forall|j: int, k: int|
            0 <= j < k < self.languages.len() ==> (#[trigger] self.languages[j]).0@
                != (#[trigger] self.languages[k]).0@
    }

    spec fn lists(&self, language: Seq<char>) -> bool {
        exists|k: int|
            0 <= k < self.languages.len() && (#[trigger] self.languages[k]).0@ == language
    }

    spec fn count(&self, language: Seq<char>) -> nat {
        if self.lists(language) {
            let k = choose|k: int|
                0 <= k < self.languages.len() && (#[trigger] self.languages[k]).0@ == language;
            self.languages[k].1 as nat
        } else {
            0
        }
    }

    /// The count of `language`, or nothing where the language is not
    /// listed.
    pub open spec fn count_of(&self, language: Seq<char>) -> nat {
        count_in(self@, language)
    }

    /// No language listed.
    pub fn new() -> (meta: MetaInfo)
        ensures
            meta@ == Map::<Seq<char>, nat>::empty(),
    {
        let meta = MetaInfo { languages: Vec::new() };
        meta
    }

    /// Lists `language`, if it is not listed yet, and adds `amount` to its
    /// count.
    pub fn add(&mut self, language: &str, amount: usize)
        requires
            old(self).count_of(language@) + amount <= usize::MAX,
        ensures
            final(self)@ == old(self)@.insert(
                language@,
                (old(self).count_of(language@) + amount) as nat,
            ),
    {
        proof {
            use_type_invariant(&*self);
        }
        let mut list: Vec<(String, usize)> = Vec::new();
        core::mem::swap(&mut self.languages, &mut list);
        let ghost before = list@;
        let mut i: usize = 0;
        let mut found = false;
        while i < list.len() && !found
            invariant
                i <= list.len(),
                list@.len() == before.len(),
                found ==> i > 0 && list[i - 1].0@ == language@ && before[i - 1].0@ == language@
                    && list[i - 1].1 == before[i - 1].1 + amount,
                forall|k: int|
                    0 <= k < list.len() && !(found && k == i - 1) ==> #[trigger] list[k]
                        == before[k],
                forall|k: int|
                    0 <= k < i && !(found && k == i - 1) ==> (#[trigger] before[k]).0@
                        != language@,
                before == old(self).languages@,
                old(self).count_of(language@) + amount <= usize::MAX,
                old(self).distinct(),
            decreases list.len() - i, if found { 0int } else { 1int },
        {
            if str_eq(list[i].0.as_str(), language) {
                let count = list[i].1;
                list.set(i, (language.to_owned(), count + amount));
                found = true;
            }
            i += 1;
        }
        if !found {
            list.push((language.to_owned(), amount));
        }
        self.languages = list;
        proof {
            let at = if found { i - 1 } else { before.len() as int };
            assert(self.languages[at].0@ == language@);
            assert forall|l: Seq<char>| self.lists(l) == (old(self).lists(l) || l == language@) by {
                if old(self).lists(l) {
                    let k = choose|k: int|
                        0 <= k < before.len() && (#[trigger] before[k]).0@ == l;
                    assert(self.languages[k].0@ == l);
                }
            }
            assert(self.count(language@) == old(self).count(language@) + amount);
        }
    }

    /// The count of `language`, if it is listed.
    pub fn get(&self, language: &str) -> (count: Option<usize>)
        ensures
            count is Some == self@.contains_key(language@),
            count is Some ==> count->0 == self@[language@],
    {
        proof {
            use_type_invariant(self);
        }
        let mut i: usize = 0;
        while i < self.languages.len()
            invariant
                i <= self.languages.len(),
                self.distinct(),
                forall|k: int| 0 <= k < i ==> (#[trigger] self.languages[k]).0@ != language@,
            decreases self.languages.len() - i,
        {
            if str_eq(self.languages[i].0.as_str(), language) {
                return Some(self.languages[i].1);
            }
            i += 1;
        }
        None
    }

    /// The languages with their counts, each language once, in the order in
    /// which they were listed.
    pub closed spec fn listing(&self) -> Seq<(Seq<char>, nat)> {
        Seq::new(self.languages@.len(), |k: int| (self.languages[k].0@, self.languages[k].1 as nat))
    }

    /// Writes the counts as text for a reader, one line for each language
    /// in the order in which they were listed; see [`counts_text`].
    pub fn to_text(&self) -> (text: String)
        ensures
            text@ == counts_text(self.listing()),
    {
        let mut text = String::new();
        let mut i: usize = 0;
        while i < self.languages.len()
            invariant
                i <= self.languages.len(),
                text@ == counts_text(self.listing().take(i as int)),
            decreases self.languages.len() - i,
        {
            proof {
                assert(self.listing().take(i + 1).drop_last() =~= self.listing().take(i as int));
            }
            text.append(self.languages[i].0.as_str());
            text.append(" with ");
            text.append(decimal_text(self.languages[i].1).as_str());
            text.append(" entries\n");
            i += 1;
        }
        assert(self.listing().take(i as int) =~= self.listing());
        text
    }

    /// The languages with their counts, each language once, in the order in
    /// which they were listed.
    pub fn entries(&self) -> (entries: &Vec<(String, usize)>)
        ensures
            entries@.len() == self.listing().len(),
            forall|k: int|
                0 <= k < entries.len() ==> (#[trigger] self.listing()[k]) == (
                    entries[k].0@,
                    entries[k].1 as nat,
                ),
            forall|k: int|
                0 <= k < entries.len() ==> self@.contains_key((#[trigger] entries[k]).0@)
                    && self@[entries[k].0@] == entries[k].1,
            forall|language: Seq<char>| #[trigger]
                self@.contains_key(language) ==> exists|k: int|
                    0 <= k < entries.len() && (#[trigger] entries[k]).0@ == language,
            forall|j: int, k: int|
                0 <= j < k < entries.len() ==> (#[trigger] entries[j]).0@
                    != (#[trigger] entries[k]).0@,
    {
        proof {
            use_type_invariant(self);
        }
        &self.languages
    }
}

/// The counts as text for a reader: one line for each language, with the
/// number of its entries.
pub open spec fn counts_text(listing: Seq<(Seq<char>, nat)>) -> Seq<char>
    decreases listing.len(),
{
    if listing.len() == 0 {
        Seq::empty()
    } else {
        counts_text(listing.drop_last()) + (listing.last().0 + " with "@ + decimal(listing.last().1)
            + " entries\n"@)
    }
}

/// How many times a language stands in a list of languages.
pub open spec fn times_in(languages: Seq<Seq<char>>, language: Seq<char>) -> nat
    decreases languages.len(),
{
    if languages.len() == 0 {
        0
    } else {
        times_in(languages.drop_last(), language) + if languages.last() == language {
            1nat
        } else {
            0nat
        }
    }
}

proof fn lemma_times_in_bounded(languages: Seq<Seq<char>>, language: Seq<char>)
    ensures
        times_in(languages, language) <= languages.len(),
    decreases languages.len(),
{
    if languages.len() > 0 {
        lemma_times_in_bounded(languages.drop_last(), language);
    }
}

/// The mapping from each language of a list to the number of times that it
/// stands in the list.
pub open spec fn language_counts(languages: Seq<Seq<char>>) -> Map<Seq<char>, nat> {
    Map::new(
        |language: Seq<char>| times_in(languages, language) > 0,
        |language: Seq<char>| times_in(languages, language),
    )
}

/// The mathematical value of a list of languages.
pub open spec fn languages_view(languages: Seq<String>) -> Seq<Seq<char>> {
    Seq::new(languages.len(), |k: int| languages[k]@)
}

/// Counts how many times each language stands in a list.
pub fn count_languages(languages: &Vec<String>) -> (meta: MetaInfo)
    ensures
        meta@ == language_counts(languages_view(languages@)),
{
    let mut meta = MetaInfo::new();
    let ghost all = languages_view(languages@);
    let mut i: usize = 0;
    while i < languages.len()
        invariant
            i <= languages.len(),
            all == languages_view(languages@),
            meta@ == language_counts(all.take(i as int)),
        decreases languages.len() - i,
    {
        let ghost seen = all.take(i as int);
        proof {
            lemma_times_in_bounded(seen, languages[i as int]@);
            assert(all.take(i + 1).drop_last() =~= seen);
        }
        meta.add(languages[i].as_str(), 1);
        i += 1;
    }
    assert(all.take(i as int) =~= all);
    meta
}

/// A document that can say where it came from and what it holds.
pub trait GetMeta {
    /// Whether the counts of the document fit the machine's numbers.
    spec fn countable(&self) -> bool;

    /// Where the document came from.
    spec fn filename(&self) -> Seq<char>;

    /// The count of records for each language of the document.
    spec fn meta(&self) -> Map<Seq<char>, nat>;

    /// The path that the document was read from.
    fn get_filename(&self) -> (name: String)
        ensures
            name@ == self.filename(),
    ;

    /// Counts the records of the document for each language.
    fn get_meta(&self) -> (meta: MetaInfo)
        requires
            self.countable(),
        ensures
            meta@ == self.meta(),
    ;
}

} // verus!
