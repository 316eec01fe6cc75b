use crate::segment::{extract_text, extracted_text};
use crate::xliff::{trans_units_view, TransUnit, TransUnitView};
use fancy_regex::Regex;
use vstd::prelude::*;

verus! {

/// One hit of a search: the text that matched, the part of it that the
/// matcher found, and what goes with it.
#[derive(Debug, Clone, PartialEq, Eq)]
pub struct MatchResult {
    pub text: String,
    pub matched: String,
    pub extra: Vec<String>,
}

/// The mathematical value of a [`MatchResult`].
pub struct MatchView {
    pub text: Seq<char>,
    pub matched: Seq<char>,
    pub extra: Seq<Seq<char>>,
}

/// The mathematical value of a list of texts.
pub open spec fn texts_view(texts: Seq<String>) -> Seq<Seq<char>> {
    Seq::new(texts.len(), |k: int| texts[k]@)
}

impl View for MatchResult {
    type V = MatchView;

    open spec fn view(&self) -> MatchView {
        MatchView { text: self.text@, matched: self.matched@, extra: texts_view(self.extra@) }
    }
}

/// The lines that list what goes with a hit: each text between quotation
/// marks, behind a tab.
pub open spec fn extra_lines(extra: Seq<Seq<char>>) -> Seq<char>
    decreases extra.len(),
{
    if extra.len() == 0 {
        Seq::empty()
    } else {
        extra_lines(extra.drop_last()) + "\t\""@ + extra.last() + "\"\n"@
    }
}

/// A hit as text for a reader: what was found and where, and below it what
/// goes with the hit.
pub open spec fn hit_text(hit: MatchView) -> Seq<char> {
    hit.matched + ": \""@ + hit.text + "\"\n"@ + "Extra info:\n"@ + extra_lines(hit.extra)
}

impl MatchResult {
    /// Writes the hit as text for a reader; see [`hit_text`].
    pub fn to_text(&self) -> (text: String)
        ensures
            text@ == hit_text(self@),
    {
        let mut text = self.matched.clone();
        text.append(": \"");
        text.append(self.text.as_str());
        text.append("\"\n");
        text.append("Extra info:\n");
        let ghost head = text@;
        let mut i: usize = 0;
        while i < self.extra.len()
            invariant
                i <= self.extra.len(),
                text@ == head + extra_lines(texts_view(self.extra@).take(i as int)),
            decreases self.extra.len() - i,
        {
            proof {
                assert(texts_view(self.extra@).take(i + 1).drop_last() =~= texts_view(
                    self.extra@,
                ).take(i as int));
            }
            text.append("\t\"");
            text.append(self.extra[i].as_str());
            text.append("\"\n");
            i += 1;
        }
        assert(texts_view(self.extra@).take(i as int) =~= texts_view(self.extra@));
        text
    }
}

/// The mathematical value of a list of hits.
pub open spec fn results_view(results: Seq<MatchResult>) -> Seq<MatchView> {
    Seq::new(results.len(), |k: int| results[k]@)
}

/// A matcher: something that can be looked for in a text.
pub trait SearchString {
    /// What the matcher finds first in `text`, if anything.
    spec fn first_match(&self, text: Seq<char>) -> Option<Seq<char>>;

    /// How many times the matcher is found in `text`.
    spec fn match_count(&self, text: Seq<char>) -> nat;

    /// Looks for the matcher in `text`; gives what it finds first.
    fn match_string(&self, text: &str) -> (found: Option<String>)
        ensures
            found is Some == self.first_match(text@) is Some,
            found is Some ==> found->0@ == self.first_match(text@)->0,
    ;

    /// Counts how many times the matcher is found in `text`.
    fn count_matches(&self, text: &str) -> (count: usize)
        ensures
            count == self.match_count(text@),
    ;
}

/// What a search looks for, as a function: what it finds first in a text.
pub type Finder = spec_fn(Seq<char>) -> Option<Seq<char>>;

/// What a matcher looks for, as a function.
pub open spec fn finder<M: SearchString>(matcher: M) -> Finder {
    |text: Seq<char>| matcher.first_match(text)
}

/// Whether `pattern` stands somewhere in `text`, character for character.
pub open spec fn occurs_in(pattern: Seq<char>, text: Seq<char>) -> bool {
    exists|at: int|
        0 <= at <= text.len() - pattern.len() && #[trigger] text.subrange(
            at,
            at + pattern.len(),
        ) == pattern
}

/// How many times `pattern` is found in `text` when the search goes from the
/// left and goes on behind each find, so that no two finds overlap. The empty
/// pattern is found in front of each character and at the end.
pub open spec fn occurrences(pattern: Seq<char>, text: Seq<char>) -> nat
    decreases text.len(),
{
    if pattern.len() == 0 {
        text.len() + 1
    } else if text.len() < pattern.len() {
        0
    } else if text.take(pattern.len() as int) == pattern {
        1 + occurrences(pattern, text.skip(pattern.len() as int))
    } else {
        occurrences(pattern, text.skip(1))
    }
}

/// `str::find`: whether `pattern` occurs in `text`.
#[verifier::external_body]
fn literal_found(text: &str, pattern: &str) -> (found: bool)
    ensures
        found == occurs_in(pattern@, text@),
{
    text.find(pattern).is_some()
}

/// `str::matches`: the number of the disjoint matches of `pattern` in
/// `text`.
#[verifier::external_body]
fn literal_count(text: &str, pattern: &str) -> (count: usize)
    ensures
        count == occurrences(pattern@, text@),
{
    text.matches(pattern).count()
}

/// A literal matcher: the text is searched for the string itself, and the
/// case of the letters counts.
impl SearchString for String {
    open spec fn first_match(&self, text: Seq<char>) -> Option<Seq<char>> {
        if occurs_in(self@, text) {
            Some(self@)
        } else {
            None
        }
    }

    open spec fn match_count(&self, text: Seq<char>) -> nat {
        occurrences(self@, text)
    }

    fn match_string(&self, text: &str) -> (found: Option<String>) {
        if literal_found(text, self.as_str()) {
            Some(self.clone())
        } else {
            None
        }
    }

    fn count_matches(&self, text: &str) -> (count: usize) {
        literal_count(text, self.as_str())
    }
}

/// `fancy_regex::Regex`: a compiled pattern, carried as it is. Nothing is
/// known of what is inside it.
#[verifier::external_type_specification]
#[verifier::external_body]
pub struct ExRegex(Regex);

/// The first match of a compiled pattern in a text; `None` where the pattern
/// matches nowhere, or where the search is given up.
pub uninterp spec fn regex_first_match(regex: Regex, text: Seq<char>) -> Option<Seq<char>>;

/// The number of matches of a compiled pattern in a text that do not
/// overlap, counted from the left up to the end of the text, or up to the
/// place where the search is given up.
pub uninterp spec fn regex_match_count(regex: Regex, text: Seq<char>) -> nat;

/// `fancy_regex::Regex::find`: the text of the first match.
#[verifier::external_body]
fn regex_find(regex: &Regex, text: &str) -> (found: Option<String>)
    ensures
        found is Some == regex_first_match(*regex, text@) is Some,
        found is Some ==> found->0@ == regex_first_match(*regex, text@)->0,
{
    regex.find(text).unwrap_or_default().map(|found| found.as_str().to_string())
}

/// `fancy_regex::Regex::find_iter`: the number of matches that the iterator
/// hands out before it ends or fails.
#[verifier::external_body]
fn regex_count(regex: &Regex, text: &str) -> (count: usize)
    ensures
        count == regex_match_count(*regex, text@),
{
    regex.find_iter(text).take_while(|found| found.is_ok()).count()
}

/// A pattern matcher: the text is searched for a match of the compiled
/// pattern.
impl SearchString for Regex {
    open spec fn first_match(&self, text: Seq<char>) -> Option<Seq<char>> {
        regex_first_match(*self, text)
    }

    open spec fn match_count(&self, text: Seq<char>) -> nat {
        regex_match_count(*self, text)
    }

    fn match_string(&self, text: &str) -> (found: Option<String>) {
        regex_find(self, text)
    }

    fn count_matches(&self, text: &str) -> (count: usize) {
        regex_count(self, text)
    }
}

/// The hit that one unit gives, if any: the source is searched first, the
/// target only where the source does not match. With the hit go the id of
/// the unit and the text of the other side.
pub open spec fn unit_match(unit: TransUnitView, include_tags: bool, find: Finder) -> Option<
    MatchView,
> {
    let source = extracted_text(unit.source, include_tags);
    let target = extracted_text(unit.target, include_tags);
    match find(source) {
        Some(matched) => Some(MatchView { text: source, matched, extra: seq![unit.id, target] }),
        None => match find(target) {
            Some(matched) => Some(
                MatchView { text: target, matched, extra: seq![unit.id, source] },
            ),
            None => None,
        },
    }
}

/// The hits that a run of units gives, in the order of the units.
pub open spec fn units_matches(units: Seq<TransUnitView>, include_tags: bool, find: Finder) -> Seq<
    MatchView,
>
    decreases units.len(),
{
    if units.len() == 0 {
        Seq::empty()
    } else {
        let before = units_matches(units.drop_last(), include_tags, find);
        match unit_match(units.last(), include_tags, find) {
            Some(hit) => before.push(hit),
            None => before,
        }
    }
}

/// A unit is never reported twice: a run of units gives at most as many hits
/// as it has units; and a unit whose source matches is reported by its
/// source, whether or not its target matches too.
pub proof fn lemma_one_hit_per_unit(units: Seq<TransUnitView>, include_tags: bool, find: Finder)
    ensures
        units_matches(units, include_tags, find).len() <= units.len(),
        forall|k: int|
            0 <= k < units.len() && find(
                extracted_text((#[trigger] units[k]).source, include_tags),
            ) is Some ==> unit_match(units[k], include_tags, find) == Some(
                MatchView {
                    text: extracted_text(units[k].source, include_tags),
                    matched: find(extracted_text(units[k].source, include_tags))->0,
                    extra: seq![units[k].id, extracted_text(units[k].target, include_tags)],
                },
            ),
    decreases units.len(),
{
    if units.len() > 0 {
        lemma_one_hit_per_unit(units.drop_last(), include_tags, find);
    }
}

/// Searches the units for the matcher and adds the hits to `match_results`;
/// see [`units_matches`].
pub fn search_in_transunits<M: SearchString>(
    trans_units: &Vec<TransUnit>,
    include_tags: bool,
    matcher: &M,
    match_results: &mut Vec<MatchResult>,
)
    ensures
        results_view(final(match_results)@) == results_view(old(match_results)@) + units_matches(
            trans_units_view(trans_units@),
            include_tags,
            finder(*matcher),
        ),
{
    let ghost units = trans_units_view(trans_units@);
    let ghost start = results_view(match_results@);
    let mut i: usize = 0;
    while i < trans_units.len()
        invariant
            i <= trans_units.len(),
            units == trans_units_view(trans_units@),
            results_view(match_results@) == start + units_matches(
                units.take(i as int),
                include_tags,
                finder(*matcher),
            ),
        decreases trans_units.len() - i,
    {
        let tu = &trans_units[i];
        let ghost before = match_results@;
        proof {
            assert(units.take(i + 1).drop_last() =~= units.take(i as int));
        }
        let source = extract_text(&tu.source, include_tags);
        let target = extract_text(&tu.target, include_tags);
        if let Some(matched) = matcher.match_string(source.as_str()) {
            let mut extra: Vec<String> = Vec::new();
            extra.push(tu.id.clone());
            extra.push(target);
            let hit = MatchResult { text: source, matched, extra };
            proof {
                assert(hit@.extra =~= seq![tu@.id, target@]);
            }
            match_results.push(hit);
            proof {
                assert(results_view(match_results@) =~= results_view(before).push(hit@));
            }
        } else if let Some(matched) = matcher.match_string(target.as_str()) {
            let mut extra: Vec<String> = Vec::new();
            extra.push(tu.id.clone());
            extra.push(source);
            let hit = MatchResult { text: target, matched, extra };
            proof {
                assert(hit@.extra =~= seq![tu@.id, source@]);
            }
            match_results.push(hit);
            proof {
                assert(results_view(match_results@) =~= results_view(before).push(hit@));
            }
        }
        i += 1;
    }
    assert(units.take(i as int) =~= units);
}

/// A document that can be searched.
pub trait SearchInFile {
    /// The hits that a search of the document gives, in order.
    spec fn file_hits(&self, include_tags: bool, find: Finder) -> Seq<MatchView>;

    /// Searches the document for the matcher.
    fn search_in_file<M: SearchString>(&self, include_tags: bool, matcher: &M) -> (results: Vec<
        MatchResult,
    >)
        ensures
            results_view(results@) == self.file_hits(include_tags, finder(*matcher)),
    ;
}

} // verus!
