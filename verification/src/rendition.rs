use crate::meta::languages_view;
use crate::search::{
    finder, results_view, texts_view, Finder, MatchResult, MatchView, SearchString,
};
use crate::segment::{
    collect_text, extract_text, extracted_text, nodes_view, plain_text, NodeView, SegNode,
};
use crate::text::str_eq;
use vstd::prelude::*;

verus! {

/// One language's rendition of a record: a language and a segment.
pub trait Rendition {
    /// The language of the rendition.
    spec fn language_view(&self) -> Seq<char>;

    /// The segment of the rendition.
    spec fn content_view(&self) -> Seq<NodeView>;

    /// The language of the rendition.
    fn language(&self) -> (language: &String)
        ensures
            language@ == self.language_view(),
    ;

    /// The segment of the rendition.
    fn content(&self) -> (content: &Vec<Box<SegNode>>)
        ensures
            nodes_view(content@) == self.content_view(),
    ;
}

/// A record that holds the renditions of one thing in several languages.
pub trait RenditionGroup {
    /// What the record holds for each language.
    type Member: Rendition;

    /// The renditions of the record.
    spec fn members_view(&self) -> Seq<Self::Member>;

    /// The renditions of the record.
    fn members(&self) -> (members: &Vec<Self::Member>)
        ensures
            members@ == self.members_view(),
    ;
}

/// The languages of the renditions of a record, in order.
pub open spec fn group_languages<R: Rendition>(group: Seq<R>) -> Seq<Seq<char>> {
    Seq::new(group.len(), |k: int| group[k].language_view())
}

/// The languages of the renditions of the first `n` records, in order.
pub open spec fn languages_of<G: RenditionGroup>(groups: Seq<G>, n: int) -> Seq<Seq<char>>
    decreases n,
{
    if n <= 0 {
        Seq::empty()
    } else {
        languages_of(groups, n - 1) + group_languages(groups[n - 1].members_view())
    }
}

/// The full text of each rendition of a record that is not in `language`.
pub open spec fn other_texts<R: Rendition>(group: Seq<R>, language: Seq<char>) -> Seq<Seq<char>>
    decreases group.len(),
{
    if group.len() == 0 {
        Seq::empty()
    } else {
        let before = other_texts(group.drop_last(), language);
        if group.last().language_view() != language {
            before.push(plain_text(group.last().content_view()))
        } else {
            before
        }
    }
}

/// The hits among the first `n` renditions of a record: each rendition
/// whose text matches is a hit, and with it go the full texts of the
/// renditions in the other languages.
pub open spec fn group_hits<R: Rendition>(
    group: Seq<R>,
    n: int,
    include_tags: bool,
    find: Finder,
) -> Seq<MatchView>
    decreases n,
{
    if n <= 0 {
        Seq::empty()
    } else {
        let before = group_hits(group, n - 1, include_tags, find);
        let text = extracted_text(group[n - 1].content_view(), include_tags);
        match find(text) {
            Some(matched) => before.push(
                MatchView {
                    text,
                    matched,
                    extra: other_texts(group, group[n - 1].language_view()),
                },
            ),
            None => before,
        }
    }
}

/// The hits in the first `n` records, in order.
pub open spec fn groups_hits<G: RenditionGroup>(
    groups: Seq<G>,
    n: int,
    include_tags: bool,
    find: Finder,
) -> Seq<MatchView>
    decreases n,
{
    if n <= 0 {
        Seq::empty()
    } else {
        groups_hits(groups, n - 1, include_tags, find) + group_hits(
            groups[n - 1].members_view(),
            groups[n - 1].members_view().len() as int,
            include_tags,
            find,
        )
    }
}

/// Collects the full text of each rendition that is not in `language`.
pub fn texts_of_others<R: Rendition>(group: &Vec<R>, language: &str) -> (texts: Vec<String>)
    ensures
        texts_view(texts@) == other_texts(group@, language@),
{
    let mut texts: Vec<String> = Vec::new();
    let mut i: usize = 0;
    while i < group.len()
        invariant
            i <= group.len(),
            texts_view(texts@) == other_texts(group@.take(i as int), language@),
        decreases group.len() - i,
    {
        proof {
            assert(group@.take(i + 1).drop_last() =~= group@.take(i as int));
        }
        if !str_eq(group[i].language().as_str(), language) {
            let text = collect_text(group[i].content());
            texts.push(text);
        }
        i += 1;
    }
    assert(group@.take(i as int) =~= group@);
    texts
}

/// Searches the renditions of one record and adds the hits to `results`.
pub fn search_group<R: Rendition, M: SearchString>(
    group: &Vec<R>,
    include_tags: bool,
    matcher: &M,
    results: &mut Vec<MatchResult>,
)
    ensures
        results_view(final(results)@) == results_view(old(results)@) + group_hits(
            group@,
            group@.len() as int,
            include_tags,
            finder(*matcher),
        ),
{
    let ghost start = results_view(results@);
    let mut i: usize = 0;
    while i < group.len()
        invariant
            i <= group.len(),
            results_view(results@) == start + group_hits(
                group@,
                i as int,
                include_tags,
                finder(*matcher),
            ),
        decreases group.len() - i,
    {
        let ghost before = results@;
        let text = extract_text(group[i].content(), include_tags);
        if let Some(matched) = matcher.match_string(text.as_str()) {
            let extra = texts_of_others(group, group[i].language().as_str());
            let hit = MatchResult { text, matched, extra };
            results.push(hit);
            proof {
                assert(results_view(results@) =~= results_view(before).push(hit@));
            }
        }
        i += 1;
    }
}

/// Searches every record and gives the hits, in order.
pub fn search_groups<G: RenditionGroup, M: SearchString>(
    groups: &Vec<G>,
    include_tags: bool,
    matcher: &M,
) -> (results: Vec<MatchResult>)
    ensures
        results_view(results@) == groups_hits(
            groups@,
            groups@.len() as int,
            include_tags,
            finder(*matcher),
        ),
{
    let mut results: Vec<MatchResult> = Vec::new();
    let mut i: usize = 0;
    while i < groups.len()
        invariant
            i <= groups.len(),
            results_view(results@) == groups_hits(
                groups@,
                i as int,
                include_tags,
                finder(*matcher),
            ),
        decreases groups.len() - i,
    {
        search_group(groups[i].members(), include_tags, matcher, &mut results);
        i += 1;
    }
    results
}

/// Lists the language of every rendition of every record, in order.
pub fn list_languages<G: RenditionGroup>(groups: &Vec<G>) -> (languages: Vec<String>)
    ensures
        languages_view(languages@) == languages_of(groups@, groups@.len() as int),
{
    let mut languages: Vec<String> = Vec::new();
    let mut i: usize = 0;
    while i < groups.len()
        invariant
            i <= groups.len(),
            languages_view(languages@) == languages_of(groups@, i as int),
        decreases groups.len() - i,
    {
        let group = groups[i].members();
        let ghost start = languages_view(languages@);
        let mut j: usize = 0;
        while j < group.len()
            invariant
                j <= group.len(),
                languages_view(languages@) == start + group_languages(group@.take(j as int)),
            decreases group.len() - j,
        {
            let ghost before = languages@;
            let language = group[j].language().clone();
            languages.push(language);
            proof {
                assert(languages_view(languages@) =~= languages_view(before).push(language@));
            }
            j += 1;
        }
        i += 1;
    }
    languages
}

} // verus!
