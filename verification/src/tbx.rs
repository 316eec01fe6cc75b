use crate::assemble::{run, run_spec, Assembler};
use crate::attributes::{attributes_of, get_attributes, value_or};
use crate::error::ParseError;
use crate::inline::{content_tags, content_terminators, inline_nodes};
use crate::meta::{count_languages, language_counts, GetMeta, MetaInfo};
use crate::rendition::{
    groups_hits, languages_of, list_languages, search_groups, Rendition, RenditionGroup,
};
use crate::search::{Finder, MatchResult, MatchView, SearchInFile, SearchString};
use crate::segment::{lemma_nodes_view, nodes_filled, nodes_view, NodeView, SegNode};
use crate::text::{lowercase, str_eq, strip_bom, to_lowercase, without_bom};
use crate::token::{document_tokens, tokenize, Token, TokenKind, TokenView};
use vstd::prelude::*;

verus! {

/// A term base, as read from one document.
#[derive(Debug, Clone, PartialEq, Eq)]
pub struct TbxFile {
    pub path: String,
    pub term_entries: Vec<TermEntry>,
}

/// One terminology concept: its terms in several languages.
#[derive(Debug, Clone, PartialEq, Eq)]
pub struct TermEntry {
    pub lang_sets: Vec<LangSet>,
}

/// One language's term for a concept.
#[derive(Debug, Clone, PartialEq, Eq)]
pub struct LangSet {
    pub language: String,
    pub tig: Tig,
}

/// The term of a language set.
#[derive(Debug, Clone, PartialEq, Eq)]
pub struct Tig {
    pub term: Vec<Box<SegNode>>,
}

/// The mathematical value of a [`LangSet`].
pub struct LangSetView {
    pub language: Seq<char>,
    pub term: Seq<NodeView>,
}

/// The mathematical value of a [`TermEntry`].
pub struct EntryView {
    pub lang_sets: Seq<LangSetView>,
}

impl View for Tig {
    type V = Seq<NodeView>;

    open spec fn view(&self) -> Seq<NodeView> {
        nodes_view(self.term@)
    }
}

impl View for LangSet {
    type V = LangSetView;

    open spec fn view(&self) -> LangSetView {
        LangSetView { language: self.language@, term: self.tig@ }
    }
}

/// The mathematical value of a run of language sets.
pub open spec fn lang_sets_view(lang_sets: Seq<LangSet>) -> Seq<LangSetView> {
    Seq::new(lang_sets.len(), |k: int| lang_sets[k]@)
}

impl View for TermEntry {
    type V = EntryView;

    open spec fn view(&self) -> EntryView {
        EntryView { lang_sets: lang_sets_view(self.lang_sets@) }
    }
}

/// The mathematical value of a run of term entries.
pub open spec fn entries_view(entries: Seq<TermEntry>) -> Seq<EntryView> {
    Seq::new(entries.len(), |k: int| entries[k]@)
}

/// Whether every language set of a run has a term, and every inline span in
/// it a child.
pub open spec fn lang_sets_complete(lang_sets: Seq<LangSetView>) -> bool {
    forall|k: int|
        0 <= k < lang_sets.len() ==> (#[trigger] lang_sets[k]).term.len() > 0 && nodes_filled(
            lang_sets[k].term,
        )
}

/// Whether every entry of a run has a language set, and every language set a
/// term.
pub open spec fn entries_complete(entries: Seq<EntryView>) -> bool {
    forall|k: int|
        0 <= k < entries.len() ==> (#[trigger] entries[k]).lang_sets.len() > 0
            && lang_sets_complete(entries[k].lang_sets)
}

/// The number of language sets in a run of term entries.
pub open spec fn lang_set_total(entries: Seq<TermEntry>) -> nat
    decreases entries.len(),
{
    if entries.len() == 0 {
        0
    } else {
        lang_set_total(entries.drop_last()) + entries.last().lang_sets@.len()
    }
}

/// The state of reading a term base: the entries kept so far, the entry and
/// the language set that are being built, and the term that was read last.
pub struct TbxState {
    pub entries: Seq<EntryView>,
    pub entry: EntryView,
    pub lang_set: LangSetView,
    pub term: Seq<NodeView>,
}

/// A language set without language and term.
pub open spec fn empty_lang_set() -> LangSetView {
    LangSetView { language: Seq::empty(), term: Seq::empty() }
}

/// An entry without language sets.
pub open spec fn empty_entry() -> EntryView {
    EntryView { lang_sets: Seq::empty() }
}

/// The state before the first token.
pub open spec fn initial_state() -> TbxState {
    TbxState {
        entries: Seq::empty(),
        entry: empty_entry(),
        lang_set: empty_lang_set(),
        term: Seq::empty(),
    }
}

/// Builds the records of a term base, token by token.
pub struct TbxAssembler {
    term_entries: Vec<TermEntry>,
    cur_term_entry: TermEntry,
    cur_lang_set: LangSet,
    cur_tig: Tig,
}

impl Default for Tig {
    fn default() -> (tig: Tig)
        ensures
            tig@ == Seq::<NodeView>::empty(),
            tig.term.len() == 0,
    {
        Tig { term: Vec::new() }
    }
}

impl Default for LangSet {
    fn default() -> (lang_set: LangSet)
        ensures
            lang_set@ == empty_lang_set(),
    {
        LangSet { language: String::new(), tig: Tig::default() }
    }
}

impl Default for TermEntry {
    fn default() -> (entry: TermEntry)
        ensures
            entry@ == empty_entry(),
            entry.lang_sets.len() == 0,
    {
        let entry = TermEntry { lang_sets: Vec::new() };
        assert(entry@.lang_sets =~= Seq::<LangSetView>::empty());
        entry
    }
}

impl TbxAssembler {
    fn new() -> (assembler: TbxAssembler)
        ensures
            assembler.state() == initial_state(),
            assembler.sound(),
    {
        let assembler = TbxAssembler {
            term_entries: Vec::new(),
            cur_term_entry: TermEntry::default(),
            cur_lang_set: LangSet::default(),
            cur_tig: Tig::default(),
        };
        assert(assembler.state().entries =~= Seq::<EntryView>::empty());
        assembler
    }
}

impl Assembler for TbxAssembler {
    type State = TbxState;

    closed spec fn state(&self) -> TbxState {
        TbxState {
            entries: entries_view(self.term_entries@),
            entry: self.cur_term_entry@,
            lang_set: self.cur_lang_set@,
            term: self.cur_tig@,
        }
    }

    closed spec fn sound(&self) -> bool {
        &&& entries_complete(entries_view(self.term_entries@))
        &&& lang_sets_complete(self.cur_term_entry@.lang_sets)
        &&& nodes_filled(self.cur_lang_set@.term)
        &&& nodes_filled(self.cur_tig@)
    }

    closed spec fn size(&self) -> nat {
        lang_set_total(self.term_entries@) + self.cur_term_entry.lang_sets@.len()
    }

    open spec fn step_spec(
        state: TbxState,
        tokens: Seq<TokenView>,
        text: Seq<char>,
        at: int,
    ) -> Result<(TbxState, int), ParseError> {
        let token = tokens[at];
        if token.kind == TokenKind::Start && token.name == "langSet"@ {
            match attributes_of(token.body) {
                Err(e) => Err(e),
                Ok(attributes) => Ok(
                    (
                        TbxState {
                            lang_set: LangSetView {
                                language: lowercase(
                                    value_or(attributes, "xml:lang"@, Seq::empty()),
                                ),
                                ..state.lang_set
                            },
                            ..state
                        },
                        at + 1,
                    ),
                ),
            }
        } else if token.kind == TokenKind::Start && token.name == "term"@ {
            match inline_nodes(tokens, text, at + 1, Seq::empty(), content_tags()) {
                Err(e) => Err(e),
                Ok((nodes, next)) => Ok((TbxState { term: nodes, ..state }, next)),
            }
        } else if token.kind == TokenKind::End && token.name == "termEntry"@ {
            Ok(
                (
                    TbxState {
                        entries: if state.entry.lang_sets.len() != 0 {
                            state.entries.push(state.entry)
                        } else {
                            state.entries
                        },
                        entry: empty_entry(),
                        ..state
                    },
                    at + 1,
                ),
            )
        } else if token.kind == TokenKind::End && token.name == "term"@ {
            Ok(
                (
                    TbxState {
                        lang_set: if state.term.len() != 0 {
                            LangSetView { term: state.term, ..state.lang_set }
                        } else {
                            state.lang_set
                        },
                        term: Seq::empty(),
                        ..state
                    },
                    at + 1,
                ),
            )
        } else if token.kind == TokenKind::End && token.name == "langSet"@ {
            Ok(
                (
                    TbxState {
                        entry: if state.term.len() != 0 {
                            EntryView {
                                lang_sets: state.entry.lang_sets.push(
                                    LangSetView { term: state.term, ..state.lang_set },
                                ),
                            }
                        } else {
                            state.entry
                        },
                        lang_set: empty_lang_set(),
                        term: Seq::empty(),
                        ..state
                    },
                    at + 1,
                ),
            )
        } else {
            Ok((state, at + 1))
        }
    }

    fn step(&mut self, tokens: &Vec<Token>, text: &str, at: usize) -> (res: Result<
        usize,
        ParseError,
    >) {
        let token = &tokens[at];
        let name = token.name.as_str();
        proof {
            lemma_nodes_view(self.cur_tig.term@);
        }
        if token.kind == TokenKind::Start && str_eq(name, "langSet") {
            let attributes = get_attributes(token.body.as_str())?;
            let language = attributes.get_or("xml:lang", "");
            self.cur_lang_set.language = to_lowercase(language.as_str());
            proof {
                reveal_strlit("");
                assert(""@ =~= Seq::<char>::empty());
            }
            Ok(at + 1)
        } else if token.kind == TokenKind::Start && str_eq(name, "term") {
            let stops = content_terminators();
            let (nodes, next) = SegNode::parse_inline(tokens, text, at + 1, &stops)?;
            self.cur_tig = Tig { term: nodes };
            Ok(next)
        } else if token.kind == TokenKind::End && str_eq(name, "termEntry") {
            let mut finished = TermEntry::default();
            core::mem::swap(&mut self.cur_term_entry, &mut finished);
            if finished.lang_sets.len() != 0 {
                let ghost before = self.term_entries@;
                self.term_entries.push(finished);
                proof {
                    assert(entries_view(self.term_entries@) =~= entries_view(before).push(
                        finished@,
                    ));
                    assert(self.term_entries@.drop_last() =~= before);
                }
            }
            Ok(at + 1)
        } else if token.kind == TokenKind::End && str_eq(name, "term") {
            let mut tig = Tig::default();
            core::mem::swap(&mut self.cur_tig, &mut tig);
            if tig.term.len() != 0 {
                self.cur_lang_set.tig = tig;
            }
            Ok(at + 1)
        } else if token.kind == TokenKind::End && str_eq(name, "langSet") {
            let mut tig = Tig::default();
            core::mem::swap(&mut self.cur_tig, &mut tig);
            let mut finished = LangSet::default();
            core::mem::swap(&mut self.cur_lang_set, &mut finished);
            if tig.term.len() != 0 {
                finished.tig = tig;
                let ghost before = self.cur_term_entry.lang_sets@;
                self.cur_term_entry.lang_sets.push(finished);
                proof {
                    assert(lang_sets_view(self.cur_term_entry.lang_sets@) =~= lang_sets_view(
                        before,
                    ).push(finished@));
                }
            }
            Ok(at + 1)
        } else {
            Ok(at + 1)
        }
    }
}

/// The entries that a term base document gives: its tokens, read one after
/// the other from the state before the first. An entry is kept where it has
/// a language set, a language set where it has a term.
pub open spec fn tbx_entries(content: Seq<char>) -> Result<Seq<EntryView>, ParseError> {
    let text = without_bom(content);
    match document_tokens(content) {
        None => Err(ParseError::Malformed),
        Some(tokens) => match run_spec::<TbxAssembler>(initial_state(), tokens, text, 0) {
            Err(e) => Err(e),
            Ok(state) => Ok(state.entries),
        },
    }
}

impl TbxFile {
    /// Whether every entry has a language set, every language set a term,
    /// and every inline span a child.
    pub open spec fn well_formed(&self) -> bool {
        entries_complete(entries_view(self.term_entries@))
    }

    /// Reads the term base that `content` holds; `path` is where the
    /// content came from.
    pub fn new(path: &str, content: &str) -> (res: Result<TbxFile, ParseError>)
        ensures
            match res {
                Ok(file) => {
                    &&& file.path@ == path@
                    &&& tbx_entries(content@) == Ok::<_, ParseError>(
                        entries_view(file.term_entries@),
                    )
                    &&& file.well_formed()
                },
                Err(e) => tbx_entries(content@) == Err::<Seq<EntryView>, _>(e),
            },
    {
        let text = strip_bom(content);
        let tokens = match tokenize(content) {
            None => {
                return Err(ParseError::Malformed);
            },
            Some(tokens) => tokens,
        };
        let mut assembler = TbxAssembler::new();
        match run(&mut assembler, &tokens, text) {
            Err(e) => Err(e),
            Ok(_) => Ok(TbxFile { path: path.to_owned(), term_entries: assembler.term_entries }),
        }
    }
}

impl Rendition for LangSet {
    open spec fn language_view(&self) -> Seq<char> {
        self.language@
    }

    open spec fn content_view(&self) -> Seq<NodeView> {
        nodes_view(self.tig.term@)
    }

    fn language(&self) -> (language: &String) {
        &self.language
    }

    fn content(&self) -> (content: &Vec<Box<SegNode>>) {
        &self.tig.term
    }
}

impl RenditionGroup for TermEntry {
    type Member = LangSet;

    open spec fn members_view(&self) -> Seq<LangSet> {
        self.lang_sets@
    }

    fn members(&self) -> (members: &Vec<LangSet>) {
        &self.lang_sets
    }
}

impl SearchInFile for TbxFile {
    /// Every term that matches is a hit; with it go the full terms of its
    /// entry in the other languages.
    open spec fn file_hits(&self, include_tags: bool, find: Finder) -> Seq<MatchView> {
        groups_hits(self.term_entries@, self.term_entries@.len() as int, include_tags, find)
    }

    fn search_in_file<M: SearchString>(&self, include_tags: bool, matcher: &M) -> (results: Vec<
        MatchResult,
    >) {
        search_groups(&self.term_entries, include_tags, matcher)
    }
}

impl GetMeta for TbxFile {
    open spec fn countable(&self) -> bool {
        true
    }

    open spec fn filename(&self) -> Seq<char> {
        self.path@
    }

    /// Every language set counts once for its language.
    open spec fn meta(&self) -> Map<Seq<char>, nat> {
        language_counts(languages_of(self.term_entries@, self.term_entries@.len() as int))
    }

    fn get_filename(&self) -> (name: String) {
        self.path.clone()
    }

    fn get_meta(&self) -> (meta: MetaInfo) {
        let languages = list_languages(&self.term_entries);
        count_languages(&languages)
    }
}

} // verus!
