use crate::assemble::{run, run_spec, Assembler};
use crate::attributes::{attributes_of, get_attributes, value_or};
use crate::error::ParseError;
use crate::inline::{content_tags, content_terminators, inline_nodes};
use crate::meta::{count_languages, language_counts, GetMeta, MetaInfo};
use crate::rendition::{
    groups_hits, languages_of, list_languages, search_groups, Rendition, RenditionGroup,
};
use crate::search::{Finder, MatchResult, MatchView, SearchInFile, SearchString};
use crate::segment::{nodes_filled, nodes_view, NodeView, SegNode};
use crate::text::{lowercase, str_eq, strip_bom, to_lowercase, without_bom};
use crate::token::{document_tokens, tokenize, Token, TokenKind, TokenView};
use vstd::prelude::*;

verus! {

/// A translation memory, as read from one document.
#[derive(Debug, Clone, PartialEq, Eq)]
pub struct TmxFile {
    pub path: String,
    pub tus: Vec<TU>,
}

/// One translation unit: the renditions of one text in several languages.
#[derive(Debug, Clone, PartialEq, Eq)]
pub struct TU {
    pub tuid: String,
    pub tuvs: Vec<TUV>,
}

/// One language's rendition of a translation unit.
#[derive(Debug, Clone, PartialEq, Eq)]
pub struct TUV {
    pub language: String,
    pub seg: Vec<Box<SegNode>>,
}

/// The mathematical value of a [`TUV`].
pub struct VariantView {
    pub language: Seq<char>,
    pub seg: Seq<NodeView>,
}

/// The mathematical value of a [`TU`].
pub struct UnitView {
    pub tuid: Seq<char>,
    pub tuvs: Seq<VariantView>,
}

impl View for TUV {
    type V = VariantView;

    open spec fn view(&self) -> VariantView {
        VariantView { language: self.language@, seg: nodes_view(self.seg@) }
    }
}

/// The mathematical value of a run of variants.
pub open spec fn variants_view(variants: Seq<TUV>) -> Seq<VariantView> {
    Seq::new(variants.len(), |k: int| variants[k]@)
}

impl View for TU {
    type V = UnitView;

    open spec fn view(&self) -> UnitView {
        UnitView { tuid: self.tuid@, tuvs: variants_view(self.tuvs@) }
    }
}

/// The mathematical value of a run of units.
pub open spec fn units_view(units: Seq<TU>) -> Seq<UnitView> {
    Seq::new(units.len(), |k: int| units[k]@)
}

/// Whether every variant of a run has content, and every inline span in
/// it a child.
pub open spec fn variants_complete(variants: Seq<VariantView>) -> bool {
    forall|k: int|
        0 <= k < variants.len() ==> (#[trigger] variants[k]).seg.len() > 0 && nodes_filled(
            variants[k].seg,
        )
}

/// Whether every unit of a run has a variant, and every variant content.
pub open spec fn units_complete(units: Seq<UnitView>) -> bool {
    forall|k: int|
        0 <= k < units.len() ==> (#[trigger] units[k]).tuvs.len() > 0 && variants_complete(
            units[k].tuvs,
        )
}

/// The number of variants in a run of units.
pub open spec fn variant_total(units: Seq<TU>) -> nat
    decreases units.len(),
{
    if units.len() == 0 {
        0
    } else {
        variant_total(units.drop_last()) + units.last().tuvs@.len()
    }
}

/// The state of reading a translation memory: the units kept so far, the
/// unit that is being built and the variant that is being built.
pub struct TmxState {
    pub units: Seq<UnitView>,
    pub unit: UnitView,
    pub variant: VariantView,
}

/// A variant without language and content.
pub open spec fn empty_variant() -> VariantView {
    VariantView { language: Seq::empty(), seg: Seq::empty() }
}

/// A unit without id and variants.
pub open spec fn empty_unit() -> UnitView {
    UnitView { tuid: Seq::empty(), tuvs: Seq::empty() }
}

/// The state before the first token.
pub open spec fn initial_state() -> TmxState {
    TmxState { units: Seq::empty(), unit: empty_unit(), variant: empty_variant() }
}

impl Default for TUV {
    fn default() -> (variant: TUV)
        ensures
            variant@ == empty_variant(),
            variant.seg.len() == 0,
    {
        let variant = TUV { language: String::new(), seg: Vec::new() };
        proof {
            lemma_nodes_view_len(variant.seg@);
        }
        variant
    }
}

impl Default for TU {
    fn default() -> (unit: TU)
        ensures
            unit@ == empty_unit(),
            unit.tuvs.len() == 0,
    {
        let unit = TU { tuid: String::new(), tuvs: Vec::new() };
        assert(unit@.tuvs =~= Seq::<VariantView>::empty());
        unit
    }
}

/// Builds the records of a translation memory, token by token.
pub struct TmxAssembler {
    tus: Vec<TU>,
    cur_tu: TU,
    cur_tuv: TUV,
}

impl TmxAssembler {
    fn new() -> (assembler: TmxAssembler)
        ensures
            assembler.state() == initial_state(),
            assembler.sound(),
    {
        let assembler = TmxAssembler {
            tus: Vec::new(),
            cur_tu: TU::default(),
            cur_tuv: TUV::default(),
        };
        assert(assembler.state().units =~= Seq::<UnitView>::empty());
        assembler
    }
}

impl Assembler for TmxAssembler {
    type State = TmxState;

    closed spec fn state(&self) -> TmxState {
        TmxState { units: units_view(self.tus@), unit: self.cur_tu@, variant: self.cur_tuv@ }
    }

    closed spec fn sound(&self) -> bool {
        &&& units_complete(units_view(self.tus@))
        &&& variants_complete(self.cur_tu@.tuvs)
        &&& nodes_filled(self.cur_tuv@.seg)
    }

    closed spec fn size(&self) -> nat {
        variant_total(self.tus@) + self.cur_tu.tuvs@.len()
    }

    open spec fn step_spec(
        state: TmxState,
        tokens: Seq<TokenView>,
        text: Seq<char>,
        at: int,
    ) -> Result<(TmxState, int), ParseError> {
        let token = tokens[at];
        if token.kind == TokenKind::Start && token.name == "tu"@ {
            match attributes_of(token.body) {
                Err(e) => Err(e),
                Ok(attributes) => Ok(
                    (
                        TmxState {
                            unit: UnitView {
                                tuid: value_or(attributes, "tuid"@, Seq::empty()),
                                ..state.unit
                            },
                            ..state
                        },
                        at + 1,
                    ),
                ),
            }
        } else if token.kind == TokenKind::Start && token.name == "tuv"@ {
            match attributes_of(token.body) {
                Err(e) => Err(e),
                Ok(attributes) => Ok(
                    (
                        TmxState {
                            variant: VariantView {
                                language: lowercase(
                                    value_or(attributes, "xml:lang"@, Seq::empty()),
                                ),
                                ..state.variant
                            },
                            ..state
                        },
                        at + 1,
                    ),
                ),
            }
        } else if token.kind == TokenKind::Start && token.name == "seg"@ {
            match inline_nodes(tokens, text, at + 1, Seq::empty(), content_tags()) {
                Err(e) => Err(e),
                Ok((nodes, next)) => Ok(
                    (
                        if nodes.len() != 0 {
                            TmxState {
                                variant: VariantView { seg: nodes, ..state.variant },
                                ..state
                            }
                        } else {
                            state
                        },
                        next,
                    ),
                ),
            }
        } else if token.kind == TokenKind::End && token.name == "tuv"@ {
            Ok(
                (
                    TmxState {
                        unit: if state.variant.seg.len() != 0 {
                            UnitView { tuvs: state.unit.tuvs.push(state.variant), ..state.unit }
                        } else {
                            state.unit
                        },
                        variant: empty_variant(),
                        ..state
                    },
                    at + 1,
                ),
            )
        } else if token.kind == TokenKind::End && token.name == "tu"@ {
            Ok(
                (
                    TmxState {
                        units: if state.unit.tuvs.len() != 0 {
                            state.units.push(state.unit)
                        } else {
                            state.units
                        },
                        unit: empty_unit(),
                        ..state
                    },
                    at + 1,
                ),
            )
        } else {
            Ok((state, at + 1))
        }
    }

    fn step(&mut self, tokens: &Vec<Token>, text: &str, at: usize) -> (res: Result<
        usize,
        ParseError,
    >) {
        let token = &tokens[at];
        let name = token.name.as_str();
        proof {
            lemma_nodes_view_len(self.cur_tuv.seg@);
        }
        if token.kind == TokenKind::Start && str_eq(name, "tu") {
            let attributes = get_attributes(token.body.as_str())?;
            self.cur_tu.tuid = attributes.get_or("tuid", "");
            proof {
                reveal_strlit("");
                assert(""@ =~= Seq::<char>::empty());
            }
            Ok(at + 1)
        } else if token.kind == TokenKind::Start && str_eq(name, "tuv") {
            let attributes = get_attributes(token.body.as_str())?;
            let language = attributes.get_or("xml:lang", "");
            self.cur_tuv.language = to_lowercase(language.as_str());
            proof {
                reveal_strlit("");
                assert(""@ =~= Seq::<char>::empty());
            }
            Ok(at + 1)
        } else if token.kind == TokenKind::Start && str_eq(name, "seg") {
            let stops = content_terminators();
            let (nodes, next) = SegNode::parse_inline(tokens, text, at + 1, &stops)?;
            proof {
                lemma_nodes_view_len(nodes@);
            }
            if nodes.len() != 0 {
                self.cur_tuv.seg = nodes;
            }
            Ok(next)
        } else if token.kind == TokenKind::End && str_eq(name, "tuv") {
            let mut finished = TUV::default();
            core::mem::swap(&mut self.cur_tuv, &mut finished);
            if finished.seg.len() != 0 {
                let ghost before = self.cur_tu.tuvs@;
                self.cur_tu.tuvs.push(finished);
                proof {
                    assert(variants_view(self.cur_tu.tuvs@) =~= variants_view(before).push(
                        finished@,
                    ));
                }
            }
            Ok(at + 1)
        } else if token.kind == TokenKind::End && str_eq(name, "tu") {
            let mut finished = TU::default();
            core::mem::swap(&mut self.cur_tu, &mut finished);
            if finished.tuvs.len() != 0 {
                let ghost before = self.tus@;
                self.tus.push(finished);
                proof {
                    assert(units_view(self.tus@) =~= units_view(before).push(finished@));
                    assert(self.tus@.drop_last() =~= before);
                }
            }
            Ok(at + 1)
        } else {
            Ok(at + 1)
        }
    }
}

proof fn lemma_nodes_view_len(nodes: Seq<Box<SegNode>>)
    ensures
        nodes_view(nodes).len() == nodes.len(),
{
    crate::segment::lemma_nodes_view(nodes);
}

/// The units that a translation memory document gives: its tokens, read one
/// after the other from the state before the first. A unit is kept where it
/// has a variant, a variant where it has content.
pub open spec fn tmx_units(content: Seq<char>) -> Result<Seq<UnitView>, ParseError> {
    let text = without_bom(content);
    match document_tokens(content) {
        None => Err(ParseError::Malformed),
        Some(tokens) => match run_spec::<TmxAssembler>(initial_state(), tokens, text, 0) {
            Err(e) => Err(e),
            Ok(state) => Ok(state.units),
        },
    }
}

impl TmxFile {
    /// Whether every unit has a variant, every variant content, and every
    /// inline span a child.
    pub open spec fn well_formed(&self) -> bool {
        units_complete(units_view(self.tus@))
    }

    /// Reads the translation memory that `content` holds; `path` is where
    /// the content came from.
    pub fn new(path: &str, content: &str) -> (res: Result<TmxFile, ParseError>)
        ensures
            match res {
                Ok(file) => {
                    &&& file.path@ == path@
                    &&& tmx_units(content@) == Ok::<_, ParseError>(units_view(file.tus@))
                    &&& file.well_formed()
                },
                Err(e) => tmx_units(content@) == Err::<Seq<UnitView>, _>(e),
            },
    {
        let text = strip_bom(content);
        let tokens = match tokenize(content) {
            None => {
                return Err(ParseError::Malformed);
            },
            Some(tokens) => tokens,
        };
        let mut assembler = TmxAssembler::new();
        match run(&mut assembler, &tokens, text) {
            Err(e) => Err(e),
            Ok(_) => Ok(TmxFile { path: path.to_owned(), tus: assembler.tus }),
        }
    }
}

impl Rendition for TUV {
    open spec fn language_view(&self) -> Seq<char> {
        self.language@
    }

    open spec fn content_view(&self) -> Seq<NodeView> {
        nodes_view(self.seg@)
    }

    fn language(&self) -> (language: &String) {
        &self.language
    }

    fn content(&self) -> (content: &Vec<Box<SegNode>>) {
        &self.seg
    }
}

impl RenditionGroup for TU {
    type Member = TUV;

    open spec fn members_view(&self) -> Seq<TUV> {
        self.tuvs@
    }

    fn members(&self) -> (members: &Vec<TUV>) {
        &self.tuvs
    }
}

impl SearchInFile for TmxFile {
    /// Every variant whose text matches is a hit; with it go the full texts
    /// of the variants of its unit in the other languages.
    open spec fn file_hits(&self, include_tags: bool, find: Finder) -> Seq<MatchView> {
        groups_hits(self.tus@, self.tus@.len() as int, include_tags, find)
    }

    fn search_in_file<M: SearchString>(&self, include_tags: bool, matcher: &M) -> (results: Vec<
        MatchResult,
    >) {
        search_groups(&self.tus, include_tags, matcher)
    }
}

impl GetMeta for TmxFile {
    open spec fn countable(&self) -> bool {
        true
    }

    open spec fn filename(&self) -> Seq<char> {
        self.path@
    }

    /// Every variant counts once for its language.
    open spec fn meta(&self) -> Map<Seq<char>, nat> {
        language_counts(languages_of(self.tus@, self.tus@.len() as int))
    }

    fn get_filename(&self) -> (name: String) {
        self.path.clone()
    }

    fn get_meta(&self) -> (meta: MetaInfo) {
        let languages = list_languages(&self.tus);
        count_languages(&languages)
    }
}

} // verus!
