use crate::assemble::{run, run_spec, Assembler};
use crate::attributes::{attributes_of, get_attributes, value_or};
use crate::error::ParseError;
use crate::inline::{
    closing_index, content_tags, content_terminators, find_closing, inline_nodes, is_closed_at,
};
use crate::meta::{count_in, GetMeta, MetaInfo};
use crate::search::{
    finder, results_view, search_in_transunits, units_matches, Finder, MatchResult, MatchView,
    SearchInFile, SearchString,
};
use crate::segment::{lemma_nodes_view, nodes_filled, nodes_view, NodeView, SegNode};
use crate::text::{lowercase, str_eq, strip_bom, to_lowercase, without_bom};
use crate::token::{document_tokens, tokenize, Token, TokenKind, TokenView};
use vstd::prelude::*;

verus! {

/// A localization-interchange document, as read from one text.
#[derive(Debug, Clone, PartialEq, Eq)]
pub struct XliffFile {
    pub path: String,
    pub xfiles: Vec<XFile>,
}

/// One `file` element: a source and a target language, and the units
/// between them.
#[derive(Debug, Clone, PartialEq, Eq)]
pub struct XFile {
    pub src_language: String,
    pub tgt_language: String,
    pub trans_units: Vec<TransUnit>,
}

/// One source and target pair.
#[derive(Debug, Clone, PartialEq, Eq)]
pub struct TransUnit {
    pub id: String,
    /// The sequence number: the units that are kept are numbered from 1 in
    /// steps of 1, through all files of a document.
    pub sn: u16,
    pub translate: String,
    pub source: Vec<Box<SegNode>>,
    pub target: Vec<Box<SegNode>>,
}

/// The mathematical value of a [`TransUnit`].
pub struct TransUnitView {
    pub id: Seq<char>,
    pub sn: int,
    pub translate: Seq<char>,
    pub source: Seq<NodeView>,
    pub target: Seq<NodeView>,
}

/// The mathematical value of an [`XFile`].
pub struct XFileView {
    pub src_language: Seq<char>,
    pub tgt_language: Seq<char>,
    pub trans_units: Seq<TransUnitView>,
}

impl View for TransUnit {
    type V = TransUnitView;

    open spec fn view(&self) -> TransUnitView {
        TransUnitView {
            id: self.id@,
            sn: self.sn as int,
            translate: self.translate@,
            source: nodes_view(self.source@),
            target: nodes_view(self.target@),
        }
    }
}

/// The mathematical value of a run of units.
pub open spec fn trans_units_view(units: Seq<TransUnit>) -> Seq<TransUnitView> {
    Seq::new(units.len(), |k: int| units[k]@)
}

impl View for XFile {
    type V = XFileView;

    open spec fn view(&self) -> XFileView {
        XFileView {
            src_language: self.src_language@,
            tgt_language: self.tgt_language@,
            trans_units: trans_units_view(self.trans_units@),
        }
    }
}

/// The mathematical value of a run of files.
pub open spec fn xfiles_view(files: Seq<XFile>) -> Seq<XFileView> {
    Seq::new(files.len(), |k: int| files[k]@)
}

/// Whether every unit of a run has a source and a target, and every inline
/// span in them a child.
pub open spec fn trans_units_complete(units: Seq<TransUnitView>) -> bool {
    forall|k: int|
        0 <= k < units.len() ==> {
            &&& (#[trigger] units[k]).source.len() > 0
            &&& units[k].target.len() > 0
            &&& nodes_filled(units[k].source)
            &&& nodes_filled(units[k].target)
        }
}

/// Whether every file of a run has a unit, and every unit a source and a
/// target.
pub open spec fn xfiles_complete(files: Seq<XFileView>) -> bool {
    forall|k: int|
        0 <= k < files.len() ==> (#[trigger] files[k]).trans_units.len() > 0
            && trans_units_complete(files[k].trans_units)
}

/// The units of a run of files, in order.
pub open spec fn all_units(files: Seq<XFileView>) -> Seq<TransUnitView>
    decreases files.len(),
{
    if files.len() == 0 {
        Seq::empty()
    } else {
        all_units(files.drop_last()) + files.last().trans_units
    }
}

/// Whether the units of a run are numbered 1, 2, 3 and so on, in steps of
/// 1.
pub open spec fn numbered_from_one(units: Seq<TransUnitView>) -> bool {
    forall|k: int| 0 <= k < units.len() ==> (#[trigger] units[k]).sn == k + 1
}

/// Units that are numbered from 1 in steps of 1 have numbers that start at 1
/// or above and grow strictly from each unit to every later one.
pub proof fn lemma_numbers_grow(units: Seq<TransUnitView>)
    requires
        numbered_from_one(units),
    ensures
        units.len() > 0 ==> units[0].sn >= 1,
        forall|j: int, k: int|
            0 <= j < k < units.len() ==> (#[trigger] units[j]).sn < (#[trigger] units[k]).sn,
{
}

/// The number of units in a run of files.
pub open spec fn trans_unit_total(files: Seq<XFile>) -> nat
    decreases files.len(),
{
    if files.len() == 0 {
        0
    } else {
        trans_unit_total(files.drop_last()) + files.last().trans_units@.len()
    }
}

/// The state of reading a localization-interchange document: the files kept
/// so far, the file and the unit that are being built, and the sequence
/// number that was given last, which is the number of units kept so far.
pub struct XliffState {
    pub files: Seq<XFileView>,
    pub file: XFileView,
    pub unit: TransUnitView,
    pub sn: int,
}

/// A unit without id, number and content.
pub open spec fn empty_trans_unit() -> TransUnitView {
    TransUnitView {
        id: Seq::empty(),
        sn: 0,
        translate: Seq::empty(),
        source: Seq::empty(),
        target: Seq::empty(),
    }
}

/// A file without languages and units.
pub open spec fn empty_xfile() -> XFileView {
    XFileView { src_language: Seq::empty(), tgt_language: Seq::empty(), trans_units: Seq::empty() }
}

/// The state before the first token.
pub open spec fn initial_state() -> XliffState {
    XliffState { files: Seq::empty(), file: empty_xfile(), unit: empty_trans_unit(), sn: 0 }
}

/// What the opening tag of a `file` element makes of a state: the two
/// languages are required, and are folded to lowercase.
pub open spec fn open_file(state: XliffState, attributes: Map<Seq<char>, Seq<char>>) -> Result<
    XliffState,
    ParseError,
> {
    if attributes.contains_key("source-language"@) && attributes.contains_key("target-language"@) {
        Ok(
            XliffState {
                file: XFileView {
                    src_language: lowercase(attributes["source-language"@]),
                    tgt_language: lowercase(attributes["target-language"@]),
                    ..state.file
                },
                ..state
            },
        )
    } else {
        Err(ParseError::MissingAttribute)
    }
}

/// What the opening tag of a `trans-unit` element makes of a state: the id
/// is required, and the unit is meant to be translated unless it says
/// otherwise.
pub open spec fn open_trans_unit(
    state: XliffState,
    attributes: Map<Seq<char>, Seq<char>>,
) -> Result<XliffState, ParseError> {
    if !attributes.contains_key("id"@) {
        Err(ParseError::MissingAttribute)
    } else {
        Ok(
            XliffState {
                unit: TransUnitView {
                    id: attributes["id"@],
                    translate: value_or(attributes, "translate"@, "yes"@),
                    ..state.unit
                },
                ..state
            },
        )
    }
}

/// Whether a unit has a source and a target, so that it is kept.
pub open spec fn is_complete(unit: TransUnitView) -> bool {
    unit.source.len() != 0 && unit.target.len() != 0
}

/// What the closing tag of a `trans-unit` element makes of a state. A unit
/// with a source and a target is kept in the file that is being built, under
/// the sequence number that follows the one given last; `state.sn` is the
/// number given last, and so the number of units kept so far. Any other unit
/// is dropped and takes no number.
pub open spec fn close_trans_unit(state: XliffState) -> Result<XliffState, ParseError> {
    if !is_complete(state.unit) {
        Ok(XliffState { unit: empty_trans_unit(), ..state })
    } else if state.sn >= u16::MAX {
        Err(ParseError::TooManyUnits)
    } else {
        Ok(
            XliffState {
                file: XFileView {
                    trans_units: state.file.trans_units.push(
                        TransUnitView { sn: state.sn + 1, ..state.unit },
                    ),
                    ..state.file
                },
                unit: empty_trans_unit(),
                sn: state.sn + 1,
                ..state
            },
        )
    }
}

/// A unit that is kept takes the number that follows the one given last,
/// whatever its id and its other attributes are; a unit that is dropped
/// takes none. So the units that are kept are numbered 1, 2, 3 and so on.
pub proof fn lemma_kept_units_count_up(state: XliffState)
    requires
        close_trans_unit(state) is Ok,
    ensures
        is_complete(state.unit) ==> {
            let next = close_trans_unit(state)->Ok_0;
            &&& next.sn == state.sn + 1
            &&& next.file.trans_units.last().sn == state.sn + 1
            &&& next.file.trans_units.len() == state.file.trans_units.len() + 1
        },
        !is_complete(state.unit) ==> {
            let next = close_trans_unit(state)->Ok_0;
            &&& next.sn == state.sn
            &&& next.file.trans_units == state.file.trans_units
        },
{
}

/// Builds the records of a localization-interchange document, token by
/// token.
pub struct XliffAssembler {
    xfiles: Vec<XFile>,
    cur_xfile: XFile,
    cur_trans_unit: TransUnit,
    sn: u16,
}

impl Default for TransUnit {
    fn default() -> (unit: TransUnit)
        ensures
            unit@ == empty_trans_unit(),
            unit.source.len() == 0,
            unit.target.len() == 0,
    {
        let unit = TransUnit {
            id: String::new(),
            sn: 0,
            translate: String::new(),
            source: Vec::new(),
            target: Vec::new(),
        };
        proof {
            lemma_nodes_view(unit.source@);
            lemma_nodes_view(unit.target@);
        }
        unit
    }
}

impl Default for XFile {
    fn default() -> (file: XFile)
        ensures
            file@ == empty_xfile(),
            file.trans_units.len() == 0,
    {
        let file = XFile {
            src_language: String::new(),
            tgt_language: String::new(),
            trans_units: Vec::new(),
        };
        assert(file@.trans_units =~= Seq::<TransUnitView>::empty());
        file
    }
}

impl XliffAssembler {
    fn new() -> (assembler: XliffAssembler)
        ensures
            assembler.state() == initial_state(),
            assembler.sound(),
            assembler.size() == 0,
    {
        let assembler = XliffAssembler {
            xfiles: Vec::new(),
            cur_xfile: XFile::default(),
            cur_trans_unit: TransUnit::default(),
            sn: 0,
        };
        assert(assembler.state().files =~= Seq::<XFileView>::empty());
        assembler
    }
}

impl Assembler for XliffAssembler {
    type State = XliffState;

    closed spec fn state(&self) -> XliffState {
        XliffState {
            files: xfiles_view(self.xfiles@),
            file: self.cur_xfile@,
            unit: self.cur_trans_unit@,
            sn: self.sn as int,
        }
    }

    closed spec fn sound(&self) -> bool {
        let kept = all_units(xfiles_view(self.xfiles@)) + self.cur_xfile@.trans_units;
        &&& xfiles_complete(xfiles_view(self.xfiles@))
        &&& trans_units_complete(self.cur_xfile@.trans_units)
        &&& numbered_from_one(kept)
        &&& kept.len() == self.sn
        &&& nodes_filled(self.cur_trans_unit@.source)
        &&& nodes_filled(self.cur_trans_unit@.target)
    }

    closed spec fn size(&self) -> nat {
        trans_unit_total(self.xfiles@) + self.cur_xfile.trans_units@.len()
    }

    open spec fn step_spec(
        state: XliffState,
        tokens: Seq<TokenView>,
        text: Seq<char>,
        at: int,
    ) -> Result<(XliffState, int), ParseError> {
        let token = tokens[at];
        if token.kind == TokenKind::Start && token.name == "file"@ {
            match attributes_of(token.body) {
                Err(e) => Err(e),
                Ok(attributes) => match open_file(state, attributes) {
                    Err(e) => Err(e),
                    Ok(next) => Ok((next, at + 1)),
                },
            }
        } else if token.kind == TokenKind::Start && token.name == "trans-unit"@ {
            match attributes_of(token.body) {
                Err(e) => Err(e),
                Ok(attributes) => match open_trans_unit(state, attributes) {
                    Err(e) => Err(e),
                    Ok(next) => Ok((next, at + 1)),
                },
            }
        } else if token.kind == TokenKind::Start && token.name == "source"@ {
            match inline_nodes(tokens, text, at + 1, Seq::empty(), content_tags()) {
                Err(e) => Err(e),
                Ok((nodes, next)) => Ok(
                    (
                        if nodes.len() != 0 {
                            XliffState {
                                unit: TransUnitView { source: nodes, ..state.unit },
                                ..state
                            }
                        } else {
                            state
                        },
                        next,
                    ),
                ),
            }
        } else if token.kind == TokenKind::Start && token.name == "target"@ {
            match inline_nodes(tokens, text, at + 1, Seq::empty(), content_tags()) {
                Err(e) => Err(e),
                Ok((nodes, next)) => Ok(
                    (
                        if nodes.len() != 0 {
                            XliffState {
                                unit: TransUnitView { target: nodes, ..state.unit },
                                ..state
                            }
                        } else {
                            state
                        },
                        next,
                    ),
                ),
            }
        } else if token.kind == TokenKind::Start && token.name == "alt-trans"@ {
            let close = closing_index(tokens, "alt-trans"@, at + 1, 0);
            if is_closed_at(tokens, close) {
                Ok((state, close + 1))
            } else {
                Err(ParseError::UnclosedElement)
            }
        } else if token.kind == TokenKind::End && token.name == "file"@ {
            Ok(
                (
                    XliffState {
                        files: if state.file.trans_units.len() != 0 {
                            state.files.push(state.file)
                        } else {
                            state.files
                        },
                        file: empty_xfile(),
                        ..state
                    },
                    at + 1,
                ),
            )
        } else if token.kind == TokenKind::End && token.name == "trans-unit"@ {
            match close_trans_unit(state) {
                Err(e) => Err(e),
                Ok(next) => Ok((next, at + 1)),
            }
        } else {
            Ok((state, at + 1))
        }
    }

    fn step(&mut self, tokens: &Vec<Token>, text: &str, at: usize) -> (res: Result<
        usize,
        ParseError,
    >) {
        let token = &tokens[at];
        let name = token.name.as_str();
        let ghost kept = all_units(xfiles_view(self.xfiles@)) + self.cur_xfile@.trans_units;
        proof {
            lemma_nodes_view(self.cur_trans_unit.source@);
            lemma_nodes_view(self.cur_trans_unit.target@);
        }
        if token.kind == TokenKind::Start && str_eq(name, "file") {
            let attributes = get_attributes(token.body.as_str())?;
            let source = match attributes.get("source-language") {
                None => {
                    return Err(ParseError::MissingAttribute);
                },
                Some(language) => to_lowercase(language.as_str()),
            };
            let target = match attributes.get("target-language") {
                None => {
                    return Err(ParseError::MissingAttribute);
                },
                Some(language) => to_lowercase(language.as_str()),
            };
            self.cur_xfile.src_language = source;
            self.cur_xfile.tgt_language = target;
            Ok(at + 1)
        } else if token.kind == TokenKind::Start && str_eq(name, "trans-unit") {
            let attributes = get_attributes(token.body.as_str())?;
            let id = match attributes.get("id") {
                None => {
                    return Err(ParseError::MissingAttribute);
                },
                Some(id) => id.clone(),
            };
            self.cur_trans_unit.id = id;
            self.cur_trans_unit.translate = attributes.get_or("translate", "yes");
            Ok(at + 1)
        } else if token.kind == TokenKind::Start && str_eq(name, "source") {
            let stops = content_terminators();
            let (nodes, next) = SegNode::parse_inline(tokens, text, at + 1, &stops)?;
            proof {
                lemma_nodes_view(nodes@);
            }
            if nodes.len() != 0 {
                self.cur_trans_unit.source = nodes;
            }
            Ok(next)
        } else if token.kind == TokenKind::Start && str_eq(name, "target") {
            let stops = content_terminators();
            let (nodes, next) = SegNode::parse_inline(tokens, text, at + 1, &stops)?;
            proof {
                lemma_nodes_view(nodes@);
            }
            if nodes.len() != 0 {
                self.cur_trans_unit.target = nodes;
            }
            Ok(next)
        } else if token.kind == TokenKind::Start && str_eq(name, "alt-trans") {
            let close = find_closing(tokens, "alt-trans", at + 1);
            if close < tokens.len() && tokens[close].kind == TokenKind::End {
                Ok(close + 1)
            } else {
                Err(ParseError::UnclosedElement)
            }
        } else if token.kind == TokenKind::End && str_eq(name, "file") {
            let mut finished = XFile::default();
            core::mem::swap(&mut self.cur_xfile, &mut finished);
            if finished.trans_units.len() != 0 {
                let ghost before = self.xfiles@;
                self.xfiles.push(finished);
                proof {
                    assert(xfiles_view(self.xfiles@) =~= xfiles_view(before).push(finished@));
                    assert(xfiles_view(self.xfiles@).drop_last() =~= xfiles_view(before));
                    assert(self.xfiles@.drop_last() =~= before);
                }
            }
            proof {
                assert(all_units(xfiles_view(self.xfiles@)) + self.cur_xfile@.trans_units
                    =~= kept);
            }
            Ok(at + 1)
        } else if token.kind == TokenKind::End && str_eq(name, "trans-unit") {
            let complete = self.cur_trans_unit.source.len() != 0
                && self.cur_trans_unit.target.len() != 0;
            if complete && self.sn == u16::MAX {
                return Err(ParseError::TooManyUnits);
            }
            let mut finished = TransUnit::default();
            core::mem::swap(&mut self.cur_trans_unit, &mut finished);
            if complete {
                self.sn = self.sn + 1;
                finished.sn = self.sn;
                let ghost before = self.cur_xfile.trans_units@;
                self.cur_xfile.trans_units.push(finished);
                proof {
                    assert(trans_units_view(self.cur_xfile.trans_units@) =~= trans_units_view(
                        before,
                    ).push(finished@));
                    assert(all_units(xfiles_view(self.xfiles@)) + self.cur_xfile@.trans_units
                        =~= kept.push(finished@));
                }
            }
            Ok(at + 1)
        } else {
            Ok(at + 1)
        }
    }
}

/// The files that a localization-interchange document gives: its tokens,
/// read one after the other from the state before the first. A file is kept
/// where it has a unit, a unit where it has a source and a target; the units
/// that are kept are numbered from 1 in steps of 1. What lies
/// inside an `alt-trans` element is passed over unread.
pub open spec fn xliff_files(content: Seq<char>) -> Result<Seq<XFileView>, ParseError> {
    let text = without_bom(content);
    match document_tokens(content) {
        None => Err(ParseError::Malformed),
        Some(tokens) => match run_spec::<XliffAssembler>(initial_state(), tokens, text, 0) {
            Err(e) => Err(e),
            Ok(state) => Ok(state.files),
        },
    }
}

/// What the inner entry of an archive gives: the files of its text, or an
/// error where the archive holds no such entry.
pub open spec fn zipped_xliff_files(entry: Option<Seq<char>>) -> Result<
    Seq<XFileView>,
    ParseError,
> {
    match entry {
        None => Err(ParseError::MissingEntry),
        Some(content) => xliff_files(content),
    }
}

/// The mathematical value of the entry that a reader was handed.
pub open spec fn entry_view(entry: Option<&str>) -> Option<Seq<char>> {
    match entry {
        Some(text) => Some(text@),
        None => None,
    }
}

impl XliffFile {
    /// Whether every file has a unit, every unit a source and a target, and
    /// every inline span a child, and the units are numbered 1, 2, 3 and so
    /// on through all files.
    pub open spec fn well_formed(&self) -> bool {
        xfiles_complete(xfiles_view(self.xfiles@)) && numbered_from_one(
            all_units(xfiles_view(self.xfiles@)),
        )
    }

    /// Reads the localization-interchange document that `content` holds;
    /// `path` is where the content came from.
    pub fn new(path: &str, content: &str) -> (res: Result<XliffFile, ParseError>)
        ensures
            match res {
                Ok(file) => {
                    &&& file.path@ == path@
                    &&& xliff_files(content@) == Ok::<_, ParseError>(xfiles_view(file.xfiles@))
                    &&& file.well_formed()
                    &&& trans_unit_total(file.xfiles@) <= usize::MAX
                },
                Err(e) => xliff_files(content@) == Err::<Seq<XFileView>, _>(e),
            },
    {
        let text = strip_bom(content);
        let tokens = match tokenize(content) {
            None => {
                return Err(ParseError::Malformed);
            },
            Some(tokens) => tokens,
        };
        let mut assembler = XliffAssembler::new();
        match run(&mut assembler, &tokens, text) {
            Err(e) => Err(e),
            Ok(_) => {
                proof {
                    let files = all_units(xfiles_view(assembler.xfiles@));
                    let kept = files + assembler.cur_xfile@.trans_units;
                    assert forall|k: int| 0 <= k < files.len() implies (#[trigger] files[k]).sn
                        == k + 1 by {
                        assert(kept[k] == files[k]);
                    }
                }
                Ok(XliffFile { path: path.to_owned(), xfiles: assembler.xfiles })
            },
        }
    }

    /// Reads the document that lies in an archive at `path` under the name
    /// `inner_xliff_name`. `entry` is the text of that entry, or `None` where
    /// the archive holds no entry of that name, which fails the read.
    pub fn new_zipped(path: &str, inner_xliff_name: &str, entry: Option<&str>) -> (res: Result<
        XliffFile,
        ParseError,
    >)
        ensures
            match res {
                Ok(file) => {
                    &&& file.path@ == path@
                    &&& zipped_xliff_files(entry_view(entry)) == Ok::<_, ParseError>(
                        xfiles_view(file.xfiles@),
                    )
                    &&& file.well_formed()
                    &&& trans_unit_total(file.xfiles@) <= usize::MAX
                },
                Err(e) => zipped_xliff_files(entry_view(entry)) == Err::<Seq<XFileView>, _>(e),
            },
    {
        match entry {
            None => Err(ParseError::MissingEntry),
            Some(content) => XliffFile::new(path, content),
        }
    }
}

/// The hits in the first `n` files, in order: each file gives the hits of
/// its units.
pub open spec fn files_hits(files: Seq<XFile>, n: int, include_tags: bool, find: Finder) -> Seq<
    MatchView,
>
    decreases n,
{
    if n <= 0 {
        Seq::empty()
    } else {
        files_hits(files, n - 1, include_tags, find) + units_matches(
            trans_units_view(files[n - 1].trans_units@),
            include_tags,
            find,
        )
    }
}

impl SearchInFile for XliffFile {
    open spec fn file_hits(&self, include_tags: bool, find: Finder) -> Seq<MatchView> {
        files_hits(self.xfiles@, self.xfiles@.len() as int, include_tags, find)
    }

    fn search_in_file<M: SearchString>(&self, include_tags: bool, matcher: &M) -> (results: Vec<
        MatchResult,
    >) {
        let mut results: Vec<MatchResult> = Vec::new();
        let mut i: usize = 0;
        while i < self.xfiles.len()
            invariant
                i <= self.xfiles.len(),
                results_view(results@) == files_hits(
                    self.xfiles@,
                    i as int,
                    include_tags,
                    finder(*matcher),
                ),
            decreases self.xfiles.len() - i,
        {
            search_in_transunits(&self.xfiles[i].trans_units, include_tags, matcher, &mut results);
            i += 1;
        }
        results
    }
}

/// The counts that the first `n` files give: each file adds the number of
/// its units to the count of its source language and to the count of its
/// target language, once where the two are the same.
pub open spec fn files_counts(files: Seq<XFile>, n: int) -> Map<Seq<char>, nat>
    decreases n,
{
    if n <= 0 {
        Map::empty()
    } else {
        let before = files_counts(files, n - 1);
        let file = files[n - 1];
        let units = file.trans_units@.len();
        before.insert(file.src_language@, count_in(before, file.src_language@) + units).insert(
            file.tgt_language@,
            count_in(before, file.tgt_language@) + units,
        )
    }
}

proof fn lemma_total_of_prefix(files: Seq<XFile>, n: int)
    requires
        0 <= n <= files.len(),
    ensures
        trans_unit_total(files.take(n)) <= trans_unit_total(files),
        n < files.len() ==> trans_unit_total(files.take(n + 1)) == trans_unit_total(files.take(n))
            + files[n].trans_units@.len(),
    decreases files.len() - n,
{
    if n < files.len() {
        assert(files.take(n + 1).drop_last() =~= files.take(n));
        lemma_total_of_prefix(files, n + 1);
    } else {
        assert(files.take(n) =~= files);
    }
}

impl GetMeta for XliffFile {
    /// The units of all files together can be counted.
    open spec fn countable(&self) -> bool {
        trans_unit_total(self.xfiles@) <= usize::MAX
    }

    open spec fn filename(&self) -> Seq<char> {
        self.path@
    }

    open spec fn meta(&self) -> Map<Seq<char>, nat> {
        files_counts(self.xfiles@, self.xfiles@.len() as int)
    }

    fn get_filename(&self) -> (name: String) {
        self.path.clone()
    }

    fn get_meta(&self) -> (meta: MetaInfo) {
        let mut meta = MetaInfo::new();
        let mut i: usize = 0;
        while i < self.xfiles.len()
            invariant
                i <= self.xfiles.len(),
                trans_unit_total(self.xfiles@) <= usize::MAX,
                meta@ == files_counts(self.xfiles@, i as int),
                forall|language: Seq<char>|
                    #[trigger] count_in(meta@, language) <= trans_unit_total(
                        self.xfiles@.take(i as int),
                    ),
            decreases self.xfiles.len() - i,
        {
            let file = &self.xfiles[i];
            let units = file.trans_units.len();
            let ghost before = meta@;
            proof {
                lemma_total_of_prefix(self.xfiles@, i as int);
                lemma_total_of_prefix(self.xfiles@, i + 1);
                assert(count_in(before, file.tgt_language@) <= trans_unit_total(
                    self.xfiles@.take(i as int),
                ));
            }
            meta.add(file.src_language.as_str(), units);
            if !str_eq(file.tgt_language.as_str(), file.src_language.as_str()) {
                meta.add(file.tgt_language.as_str(), units);
            }
            proof {
                assert forall|language: Seq<char>| #[trigger]
                    count_in(meta@, language) <= trans_unit_total(
                        self.xfiles@.take(i + 1),
                    ) by {
                    assert(count_in(before, language) <= trans_unit_total(
                        self.xfiles@.take(i as int),
                    ));
                }
            }
            i += 1;
        }
        meta
    }
}

} // verus!
