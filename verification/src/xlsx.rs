use crate::error::ParseError;
use crate::inline::{inline_nodes, names_view};
use crate::meta::{GetMeta, MetaInfo};
use crate::search::{
    search_in_transunits, units_matches, Finder, MatchResult, MatchView, SearchInFile,
    SearchString,
};
use crate::segment::{nodes_filled, nodes_view, NodeView, SegNode};
use crate::text::{lowercase, str_eq, strip_bom, to_lowercase, without_bom};
use crate::token::{document_tokens, tokenize};
use crate::xliff::{trans_units_view, TransUnit, TransUnitView};
use vstd::prelude::*;

verus! {

/// The first sheet of a workbook, as plain text: the cells of its header row
/// and of the rows below it.
#[derive(Debug, Clone, PartialEq, Eq)]
pub struct Sheet {
    pub header: Vec<String>,
    pub rows: Vec<Vec<String>>,
}

/// A bilingual table, as read from the first sheet of a workbook.
#[derive(Debug, Clone, PartialEq, Eq)]
pub struct TranslationXlsx {
    pub path: String,
    pub trans_units: Vec<TransUnit>,
    pub src_language: String,
    pub tgt_language: String,
}

/// The mathematical value of a row of cells.
pub open spec fn row_view(row: Seq<String>) -> Seq<Seq<char>> {
    Seq::new(row.len(), |k: int| row[k]@)
}

/// The mathematical value of a run of rows.
pub open spec fn rows_view(rows: Seq<Vec<String>>) -> Seq<Seq<Seq<char>>> {
    Seq::new(rows.len(), |k: int| row_view(rows[k]@))
}

/// The mathematical value of a [`Sheet`].
pub struct SheetView {
    pub header: Seq<Seq<char>>,
    pub rows: Seq<Seq<Seq<char>>>,
}

impl View for Sheet {
    type V = SheetView;

    open spec fn view(&self) -> SheetView {
        SheetView { header: row_view(self.header@), rows: rows_view(self.rows@) }
    }
}

/// The mathematical value of a [`TranslationXlsx`], without its path.
pub struct TableView {
    pub src_language: Seq<char>,
    pub tgt_language: Seq<char>,
    pub trans_units: Seq<TransUnitView>,
}

/// The cell in column `column` of a row; empty where the row is shorter.
pub open spec fn cell(row: Seq<Seq<char>>, column: int) -> Seq<char> {
    if 0 <= column < row.len() {
        row[column]
    } else {
        Seq::empty()
    }
}

/// The segment that the text of one cell holds: the cell is read as a
/// document of its own, up to its end. No closing tag ends the reading
/// before that.
pub open spec fn cell_nodes(text: Seq<char>) -> Result<Seq<NodeView>, ParseError> {
    let inner = without_bom(text);
    match document_tokens(text) {
        None => Err(ParseError::Malformed),
        Some(tokens) => match inline_nodes(tokens, inner, 0, Seq::empty(), Seq::empty()) {
            Err(e) => Err(e),
            Ok((nodes, _)) => Ok(nodes),
        },
    }
}

/// The unit that a row gives where it is row number `sn` below the header:
/// id, source and target from its first three cells.
pub open spec fn row_unit(row: Seq<Seq<char>>, sn: int) -> Result<TransUnitView, ParseError> {
    match cell_nodes(cell(row, 1)) {
        Err(e) => Err(e),
        Ok(source) => match cell_nodes(cell(row, 2)) {
            Err(e) => Err(e),
            Ok(target) => if sn > u16::MAX {
                Err(ParseError::TooManyUnits)
            } else {
                Ok(TransUnitView { id: cell(row, 0), sn, translate: "yes"@, source, target })
            },
        },
    }
}

/// The units that the first `n` rows give: a row is kept where its id is not
/// empty, and every row takes a sequence number, kept or not.
pub open spec fn rows_units(rows: Seq<Seq<Seq<char>>>, n: int) -> Result<
    Seq<TransUnitView>,
    ParseError,
>
    decreases n,
{
    if n <= 0 {
        Ok(Seq::empty())
    } else {
        match rows_units(rows, n - 1) {
            Err(e) => Err(e),
            Ok(units) => match row_unit(rows[n - 1], n) {
                Err(e) => Err(e),
                Ok(unit) => Ok(
                    if unit.id.len() != 0 {
                        units.push(unit)
                    } else {
                        units
                    },
                ),
            },
        }
    }
}

proof fn lemma_rows_error_stays(rows: Seq<Seq<Seq<char>>>, n: int, m: int)
    requires
        0 <= n <= m,
        rows_units(rows, n) is Err,
    ensures
        rows_units(rows, m) == rows_units(rows, n),
    decreases m - n,
{
    if n < m {
        lemma_rows_error_stays(rows, n, m - 1);
    }
}

/// The table that a sheet gives. A workbook without a sheet gives an empty
/// table. The header row names the source language in its second cell and
/// the target language in its third.
pub open spec fn table_of(sheet: Option<SheetView>) -> Result<TableView, ParseError> {
    match sheet {
        None => Ok(
            TableView {
                src_language: Seq::empty(),
                tgt_language: Seq::empty(),
                trans_units: Seq::empty(),
            },
        ),
        Some(sheet) => if sheet.header.len() < 3 {
            Err(ParseError::MissingHeader)
        } else {
            match rows_units(sheet.rows, sheet.rows.len() as int) {
                Err(e) => Err(e),
                Ok(units) => Ok(
                    TableView {
                        src_language: lowercase(sheet.header[1]),
                        tgt_language: lowercase(sheet.header[2]),
                        trans_units: units,
                    },
                ),
            }
        },
    }
}

/// Whether every unit of a run has an id, every inline span in it has a
/// child, and the sequence numbers start at 1 or above and grow strictly
/// along the run. A unit has the number of its row, counted from the first
/// row below the header.
pub open spec fn rows_complete(units: Seq<TransUnitView>) -> bool {
    &&& forall|k: int|
        0 <= k < units.len() ==> {
            &&& (#[trigger] units[k]).id.len() > 0
            &&& units[k].sn >= 1
            &&& nodes_filled(units[k].source)
            &&& nodes_filled(units[k].target)
        }
    &&& forall|j: int, k: int|
        0 <= j < k < units.len() ==> (#[trigger] units[j]).sn < (#[trigger] units[k]).sn
}

/// The mathematical value of the sheet that a reader was handed.
pub open spec fn sheet_view(sheet: Option<&Sheet>) -> Option<SheetView> {
    match sheet {
        Some(sheet) => Some(sheet@),
        None => None,
    }
}

/// Reads the segment that the text of one cell holds; see [`cell_nodes`].
pub fn parse_cell(text: &str) -> (res: Result<Vec<Box<SegNode>>, ParseError>)
    ensures
        match res {
            Ok(nodes) => cell_nodes(text@) == Ok::<_, ParseError>(nodes_view(nodes@))
                && nodes_filled(nodes_view(nodes@)),
            Err(e) => cell_nodes(text@) == Err::<Seq<NodeView>, _>(e),
        },
{
    let inner = strip_bom(text);
    let stops: Vec<String> = Vec::new();
    assert(names_view(stops@) =~= Seq::<Seq<char>>::empty());
    match tokenize(text) {
        None => Err(ParseError::Malformed),
        Some(tokens) => match SegNode::parse_inline(&tokens, inner, 0, &stops) {
            Err(e) => Err(e),
            Ok((nodes, _)) => Ok(nodes),
        },
    }
}

fn cell_text(row: &Vec<String>, column: usize) -> (text: &str)
    ensures
        text@ == cell(row_view(row@), column as int),
{
    if column < row.len() {
        row[column].as_str()
    } else {
        proof {
            reveal_strlit("");
        }
        ""
    }
}

impl TranslationXlsx {
    /// The mathematical value of the table, without its path.
    pub open spec fn table(&self) -> TableView {
        TableView {
            src_language: self.src_language@,
            tgt_language: self.tgt_language@,
            trans_units: trans_units_view(self.trans_units@),
        }
    }

    /// Whether every unit has an id, every inline span a child, and the
    /// sequence numbers start at 1 or above and grow strictly.
    pub open spec fn well_formed(&self) -> bool {
        rows_complete(trans_units_view(self.trans_units@))
    }

    /// Reads the bilingual table that the first sheet of a workbook holds;
    /// `path` is where the workbook came from, and `sheet` is `None` where it
    /// has no sheet.
    #[verifier::loop_isolation(false)]
    pub fn new(path: &str, sheet: Option<&Sheet>) -> (res: Result<TranslationXlsx, ParseError>)
        ensures
            match res {
                Ok(file) => {
                    &&& file.path@ == path@
                    &&& table_of(sheet_view(sheet)) == Ok::<_, ParseError>(file.table())
                    &&& file.well_formed()
                },
                Err(e) => table_of(sheet_view(sheet)) == Err::<TableView, _>(e),
            },
    {
        let mut units: Vec<TransUnit> = Vec::new();
        let sheet = match sheet {
            None => {
                let file = TranslationXlsx {
                    path: path.to_owned(),
                    trans_units: units,
                    src_language: String::new(),
                    tgt_language: String::new(),
                };
                assert(file.table().trans_units =~= Seq::<TransUnitView>::empty());
                return Ok(file);
            },
            Some(sheet) => sheet,
        };
        if sheet.header.len() < 3 {
            return Err(ParseError::MissingHeader);
        }
        let src_language = to_lowercase(sheet.header[1].as_str());
        let tgt_language = to_lowercase(sheet.header[2].as_str());
        let ghost rows = rows_view(sheet.rows@);
        let mut n: usize = 0;
        assert(trans_units_view(units@) =~= Seq::<TransUnitView>::empty());
        while n < sheet.rows.len()
            invariant
                n <= sheet.rows.len(),
                rows == rows_view(sheet.rows@),
                rows_units(rows, n as int) == Ok::<_, ParseError>(trans_units_view(units@)),
                rows_complete(trans_units_view(units@)),
                forall|k: int| 0 <= k < units.len() ==> (#[trigger] units[k]).sn <= n,
            decreases sheet.rows.len() - n,
        {
            let row = &sheet.rows[n];
            let ghost before = trans_units_view(units@);
            let source = match parse_cell(cell_text(row, 1)) {
                Err(e) => {
                    proof {
                        lemma_rows_error_stays(rows, n + 1, rows.len() as int);
                    }
                    return Err(e);
                },
                Ok(nodes) => nodes,
            };
            let target = match parse_cell(cell_text(row, 2)) {
                Err(e) => {
                    proof {
                        lemma_rows_error_stays(rows, n + 1, rows.len() as int);
                    }
                    return Err(e);
                },
                Ok(nodes) => nodes,
            };
            if n >= u16::MAX as usize {
                proof {
                    lemma_rows_error_stays(rows, n + 1, rows.len() as int);
                }
                return Err(ParseError::TooManyUnits);
            }
            let sn: u16 = (n + 1) as u16;
            let unit = TransUnit {
                id: cell_text(row, 0).to_owned(),
                sn,
                source,
                target,
                translate: "yes".to_owned(),
            };
            if !unit.id.as_str().is_empty() {
                units.push(unit);
                proof {
                    assert(trans_units_view(units@) =~= before.push(unit@));
                }
            }
            n += 1;
        }
        Ok(
            TranslationXlsx {
                path: path.to_owned(),
                trans_units: units,
                src_language,
                tgt_language,
            },
        )
    }
}

impl SearchInFile for TranslationXlsx {
    open spec fn file_hits(&self, include_tags: bool, find: Finder) -> Seq<MatchView> {
        units_matches(trans_units_view(self.trans_units@), include_tags, find)
    }

    fn search_in_file<M: SearchString>(&self, include_tags: bool, matcher: &M) -> (results: Vec<
        MatchResult,
    >) {
        let mut results: Vec<MatchResult> = Vec::new();
        search_in_transunits(&self.trans_units, include_tags, matcher, &mut results);
        results
    }
}

impl GetMeta for TranslationXlsx {
    open spec fn countable(&self) -> bool {
        true
    }

    open spec fn filename(&self) -> Seq<char> {
        self.path@
    }

    /// The source language and the target language each count every unit.
    open spec fn meta(&self) -> Map<Seq<char>, nat> {
        Map::<Seq<char>, nat>::empty().insert(self.src_language@, self.trans_units@.len()).insert(
            self.tgt_language@,
            self.trans_units@.len(),
        )
    }

    fn get_filename(&self) -> (name: String) {
        self.path.clone()
    }

    fn get_meta(&self) -> (meta: MetaInfo) {
        let mut meta = MetaInfo::new();
        let units = self.trans_units.len();
        meta.add(self.src_language.as_str(), units);
        if !str_eq(self.tgt_language.as_str(), self.src_language.as_str()) {
            meta.add(self.tgt_language.as_str(), units);
        }
        meta
    }
}

} // verus!
