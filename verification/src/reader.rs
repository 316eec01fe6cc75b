use crate::error::ParseError;
use crate::meta::{GetMeta, MetaInfo};
use crate::search::{Finder, MatchResult, MatchView, SearchInFile, SearchString};
use crate::tbx::{entries_view, tbx_entries, EntryView, TbxFile};
use crate::text::str_eq;
use crate::tmx::{tmx_units, units_view, TmxFile, UnitView};
use crate::xliff::{xfiles_view, xliff_files, XFileView, XliffFile};
use crate::xlsx::{table_of, Sheet, SheetView, TableView, TranslationXlsx};
use vstd::prelude::*;

verus! {

/// The sorts of file that have a reader.
#[derive(Debug, Clone, Copy, PartialEq, Eq, Structural)]
pub enum FileKind {
    /// A localization-interchange document as plain text.
    Xliff,
    /// An archive that holds a localization-interchange document under the
    /// name `content.xlf`.
    Xlz,
    /// An archive that holds a localization-interchange document under the
    /// name `document.mqxliff`.
    Mqxlz,
    /// A translation memory.
    Tmx,
    /// A term base.
    Tbx,
    /// A workbook with a bilingual table.
    Xlsx,
}

/// The sort of file that an extension stands for.
pub open spec fn kind_of(extension: Seq<char>) -> Option<FileKind> {
    if extension == "xliff"@ || extension == "xlf"@ || extension == "txlf"@ || extension
        == "sdlxliff"@ || extension == "mxliff"@ || extension == "mqxliff"@ {
        Some(FileKind::Xliff)
    } else if extension == "xlz"@ {
        Some(FileKind::Xlz)
    } else if extension == "mqxlz"@ {
        Some(FileKind::Mqxlz)
    } else if extension == "tmx"@ {
        Some(FileKind::Tmx)
    } else if extension == "tbx"@ {
        Some(FileKind::Tbx)
    } else if extension == "xlsx"@ {
        Some(FileKind::Xlsx)
    } else {
        None
    }
}

/// Chooses the reader for a file by its extension; `None` where no reader
/// is known for it.
pub fn file_kind(extension: &str) -> (kind: Option<FileKind>)
    ensures
        kind == kind_of(extension@),
{
    if str_eq(extension, "xliff") || str_eq(extension, "xlf") || str_eq(extension, "txlf")
        || str_eq(extension, "sdlxliff") || str_eq(extension, "mxliff") || str_eq(
        extension,
        "mqxliff",
    ) {
        Some(FileKind::Xliff)
    } else if str_eq(extension, "xlz") {
        Some(FileKind::Xlz)
    } else if str_eq(extension, "mqxlz") {
        Some(FileKind::Mqxlz)
    } else if str_eq(extension, "tmx") {
        Some(FileKind::Tmx)
    } else if str_eq(extension, "tbx") {
        Some(FileKind::Tbx)
    } else if str_eq(extension, "xlsx") {
        Some(FileKind::Xlsx)
    } else {
        None
    }
}

/// The name of the entry that holds the document, for the sorts of file
/// that are archives.
pub fn inner_entry_name(kind: FileKind) -> (name: Option<&'static str>)
    ensures
        match kind {
            FileKind::Xlz => name is Some && name->0@ == "content.xlf"@,
            FileKind::Mqxlz => name is Some && name->0@ == "document.mqxliff"@,
            _ => name is None,
        },
{
    match kind {
        FileKind::Xlz => Some("content.xlf"),
        FileKind::Mqxlz => Some("document.mqxliff"),
        _ => None,
    }
}

/// The extension of a path as the standard library sees it; empty where the
/// path has none. What separates the components of a path differs between
/// the targets that a program is built for, so this is the extension on the
/// target of this build: the same path may have another on another target.
pub uninterp spec fn extension_of(path: Seq<char>) -> Seq<char>;

/// `std::path::Path::extension`: the extension of `path`, without the dot.
#[verifier::external_body]
pub(crate) fn path_extension(path: &str) -> (extension: String)
    ensures
        extension@ == extension_of(path@),
{
    let extension = std::path::Path::new(path).extension().unwrap_or_default();
    extension.to_str().unwrap_or_default().to_string()
}

/// Chooses the reader for the file at `path` by the extension of the path;
/// `None` where no reader is known for it. This says what is to be read for
/// the file: its text, an entry of it, or its first sheet.
pub fn kind_of_path(path: &str) -> (kind: Option<FileKind>)
    ensures
        kind == kind_of(extension_of(path@)),
{
    let extension = path_extension(path);
    file_kind(extension.as_str())
}

/// What was read for a file, for its reader to work on.
#[derive(Debug, Clone, PartialEq, Eq)]
pub enum Input {
    /// The text of the file.
    Text(String),
    /// The text of the inner entry of an archive, or `None` where the
    /// archive holds no such entry.
    Entry(Option<String>),
    /// The first sheet of a workbook, or `None` where it has no sheet.
    Sheet(Option<Sheet>),
}

/// The mathematical value of an [`Input`].
pub enum InputView {
    Text(Seq<char>),
    Entry(Option<Seq<char>>),
    Sheet(Option<SheetView>),
}

impl View for Input {
    type V = InputView;

    open spec fn view(&self) -> InputView {
        match self {
            Input::Text(text) => InputView::Text(text@),
            Input::Entry(Some(text)) => InputView::Entry(Some(text@)),
            Input::Entry(None) => InputView::Entry(None),
            Input::Sheet(Some(sheet)) => InputView::Sheet(Some(sheet@)),
            Input::Sheet(None) => InputView::Sheet(None),
        }
    }
}

/// A document of any of the sorts that have a reader.
#[derive(Debug, Clone, PartialEq, Eq)]
pub enum TranslationFile {
    Xliff(XliffFile),
    Tmx(TmxFile),
    Tbx(TbxFile),
    Xlsx(TranslationXlsx),
}

/// The mathematical value of a [`TranslationFile`], without its path.
pub enum FileView {
    Xliff(Seq<XFileView>),
    Tmx(Seq<UnitView>),
    Tbx(Seq<EntryView>),
    Xlsx(TableView),
}

impl View for TranslationFile {
    type V = FileView;

    open spec fn view(&self) -> FileView {
        match self {
            TranslationFile::Xliff(file) => FileView::Xliff(xfiles_view(file.xfiles@)),
            TranslationFile::Tmx(file) => FileView::Tmx(units_view(file.tus@)),
            TranslationFile::Tbx(file) => FileView::Tbx(entries_view(file.term_entries@)),
            TranslationFile::Xlsx(file) => FileView::Xlsx(file.table()),
        }
    }
}

/// What the reader for a sort of file makes of what was read for it. Each
/// reader takes its own sort of input: the text formats the text of the file,
/// the archives the text of their inner entry, the workbook its first sheet.
pub open spec fn document_of(kind: FileKind, input: InputView) -> Result<FileView, ParseError> {
    match (kind, input) {
        (FileKind::Xliff, InputView::Text(text)) => match xliff_files(text) {
            Ok(files) => Ok(FileView::Xliff(files)),
            Err(e) => Err(e),
        },
        (FileKind::Xlz, InputView::Entry(Some(text))) | (
            FileKind::Mqxlz,
            InputView::Entry(Some(text)),
        ) => match xliff_files(text) {
            Ok(files) => Ok(FileView::Xliff(files)),
            Err(e) => Err(e),
        },
        (FileKind::Xlz, InputView::Entry(None)) | (FileKind::Mqxlz, InputView::Entry(None)) => Err(
            ParseError::MissingEntry,
        ),
        (FileKind::Tmx, InputView::Text(text)) => match tmx_units(text) {
            Ok(units) => Ok(FileView::Tmx(units)),
            Err(e) => Err(e),
        },
        (FileKind::Tbx, InputView::Text(text)) => match tbx_entries(text) {
            Ok(entries) => Ok(FileView::Tbx(entries)),
            Err(e) => Err(e),
        },
        (FileKind::Xlsx, InputView::Sheet(sheet)) => match table_of(sheet) {
            Ok(table) => Ok(FileView::Xlsx(table)),
            Err(e) => Err(e),
        },
        _ => Err(ParseError::WrongInput),
    }
}

/// What reading the file at `path` gives: the reader is chosen by the
/// extension of the path, and a path without a known extension is an error.
pub open spec fn file_of(path: Seq<char>, input: InputView) -> Result<FileView, ParseError> {
    match kind_of(extension_of(path)) {
        None => Err(ParseError::UnsupportedExtension),
        Some(kind) => document_of(kind, input),
    }
}

/// The mathematical value of the outcome of reading a file.
pub open spec fn file_outcome(res: Result<TranslationFile, ParseError>) -> Result<
    FileView,
    ParseError,
> {
    match res {
        Ok(file) => Ok(file@),
        Err(e) => Err(e),
    }
}

/// Reads `input` with the reader for files of sort `kind`; see
/// [`document_of`]. `path` is where the input came from.
pub fn read_with(kind: FileKind, path: &str, input: &Input) -> (res: Result<
    TranslationFile,
    ParseError,
>)
    ensures
        file_outcome(res) == document_of(kind, input@),
        res matches Ok(file) ==> file.filename() == path@,
{
    match (kind, input) {
        (FileKind::Xliff, Input::Text(text)) => {
            match XliffFile::new(path, text.as_str()) {
                Ok(file) => Ok(TranslationFile::Xliff(file)),
                Err(e) => Err(e),
            }
        },
        (FileKind::Xlz, Input::Entry(entry)) | (FileKind::Mqxlz, Input::Entry(entry)) => {
            let name = match inner_entry_name(kind) {
                Some(name) => name,
                None => "",
            };
            let text = match entry {
                Some(text) => Some(text.as_str()),
                None => None,
            };
            match XliffFile::new_zipped(path, name, text) {
                Ok(file) => Ok(TranslationFile::Xliff(file)),
                Err(e) => Err(e),
            }
        },
        (FileKind::Tmx, Input::Text(text)) => {
            match TmxFile::new(path, text.as_str()) {
                Ok(file) => Ok(TranslationFile::Tmx(file)),
                Err(e) => Err(e),
            }
        },
        (FileKind::Tbx, Input::Text(text)) => {
            match TbxFile::new(path, text.as_str()) {
                Ok(file) => Ok(TranslationFile::Tbx(file)),
                Err(e) => Err(e),
            }
        },
        (FileKind::Xlsx, Input::Sheet(sheet)) => {
            let sheet = match sheet {
                Some(sheet) => Some(sheet),
                None => None,
            };
            match TranslationXlsx::new(path, sheet) {
                Ok(file) => Ok(TranslationFile::Xlsx(file)),
                Err(e) => Err(e),
            }
        },
        _ => Err(ParseError::WrongInput),
    }
}

/// Reads the file at `path` with the reader that its extension calls for;
/// see [`file_of`]. `input` is what was read for the file.
pub fn read_file_with_parser(path: &str, input: &Input) -> (res: Result<
    TranslationFile,
    ParseError,
>)
    ensures
        file_outcome(res) == file_of(path@, input@),
        res matches Ok(file) ==> file.filename() == path@,
{
    match kind_of_path(path) {
        None => Err(ParseError::UnsupportedExtension),
        Some(kind) => read_with(kind, path, input),
    }
}

impl SearchInFile for TranslationFile {
    open spec fn file_hits(&self, include_tags: bool, find: Finder) -> Seq<MatchView> {
        match self {
            TranslationFile::Xliff(file) => file.file_hits(include_tags, find),
            TranslationFile::Tmx(file) => file.file_hits(include_tags, find),
            TranslationFile::Tbx(file) => file.file_hits(include_tags, find),
            TranslationFile::Xlsx(file) => file.file_hits(include_tags, find),
        }
    }

    fn search_in_file<M: SearchString>(&self, include_tags: bool, matcher: &M) -> (results: Vec<
        MatchResult,
    >) {
        match self {
            TranslationFile::Xliff(file) => file.search_in_file(include_tags, matcher),
            TranslationFile::Tmx(file) => file.search_in_file(include_tags, matcher),
            TranslationFile::Tbx(file) => file.search_in_file(include_tags, matcher),
            TranslationFile::Xlsx(file) => file.search_in_file(include_tags, matcher),
        }
    }
}

impl GetMeta for TranslationFile {
    open spec fn countable(&self) -> bool {
        match self {
            TranslationFile::Xliff(file) => file.countable(),
            TranslationFile::Tmx(file) => file.countable(),
            TranslationFile::Tbx(file) => file.countable(),
            TranslationFile::Xlsx(file) => file.countable(),
        }
    }

    open spec fn filename(&self) -> Seq<char> {
        match self {
            TranslationFile::Xliff(file) => file.filename(),
            TranslationFile::Tmx(file) => file.filename(),
            TranslationFile::Tbx(file) => file.filename(),
            TranslationFile::Xlsx(file) => file.filename(),
        }
    }

    open spec fn meta(&self) -> Map<Seq<char>, nat> {
        match self {
            TranslationFile::Xliff(file) => file.meta(),
            TranslationFile::Tmx(file) => file.meta(),
            TranslationFile::Tbx(file) => file.meta(),
            TranslationFile::Xlsx(file) => file.meta(),
        }
    }

    fn get_filename(&self) -> (name: String) {
        match self {
            TranslationFile::Xliff(file) => file.get_filename(),
            TranslationFile::Tmx(file) => file.get_filename(),
            TranslationFile::Tbx(file) => file.get_filename(),
            TranslationFile::Xlsx(file) => file.get_filename(),
        }
    }

    fn get_meta(&self) -> (meta: MetaInfo) {
        match self {
            TranslationFile::Xliff(file) => file.get_meta(),
            TranslationFile::Tmx(file) => file.get_meta(),
            TranslationFile::Tbx(file) => file.get_meta(),
            TranslationFile::Xlsx(file) => file.get_meta(),
        }
    }
}

/// A document that can say what it holds and can be searched.
pub trait IsTranslationXML: GetMeta + SearchInFile {

}

impl IsTranslationXML for XliffFile {

}

impl IsTranslationXML for TmxFile {

}

impl IsTranslationXML for TbxFile {

}

impl IsTranslationXML for TranslationXlsx {

}

impl IsTranslationXML for TranslationFile {

}

} // verus!
