use transfiles::error::ParseError;
use transfiles::reader::{
    file_kind, inner_entry_name, read_file_with_parser, read_with, FileKind, Input, TranslationFile,
};
use transfiles::search::SearchInFile;
use transfiles::xlsx::Sheet;

const XLIFF: &str = "<file source-language=\"en\" target-language=\"de\">\
    <trans-unit id=\"1\"><source>a</source><target>b</target></trans-unit></file>";
const TMX: &str = "<tu><tuv xml:lang=\"en\"><seg>a</seg></tuv></tu>";
const TBX: &str = "<termEntry><langSet xml:lang=\"en\"><tig><term>a</term></tig></langSet></termEntry>";

fn sheet() -> Sheet {
    Sheet {
        header: vec!["id".to_string(), "en".to_string(), "de".to_string()],
        rows: vec![vec!["1".to_string(), "a".to_string(), "b".to_string()]],
    }
}

#[test]
fn extensions_and_their_readers() {
    for extension in ["xliff", "xlf", "txlf", "sdlxliff", "mxliff", "mqxliff"] {
        assert_eq!(file_kind(extension), Some(FileKind::Xliff));
    }
    assert_eq!(file_kind("xlz"), Some(FileKind::Xlz));
    assert_eq!(file_kind("mqxlz"), Some(FileKind::Mqxlz));
    assert_eq!(file_kind("tmx"), Some(FileKind::Tmx));
    assert_eq!(file_kind("tbx"), Some(FileKind::Tbx));
    assert_eq!(file_kind("xlsx"), Some(FileKind::Xlsx));
    assert_eq!(file_kind("TMX"), None);
    assert_eq!(file_kind("txt"), None);
    assert_eq!(file_kind(""), None);
    assert_eq!(file_kind(".tmx"), None);
}

#[test]
fn archives_and_their_inner_entries() {
    assert_eq!(inner_entry_name(FileKind::Xlz), Some("content.xlf"));
    assert_eq!(inner_entry_name(FileKind::Mqxlz), Some("document.mqxliff"));
    assert_eq!(inner_entry_name(FileKind::Xliff), None);
    assert_eq!(inner_entry_name(FileKind::Tmx), None);
    assert_eq!(inner_entry_name(FileKind::Tbx), None);
    assert_eq!(inner_entry_name(FileKind::Xlsx), None);
}

#[test]
fn the_reader_is_chosen_by_the_extension_of_the_path() {
    let text = |content: &str| Input::Text(content.to_string());
    assert!(matches!(
        read_file_with_parser("work/a.b/memory.tmx", &text(TMX)),
        Ok(TranslationFile::Tmx(file)) if file.path == "work/a.b/memory.tmx" && file.tus.len() == 1
    ));
    assert!(matches!(
        read_file_with_parser("terms.tbx", &text(TBX)),
        Ok(TranslationFile::Tbx(file)) if file.term_entries.len() == 1
    ));
    for path in ["a.xliff", "a.xlf", "a.txlf", "a.sdlxliff", "a.mxliff", "x/a.tmx.mqxliff"] {
        assert!(matches!(
            read_file_with_parser(path, &text(XLIFF)),
            Ok(TranslationFile::Xliff(file)) if file.path == path && file.xfiles.len() == 1
        ));
    }
    for path in ["a.xlz", "a.mqxlz"] {
        assert!(matches!(
            read_file_with_parser(path, &Input::Entry(Some(XLIFF.to_string()))),
            Ok(TranslationFile::Xliff(file)) if file.path == path && file.xfiles.len() == 1
        ));
        assert_eq!(read_file_with_parser(path, &Input::Entry(None)), Err(ParseError::MissingEntry));
    }
    assert!(matches!(
        read_file_with_parser("table.xlsx", &Input::Sheet(Some(sheet()))),
        Ok(TranslationFile::Xlsx(file)) if file.path == "table.xlsx" && file.trans_units.len() == 1
    ));
    assert!(matches!(
        read_file_with_parser("table.xlsx", &Input::Sheet(None)),
        Ok(TranslationFile::Xlsx(file)) if file.trans_units.is_empty()
    ));
}

#[test]
fn a_path_without_a_known_extension_fails() {
    let input = Input::Text(TMX.to_string());
    for path in ["memory.txt", "memory", "tmx", ".tmx", "memory.TMX", "memory.tmx/", "memory.tmx.bak", ""] {
        let res = read_file_with_parser(path, &input);
        if path == "memory.tmx/" {
            // the last component of the path is still `memory.tmx`
            assert!(res.is_ok());
        } else {
            assert_eq!(res, Err(ParseError::UnsupportedExtension));
        }
    }
}

#[test]
fn input_of_the_wrong_sort_fails() {
    let text = Input::Text(TMX.to_string());
    let entry = Input::Entry(Some(XLIFF.to_string()));
    let table = Input::Sheet(Some(sheet()));
    assert_eq!(read_file_with_parser("a.tmx", &entry), Err(ParseError::WrongInput));
    assert_eq!(read_file_with_parser("a.tmx", &table), Err(ParseError::WrongInput));
    assert_eq!(read_file_with_parser("a.tbx", &table), Err(ParseError::WrongInput));
    assert_eq!(read_file_with_parser("a.xlf", &entry), Err(ParseError::WrongInput));
    assert_eq!(read_file_with_parser("a.xlz", &text), Err(ParseError::WrongInput));
    assert_eq!(read_file_with_parser("a.mqxlz", &table), Err(ParseError::WrongInput));
    assert_eq!(read_file_with_parser("a.xlsx", &text), Err(ParseError::WrongInput));
    assert_eq!(read_with(FileKind::Tbx, "a.tmx", &entry), Err(ParseError::WrongInput));
}

#[test]
fn the_reader_can_be_named() {
    let res = read_with(FileKind::Tmx, "no-extension", &Input::Text(TMX.to_string()));
    assert!(matches!(res, Ok(TranslationFile::Tmx(file)) if file.path == "no-extension"));
    assert_eq!(
        read_with(FileKind::Tmx, "m.tmx", &Input::Text("<tu></tmx>".to_string())),
        Err(ParseError::Malformed)
    );
}

#[test]
fn any_document_can_be_searched() {
    let file = read_file_with_parser("a.xlf", &Input::Text(XLIFF.to_string())).unwrap();
    let hits = file.search_in_file(false, &"b".to_string());
    assert_eq!(hits.len(), 1);
    assert_eq!(hits[0].text, "b");
    assert_eq!(hits[0].extra, vec!["1".to_string(), "a".to_string()]);
}
