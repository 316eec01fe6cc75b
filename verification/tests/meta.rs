use transfiles::meta::{count_languages, GetMeta, MetaInfo};
use transfiles::reader::TranslationFile;
use transfiles::tbx::TbxFile;
use transfiles::tmx::TmxFile;
use transfiles::xliff::{XFile, XliffFile};
use transfiles::xlsx::{Sheet, TranslationXlsx};

fn entries(meta: &MetaInfo) -> Vec<(String, usize)> {
    meta.entries().clone()
}

fn pairs(list: &[(&str, usize)]) -> Vec<(String, usize)> {
    list.iter().map(|(language, count)| (language.to_string(), *count)).collect()
}

#[test]
fn counts_are_added_up() {
    let mut meta = MetaInfo::new();
    assert_eq!(meta.get("en"), None);
    meta.add("en", 2);
    meta.add("de", 0);
    meta.add("en", 3);
    assert_eq!(meta.get("en"), Some(5));
    assert_eq!(meta.get("de"), Some(0));
    assert_eq!(meta.get("fr"), None);
    assert_eq!(entries(&meta), pairs(&[("en", 5), ("de", 0)]));
}

#[test]
fn languages_are_counted() {
    let languages: Vec<String> = ["en", "de", "en", "fr", "en", "de"].iter().map(|l| l.to_string()).collect();
    assert_eq!(entries(&count_languages(&languages)), pairs(&[("en", 3), ("de", 2), ("fr", 1)]));
    assert_eq!(entries(&count_languages(&vec![])), pairs(&[]));
}

#[test]
fn memory_counts_every_variant() {
    let content = "<tmx><body>\
        <tu><tuv xml:lang=\"en\"><seg>a</seg></tuv><tuv xml:lang=\"de\"><seg>b</seg></tuv></tu>\
        <tu><tuv xml:lang=\"EN\"><seg>c</seg></tuv><tuv xml:lang=\"fr\"><seg></seg></tuv></tu>\
        <tu><tuv xml:lang=\"en\"><seg>d</seg></tuv><tuv xml:lang=\"en\"><seg>e</seg></tuv></tu>\
        </body></tmx>";
    let file = TmxFile::new("dir/m.tmx", content).unwrap();
    assert_eq!(file.get_filename(), "dir/m.tmx");
    assert_eq!(entries(&file.get_meta()), pairs(&[("en", 4), ("de", 1)]));
}

#[test]
fn term_base_counts_every_language_set() {
    let content = "<termEntry>\
        <langSet xml:lang=\"en\"><tig><term>a</term></tig></langSet>\
        <langSet xml:lang=\"de\"><tig><term>b</term></tig></langSet></termEntry>\
        <termEntry><langSet xml:lang=\"de\"><tig><term>c</term></tig></langSet></termEntry>";
    let file = TbxFile::new("t.tbx", content).unwrap();
    assert_eq!(file.get_filename(), "t.tbx");
    assert_eq!(entries(&file.get_meta()), pairs(&[("en", 1), ("de", 2)]));
}

#[test]
fn interchange_file_counts_the_units_of_a_file_for_both_languages() {
    let content = "<xliff>\
        <file source-language=\"en\" target-language=\"de\">\
        <trans-unit id=\"1\"><source>a</source><target>b</target></trans-unit>\
        <trans-unit id=\"2\"><source>c</source><target>d</target></trans-unit>\
        <trans-unit id=\"3\"><source>e</source><target>f</target></trans-unit></file>\
        <file source-language=\"en\" target-language=\"fr\">\
        <trans-unit id=\"4\"><source>g</source><target>h</target></trans-unit></file>\
        <file source-language=\"it\" target-language=\"IT\">\
        <trans-unit id=\"5\"><source>i</source><target>j</target></trans-unit>\
        <trans-unit id=\"6\"><source>k</source><target>l</target></trans-unit></file>\
        </xliff>";
    let file = XliffFile::new("a.xlf", content).unwrap();
    assert_eq!(file.get_filename(), "a.xlf");
    assert_eq!(entries(&file.get_meta()), pairs(&[("en", 4), ("de", 3), ("fr", 1), ("it", 2)]));
}

#[test]
fn file_without_units_lists_its_languages() {
    let file = XliffFile {
        path: "a.xlf".to_string(),
        xfiles: vec![XFile { src_language: "en".to_string(), tgt_language: "de".to_string(), trans_units: vec![] }],
    };
    assert_eq!(entries(&file.get_meta()), pairs(&[("en", 0), ("de", 0)]));
}

#[test]
fn table_counts_its_units_for_both_languages() {
    let sheet = Sheet {
        header: vec!["id".to_string(), "en".to_string(), "fr".to_string()],
        rows: vec![
            vec!["1".to_string(), "a".to_string(), "b".to_string()],
            vec!["".to_string(), "c".to_string(), "d".to_string()],
            vec!["3".to_string(), "e".to_string(), "f".to_string()],
        ],
    };
    let table = TranslationXlsx::new("t.xlsx", Some(&sheet)).unwrap();
    assert_eq!(table.get_filename(), "t.xlsx");
    assert_eq!(entries(&table.get_meta()), pairs(&[("en", 2), ("fr", 2)]));
    let same = Sheet { header: vec!["id".to_string(), "en".to_string(), "EN".to_string()], rows: sheet.rows.clone() };
    let table = TranslationXlsx::new("t.xlsx", Some(&same)).unwrap();
    assert_eq!(entries(&table.get_meta()), pairs(&[("en", 2)]));
    let empty = TranslationXlsx::new("t.xlsx", None).unwrap();
    assert_eq!(entries(&empty.get_meta()), pairs(&[("", 0)]));
}

#[test]
fn any_document_can_be_asked() {
    let file = TranslationFile::Tmx(
        TmxFile::new("m.tmx", "<tu><tuv xml:lang=\"en\"><seg>a</seg></tuv></tu>").unwrap(),
    );
    assert_eq!(file.get_filename(), "m.tmx");
    assert_eq!(entries(&file.get_meta()), pairs(&[("en", 1)]));
}

#[test]
fn counts_as_text() {
    let mut meta = MetaInfo::new();
    assert_eq!(meta.to_text(), "");
    meta.add("en-us", 12);
    meta.add("de", 0);
    meta.add("", 7);
    meta.add("en-us", 30);
    assert_eq!(meta.to_text(), "en-us with 42 entries\nde with 0 entries\n with 7 entries\n");
}
