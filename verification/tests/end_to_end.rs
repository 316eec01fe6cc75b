use transfiles::error::ParseError;
use transfiles::segment::{extract_text, SegNode};
use transfiles::tmx::TmxFile;
use transfiles::xliff::XliffFile;
use transfiles::xlsx::{Sheet, TranslationXlsx};

fn text(value: &str) -> Box<SegNode> {
    Box::new(SegNode::Text(value.to_string()))
}

#[test]
fn memory_keeps_unit_without_its_empty_variant() {
    let content = "<?xml version=\"1.0\"?>\n<tmx version=\"1.4\"><header/><body>\
        <tu tuid=\"1\"><tuv xml:lang=\"EN-US\"><seg>Hello</seg></tuv>\
        <tuv xml:lang=\"fr-FR\"><seg></seg></tuv></tu>\
        <tu tuid=\"2\"><tuv xml:lang=\"en-us\"><seg>Bye</seg></tuv>\
        <tuv xml:lang=\"fr-fr\"><seg>Salut</seg></tuv></tu>\
        </body></tmx>";
    let file = TmxFile::new("memory.tmx", content).unwrap();
    assert_eq!(file.path, "memory.tmx");
    assert_eq!(file.tus.len(), 2);
    assert_eq!(file.tus[0].tuid, "1");
    assert_eq!(file.tus[0].tuvs.len(), 1);
    assert_eq!(file.tus[0].tuvs[0].language, "en-us");
    assert_eq!(file.tus[0].tuvs[0].seg, vec![text("Hello")]);
    assert_eq!(file.tus[1].tuvs.len(), 2);
    assert_eq!(file.tus[1].tuvs[1].language, "fr-fr");
    assert_eq!(file.tus[1].tuvs[1].seg, vec![text("Salut")]);
}

#[test]
fn alternate_translations_leave_no_trace() {
    let content = "<xliff><file source-language=\"EN\" target-language=\"DE\"><body>\
        <trans-unit id=\"a\"><source>One</source>\
        <alt-trans><source>Wrong <g id=\"1\">source</g></source><target>Wrong target</target></alt-trans>\
        <target>Eins</target></trans-unit>\
        </body></file></xliff>";
    let file = XliffFile::new("a.xlf", content).unwrap();
    assert_eq!(file.xfiles.len(), 1);
    let xfile = &file.xfiles[0];
    assert_eq!(xfile.src_language, "en");
    assert_eq!(xfile.tgt_language, "de");
    assert_eq!(xfile.trans_units.len(), 1);
    let unit = &xfile.trans_units[0];
    assert_eq!(unit.id, "a");
    assert_eq!(unit.sn, 1);
    assert_eq!(unit.translate, "yes");
    assert_eq!(unit.source, vec![text("One")]);
    assert_eq!(unit.target, vec![text("Eins")]);
}

#[test]
fn sheet_row_becomes_one_record() {
    let sheet = Sheet {
        header: vec!["id".to_string(), "en".to_string(), "fr".to_string()],
        rows: vec![vec![
            "t1".to_string(),
            "Hello <g id=\"1\">world</g>".to_string(),
            "Bonjour <g id=\"1\">monde</g>".to_string(),
        ]],
    };
    let table = TranslationXlsx::new("table.xlsx", Some(&sheet)).unwrap();
    assert_eq!(table.src_language, "en");
    assert_eq!(table.tgt_language, "fr");
    assert_eq!(table.trans_units.len(), 1);
    let unit = &table.trans_units[0];
    assert_eq!(unit.id, "t1");
    assert_eq!(unit.sn, 1);
    assert_eq!(extract_text(&unit.source, false), "Hello world");
    assert_eq!(extract_text(&unit.target, false), "Bonjour monde");
    match unit.source[1].as_ref() {
        SegNode::OpenOrCloseNode { node_type, attributes, content } => {
            assert_eq!(node_type, "g");
            assert_eq!(attributes.get("id"), Some(&"1".to_string()));
            assert_eq!(content, &vec![text("world")]);
        }
        other => panic!("not a container: {:?}", other),
    }
}

#[test]
fn archive_without_its_entry_fails() {
    let res = XliffFile::new_zipped("a.xlz", "content.xlf", None);
    assert_eq!(res, Err(ParseError::MissingEntry));
}
