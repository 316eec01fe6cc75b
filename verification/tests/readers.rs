use transfiles::attributes::Attributes;
use transfiles::error::ParseError;
use transfiles::segment::SegNode;
use transfiles::tbx::{LangSet, TbxFile, TermEntry, Tig};
use transfiles::tmx::{TmxFile, TU, TUV};
use transfiles::xliff::{TransUnit, XFile, XliffFile};
use transfiles::xlsx::{parse_cell, Sheet, TranslationXlsx};

fn text(value: &str) -> Box<SegNode> {
    Box::new(SegNode::Text(value.to_string()))
}

fn unit(id: &str, sn: u16, translate: &str, source: &str, target: &str) -> TransUnit {
    TransUnit {
        id: id.to_string(),
        sn,
        translate: translate.to_string(),
        source: vec![text(source)],
        target: vec![text(target)],
    }
}

fn row(cells: &[&str]) -> Vec<String> {
    cells.iter().map(|cell| cell.to_string()).collect()
}

#[test]
fn memory_with_defaults() {
    let content = "<tmx><body>\n<tu>\n<tuv><seg>no language</seg></tuv>\n</tu>\n</body></tmx>";
    let file = TmxFile::new("m.tmx", content).unwrap();
    assert_eq!(
        file.tus,
        vec![TU {
            tuid: "".to_string(),
            tuvs: vec![TUV { language: "".to_string(), seg: vec![text("no language")] }],
        }]
    );
}

#[test]
fn memory_drops_units_without_a_variant() {
    let content = "<tmx><body>\
        <tu tuid=\"1\"><tuv xml:lang=\"en\"><seg></seg></tuv></tu>\
        <tu tuid=\"2\"><prop>x</prop></tu>\
        <tu tuid=\"3\"><tuv xml:lang=\"DE\"><seg>drei</seg></tuv></tu>\
        </body></tmx>";
    let file = TmxFile::new("m.tmx", content).unwrap();
    assert_eq!(
        file.tus,
        vec![TU {
            tuid: "3".to_string(),
            tuvs: vec![TUV { language: "de".to_string(), seg: vec![text("drei")] }],
        }]
    );
}

#[test]
fn memory_that_ends_early_keeps_what_was_closed() {
    let content = "<tmx><body>\
        <tu tuid=\"1\"><tuv xml:lang=\"en\"><seg>one</seg></tuv></tu>\
        <tu tuid=\"2\"><tuv xml:lang=\"en\"><seg>two</seg></tuv>";
    let file = TmxFile::new("m.tmx", content).unwrap();
    assert_eq!(file.tus.len(), 1);
    assert_eq!(file.tus[0].tuid, "1");
}

#[test]
fn memory_with_a_byte_order_mark() {
    let content = "\u{feff}<tmx><body><tu tuid=\"1\"><tuv xml:lang=\"en\">\
        <seg>a<bpt i=\"1\">&lt;i&gt;</bpt>b</seg></tuv></tu></body></tmx>";
    let file = TmxFile::new("m.tmx", content).unwrap();
    let seg = &file.tus[0].tuvs[0].seg;
    assert_eq!(seg.len(), 3);
    let mut attributes = Attributes::new();
    attributes.insert("i".to_string(), "1".to_string());
    assert_eq!(
        seg[1],
        Box::new(SegNode::OpenOrCloseNode {
            node_type: "bpt".to_string(),
            attributes,
            content: vec![text("&lt;i&gt;")],
        })
    );
}

#[test]
fn memory_that_is_malformed_fails() {
    assert_eq!(TmxFile::new("m.tmx", "<tmx><body></tmx>"), Err(ParseError::Malformed));
    assert_eq!(
        TmxFile::new("m.tmx", "<tmx><tu><tuv><seg>a<g>b</x></g></seg></tuv></tu></tmx>"),
        Err(ParseError::Malformed)
    );
}

#[test]
fn memory_with_a_broken_attribute_fails() {
    assert_eq!(
        TmxFile::new("m.tmx", "<tmx><tu tuid=1></tu></tmx>"),
        Err(ParseError::BrokenAttribute)
    );
    assert_eq!(
        TmxFile::new("m.tmx", "<tmx><tu><tuv xml:lang=en></tuv></tu></tmx>"),
        Err(ParseError::BrokenAttribute)
    );
    // an element that is not read for its attributes may carry anything
    let file = TmxFile::new("m.tmx", "<tmx version=1><tu><tuv><seg>a</seg></tuv></tu></tmx>");
    assert_eq!(file.unwrap().tus.len(), 1);
}

#[test]
fn term_base_keeps_complete_entries() {
    let content = "<martif><text><body>\
        <termEntry id=\"1\">\
        <langSet xml:lang=\"EN\"><tig><term>mouse</term></tig></langSet>\
        <langSet xml:lang=\"fr\"><tig><term></term></tig></langSet>\
        <langSet xml:lang=\"de\"><tig><term>Maus</term><termNote>f</termNote></tig></langSet>\
        </termEntry>\
        <termEntry id=\"2\"><langSet xml:lang=\"en\"><descrip>nothing</descrip></langSet></termEntry>\
        <termEntry id=\"3\"><langSet><tig><term>x<g id=\"1\">y</g></term></tig></langSet></termEntry>\
        </body></text></martif>";
    let file = TbxFile::new("t.tbx", content).unwrap();
    assert_eq!(file.path, "t.tbx");
    assert_eq!(file.term_entries.len(), 2);
    assert_eq!(
        file.term_entries[0],
        TermEntry {
            lang_sets: vec![
                LangSet { language: "en".to_string(), tig: Tig { term: vec![text("mouse")] } },
                LangSet { language: "de".to_string(), tig: Tig { term: vec![text("Maus")] } },
            ],
        }
    );
    assert_eq!(file.term_entries[1].lang_sets.len(), 1);
    assert_eq!(file.term_entries[1].lang_sets[0].language, "");
    assert_eq!(file.term_entries[1].lang_sets[0].tig.term.len(), 2);
}

#[test]
fn term_base_keeps_the_term_read_last() {
    let content = "<termEntry><langSet xml:lang=\"en\">\
        <tig><term>first</term></tig><tig><term>second</term></tig>\
        </langSet></termEntry>";
    let file = TbxFile::new("t.tbx", content).unwrap();
    assert_eq!(
        file.term_entries,
        vec![TermEntry {
            lang_sets: vec![LangSet {
                language: "en".to_string(),
                tig: Tig { term: vec![text("second")] },
            }],
        }]
    );
}

#[test]
fn term_base_that_is_malformed_fails() {
    assert_eq!(TbxFile::new("t.tbx", "<termEntry><langSet></termEntry>"), Err(ParseError::Malformed));
    assert_eq!(
        TbxFile::new("t.tbx", "<termEntry><langSet xml:lang=\"en\" xml:lang=\"de\"/></termEntry>").map(|f| f.term_entries.len()),
        Ok(0)
    );
    assert_eq!(
        TbxFile::new("t.tbx", "<termEntry><langSet xml:lang=\"en\" xml:lang=\"de\"></langSet></termEntry>"),
        Err(ParseError::BrokenAttribute)
    );
}

#[test]
fn interchange_file_with_defaults_and_flags() {
    let content = "<xliff version=\"1.2\"><file original=\"a.txt\" source-language=\"en-US\" target-language=\"ZH-cn\"><body>\
        <trans-unit id=\"u1\" translate=\"no\"><source>Hello</source><target>你好</target></trans-unit>\
        <trans-unit id=\"u2\"><source>Bye</source><target>再见</target></trans-unit>\
        </body></file></xliff>";
    let file = XliffFile::new("a.xlf", content).unwrap();
    assert_eq!(
        file.xfiles,
        vec![XFile {
            src_language: "en-us".to_string(),
            tgt_language: "zh-cn".to_string(),
            trans_units: vec![unit("u1", 1, "no", "Hello", "你好"), unit("u2", 2, "yes", "Bye", "再见")],
        }]
    );
}

#[test]
fn interchange_file_numbers_the_units_that_it_keeps() {
    let content = "<xliff>\
        <file source-language=\"en\" target-language=\"de\"><body>\
        <trans-unit id=\"z\"><source>one</source><target>eins</target></trans-unit>\
        <trans-unit id=\"a\"><source>two</source></trans-unit>\
        <trans-unit id=\"a\"><source>three</source><target>drei</target></trans-unit>\
        </body></file>\
        <file source-language=\"en\" target-language=\"fr\"><body>\
        <trans-unit id=\"1\"><target>rien</target></trans-unit>\
        </body></file>\
        <file source-language=\"en\" target-language=\"it\"><body>\
        <trans-unit id=\"0\"><source>five</source><target>cinque</target></trans-unit>\
        </body></file>\
        </xliff>";
    let file = XliffFile::new("a.xlf", content).unwrap();
    assert_eq!(file.xfiles.len(), 2);
    assert_eq!(
        file.xfiles[0].trans_units,
        vec![unit("z", 1, "yes", "one", "eins"), unit("a", 2, "yes", "three", "drei")]
    );
    assert_eq!(file.xfiles[1].tgt_language, "it");
    assert_eq!(file.xfiles[1].trans_units, vec![unit("0", 3, "yes", "five", "cinque")]);
}

#[test]
fn interchange_file_keeps_the_content_read_last_that_is_not_empty() {
    let content = "<file source-language=\"en\" target-language=\"de\">\
        <trans-unit id=\"1\"><source>a</source><source></source><target>b</target><target>c</target></trans-unit>\
        </file>";
    let file = XliffFile::new("a.xlf", content).unwrap();
    assert_eq!(file.xfiles[0].trans_units, vec![unit("1", 1, "yes", "a", "c")]);
}

#[test]
fn interchange_file_without_languages_fails() {
    assert_eq!(
        XliffFile::new("a.xlf", "<xliff><file target-language=\"de\"></file></xliff>"),
        Err(ParseError::MissingAttribute)
    );
    assert_eq!(
        XliffFile::new("a.xlf", "<xliff><file source-language=\"en\"></file></xliff>"),
        Err(ParseError::MissingAttribute)
    );
}

#[test]
fn unit_without_id_fails() {
    assert_eq!(
        XliffFile::new(
            "a.xlf",
            "<file source-language=\"en\" target-language=\"de\"><trans-unit><source>a</source></trans-unit></file>"
        ),
        Err(ParseError::MissingAttribute)
    );
}

#[test]
fn alternate_translation_that_is_never_closed_fails() {
    assert_eq!(
        XliffFile::new(
            "a.xlf",
            "<file source-language=\"en\" target-language=\"de\"><trans-unit id=\"1\"><source>a</source><alt-trans><target>b</target>"
        ),
        Err(ParseError::UnclosedElement)
    );
}

#[test]
fn nested_alternate_translations_are_passed_over_whole() {
    let content = "<file source-language=\"en\" target-language=\"de\"><trans-unit id=\"1\">\
        <source>a</source>\
        <alt-trans><alt-trans><target>x</target></alt-trans><target>y</target></alt-trans>\
        <target>b</target></trans-unit></file>";
    let file = XliffFile::new("a.xlf", content).unwrap();
    assert_eq!(file.xfiles[0].trans_units, vec![unit("1", 1, "yes", "a", "b")]);
}

#[test]
fn interchange_file_that_is_malformed_fails() {
    assert_eq!(XliffFile::new("a.xlf", "<xliff><file></xliff>"), Err(ParseError::Malformed));
    assert_eq!(
        XliffFile::new("a.xlf", "<file source-language=\"en\" target-language=de></file>"),
        Err(ParseError::BrokenAttribute)
    );
}

#[test]
fn more_kept_units_than_sequence_numbers_fail() {
    let mut content = String::from("<file source-language=\"en\" target-language=\"de\">");
    for _ in 0..65535 {
        content.push_str("<trans-unit id=\"1\"><source>a</source><target>b</target></trans-unit>");
    }
    let file = XliffFile::new("a.xlf", &format!("{}</file>", content)).unwrap();
    let units = &file.xfiles[0].trans_units;
    assert_eq!(units.len(), 65535);
    for (k, unit) in units.iter().enumerate() {
        assert_eq!(usize::from(unit.sn), k + 1);
    }
    // a unit that is dropped takes no number
    content.push_str("<trans-unit id=\"1\"><source>a</source></trans-unit>");
    assert_eq!(XliffFile::new("a.xlf", &content).map(|file| file.xfiles.len()), Ok(0));
    content.push_str("<trans-unit id=\"1\"><source>a</source><target>b</target></trans-unit>");
    assert_eq!(XliffFile::new("a.xlf", &content), Err(ParseError::TooManyUnits));
}

#[test]
fn units_that_are_dropped_take_no_number() {
    let mut content = String::from("<file source-language=\"en\" target-language=\"de\">");
    for _ in 0..70000 {
        content.push_str("<trans-unit id=\"1\"></trans-unit>");
    }
    content.push_str("<trans-unit id=\"first\"><source>a</source><target>b</target></trans-unit></file>");
    let file = XliffFile::new("a.xlf", &content).unwrap();
    assert_eq!(file.xfiles[0].trans_units, vec![unit("first", 1, "yes", "a", "b")]);
}

#[test]
fn the_first_kept_unit_has_the_number_one() {
    let content = "<file source-language=\"en\" target-language=\"de\">\
        <trans-unit id=\"empty\"></trans-unit>\
        <trans-unit id=\"full\"><source>a</source><target>b</target></trans-unit></file>";
    let file = XliffFile::new("a.xlf", content).unwrap();
    assert_eq!(file.xfiles[0].trans_units, vec![unit("full", 1, "yes", "a", "b")]);
}

#[test]
fn archive_entry_is_read_as_a_document() {
    let content = "<file source-language=\"en\" target-language=\"de\">\
        <trans-unit id=\"1\"><source>a</source><target>b</target></trans-unit></file>";
    let file = XliffFile::new_zipped("a.xlz", "content.xlf", Some(content)).unwrap();
    assert_eq!(file.path, "a.xlz");
    assert_eq!(file.xfiles[0].trans_units, vec![unit("1", 1, "yes", "a", "b")]);
    assert_eq!(
        XliffFile::new_zipped("a.xlz", "content.xlf", Some("<file>")),
        Err(ParseError::MissingAttribute)
    );
    assert_eq!(XliffFile::new_zipped("a.mqxlz", "document.mqxliff", None), Err(ParseError::MissingEntry));
}

#[test]
fn table_keeps_rows_with_an_id() {
    let sheet = Sheet {
        header: row(&["ID", "EN-gb", "Fr", "note"]),
        rows: vec![
            row(&["a", "one", "un"]),
            row(&["", "two", "deux"]),
            row(&["c"]),
            row(&[]),
            row(&["e", "", "cinq", "more"]),
        ],
    };
    let table = TranslationXlsx::new("t.xlsx", Some(&sheet)).unwrap();
    assert_eq!(table.path, "t.xlsx");
    assert_eq!(table.src_language, "en-gb");
    assert_eq!(table.tgt_language, "fr");
    assert_eq!(
        table.trans_units,
        vec![
            unit("a", 1, "yes", "one", "un"),
            TransUnit {
                id: "c".to_string(),
                sn: 3,
                translate: "yes".to_string(),
                source: vec![],
                target: vec![],
            },
            TransUnit {
                id: "e".to_string(),
                sn: 5,
                translate: "yes".to_string(),
                source: vec![],
                target: vec![text("cinq")],
            },
        ]
    );
}

#[test]
fn workbook_without_a_sheet_gives_an_empty_table() {
    let table = TranslationXlsx::new("t.xlsx", None).unwrap();
    assert_eq!(table.path, "t.xlsx");
    assert_eq!(table.src_language, "");
    assert_eq!(table.tgt_language, "");
    assert_eq!(table.trans_units, vec![]);
}

#[test]
fn table_without_a_full_header_fails() {
    let sheet = Sheet { header: row(&["id", "en"]), rows: vec![row(&["a", "one", "un"])] };
    assert_eq!(TranslationXlsx::new("t.xlsx", Some(&sheet)), Err(ParseError::MissingHeader));
    let sheet = Sheet { header: row(&[]), rows: vec![] };
    assert_eq!(TranslationXlsx::new("t.xlsx", Some(&sheet)), Err(ParseError::MissingHeader));
}

#[test]
fn table_with_only_a_header_is_empty() {
    let sheet = Sheet { header: row(&["id", "en", "fr"]), rows: vec![] };
    let table = TranslationXlsx::new("t.xlsx", Some(&sheet)).unwrap();
    assert_eq!(table.trans_units, vec![]);
    assert_eq!(table.src_language, "en");
}

#[test]
fn table_with_a_malformed_cell_fails() {
    let sheet = Sheet { header: row(&["id", "en", "fr"]), rows: vec![row(&["", "one</b>", "un"])] };
    assert_eq!(TranslationXlsx::new("t.xlsx", Some(&sheet)), Err(ParseError::Malformed));
    let sheet = Sheet { header: row(&["id", "en", "fr"]), rows: vec![row(&["a", "one", "<x id=1/>"])] };
    assert_eq!(TranslationXlsx::new("t.xlsx", Some(&sheet)), Err(ParseError::BrokenAttribute));
}

#[test]
fn table_with_more_rows_than_sequence_numbers_fails() {
    let mut rows = vec![row(&["", "a", "b"]); 65535];
    rows[65534] = row(&["last", "a", "b"]);
    let sheet = Sheet { header: row(&["id", "en", "fr"]), rows: rows.clone() };
    let table = TranslationXlsx::new("t.xlsx", Some(&sheet)).unwrap();
    assert_eq!(table.trans_units, vec![unit("last", 65535, "yes", "a", "b")]);
    rows.push(row(&["", "a", "b"]));
    let sheet = Sheet { header: row(&["id", "en", "fr"]), rows };
    assert_eq!(TranslationXlsx::new("t.xlsx", Some(&sheet)), Err(ParseError::TooManyUnits));
}

#[test]
fn cell_is_read_up_to_its_end() {
    assert_eq!(parse_cell("a<x/>b"), Ok(vec![text("a"), Box::new(SegNode::SelfClosingNode { node_type: "x".to_string(), attributes: Attributes::new() }), text("b")]));
    assert_eq!(parse_cell(""), Ok(vec![]));
    assert_eq!(parse_cell("\u{feff}a"), Ok(vec![text("a")]));
    assert_eq!(parse_cell("\u{feff}\u{feff}a"), Ok(vec![text("\u{feff}a")]));
    assert_eq!(parse_cell("a<b"), Err(ParseError::Malformed));
    // no closing tag ends a cell before its end
    assert_eq!(
        parse_cell("<seg>a</seg>b<source>c</source><target/>d</term>"),
        Err(ParseError::Malformed)
    );
    assert_eq!(
        parse_cell("<seg>a</seg>b<source>c</source><target>d</target><term>e</term>f"),
        Ok(vec![text("a"), text("b"), text("c"), text("d"), text("e"), text("f")])
    );
}

#[test]
fn a_unit_that_was_never_opened_is_numbered_like_any_other() {
    let content = "<file source-language=\"en\" target-language=\"de\">\
        <trans-unit id=\"1\"><source>a</source><target>b</target></trans-unit>\
        <source>s</source><target><trans-unit id=\"2\"><seg>t</seg></trans-unit></target>\
        <trans-unit id=\"3\"><source>c</source><target>d</target></trans-unit>\
        </file>";
    let file = XliffFile::new("a.xlf", content).unwrap();
    assert_eq!(
        file.xfiles[0].trans_units,
        vec![unit("1", 1, "yes", "a", "b"), unit("", 2, "", "s", "t"), unit("3", 3, "yes", "c", "d")]
    );
}
