use transfiles::tbx::TbxFile;
use transfiles::tmx::TmxFile;
use transfiles::xliff::XliffFile;

#[test]
fn tbx_dummy_for_debug() {
    let content = "<martif><text><body><termEntry id=\"c1\">\
        <langSet xml:lang=\"en\"><tig><term>router</term></tig></langSet>\
        <langSet xml:lang=\"de\"><tig><term>Router</term></tig></langSet>\
        </termEntry></body></text></martif>";
    let t = TbxFile::new("./tests/lancom.tbx", content).unwrap();
    println!("{:?}", &t.term_entries);
    assert_eq!(t.path, "./tests/lancom.tbx");
    assert_eq!(t.term_entries.len(), 1);
    assert!(1 != 2);
}

#[test]
fn tmx_dummy_for_debug() {
    let content = "<tmx><body><tu tuid=\"7\">\
        <tuv xml:lang=\"en\"><seg>bank</seg></tuv>\
        <tuv xml:lang=\"zh\"><seg>银行</seg></tuv>\
        </tu></body></tmx>";
    let t = TmxFile::new("./tests/CITIC.tmx", content).unwrap();
    println!("{:?}", t.tus);
    assert_eq!(t.path, "./tests/CITIC.tmx");
    assert_eq!(t.tus.len(), 1);
    assert!(1 != 2);
}

#[test]
fn xliff_dummy_for_debug() {
    let content = "<xliff><file source-language=\"en-US\" target-language=\"de-DE\"><body>\
        <trans-unit id=\"1\"><source>Approve</source><target>Genehmigen</target></trans-unit>\
        </body></file></xliff>";
    let t = XliffFile::new("./tests/approval.sdlxliff", content).unwrap();
    println!("{:?}", t.xfiles);
    assert_eq!(t.path, "./tests/approval.sdlxliff");
    assert_eq!(t.xfiles.len(), 1);
    assert!(1 != 2);
}
