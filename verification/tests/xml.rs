use flatten_repo::{
    build_document, xml_char, xml_safe, Config, Error, FileSource, FileType, FlattenRepo,
    XmlDocument,
};

const HEAD: &str = "<?xml version=\"1.0\" encoding=\"UTF-8\"?><repository>";
const TAIL: &str = "</repository>";

fn source(path: &str, bytes: &[u8]) -> FileSource {
    FileSource { path: path.to_string(), content: Ok(bytes.to_vec()) }
}

fn between<'a>(text: &'a str, before: &str, after: &str) -> &'a str {
    let start = text.find(before).unwrap() + before.len();
    let end = start + text[start..].find(after).unwrap();
    &text[start..end]
}

#[test]
fn empty_document() {
    assert_eq!(build_document(&Vec::new()), Ok(format!("{}{}", HEAD, TAIL)));
}

#[test]
fn text_and_binary_file_document() {
    let files = vec![source("proj/a.txt", b"hello"), source("proj/b.bin", &[0u8, 1, 2])];
    let expected = format!(
        "{}<file path=\"proj/a.txt\">hello</file><file path=\"proj/b.bin\" binary=\"true\"/>{}",
        HEAD, TAIL
    );
    assert_eq!(build_document(&files), Ok(expected));
}

#[test]
fn empty_text_file_has_start_and_end_tag() {
    let files = vec![source("empty", b"")];
    assert_eq!(
        build_document(&files),
        Ok(format!("{}<file path=\"empty\"></file>{}", HEAD, TAIL))
    );
}

#[test]
fn content_is_escaped() {
    let files = vec![source("t", b"a<b>c&d'e\"f\rg\nh\ti")];
    assert_eq!(
        build_document(&files),
        Ok(format!(
            "{}<file path=\"t\">a&lt;b&gt;c&amp;d&apos;e&quot;f&#13;g\nh\ti</file>{}",
            HEAD, TAIL
        ))
    );
}

#[test]
fn path_is_escaped() {
    let files = vec![source("a<b>c&d'e\"f\rg\nh\ti", &[0u8])];
    assert_eq!(
        build_document(&files),
        Ok(format!(
            "{}<file path=\"a&lt;b&gt;c&amp;d&apos;e&quot;f&#13;g&#10;h&#9;i\" binary=\"true\"/>{}",
            HEAD, TAIL
        ))
    );
}

#[test]
fn escaped_content_reads_back() {
    let content = "if a < b && b > c { print(\"<file path='x'>\"); } &amp; \r\n</file><file>";
    let xml = build_document(&vec![source("code.rs", content.as_bytes())]).unwrap();
    let written = between(&xml, "<file path=\"code.rs\">", "</file>");
    assert!(!written.contains('<'));
    assert_eq!(quick_xml::escape::unescape(written).unwrap(), content);
    assert_eq!(xml.matches("<file ").count(), 1);
}

#[test]
fn escaped_path_reads_back() {
    let path = "we\"ird/<na&me>'\t.txt\" binary=\"true";
    let xml = build_document(&vec![source(path, b"x")]).unwrap();
    let written = between(&xml, "<file path=\"", "\">x</file>");
    assert!(!written.contains('<'));
    assert!(!written.contains('"'));
    assert_eq!(quick_xml::escape::unescape(written).unwrap(), path);
}

#[test]
fn multibyte_content_is_kept() {
    let content = "\u{e9}\u{20ac}\u{1f600} <\u{4e2d}\u{6587}>";
    let xml = build_document(&vec![source("\u{fc}.txt", content.as_bytes())]).unwrap();
    assert_eq!(
        xml,
        format!(
            "{}<file path=\"\u{fc}.txt\">\u{e9}\u{20ac}\u{1f600} &lt;\u{4e2d}\u{6587}&gt;</file>{}",
            HEAD, TAIL
        )
    );
}

#[test]
fn files_appear_in_the_given_order() {
    let files = vec![source("b", b"2"), source("a", b"1"), source("c", &[0u8])];
    assert_eq!(
        build_document(&files),
        Ok(format!(
            "{}<file path=\"b\">2</file><file path=\"a\">1</file><file path=\"c\" binary=\"true\"/>{}",
            HEAD, TAIL
        ))
    );
}

#[test]
fn unreadable_file_fails_the_run() {
    let files = vec![
        source("a", b"1"),
        FileSource { path: "b".to_string(), content: Err("permission denied".to_string()) },
        source("c", b"3"),
    ];
    assert_eq!(build_document(&files), Err(Error::Io("permission denied".to_string())));
}

#[test]
fn same_input_gives_same_document() {
    let files = vec![source("a", b"1 < 2"), source("b", &[0u8, 9])];
    assert_eq!(build_document(&files), build_document(&files));
}

#[test]
fn document_built_step_by_step() {
    let mut document = XmlDocument::begin().unwrap();
    document.push_file("a.txt", &FileType::Text("x & y".to_string())).unwrap();
    document.push_file("b.bin", &FileType::Binary).unwrap();
    assert_eq!(
        document.finish(),
        Ok(format!(
            "{}<file path=\"a.txt\">x &amp; y</file><file path=\"b.bin\" binary=\"true\"/>{}",
            HEAD, TAIL
        ))
    );
}

#[test]
fn pipeline_writes_what_was_read() {
    let repo = FlattenRepo::new(Config {
        recursive: true,
        verbose: false,
        ignore_patterns: Vec::new(),
        paths: vec!["x.txt".to_string()],
    })
    .unwrap();
    let files = vec![source("x.txt", b"hi")];
    assert_eq!(
        repo.generate_xml_from_files(&files),
        Ok(format!("{}<file path=\"x.txt\">hi</file>{}", HEAD, TAIL))
    );
}

fn allowed_in_xml(c: char) -> bool {
    matches!(
        c,
        '\t' | '\n' | '\r' | ' '..='\u{d7ff}' | '\u{e000}'..='\u{fffd}' | '\u{10000}'..='\u{10ffff}'
    )
}

#[test]
fn control_character_in_content_is_replaced() {
    let files = vec![source("c.txt", &[0x61, 0x01, 0x62])];
    let xml = build_document(&files).unwrap();
    assert_eq!(xml, format!("{}<file path=\"c.txt\">a\u{fffd}b</file>{}", HEAD, TAIL));
    assert!(!xml.contains('\u{1}'));
    assert!(xml.chars().all(allowed_in_xml));
}

#[test]
fn control_character_in_path_is_replaced() {
    let files = vec![source("a\u{1}b\u{1f}.txt", b"x"), source("z\u{8}\u{b}", &[0u8])];
    let xml = build_document(&files).unwrap();
    let first = "<file path=\"a\u{fffd}b\u{fffd}.txt\">x</file>";
    let second = "<file path=\"z\u{fffd}\u{fffd}\" binary=\"true\"/>";
    assert_eq!(xml, format!("{}{}{}{}", HEAD, first, second, TAIL));
    assert!(xml.chars().all(allowed_in_xml));
}

#[test]
fn zero_byte_after_the_inspected_bytes_is_replaced() {
    let mut bytes = vec![b'a'; 8192];
    bytes.push(0);
    bytes.push(b'b');
    let xml = build_document(&vec![source("late", &bytes)]).unwrap();
    let expected = format!(
        "{}<file path=\"late\">{}\u{fffd}b</file>{}",
        HEAD,
        "a".repeat(8192),
        TAIL
    );
    assert_eq!(xml, expected);
    assert!(!xml.contains('\0'));
}

#[test]
fn noncharacters_are_replaced_and_white_space_is_kept() {
    let content = "a\u{fffe}b\u{ffff}c\td\ne\u{7f}f\u{85}g\u{fffd}h";
    let xml = build_document(&vec![source("n", content.as_bytes())]).unwrap();
    let written = "a\u{fffd}b\u{fffd}c\td\ne\u{7f}f\u{85}g\u{fffd}h";
    assert_eq!(xml, format!("{}<file path=\"n\">{}</file>{}", HEAD, written, TAIL));
}

#[test]
fn every_control_character_gives_a_clean_document() {
    let mut content = String::from("x");
    let mut code: u32 = 1;
    while code < 0x20 {
        content.push(char::from_u32(code).unwrap());
        code += 1;
    }
    let mut document = XmlDocument::begin().unwrap();
    document.push_file(&content, &FileType::Text(content.clone())).unwrap();
    document.push_file(&content, &FileType::Binary).unwrap();
    let xml = document.finish().unwrap();
    assert!(xml.chars().all(allowed_in_xml));
    assert_eq!(xml.matches("<file ").count(), 2);
}

#[test]
fn xml_char_agrees_with_the_character_range() {
    let mut code: u32 = 0;
    while code <= 0x11_0000 {
        if let Some(c) = char::from_u32(code) {
            assert_eq!(xml_char(c), allowed_in_xml(c), "U+{:04X}", code);
        }
        code += if code < 0x1_0100 { 1 } else { 0x101 };
    }
    assert!(xml_char('\u{10ffff}'));
    assert!(!xml_char('\0'));
}

#[test]
fn xml_safe_replaces_only_what_is_not_allowed() {
    assert_eq!(xml_safe(""), "");
    assert_eq!(xml_safe("plain <text> & more"), "plain <text> & more");
    assert_eq!(
        xml_safe("a\0b\u{1}c\u{b}d\u{c}e\u{e}f\u{1f}g"),
        "a\u{fffd}b\u{fffd}c\u{fffd}d\u{fffd}e\u{fffd}f\u{fffd}g"
    );
    let allowed = "\t\n\r \u{d7ff}\u{e000}\u{fffd}\u{10000}\u{10ffff}";
    assert_eq!(xml_safe(allowed), allowed);
    assert_eq!(xml_safe("\u{fffe}\u{ffff}"), "\u{fffd}\u{fffd}");
    assert_eq!(xml_safe("\u{e9}\u{1}\u{20ac}"), "\u{e9}\u{fffd}\u{20ac}");
}

#[test]
fn allowed_text_reads_back_exactly() {
    let content = "tab\there <&> \"quoted\" 'single' \r\n end";
    assert_eq!(xml_safe(content), content);
    let xml = build_document(&vec![source(content, content.as_bytes())]).unwrap();
    let written = between(&xml, "\">", "</file>");
    assert_eq!(quick_xml::escape::unescape(written).unwrap(), content);
    let path = between(&xml, "<file path=\"", "\">");
    assert_eq!(quick_xml::escape::unescape(path).unwrap(), content);
}

#[test]
fn sources_are_pushed_one_by_one() {
    let mut document = XmlDocument::begin().unwrap();
    assert_eq!(document.push_source(&source("a", b"1")), Ok(()));
    let failed = FileSource { path: "b".to_string(), content: Err("vanished".to_string()) };
    assert_eq!(document.push_source(&failed), Err(Error::Io("vanished".to_string())));
    assert_eq!(document.push_source(&source("c", &[0u8])), Ok(()));
    let elements = "<file path=\"a\">1</file><file path=\"c\" binary=\"true\"/>";
    assert_eq!(document.finish(), Ok(format!("{}{}{}", HEAD, elements, TAIL)));
}
