use escl::xml::{parse_document, Element, XmlError};
use escl::util::{parse_u32, u32_to_string};

#[test]
fn test_parse_skips_declaration_and_attributes() {
    let doc = "<?xml version=\"1.0\" encoding=\"UTF-8\"?>\n<a xmlns:x=\"urn:demo\" q='2>1'><b>hi</b></a>";
    let root = parse_document(doc).expect("parse");
    assert_eq!(root.name, "a");
    assert_eq!(root.children.len(), 1);
    assert_eq!(root.children[0].name, "b");
    assert_eq!(root.children[0].text, "hi");
}

#[test]
fn test_parse_self_closing_and_nesting() {
    let doc = "<a><b/><c><d>1</d></c></a>";
    let root = parse_document(doc).expect("parse");
    assert_eq!(root.children.len(), 2);
    assert_eq!(root.children[0].name, "b");
    assert_eq!(root.children[0].text, "");
    assert_eq!(root.children[1].children[0].text, "1");
}

#[test]
fn test_parse_rejects_mismatched_close() {
    assert!(matches!(parse_document("<a><b>1</c></a>"), Err(XmlError::Syntax { .. })));
    assert!(matches!(parse_document("<a>"), Err(XmlError::Syntax { .. })));
    assert!(matches!(parse_document("plain text"), Err(XmlError::Syntax { .. })));
}

#[test]
fn test_print_then_parse_is_identity() {
    let tree = Element {
        name: "outer".to_owned(),
        text: String::new(),
        children: vec![
            Element { name: "one".to_owned(), text: "x y".to_owned(), children: Vec::new() },
            Element { name: "two".to_owned(), text: String::new(), children: Vec::new() },
        ],
    };
    let printed = tree.print();
    assert_eq!(printed, "<outer><one>x y</one><two></two></outer>");
    let back = parse_document(printed.as_str()).expect("parse");
    assert_eq!(back.name, "outer");
    assert_eq!(back.children.len(), 2);
    assert_eq!(back.children[0].text, "x y");
    assert_eq!(back.children[1].text, "");
}

#[test]
fn test_decimal_strings() {
    assert_eq!(u32_to_string(0), "0");
    assert_eq!(u32_to_string(300), "300");
    assert_eq!(u32_to_string(4294967295), "4294967295");
    assert_eq!(parse_u32("0"), Some(0));
    assert_eq!(parse_u32("2550"), Some(2550));
    assert_eq!(parse_u32("4294967295"), Some(4294967295));
    assert_eq!(parse_u32("4294967296"), None);
    assert_eq!(parse_u32(""), None);
    assert_eq!(parse_u32("12a"), None);
    assert_eq!(parse_u32("-3"), None);
}

#[test]
fn test_lookup_by_local_name() {
    let doc = "<pwg:a><scan:Version>7</scan:Version></pwg:a>";
    let root = parse_document(doc).expect("parse");
    assert!(root.child("Version").is_some());
    assert_eq!(root.child_text("Version"), Some("7"));
    assert!(root.child("Missing").is_none());
}

#[test]
fn test_entity_references_are_expanded() {
    let doc = "<a><u>http://h/p?x=1&amp;y=2</u><m>Scan &amp; Copy</m><c>&lt;tag&gt; &quot;q&quot; &apos;a&apos;</c></a>";
    let root = parse_document(doc).expect("parse");
    assert_eq!(root.children[0].text, "http://h/p?x=1&y=2");
    assert_eq!(root.children[1].text, "Scan & Copy");
    assert_eq!(root.children[2].text, "<tag> \"q\" 'a'");
}

#[test]
fn test_unrecognized_references_are_kept_literally() {
    let doc = "<a>&#65; &nbsp; a&b</a>";
    let root = parse_document(doc).expect("parse");
    assert_eq!(root.text, "&#65; &nbsp; a&b");
}
