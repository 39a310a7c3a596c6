use docbook_to_mdbook::text::{collapse_whitespace, decimal, is_blank, joined, WHITESPACE_RUN};
use docbook_to_mdbook::vocabulary::{bytes_eq, classify, is_named, Element};

#[test]
fn collapse_replaces_each_run_by_one_space() {
    assert_eq!(collapse_whitespace(" a\n\n b\t \tc  "), " a b c ");
    assert_eq!(collapse_whitespace(""), "");
    assert_eq!(collapse_whitespace("\n"), " ");
    assert_eq!(collapse_whitespace("abc"), "abc");
    assert_eq!(collapse_whitespace("a\r\nb\u{a0}c"), "a\r b\u{a0}c");
}

#[test]
fn blank_is_unicode_whitespace_only() {
    assert!(is_blank(b""));
    assert!(is_blank(b" \n\t\r"));
    assert!(is_blank("\u{a0}\u{2003} ".as_bytes()));
    assert!(!is_blank(b" x "));
    assert!(!is_blank(&[0xff]));
}

#[test]
fn decimal_writes_numbers() {
    assert_eq!(decimal(0), "0");
    assert_eq!(decimal(7), "7");
    assert_eq!(decimal(10), "10");
    assert_eq!(decimal(12), "12");
    assert_eq!(decimal(909), "909");
    assert_eq!(decimal(1234567890), "1234567890");
    assert_eq!(decimal(usize::MAX), usize::MAX.to_string());
}

#[test]
fn joined_concatenates() {
    assert_eq!(joined("ab", "cd"), "abcd");
    assert_eq!(joined("", ""), "");
}

#[test]
fn bytes_are_compared_in_full() {
    assert!(bytes_eq(b"", b""));
    assert!(bytes_eq(b"para", b"para"));
    assert!(!bytes_eq(b"para", b"par"));
    assert!(!bytes_eq(b"para", b"part"));
}

#[test]
fn every_element_is_found_by_its_name() {
    let all = [
        (Element::Book, "book"),
        (Element::Include, "xi:include"),
        (Element::Preface, "preface"),
        (Element::Chapter, "chapter"),
        (Element::Title, "title"),
        (Element::LiteralLayout, "literallayout"),
        (Element::Para, "para"),
        (Element::SimPara, "simpara"),
        (Element::Section, "section"),
        (Element::Synopsis, "synopsis"),
        (Element::OrderedList, "orderedlist"),
        (Element::ItemizedList, "itemizedlist"),
        (Element::VariableList, "variablelist"),
        (Element::VarListEntry, "varlistentry"),
        (Element::Term, "term"),
        (Element::ListItem, "listitem"),
        (Element::Figure, "figure"),
        (Element::MediaObject, "mediaobject"),
        (Element::MediaObjectCo, "mediaobjectco"),
        (Element::TextObject, "textobject"),
        (Element::ImageObject, "imageobject"),
        (Element::ImageObjectCo, "imageobjectco"),
        (Element::AreaSpec, "areaspec"),
        (Element::ImageData, "imagedata"),
        (Element::Caption, "caption"),
        (Element::Warning, "warning"),
        (Element::Note, "note"),
        (Element::Emphasis, "emphasis"),
        (Element::FirstTerm, "firstterm"),
        (Element::Code, "code"),
        (Element::Literal, "literal"),
        (Element::VarName, "varname"),
        (Element::UserInput, "userinput"),
        (Element::Type, "type"),
        (Element::Function, "function"),
        (Element::SystemItem, "systemitem"),
        (Element::Filename, "filename"),
        (Element::Ulink, "ulink"),
        (Element::Link, "link"),
        (Element::Xref, "xref"),
    ];
    for (element, name) in all {
        assert_eq!(element.name(), name);
        assert_eq!(classify(name.as_bytes()), element);
        assert!(is_named(name.as_bytes(), element));
    }
    assert_eq!(Element::Unknown.name(), "");
    assert_eq!(classify(b"table"), Element::Unknown);
    assert_eq!(classify(b"Para"), Element::Unknown);
    assert_eq!(classify(b"para "), Element::Unknown);
    assert!(!is_named(b"para", Element::SimPara));
}

#[test]
fn the_pattern_for_a_run_of_whitespace() {
    assert_eq!(WHITESPACE_RUN, "[\n\t ]+");
}
