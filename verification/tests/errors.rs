use docbook_to_mdbook::convert::{convert_chapter, render_chapter};
use docbook_to_mdbook::error::{ConvertError, ErrorKind};
use docbook_to_mdbook::vocabulary::Element;
use docbook_to_mdbook::xml::{Token, TokenKind};

fn failure(input: &str) -> ConvertError {
    convert_chapter(input).unwrap_err()
}

#[test]
fn mismatched_end_tag_is_malformed_input() {
    let error = failure("<chapter><para>text</chapter>");
    assert_eq!(error.kind, ErrorKind::MalformedInput);
    assert_eq!(error.trail, vec![Element::Para, Element::Chapter]);
}

#[test]
fn unclosed_comment_is_malformed_input() {
    let error = failure("<chapter><!-- never closed</chapter>");
    assert_eq!(error.kind, ErrorKind::MalformedInput);
    assert_eq!(error.trail, vec![Element::Chapter]);
}

#[test]
fn text_that_is_not_utf8_is_malformed_input() {
    let tokens = vec![
        Token::new(TokenKind::Start, 7, b"chapter".to_vec()),
        Token::new(TokenKind::Start, 4, b"para".to_vec()),
        Token::new(TokenKind::Text, 0, vec![b'a', 0xff, b'b']),
    ];
    let error = render_chapter(&tokens).unwrap_err();
    assert_eq!(error.kind, ErrorKind::MalformedInput);
    assert_eq!(error.subject, vec![b'a', 0xff, b'b']);
    assert_eq!(error.trail, vec![Element::Para, Element::Chapter]);
}

#[test]
fn stray_text_is_an_unexpected_event() {
    let error = failure("<chapter>stray</chapter>");
    assert_eq!(error.kind, ErrorKind::UnexpectedEvent);
    assert_eq!(error.subject, b"stray".to_vec());
    assert_eq!(error.trail, vec![Element::Chapter]);
}

#[test]
fn comment_is_an_unexpected_event() {
    let error = failure("<chapter><section><!-- note --></section></chapter>");
    assert_eq!(error.kind, ErrorKind::UnexpectedEvent);
    assert_eq!(error.subject, b" note ".to_vec());
    assert_eq!(error.trail, vec![Element::Section, Element::Chapter]);
}

#[test]
fn end_of_input_within_an_element_is_malformed_input() {
    let error = failure("<chapter><section>");
    assert_eq!(error.kind, ErrorKind::MalformedInput);
    assert_eq!(error.subject, Vec::<u8>::new());
    assert_eq!(error.trail, vec![Element::Section, Element::Chapter]);
}

#[test]
fn end_of_input_within_a_text_object_is_malformed_input() {
    let error = failure("<chapter><section><mediaobject><textobject><phrase>alt");
    assert_eq!(error.kind, ErrorKind::MalformedInput);
    assert_eq!(
        error.trail,
        vec![Element::TextObject, Element::MediaObject, Element::Section, Element::Chapter]
    );
}

#[test]
fn other_root_is_an_unrecognized_element() {
    let error = failure("<book></book>");
    assert_eq!(error.kind, ErrorKind::UnrecognizedElement);
    assert_eq!(error.subject, b"book".to_vec());
    assert_eq!(error.trail, Vec::<Element>::new());
}

#[test]
fn element_in_the_wrong_place_is_an_unrecognized_element() {
    let error = failure("<chapter><orderedlist></orderedlist></chapter>");
    assert_eq!(error.kind, ErrorKind::UnrecognizedElement);
    assert_eq!(error.subject, b"orderedlist".to_vec());
    assert_eq!(error.trail, vec![Element::Chapter]);

    let error = failure("<chapter><section><note><para>n</para></note></section></chapter>");
    assert_eq!(error.kind, ErrorKind::UnrecognizedElement);
    assert_eq!(error.subject, b"note".to_vec());

    let error = failure(
        "<chapter><section><itemizedlist><listitem><note><itemizedlist/></note></listitem></itemizedlist></section></chapter>",
    );
    assert_eq!(error.kind, ErrorKind::UnrecognizedElement);
    assert_eq!(error.subject, b"itemizedlist".to_vec());
    assert_eq!(
        error.trail,
        vec![
            Element::Note,
            Element::ListItem,
            Element::ItemizedList,
            Element::Section,
            Element::Chapter
        ]
    );
}

#[test]
fn empty_element_in_running_text_is_an_unrecognized_element() {
    let error = failure("<chapter><para>a<br/>b</para></chapter>");
    assert_eq!(error.kind, ErrorKind::UnrecognizedElement);
    assert_eq!(error.subject, b"br".to_vec());
    assert_eq!(error.trail, vec![Element::Para, Element::Chapter]);
}

#[test]
fn cross_reference_without_identifier_is_a_missing_attribute() {
    let error = failure("<chapter><para><xref/></para></chapter>");
    assert_eq!(error.kind, ErrorKind::MissingAttribute);
    assert_eq!(error.subject, b"linkend".to_vec());
    assert_eq!(error.trail, vec![Element::Xref, Element::Para, Element::Chapter]);
}

#[test]
fn link_without_identifier_is_a_missing_attribute() {
    let error = failure("<chapter><para><link>text</link></para></chapter>");
    assert_eq!(error.kind, ErrorKind::MissingAttribute);
    assert_eq!(error.subject, b"linkend".to_vec());
    assert_eq!(error.trail, vec![Element::Link, Element::Para, Element::Chapter]);
}

#[test]
fn ulink_without_url_is_a_missing_attribute() {
    let error = failure("<chapter><para><ulink href=\"x\">text</ulink></para></chapter>");
    assert_eq!(error.kind, ErrorKind::MissingAttribute);
    assert_eq!(error.subject, b"url".to_vec());
    assert_eq!(error.trail, vec![Element::Ulink, Element::Para, Element::Chapter]);
}

#[test]
fn image_without_file_is_a_missing_attribute() {
    let error = failure(
        "<chapter><section><mediaobject><imageobject><imagedata/></imageobject></mediaobject></section></chapter>",
    );
    assert_eq!(error.kind, ErrorKind::MissingAttribute);
    assert_eq!(error.subject, b"fileref".to_vec());
    assert_eq!(
        error.trail,
        vec![
            Element::ImageData,
            Element::ImageObject,
            Element::MediaObject,
            Element::Section,
            Element::Chapter
        ]
    );
}

#[test]
fn attribute_that_is_not_well_formed_is_malformed_input() {
    let error = failure("<chapter><para><xref linkend=chap-Protocol /></para></chapter>");
    assert_eq!(error.kind, ErrorKind::MalformedInput);
    assert_eq!(error.subject, b"linkend".to_vec());

    let error = failure("<chapter><para><xref linkend=\"a&nothing;b\"/></para></chapter>");
    assert_eq!(error.kind, ErrorKind::MalformedInput);
    assert_eq!(error.subject, b"linkend".to_vec());
}

#[test]
fn unknown_identifier_is_an_unresolvable_link() {
    let error = failure("<chapter><para><xref linkend=\"sect-Nowhere-at-all\"/></para></chapter>");
    assert_eq!(error.kind, ErrorKind::UnresolvableLink);
    assert_eq!(error.subject, b"sect-Nowhere-at-all".to_vec());
    assert_eq!(error.trail, vec![Element::Xref, Element::Para, Element::Chapter]);

    let error = failure("<chapter><para><link linkend=\"chap-Nothing\">p</link></para></chapter>");
    assert_eq!(error.kind, ErrorKind::UnresolvableLink);
    assert_eq!(error.subject, b"chap-Nothing".to_vec());
    assert_eq!(error.trail, vec![Element::Link, Element::Para, Element::Chapter]);
}

#[test]
fn every_kind_has_a_description() {
    let kinds = [
        ErrorKind::MalformedInput,
        ErrorKind::UnexpectedEvent,
        ErrorKind::UnrecognizedElement,
        ErrorKind::MissingAttribute,
        ErrorKind::UnresolvableLink,
        ErrorKind::UnmappedReference,
    ];
    let texts: Vec<&str> = kinds.iter().map(|k| k.describe()).collect();
    assert_eq!(
        texts,
        vec![
            "malformed input",
            "unexpected event",
            "unrecognized element",
            "missing attribute",
            "unresolvable link",
            "unmapped reference",
        ]
    );
}

#[test]
fn protocol_identifier_of_two_segments_is_an_unresolvable_link() {
    let error = failure(
        "<chapter><para><xref linkend=\"protocol-spec-wl_surface-request\"/></para></chapter>",
    );
    assert_eq!(error.kind, ErrorKind::UnresolvableLink);
    assert_eq!(error.subject, b"protocol-spec-wl_surface-request".to_vec());
    assert_eq!(error.trail, vec![Element::Xref, Element::Para, Element::Chapter]);
}

#[test]
fn definition_entry_needs_a_term_and_then_a_list_item() {
    let list = |entry: &str| {
        format!("<chapter><section><variablelist><varlistentry>{entry}</varlistentry></variablelist></section></chapter>")
    };
    let term = "<term>t</term>";
    let item = "<listitem><para>d</para></listitem>";
    let trail = vec![
        Element::VarListEntry,
        Element::VariableList,
        Element::Section,
        Element::Chapter,
    ];

    assert!(convert_chapter(&list(&format!("{term}{item}"))).is_ok());

    let error = failure(&list(&format!("{item}{term}")));
    assert_eq!(error.kind, ErrorKind::UnrecognizedElement);
    assert_eq!(error.subject, b"listitem".to_vec());
    assert_eq!(error.trail, trail);

    let error = failure(&list(&format!("{term}{term}{item}")));
    assert_eq!(error.kind, ErrorKind::UnrecognizedElement);
    assert_eq!(error.subject, b"term".to_vec());

    let error = failure(&list(&format!("{term}{item}{item}")));
    assert_eq!(error.kind, ErrorKind::UnrecognizedElement);
    assert_eq!(error.subject, b"listitem".to_vec());

    let error = failure(&list(term));
    assert_eq!(error.kind, ErrorKind::UnexpectedEvent);
    assert_eq!(error.subject, b"varlistentry".to_vec());
    assert_eq!(error.trail, trail);

    let error = failure(&list(""));
    assert_eq!(error.kind, ErrorKind::UnexpectedEvent);
}
