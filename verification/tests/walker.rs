use docbook_to_mdbook::convert::render_chapter;
use docbook_to_mdbook::vocabulary::Element;
use docbook_to_mdbook::walker::{
    handle_admonition, handle_areaspec, handle_caption, handle_chapter, handle_chapter_file,
    handle_code, handle_emphasis, handle_figure, handle_filename, handle_imageobject,
    handle_imageobjectco, handle_itemizedlist, handle_link, handle_listitem, handle_mediaobject,
    handle_orderedlist, handle_section, handle_term, handle_text_block, handle_textobject,
    handle_title, handle_ulink, handle_variablelist, handle_varlistentry, heading_text,
    kind_of_items, marker_text, select, Action, Awaited, Entry, Frame, ListKind, Step, TitleKind,
    Walker,
};
use docbook_to_mdbook::xml::{tokenize, Token, TokenKind};

fn start(name: &str) -> Token {
    Token::new(TokenKind::Start, name.len(), name.as_bytes().to_vec())
}

fn end(name: &str) -> Token {
    Token::new(TokenKind::End, 0, name.as_bytes().to_vec())
}

fn text(content: &str) -> Token {
    Token::new(TokenKind::Text, 0, content.as_bytes().to_vec())
}

fn paragraph() -> Frame {
    Frame::TextBlock { code_block: false, paragraph: true }
}

#[test]
fn new_walker_is_at_the_top() {
    let walker = Walker::new();
    assert!(walker.frames.is_empty());
    assert_eq!(walker.top(), Frame::Document);
    assert_eq!(walker.trail(), Vec::<Element>::new());
    assert_eq!(walker.steps, 0);
}

#[test]
fn steps_open_and_close_elements() {
    let mut walker = Walker::new();
    assert_eq!(walker.step(&start("chapter")).unwrap(), Step::Continue);
    assert_eq!(walker.step(&start("section")).unwrap(), Step::Continue);
    assert_eq!(walker.step(&start("section")).unwrap(), Step::Continue);
    assert_eq!(walker.top(), Frame::Section { depth: 1 });
    assert_eq!(walker.trail(), vec![Element::Section, Element::Section, Element::Chapter]);
    assert_eq!(walker.step(&start("para")).unwrap(), Step::Continue);
    assert_eq!(
        walker.frames.last(),
        Some(&Entry { frame: paragraph(), element: Element::Para })
    );
    assert_eq!(walker.step(&text(" some  text ")).unwrap(), Step::Continue);
    assert_eq!(walker.render.pending_text, " some text ");
    assert!(walker.render.lines.is_empty());
    assert_eq!(walker.step(&end("para")).unwrap(), Step::Continue);
    assert_eq!(walker.render.lines, vec!["some text"]);
    assert!(walker.render.blank_owed);
    assert_eq!(walker.step(&end("section")).unwrap(), Step::Continue);
    assert_eq!(walker.step(&end("section")).unwrap(), Step::Continue);
    assert_eq!(walker.step(&end("chapter")).unwrap(), Step::Continue);
    assert_eq!(walker.top(), Frame::Document);
    assert_eq!(walker.steps, 9);
    let eof = Token::new(TokenKind::Eof, 0, Vec::new());
    assert_eq!(walker.step(&eof).unwrap(), Step::Finished);
    assert_eq!(walker.steps, 9);
}

#[test]
fn numbered_list_hands_out_its_ordinals() {
    let mut walker = Walker::new();
    for token in [start("chapter"), start("section"), start("orderedlist")] {
        walker.step(&token).unwrap();
    }
    assert_eq!(walker.top(), Frame::OrderedList { next: 1 });
    for expected in 1..=3 {
        let tag = Token::new(
            TokenKind::Start,
            8,
            format!("listitem override=\"{}\"", 40 + expected).into_bytes(),
        );
        walker.step(&tag).unwrap();
        assert_eq!(walker.top(), Frame::ListItem { saved: 0 });
        assert_eq!(walker.render.prefix_current, format!("{expected}. "));
        assert_eq!(walker.render.prefix_continuation, "   ");
        walker.step(&end("listitem")).unwrap();
        assert_eq!(walker.top(), Frame::OrderedList { next: expected + 1 });
        assert_eq!(walker.render.prefix_current, "");
    }
}

#[test]
fn link_is_resolved_when_it_closes() {
    let mut walker = Walker::new();
    for token in [start("chapter"), start("para")] {
        walker.step(&token).unwrap();
    }
    let tag = Token::new(TokenKind::Start, 4, b"link linkend=\"sect-Library-Server\"".to_vec());
    let unknown = Token::new(TokenKind::Start, 4, b"link linkend=\"sect-Nowhere-x\"".to_vec());
    walker.step(&unknown).unwrap();
    walker.step(&text("lost")).unwrap();
    let error = walker.step(&end("link")).unwrap_err();
    assert_eq!(error.subject, b"sect-Nowhere-x".to_vec());
    assert_eq!(walker.top(), Frame::Link);
    assert_eq!(walker.aside, "lost");
    assert_eq!(walker.render.pending_text, "");
    walker.frames.pop();
    walker.step(&tag).unwrap();
    assert_eq!(walker.top(), Frame::Link);
    assert_eq!(walker.anchor.content, tag.content);
    walker.step(&text(" the\nserver ")).unwrap();
    assert_eq!(walker.aside, " the server ");
    assert_eq!(walker.render.pending_text, "");
    walker.step(&end("link")).unwrap();
    assert_eq!(
        walker.render.pending_text,
        "[the server](https://gitlab.freedesktop.org/wayland/wayland)"
    );
    assert_eq!(walker.top(), paragraph());
}

#[test]
fn cross_reference_is_the_same_in_every_context() {
    let xref = "<xref linkend=\"protocol-spec-wl_seat-event-name\"/>";
    let link = "[wl_seat.name](https://wayland.app/protocols/wayland#wl_seat:event:name)";
    let plain = format!("<chapter><para>{xref}</para></chapter>");
    let nested = format!(
        "<chapter><section><orderedlist><listitem><note><para>see {xref}</para></note></listitem></orderedlist></section></chapter>"
    );
    let term = format!(
        "<chapter><section><variablelist><varlistentry><term><synopsis>{xref}</synopsis></term><listitem></listitem></varlistentry></variablelist></section></chapter>"
    );
    assert_eq!(render_chapter(&tokenize(&plain)).unwrap(), vec![link]);
    assert_eq!(
        render_chapter(&tokenize(&nested)).unwrap(),
        vec!["1. > [!NOTE]".to_string(), "   > see".to_string(), format!("   > {link}")]
    );
    assert_eq!(render_chapter(&tokenize(&term)).unwrap(), vec![link]);
}

#[test]
fn grammar_of_a_section() {
    let section = Frame::Section { depth: 2 };
    let open = |element| select(section, TokenKind::Start, element, false);
    assert_eq!(open(Element::Section), Action::Open { frame: Frame::Section { depth: 3 } });
    assert_eq!(
        open(Element::Title),
        Action::Open { frame: Frame::Title { kind: TitleKind::Section { depth: 2 }, first: true } }
    );
    assert_eq!(
        open(Element::Synopsis),
        Action::Open { frame: Frame::TextBlock { code_block: true, paragraph: true } }
    );
    assert_eq!(open(Element::Para), Action::Open { frame: paragraph() });
    assert_eq!(open(Element::OrderedList), Action::Open { frame: Frame::OrderedList { next: 1 } });
    assert_eq!(open(Element::ItemizedList), Action::Open { frame: Frame::ItemizedList });
    assert_eq!(open(Element::Figure), Action::Open { frame: Frame::Figure });
    assert_eq!(open(Element::VariableList), Action::Open { frame: Frame::VariableList });
    assert_eq!(open(Element::MediaObject), Action::Open { frame: Frame::MediaObject });
    assert_eq!(open(Element::MediaObjectCo), Action::Open { frame: Frame::MediaObject });
    assert_eq!(open(Element::SimPara), Action::Reject);
    assert_eq!(open(Element::LiteralLayout), Action::Reject);
    assert_eq!(open(Element::Unknown), Action::Reject);
    assert_eq!(select(section, TokenKind::End, Element::Section, false), Action::Close);
    assert_eq!(select(section, TokenKind::End, Element::Chapter, false), Action::Reject);
    assert_eq!(select(section, TokenKind::Text, Element::Unknown, true), Action::Skip);
    assert_eq!(select(section, TokenKind::Text, Element::Unknown, false), Action::Reject);
    assert_eq!(select(section, TokenKind::Empty, Element::Include, false), Action::Reject);
    assert_eq!(select(section, TokenKind::Prolog, Element::Unknown, false), Action::Reject);
    assert_eq!(select(section, TokenKind::Eof, Element::Unknown, true), Action::Reject);
}

#[test]
fn grammar_of_running_text() {
    let open = |element| select(paragraph(), TokenKind::Start, element, false);
    assert_eq!(
        open(Element::Synopsis),
        Action::FlushAndOpen { frame: Frame::TextBlock { code_block: true, paragraph: true } }
    );
    assert_eq!(open(Element::OrderedList), Action::FlushAndOpen { frame: Frame::OrderedList { next: 1 } });
    assert_eq!(open(Element::FirstTerm), Action::Open { frame: Frame::Emphasis });
    assert_eq!(open(Element::UserInput), Action::Open { frame: Frame::Code });
    assert_eq!(open(Element::Para), Action::Reject);
    assert_eq!(select(paragraph(), TokenKind::Text, Element::Unknown, true), Action::Gather);
    assert_eq!(select(paragraph(), TokenKind::Reference, Element::Unknown, false), Action::GatherReference);
    assert_eq!(select(paragraph(), TokenKind::Empty, Element::Xref, false), Action::CrossReference);
    assert_eq!(select(paragraph(), TokenKind::Empty, Element::ImageData, false), Action::Reject);
    assert_eq!(select(paragraph(), TokenKind::End, Element::LiteralLayout, false), Action::Close);
    assert_eq!(select(paragraph(), TokenKind::End, Element::Code, false), Action::Reject);
}

#[test]
fn grammar_outside_every_element() {
    let top = |kind, element, blank| select(Frame::Document, kind, element, blank);
    assert_eq!(top(TokenKind::Start, Element::Chapter, false), Action::Open { frame: Frame::Chapter });
    assert_eq!(top(TokenKind::Start, Element::Preface, false), Action::Open { frame: Frame::Chapter });
    assert_eq!(top(TokenKind::Start, Element::Section, false), Action::Reject);
    assert_eq!(top(TokenKind::Prolog, Element::Unknown, false), Action::Skip);
    assert_eq!(top(TokenKind::Eof, Element::Unknown, true), Action::Finish);
    assert_eq!(top(TokenKind::Other, Element::Unknown, false), Action::Reject);
    assert_eq!(top(TokenKind::Malformed, Element::Unknown, true), Action::Reject);
}

#[test]
fn grammar_of_skipped_content() {
    for frame in [Frame::TextObject, Frame::AreaSpec] {
        let own = if frame == Frame::TextObject { Element::TextObject } else { Element::AreaSpec };
        assert_eq!(select(frame, TokenKind::End, own, false), Action::Close);
        assert_eq!(select(frame, TokenKind::End, Element::Para, false), Action::Skip);
        assert_eq!(select(frame, TokenKind::Start, Element::Unknown, false), Action::Skip);
        assert_eq!(select(frame, TokenKind::Text, Element::Unknown, false), Action::Skip);
        assert_eq!(select(frame, TokenKind::Other, Element::Unknown, false), Action::Skip);
        assert_eq!(select(frame, TokenKind::Eof, Element::Unknown, true), Action::Reject);
        assert_eq!(select(frame, TokenKind::Malformed, Element::Unknown, true), Action::Reject);
    }
}

#[test]
fn headings_by_kind() {
    assert_eq!(heading_text(TitleKind::Chapter), "# ");
    assert_eq!(heading_text(TitleKind::Section { depth: 0 }), "## ");
    assert_eq!(heading_text(TitleKind::Section { depth: 1 }), "### ");
    assert_eq!(heading_text(TitleKind::Section { depth: 4 }), "###### ");
    assert_eq!(heading_text(TitleKind::Bold), "**");
}

#[test]
fn markers_by_kind() {
    assert_eq!(marker_text(ListKind::Bullet), "-");
    assert_eq!(marker_text(ListKind::Numbered { ordinal: 1 }), "1.");
    assert_eq!(marker_text(ListKind::Numbered { ordinal: 27 }), "27.");
    assert_eq!(marker_text(ListKind::Definition), "  :");
    assert_eq!(kind_of_items(Frame::ItemizedList), ListKind::Bullet);
    assert_eq!(kind_of_items(Frame::OrderedList { next: 5 }), ListKind::Numbered { ordinal: 5 });
    assert_eq!(
        kind_of_items(Frame::VarListEntry { awaits: Awaited::Item }),
        ListKind::Definition
    );
}

#[test]
fn rejection_names_the_event() {
    let mut walker = Walker::new();
    walker.step(&start("chapter")).unwrap();
    let error = walker.reject(&start("table"));
    assert_eq!(error.subject, b"table".to_vec());
    assert_eq!(error.trail, vec![Element::Chapter]);
}

fn open(frame: Frame) -> Action {
    Action::Open { frame }
}

#[test]
fn handlers_admit_their_children() {
    let start = TokenKind::Start;
    assert_eq!(handle_chapter_file(start, Element::Preface, false), open(Frame::Chapter));
    assert_eq!(handle_chapter(start, Element::Section, false), open(Frame::Section { depth: 0 }));
    assert_eq!(
        handle_chapter(start, Element::Title, false),
        open(Frame::Title { kind: TitleKind::Chapter, first: true })
    );
    assert_eq!(handle_chapter(start, Element::LiteralLayout, false), open(paragraph()));
    assert_eq!(handle_chapter(start, Element::Synopsis, false), Action::Reject);
    assert_eq!(handle_section(0, start, Element::Section, false), open(Frame::Section { depth: 1 }));
    assert_eq!(handle_title(TitleKind::Bold, true, start, Element::Emphasis), Action::Reject);
    assert_eq!(handle_text_block(false, true, start, Element::Link), open(Frame::Link));
    assert_eq!(
        handle_text_block(true, true, start, Element::VariableList),
        Action::FlushAndOpen { frame: Frame::VariableList }
    );
    assert_eq!(handle_code(start, Element::Code), Action::Reject);
    assert_eq!(handle_emphasis(start, Element::Emphasis), Action::Reject);
    assert_eq!(handle_filename(start, Element::Filename), Action::Reject);
    assert_eq!(handle_link(start, Element::Link), Action::Reject);
    assert_eq!(handle_ulink(start, Element::Ulink), Action::Reject);
    assert_eq!(
        handle_variablelist(start, Element::Title, false),
        open(Frame::Title { kind: TitleKind::Bold, first: true })
    );
    assert_eq!(
        handle_variablelist(start, Element::VarListEntry, false),
        open(Frame::VarListEntry { awaits: Awaited::Term })
    );
    assert_eq!(handle_varlistentry(Awaited::Term, start, Element::Term, false), open(Frame::Term));
    assert_eq!(handle_varlistentry(Awaited::Item, start, Element::Term, false), Action::Reject);
    assert_eq!(handle_varlistentry(Awaited::End, start, Element::Term, false), Action::Reject);
    assert_eq!(
        handle_varlistentry(Awaited::Item, start, Element::ListItem, false),
        open(Frame::ListItem { saved: 0 })
    );
    assert_eq!(handle_varlistentry(Awaited::Term, start, Element::ListItem, false), Action::Reject);
    assert_eq!(handle_varlistentry(Awaited::End, start, Element::ListItem, false), Action::Reject);
    assert_eq!(Awaited::Term.next(), Awaited::Item);
    assert_eq!(Awaited::Item.next(), Awaited::End);
    assert_eq!(Awaited::End.next(), Awaited::End);
    assert_eq!(handle_term(start, Element::Literal), open(Frame::Code));
    assert_eq!(
        handle_term(start, Element::Synopsis),
        open(Frame::TextBlock { code_block: false, paragraph: false })
    );
    assert_eq!(handle_term(start, Element::Code), Action::Reject);
    assert_eq!(
        handle_orderedlist(3, start, Element::ListItem, false),
        open(Frame::ListItem { saved: 0 })
    );
    assert_eq!(handle_itemizedlist(start, Element::Para, false), Action::Reject);
    assert_eq!(
        handle_listitem(2, start, Element::Warning, false),
        open(Frame::Admonition { saved: 0 })
    );
    assert_eq!(handle_listitem(2, start, Element::SimPara, false), open(paragraph()));
    assert_eq!(handle_listitem(2, start, Element::ItemizedList, false), Action::Reject);
    assert_eq!(handle_admonition(2, start, Element::Para, false), open(paragraph()));
    assert_eq!(handle_admonition(2, start, Element::Note, false), Action::Reject);
    assert_eq!(handle_figure(start, Element::MediaObjectCo, false), open(Frame::MediaObject));
    assert_eq!(handle_mediaobject(start, Element::Caption, false), open(Frame::Caption));
    assert_eq!(handle_mediaobject(start, Element::ImageData, false), Action::Reject);
    assert_eq!(handle_imageobject(start, Element::AreaSpec, false), open(Frame::AreaSpec));
    assert_eq!(handle_imageobject(start, Element::ImageObject, false), Action::Reject);
    assert_eq!(handle_imageobjectco(start, Element::ImageObject, false), open(Frame::ImageObject));
    assert_eq!(handle_caption(start, Element::Para, false), open(paragraph()));
    assert_eq!(handle_caption(start, Element::SimPara, false), Action::Reject);
    assert_eq!(handle_textobject(start, Element::Unknown), Action::Skip);
    assert_eq!(handle_areaspec(start, Element::AreaSpec), Action::Skip);
}

#[test]
fn handlers_leave_at_their_closing_tags() {
    let end = TokenKind::End;
    assert_eq!(handle_chapter_file(end, Element::Chapter, false), Action::Reject);
    assert_eq!(handle_chapter(end, Element::Preface, false), Action::Close);
    assert_eq!(handle_section(1, end, Element::Section, false), Action::Close);
    assert_eq!(handle_title(TitleKind::Chapter, false, end, Element::Title), Action::Close);
    assert_eq!(handle_text_block(false, false, end, Element::SimPara), Action::Close);
    assert_eq!(handle_text_block(false, false, end, Element::Term), Action::Reject);
    assert_eq!(handle_code(end, Element::SystemItem), Action::Close);
    assert_eq!(handle_code(end, Element::Emphasis), Action::Reject);
    assert_eq!(handle_emphasis(end, Element::FirstTerm), Action::Close);
    assert_eq!(handle_filename(end, Element::Filename), Action::Close);
    assert_eq!(handle_link(end, Element::Link), Action::Close);
    assert_eq!(handle_link(end, Element::Ulink), Action::Reject);
    assert_eq!(handle_ulink(end, Element::Ulink), Action::Close);
    assert_eq!(handle_variablelist(end, Element::VariableList, false), Action::Close);
    assert_eq!(handle_varlistentry(Awaited::End, end, Element::VarListEntry, false), Action::Close);
    assert_eq!(handle_varlistentry(Awaited::Item, end, Element::VarListEntry, false), Action::Reject);
    assert_eq!(handle_varlistentry(Awaited::Term, end, Element::VarListEntry, false), Action::Reject);
    assert_eq!(handle_term(end, Element::Term), Action::Close);
    assert_eq!(handle_orderedlist(1, end, Element::OrderedList, false), Action::Close);
    assert_eq!(handle_orderedlist(1, end, Element::ItemizedList, false), Action::Reject);
    assert_eq!(handle_itemizedlist(end, Element::ItemizedList, false), Action::Close);
    assert_eq!(handle_listitem(0, end, Element::ListItem, false), Action::Close);
    assert_eq!(handle_admonition(0, end, Element::Warning, false), Action::Close);
    assert_eq!(handle_admonition(0, end, Element::Note, false), Action::Close);
    assert_eq!(handle_figure(end, Element::Figure, false), Action::Close);
    assert_eq!(handle_mediaobject(end, Element::MediaObjectCo, false), Action::Close);
    assert_eq!(handle_textobject(end, Element::TextObject), Action::Close);
    assert_eq!(handle_imageobject(end, Element::ImageObject, false), Action::Close);
    assert_eq!(handle_imageobjectco(end, Element::ImageObjectCo, false), Action::Close);
    assert_eq!(handle_areaspec(end, Element::AreaSpec), Action::Close);
    assert_eq!(handle_caption(end, Element::Caption, false), Action::Close);
}

#[test]
fn handlers_treat_text_by_their_policy() {
    let text = TokenKind::Text;
    let none = Element::Unknown;
    assert_eq!(handle_chapter(text, none, true), Action::Skip);
    assert_eq!(handle_chapter(text, none, false), Action::Reject);
    assert_eq!(handle_title(TitleKind::Bold, true, text, none), Action::TitleText);
    assert_eq!(handle_text_block(false, true, text, none), Action::Gather);
    assert_eq!(handle_code(text, none), Action::Gather);
    assert_eq!(handle_emphasis(text, none), Action::Gather);
    assert_eq!(handle_term(text, none), Action::Gather);
    assert_eq!(handle_filename(text, none), Action::AsideText);
    assert_eq!(handle_link(text, none), Action::AsideText);
    assert_eq!(handle_ulink(text, none), Action::AsideText);
    assert_eq!(handle_listitem(0, text, none, true), Action::Skip);
    assert_eq!(handle_listitem(0, text, none, false), Action::Reject);
    assert_eq!(handle_textobject(text, none), Action::Skip);
    assert_eq!(handle_areaspec(text, none), Action::Skip);
    assert_eq!(handle_text_block(false, true, TokenKind::Reference, none), Action::GatherReference);
    assert_eq!(handle_term(TokenKind::Reference, none), Action::Reject);
    assert_eq!(handle_code(TokenKind::Reference, none), Action::Reject);
    assert_eq!(handle_chapter(TokenKind::Empty, Element::Include, false), Action::Skip);
    assert_eq!(handle_imageobject(TokenKind::Empty, Element::ImageData, false), Action::Image);
    assert_eq!(handle_imageobjectco(TokenKind::Empty, Element::ImageData, false), Action::Reject);
}

#[test]
fn cross_reference_is_gathered_as_a_link() {
    let mut walker = Walker::new();
    walker.render.gather("see ");
    let tag = Token::new(TokenKind::Empty, 4, b"xref linkend=\"sect-MessageXML-tag-arg\"".to_vec());
    walker.handle_xref(&tag).unwrap();
    assert_eq!(walker.render.pending_text, "see [arg](#arg)");
    assert!(walker.render.lines.is_empty());
    let bad = Token::new(TokenKind::Empty, 4, b"xref linkend=\"sect-MessageXML-tag-none\"".to_vec());
    let error = walker.handle_xref(&bad).unwrap_err();
    assert_eq!(error.subject, b"sect-MessageXML-tag-none".to_vec());
    assert_eq!(error.trail, vec![Element::Xref]);
    assert_eq!(walker.render.pending_text, "see [arg](#arg)");
    let other = Token::new(TokenKind::Empty, 4, b"xref linkend=\"appendix-A\"".to_vec());
    assert!(walker.handle_xref(&other).is_err());
    let bare = Token::new(TokenKind::Empty, 4, b"xref".to_vec());
    assert!(walker.handle_xref(&bare).is_err());
    assert_eq!(walker.render.pending_text, "see [arg](#arg)");
    assert!(walker.render.lines.is_empty());
}

#[test]
fn image_is_written_as_a_line_of_its_own() {
    let mut walker = Walker::new();
    walker.render.write_line("before");
    walker.render.owe_blank();
    let tag = Token::new(TokenKind::Empty, 9, b"imagedata fileref=\"images/a&amp;b.png\"".to_vec());
    walker.handle_imagedata(&tag).unwrap();
    assert_eq!(walker.render.lines, vec!["before", "", "![](images/a&b.png)"]);
    assert!(walker.render.blank_owed);
}
