//! The summary builder: from the root document's include list to the book's
//! table of contents.

use crate::convert::{document_text, end_of_input, text_of};
use crate::error::{ConvertError, ErrorKind, ErrorView};
use crate::render::line_views;
use crate::text::{blank, is_blank, joined, replace, str_eq, str_replaced};
use crate::vocabulary::{classify, element_of, Element};
use crate::walker::fault_kind;
use crate::xml::{
    attribute_text, document_tokens, tokenize, views, AttributeFault, Token, TokenKind, TokenView,
};
use vstd::prelude::*;
use vstd::slice::slice_to_vec;
use vstd::string::*;
use vstd::utf8::encode_utf8;

verus! {

/// What the summary does with an included file.
pub enum Inclusion {
    /// The file is a chapter with the given title.
    Listed(Seq<char>),
    /// The file is left out: it has a fixed entry of its own, or it is no
    /// part of the book's body.
    Skipped,
    /// The file is not known.
    Unmapped,
}

/// The chapters of the book and the files that the summary leaves out. Two
/// files are left out: the foreword, whose entry heads every summary, and
/// the book's metadata, which is no part of its body. Every other file that
/// is no chapter is unmapped.
pub open spec fn inclusion(href: Seq<char>) -> Inclusion {
    if href == "Foreword.xml"@ || href == "Book_Info.xml"@ {
        Inclusion::Skipped
    } else if href == "Introduction.xml"@ {
        Inclusion::Listed("Introduction"@)
    } else if href == "Compositors.xml"@ {
        Inclusion::Listed("Types of Compositors"@)
    } else if href == "Architecture.xml"@ {
        Inclusion::Listed("Wayland Architecture"@)
    } else if href == "Protocol.xml"@ {
        Inclusion::Listed("Wayland Protocol and Model of Operation"@)
    } else if href == "Message_XML.xml"@ {
        Inclusion::Listed("Message Definition Language"@)
    } else if href == "Xwayland.xml"@ {
        Inclusion::Listed("X11 Application Support"@)
    } else if href == "Content_Updates.xml"@ {
        Inclusion::Listed("Content Updates"@)
    } else if href == "Color.xml"@ {
        Inclusion::Listed("Color management"@)
    } else {
        Inclusion::Unmapped
    }
}

/// The lines that every summary starts with.
pub open spec fn summary_head() -> Seq<Seq<char>> {
    seq!["# Summary"@, ""@, "[Foreword](Foreword.md)"@, ""@]
}

/// The list line of a chapter.
pub open spec fn summary_entry(title: Seq<char>, href: Seq<char>) -> Seq<char> {
    "- ["@ + title + "](./"@ + str_replaced(href, ".xml"@, ".md"@) + ")"@
}

/// The state of the summary builder.
pub struct SummaryView {
    /// The `book` element is open.
    pub in_book: bool,
    /// The lines written so far.
    pub lines: Seq<Seq<char>>,
}

/// What a step of the summary builder leads to.
pub enum SummaryOutcome {
    /// The builder goes on in the given state.
    Continue(SummaryView),
    /// The summary is complete.
    Finished(SummaryView),
    /// The summary fails.
    Failed(ErrorView),
}

impl SummaryView {
    /// The state before the first token: the head is written.
    pub open spec fn initial() -> SummaryView {
        SummaryView { in_book: false, lines: summary_head() }
    }

    /// The open elements, innermost first.
    pub open spec fn trail(self) -> Seq<Element> {
        if self.in_book {
            seq![Element::Book]
        } else {
            Seq::empty()
        }
    }

    /// The error for a token that is not allowed where it stands.
    pub open spec fn rejection(self, token: TokenView) -> ErrorView {
        if token.kind == TokenKind::Malformed || token.kind == TokenKind::Eof {
            ErrorView {
                kind: ErrorKind::MalformedInput,
                subject: token.content,
                trail: self.trail(),
            }
        } else if token.kind == TokenKind::Start || token.kind == TokenKind::Empty {
            ErrorView {
                kind: ErrorKind::UnrecognizedElement,
                subject: token.name(),
                trail: self.trail(),
            }
        } else {
            ErrorView {
                kind: ErrorKind::UnexpectedEvent,
                subject: token.content,
                trail: self.trail(),
            }
        }
    }

    /// An error about an include.
    pub open spec fn include_failure(self, kind: ErrorKind, subject: Seq<u8>) -> ErrorView {
        ErrorView { kind, subject, trail: seq![Element::Include] + self.trail() }
    }

    /// An include is listed, skipped or refused.
    pub open spec fn included(self, token: TokenView) -> SummaryOutcome {
        match attribute_text(token, "href"@) {
            Err(fault) => SummaryOutcome::Failed(
                self.include_failure(fault_kind(fault), encode_utf8("href"@)),
            ),
            Ok(href) => match inclusion(href) {
                Inclusion::Skipped => SummaryOutcome::Continue(self),
                Inclusion::Listed(title) => SummaryOutcome::Continue(
                    SummaryView { lines: self.lines.push(summary_entry(title, href)), ..self },
                ),
                Inclusion::Unmapped => SummaryOutcome::Failed(
                    self.include_failure(ErrorKind::UnmappedReference, encode_utf8(href)),
                ),
            },
        }
    }

    /// One step of the summary builder.
    pub open spec fn step(self, token: TokenView) -> SummaryOutcome {
        let element = element_of(token.name());
        if self.in_book {
            if token.kind == TokenKind::Empty && element == Element::Include {
                self.included(token)
            } else if token.kind == TokenKind::Text && blank(token.content) {
                SummaryOutcome::Continue(self)
            } else if token.kind == TokenKind::End && element == Element::Book {
                SummaryOutcome::Continue(SummaryView { in_book: false, ..self })
            } else {
                SummaryOutcome::Failed(self.rejection(token))
            }
        } else {
            if token.kind == TokenKind::Start && element == Element::Book {
                SummaryOutcome::Continue(SummaryView { in_book: true, ..self })
            } else if token.kind == TokenKind::Prolog {
                SummaryOutcome::Continue(self)
            } else if token.kind == TokenKind::Text && blank(token.content) {
                SummaryOutcome::Continue(self)
            } else if token.kind == TokenKind::Eof {
                SummaryOutcome::Finished(self)
            } else {
                SummaryOutcome::Failed(self.rejection(token))
            }
        }
    }
}

/// The lines of the summary that the builder writes from `tokens`, step by
/// step, up to the end of the input or the first failure.
pub open spec fn summarized(state: SummaryView, tokens: Seq<TokenView>) -> Result<
    Seq<Seq<char>>,
    ErrorView,
>
    decreases tokens.len(),
{
    if tokens.len() == 0 {
        if state.in_book {
            Err(state.rejection(end_of_input()))
        } else {
            Ok(state.lines)
        }
    } else {
        match state.step(tokens[0]) {
            SummaryOutcome::Continue(next) => summarized(next, tokens.skip(1)),
            SummaryOutcome::Finished(next) => Ok(next.lines),
            SummaryOutcome::Failed(error) => Err(error),
        }
    }
}

/// The lines of the summary of the root document that `tokens` holds.
pub open spec fn summary_lines(tokens: Seq<TokenView>) -> Result<Seq<Seq<char>>, ErrorView> {
    summarized(SummaryView::initial(), tokens)
}

/// Whether `token` is an include of the file `href`.
pub open spec fn includes(token: TokenView, href: Seq<char>) -> bool {
    &&& token.kind == TokenKind::Empty
    &&& element_of(token.name()) == Element::Include
    &&& attribute_text(token, "href"@) matches Ok(found) && found == href
}

/// The list lines of the files `hrefs`, in their order: one for each chapter,
/// none for a file that is left out.
pub open spec fn listed_entries(hrefs: Seq<Seq<char>>) -> Seq<Seq<char>>
    decreases hrefs.len(),
{
    if hrefs.len() == 0 {
        Seq::empty()
    } else {
        match inclusion(hrefs[0]) {
            Inclusion::Listed(title) => seq![summary_entry(title, hrefs[0])] + listed_entries(
                hrefs.skip(1),
            ),
            _ => listed_entries(hrefs.skip(1)),
        }
    }
}

/// The summary keeps the order of the includes: within the book, includes of
/// known files add the list lines of the chapters among them, in document
/// order, none dropped and none added, and the builder goes on behind them.
pub proof fn lemma_includes_are_listed_in_order(
    state: SummaryView,
    tokens: Seq<TokenView>,
    hrefs: Seq<Seq<char>>,
    rest: Seq<TokenView>,
)
    requires
        state.in_book,
        tokens.len() == hrefs.len(),
        forall|i: int| 0 <= i < tokens.len() ==> includes(#[trigger] tokens[i], hrefs[i]),
        forall|i: int| 0 <= i < hrefs.len() ==> !(inclusion(#[trigger] hrefs[i]) is Unmapped),
    ensures
        summarized(state, tokens + rest) == summarized(
            SummaryView { lines: state.lines + listed_entries(hrefs), ..state },
            rest,
        ),
    decreases tokens.len(),
{
    if tokens.len() == 0 {
        assert(tokens + rest =~= rest);
        assert(state.lines + listed_entries(hrefs) =~= state.lines);
    } else {
        let all = tokens + rest;
        assert(all[0] == tokens[0]);
        assert(all.skip(1) =~= tokens.skip(1) + rest);
        assert(includes(tokens[0], hrefs[0]));
        let next = match inclusion(hrefs[0]) {
            Inclusion::Listed(title) => SummaryView {
                lines: state.lines.push(summary_entry(title, hrefs[0])),
                ..state
            },
            _ => state,
        };
        assert(state.step(all[0]) == SummaryOutcome::Continue(next));
        assert forall|i: int| 0 <= i < tokens.skip(1).len() implies includes(
            #[trigger] tokens.skip(1)[i],
            hrefs.skip(1)[i],
        ) by {
            assert(includes(tokens[i + 1], hrefs[i + 1]));
        }
        assert forall|i: int| 0 <= i < hrefs.skip(1).len() implies !(inclusion(
            #[trigger] hrefs.skip(1)[i],
        ) is Unmapped) by {
            assert(!(inclusion(hrefs[i + 1]) is Unmapped));
        }
        lemma_includes_are_listed_in_order(next, tokens.skip(1), hrefs.skip(1), rest);
        assert(next.lines + listed_entries(hrefs.skip(1)) =~= state.lines + listed_entries(hrefs));
    }
}

/// The summary of a book: a root document that is one `book` element with
/// includes of known files yields the head and then the list lines of the
/// chapters among them, in document order.
pub proof fn lemma_summary_of_a_book(
    open: TokenView,
    tokens: Seq<TokenView>,
    hrefs: Seq<Seq<char>>,
    close: TokenView,
)
    requires
        open.kind == TokenKind::Start && element_of(open.name()) == Element::Book,
        close.kind == TokenKind::End && element_of(close.name()) == Element::Book,
        tokens.len() == hrefs.len(),
        forall|i: int| 0 <= i < tokens.len() ==> includes(#[trigger] tokens[i], hrefs[i]),
        forall|i: int| 0 <= i < hrefs.len() ==> !(inclusion(#[trigger] hrefs[i]) is Unmapped),
    ensures
        summary_lines(seq![open] + tokens + seq![close]) == Ok::<Seq<Seq<char>>, ErrorView>(
            summary_head() + listed_entries(hrefs),
        ),
{
    let all = seq![open] + tokens + seq![close];
    let inside = SummaryView { in_book: true, lines: summary_head() };
    assert(all[0] == open);
    assert(all.skip(1) =~= tokens + seq![close]);
    assert(SummaryView::initial().step(open) == SummaryOutcome::Continue(inside));
    lemma_includes_are_listed_in_order(inside, tokens, hrefs, seq![close]);
    let listed = SummaryView { lines: summary_head() + listed_entries(hrefs), ..inside };
    let outside = SummaryView { in_book: false, ..listed };
    assert(seq![close].skip(1) =~= Seq::<TokenView>::empty());
    assert(listed.step(close) == SummaryOutcome::Continue(outside));
    assert(summarized(outside, Seq::<TokenView>::empty()) == Ok::<Seq<Seq<char>>, ErrorView>(
        outside.lines,
    ));
}

/// The title of a chapter file, where the summary lists it.
pub fn chapter_title(href: &str) -> (title: Option<&'static str>)
    ensures
        match inclusion(href@) {
            Inclusion::Listed(t) => title matches Some(s) && s@ == t,
            _ => title is None,
        },
{
    if str_eq(href, "Foreword.xml") || str_eq(href, "Book_Info.xml") {
        None
    } else if str_eq(href, "Introduction.xml") {
        Some("Introduction")
    } else if str_eq(href, "Compositors.xml") {
        Some("Types of Compositors")
    } else if str_eq(href, "Architecture.xml") {
        Some("Wayland Architecture")
    } else if str_eq(href, "Protocol.xml") {
        Some("Wayland Protocol and Model of Operation")
    } else if str_eq(href, "Message_XML.xml") {
        Some("Message Definition Language")
    } else if str_eq(href, "Xwayland.xml") {
        Some("X11 Application Support")
    } else if str_eq(href, "Content_Updates.xml") {
        Some("Content Updates")
    } else if str_eq(href, "Color.xml") {
        Some("Color management")
    } else {
        None
    }
}

/// Whether the summary leaves a file out.
pub fn is_skipped(href: &str) -> (skipped: bool)
    ensures
        skipped == (inclusion(href@) is Skipped),
{
    str_eq(href, "Foreword.xml") || str_eq(href, "Book_Info.xml")
}

/// Writes the list line of a chapter.
pub fn entry_line(title: &str, href: &str) -> (line: String)
    ensures
        line@ == summary_entry(title@, href@),
{
    let mut line = joined("- [", title);
    line.append("](./");
    let file = replace(href, ".xml", ".md");
    line.append(file.as_str());
    line.append(")");
    line
}

fn trail_of(in_book: bool) -> (trail: Vec<Element>)
    ensures
        trail@ == (SummaryView { in_book, lines: Seq::empty() }).trail(),
{
    let mut trail: Vec<Element> = Vec::new();
    if in_book {
        trail.push(Element::Book);
    }
    trail
}

fn reject(in_book: bool, token: &Token) -> (error: ConvertError)
    ensures
        error@ == (SummaryView { in_book, lines: Seq::empty() }).rejection(token@),
{
    if token.kind == TokenKind::Malformed || token.kind == TokenKind::Eof {
        let subject = token.content.clone();
        ConvertError::new(ErrorKind::MalformedInput, subject, trail_of(in_book))
    } else if token.kind == TokenKind::Start || token.kind == TokenKind::Empty {
        ConvertError::new(
            ErrorKind::UnrecognizedElement,
            slice_to_vec(token.name()),
            trail_of(in_book),
        )
    } else {
        let subject = token.content.clone();
        ConvertError::new(ErrorKind::UnexpectedEvent, subject, trail_of(in_book))
    }
}

fn include_error(kind: ErrorKind, subject: &str) -> (error: ConvertError)
    ensures
        error@ == (SummaryView { in_book: true, lines: Seq::empty() }).include_failure(
            kind,
            encode_utf8(subject@),
        ),
{
    let mut trail: Vec<Element> = Vec::new();
    trail.push(Element::Include);
    trail.push(Element::Book);
    assert(trail@ =~= seq![Element::Include] + seq![Element::Book]);
    ConvertError::new(kind, slice_to_vec(subject.as_bytes()), trail)
}

/// Builds the lines of the summary from the tokens of the root document.
/// Tokens behind an end of input are not read; where the tokens run out
/// without one, the input ends there.
pub fn build_summary(tokens: &[Token]) -> (result: Result<Vec<String>, ConvertError>)
    ensures
        match summary_lines(views(tokens@)) {
            Ok(lines) => result matches Ok(built) && line_views(built@) == lines,
            Err(error) => result matches Err(e) && e@ == error,
        },
{
    let mut lines: Vec<String> = Vec::new();
    lines.push(String::from_str("# Summary"));
    lines.push(String::from_str(""));
    lines.push(String::from_str("[Foreword](Foreword.md)"));
    lines.push(String::from_str(""));
    assert(line_views(lines@) =~= summary_head());
    let mut in_book = false;
    let mut i: usize = 0;
    let ghost all = views(tokens@);
    assert(all.skip(0) =~= all);
    while i < tokens.len()
        invariant
            i <= tokens.len(),
            all == views(tokens@),
            summarized(SummaryView { in_book, lines: line_views(lines@) }, all.skip(i as int))
                == summary_lines(all),
        decreases tokens.len() - i,
    {
        let token = &tokens[i];
        assert(all.skip(i as int).skip(1) =~= all.skip(i + 1));
        let element = classify(token.name());
        if in_book {
            if token.kind == TokenKind::Empty && element == Element::Include {
                match token.attribute("href") {
                    Err(fault) => {
                        let kind = match fault {
                            AttributeFault::Missing => ErrorKind::MissingAttribute,
                            AttributeFault::Malformed => ErrorKind::MalformedInput,
                        };
                        return Err(include_error(kind, "href"));
                    },
                    Ok(href) => {
                        if is_skipped(href.as_str()) {
                        } else {
                            match chapter_title(href.as_str()) {
                                Some(title) => {
                                    let ghost before = line_views(lines@);
                                    let line = entry_line(title, href.as_str());
                                    lines.push(line);
                                    assert(line_views(lines@) =~= before.push(
                                        summary_entry(title@, href@),
                                    ));
                                },
                                None => {
                                    return Err(
                                        include_error(
                                            ErrorKind::UnmappedReference,
                                            href.as_str(),
                                        ),
                                    );
                                },
                            }
                        }
                    },
                }
            } else if token.kind == TokenKind::Text && is_blank(token.content.as_slice()) {
            } else if token.kind == TokenKind::End && element == Element::Book {
                in_book = false;
            } else {
                return Err(reject(in_book, token));
            }
        } else {
            if token.kind == TokenKind::Start && element == Element::Book {
                in_book = true;
            } else if token.kind == TokenKind::Prolog {
            } else if token.kind == TokenKind::Text && is_blank(token.content.as_slice()) {
            } else if token.kind == TokenKind::Eof {
                return Ok(lines);
            } else {
                return Err(reject(in_book, token));
            }
        }
        i += 1;
    }
    if in_book {
        let end = Token::new(TokenKind::Eof, 0, Vec::new());
        Err(reject(in_book, &end))
    } else {
        Ok(lines)
    }
}

/// Converts the source text of the root document into the text of the
/// summary file.
pub fn convert_summary(input: &str) -> (result: Result<String, ConvertError>)
    ensures
        match summary_lines(document_tokens(input@)) {
            Ok(lines) => result matches Ok(text) && text@ == text_of(lines),
            Err(error) => result matches Err(e) && e@ == error,
        },
{
    let tokens = tokenize(input);
    match build_summary(tokens.as_slice()) {
        Ok(lines) => Ok(document_text(&lines)),
        Err(error) => Err(error),
    }
}

} // verus!
