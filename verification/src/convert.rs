//! Whole documents: from a chapter's tokens, or its source text, to Markdown.

use crate::error::{ConvertError, ErrorView};
use crate::render::line_views;
use crate::render::no_blank_pair;
use crate::walker::{
    lemma_step_aligned, lemma_step_sound, lemma_step_tidy, Outcome, Step, Walker, WalkerView,
};
use crate::xml::{document_tokens, tokenize, views, Token, TokenKind, TokenView};
use vstd::prelude::*;
use vstd::string::*;

verus! {

/// The text of a file made of `lines`, each followed by a line feed.
pub open spec fn text_of(lines: Seq<Seq<char>>) -> Seq<char>
    decreases lines.len(),
{
    if lines.len() == 0 {
        Seq::empty()
    } else {
        text_of(lines.drop_last()) + lines.last() + seq!['\n']
    }
}

/// The end of the input, as a token.
pub open spec fn end_of_input() -> TokenView {
    TokenView { kind: TokenKind::Eof, name_len: 0, content: Seq::empty() }
}

/// What the walker has rendered when the tokens run out: the document is
/// complete if no element is open.
pub open spec fn ended(walker: WalkerView) -> Result<Seq<Seq<char>>, ErrorView> {
    if walker.frames.len() == 0 {
        Ok(walker.render.lines)
    } else {
        Err(walker.rejection(end_of_input()))
    }
}

/// The lines that the walker renders from `tokens`, step by step, up to the
/// end of the input or the first failure.
pub open spec fn run(walker: WalkerView, tokens: Seq<TokenView>) -> Result<
    Seq<Seq<char>>,
    ErrorView,
>
    decreases tokens.len(),
{
    if tokens.len() == 0 {
        ended(walker)
    } else {
        match walker.step(tokens[0]) {
            Outcome::Continue(next) => run(next, tokens.skip(1)),
            Outcome::Finished(next) => Ok(next.render.lines),
            Outcome::Failed(error) => Err(error),
        }
    }
}

/// The Markdown lines of the chapter or preface that `tokens` holds.
pub open spec fn rendered_chapter(tokens: Seq<TokenView>) -> Result<Seq<Seq<char>>, ErrorView> {
    run(WalkerView::initial(), tokens)
}

/// The state of the walker once it has taken all of `tokens`; `None` where
/// it fails or finishes before.
pub open spec fn after(walker: WalkerView, tokens: Seq<TokenView>) -> Option<WalkerView>
    decreases tokens.len(),
{
    if tokens.len() == 0 {
        Some(walker)
    } else {
        match walker.step(tokens[0]) {
            Outcome::Continue(next) => after(next, tokens.skip(1)),
            _ => None,
        }
    }
}

/// The walker starts out sound, aligned, nested and tidy.
pub proof fn lemma_initial_state()
    ensures
        WalkerView::initial().wf(),
        WalkerView::initial().nested(),
        WalkerView::initial().render.aligned(),
        WalkerView::initial().render.tidy(),
{
}

/// Every state that the walker reaches is sound, and its prefixes are
/// aligned, however many tokens it has taken.
pub proof fn lemma_reached_state_is_sound(walker: WalkerView, tokens: Seq<TokenView>)
    requires
        walker.wf(),
        walker.render.aligned(),
        walker.steps + tokens.len() <= usize::MAX,
    ensures
        after(walker, tokens) matches Some(state) ==> state.wf() && state.render.aligned(),
    decreases tokens.len(),
{
    if tokens.len() > 0 {
        lemma_step_sound(walker, tokens[0]);
        lemma_step_aligned(walker, tokens[0]);
        if let Outcome::Continue(next) = walker.step(tokens[0]) {
            lemma_reached_state_is_sound(next, tokens.skip(1));
        }
    }
}

/// Blank-line normalization, for whole documents: the first line of a
/// rendered document is not blank, and no two consecutive lines of it are
/// both blank.
pub proof fn lemma_rendered_lines_are_tidy(walker: WalkerView, tokens: Seq<TokenView>)
    requires
        walker.render.tidy(),
    ensures
        run(walker, tokens) matches Ok(lines) ==> no_blank_pair(lines) && (lines.len() > 0
            ==> lines[0].len() > 0),
    decreases tokens.len(),
{
    if tokens.len() > 0 {
        lemma_step_tidy(walker, tokens[0]);
        if let Outcome::Continue(next) = walker.step(tokens[0]) {
            lemma_rendered_lines_are_tidy(next, tokens.skip(1));
        }
    }
}

/// Blank-line normalization, for every chapter: whatever the tokens, the
/// lines of a rendered chapter start with a line that is not blank and hold
/// no two blank lines in a row.
pub proof fn lemma_chapter_is_tidy(tokens: Seq<TokenView>)
    ensures
        rendered_chapter(tokens) matches Ok(lines) ==> no_blank_pair(lines) && (lines.len() > 0
            ==> lines[0].len() > 0),
{
    lemma_initial_state();
    lemma_rendered_lines_are_tidy(WalkerView::initial(), tokens);
}

/// Joins `lines` into the text of a file, each line followed by a line feed.
pub fn document_text(lines: &Vec<String>) -> (text: String)
    ensures
        text@ == text_of(line_views(lines@)),
{
    let mut text = String::new();
    let mut i: usize = 0;
    proof {
        reveal_strlit("\n");
    }
    while i < lines.len()
        invariant
            i <= lines.len(),
            text@ == text_of(line_views(lines@).take(i as int)),
            "\n"@ == seq!['\n'],
        decreases lines.len() - i,
    {
        text.append(lines[i].as_str());
        text.append("\n");
        i += 1;
        proof {
            let done = line_views(lines@).take(i as int);
            assert(done.drop_last() =~= line_views(lines@).take(i - 1));
        }
    }
    assert(line_views(lines@).take(i as int) =~= line_views(lines@));
    text
}

/// Renders the chapter or preface that `tokens` hold into Markdown lines.
/// Tokens behind an end of input are not read; where the tokens run out
/// without one, the input ends there.
pub fn render_chapter(tokens: &[Token]) -> (result: Result<Vec<String>, ConvertError>)
    ensures
        match rendered_chapter(views(tokens@)) {
            Ok(lines) => result matches Ok(rendered) && line_views(rendered@) == lines,
            Err(error) => result matches Err(e) && e@ == error,
        },
{
    let mut walker = Walker::new();
    let mut i: usize = 0;
    let ghost all = views(tokens@);
    assert(all.skip(0) =~= all);
    while i < tokens.len()
        invariant
            i <= tokens.len(),
            all == views(tokens@),
            walker@.wf(),
            walker.steps <= i,
            run(walker@, all.skip(i as int)) == rendered_chapter(all),
        decreases tokens.len() - i,
    {
        assert(all.skip(i as int)[0] == tokens[i as int]@);
        assert(all.skip(i as int).skip(1) =~= all.skip(i + 1));
        match walker.step(&tokens[i]) {
            Ok(Step::Continue) => {
                i += 1;
            },
            Ok(Step::Finished) => {
                return Ok(walker.render.lines);
            },
            Err(error) => {
                return Err(error);
            },
        }
    }
    if walker.frames.len() == 0 {
        Ok(walker.render.lines)
    } else {
        let end = Token::new(TokenKind::Eof, 0, Vec::new());
        Err(walker.reject(&end))
    }
}

/// Converts the source text of a chapter or preface into the text of its
/// Markdown file.
pub fn convert_chapter(input: &str) -> (result: Result<String, ConvertError>)
    ensures
        match rendered_chapter(document_tokens(input@)) {
            Ok(lines) => result matches Ok(text) && text@ == text_of(lines),
            Err(error) => result matches Err(e) && e@ == error,
        },
{
    let tokens = tokenize(input);
    match render_chapter(tokens.as_slice()) {
        Ok(lines) => Ok(document_text(&lines)),
        Err(error) => Err(error),
    }
}

} // verus!
