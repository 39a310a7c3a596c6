//! The render state: pending text, line prefixes, blank-line bookkeeping and
//! the lines emitted so far.
//!
//! A block's first line carries the current prefix, which may end in a list
//! marker; every later line carries the continuation prefix. The marker is
//! used up by the first line that is emitted after it was pushed.

use crate::text::{is_not_empty, joined, trim, trim_end, trim_end_of, trim_of};
use std::borrow::Cow;
use textwrap::{Options, WordSeparator, WordSplitter, WrapAlgorithm};
use vstd::prelude::*;
use vstd::string::*;

verus! {

/// The column budget of a wrapped line, prefix included.
pub const MAX_WIDTH: usize = 80;

/// The state of the renderer.
pub struct RenderState {
    /// The lines emitted so far, without their line ends.
    pub lines: Vec<String>,
    /// Inline content gathered since the last flush.
    pub pending_text: String,
    /// A blank line is owed before the next write.
    pub blank_owed: bool,
    /// The last emitted line was not blank.
    pub last_nonblank: bool,
    /// The current prefix ends in a marker that no line has used yet.
    pub marker_pending: bool,
    /// The prefix of the next emitted line.
    pub prefix_current: String,
    /// The prefix of the lines after it.
    pub prefix_continuation: String,
}

/// The mathematical model of a [`RenderState`].
pub struct RenderView {
    pub lines: Seq<Seq<char>>,
    pub pending_text: Seq<char>,
    pub blank_owed: bool,
    pub last_nonblank: bool,
    pub marker_pending: bool,
    pub prefix_current: Seq<char>,
    pub prefix_continuation: Seq<char>,
}

/// The views of a sequence of strings.
pub open spec fn line_views(lines: Seq<String>) -> Seq<Seq<char>> {
    lines.map_values(|line: String| line@)
}

impl View for RenderState {
    type V = RenderView;

    open spec fn view(&self) -> RenderView {
        RenderView {
            lines: line_views(self.lines@),
            pending_text: self.pending_text@,
            blank_owed: self.blank_owed,
            last_nonblank: self.last_nonblank,
            marker_pending: self.marker_pending,
            prefix_current: self.prefix_current@,
            prefix_continuation: self.prefix_continuation@,
        }
    }
}

/// The lines into which `text` is wrapped at `width` columns by greedy
/// first-fit packing of its space-separated words, none of them split or
/// hyphenated, the first line behind `initial`, the others behind
/// `subsequent`: as the textwrap crate computes them.
pub uninterp spec fn first_fit_lines(
    text: Seq<char>,
    width: nat,
    initial: Seq<char>,
    subsequent: Seq<char>,
) -> Seq<Seq<char>>;

/// The marker line that opens and closes a fenced code block.
pub open spec fn fence() -> Seq<char> {
    "```"@
}

/// `count` spaces.
pub open spec fn spaces(count: nat) -> Seq<char> {
    Seq::new(count, |i: int| ' ')
}

/// No two consecutive lines are both blank.
pub open spec fn no_blank_pair(lines: Seq<Seq<char>>) -> bool {
    forall|i: int|
        0 <= i < lines.len() - 1 ==> !(lines[i].len() == 0 && (#[trigger] lines[i + 1]).len()
            == 0)
}

/// The first `len` characters of `s`, or all of `s` where it has fewer.
pub open spec fn truncated(s: Seq<char>, len: nat) -> Seq<char> {
    if len < s.len() {
        s.take(len as int)
    } else {
        s
    }
}

impl RenderView {
    /// The state before anything was rendered.
    pub open spec fn initial() -> RenderView {
        RenderView {
            lines: Seq::empty(),
            pending_text: Seq::empty(),
            blank_owed: false,
            last_nonblank: false,
            marker_pending: false,
            prefix_current: Seq::empty(),
            prefix_continuation: Seq::empty(),
        }
    }

    /// A line was emitted behind the current prefix: a pending marker is used
    /// up, and the continuation prefix takes over.
    pub open spec fn marker_consumed(self) -> RenderView {
        if self.marker_pending {
            RenderView { marker_pending: false, prefix_current: self.prefix_continuation, ..self }
        } else {
            self
        }
    }

    /// One more line of output.
    pub open spec fn with_line(self, line: Seq<char>, nonblank: bool) -> RenderView {
        RenderView { lines: self.lines.push(line), last_nonblank: nonblank, ..self }
    }

    /// `text` emitted as one line behind the current prefix. Blank text
    /// becomes the prefix without its trailing spaces, or a blank line where
    /// nothing is left of it; a blank line behind a blank line is dropped.
    pub open spec fn emitted(self, text: Seq<char>) -> RenderView {
        let body = trim_end_of(text);
        let bare = trim_end_of(self.prefix_current);
        if body.len() > 0 {
            self.with_line(self.prefix_current + body, true).marker_consumed()
        } else if bare.len() > 0 {
            self.with_line(bare, true).marker_consumed()
        } else if self.last_nonblank {
            self.with_line(Seq::empty(), false).marker_consumed()
        } else {
            self.marker_consumed()
        }
    }

    /// An owed blank line is emitted, or dropped behind a blank line.
    pub open spec fn blank_settled(self) -> RenderView {
        if self.blank_owed {
            (RenderView { blank_owed: false, ..self }).emitted(Seq::empty())
        } else {
            self
        }
    }

    /// `text` written as a line of its own, behind an owed blank line.
    pub open spec fn written(self, text: Seq<char>) -> RenderView {
        self.blank_settled().emitted(text)
    }

    /// A blank line is owed before the next write.
    pub open spec fn owing_blank(self) -> RenderView {
        RenderView { blank_owed: true, ..self }
    }

    /// `s` gathered behind the pending text.
    pub open spec fn gathered(self, s: Seq<char>) -> RenderView {
        RenderView { pending_text: self.pending_text + s, ..self }
    }

    /// A nested block is entered: `marker` and a space are pushed onto the
    /// current prefix; onto the continuation prefix too where the block is
    /// `quoted`, else it is filled with spaces up to the text column.
    pub open spec fn indented(self, marker: Seq<char>, quoted: bool) -> RenderView {
        let s = self.blank_settled();
        let current = s.prefix_current + marker + seq![' '];
        let continuation = if quoted {
            s.prefix_continuation + marker + seq![' ']
        } else if s.prefix_continuation.len() < current.len() {
            s.prefix_continuation + spaces((current.len() - s.prefix_continuation.len()) as nat)
        } else {
            s.prefix_continuation
        };
        RenderView {
            marker_pending: true,
            prefix_current: current,
            prefix_continuation: continuation,
            ..s
        }
    }

    /// A nested block is left: both prefixes are cut back to `len` characters.
    pub open spec fn outdented(self, len: nat) -> RenderView {
        RenderView {
            prefix_current: truncated(self.prefix_current, len),
            prefix_continuation: truncated(self.prefix_continuation, len),
            ..self
        }
    }

    /// One wrapped line emitted as it is, since its prefix is part of it. A
    /// blank one goes by the rule for blank lines: it is dropped behind a
    /// blank line and before the first line.
    pub open spec fn with_wrapped_line(self, line: Seq<char>) -> RenderView {
        if line.len() > 0 {
            self.with_line(line, true).marker_consumed()
        } else if self.last_nonblank {
            self.with_line(Seq::empty(), false).marker_consumed()
        } else {
            self.marker_consumed()
        }
    }

    /// Wrapped lines emitted one by one.
    pub open spec fn with_wrapped(self, wrapped: Seq<Seq<char>>) -> RenderView
        decreases wrapped.len(),
    {
        if wrapped.len() == 0 {
            self
        } else {
            self.with_wrapped(wrapped.drop_last()).with_wrapped_line(wrapped.last())
        }
    }

    /// The lines of the pending text, wrapped behind the two prefixes.
    pub open spec fn wrapped_text(self) -> Seq<Seq<char>> {
        first_fit_lines(
            trim_of(self.pending_text),
            MAX_WIDTH as nat,
            self.prefix_current,
            self.prefix_continuation,
        )
    }

    /// The pending text wrapped and emitted, where anything is left of it
    /// after trimming.
    pub open spec fn paragraph_emitted(self) -> RenderView {
        if trim_of(self.pending_text).len() > 0 {
            self.with_wrapped(self.wrapped_text())
        } else {
            self
        }
    }

    /// The pending text flushed as a paragraph, between two fence lines where
    /// it is a code block, and cleared.
    pub open spec fn flushed(self, code_block: bool) -> RenderView {
        let settled = self.blank_settled();
        let opened = if code_block {
            settled.written(fence())
        } else {
            settled
        };
        let filled = opened.paragraph_emitted();
        let closed = if code_block {
            filled.written(fence())
        } else {
            filled
        };
        RenderView { pending_text: Seq::empty(), ..closed }
    }

    /// The first line is not blank, no two consecutive lines are both blank,
    /// and the state knows whether its last line is.
    pub open spec fn tidy(self) -> bool {
        &&& self.lines.len() > 0 ==> self.lines[0].len() > 0
        &&& no_blank_pair(self.lines)
        &&& self.last_nonblank == (self.lines.len() > 0 && self.lines.last().len() > 0)
    }

    /// The two prefixes are equally long, and equal where no marker is
    /// pending: continuation lines start in the text column.
    pub open spec fn aligned(self) -> bool {
        &&& self.prefix_current.len() == self.prefix_continuation.len()
        &&& !self.marker_pending ==> self.prefix_current == self.prefix_continuation
    }
}

/// No line that `emitted` adds makes two blank lines in a row.
pub proof fn lemma_emitted_tidy(state: RenderView, text: Seq<char>)
    requires
        state.tidy(),
    ensures
        state.emitted(text).tidy(),
{
    let next = state.emitted(text);
    assert forall|i: int| 0 <= i < next.lines.len() - 1 implies !(next.lines[i].len() == 0 && (
    #[trigger] next.lines[i + 1]).len() == 0) by {
        if i + 1 < state.lines.len() {
            assert(next.lines[i] == state.lines[i]);
            assert(next.lines[i + 1] == state.lines[i + 1]);
        }
    }
    if state.lines.len() > 0 {
        assert(next.lines[0] == state.lines[0]);
    }
}

/// Blank-line normalization: writing a line, with or without an owed blank
/// line before it, never makes two blank lines in a row, nor a blank first
/// line.
pub proof fn lemma_written_tidy(state: RenderView, text: Seq<char>)
    requires
        state.tidy(),
    ensures
        state.blank_settled().tidy(),
        state.written(text).tidy(),
{
    if state.blank_owed {
        lemma_emitted_tidy(RenderView { blank_owed: false, ..state }, Seq::empty());
    }
    lemma_emitted_tidy(state.blank_settled(), text);
}

/// Blank-line normalization: a blank line that is owed behind a blank line,
/// or before anything was written, is dropped.
pub proof fn lemma_blank_behind_blank_is_dropped(state: RenderView)
    requires
        state.blank_owed,
        !state.last_nonblank,
        trim_end_of(state.prefix_current).len() == 0,
    ensures
        state.blank_settled().lines == state.lines,
        !state.blank_settled().blank_owed,
{
    assert(trim_end_of(Seq::<char>::empty()) =~= Seq::<char>::empty());
}

/// Blank-line normalization: behind at least one line and a prefix of
/// spaces, an owed blank line leaves exactly one blank line before what
/// comes next, be it a line or a nested block: never none and never two.
pub proof fn lemma_owed_blank_separates(state: RenderView, marker: Seq<char>, quoted: bool)
    requires
        state.tidy(),
        state.blank_owed,
        state.lines.len() > 0,
        trim_end_of(state.prefix_current).len() == 0,
    ensures
        ({
            let settled = state.blank_settled();
            &&& settled.tidy()
            &&& settled.lines.last().len() == 0
            &&& settled.lines.len() >= 2
            &&& settled.lines[settled.lines.len() - 2].len() > 0
            &&& settled.lines == if state.last_nonblank {
                state.lines.push(Seq::empty())
            } else {
                state.lines
            }
            &&& state.indented(marker, quoted).lines == settled.lines
        }),
{
    lemma_written_tidy(state, Seq::empty());
    assert(trim_end_of(Seq::<char>::empty()) =~= Seq::<char>::empty());
    let settled = state.blank_settled();
    if !state.last_nonblank {
        assert(state.lines.last().len() == 0);
        assert(state.lines.len() >= 2);
        assert(state.lines[state.lines.len() - 2 + 1].len() == 0);
    }
}

/// A wrapped line never makes two blank lines in a row.
pub proof fn lemma_wrapped_line_tidy(state: RenderView, line: Seq<char>)
    requires
        state.tidy(),
    ensures
        state.with_wrapped_line(line).tidy(),
{
    let next = state.with_wrapped_line(line);
    assert forall|i: int| 0 <= i < next.lines.len() - 1 implies !(next.lines[i].len() == 0 && (
    #[trigger] next.lines[i + 1]).len() == 0) by {
        if i + 1 < state.lines.len() {
            assert(next.lines[i] == state.lines[i]);
            assert(next.lines[i + 1] == state.lines[i + 1]);
        }
    }
    if state.lines.len() > 0 {
        assert(next.lines[0] == state.lines[0]);
    }
}

/// Blank-line normalization: wrapped lines never make two blank lines in a
/// row, whatever the wrapping yields.
pub proof fn lemma_wrapped_tidy(state: RenderView, wrapped: Seq<Seq<char>>)
    requires
        state.tidy(),
    ensures
        state.with_wrapped(wrapped).tidy(),
    decreases wrapped.len(),
{
    if wrapped.len() > 0 {
        lemma_wrapped_tidy(state, wrapped.drop_last());
        lemma_wrapped_line_tidy(state.with_wrapped(wrapped.drop_last()), wrapped.last());
    }
}

/// Blank-line normalization: a flush never makes two blank lines in a row.
pub proof fn lemma_flushed_tidy(state: RenderView, code_block: bool)
    requires
        state.tidy(),
    ensures
        state.flushed(code_block).tidy(),
{
    let settled = state.blank_settled();
    lemma_written_tidy(state, Seq::empty());
    let opened = if code_block {
        settled.written(fence())
    } else {
        settled
    };
    if code_block {
        lemma_written_tidy(settled, fence());
    }
    let filled = opened.paragraph_emitted();
    lemma_wrapped_tidy(opened, opened.wrapped_text());
    if code_block {
        lemma_written_tidy(filled, fence());
    }
}

/// Wrapped lines are added behind the lines that are there, and change
/// neither the continuation prefix nor what is owed or pending.
pub proof fn lemma_wrapped_extends(state: RenderView, wrapped: Seq<Seq<char>>)
    ensures
        state.lines.is_prefix_of(state.with_wrapped(wrapped).lines),
        state.with_wrapped(wrapped).prefix_continuation == state.prefix_continuation,
        state.with_wrapped(wrapped).blank_owed == state.blank_owed,
        state.with_wrapped(wrapped).pending_text == state.pending_text,
        state.aligned() ==> state.with_wrapped(wrapped).aligned(),
    decreases wrapped.len(),
{
    if wrapped.len() > 0 {
        lemma_wrapped_extends(state, wrapped.drop_last());
    }
}

/// The fence marker does not end in whitespace.
pub proof fn lemma_fence_is_not_blank()
    ensures
        trim_end_of(fence()) == fence(),
        fence().len() == 3,
{
    reveal_strlit("```");
    assert(fence().last() == '`');
}

/// Fences are balanced: a code block is flushed as one fence line behind the
/// prefix, then the wrapped lines of the pending text, then one more fence
/// line behind the prefix.
pub proof fn lemma_code_block_fenced(state: RenderView)
    ensures
        ({
            let settled = state.blank_settled();
            let opened = settled.written(fence());
            let filled = opened.paragraph_emitted();
            &&& opened.lines == settled.lines.push(settled.prefix_current + fence())
            &&& filled == if trim_of(state.pending_text).len() > 0 {
                opened.with_wrapped(opened.wrapped_text())
            } else {
                opened
            }
            &&& opened.lines.is_prefix_of(filled.lines)
            &&& state.flushed(true).lines == filled.lines.push(filled.prefix_current + fence())
        }),
{
    lemma_fence_is_not_blank();
    let settled = state.blank_settled();
    let opened = settled.written(fence());
    let filled = opened.paragraph_emitted();
    lemma_wrapped_extends(opened, opened.wrapped_text());
    assert(!settled.blank_owed);
    assert(!filled.blank_owed);
}

/// Entering a block keeps the prefixes aligned.
pub proof fn lemma_indented_aligned(state: RenderView, marker: Seq<char>, quoted: bool)
    requires
        state.aligned(),
    ensures
        state.blank_settled().aligned(),
        state.indented(marker, quoted).aligned(),
{
}

/// Leaving a block keeps the prefixes aligned.
pub proof fn lemma_outdented_aligned(state: RenderView, len: nat)
    requires
        state.aligned(),
    ensures
        state.outdented(len).aligned(),
{
}

/// Writing and flushing keep the prefixes aligned, and leave the
/// continuation prefix as it is.
pub proof fn lemma_written_aligned(state: RenderView, text: Seq<char>, code_block: bool)
    requires
        state.aligned(),
    ensures
        state.emitted(text).aligned(),
        state.written(text).aligned(),
        state.flushed(code_block).aligned(),
        state.emitted(text).prefix_continuation == state.prefix_continuation,
        state.written(text).prefix_continuation == state.prefix_continuation,
        state.flushed(code_block).prefix_continuation == state.prefix_continuation,
{
    let settled = state.blank_settled();
    let opened = if code_block {
        settled.written(fence())
    } else {
        settled
    };
    lemma_wrapped_extends(opened, opened.wrapped_text());
}

/// Indentation is a stack: where the prefixes are aligned, leaving a block
/// at once gives back both as they were when it was entered.
pub proof fn lemma_outdent_restores(state: RenderView, marker: Seq<char>, quoted: bool)
    requires
        state.aligned(),
    ensures
        ({
            let entered = state.blank_settled();
            let left = state.indented(marker, quoted).outdented(entered.prefix_current.len());
            &&& left.prefix_current == entered.prefix_current
            &&& left.prefix_continuation == entered.prefix_continuation
        }),
{
    let entered = state.blank_settled();
    let inside = state.indented(marker, quoted);
    let len = entered.prefix_current.len();
    assert(inside.prefix_current.take(len as int) =~= entered.prefix_current);
    assert(inside.prefix_continuation.take(len as int) =~= entered.prefix_continuation);
}

/// `textwrap::wrap` with first-fit wrapping, words separated by ASCII spaces,
/// none of them broken or hyphenated, and the two indents given. Nothing is
/// claimed of the lines but that they depend on the four arguments alone.
#[verifier::external_body]
fn wrap_first_fit(text: &str, width: usize, initial: &str, subsequent: &str) -> (lines: Vec<String>)
    ensures
        line_views(lines@) == first_fit_lines(text@, width as nat, initial@, subsequent@),
{
    let options = Options::new(width)
        .break_words(false)
        .wrap_algorithm(WrapAlgorithm::FirstFit)
        .word_separator(WordSeparator::AsciiSpace)
        .word_splitter(WordSplitter::NoHyphenation)
        .initial_indent(initial)
        .subsequent_indent(subsequent);
    textwrap::wrap(text, options).into_iter().map(Cow::into_owned).collect()
}

/// The first `len` characters of `s`, or all of `s` where it has fewer.
pub fn truncate(s: &String, len: usize) -> (r: String)
    ensures
        r@ == truncated(s@, len as nat),
{
    if len < s.as_str().unicode_len() {
        String::from_str(s.as_str().substring_char(0, len))
    } else {
        s.clone()
    }
}

impl RenderState {
    /// The state before anything was rendered.
    pub fn new() -> (state: RenderState)
        ensures
            state@ == RenderView::initial(),
    {
        let state = RenderState {
            lines: Vec::new(),
            pending_text: String::new(),
            blank_owed: false,
            last_nonblank: false,
            marker_pending: false,
            prefix_current: String::new(),
            prefix_continuation: String::new(),
        };
        assert(state@.lines =~= Seq::empty());
        state
    }

    fn push_line(&mut self, line: String, nonblank: bool)
        ensures
            final(self)@ == old(self)@.with_line(line@, nonblank),
    {
        self.lines.push(line);
        self.last_nonblank = nonblank;
        assert(line_views(self.lines@) =~= line_views(old(self).lines@).push(line@));
    }

    /// A line was emitted behind the current prefix: a pending marker is used
    /// up.
    pub fn consume_marker(&mut self)
        ensures
            final(self)@ == old(self)@.marker_consumed(),
    {
        if self.marker_pending {
            self.marker_pending = false;
            self.prefix_current = self.prefix_continuation.clone();
        }
    }

    fn emit(&mut self, text: &str)
        ensures
            final(self)@ == old(self)@.emitted(text@),
    {
        let body = trim_end(text);
        if is_not_empty(body) {
            let line = joined(self.prefix_current.as_str(), body);
            self.push_line(line, true);
        } else {
            let bare = String::from_str(trim_end(self.prefix_current.as_str()));
            if is_not_empty(bare.as_str()) {
                self.push_line(bare, true);
            } else if self.last_nonblank {
                self.push_line(String::new(), false);
            }
        }
        self.consume_marker();
    }

    /// Emits an owed blank line, unless the last line is blank already.
    pub fn settle_blank(&mut self)
        ensures
            final(self)@ == old(self)@.blank_settled(),
    {
        if self.blank_owed {
            self.blank_owed = false;
            self.emit("");
            proof {
                reveal_strlit("");
                assert(""@ =~= Seq::<char>::empty());
            }
        }
    }

    /// Writes `text` as a line of its own behind the current prefix.
    pub fn write_line(&mut self, text: &str)
        ensures
            final(self)@ == old(self)@.written(text@),
    {
        self.settle_blank();
        self.emit(text);
    }

    /// Asks for a blank line before the next write.
    pub fn owe_blank(&mut self)
        ensures
            final(self)@ == old(self)@.owing_blank(),
    {
        self.blank_owed = true;
    }

    /// Gathers `s` behind the pending text.
    pub fn gather(&mut self, s: &str)
        ensures
            final(self)@ == old(self)@.gathered(s@),
    {
        self.pending_text.append(s);
    }

    /// Enters a nested block behind `marker`. Returns the length of the
    /// current prefix before the marker was pushed.
    pub fn push_indent(&mut self, marker: &str, quoted: bool) -> (len: usize)
        ensures
            final(self)@ == old(self)@.indented(marker@, quoted),
            len == old(self)@.blank_settled().prefix_current.len(),
    {
        self.settle_blank();
        let len = self.prefix_current.as_str().unicode_len();
        self.marker_pending = true;
        self.prefix_current.append(marker);
        self.prefix_current.append(" ");
        proof {
            reveal_strlit(" ");
            assert(" "@ =~= seq![' ']);
        }
        if quoted {
            self.prefix_continuation.append(marker);
            self.prefix_continuation.append(" ");
        } else {
            let target = self.prefix_current.as_str().unicode_len();
            let mut have = self.prefix_continuation.as_str().unicode_len();
            let ghost start = self.prefix_continuation@;
            let ghost base = self@;
            while have < target
                invariant
                    have == self.prefix_continuation@.len(),
                    start.len() <= have,
                    have <= target || start.len() == have,
                    self.prefix_continuation@ == start + spaces((have - start.len()) as nat),
                    self@ == (RenderView { prefix_continuation: self.prefix_continuation@, ..base }),
                    " "@ == seq![' '],
                decreases target - have,
            {
                self.prefix_continuation.append(" ");
                have += 1;
                assert(self.prefix_continuation@ =~= start + spaces((have - start.len()) as nat));
            }
            assert(self.prefix_continuation@ =~= start + spaces((have - start.len()) as nat));
            assert(start + spaces(0) =~= start);
        }
        len
    }

    /// Leaves a nested block: cuts both prefixes back to `len` characters.
    pub fn pop_indent(&mut self, len: usize)
        ensures
            final(self)@ == old(self)@.outdented(len as nat),
    {
        self.prefix_current = truncate(&self.prefix_current, len);
        self.prefix_continuation = truncate(&self.prefix_continuation, len);
    }

    /// Emits wrapped lines one by one, each as it is; a blank one goes by
    /// the rule for blank lines.
    pub fn emit_wrapped(&mut self, wrapped: &Vec<String>)
        ensures
            final(self)@ == old(self)@.with_wrapped(line_views(wrapped@)),
    {
        let mut i: usize = 0;
        assert(line_views(wrapped@).take(0) =~= Seq::<Seq<char>>::empty());
        while i < wrapped.len()
            invariant
                i <= wrapped.len(),
                self@ == old(self)@.with_wrapped(line_views(wrapped@).take(i as int)),
            decreases wrapped.len() - i,
        {
            let line = wrapped[i].clone();
            if is_not_empty(line.as_str()) {
                self.push_line(line, true);
            } else if self.last_nonblank {
                self.push_line(String::new(), false);
            }
            self.consume_marker();
            i += 1;
            proof {
                let done = line_views(wrapped@).take(i as int);
                assert(done.drop_last() =~= line_views(wrapped@).take(i - 1));
                assert(done.last() == wrapped[i - 1]@);
            }
        }
        assert(line_views(wrapped@).take(i as int) =~= line_views(wrapped@));
    }

    fn emit_paragraph(&mut self)
        ensures
            final(self)@ == old(self)@.paragraph_emitted(),
    {
        let trimmed = trim(self.pending_text.as_str());
        if is_not_empty(trimmed) {
            let wrapped = wrap_first_fit(
                trimmed,
                MAX_WIDTH,
                self.prefix_current.as_str(),
                self.prefix_continuation.as_str(),
            );
            self.emit_wrapped(&wrapped);
        }
    }

    /// Flushes the pending text as a wrapped paragraph, between two fence
    /// lines where it is a code block, and clears it.
    pub fn flush_text(&mut self, code_block: bool)
        ensures
            final(self)@ == old(self)@.flushed(code_block),
    {
        self.settle_blank();
        if code_block {
            self.write_line("```");
        }
        self.emit_paragraph();
        if code_block {
            self.write_line("```");
        }
        self.pending_text = String::new();
    }
}

} // verus!
