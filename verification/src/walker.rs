//! The walk over block structure and inline markup, as one
//! pushdown machine over the event stream.
//!
//! The machine keeps a stack of frames, one for each element that is open and
//! has a handler. For each token it first decides, from the innermost frame
//! and the token alone, what kind of step to take: that decision is the
//! dialect's grammar, stated as tables of the children, the closing tags and
//! the text that each handler admits, and computed by one function for each
//! handler. It then carries the step out on the render state.

use crate::error::{ConvertError, ErrorKind, ErrorView};
use crate::links::{
    link_markup, markup, resolve_link, resolved_link, source_base,
};
use crate::render::{
    lemma_flushed_tidy, lemma_indented_aligned, lemma_outdented_aligned, lemma_written_aligned,
    lemma_written_tidy,
    RenderState, RenderView,
};
use crate::text::{
    blank, collapse_whitespace, decimal, decimal_digits, is_blank, joined, runs_collapsed, trim,
    trim_of,
};
use crate::vocabulary::{classify, element_of, Element};
use crate::xml::{attribute_text, decoded, AttributeFault, Token, TokenKind, TokenView};
use vstd::prelude::*;
use vstd::slice::slice_to_vec;
use vstd::string::*;
use vstd::utf8::encode_utf8;

verus! {

/// What kind of heading a title becomes.
#[derive(Clone, Copy, Debug, PartialEq, Eq, Structural)]
pub enum TitleKind {
    /// The title of a chapter: a level-one heading.
    Chapter,
    /// The title of a section nested `depth` sections deep, counted from 0.
    Section { depth: usize },
    /// The title of a list or figure: a bold line.
    Bold,
}

/// What kind of list an item belongs to.
#[derive(Clone, Copy, Debug, PartialEq, Eq, Structural)]
pub enum ListKind {
    /// An item of a bulleted list.
    Bullet,
    /// An item of a numbered list, with its ordinal.
    Numbered { ordinal: usize },
    /// The definition of a term.
    Definition,
}

/// What an entry of a definition list awaits: exactly one term, then exactly
/// one definition, then its end.
#[derive(Clone, Copy, Debug, PartialEq, Eq, Structural)]
pub enum Awaited {
    /// The term.
    Term,
    /// The list item that defines the term.
    Item,
    /// The closing tag.
    End,
}

impl Awaited {
    /// What is awaited once this has come.
    pub open spec fn following(self) -> Awaited {
        match self {
            Awaited::Term => Awaited::Item,
            _ => Awaited::End,
        }
    }

    /// What is awaited once this has come.
    pub fn next(self) -> (following: Awaited)
        ensures
            following == self.following(),
    {
        match self {
            Awaited::Term => Awaited::Item,
            _ => Awaited::End,
        }
    }
}

/// The handler of an open element, with what it remembers.
#[derive(Clone, Copy, Debug, PartialEq, Eq, Structural)]
pub enum Frame {
    /// No element is open.
    Document,
    /// A chapter or preface.
    Chapter,
    /// A section nested `depth` sections deep, counted from 0.
    Section { depth: usize },
    /// A title; `first` until its first text has been read.
    Title { kind: TitleKind, first: bool },
    /// Running text. Flushed as a fenced block if `code_block`; followed by a
    /// blank line if `paragraph`.
    TextBlock { code_block: bool, paragraph: bool },
    /// Inline code, between backticks.
    Code,
    /// Emphasised text, between underscores.
    Emphasis,
    /// The name of a source file, which links to the file.
    Filename,
    /// A link to an identifier, with its own text.
    Link,
    /// A link to a URL, with its own text.
    Ulink,
    /// A list of terms and definitions.
    VariableList,
    /// One term with its definition, and what the entry awaits next.
    VarListEntry { awaits: Awaited },
    /// The term of a definition, flushed as a paragraph of its own.
    Term,
    /// A numbered list, with the ordinal of its next item.
    OrderedList { next: usize },
    /// A bulleted list.
    ItemizedList,
    /// A list item, with the length of the prefix to return to.
    ListItem { saved: usize },
    /// A note or warning, with the length of the prefix to return to.
    Admonition { saved: usize },
    /// A figure: a bold title and media objects.
    Figure,
    /// A media object, with or without callouts.
    MediaObject,
    /// The textual alternative of a media object, which is skipped.
    TextObject,
    /// The image of a media object.
    ImageObject,
    /// An image with callouts.
    ImageObjectCo,
    /// The callout areas of an image, which are skipped.
    AreaSpec,
    /// The caption of a media object.
    Caption,
}

/// One open element: its handler and its name.
#[derive(Clone, Copy, Debug, PartialEq, Eq, Structural)]
pub struct Entry {
    pub frame: Frame,
    pub element: Element,
}

/// What the machine does with a token.
#[derive(Clone, Copy, Debug, PartialEq, Eq, Structural)]
pub enum Action {
    /// Nothing.
    Skip,
    /// Enter the element with the given handler.
    Open { frame: Frame },
    /// Flush the pending text as a paragraph of its own, then enter the
    /// element.
    FlushAndOpen { frame: Frame },
    /// Leave the innermost element.
    Close,
    /// Gather the text, its whitespace collapsed.
    Gather,
    /// Gather the name of the reference as it stands.
    GatherReference,
    /// Gather the trimmed text of a title.
    TitleText,
    /// Gather the text of a link or file name, its whitespace collapsed.
    AsideText,
    /// Render a cross-reference.
    CrossReference,
    /// Render an image.
    Image,
    /// The document is complete.
    Finish,
    /// The token is not allowed here.
    Reject,
}

/// Whether the conversion goes on.
#[derive(Clone, Copy, Debug, PartialEq, Eq, Structural)]
pub enum Step {
    /// The walker waits for the next token.
    Continue,
    /// The document is complete.
    Finished,
}

/// What a handler does with the text between tags.
#[derive(Clone, Copy, Debug, PartialEq, Eq, Structural)]
pub enum TextPolicy {
    /// Only blank text is allowed, and it is skipped.
    BlankOnly,
    /// Text is gathered into the pending text, its whitespace collapsed.
    Running,
    /// Text is gathered as the text of a title.
    Heading,
    /// Text is gathered aside, as the text of a link or file name.
    Aside,
    /// Text is skipped together with everything else.
    Ignored,
}

/// A paragraph of running text.
pub open spec fn paragraph() -> Frame {
    Frame::TextBlock { code_block: false, paragraph: true }
}

/// A code listing on its own.
pub open spec fn listing() -> Frame {
    Frame::TextBlock { code_block: true, paragraph: true }
}

/// Whether `element` is one of the synonyms for inline code.
pub open spec fn is_code(element: Element) -> bool {
    element == Element::Code || element == Element::Literal || element == Element::VarName
        || element == Element::UserInput || element == Element::Type || element
        == Element::Function || element == Element::SystemItem
}

/// Whether `element` is a media object, with or without callouts.
pub open spec fn is_media(element: Element) -> bool {
    element == Element::MediaObject || element == Element::MediaObjectCo
}

/// Whether `element` is a paragraph within a list item or admonition.
pub open spec fn is_item_paragraph(element: Element) -> bool {
    element == Element::SimPara || element == Element::Para
}

/// The vocabulary: the handler that an element gets as a child of the
/// element handled by `frame`; `None` where `frame` admits no such child.
pub open spec fn child(frame: Frame, element: Element) -> Option<Frame> {
    match frame {
        Frame::Document => if element == Element::Preface || element == Element::Chapter {
            Some(Frame::Chapter)
        } else {
            None
        },
        Frame::Chapter => match element {
            Element::Title => Some(Frame::Title { kind: TitleKind::Chapter, first: true }),
            Element::LiteralLayout | Element::Para => Some(paragraph()),
            Element::Section => Some(Frame::Section { depth: 0 }),
            _ => None,
        },
        Frame::Section { depth } => match element {
            Element::Section => Some(Frame::Section { depth: (depth + 1) as usize }),
            Element::Title => Some(Frame::Title { kind: TitleKind::Section { depth }, first: true }),
            Element::Synopsis => Some(listing()),
            Element::Para => Some(paragraph()),
            Element::OrderedList => Some(Frame::OrderedList { next: 1 }),
            Element::ItemizedList => Some(Frame::ItemizedList),
            Element::Figure => Some(Frame::Figure),
            Element::VariableList => Some(Frame::VariableList),
            Element::MediaObject | Element::MediaObjectCo => Some(Frame::MediaObject),
            _ => None,
        },
        Frame::TextBlock { .. } => match element {
            Element::Synopsis => Some(listing()),
            Element::Emphasis | Element::FirstTerm => Some(Frame::Emphasis),
            Element::Filename => Some(Frame::Filename),
            Element::Ulink => Some(Frame::Ulink),
            Element::Link => Some(Frame::Link),
            Element::ItemizedList => Some(Frame::ItemizedList),
            Element::OrderedList => Some(Frame::OrderedList { next: 1 }),
            Element::VariableList => Some(Frame::VariableList),
            _ => if is_code(element) {
                Some(Frame::Code)
            } else {
                None
            },
        },
        Frame::VariableList => match element {
            Element::Title => Some(Frame::Title { kind: TitleKind::Bold, first: true }),
            Element::VarListEntry => Some(Frame::VarListEntry { awaits: Awaited::Term }),
            _ => None,
        },
        Frame::VarListEntry { awaits } => if element == Element::Term && awaits == Awaited::Term {
            Some(Frame::Term)
        } else if element == Element::ListItem && awaits == Awaited::Item {
            Some(Frame::ListItem { saved: 0 })
        } else {
            None
        },
        Frame::Term => match element {
            Element::Literal => Some(Frame::Code),
            Element::Synopsis => Some(Frame::TextBlock { code_block: false, paragraph: false }),
            _ => None,
        },
        Frame::OrderedList { .. } | Frame::ItemizedList => if element == Element::ListItem {
            Some(Frame::ListItem { saved: 0 })
        } else {
            None
        },
        Frame::ListItem { .. } => match element {
            Element::Warning | Element::Note => Some(Frame::Admonition { saved: 0 }),
            Element::VariableList => Some(Frame::VariableList),
            _ => if is_item_paragraph(element) {
                Some(paragraph())
            } else {
                None
            },
        },
        Frame::Admonition { .. } => if is_item_paragraph(element) {
            Some(paragraph())
        } else {
            None
        },
        Frame::Figure => if element == Element::Title {
            Some(Frame::Title { kind: TitleKind::Bold, first: true })
        } else if is_media(element) {
            Some(Frame::MediaObject)
        } else {
            None
        },
        Frame::MediaObject => match element {
            Element::TextObject => Some(Frame::TextObject),
            Element::ImageObject => Some(Frame::ImageObject),
            Element::ImageObjectCo => Some(Frame::ImageObjectCo),
            Element::Caption => Some(Frame::Caption),
            _ => None,
        },
        Frame::ImageObject => if element == Element::AreaSpec {
            Some(Frame::AreaSpec)
        } else {
            None
        },
        Frame::ImageObjectCo => match element {
            Element::AreaSpec => Some(Frame::AreaSpec),
            Element::ImageObject => Some(Frame::ImageObject),
            _ => None,
        },
        Frame::Caption => if element == Element::Para {
            Some(paragraph())
        } else {
            None
        },
        _ => None,
    }
}

/// The closing tags that end the element handled by `frame`.
pub open spec fn closes(frame: Frame, element: Element) -> bool {
    match frame {
        Frame::Document => false,
        Frame::Chapter => element == Element::Chapter || element == Element::Preface,
        Frame::Section { .. } => element == Element::Section,
        Frame::Title { .. } => element == Element::Title,
        Frame::TextBlock { .. } => element == Element::Para || element == Element::Synopsis
            || element == Element::SimPara || element == Element::LiteralLayout,
        Frame::Code => is_code(element),
        Frame::Emphasis => element == Element::Emphasis || element == Element::FirstTerm,
        Frame::Filename => element == Element::Filename,
        Frame::Link => element == Element::Link,
        Frame::Ulink => element == Element::Ulink,
        Frame::VariableList => element == Element::VariableList,
        Frame::VarListEntry { awaits } => awaits == Awaited::End && element
            == Element::VarListEntry,
        Frame::Term => element == Element::Term,
        Frame::OrderedList { .. } => element == Element::OrderedList,
        Frame::ItemizedList => element == Element::ItemizedList,
        Frame::ListItem { .. } => element == Element::ListItem,
        Frame::Admonition { .. } => element == Element::Warning || element == Element::Note,
        Frame::Figure => element == Element::Figure,
        Frame::MediaObject => is_media(element),
        Frame::TextObject => element == Element::TextObject,
        Frame::ImageObject => element == Element::ImageObject,
        Frame::ImageObjectCo => element == Element::ImageObjectCo,
        Frame::AreaSpec => element == Element::AreaSpec,
        Frame::Caption => element == Element::Caption,
    }
}

/// What a handler does with a self-closing tag.
pub open spec fn leaf(frame: Frame, element: Element) -> Action {
    if frame == Frame::Chapter && element == Element::Include {
        Action::Skip
    } else if frame is TextBlock && element == Element::Xref {
        Action::CrossReference
    } else if frame == Frame::ImageObject && element == Element::ImageData {
        Action::Image
    } else {
        Action::Reject
    }
}

/// What a handler does with the text between tags.
pub open spec fn text_policy(frame: Frame) -> TextPolicy {
    match frame {
        Frame::Title { .. } => TextPolicy::Heading,
        Frame::TextBlock { .. } | Frame::Code | Frame::Emphasis | Frame::Term => TextPolicy::Running,
        Frame::Filename | Frame::Link | Frame::Ulink => TextPolicy::Aside,
        Frame::TextObject | Frame::AreaSpec => TextPolicy::Ignored,
        _ => TextPolicy::BlankOnly,
    }
}

/// Whether a block of the given handler, opened within running text, makes
/// the text before it a paragraph of its own.
pub open spec fn breaks_text(parent: Frame, opened: Frame) -> bool {
    parent is TextBlock && (opened is TextBlock || opened is ItemizedList || opened is OrderedList
        || opened is VariableList)
}

/// The grammar: what the handler `frame` does with a token of the given
/// kind, whose name is that of `element` and whose content is blank or not.
///
/// A handler that ignores its content skips everything up to its own closing
/// tag. Any other handler enters the children that the vocabulary admits,
/// leaves at its closing tags, treats text by its policy, and rejects what
/// is left; references are gathered in running text only, the prolog is
/// skipped and the input may end outside every element only.
pub open spec fn decide(frame: Frame, kind: TokenKind, element: Element, is_blank: bool) -> Action {
    if text_policy(frame) == TextPolicy::Ignored {
        if kind == TokenKind::End && closes(frame, element) {
            Action::Close
        } else if kind == TokenKind::Eof || kind == TokenKind::Malformed {
            Action::Reject
        } else {
            Action::Skip
        }
    } else {
        match kind {
            TokenKind::Start => match child(frame, element) {
                Some(opened) => if breaks_text(frame, opened) {
                    Action::FlushAndOpen { frame: opened }
                } else {
                    Action::Open { frame: opened }
                },
                None => Action::Reject,
            },
            TokenKind::Empty => leaf(frame, element),
            TokenKind::End => if closes(frame, element) {
                Action::Close
            } else {
                Action::Reject
            },
            TokenKind::Text => match text_policy(frame) {
                TextPolicy::Running => Action::Gather,
                TextPolicy::Heading => Action::TitleText,
                TextPolicy::Aside => Action::AsideText,
                _ => if is_blank {
                    Action::Skip
                } else {
                    Action::Reject
                },
            },
            TokenKind::Reference => if frame is TextBlock {
                Action::GatherReference
            } else {
                Action::Reject
            },
            TokenKind::Prolog => if frame == Frame::Document {
                Action::Skip
            } else {
                Action::Reject
            },
            TokenKind::Eof => if frame == Frame::Document {
                Action::Finish
            } else {
                Action::Reject
            },
            _ => Action::Reject,
        }
    }
}


/// `count` number signs.
pub open spec fn hashes(count: nat) -> Seq<char> {
    Seq::new(count, |i: int| '#')
}

/// What a title starts with.
pub open spec fn heading(kind: TitleKind) -> Seq<char> {
    match kind {
        TitleKind::Chapter => "# "@,
        TitleKind::Section { depth } => "##"@ + hashes(depth as nat) + " "@,
        TitleKind::Bold => "**"@,
    }
}

/// The kind of the items of a list, by the list's handler.
pub open spec fn item_kind(list: Frame) -> ListKind {
    match list {
        Frame::OrderedList { next } => ListKind::Numbered { ordinal: next },
        Frame::VarListEntry { .. } => ListKind::Definition,
        _ => ListKind::Bullet,
    }
}

/// The marker of a list item.
pub open spec fn item_marker(kind: ListKind) -> Seq<char> {
    match kind {
        ListKind::Bullet => "-"@,
        ListKind::Numbered { ordinal } => decimal_digits(ordinal as nat) + "."@,
        ListKind::Definition => "  :"@,
    }
}

/// The first line of a note or warning.
pub open spec fn admonition_tag(element: Element) -> Seq<char> {
    if element == Element::Warning {
        "[!WARNING]"@
    } else {
        "[!NOTE]"@
    }
}

/// The Markdown of an image.
pub open spec fn image_markup(file: Seq<char>) -> Seq<char> {
    "![]("@ + file + ")"@
}

/// The kind of error that a fault of an attribute gives.
pub open spec fn fault_kind(fault: AttributeFault) -> ErrorKind {
    match fault {
        AttributeFault::Missing => ErrorKind::MissingAttribute,
        AttributeFault::Malformed => ErrorKind::MalformedInput,
    }
}

/// The state of the walker.
pub struct Walker {
    /// The open elements, outermost first.
    pub frames: Vec<Entry>,
    /// The render state, with the lines emitted so far.
    pub render: RenderState,
    /// The text of the link or file name that is being read.
    pub aside: String,
    /// The opening tag of the link that is being read.
    pub anchor: Token,
    /// How many tokens have been taken, the end of input not counted.
    pub steps: usize,
}

/// The mathematical model of a [`Walker`].
pub struct WalkerView {
    pub frames: Seq<Entry>,
    pub render: RenderView,
    pub aside: Seq<char>,
    pub anchor: TokenView,
    pub steps: nat,
}

impl View for Walker {
    type V = WalkerView;

    open spec fn view(&self) -> WalkerView {
        WalkerView {
            frames: self.frames@,
            render: self.render@,
            aside: self.aside@,
            anchor: self.anchor@,
            steps: self.steps as nat,
        }
    }
}

/// What a step leads to.
pub enum Outcome {
    /// The walker goes on in the given state.
    Continue(WalkerView),
    /// The document is complete.
    Finished(WalkerView),
    /// The conversion fails.
    Failed(ErrorView),
}

/// Whether a frame at height `index` of the stack is sound after `steps`
/// tokens: a section is no deeper than the stack, an ordinal no larger than
/// the number of tokens taken.
pub open spec fn frame_sound(frame: Frame, index: int, steps: nat) -> bool {
    match frame {
        Frame::Document => false,
        Frame::Section { depth } => depth <= index,
        Frame::OrderedList { next } => 1 <= next <= steps,
        _ => true,
    }
}

impl WalkerView {
    /// The state before the first token.
    pub open spec fn initial() -> WalkerView {
        WalkerView {
            frames: Seq::empty(),
            render: RenderView::initial(),
            aside: Seq::empty(),
            anchor: TokenView { kind: TokenKind::Other, name_len: 0, content: Seq::empty() },
            steps: 0,
        }
    }

    /// Every frame of the stack is sound, and the count of tokens fits a
    /// machine word.
    pub open spec fn wf(self) -> bool {
        &&& self.steps <= usize::MAX
        &&& forall|i: int|
            0 <= i < self.frames.len() ==> frame_sound(
                (#[trigger] self.frames[i]).frame,
                i,
                self.steps,
            )
    }

    /// The innermost handler.
    pub open spec fn top(self) -> Frame {
        if self.frames.len() == 0 {
            Frame::Document
        } else {
            self.frames.last().frame
        }
    }

    /// The open elements, innermost first.
    pub open spec fn trail(self) -> Seq<Element> {
        Seq::new(self.frames.len(), |i: int| self.frames[self.frames.len() - 1 - i].element)
    }

    /// An error that arises in the innermost element.
    pub open spec fn failure(self, kind: ErrorKind, subject: Seq<u8>) -> ErrorView {
        ErrorView { kind, subject, trail: self.trail() }
    }

    /// An error that arises in a childless `element` of the innermost element.
    pub open spec fn failure_in(
        self,
        element: Element,
        kind: ErrorKind,
        subject: Seq<u8>,
    ) -> ErrorView {
        ErrorView { kind, subject, trail: seq![element] + self.trail() }
    }

    /// The error for a token that is not allowed where it stands: markup
    /// that is not well-formed, which includes input that ends within an
    /// element; an element outside the vocabulary of its place; any other
    /// event.
    pub open spec fn rejection(self, token: TokenView) -> ErrorView {
        if token.kind == TokenKind::Malformed || token.kind == TokenKind::Eof {
            self.failure(ErrorKind::MalformedInput, token.content)
        } else if token.kind == TokenKind::Start || token.kind == TokenKind::Empty {
            self.failure(ErrorKind::UnrecognizedElement, token.name())
        } else {
            self.failure(ErrorKind::UnexpectedEvent, token.content)
        }
    }

    /// The same state with another render state.
    pub open spec fn drawing(self, render: RenderView) -> WalkerView {
        WalkerView { render, ..self }
    }

    /// One more open element.
    pub open spec fn pushed(self, frame: Frame, element: Element) -> WalkerView {
        WalkerView { frames: self.frames.push(Entry { frame, element }), ..self }
    }

    /// The innermost element is no longer open.
    pub open spec fn popped(self) -> WalkerView {
        if self.frames.len() == 0 {
            self
        } else {
            WalkerView { frames: self.frames.drop_last(), ..self }
        }
    }

    /// The innermost handler is replaced.
    pub open spec fn retopped(self, frame: Frame) -> WalkerView {
        if self.frames.len() == 0 {
            self
        } else {
            WalkerView {
                frames: self.frames.update(
                    self.frames.len() - 1,
                    Entry { frame, element: self.frames.last().element },
                ),
                ..self
            }
        }
    }

    /// One more token has been taken.
    pub open spec fn counted(self, kind: TokenKind) -> WalkerView {
        if kind == TokenKind::Eof {
            self
        } else {
            WalkerView { steps: self.steps + 1, ..self }
        }
    }

    /// The innermost element has got a child that it counts: a numbered
    /// list has handed out an ordinal, an entry of a definition list has got
    /// what it awaited.
    pub open spec fn bumped(self) -> WalkerView {
        match self.top() {
            Frame::OrderedList { next } => self.retopped(
                Frame::OrderedList { next: (next + 1) as usize },
            ),
            Frame::VarListEntry { awaits } => self.retopped(
                Frame::VarListEntry { awaits: awaits.following() },
            ),
            _ => self,
        }
    }

    /// The element of `token` is entered with the handler `frame`.
    pub open spec fn opened(self, frame: Frame, token: TokenView) -> WalkerView {
        let element = element_of(token.name());
        match frame {
            Frame::Title { kind, .. } => self.drawing(self.render.gathered(heading(kind))).pushed(
                frame,
                element,
            ),
            Frame::Code => self.drawing(self.render.gathered("`"@)).pushed(frame, element),
            Frame::Emphasis => self.drawing(self.render.gathered("_"@)).pushed(frame, element),
            Frame::Filename => (WalkerView { aside: Seq::empty(), ..self }).pushed(frame, element),
            Frame::Link | Frame::Ulink => (WalkerView {
                aside: Seq::empty(),
                anchor: token,
                ..self
            }).pushed(frame, element),
            Frame::Term => self.bumped().pushed(frame, element),
            Frame::ListItem { .. } => {
                let marker = item_marker(item_kind(self.top()));
                let saved = self.render.blank_settled().prefix_current.len() as usize;
                self.bumped().drawing(self.render.indented(marker, false)).pushed(
                    Frame::ListItem { saved },
                    element,
                )
            },
            Frame::Admonition { .. } => {
                let saved = self.render.blank_settled().prefix_current.len() as usize;
                self.drawing(
                    self.render.indented(">"@, true).written(admonition_tag(element)),
                ).pushed(Frame::Admonition { saved }, element)
            },
            _ => self.pushed(frame, element),
        }
    }

    /// The pending text is flushed as a paragraph of its own before a nested
    /// block.
    pub open spec fn interrupted(self) -> WalkerView {
        match self.top() {
            Frame::TextBlock { code_block, .. } => self.drawing(
                self.render.flushed(code_block).owing_blank(),
            ),
            _ => self,
        }
    }

    /// A link with the text gathered aside is rendered and left.
    pub open spec fn linked(self, target: Seq<char>) -> WalkerView {
        self.drawing(self.render.gathered(link_markup(trim_of(self.aside), target))).popped()
    }

    /// The innermost element is left.
    pub open spec fn closed(self) -> Outcome {
        match self.top() {
            Frame::Title { kind, .. } => {
                let marked = if kind == TitleKind::Bold {
                    self.render.gathered("**"@)
                } else {
                    self.render
                };
                let written = marked.written(marked.pending_text);
                Outcome::Continue(
                    self.drawing(
                        (RenderView { pending_text: Seq::empty(), ..written }).owing_blank(),
                    ).popped(),
                )
            },
            Frame::TextBlock { code_block, paragraph } => {
                let flushed = self.render.flushed(code_block);
                Outcome::Continue(
                    self.drawing(
                        if paragraph {
                            flushed.owing_blank()
                        } else {
                            flushed
                        },
                    ).popped(),
                )
            },
            Frame::Code => Outcome::Continue(self.drawing(self.render.gathered("`"@)).popped()),
            Frame::Emphasis => Outcome::Continue(self.drawing(self.render.gathered("_"@)).popped()),
            Frame::Filename => Outcome::Continue(self.linked(source_base() + self.aside)),
            Frame::Link => match attribute_text(self.anchor, "linkend"@) {
                Err(fault) => Outcome::Failed(
                    self.failure(fault_kind(fault), encode_utf8("linkend"@)),
                ),
                Ok(id) => match resolved_link(id) {
                    None => Outcome::Failed(
                        self.failure(ErrorKind::UnresolvableLink, encode_utf8(id)),
                    ),
                    Some(link) => Outcome::Continue(self.linked(link.target)),
                },
            },
            Frame::Ulink => match attribute_text(self.anchor, "url"@) {
                Err(fault) => Outcome::Failed(self.failure(fault_kind(fault), encode_utf8("url"@))),
                Ok(url) => Outcome::Continue(self.linked(url)),
            },
            Frame::Term => Outcome::Continue(self.drawing(self.render.flushed(false)).popped()),
            Frame::ListItem { saved } => Outcome::Continue(
                self.drawing(self.render.outdented(saved as nat)).popped(),
            ),
            Frame::Admonition { saved } => Outcome::Continue(
                self.drawing(self.render.outdented(saved as nat)).popped(),
            ),
            _ => Outcome::Continue(self.popped()),
        }
    }

    /// The text of `token`, decoded and with its whitespace collapsed.
    pub open spec fn running_text(self, token: TokenView) -> Result<Seq<char>, ErrorView> {
        match decoded(token.content) {
            None => Err(self.failure(ErrorKind::MalformedInput, token.content)),
            Some(text) => Ok(runs_collapsed(text)),
        }
    }

    /// Running text is gathered.
    pub open spec fn with_text(self, token: TokenView) -> Outcome {
        match self.running_text(token) {
            Err(error) => Outcome::Failed(error),
            Ok(text) => Outcome::Continue(self.drawing(self.render.gathered(text))),
        }
    }

    /// The name of a reference is gathered.
    pub open spec fn with_reference(self, token: TokenView) -> Outcome {
        match decoded(token.content) {
            None => Outcome::Failed(self.failure(ErrorKind::MalformedInput, token.content)),
            Some(text) => Outcome::Continue(self.drawing(self.render.gathered(text))),
        }
    }

    /// The text of a title is gathered, behind a space where it is not the
    /// first.
    pub open spec fn with_title_text(self, token: TokenView) -> Outcome {
        match decoded(token.content) {
            None => Outcome::Failed(self.failure(ErrorKind::MalformedInput, token.content)),
            Some(text) => match self.top() {
                Frame::Title { kind, first } => {
                    let spaced = if first {
                        self.render
                    } else {
                        self.render.gathered(" "@)
                    };
                    Outcome::Continue(
                        self.drawing(spaced.gathered(trim_of(text))).retopped(
                            Frame::Title { kind, first: false },
                        ),
                    )
                },
                _ => Outcome::Continue(self),
            },
        }
    }

    /// The text of a link or file name is gathered aside.
    pub open spec fn with_aside(self, token: TokenView) -> Outcome {
        match self.running_text(token) {
            Err(error) => Outcome::Failed(error),
            Ok(text) => Outcome::Continue(WalkerView { aside: self.aside + text, ..self }),
        }
    }

    /// A cross-reference is resolved and gathered as a link.
    pub open spec fn cross_referenced(self, token: TokenView) -> Outcome {
        match attribute_text(token, "linkend"@) {
            Err(fault) => Outcome::Failed(
                self.failure_in(Element::Xref, fault_kind(fault), encode_utf8("linkend"@)),
            ),
            Ok(id) => match resolved_link(id) {
                None => Outcome::Failed(
                    self.failure_in(Element::Xref, ErrorKind::UnresolvableLink, encode_utf8(id)),
                ),
                Some(link) => Outcome::Continue(
                    self.drawing(
                        self.render.gathered(link_markup(link.display_name, link.target)),
                    ),
                ),
            },
        }
    }

    /// An image is written as a line of its own.
    pub open spec fn pictured(self, token: TokenView) -> Outcome {
        match attribute_text(token, "fileref"@) {
            Err(fault) => Outcome::Failed(
                self.failure_in(Element::ImageData, fault_kind(fault), encode_utf8("fileref"@)),
            ),
            Ok(file) => Outcome::Continue(
                self.drawing(self.render.written(image_markup(file)).owing_blank()),
            ),
        }
    }

    /// The action is carried out.
    pub open spec fn applied(self, action: Action, token: TokenView) -> Outcome {
        match action {
            Action::Skip => Outcome::Continue(self),
            Action::Open { frame } => Outcome::Continue(self.opened(frame, token)),
            Action::FlushAndOpen { frame } => Outcome::Continue(
                self.interrupted().opened(frame, token),
            ),
            Action::Close => self.closed(),
            Action::Gather => self.with_text(token),
            Action::GatherReference => self.with_reference(token),
            Action::TitleText => self.with_title_text(token),
            Action::AsideText => self.with_aside(token),
            Action::CrossReference => self.cross_referenced(token),
            Action::Image => self.pictured(token),
            Action::Finish => Outcome::Finished(self),
            Action::Reject => Outcome::Failed(self.rejection(token)),
        }
    }

    /// What the walker decides to do with `token`.
    pub open spec fn decision(self, token: TokenView) -> Action {
        decide(self.top(), token.kind, element_of(token.name()), blank(token.content))
    }

    /// One step of the machine.
    pub open spec fn step(self, token: TokenView) -> Outcome {
        self.counted(token.kind).applied(self.decision(token), token)
    }
}

/// The grammar reads the name of tags only, and asks of text only whether it
/// is blank.
pub proof fn lemma_decision_reads_what_matters(
    frame: Frame,
    kind: TokenKind,
    element: Element,
    other_element: Element,
    is_blank: bool,
    other_blank: bool,
)
    ensures
        kind != TokenKind::Text ==> decide(frame, kind, element, is_blank) == decide(
            frame,
            kind,
            element,
            other_blank,
        ),
        kind != TokenKind::Start && kind != TokenKind::Empty && kind != TokenKind::End ==> decide(
            frame,
            kind,
            element,
            is_blank,
        ) == decide(frame, kind, other_element, is_blank),
{
}

/// Whether a frame may be pushed onto the stack of `walker`.
pub open spec fn frame_fits(frame: Frame, walker: WalkerView) -> bool {
    match frame {
        Frame::Document => false,
        Frame::Section { depth } => depth <= walker.frames.len(),
        Frame::OrderedList { next } => next == 1,
        _ => true,
    }
}

/// The grammar opens elements at opening tags only, with frames that fit the
/// stack, and at the end of the input it does nothing but finish or reject.
pub proof fn lemma_decision_fits(walker: WalkerView, token: TokenView)
    requires
        walker.wf(),
    ensures
        match walker.decision(token) {
            Action::Open { frame } => token.kind == TokenKind::Start && frame_fits(frame, walker),
            Action::FlushAndOpen { frame } => token.kind == TokenKind::Start && frame_fits(
                frame,
                walker,
            ),
            _ => true,
        },
        token.kind == TokenKind::Eof ==> walker.decision(token) == Action::Finish
            || walker.decision(token) == Action::Reject,
{
    if walker.frames.len() > 0 {
        assert(frame_sound(
            walker.frames[walker.frames.len() - 1].frame,
            walker.frames.len() - 1,
            walker.steps,
        ));
    }
}

/// Pushing a frame that is sound at the new height keeps the stack sound.
proof fn lemma_pushed_sound(walker: WalkerView, frame: Frame, element: Element)
    requires
        walker.wf(),
        frame_sound(frame, walker.frames.len() as int, walker.steps),
    ensures
        walker.pushed(frame, element).wf(),
{
    let next = walker.pushed(frame, element);
    assert forall|i: int| 0 <= i < next.frames.len() implies frame_sound(
        (#[trigger] next.frames[i]).frame,
        i,
        next.steps,
    ) by {
        if i < walker.frames.len() {
            assert(next.frames[i] == walker.frames[i]);
        }
    }
}

/// Popping a frame keeps the stack sound.
proof fn lemma_popped_sound(walker: WalkerView)
    requires
        walker.wf(),
    ensures
        walker.popped().wf(),
{
    let next = walker.popped();
    assert forall|i: int| 0 <= i < next.frames.len() implies frame_sound(
        (#[trigger] next.frames[i]).frame,
        i,
        next.steps,
    ) by {
        assert(next.frames[i] == walker.frames[i]);
    }
}

/// Replacing the innermost frame by one that is sound there keeps the stack
/// sound.
proof fn lemma_retopped_sound(walker: WalkerView, frame: Frame)
    requires
        walker.wf(),
        walker.frames.len() > 0 ==> frame_sound(frame, walker.frames.len() - 1, walker.steps),
    ensures
        walker.retopped(frame).wf(),
{
    let next = walker.retopped(frame);
    assert forall|i: int| 0 <= i < next.frames.len() implies frame_sound(
        (#[trigger] next.frames[i]).frame,
        i,
        next.steps,
    ) by {
        if i < walker.frames.len() - 1 {
            assert(next.frames[i] == walker.frames[i]);
        }
    }
}

/// A walker that differs from a sound one in neither its stack nor its count
/// of tokens is sound.
proof fn lemma_same_stack_sound(walker: WalkerView, other: WalkerView)
    requires
        walker.wf(),
        other.frames == walker.frames,
        other.steps == walker.steps,
    ensures
        other.wf(),
{
    assert forall|i: int| 0 <= i < other.frames.len() implies frame_sound(
        (#[trigger] other.frames[i]).frame,
        i,
        other.steps,
    ) by {
        assert(other.frames[i] == walker.frames[i]);
    }
}

/// Counting a child keeps the stack sound, where the ordinal is below the
/// count of tokens.
proof fn lemma_bumped_sound(walker: WalkerView)
    requires
        walker.wf(),
        walker.top() matches Frame::OrderedList { next } ==> next < walker.steps && next
            < usize::MAX,
    ensures
        walker.bumped().wf(),
        walker.bumped().frames.len() == walker.frames.len(),
        walker.bumped().steps == walker.steps,
{
    match walker.top() {
        Frame::OrderedList { next } => {
            lemma_retopped_sound(walker, Frame::OrderedList { next: (next + 1) as usize });
        },
        Frame::VarListEntry { awaits } => {
            lemma_retopped_sound(walker, Frame::VarListEntry { awaits: awaits.following() });
        },
        _ => {},
    }
}

/// Entering an element keeps the stack sound, where the frame fits and every
/// ordinal is below the count of tokens.
proof fn lemma_opened_sound(walker: WalkerView, frame: Frame, token: TokenView)
    requires
        walker.wf(),
        frame_fits(frame, walker),
        walker.steps >= 1,
        walker.top() matches Frame::OrderedList { next } ==> next < walker.steps && next
            < usize::MAX,
    ensures
        walker.opened(frame, token).wf(),
{
    let element = element_of(token.name());
    match frame {
        Frame::Title { kind, .. } => {
            let drawn = walker.drawing(walker.render.gathered(heading(kind)));
            lemma_same_stack_sound(walker, drawn);
            lemma_pushed_sound(drawn, frame, element);
        },
        Frame::Code => {
            let drawn = walker.drawing(walker.render.gathered("`"@));
            lemma_same_stack_sound(walker, drawn);
            lemma_pushed_sound(drawn, frame, element);
        },
        Frame::Emphasis => {
            let drawn = walker.drawing(walker.render.gathered("_"@));
            lemma_same_stack_sound(walker, drawn);
            lemma_pushed_sound(drawn, frame, element);
        },
        Frame::Filename => {
            let cleared = WalkerView { aside: Seq::empty(), ..walker };
            lemma_same_stack_sound(walker, cleared);
            lemma_pushed_sound(cleared, frame, element);
        },
        Frame::Link | Frame::Ulink => {
            let cleared = WalkerView { aside: Seq::empty(), anchor: token, ..walker };
            lemma_same_stack_sound(walker, cleared);
            lemma_pushed_sound(cleared, frame, element);
        },
        Frame::ListItem { .. } => {
            let marker = item_marker(item_kind(walker.top()));
            let saved = walker.render.blank_settled().prefix_current.len() as usize;
            lemma_bumped_sound(walker);
            let bumped = walker.bumped();
            let drawn = bumped.drawing(walker.render.indented(marker, false));
            lemma_same_stack_sound(bumped, drawn);
            lemma_pushed_sound(drawn, Frame::ListItem { saved }, element);
        },
        Frame::Term => {
            lemma_bumped_sound(walker);
            lemma_pushed_sound(walker.bumped(), frame, element);
        },
        Frame::Admonition { .. } => {
            let saved = walker.render.blank_settled().prefix_current.len() as usize;
            let drawn = walker.drawing(
                walker.render.indented(">"@, true).written(admonition_tag(element)),
            );
            lemma_same_stack_sound(walker, drawn);
            lemma_pushed_sound(drawn, Frame::Admonition { saved }, element);
        },
        _ => {
            lemma_pushed_sound(walker, frame, element);
        },
    }
}

/// Leaving an element keeps the stack sound.
proof fn lemma_closed_sound(walker: WalkerView)
    requires
        walker.wf(),
    ensures
        walker.closed() matches Outcome::Continue(next) ==> next.wf(),
        !(walker.closed() is Finished),
{
    match walker.closed() {
        Outcome::Continue(next) => {
            let drawn = walker.drawing(next.render);
            lemma_same_stack_sound(walker, drawn);
            lemma_popped_sound(drawn);
            assert(next == drawn.popped());
        },
        _ => {},
    }
}

/// Soundness is an invariant of the machine: a step from a sound state leads
/// to a sound state.
pub proof fn lemma_step_sound(walker: WalkerView, token: TokenView)
    requires
        walker.wf(),
        token.kind != TokenKind::Eof ==> walker.steps < usize::MAX,
    ensures
        walker.step(token) matches Outcome::Continue(next) ==> next.wf(),
        walker.step(token) matches Outcome::Finished(next) ==> next.wf(),
{
    lemma_decision_fits(walker, token);
    let counted = walker.counted(token.kind);
    assert(counted.wf()) by {
        assert forall|i: int| 0 <= i < counted.frames.len() implies frame_sound(
            (#[trigger] counted.frames[i]).frame,
            i,
            counted.steps,
        ) by {
            assert(frame_sound(walker.frames[i].frame, i, walker.steps));
        }
    }
    if walker.frames.len() > 0 {
        assert(frame_sound(
            walker.frames[walker.frames.len() - 1].frame,
            walker.frames.len() - 1,
            walker.steps,
        ));
    }
    match walker.decision(token) {
        Action::Open { frame } => {
            lemma_opened_sound(counted, frame, token);
        },
        Action::FlushAndOpen { frame } => {
            let flushed = counted.interrupted();
            lemma_same_stack_sound(counted, flushed);
            lemma_opened_sound(flushed, frame, token);
        },
        Action::Close => {
            lemma_closed_sound(counted);
        },
        Action::Gather => {
            if let Outcome::Continue(next) = counted.with_text(token) {
                lemma_same_stack_sound(counted, next);
            }
        },
        Action::GatherReference => {
            if let Outcome::Continue(next) = counted.with_reference(token) {
                lemma_same_stack_sound(counted, next);
            }
        },
        Action::TitleText => {
            if let Outcome::Continue(next) = counted.with_title_text(token) {
                match counted.top() {
                    Frame::Title { kind, first } => {
                        let drawn = counted.drawing(next.render);
                        lemma_same_stack_sound(counted, drawn);
                        lemma_retopped_sound(drawn, Frame::Title { kind, first: false });
                    },
                    _ => {},
                }
            }
        },
        Action::AsideText => {
            if let Outcome::Continue(next) = counted.with_aside(token) {
                lemma_same_stack_sound(counted, next);
            }
        },
        Action::CrossReference => {
            if let Outcome::Continue(next) = counted.cross_referenced(token) {
                lemma_same_stack_sound(counted, next);
            }
        },
        Action::Image => {
            if let Outcome::Continue(next) = counted.pictured(token) {
                lemma_same_stack_sound(counted, next);
            }
        },
        _ => {},
    }
}

/// Numbered lists count from one: wherever the grammar opens a numbered
/// list, the ordinal of its next item is 1.
pub proof fn lemma_ordered_list_starts_at_one(frame: Frame, kind: TokenKind, is_blank: bool)
    ensures
        decide(frame, kind, Element::OrderedList, is_blank) matches Action::Open { frame: opened }
            ==> opened == (Frame::OrderedList { next: 1 }),
        decide(frame, kind, Element::OrderedList, is_blank) matches Action::FlushAndOpen {
            frame: opened,
        } ==> opened == (Frame::OrderedList { next: 1 }),
{
}

/// Ordinals are handed out in order: an item of a numbered list is marked
/// with the list's next ordinal, whatever its tag holds besides its name, and
/// the list's next ordinal is then one more. With the law before, the items
/// of a list are numbered 1, 2, 3 and so on in document order.
pub proof fn lemma_item_takes_next_ordinal(walker: WalkerView, token: TokenView, next: usize)
    requires
        walker.wf(),
        walker.steps < usize::MAX,
        walker.top() == (Frame::OrderedList { next }),
        token.kind == TokenKind::Start,
        element_of(token.name()) == Element::ListItem,
    ensures
        walker.step(token) matches Outcome::Continue(after) && {
            &&& after.render == walker.render.indented(
                decimal_digits(next as nat) + "."@,
                false,
            )
            &&& after.frames.len() == walker.frames.len() + 1
            &&& after.frames[walker.frames.len() - 1].frame == (Frame::OrderedList {
                next: (next + 1) as usize,
            })
            &&& next + 1 <= usize::MAX
            &&& after.frames.last().frame is ListItem
            &&& after.frames.last().element == Element::ListItem
        },
{
    assert(frame_sound(
        walker.frames[walker.frames.len() - 1].frame,
        walker.frames.len() - 1,
        walker.steps,
    ));
}

/// The Markdown of a cross-reference, by its tag alone; `None` where the
/// tag has no identifier or the identifier does not resolve.
pub open spec fn reference_markup(token: TokenView) -> Option<Seq<char>> {
    match attribute_text(token, "linkend"@) {
        Err(_) => None,
        Ok(id) => match resolved_link(id) {
            None => None,
            Some(link) => Some(link_markup(link.display_name, link.target)),
        },
    }
}

/// Link resolution ignores its context: in any two states of the walker, the
/// same cross-reference is rendered as the same link, or fails in both.
pub proof fn lemma_resolution_ignores_context(
    here: WalkerView,
    there: WalkerView,
    token: TokenView,
)
    ensures
        match reference_markup(token) {
            Some(link) => {
                &&& here.cross_referenced(token) matches Outcome::Continue(after)
                    && after.render.pending_text == here.render.pending_text + link
                &&& there.cross_referenced(token) matches Outcome::Continue(after)
                    && after.render.pending_text == there.render.pending_text + link
            },
            None => here.cross_referenced(token) is Failed && there.cross_referenced(token)
                is Failed,
        },
{
}

/// Alignment of the two prefixes is an invariant of the machine: whatever
/// the walker does with a token keeps continuation lines in the text column.
pub proof fn lemma_step_aligned(walker: WalkerView, token: TokenView)
    requires
        walker.render.aligned(),
    ensures
        walker.step(token) matches Outcome::Continue(next) ==> next.render.aligned(),
        walker.step(token) matches Outcome::Finished(next) ==> next.render.aligned(),
{
    let counted = walker.counted(token.kind);
    match walker.decision(token) {
        Action::Open { frame } => {
            lemma_opened_aligned(counted, frame, token);
        },
        Action::FlushAndOpen { frame } => {
            match counted.top() {
                Frame::TextBlock { code_block, .. } => {
                    lemma_written_aligned(walker.render, Seq::empty(), code_block);
                },
                _ => {},
            }
            lemma_opened_aligned(counted.interrupted(), frame, token);
        },
        Action::Close => {
            lemma_closed_aligned(counted);
        },
        Action::Image => {
            if let Ok(file) = attribute_text(token, "fileref"@) {
                lemma_written_aligned(walker.render, image_markup(file), false);
            }
        },
        _ => {},
    }
}

/// Leaving an element keeps the prefixes aligned.
proof fn lemma_closed_aligned(walker: WalkerView)
    requires
        walker.render.aligned(),
    ensures
        walker.closed() matches Outcome::Continue(next) ==> next.render.aligned(),
{
    let render = walker.render;
    match walker.top() {
        Frame::Title { kind, .. } => {
            let marked = if kind == TitleKind::Bold {
                render.gathered("**"@)
            } else {
                render
            };
            lemma_written_aligned(marked, marked.pending_text, false);
        },
        Frame::TextBlock { code_block, .. } => {
            lemma_written_aligned(render, Seq::empty(), code_block);
        },
        Frame::Term => {
            lemma_written_aligned(render, Seq::empty(), false);
        },
        Frame::ListItem { saved } => {
            lemma_outdented_aligned(render, saved as nat);
        },
        Frame::Admonition { saved } => {
            lemma_outdented_aligned(render, saved as nat);
        },
        _ => {},
    }
}

/// Entering an element keeps the prefixes aligned.
proof fn lemma_opened_aligned(walker: WalkerView, frame: Frame, token: TokenView)
    requires
        walker.render.aligned(),
    ensures
        walker.opened(frame, token).render.aligned(),
{
    let element = element_of(token.name());
    match frame {
        Frame::ListItem { .. } => {
            lemma_indented_aligned(walker.render, item_marker(item_kind(walker.top())), false);
        },
        Frame::Admonition { .. } => {
            lemma_indented_aligned(walker.render, ">"@, true);
            lemma_written_aligned(
                walker.render.indented(">"@, true),
                admonition_tag(element),
                false,
            );
        },
        _ => {},
    }
}

/// Blank-line normalization is an invariant of the machine: whatever the
/// walker does with a token never makes two blank lines in a row, nor a
/// blank first line.
pub proof fn lemma_step_tidy(walker: WalkerView, token: TokenView)
    requires
        walker.render.tidy(),
    ensures
        walker.step(token) matches Outcome::Continue(next) ==> next.render.tidy(),
        walker.step(token) matches Outcome::Finished(next) ==> next.render.tidy(),
{
    let counted = walker.counted(token.kind);
    let render = walker.render;
    match walker.decision(token) {
        Action::Open { frame } => {
            lemma_opened_tidy(counted, frame, token);
        },
        Action::FlushAndOpen { frame } => {
            match counted.top() {
                Frame::TextBlock { code_block, .. } => {
                    lemma_flushed_tidy(render, code_block);
                },
                _ => {},
            }
            lemma_opened_tidy(counted.interrupted(), frame, token);
        },
        Action::Close => {
            match counted.top() {
                Frame::Title { kind, .. } => {
                    let marked = if kind == TitleKind::Bold {
                        render.gathered("**"@)
                    } else {
                        render
                    };
                    lemma_written_tidy(marked, marked.pending_text);
                },
                Frame::TextBlock { code_block, .. } => {
                    lemma_flushed_tidy(render, code_block);
                },
                Frame::Term => {
                    lemma_flushed_tidy(render, false);
                },
                _ => {},
            }
        },
        Action::Image => {
            if let Ok(file) = attribute_text(token, "fileref"@) {
                lemma_written_tidy(render, image_markup(file));
            }
        },
        _ => {},
    }
}

/// Entering an element never makes two blank lines in a row.
proof fn lemma_opened_tidy(walker: WalkerView, frame: Frame, token: TokenView)
    requires
        walker.render.tidy(),
    ensures
        walker.opened(frame, token).render.tidy(),
{
    let element = element_of(token.name());
    match frame {
        Frame::ListItem { .. } => {
            lemma_written_tidy(walker.render, Seq::empty());
        },
        Frame::Admonition { .. } => {
            lemma_written_tidy(walker.render, Seq::empty());
            lemma_written_tidy(walker.render.indented(">"@, true), admonition_tag(element));
        },
        _ => {},
    }
}

/// Whether the stack accounts for prefixes of `len` characters: every open
/// list item and admonition remembers a shorter prefix than the one inside
/// it, and with none of them open the prefix is empty.
pub open spec fn levels(frames: Seq<Entry>, len: nat) -> bool
    decreases frames.len(),
{
    if frames.len() == 0 {
        len == 0
    } else {
        match frames.last().frame {
            Frame::ListItem { saved } => saved < len && levels(frames.drop_last(), saved as nat),
            Frame::Admonition { saved } => saved < len && levels(frames.drop_last(), saved as nat),
            _ => levels(frames.drop_last(), len),
        }
    }
}

impl WalkerView {
    /// The prefixes are aligned and as deep as the open list items and
    /// admonitions account for.
    pub open spec fn nested(self) -> bool {
        &&& self.render.aligned()
        &&& self.render.prefix_current.len() <= usize::MAX
        &&& levels(self.frames, self.render.prefix_current.len())
    }
}

/// A frame that remembers no prefix does not change what the stack accounts
/// for.
proof fn lemma_levels_pushed(frames: Seq<Entry>, entry: Entry, len: nat)
    requires
        levels(frames, len),
        !(entry.frame is ListItem),
        !(entry.frame is Admonition),
    ensures
        levels(frames.push(entry), len),
{
    assert(frames.push(entry).drop_last() =~= frames);
}

/// A frame that remembers the prefix as it was accounts for a longer one.
proof fn lemma_levels_indented(frames: Seq<Entry>, entry: Entry, saved: usize, len: nat)
    requires
        levels(frames, saved as nat),
        saved < len,
        entry.frame == (Frame::ListItem { saved }) || entry.frame == (Frame::Admonition { saved }),
    ensures
        levels(frames.push(entry), len),
{
    assert(frames.push(entry).drop_last() =~= frames);
}

/// Replacing the innermost frame by one that remembers no prefix does not
/// change what the stack accounts for.
proof fn lemma_levels_retopped(walker: WalkerView, frame: Frame, len: nat)
    requires
        levels(walker.frames, len),
        !(walker.top() is ListItem),
        !(walker.top() is Admonition),
        !(frame is ListItem),
        !(frame is Admonition),
    ensures
        levels(walker.retopped(frame).frames, len),
{
    if walker.frames.len() > 0 {
        assert(walker.retopped(frame).frames.drop_last() =~= walker.frames.drop_last());
    }
}

/// Counting a child does not change what the stack accounts for.
proof fn lemma_levels_bumped(walker: WalkerView, len: nat)
    requires
        levels(walker.frames, len),
    ensures
        levels(walker.bumped().frames, len),
{
    match walker.top() {
        Frame::OrderedList { next } => {
            lemma_levels_retopped(walker, Frame::OrderedList { next: (next + 1) as usize }, len);
        },
        Frame::VarListEntry { awaits } => {
            lemma_levels_retopped(walker, Frame::VarListEntry { awaits: awaits.following() }, len);
        },
        _ => {},
    }
}

/// Entering an element keeps the prefixes nested, where they still fit a
/// machine word.
proof fn lemma_opened_nested(walker: WalkerView, frame: Frame, token: TokenView)
    requires
        walker.nested(),
        frame_fits(frame, walker),
        walker.opened(frame, token).render.prefix_current.len() <= usize::MAX,
    ensures
        walker.opened(frame, token).nested(),
{
    let element = element_of(token.name());
    let len = walker.render.prefix_current.len();
    match frame {
        Frame::ListItem { .. } => {
            let marker = item_marker(item_kind(walker.top()));
            lemma_indented_aligned(walker.render, marker, false);
            let saved = walker.render.blank_settled().prefix_current.len() as usize;
            let bumped = walker.bumped();
            lemma_levels_bumped(walker, len);
            lemma_levels_indented(
                bumped.frames,
                Entry { frame: Frame::ListItem { saved }, element },
                saved,
                walker.render.indented(marker, false).prefix_current.len(),
            );
        },
        Frame::Admonition { .. } => {
            lemma_indented_aligned(walker.render, ">"@, true);
            let inside = walker.render.indented(">"@, true);
            lemma_written_aligned(inside, admonition_tag(element), false);
            let saved = walker.render.blank_settled().prefix_current.len() as usize;
            lemma_levels_indented(
                walker.frames,
                Entry { frame: Frame::Admonition { saved }, element },
                saved,
                inside.written(admonition_tag(element)).prefix_current.len(),
            );
        },
        Frame::Term => {
            lemma_levels_bumped(walker, len);
            lemma_levels_pushed(walker.bumped().frames, Entry { frame, element }, len);
        },
        _ => {
            lemma_levels_pushed(walker.frames, Entry { frame, element }, len);
        },
    }
}

/// Leaving an element keeps the prefixes nested: a list item or admonition
/// gives back exactly the prefix that it found.
proof fn lemma_closed_nested(walker: WalkerView)
    requires
        walker.nested(),
    ensures
        walker.closed() matches Outcome::Continue(next) ==> next.nested(),
{
    lemma_closed_aligned(walker);
    let render = walker.render;
    match walker.top() {
        Frame::Title { kind, .. } => {
            let marked = if kind == TitleKind::Bold {
                render.gathered("**"@)
            } else {
                render
            };
            lemma_written_aligned(marked, marked.pending_text, false);
        },
        Frame::TextBlock { code_block, .. } => {
            lemma_written_aligned(render, Seq::empty(), code_block);
        },
        Frame::Term => {
            lemma_written_aligned(render, Seq::empty(), false);
        },
        _ => {},
    }
}

/// Indentation is balanced, as an invariant of the machine: whatever the
/// walker does with a token, the prefixes stay aligned and exactly as deep
/// as the open list items and admonitions account for, where they fit a
/// machine word. Leaving such an element never cuts into the prefix of the
/// element around it.
pub proof fn lemma_step_nested(walker: WalkerView, token: TokenView)
    requires
        walker.wf(),
        walker.nested(),
        walker.step(token) matches Outcome::Continue(next) ==> next.render.prefix_current.len()
            <= usize::MAX,
    ensures
        walker.step(token) matches Outcome::Continue(next) ==> next.nested(),
        walker.step(token) matches Outcome::Finished(next) ==> next.nested(),
{
    lemma_decision_fits(walker, token);
    lemma_step_aligned(walker, token);
    let counted = walker.counted(token.kind);
    match walker.decision(token) {
        Action::Open { frame } => {
            lemma_opened_nested(counted, frame, token);
        },
        Action::FlushAndOpen { frame } => {
            match counted.top() {
                Frame::TextBlock { code_block, .. } => {
                    lemma_written_aligned(walker.render, Seq::empty(), code_block);
                },
                _ => {},
            }
            lemma_opened_nested(counted.interrupted(), frame, token);
        },
        Action::Close => {
            lemma_closed_nested(counted);
        },
        Action::TitleText => {
            if let Outcome::Continue(next) = counted.with_title_text(token) {
                match counted.top() {
                    Frame::Title { kind, first } => {
                        lemma_levels_retopped(
                            counted,
                            Frame::Title { kind, first: false },
                            walker.render.prefix_current.len(),
                        );
                    },
                    _ => {},
                }
            }
        },
        Action::Image => {
            if let Ok(file) = attribute_text(token, "fileref"@) {
                lemma_written_aligned(walker.render, image_markup(file), false);
            }
        },
        _ => {},
    }
}

/// Only the end of the input outside every element completes a document.
proof fn lemma_finish_at_top(walker: WalkerView, token: TokenView)
    requires
        walker.wf(),
    ensures
        walker.step(token) matches Outcome::Finished(next) ==> next == walker
            && walker.frames.len() == 0,
{
    let counted = walker.counted(token.kind);
    if walker.frames.len() > 0 {
        assert(frame_sound(
            walker.frames[walker.frames.len() - 1].frame,
            walker.frames.len() - 1,
            walker.steps,
        ));
    }
    match walker.decision(token) {
        Action::Close => {
            assert(!(counted.closed() is Finished));
        },
        Action::Gather => {
            assert(!(counted.with_text(token) is Finished));
        },
        Action::GatherReference => {
            assert(!(counted.with_reference(token) is Finished));
        },
        Action::TitleText => {
            assert(!(counted.with_title_text(token) is Finished));
        },
        Action::AsideText => {
            assert(!(counted.with_aside(token) is Finished));
        },
        Action::CrossReference => {
            assert(!(counted.cross_referenced(token) is Finished));
        },
        Action::Image => {
            assert(!(counted.pictured(token) is Finished));
        },
        _ => {},
    }
}

/// A complete document leaves no indentation behind: when the walker
/// finishes from a nested state, no element is open and both prefixes are
/// empty.
pub proof fn lemma_finished_is_flat(walker: WalkerView, token: TokenView)
    requires
        walker.wf(),
        walker.nested(),
    ensures
        walker.step(token) matches Outcome::Finished(next) ==> {
            &&& next.frames.len() == 0
            &&& next.render.prefix_current.len() == 0
            &&& next.render.prefix_continuation.len() == 0
        },
{
    lemma_finish_at_top(walker, token);
}

fn skip_if_blank(is_blank: bool) -> (action: Action)
    ensures
        action == if is_blank {
            Action::Skip
        } else {
            Action::Reject
        },
{
    if is_blank {
        Action::Skip
    } else {
        Action::Reject
    }
}

fn close_when(closing: bool) -> (action: Action)
    ensures
        action == if closing {
            Action::Close
        } else {
            Action::Reject
        },
{
    if closing {
        Action::Close
    } else {
        Action::Reject
    }
}

fn open_paragraph() -> (action: Action)
    ensures
        action == (Action::Open { frame: paragraph() }),
{
    Action::Open { frame: Frame::TextBlock { code_block: false, paragraph: true } }
}

fn open_listing() -> (frame: Frame)
    ensures
        frame == listing(),
{
    Frame::TextBlock { code_block: true, paragraph: true }
}

fn open_bold_title() -> (action: Action)
    ensures
        action == (Action::Open { frame: Frame::Title { kind: TitleKind::Bold, first: true } }),
{
    Action::Open { frame: Frame::Title { kind: TitleKind::Bold, first: true } }
}

fn code_element(element: Element) -> (code: bool)
    ensures
        code == is_code(element),
{
    element == Element::Code || element == Element::Literal || element == Element::VarName
        || element == Element::UserInput || element == Element::Type || element
        == Element::Function || element == Element::SystemItem
}

fn media_element(element: Element) -> (media: bool)
    ensures
        media == is_media(element),
{
    element == Element::MediaObject || element == Element::MediaObjectCo
}

/// The top of a chapter file: the declarations before the chapter, then the
/// chapter or preface itself.
pub fn handle_chapter_file(kind: TokenKind, element: Element, is_blank: bool) -> (action: Action)
    ensures
        action == decide(Frame::Document, kind, element, is_blank),
{
    match kind {
        TokenKind::Start => match element {
            Element::Preface | Element::Chapter => Action::Open { frame: Frame::Chapter },
            _ => Action::Reject,
        },
        TokenKind::Prolog => Action::Skip,
        TokenKind::Text => skip_if_blank(is_blank),
        TokenKind::Eof => Action::Finish,
        _ => Action::Reject,
    }
}

/// A chapter or preface: a title, paragraphs and sections.
pub fn handle_chapter(kind: TokenKind, element: Element, is_blank: bool) -> (action: Action)
    ensures
        action == decide(Frame::Chapter, kind, element, is_blank),
{
    match kind {
        TokenKind::Start => match element {
            Element::Title => Action::Open {
                frame: Frame::Title { kind: TitleKind::Chapter, first: true },
            },
            Element::LiteralLayout | Element::Para => open_paragraph(),
            Element::Section => Action::Open { frame: Frame::Section { depth: 0 } },
            _ => Action::Reject,
        },
        TokenKind::Empty => match element {
            Element::Include => Action::Skip,
            _ => Action::Reject,
        },
        TokenKind::End => close_when(element == Element::Chapter || element == Element::Preface),
        TokenKind::Text => skip_if_blank(is_blank),
        _ => Action::Reject,
    }
}

/// A title: text only.
pub fn handle_title(kind: TitleKind, first: bool, token: TokenKind, element: Element) -> (action:
    Action)
    ensures
        forall|is_blank: bool|
            action == #[trigger] decide(Frame::Title { kind, first }, token, element, is_blank),
{
    match token {
        TokenKind::Text => Action::TitleText,
        TokenKind::End => close_when(element == Element::Title),
        _ => Action::Reject,
    }
}

/// A section at `depth`: nested sections, a title and blocks.
pub fn handle_section(depth: usize, kind: TokenKind, element: Element, is_blank: bool) -> (action:
    Action)
    requires
        depth < usize::MAX,
    ensures
        action == decide(Frame::Section { depth }, kind, element, is_blank),
{
    match kind {
        TokenKind::Start => match element {
            Element::Section => Action::Open { frame: Frame::Section { depth: depth + 1 } },
            Element::Title => Action::Open {
                frame: Frame::Title { kind: TitleKind::Section { depth }, first: true },
            },
            Element::Synopsis => Action::Open { frame: open_listing() },
            Element::Para => open_paragraph(),
            Element::OrderedList => Action::Open { frame: Frame::OrderedList { next: 1 } },
            Element::ItemizedList => Action::Open { frame: Frame::ItemizedList },
            Element::Figure => Action::Open { frame: Frame::Figure },
            Element::VariableList => Action::Open { frame: Frame::VariableList },
            Element::MediaObject | Element::MediaObjectCo => Action::Open {
                frame: Frame::MediaObject,
            },
            _ => Action::Reject,
        },
        TokenKind::End => close_when(element == Element::Section),
        TokenKind::Text => skip_if_blank(is_blank),
        _ => Action::Reject,
    }
}

/// Running text: inline markup, cross-references, and nested blocks, which
/// make the text before them a paragraph of its own.
pub fn handle_text_block(
    code_block: bool,
    paragraph: bool,
    kind: TokenKind,
    element: Element,
) -> (action: Action)
    ensures
        forall|is_blank: bool|
            action == #[trigger] decide(
                Frame::TextBlock { code_block, paragraph },
                kind,
                element,
                is_blank,
            ),
{
    match kind {
        TokenKind::Start => match element {
            Element::Synopsis => Action::FlushAndOpen { frame: open_listing() },
            Element::Emphasis | Element::FirstTerm => Action::Open { frame: Frame::Emphasis },
            Element::Type
            | Element::Code
            | Element::SystemItem
            | Element::Function
            | Element::Literal
            | Element::VarName
            | Element::UserInput => Action::Open { frame: Frame::Code },
            Element::Filename => Action::Open { frame: Frame::Filename },
            Element::Ulink => Action::Open { frame: Frame::Ulink },
            Element::Link => Action::Open { frame: Frame::Link },
            Element::ItemizedList => Action::FlushAndOpen { frame: Frame::ItemizedList },
            Element::OrderedList => Action::FlushAndOpen { frame: Frame::OrderedList { next: 1 } },
            Element::VariableList => Action::FlushAndOpen { frame: Frame::VariableList },
            _ => Action::Reject,
        },
        TokenKind::Empty => match element {
            Element::Xref => Action::CrossReference,
            _ => Action::Reject,
        },
        TokenKind::Text => Action::Gather,
        TokenKind::Reference => Action::GatherReference,
        TokenKind::End => close_when(
            element == Element::Para || element == Element::Synopsis || element
                == Element::SimPara || element == Element::LiteralLayout,
        ),
        _ => Action::Reject,
    }
}

/// Inline code: text only, up to the closing tag of any of its synonyms.
pub fn handle_code(kind: TokenKind, element: Element) -> (action: Action)
    ensures
        forall|is_blank: bool| action == #[trigger] decide(Frame::Code, kind, element, is_blank),
{
    match kind {
        TokenKind::Text => Action::Gather,
        TokenKind::End => close_when(code_element(element)),
        _ => Action::Reject,
    }
}

/// Emphasised text: text only.
pub fn handle_emphasis(kind: TokenKind, element: Element) -> (action: Action)
    ensures
        forall|is_blank: bool|
            action == #[trigger] decide(Frame::Emphasis, kind, element, is_blank),
{
    match kind {
        TokenKind::Text => Action::Gather,
        TokenKind::End => close_when(element == Element::Emphasis || element == Element::FirstTerm),
        _ => Action::Reject,
    }
}

/// The name of a source file: text only, gathered aside.
pub fn handle_filename(kind: TokenKind, element: Element) -> (action: Action)
    ensures
        forall|is_blank: bool|
            action == #[trigger] decide(Frame::Filename, kind, element, is_blank),
{
    match kind {
        TokenKind::Text => Action::AsideText,
        TokenKind::End => close_when(element == Element::Filename),
        _ => Action::Reject,
    }
}

/// A link to an identifier: text only, gathered aside.
pub fn handle_link(kind: TokenKind, element: Element) -> (action: Action)
    ensures
        forall|is_blank: bool| action == #[trigger] decide(Frame::Link, kind, element, is_blank),
{
    match kind {
        TokenKind::Text => Action::AsideText,
        TokenKind::End => close_when(element == Element::Link),
        _ => Action::Reject,
    }
}

/// A link to a URL: text only, gathered aside.
pub fn handle_ulink(kind: TokenKind, element: Element) -> (action: Action)
    ensures
        forall|is_blank: bool| action == #[trigger] decide(Frame::Ulink, kind, element, is_blank),
{
    match kind {
        TokenKind::Text => Action::AsideText,
        TokenKind::End => close_when(element == Element::Ulink),
        _ => Action::Reject,
    }
}

/// A list of terms and definitions: a bold title and entries.
pub fn handle_variablelist(kind: TokenKind, element: Element, is_blank: bool) -> (action: Action)
    ensures
        action == decide(Frame::VariableList, kind, element, is_blank),
{
    match kind {
        TokenKind::Start => match element {
            Element::Title => open_bold_title(),
            Element::VarListEntry => Action::Open {
                frame: Frame::VarListEntry { awaits: Awaited::Term },
            },
            _ => Action::Reject,
        },
        TokenKind::End => close_when(element == Element::VariableList),
        TokenKind::Text => skip_if_blank(is_blank),
        _ => Action::Reject,
    }
}

/// One entry of a definition list: exactly one term, then exactly one list
/// item that defines it.
pub fn handle_varlistentry(awaits: Awaited, kind: TokenKind, element: Element, is_blank: bool) -> (action:
    Action)
    ensures
        action == decide(Frame::VarListEntry { awaits }, kind, element, is_blank),
{
    match kind {
        TokenKind::Start => match element {
            Element::Term => match awaits {
                Awaited::Term => Action::Open { frame: Frame::Term },
                _ => Action::Reject,
            },
            Element::ListItem => match awaits {
                Awaited::Item => Action::Open { frame: Frame::ListItem { saved: 0 } },
                _ => Action::Reject,
            },
            _ => Action::Reject,
        },
        TokenKind::End => match awaits {
            Awaited::End => close_when(element == Element::VarListEntry),
            _ => Action::Reject,
        },
        TokenKind::Text => skip_if_blank(is_blank),
        _ => Action::Reject,
    }
}

/// The term of a definition: text, literals, and a synopsis that is not
/// fenced.
pub fn handle_term(kind: TokenKind, element: Element) -> (action: Action)
    ensures
        forall|is_blank: bool| action == #[trigger] decide(Frame::Term, kind, element, is_blank),
{
    match kind {
        TokenKind::Start => match element {
            Element::Literal => Action::Open { frame: Frame::Code },
            Element::Synopsis => Action::Open {
                frame: Frame::TextBlock { code_block: false, paragraph: false },
            },
            _ => Action::Reject,
        },
        TokenKind::End => close_when(element == Element::Term),
        TokenKind::Text => Action::Gather,
        _ => Action::Reject,
    }
}

/// A numbered list: items.
pub fn handle_orderedlist(next: usize, kind: TokenKind, element: Element, is_blank: bool) -> (action:
    Action)
    ensures
        action == decide(Frame::OrderedList { next }, kind, element, is_blank),
{
    match kind {
        TokenKind::Start => match element {
            Element::ListItem => Action::Open { frame: Frame::ListItem { saved: 0 } },
            _ => Action::Reject,
        },
        TokenKind::End => close_when(element == Element::OrderedList),
        TokenKind::Text => skip_if_blank(is_blank),
        _ => Action::Reject,
    }
}

/// A bulleted list: items.
pub fn handle_itemizedlist(kind: TokenKind, element: Element, is_blank: bool) -> (action: Action)
    ensures
        action == decide(Frame::ItemizedList, kind, element, is_blank),
{
    match kind {
        TokenKind::Start => match element {
            Element::ListItem => Action::Open { frame: Frame::ListItem { saved: 0 } },
            _ => Action::Reject,
        },
        TokenKind::End => close_when(element == Element::ItemizedList),
        TokenKind::Text => skip_if_blank(is_blank),
        _ => Action::Reject,
    }
}

/// A list item: paragraphs, admonitions and definition lists.
pub fn handle_listitem(saved: usize, kind: TokenKind, element: Element, is_blank: bool) -> (action:
    Action)
    ensures
        action == decide(Frame::ListItem { saved }, kind, element, is_blank),
{
    match kind {
        TokenKind::Start => match element {
            Element::SimPara | Element::Para => open_paragraph(),
            Element::Warning | Element::Note => Action::Open {
                frame: Frame::Admonition { saved: 0 },
            },
            Element::VariableList => Action::Open { frame: Frame::VariableList },
            _ => Action::Reject,
        },
        TokenKind::End => close_when(element == Element::ListItem),
        TokenKind::Text => skip_if_blank(is_blank),
        _ => Action::Reject,
    }
}

/// A note or warning: paragraphs only.
pub fn handle_admonition(saved: usize, kind: TokenKind, element: Element, is_blank: bool) -> (action:
    Action)
    ensures
        action == decide(Frame::Admonition { saved }, kind, element, is_blank),
{
    match kind {
        TokenKind::Start => match element {
            Element::SimPara | Element::Para => open_paragraph(),
            _ => Action::Reject,
        },
        TokenKind::End => close_when(element == Element::Warning || element == Element::Note),
        TokenKind::Text => skip_if_blank(is_blank),
        _ => Action::Reject,
    }
}

/// A figure: a bold title and media objects.
pub fn handle_figure(kind: TokenKind, element: Element, is_blank: bool) -> (action: Action)
    ensures
        action == decide(Frame::Figure, kind, element, is_blank),
{
    match kind {
        TokenKind::Start => match element {
            Element::Title => open_bold_title(),
            Element::MediaObject | Element::MediaObjectCo => Action::Open {
                frame: Frame::MediaObject,
            },
            _ => Action::Reject,
        },
        TokenKind::End => close_when(element == Element::Figure),
        TokenKind::Text => skip_if_blank(is_blank),
        _ => Action::Reject,
    }
}

/// A media object: its text, its image and its caption.
pub fn handle_mediaobject(kind: TokenKind, element: Element, is_blank: bool) -> (action: Action)
    ensures
        action == decide(Frame::MediaObject, kind, element, is_blank),
{
    match kind {
        TokenKind::Start => match element {
            Element::TextObject => Action::Open { frame: Frame::TextObject },
            Element::ImageObject => Action::Open { frame: Frame::ImageObject },
            Element::ImageObjectCo => Action::Open { frame: Frame::ImageObjectCo },
            Element::Caption => Action::Open { frame: Frame::Caption },
            _ => Action::Reject,
        },
        TokenKind::End => close_when(media_element(element)),
        TokenKind::Text => skip_if_blank(is_blank),
        _ => Action::Reject,
    }
}

/// The textual alternative of a media object: everything is skipped up to
/// its closing tag.
pub fn handle_textobject(kind: TokenKind, element: Element) -> (action: Action)
    ensures
        forall|is_blank: bool|
            action == #[trigger] decide(Frame::TextObject, kind, element, is_blank),
{
    match kind {
        TokenKind::End => match element {
            Element::TextObject => Action::Close,
            _ => Action::Skip,
        },
        TokenKind::Eof | TokenKind::Malformed => Action::Reject,
        _ => Action::Skip,
    }
}

/// The image of a media object: callout areas and the image file.
pub fn handle_imageobject(kind: TokenKind, element: Element, is_blank: bool) -> (action: Action)
    ensures
        action == decide(Frame::ImageObject, kind, element, is_blank),
{
    match kind {
        TokenKind::Start => match element {
            Element::AreaSpec => Action::Open { frame: Frame::AreaSpec },
            _ => Action::Reject,
        },
        TokenKind::Empty => match element {
            Element::ImageData => Action::Image,
            _ => Action::Reject,
        },
        TokenKind::End => close_when(element == Element::ImageObject),
        TokenKind::Text => skip_if_blank(is_blank),
        _ => Action::Reject,
    }
}

/// An image with callouts: callout areas and the image.
pub fn handle_imageobjectco(kind: TokenKind, element: Element, is_blank: bool) -> (action: Action)
    ensures
        action == decide(Frame::ImageObjectCo, kind, element, is_blank),
{
    match kind {
        TokenKind::Start => match element {
            Element::AreaSpec => Action::Open { frame: Frame::AreaSpec },
            Element::ImageObject => Action::Open { frame: Frame::ImageObject },
            _ => Action::Reject,
        },
        TokenKind::End => close_when(element == Element::ImageObjectCo),
        TokenKind::Text => skip_if_blank(is_blank),
        _ => Action::Reject,
    }
}

/// The callout areas of an image: everything is skipped up to the closing
/// tag.
pub fn handle_areaspec(kind: TokenKind, element: Element) -> (action: Action)
    ensures
        forall|is_blank: bool|
            action == #[trigger] decide(Frame::AreaSpec, kind, element, is_blank),
{
    match kind {
        TokenKind::End => match element {
            Element::AreaSpec => Action::Close,
            _ => Action::Skip,
        },
        TokenKind::Eof | TokenKind::Malformed => Action::Reject,
        _ => Action::Skip,
    }
}

/// The caption of a media object: paragraphs.
pub fn handle_caption(kind: TokenKind, element: Element, is_blank: bool) -> (action: Action)
    ensures
        action == decide(Frame::Caption, kind, element, is_blank),
{
    match kind {
        TokenKind::Start => match element {
            Element::Para => open_paragraph(),
            _ => Action::Reject,
        },
        TokenKind::End => close_when(element == Element::Caption),
        TokenKind::Text => skip_if_blank(is_blank),
        _ => Action::Reject,
    }
}

/// Decides what the handler `frame` does with a token of the given kind,
/// whose name is that of `element` and whose content is blank or not.
pub fn select(frame: Frame, kind: TokenKind, element: Element, is_blank: bool) -> (action: Action)
    requires
        frame matches Frame::Section { depth } ==> depth < usize::MAX,
    ensures
        action == decide(frame, kind, element, is_blank),
{
    match frame {
        Frame::Document => handle_chapter_file(kind, element, is_blank),
        Frame::Chapter => handle_chapter(kind, element, is_blank),
        Frame::Section { depth } => handle_section(depth, kind, element, is_blank),
        Frame::Title { kind: title, first } => handle_title(title, first, kind, element),
        Frame::TextBlock { code_block, paragraph } => handle_text_block(
            code_block,
            paragraph,
            kind,
            element,
        ),
        Frame::Code => handle_code(kind, element),
        Frame::Emphasis => handle_emphasis(kind, element),
        Frame::Filename => handle_filename(kind, element),
        Frame::Link => handle_link(kind, element),
        Frame::Ulink => handle_ulink(kind, element),
        Frame::VariableList => handle_variablelist(kind, element, is_blank),
        Frame::VarListEntry { awaits } => handle_varlistentry(awaits, kind, element, is_blank),
        Frame::Term => handle_term(kind, element),
        Frame::OrderedList { next } => handle_orderedlist(next, kind, element, is_blank),
        Frame::ItemizedList => handle_itemizedlist(kind, element, is_blank),
        Frame::ListItem { saved } => handle_listitem(saved, kind, element, is_blank),
        Frame::Admonition { saved } => handle_admonition(saved, kind, element, is_blank),
        Frame::Figure => handle_figure(kind, element, is_blank),
        Frame::MediaObject => handle_mediaobject(kind, element, is_blank),
        Frame::TextObject => handle_textobject(kind, element),
        Frame::ImageObject => handle_imageobject(kind, element, is_blank),
        Frame::ImageObjectCo => handle_imageobjectco(kind, element, is_blank),
        Frame::AreaSpec => handle_areaspec(kind, element),
        Frame::Caption => handle_caption(kind, element, is_blank),
    }
}


/// Writes what a title starts with.
pub fn heading_text(kind: TitleKind) -> (text: String)
    ensures
        text@ == heading(kind),
{
    match kind {
        TitleKind::Chapter => String::from_str("# "),
        TitleKind::Section { depth } => {
            let mut text = String::from_str("##");
            let mut i: usize = 0;
            proof {
                reveal_strlit("#");
                assert("#"@ =~= seq!['#']);
                assert("##"@ + hashes(0) =~= "##"@);
            }
            while i < depth
                invariant
                    i <= depth,
                    text@ == "##"@ + hashes(i as nat),
                    "#"@ == seq!['#'],
                decreases depth - i,
            {
                text.append("#");
                i += 1;
                assert(text@ =~= "##"@ + hashes(i as nat));
            }
            text.append(" ");
            text
        },
        TitleKind::Bold => String::from_str("**"),
    }
}

/// The kind of the items of a list, by the list's handler.
pub fn kind_of_items(list: Frame) -> (kind: ListKind)
    ensures
        kind == item_kind(list),
{
    match list {
        Frame::OrderedList { next } => ListKind::Numbered { ordinal: next },
        Frame::VarListEntry { .. } => ListKind::Definition,
        _ => ListKind::Bullet,
    }
}

/// Writes the marker of a list item.
pub fn marker_text(kind: ListKind) -> (text: String)
    ensures
        text@ == item_marker(kind),
{
    match kind {
        ListKind::Bullet => String::from_str("-"),
        ListKind::Numbered { ordinal } => {
            let mut text = decimal(ordinal);
            text.append(".");
            text
        },
        ListKind::Definition => String::from_str("  :"),
    }
}

fn kind_of_fault(fault: AttributeFault) -> (kind: ErrorKind)
    ensures
        kind == fault_kind(fault),
{
    match fault {
        AttributeFault::Missing => ErrorKind::MissingAttribute,
        AttributeFault::Malformed => ErrorKind::MalformedInput,
    }
}

fn bytes_of(s: &str) -> (bytes: Vec<u8>)
    ensures
        bytes@ == encode_utf8(s@),
{
    slice_to_vec(s.as_bytes())
}

impl Walker {
    /// A walker before the first token.
    pub fn new() -> (walker: Walker)
        ensures
            walker@ == WalkerView::initial(),
            walker@.wf(),
    {
        Walker {
            frames: Vec::new(),
            render: RenderState::new(),
            aside: String::new(),
            anchor: Token::new(TokenKind::Other, 0, Vec::new()),
            steps: 0,
        }
    }

    /// The innermost handler.
    pub fn top(&self) -> (frame: Frame)
        ensures
            frame == self@.top(),
    {
        if self.frames.len() == 0 {
            Frame::Document
        } else {
            self.frames[self.frames.len() - 1].frame
        }
    }

    /// The open elements, innermost first.
    pub fn trail(&self) -> (trail: Vec<Element>)
        ensures
            trail@ == self@.trail(),
    {
        let mut trail: Vec<Element> = Vec::new();
        let mut i: usize = self.frames.len();
        while i > 0
            invariant
                i <= self.frames.len(),
                trail.len() == self.frames.len() - i,
                forall|j: int|
                    0 <= j < trail.len() ==> trail[j] == self.frames[self.frames.len() - 1
                        - j].element,
            decreases i,
        {
            i -= 1;
            trail.push(self.frames[i].element);
        }
        assert(trail@ =~= self@.trail());
        trail
    }

    fn fail(&self, kind: ErrorKind, subject: Vec<u8>) -> (error: ConvertError)
        ensures
            error@ == self@.failure(kind, subject@),
    {
        ConvertError::new(kind, subject, self.trail())
    }

    fn fail_in(&self, element: Element, kind: ErrorKind, subject: Vec<u8>) -> (error:
        ConvertError)
        ensures
            error@ == self@.failure_in(element, kind, subject@),
    {
        let mut trail: Vec<Element> = Vec::new();
        trail.push(element);
        let mut rest = self.trail();
        trail.append(&mut rest);
        assert(trail@ =~= seq![element] + self@.trail());
        ConvertError::new(kind, subject, trail)
    }

    pub fn reject(&self, token: &Token) -> (error: ConvertError)
        ensures
            error@ == self@.rejection(token@),
    {
        if token.kind == TokenKind::Malformed || token.kind == TokenKind::Eof {
            let subject = token.content.clone();
            assert(subject@ =~= token.content@);
            self.fail(ErrorKind::MalformedInput, subject)
        } else if token.kind == TokenKind::Start || token.kind == TokenKind::Empty {
            self.fail(ErrorKind::UnrecognizedElement, slice_to_vec(token.name()))
        } else {
            let subject = token.content.clone();
            assert(subject@ =~= token.content@);
            self.fail(ErrorKind::UnexpectedEvent, subject)
        }
    }

    fn push(&mut self, frame: Frame, element: Element)
        ensures
            final(self)@ == old(self)@.pushed(frame, element),
    {
        self.frames.push(Entry { frame, element });
    }

    fn pop(&mut self)
        ensures
            final(self)@ == old(self)@.popped(),
    {
        if self.frames.len() > 0 {
            self.frames.pop();
        }
    }

    fn retop(&mut self, frame: Frame)
        ensures
            final(self)@ == old(self)@.retopped(frame),
    {
        let len = self.frames.len();
        if len > 0 {
            let element = self.frames[len - 1].element;
            self.frames.set(len - 1, Entry { frame, element });
        }
    }

    fn bump(&mut self)
        requires
            old(self)@.top() matches Frame::OrderedList { next } ==> next < usize::MAX,
        ensures
            final(self)@ == old(self)@.bumped(),
    {
        match self.top() {
            Frame::OrderedList { next } => {
                self.retop(Frame::OrderedList { next: next + 1 });
            },
            Frame::VarListEntry { awaits } => {
                self.retop(Frame::VarListEntry { awaits: awaits.next() });
            },
            _ => {},
        }
    }

    fn open(&mut self, frame: Frame, token: &Token)
        requires
            old(self)@.top() matches Frame::OrderedList { next } ==> next < usize::MAX,
        ensures
            final(self)@ == old(self)@.opened(frame, token@),
    {
        let element = classify(token.name());
        match frame {
            Frame::Title { kind, .. } => {
                let text = heading_text(kind);
                self.render.gather(text.as_str());
                self.push(frame, element);
            },
            Frame::Code => {
                self.render.gather("`");
                self.push(frame, element);
            },
            Frame::Emphasis => {
                self.render.gather("_");
                self.push(frame, element);
            },
            Frame::Filename => {
                self.aside = String::new();
                self.push(frame, element);
            },
            Frame::Link | Frame::Ulink => {
                self.aside = String::new();
                self.anchor = token.duplicate();
                self.push(frame, element);
            },
            Frame::Term => {
                self.bump();
                self.push(frame, element);
            },
            Frame::ListItem { .. } => {
                let marker = marker_text(kind_of_items(self.top()));
                self.bump();
                let saved = self.render.push_indent(marker.as_str(), false);
                self.push(Frame::ListItem { saved }, element);
            },
            Frame::Admonition { .. } => {
                let saved = self.render.push_indent(">", true);
                if element == Element::Warning {
                    self.render.write_line("[!WARNING]");
                } else {
                    self.render.write_line("[!NOTE]");
                }
                self.push(Frame::Admonition { saved }, element);
            },
            _ => {
                self.push(frame, element);
            },
        }
    }

    fn interrupt(&mut self)
        ensures
            final(self)@ == old(self)@.interrupted(),
    {
        match self.top() {
            Frame::TextBlock { code_block, .. } => {
                self.render.flush_text(code_block);
                self.render.owe_blank();
            },
            _ => {},
        }
    }

    fn link(&mut self, target: &str)
        ensures
            final(self)@ == old(self)@.linked(target@),
    {
        let text = markup(trim(self.aside.as_str()), target);
        self.render.gather(text.as_str());
        self.pop();
    }

    fn close(&mut self) -> (result: Result<(), ConvertError>)
        ensures
            match old(self)@.closed() {
                Outcome::Continue(next) => result.is_ok() && final(self)@ == next,
                Outcome::Finished(_) => false,
                Outcome::Failed(error) => result matches Err(e) && e@ == error && final(self)@
                    == old(self)@,
            },
    {
        match self.top() {
            Frame::Title { kind, .. } => {
                if kind == TitleKind::Bold {
                    self.render.gather("**");
                }
                let text = self.render.pending_text.clone();
                self.render.write_line(text.as_str());
                self.render.pending_text = String::new();
                self.render.owe_blank();
                self.pop();
                Ok(())
            },
            Frame::TextBlock { code_block, paragraph } => {
                self.render.flush_text(code_block);
                if paragraph {
                    self.render.owe_blank();
                }
                self.pop();
                Ok(())
            },
            Frame::Code => {
                self.render.gather("`");
                self.pop();
                Ok(())
            },
            Frame::Emphasis => {
                self.render.gather("_");
                self.pop();
                Ok(())
            },
            Frame::Filename => {
                let target = joined(
                    "https://gitlab.freedesktop.org/wayland/wayland/-/blob/main/",
                    self.aside.as_str(),
                );
                self.link(target.as_str());
                Ok(())
            },
            Frame::Link => match self.anchor.attribute("linkend") {
                Err(fault) => Err(self.fail(kind_of_fault(fault), bytes_of("linkend"))),
                Ok(id) => match resolve_link(id.as_str()) {
                    None => Err(self.fail(ErrorKind::UnresolvableLink, bytes_of(id.as_str()))),
                    Some(link) => {
                        self.link(link.target.as_str());
                        Ok(())
                    },
                },
            },
            Frame::Ulink => match self.anchor.attribute("url") {
                Err(fault) => Err(self.fail(kind_of_fault(fault), bytes_of("url"))),
                Ok(url) => {
                    self.link(url.as_str());
                    Ok(())
                },
            },
            Frame::Term => {
                self.render.flush_text(false);
                self.pop();
                Ok(())
            },
            Frame::ListItem { saved } => {
                self.render.pop_indent(saved);
                self.pop();
                Ok(())
            },
            Frame::Admonition { saved } => {
                self.render.pop_indent(saved);
                self.pop();
                Ok(())
            },
            _ => {
                self.pop();
                Ok(())
            },
        }
    }

    fn read_running_text(&self, token: &Token) -> (result: Result<String, ConvertError>)
        ensures
            match self@.running_text(token@) {
                Ok(text) => result matches Ok(t) && t@ == text,
                Err(error) => result matches Err(e) && e@ == error,
            },
    {
        match token.decode() {
            None => {
                let subject = token.content.clone();
                assert(subject@ =~= token.content@);
                Err(self.fail(ErrorKind::MalformedInput, subject))
            },
            Some(text) => Ok(collapse_whitespace(text.as_str())),
        }
    }

    fn gather_text(&mut self, token: &Token) -> (result: Result<(), ConvertError>)
        ensures
            match old(self)@.with_text(token@) {
                Outcome::Continue(next) => result.is_ok() && final(self)@ == next,
                Outcome::Finished(_) => false,
                Outcome::Failed(error) => result matches Err(e) && e@ == error && final(self)@
                    == old(self)@,
            },
    {
        match self.read_running_text(token) {
            Err(error) => Err(error),
            Ok(text) => {
                self.render.gather(text.as_str());
                Ok(())
            },
        }
    }

    fn gather_reference(&mut self, token: &Token) -> (result: Result<(), ConvertError>)
        ensures
            match old(self)@.with_reference(token@) {
                Outcome::Continue(next) => result.is_ok() && final(self)@ == next,
                Outcome::Finished(_) => false,
                Outcome::Failed(error) => result matches Err(e) && e@ == error && final(self)@
                    == old(self)@,
            },
    {
        match token.decode() {
            None => {
                let subject = token.content.clone();
                assert(subject@ =~= token.content@);
                Err(self.fail(ErrorKind::MalformedInput, subject))
            },
            Some(text) => {
                self.render.gather(text.as_str());
                Ok(())
            },
        }
    }

    fn gather_title_text(&mut self, token: &Token) -> (result: Result<(), ConvertError>)
        ensures
            match old(self)@.with_title_text(token@) {
                Outcome::Continue(next) => result.is_ok() && final(self)@ == next,
                Outcome::Finished(_) => false,
                Outcome::Failed(error) => result matches Err(e) && e@ == error && final(self)@
                    == old(self)@,
            },
    {
        match token.decode() {
            None => {
                let subject = token.content.clone();
                assert(subject@ =~= token.content@);
                Err(self.fail(ErrorKind::MalformedInput, subject))
            },
            Some(text) => {
                match self.top() {
                    Frame::Title { kind, first } => {
                        if !first {
                            self.render.gather(" ");
                        }
                        self.render.gather(trim(text.as_str()));
                        self.retop(Frame::Title { kind, first: false });
                    },
                    _ => {},
                }
                Ok(())
            },
        }
    }

    fn gather_aside(&mut self, token: &Token) -> (result: Result<(), ConvertError>)
        ensures
            match old(self)@.with_aside(token@) {
                Outcome::Continue(next) => result.is_ok() && final(self)@ == next,
                Outcome::Finished(_) => false,
                Outcome::Failed(error) => result matches Err(e) && e@ == error && final(self)@
                    == old(self)@,
            },
    {
        match self.read_running_text(token) {
            Err(error) => Err(error),
            Ok(text) => {
                self.aside.append(text.as_str());
                Ok(())
            },
        }
    }

    /// Renders a cross-reference: resolves its identifier and gathers the
    /// link.
    pub fn handle_xref(&mut self, token: &Token) -> (result: Result<(), ConvertError>)
        ensures
            match old(self)@.cross_referenced(token@) {
                Outcome::Continue(next) => result.is_ok() && final(self)@ == next,
                Outcome::Finished(_) => false,
                Outcome::Failed(error) => result matches Err(e) && e@ == error && final(self)@
                    == old(self)@,
            },
    {
        match token.attribute("linkend") {
            Err(fault) => Err(
                self.fail_in(Element::Xref, kind_of_fault(fault), bytes_of("linkend")),
            ),
            Ok(id) => match resolve_link(id.as_str()) {
                None => Err(
                    self.fail_in(
                        Element::Xref,
                        ErrorKind::UnresolvableLink,
                        bytes_of(id.as_str()),
                    ),
                ),
                Some(link) => {
                    let text = markup(link.display_name.as_str(), link.target.as_str());
                    self.render.gather(text.as_str());
                    Ok(())
                },
            },
        }
    }

    /// Renders an image: writes the reference to its file as a line of its
    /// own.
    pub fn handle_imagedata(&mut self, token: &Token) -> (result: Result<(), ConvertError>)
        ensures
            match old(self)@.pictured(token@) {
                Outcome::Continue(next) => result.is_ok() && final(self)@ == next,
                Outcome::Finished(_) => false,
                Outcome::Failed(error) => result matches Err(e) && e@ == error && final(self)@
                    == old(self)@,
            },
    {
        match token.attribute("fileref") {
            Err(fault) => Err(
                self.fail_in(Element::ImageData, kind_of_fault(fault), bytes_of("fileref")),
            ),
            Ok(file) => {
                let mut text = joined("![](", file.as_str());
                text.append(")");
                self.render.write_line(text.as_str());
                self.render.owe_blank();
                Ok(())
            },
        }
    }

    /// Takes one token: decides what it means in the innermost open element
    /// and renders it. A failure leaves the walker as it was, but for the
    /// count of tokens.
    pub fn step(&mut self, token: &Token) -> (result: Result<Step, ConvertError>)
        requires
            old(self)@.wf(),
            token.kind != TokenKind::Eof ==> old(self).steps < usize::MAX,
        ensures
            match old(self)@.step(token@) {
                Outcome::Continue(next) => result matches Ok(Step::Continue) && final(self)@
                    == next && next.wf(),
                Outcome::Finished(next) => result matches Ok(Step::Finished) && final(self)@
                    == next && next.wf(),
                Outcome::Failed(error) => result matches Err(e) && e@ == error && final(self)@
                    == old(self)@.counted(token@.kind),
            },
    {
        let frame = self.top();
        let tag = token.kind == TokenKind::Start || token.kind == TokenKind::Empty || token.kind
            == TokenKind::End;
        let element = if tag {
            classify(token.name())
        } else {
            Element::Unknown
        };
        let blank_text = token.kind == TokenKind::Text && is_blank(token.content.as_slice());
        proof {
            lemma_decision_fits(self@, token@);
            lemma_step_sound(self@, token@);
            if self.frames.len() > 0 {
                assert(frame_sound(
                    self.frames[self.frames.len() - 1].frame,
                    self.frames.len() - 1,
                    self.steps as nat,
                ));
            }
        }
        let action = select(frame, token.kind, element, blank_text);
        proof {
            lemma_decision_reads_what_matters(
                frame,
                token.kind,
                element,
                element_of(token@.name()),
                blank_text,
                blank(token@.content),
            );
        }
        if token.kind != TokenKind::Eof {
            self.steps += 1;
        }
        match action {
            Action::Skip => Ok(Step::Continue),
            Action::Open { frame } => {
                self.open(frame, token);
                Ok(Step::Continue)
            },
            Action::FlushAndOpen { frame } => {
                self.interrupt();
                self.open(frame, token);
                Ok(Step::Continue)
            },
            Action::Close => match self.close() {
                Ok(()) => Ok(Step::Continue),
                Err(error) => Err(error),
            },
            Action::Gather => match self.gather_text(token) {
                Ok(()) => Ok(Step::Continue),
                Err(error) => Err(error),
            },
            Action::GatherReference => match self.gather_reference(token) {
                Ok(()) => Ok(Step::Continue),
                Err(error) => Err(error),
            },
            Action::TitleText => match self.gather_title_text(token) {
                Ok(()) => Ok(Step::Continue),
                Err(error) => Err(error),
            },
            Action::AsideText => match self.gather_aside(token) {
                Ok(()) => Ok(Step::Continue),
                Err(error) => Err(error),
            },
            Action::CrossReference => match self.handle_xref(token) {
                Ok(()) => Ok(Step::Continue),
                Err(error) => Err(error),
            },
            Action::Image => match self.handle_imagedata(token) {
                Ok(()) => Ok(Step::Continue),
                Err(error) => Err(error),
            },
            Action::Finish => Ok(Step::Finished),
            Action::Reject => Err(self.reject(token)),
        }
    }
}

} // verus!
