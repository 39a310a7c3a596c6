//! The element vocabulary of the dialect.

use vstd::prelude::*;
use vstd::string::*;

verus! {

/// An element of the vocabulary. Every other element name is `Unknown`.
#[derive(Clone, Copy, Debug, PartialEq, Eq, Structural)]
pub enum Element {
    /// `book`: the root of the table-of-contents document.
    Book,
    /// `xi:include`: a reference to another document.
    Include,
    /// `preface`: a preface.
    Preface,
    /// `chapter`: a chapter.
    Chapter,
    /// `title`: the title of a chapter, section, list or figure.
    Title,
    /// `literallayout`: a paragraph whose layout is kept in the source.
    LiteralLayout,
    /// `para`: a paragraph.
    Para,
    /// `simpara`: a paragraph without block content.
    SimPara,
    /// `section`: a section.
    Section,
    /// `synopsis`: a code listing.
    Synopsis,
    /// `orderedlist`: a numbered list.
    OrderedList,
    /// `itemizedlist`: a bulleted list.
    ItemizedList,
    /// `variablelist`: a list of terms and their definitions.
    VariableList,
    /// `varlistentry`: one term of a definition list with its definition.
    VarListEntry,
    /// `term`: the term of a definition.
    Term,
    /// `listitem`: one item of a list.
    ListItem,
    /// `figure`: a figure.
    Figure,
    /// `mediaobject`: a media object.
    MediaObject,
    /// `mediaobjectco`: a media object with callouts.
    MediaObjectCo,
    /// `textobject`: the textual alternative of a media object.
    TextObject,
    /// `imageobject`: the image of a media object.
    ImageObject,
    /// `imageobjectco`: an image with callouts.
    ImageObjectCo,
    /// `areaspec`: the callout areas of an image.
    AreaSpec,
    /// `imagedata`: the file of an image.
    ImageData,
    /// `caption`: the caption of a media object.
    Caption,
    /// `warning`: a warning.
    Warning,
    /// `note`: a note.
    Note,
    /// `emphasis`: emphasised text.
    Emphasis,
    /// `firstterm`: the first use of a term.
    FirstTerm,
    /// `code`: inline code.
    Code,
    /// `literal`: a literal value.
    Literal,
    /// `varname`: the name of a variable.
    VarName,
    /// `userinput`: what a user types.
    UserInput,
    /// `type`: the name of a type.
    Type,
    /// `function`: the name of a function.
    Function,
    /// `systemitem`: the name of a system item.
    SystemItem,
    /// `filename`: the name of a source file.
    Filename,
    /// `ulink`: a link to a URL.
    Ulink,
    /// `link`: a link to an identifier, with its own text.
    Link,
    /// `xref`: a cross-reference to an identifier.
    Xref,
    /// A name outside the vocabulary.
    Unknown,
}

impl Element {
    /// The element's name in the source, empty for `Unknown`.
    pub open spec fn text(self) -> &'static str {
        match self {
            Element::Book => "book",
            Element::Include => "xi:include",
            Element::Preface => "preface",
            Element::Chapter => "chapter",
            Element::Title => "title",
            Element::LiteralLayout => "literallayout",
            Element::Para => "para",
            Element::SimPara => "simpara",
            Element::Section => "section",
            Element::Synopsis => "synopsis",
            Element::OrderedList => "orderedlist",
            Element::ItemizedList => "itemizedlist",
            Element::VariableList => "variablelist",
            Element::VarListEntry => "varlistentry",
            Element::Term => "term",
            Element::ListItem => "listitem",
            Element::Figure => "figure",
            Element::MediaObject => "mediaobject",
            Element::MediaObjectCo => "mediaobjectco",
            Element::TextObject => "textobject",
            Element::ImageObject => "imageobject",
            Element::ImageObjectCo => "imageobjectco",
            Element::AreaSpec => "areaspec",
            Element::ImageData => "imagedata",
            Element::Caption => "caption",
            Element::Warning => "warning",
            Element::Note => "note",
            Element::Emphasis => "emphasis",
            Element::FirstTerm => "firstterm",
            Element::Code => "code",
            Element::Literal => "literal",
            Element::VarName => "varname",
            Element::UserInput => "userinput",
            Element::Type => "type",
            Element::Function => "function",
            Element::SystemItem => "systemitem",
            Element::Filename => "filename",
            Element::Ulink => "ulink",
            Element::Link => "link",
            Element::Xref => "xref",
            Element::Unknown => "",
        }
    }

    /// The element's name in the source, empty for `Unknown`.
    pub fn name(self) -> (name: &'static str)
        ensures
            name@ == self.text()@,
    {
        match self {
            Element::Book => "book",
            Element::Include => "xi:include",
            Element::Preface => "preface",
            Element::Chapter => "chapter",
            Element::Title => "title",
            Element::LiteralLayout => "literallayout",
            Element::Para => "para",
            Element::SimPara => "simpara",
            Element::Section => "section",
            Element::Synopsis => "synopsis",
            Element::OrderedList => "orderedlist",
            Element::ItemizedList => "itemizedlist",
            Element::VariableList => "variablelist",
            Element::VarListEntry => "varlistentry",
            Element::Term => "term",
            Element::ListItem => "listitem",
            Element::Figure => "figure",
            Element::MediaObject => "mediaobject",
            Element::MediaObjectCo => "mediaobjectco",
            Element::TextObject => "textobject",
            Element::ImageObject => "imageobject",
            Element::ImageObjectCo => "imageobjectco",
            Element::AreaSpec => "areaspec",
            Element::ImageData => "imagedata",
            Element::Caption => "caption",
            Element::Warning => "warning",
            Element::Note => "note",
            Element::Emphasis => "emphasis",
            Element::FirstTerm => "firstterm",
            Element::Code => "code",
            Element::Literal => "literal",
            Element::VarName => "varname",
            Element::UserInput => "userinput",
            Element::Type => "type",
            Element::Function => "function",
            Element::SystemItem => "systemitem",
            Element::Filename => "filename",
            Element::Ulink => "ulink",
            Element::Link => "link",
            Element::Xref => "xref",
            Element::Unknown => "",
        }
    }
}

/// Whether `name` is the name of the element `e`.
pub open spec fn names(e: Element, name: Seq<u8>) -> bool {
    name == e.text().spec_bytes()
}

/// The element that `name` names.
pub open spec fn element_of(name: Seq<u8>) -> Element {
    if names(Element::Book, name) {
        Element::Book
    } else if names(Element::Include, name) {
        Element::Include
    } else if names(Element::Preface, name) {
        Element::Preface
    } else if names(Element::Chapter, name) {
        Element::Chapter
    } else if names(Element::Title, name) {
        Element::Title
    } else if names(Element::LiteralLayout, name) {
        Element::LiteralLayout
    } else if names(Element::Para, name) {
        Element::Para
    } else if names(Element::SimPara, name) {
        Element::SimPara
    } else if names(Element::Section, name) {
        Element::Section
    } else if names(Element::Synopsis, name) {
        Element::Synopsis
    } else if names(Element::OrderedList, name) {
        Element::OrderedList
    } else if names(Element::ItemizedList, name) {
        Element::ItemizedList
    } else if names(Element::VariableList, name) {
        Element::VariableList
    } else if names(Element::VarListEntry, name) {
        Element::VarListEntry
    } else if names(Element::Term, name) {
        Element::Term
    } else if names(Element::ListItem, name) {
        Element::ListItem
    } else if names(Element::Figure, name) {
        Element::Figure
    } else if names(Element::MediaObject, name) {
        Element::MediaObject
    } else if names(Element::MediaObjectCo, name) {
        Element::MediaObjectCo
    } else if names(Element::TextObject, name) {
        Element::TextObject
    } else if names(Element::ImageObject, name) {
        Element::ImageObject
    } else if names(Element::ImageObjectCo, name) {
        Element::ImageObjectCo
    } else if names(Element::AreaSpec, name) {
        Element::AreaSpec
    } else if names(Element::ImageData, name) {
        Element::ImageData
    } else if names(Element::Caption, name) {
        Element::Caption
    } else if names(Element::Warning, name) {
        Element::Warning
    } else if names(Element::Note, name) {
        Element::Note
    } else if names(Element::Emphasis, name) {
        Element::Emphasis
    } else if names(Element::FirstTerm, name) {
        Element::FirstTerm
    } else if names(Element::Code, name) {
        Element::Code
    } else if names(Element::Literal, name) {
        Element::Literal
    } else if names(Element::VarName, name) {
        Element::VarName
    } else if names(Element::UserInput, name) {
        Element::UserInput
    } else if names(Element::Type, name) {
        Element::Type
    } else if names(Element::Function, name) {
        Element::Function
    } else if names(Element::SystemItem, name) {
        Element::SystemItem
    } else if names(Element::Filename, name) {
        Element::Filename
    } else if names(Element::Ulink, name) {
        Element::Ulink
    } else if names(Element::Link, name) {
        Element::Link
    } else if names(Element::Xref, name) {
        Element::Xref
    } else {
        Element::Unknown
    }
}

/// Whether two byte strings are equal.
pub fn bytes_eq(a: &[u8], b: &[u8]) -> (equal: bool)
    ensures
        equal == (a@ == b@),
{
    if a.len() != b.len() {
        return false;
    }
    let mut i: usize = 0;
    while i < a.len()
        invariant
            a.len() == b.len(),
            i <= a.len(),
            forall|j: int| 0 <= j < i ==> a@[j] == b@[j],
        decreases a.len() - i,
    {
        if a[i] != b[i] {
            return false;
        }
        i += 1;
    }
    assert(a@ =~= b@);
    true
}

/// Whether `name` is the name of the element `e`.
pub fn is_named(name: &[u8], e: Element) -> (named: bool)
    ensures
        named == names(e, name@),
{
    bytes_eq(name, e.name().as_bytes())
}

/// Finds the element that `name` names.
pub fn classify(name: &[u8]) -> (e: Element)
    ensures
        e == element_of(name@),
{
    if is_named(name, Element::Book) {
        Element::Book
    } else if is_named(name, Element::Include) {
        Element::Include
    } else if is_named(name, Element::Preface) {
        Element::Preface
    } else if is_named(name, Element::Chapter) {
        Element::Chapter
    } else if is_named(name, Element::Title) {
        Element::Title
    } else if is_named(name, Element::LiteralLayout) {
        Element::LiteralLayout
    } else if is_named(name, Element::Para) {
        Element::Para
    } else if is_named(name, Element::SimPara) {
        Element::SimPara
    } else if is_named(name, Element::Section) {
        Element::Section
    } else if is_named(name, Element::Synopsis) {
        Element::Synopsis
    } else if is_named(name, Element::OrderedList) {
        Element::OrderedList
    } else if is_named(name, Element::ItemizedList) {
        Element::ItemizedList
    } else if is_named(name, Element::VariableList) {
        Element::VariableList
    } else if is_named(name, Element::VarListEntry) {
        Element::VarListEntry
    } else if is_named(name, Element::Term) {
        Element::Term
    } else if is_named(name, Element::ListItem) {
        Element::ListItem
    } else if is_named(name, Element::Figure) {
        Element::Figure
    } else if is_named(name, Element::MediaObject) {
        Element::MediaObject
    } else if is_named(name, Element::MediaObjectCo) {
        Element::MediaObjectCo
    } else if is_named(name, Element::TextObject) {
        Element::TextObject
    } else if is_named(name, Element::ImageObject) {
        Element::ImageObject
    } else if is_named(name, Element::ImageObjectCo) {
        Element::ImageObjectCo
    } else if is_named(name, Element::AreaSpec) {
        Element::AreaSpec
    } else if is_named(name, Element::ImageData) {
        Element::ImageData
    } else if is_named(name, Element::Caption) {
        Element::Caption
    } else if is_named(name, Element::Warning) {
        Element::Warning
    } else if is_named(name, Element::Note) {
        Element::Note
    } else if is_named(name, Element::Emphasis) {
        Element::Emphasis
    } else if is_named(name, Element::FirstTerm) {
        Element::FirstTerm
    } else if is_named(name, Element::Code) {
        Element::Code
    } else if is_named(name, Element::Literal) {
        Element::Literal
    } else if is_named(name, Element::VarName) {
        Element::VarName
    } else if is_named(name, Element::UserInput) {
        Element::UserInput
    } else if is_named(name, Element::Type) {
        Element::Type
    } else if is_named(name, Element::Function) {
        Element::Function
    } else if is_named(name, Element::SystemItem) {
        Element::SystemItem
    } else if is_named(name, Element::Filename) {
        Element::Filename
    } else if is_named(name, Element::Ulink) {
        Element::Ulink
    } else if is_named(name, Element::Link) {
        Element::Link
    } else if is_named(name, Element::Xref) {
        Element::Xref
    } else {
        Element::Unknown
    }
}

} // verus!
