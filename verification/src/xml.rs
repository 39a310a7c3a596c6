//! The event stream: plain tokens read from an XML pull parser.
//!
//! The parser itself is quick-xml. A document is modelled by the sequence of
//! tokens that the parser yields for it, up to and including the first end of
//! input or the first report of malformed markup.

use quick_xml::events::attributes::{AttrError, Attribute};
use quick_xml::events::BytesStart;
use quick_xml::events::Event::{
    CData, Comment, Decl, DocType, Empty, End, Eof, GeneralRef, Start, Text, PI,
};
use quick_xml::name::QName;
use quick_xml::Reader;
use std::borrow::Cow;
use vstd::prelude::*;
use vstd::slice::slice_subrange;
use vstd::utf8::{decode_utf8, valid_utf8};

verus! {

/// What kind of markup a token stands for.
#[derive(Clone, Copy, Debug, PartialEq, Eq, Structural)]
pub enum TokenKind {
    /// An opening tag.
    Start,
    /// A closing tag.
    End,
    /// A self-closing tag.
    Empty,
    /// Character data between tags.
    Text,
    /// A general entity or character reference.
    Reference,
    /// The XML declaration or the document type declaration.
    Prolog,
    /// A comment, a CDATA section or a processing instruction.
    Other,
    /// The end of the input.
    Eof,
    /// Markup that is not well-formed.
    Malformed,
}

/// One event of the stream, as plain values.
#[derive(Debug)]
pub struct Token {
    pub kind: TokenKind,
    /// For `Start` and `Empty`: how many bytes of `content` are the element's
    /// name. Zero for the other kinds.
    pub name_len: usize,
    /// The raw bytes of the event: what stands between `<` and `>` for a tag,
    /// the name for a closing tag, the undecoded text otherwise.
    pub content: Vec<u8>,
}

/// The mathematical model of a [`Token`].
pub struct TokenView {
    pub kind: TokenKind,
    pub name_len: nat,
    pub content: Seq<u8>,
}

impl View for Token {
    type V = TokenView;

    open spec fn view(&self) -> TokenView {
        TokenView { kind: self.kind, name_len: self.name_len as nat, content: self.content@ }
    }
}

impl TokenView {
    /// Whether the token ends the stream.
    pub open spec fn is_last(self) -> bool {
        self.kind == TokenKind::Eof || self.kind == TokenKind::Malformed
    }

    /// The element name of a tag.
    pub open spec fn name(self) -> Seq<u8> {
        if self.kind == TokenKind::Start || self.kind == TokenKind::Empty {
            if self.name_len <= self.content.len() {
                self.content.take(self.name_len as int)
            } else {
                self.content
            }
        } else {
            self.content
        }
    }
}

/// The views of a sequence of tokens.
pub open spec fn views(tokens: Seq<Token>) -> Seq<TokenView> {
    tokens.map_values(|t: Token| t@)
}

/// A stream as the parser yields it: it is not empty, its last token ends the
/// stream, and no other does.
pub open spec fn well_ended(tokens: Seq<TokenView>) -> bool {
    &&& tokens.len() > 0
    &&& tokens.last().is_last()
    &&& forall|i: int| 0 <= i < tokens.len() - 1 ==> !(#[trigger] tokens[i]).is_last()
}

/// The pull parser of quick-xml. Nothing of its inside is known here but the
/// tokens that it has yet to yield, see [`pending`].
#[verifier::external_type_specification]
#[verifier::external_body]
#[verifier::reject_recursive_types(R)]
pub struct ExReader<R>(Reader<R>);

/// The error of quick-xml's attribute iterator, carried from the call to
/// where it is mapped.
#[verifier::external_type_specification]
#[verifier::external_body]
pub struct ExAttrError(AttrError);

/// The error of quick-xml's unescaping, carried from the call to where it is
/// mapped.
#[verifier::external_type_specification]
#[verifier::external_body]
pub struct ExXmlError(quick_xml::Error);

/// The error of quick-xml's decoder, carried from the call to where it is
/// mapped.
#[verifier::external_type_specification]
#[verifier::external_body]
pub struct ExEncodingError(quick_xml::encoding::EncodingError);

/// The tokens of the document `input`: what successive reads of a parser
/// opened on it yield, up to and including the first token that ends the
/// stream.
pub uninterp spec fn document_tokens(input: Seq<char>) -> Seq<TokenView>;

/// The tokens that a parser has yet to yield, up to and including the first
/// token that ends the stream. Of a parser that has yielded that token
/// nothing is said: it may be read no further.
pub uninterp spec fn pending(reader: Reader<&[u8]>) -> Seq<TokenView>;

/// The raw value of the attribute `key` in a tag's content, as the parser's
/// attribute iterator finds it: `Some(None)` where the tag has no such
/// attribute, `None` where the attributes before it are not well-formed.
pub uninterp spec fn attribute_raw(content: Seq<u8>, name_len: nat, key: Seq<char>) -> Option<
    Option<Seq<u8>>,
>;

/// A raw attribute value with its character and entity references resolved;
/// `None` where one of them cannot be.
pub uninterp spec fn unescaped(raw: Seq<u8>) -> Option<Seq<char>>;

/// `Reader::from_str`: a parser at the start of `input`. Every read consumes
/// input or ends the stream, so the tokens to come are finitely many and end
/// with an end of input or a report of malformed markup.
#[verifier::external_body]
fn open_reader<'a>(input: &'a str) -> (reader: Reader<&'a [u8]>)
    ensures
        pending(reader) == document_tokens(input@),
        well_ended(pending(reader)),
{
    Reader::from_str(input)
}

/// `Reader::read_event`, with the event handed out as a token: its kind, its
/// raw bytes and, for a tag, the length of its name, which lies within those
/// bytes. The XML declaration and the document type are both `Prolog`;
/// comments, CDATA sections and processing instructions are `Other`; an
/// error of the parser is `Malformed`, without content. The read yields the
/// first of the pending tokens and, unless that token ends the stream,
/// leaves the others pending.
#[verifier::external_body]
fn read_token(reader: &mut Reader<&[u8]>) -> (token: Token)
    requires
        pending(*old(reader)).len() > 0,
    ensures
        token@ == pending(*old(reader))[0],
        !token@.is_last() ==> pending(*final(reader)) == pending(*old(reader)).skip(1),
        token.name_len <= token.content@.len(),
{
    let event = reader.read_event();
    let kind = match &event {
        Ok(Start(_)) => TokenKind::Start,
        Ok(End(_)) => TokenKind::End,
        Ok(Empty(_)) => TokenKind::Empty,
        Ok(Text(_)) => TokenKind::Text,
        Ok(GeneralRef(_)) => TokenKind::Reference,
        Ok(Decl(_) | DocType(_)) => TokenKind::Prolog,
        Ok(Eof) => TokenKind::Eof,
        Ok(CData(_) | Comment(_) | PI(_)) => TokenKind::Other,
        Err(_) => TokenKind::Malformed,
    };
    let name_len = if let Ok(Start(tag) | Empty(tag)) = &event { tag.name().0.len() } else { 0 };
    Token { kind, name_len, content: event.as_deref().unwrap_or_default().to_vec() }
}

/// `Decoder::decode`, with the decoder of a parser that has read no
/// declaration: the text of `bytes` where they are valid UTF-8, an error
/// where they are not.
#[verifier::external_body]
fn decode_bytes(bytes: &[u8]) -> (text: Result<String, quick_xml::encoding::EncodingError>)
    ensures
        text.is_ok() == valid_utf8(bytes@),
        text matches Ok(s) ==> s@ == decode_utf8(bytes@),
{
    Reader::from_reader(bytes).decoder().decode(bytes).map(Cow::into_owned)
}

/// `BytesStart::try_get_attribute` on a tag with the given content, whose
/// first `name_len` bytes are its name: the raw value of the first attribute
/// named `key`. Nothing is claimed of the result but that it depends on the
/// three arguments alone.
#[verifier::external_body]
fn find_attribute(content: &[u8], name_len: usize, key: &str) -> (found: Result<
    Option<Vec<u8>>,
    AttrError,
>)
    requires
        name_len <= content@.len(),
    ensures
        found.is_ok() == attribute_raw(content@, name_len as nat, key@).is_some(),
        found matches Ok(value) ==> {
            &&& value.is_some() == attribute_raw(content@, name_len as nat, key@).unwrap().is_some()
            &&& value matches Some(raw) ==> raw@ == attribute_raw(
                content@,
                name_len as nat,
                key@,
            ).unwrap().unwrap()
        },
{
    let tag = BytesStart::from_content(String::from_utf8_lossy(content), name_len);
    let found = tag.try_get_attribute(key)?;
    Ok(found.map(|attribute| attribute.value.into_owned()))
}

/// `Attribute::unescape_value` on an attribute with the given raw value: the
/// value decoded as UTF-8, its character and entity references resolved.
/// Nothing is claimed of the result but that it depends on the raw value
/// alone.
#[verifier::external_body]
fn unescape_value(raw: &[u8]) -> (text: Result<String, quick_xml::Error>)
    ensures
        text.is_ok() == unescaped(raw@).is_some(),
        text matches Ok(s) ==> s@ == unescaped(raw@).unwrap(),
{
    let attribute = Attribute { key: QName(&[]), value: Cow::Borrowed(raw) };
    attribute.unescape_value().map(Cow::into_owned)
}

/// Why an attribute's value could not be had.
#[derive(Clone, Copy, Debug, PartialEq, Eq, Structural)]
pub enum AttributeFault {
    /// The tag has no such attribute.
    Missing,
    /// The tag's attributes, or the value's references, are not well-formed.
    Malformed,
}

/// The value of the attribute `key` of a tag, with its references resolved.
pub open spec fn attribute_text(tag: TokenView, key: Seq<char>) -> Result<
    Seq<char>,
    AttributeFault,
> {
    if tag.name_len > tag.content.len() {
        Err(AttributeFault::Malformed)
    } else {
        match attribute_raw(tag.content, tag.name_len, key) {
            None => Err(AttributeFault::Malformed),
            Some(None) => Err(AttributeFault::Missing),
            Some(Some(raw)) => match unescaped(raw) {
                None => Err(AttributeFault::Malformed),
                Some(text) => Ok(text),
            },
        }
    }
}

/// The text of raw bytes, where they are valid UTF-8.
pub open spec fn decoded(bytes: Seq<u8>) -> Option<Seq<char>> {
    if valid_utf8(bytes) {
        Some(decode_utf8(bytes))
    } else {
        None
    }
}

impl Token {
    /// A token of the given kind and content, whose name is its first
    /// `name_len` bytes.
    pub fn new(kind: TokenKind, name_len: usize, content: Vec<u8>) -> (token: Token)
        ensures
            token@ == (TokenView { kind, name_len: name_len as nat, content: content@ }),
    {
        Token { kind, name_len, content }
    }

    /// A copy of the token.
    pub fn duplicate(&self) -> (copy: Token)
        ensures
            copy@ == self@,
    {
        let content = self.content.clone();
        Token { kind: self.kind, name_len: self.name_len, content }
    }

    /// The element name of a tag: the name part of an opening or self-closing
    /// tag, the whole content of a closing tag.
    pub fn name(&self) -> (name: &[u8])
        ensures
            name@ == self@.name(),
    {
        let content = self.content.as_slice();
        if (self.kind == TokenKind::Start || self.kind == TokenKind::Empty) && self.name_len
            <= content.len() {
            slice_subrange(content, 0, self.name_len)
        } else {
            content
        }
    }

    /// Whether the token ends the stream.
    pub fn is_last(&self) -> (last: bool)
        ensures
            last == self@.is_last(),
    {
        self.kind == TokenKind::Eof || self.kind == TokenKind::Malformed
    }

    /// The token's content as text, where it is valid UTF-8.
    pub fn decode(&self) -> (text: Option<String>)
        ensures
            text.is_some() == decoded(self@.content).is_some(),
            text matches Some(s) ==> s@ == decoded(self@.content).unwrap(),
    {
        match decode_bytes(self.content.as_slice()) {
            Ok(s) => Some(s),
            Err(_) => None,
        }
    }

    /// The value of the attribute `key` of a tag, with its character and
    /// entity references resolved.
    pub fn attribute(&self, key: &str) -> (value: Result<String, AttributeFault>)
        ensures
            value.is_ok() == attribute_text(self@, key@).is_ok(),
            value matches Ok(s) ==> s@ == attribute_text(self@, key@).unwrap(),
            value matches Err(fault) ==> attribute_text(self@, key@) == Err::<
                Seq<char>,
                AttributeFault,
            >(fault),
    {
        if self.name_len > self.content.len() {
            return Err(AttributeFault::Malformed);
        }
        match find_attribute(self.content.as_slice(), self.name_len, key) {
            Err(_) => Err(AttributeFault::Malformed),
            Ok(None) => Err(AttributeFault::Missing),
            Ok(Some(raw)) => match unescape_value(raw.as_slice()) {
                Err(_) => Err(AttributeFault::Malformed),
                Ok(text) => Ok(text),
            },
        }
    }
}

/// Reads the whole of `input` into tokens. The result ends with the first end
/// of input or report of malformed markup.
pub fn tokenize(input: &str) -> (tokens: Vec<Token>)
    ensures
        views(tokens@) == document_tokens(input@),
        well_ended(views(tokens@)),
        forall|i: int| 0 <= i < tokens.len() ==> (#[trigger] tokens[i]).name_len <= tokens[i].content@.len(),
{
    let mut reader = open_reader(input);
    let mut tokens: Vec<Token> = Vec::new();
    let ghost all = document_tokens(input@);
    loop
        invariant_except_break
            pending(reader).len() > 0,
            views(tokens@) + pending(reader) == all,
        invariant
            well_ended(all),
            forall|i: int| 0 <= i < tokens.len() ==> (#[trigger] tokens[i]).name_len <= tokens[i].content@.len(),
        ensures
            views(tokens@) == all,
            forall|i: int| 0 <= i < tokens.len() ==> (#[trigger] tokens[i]).name_len <= tokens[i].content@.len(),
        decreases pending(reader).len(),
    {
        let ghost before = views(tokens@);
        let ghost rest = pending(reader);
        let token = read_token(&mut reader);
        let last = token.is_last();
        tokens.push(token);
        assert(all[before.len() as int] == rest[0]);
        if last {
            break ;
        }
    }
    tokens
}

} // verus!
