//! Link resolution: one mapping from a structured identifier to a display
//! name and a target, by the identifier's prefix. A cross-reference is
//! rendered with both; a link that has its own text takes the target.

use crate::text::{joined, split_at_first, split_once, str_eq, strip_prefix, stripped_prefix};
use vstd::prelude::*;
use vstd::string::*;

verus! {

/// What a resolved link points at.
#[derive(Clone, Copy, Debug, PartialEq, Eq, Structural)]
pub enum TargetKind {
    /// An anchor in the same file.
    Anchor,
    /// Another file of the book.
    File,
    /// An absolute URL.
    Url,
}

/// A resolved link.
#[derive(Debug)]
pub struct ResolvedLink {
    pub display_name: String,
    pub kind: TargetKind,
    pub target: String,
}

/// The mathematical model of a [`ResolvedLink`].
pub struct ResolvedView {
    pub display_name: Seq<char>,
    pub kind: TargetKind,
    pub target: Seq<char>,
}

impl View for ResolvedLink {
    type V = ResolvedView;

    open spec fn view(&self) -> ResolvedView {
        ResolvedView { display_name: self.display_name@, kind: self.kind, target: self.target@ }
    }
}

/// The Markdown of a link.
pub open spec fn link_markup(label: Seq<char>, target: Seq<char>) -> Seq<char> {
    "["@ + label + "]("@ + target + ")"@
}

/// Where the messages of the protocol are documented.
pub open spec fn protocol_base() -> Seq<char> {
    "https://wayland.app/protocols/wayland#"@
}

/// Where the sources of the library are kept.
pub open spec fn library_url() -> Seq<char> {
    "https://gitlab.freedesktop.org/wayland/wayland"@
}

/// Where a file of the sources can be browsed.
pub open spec fn source_base() -> Seq<char> {
    "https://gitlab.freedesktop.org/wayland/wayland/-/blob/main/"@
}

/// What follows `protocol-spec-`, resolved: a single segment names an
/// interface; `interface-type-message` names a message, and the message is
/// all that follows the second hyphen, further hyphens included. Exactly two
/// segments are neither.
pub open spec fn protocol_target(rest: Seq<char>) -> Option<ResolvedView> {
    match split_at_first(rest, '-') {
        None => Some(
            ResolvedView {
                display_name: rest,
                kind: TargetKind::Url,
                target: protocol_base() + rest,
            },
        ),
        Some((interface, tail)) => match split_at_first(tail, '-') {
            None => None,
            Some((kind, message)) => Some(
                ResolvedView {
                    display_name: interface + "."@ + message,
                    kind: TargetKind::Url,
                    target: protocol_base() + interface + ":"@ + kind + ":"@ + message,
                },
            ),
        },
    }
}

/// The chapter and the slug of a section identifier `sect-<chapter>-<slug>`.
pub open spec fn section_parts(id: Seq<char>) -> Option<(Seq<char>, Seq<char>)> {
    match stripped_prefix(id, "sect-"@) {
        Some(rest) => split_at_first(rest, '-'),
        None => None,
    }
}

/// An anchor in the same file, with its title.
pub open spec fn anchor(display_name: Seq<char>, target: Seq<char>) -> Option<ResolvedView> {
    Some(ResolvedView { display_name, kind: TargetKind::Anchor, target })
}

/// The known sections, chapter by chapter, with their titles. Every section
/// of the library's chapter stands for the library's sources.
pub open spec fn known_section(chapter: Seq<char>, slug: Seq<char>) -> Option<ResolvedView> {
    if chapter == "Protocol"@ {
        if slug == "Wire-Format"@ {
            anchor("Wire Format"@, "#wire-format"@)
        } else if slug == "data-sharing-devices"@ {
            anchor("Data devices"@, "#data-devices"@)
        } else {
            None
        }
    } else if chapter == "MessageXML"@ {
        if slug == "tag-interface"@ {
            anchor("interface"@, "#interface"@)
        } else if slug == "tag-arg"@ {
            anchor("arg"@, "#arg"@)
        } else {
            None
        }
    } else if chapter == "Compositors"@ {
        if slug == "System-Compositor"@ {
            anchor("System Compositor"@, "#system-compositor"@)
        } else if slug == "Session-Compositor"@ {
            anchor("Session Compositor"@, "#session-compositor"@)
        } else {
            None
        }
    } else if chapter == "Library"@ {
        Some(
            ResolvedView {
                display_name: "Wayland library"@,
                kind: TargetKind::Url,
                target: library_url(),
            },
        )
    } else {
        None
    }
}

/// The known chapters, with their titles.
pub open spec fn known_chapter(name: Seq<char>) -> Option<ResolvedView> {
    if name == "Protocol"@ {
        Some(
            ResolvedView {
                display_name: "Wayland Protocol and Model of Operation"@,
                kind: TargetKind::File,
                target: "Protocol.md"@,
            },
        )
    } else {
        None
    }
}

/// What the identifier `id` resolves to; `None` where `id` has none of the
/// known shapes or names nothing known.
pub open spec fn resolved_link(id: Seq<char>) -> Option<ResolvedView> {
    match section_parts(id) {
        Some((chapter, slug)) => known_section(chapter, slug),
        None => match stripped_prefix(id, "chap-"@) {
            Some(name) => known_chapter(name),
            None => match stripped_prefix(id, "protocol-spec-"@) {
                Some(rest) => protocol_target(rest),
                None => None,
            },
        },
    }
}

/// Writes the Markdown of a link.
pub fn markup(label: &str, target: &str) -> (text: String)
    ensures
        text@ == link_markup(label@, target@),
{
    let mut text = joined("[", label);
    text.append("](");
    text.append(target);
    text.append(")");
    text
}

fn resolved(display_name: &str, kind: TargetKind, target: &str) -> (link: Option<ResolvedLink>)
    ensures
        link matches Some(l) && l@ == (ResolvedView {
            display_name: display_name@,
            kind,
            target: target@,
        }),
{
    Some(
        ResolvedLink {
            display_name: String::from_str(display_name),
            kind,
            target: String::from_str(target),
        },
    )
}

/// Resolves what follows `protocol-spec-`.
pub fn resolve_protocol(rest: &str) -> (link: Option<ResolvedLink>)
    ensures
        link.is_some() == protocol_target(rest@).is_some(),
        link matches Some(l) ==> l@ == protocol_target(rest@).unwrap(),
{
    match split_once(rest, '-') {
        None => {
            let target = joined("https://wayland.app/protocols/wayland#", rest);
            Some(
                ResolvedLink {
                    display_name: String::from_str(rest),
                    kind: TargetKind::Url,
                    target,
                },
            )
        },
        Some((interface, tail)) => match split_once(tail, '-') {
            None => None,
            Some((kind, message)) => {
                let mut display_name = joined(interface, ".");
                display_name.append(message);
                let mut target = joined("https://wayland.app/protocols/wayland#", interface);
                target.append(":");
                target.append(kind);
                target.append(":");
                target.append(message);
                Some(ResolvedLink { display_name, kind: TargetKind::Url, target })
            },
        },
    }
}

fn split_section<'a>(id: &'a str) -> (parts: Option<(&'a str, &'a str)>)
    ensures
        parts.is_some() == section_parts(id@).is_some(),
        parts matches Some(p) ==> (p.0@, p.1@) == section_parts(id@).unwrap(),
{
    match strip_prefix(id, "sect-") {
        Some(rest) => split_once(rest, '-'),
        None => None,
    }
}

/// Looks a section up in the table of its chapter.
pub fn lookup_section(chapter: &str, slug: &str) -> (link: Option<ResolvedLink>)
    ensures
        link.is_some() == known_section(chapter@, slug@).is_some(),
        link matches Some(l) ==> l@ == known_section(chapter@, slug@).unwrap(),
{
    if str_eq(chapter, "Protocol") {
        if str_eq(slug, "Wire-Format") {
            resolved("Wire Format", TargetKind::Anchor, "#wire-format")
        } else if str_eq(slug, "data-sharing-devices") {
            resolved("Data devices", TargetKind::Anchor, "#data-devices")
        } else {
            None
        }
    } else if str_eq(chapter, "MessageXML") {
        if str_eq(slug, "tag-interface") {
            resolved("interface", TargetKind::Anchor, "#interface")
        } else if str_eq(slug, "tag-arg") {
            resolved("arg", TargetKind::Anchor, "#arg")
        } else {
            None
        }
    } else if str_eq(chapter, "Compositors") {
        if str_eq(slug, "System-Compositor") {
            resolved("System Compositor", TargetKind::Anchor, "#system-compositor")
        } else if str_eq(slug, "Session-Compositor") {
            resolved("Session Compositor", TargetKind::Anchor, "#session-compositor")
        } else {
            None
        }
    } else if str_eq(chapter, "Library") {
        resolved("Wayland library", TargetKind::Url, "https://gitlab.freedesktop.org/wayland/wayland")
    } else {
        None
    }
}

/// Looks a chapter up in the table of chapters.
pub fn lookup_chapter(name: &str) -> (link: Option<ResolvedLink>)
    ensures
        link.is_some() == known_chapter(name@).is_some(),
        link matches Some(l) ==> l@ == known_chapter(name@).unwrap(),
{
    if str_eq(name, "Protocol") {
        resolved("Wayland Protocol and Model of Operation", TargetKind::File, "Protocol.md")
    } else {
        None
    }
}

/// Resolves an identifier. The result depends on the identifier alone.
pub fn resolve_link(id: &str) -> (link: Option<ResolvedLink>)
    ensures
        link.is_some() == resolved_link(id@).is_some(),
        link matches Some(l) ==> l@ == resolved_link(id@).unwrap(),
{
    match split_section(id) {
        Some((chapter, slug)) => lookup_section(chapter, slug),
        None => match strip_prefix(id, "chap-") {
            Some(name) => lookup_chapter(name),
            None => match strip_prefix(id, "protocol-spec-") {
                Some(rest) => resolve_protocol(rest),
                None => None,
            },
        },
    }
}

} // verus!
