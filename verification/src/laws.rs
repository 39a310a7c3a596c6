//! Laws of whole runs of the walker: what holds of a list however many items
//! it has and whatever they hold.

use crate::vocabulary::element_of;
use crate::convert::after;
use crate::walker::{
    lemma_item_takes_next_ordinal, lemma_step_nested, lemma_step_sound, levels, Action, Frame,
    Outcome, WalkerView,
};
use crate::xml::{TokenKind, TokenView};
use vstd::prelude::*;

verus! {

/// Whether the walker, with `height` elements open, takes `token` as the
/// start of an item of the list that is its innermost element.
pub open spec fn starts_item(walker: WalkerView, token: TokenView, height: nat) -> bool {
    &&& walker.frames.len() == height
    &&& walker.decision(token) == (Action::Open { frame: Frame::ListItem { saved: 0 } })
}

/// The ordinals that the numbered list at `height` hands out while the
/// walker takes `tokens`, in document order, up to the end of the list.
pub open spec fn ordinals_along(walker: WalkerView, tokens: Seq<TokenView>, height: nat) -> Seq<
    nat,
>
    decreases tokens.len(),
{
    if tokens.len() == 0 || walker.frames.len() < height || height == 0 {
        Seq::empty()
    } else {
        match walker.step(tokens[0]) {
            Outcome::Continue(next) => {
                let later = ordinals_along(next, tokens.skip(1), height);
                match walker.frames[height - 1].frame {
                    Frame::OrderedList { next: ordinal } => if starts_item(
                        walker,
                        tokens[0],
                        height,
                    ) {
                        seq![ordinal as nat] + later
                    } else {
                        later
                    },
                    _ => later,
                }
            },
            _ => Seq::empty(),
        }
    }
}

/// A step within an element leaves the elements around it as they are.
pub proof fn lemma_step_keeps_outer_frames(walker: WalkerView, token: TokenView, height: nat)
    requires
        walker.frames.len() > height,
    ensures
        walker.step(token) matches Outcome::Continue(next) ==> next.frames.len() >= height
            && next.frames.take(height as int) == walker.frames.take(height as int),
{
    let counted = walker.counted(token.kind);
    if let Outcome::Continue(next) = walker.step(token) {
        assert(next.frames.len() >= height);
        assert(next.frames.take(height as int) =~= walker.frames.take(height as int));
    }
}

/// Ordinals are exactly 1, 2, 3 and so on in document order: the ordinals
/// that a numbered list hands out from its next ordinal on are consecutive,
/// however many items the list has, whatever they hold and whatever their
/// tags say.
pub proof fn lemma_ordinals_are_consecutive(
    walker: WalkerView,
    tokens: Seq<TokenView>,
    height: nat,
    first: usize,
)
    requires
        walker.wf(),
        walker.steps + tokens.len() <= usize::MAX,
        height >= 1,
        walker.frames.len() >= height,
        walker.frames[height - 1].frame == (Frame::OrderedList { next: first }),
    ensures
        forall|i: int|
            0 <= i < ordinals_along(walker, tokens, height).len() ==> (#[trigger] ordinals_along(
                walker,
                tokens,
                height,
            )[i]) == first + i,
    decreases tokens.len(),
{
    if tokens.len() > 0 {
        lemma_step_sound(walker, tokens[0]);
        if let Outcome::Continue(next) = walker.step(tokens[0]) {
            let later = ordinals_along(next, tokens.skip(1), height);
            if walker.frames.len() > height {
                lemma_step_keeps_outer_frames(walker, tokens[0], height);
                assert(next.frames[height - 1] == next.frames.take(height as int)[height - 1]);
                assert(walker.frames[height - 1] == walker.frames.take(height as int)[height - 1]);
                lemma_ordinals_are_consecutive(next, tokens.skip(1), height, first);
                assert(ordinals_along(walker, tokens, height) == later);
            } else if starts_item(walker, tokens[0], height) {
                assert(tokens[0].kind == TokenKind::Start && element_of(tokens[0].name())
                    == crate::vocabulary::Element::ListItem);
                lemma_item_takes_next_ordinal(walker, tokens[0], first);
                lemma_ordinals_are_consecutive(
                    next,
                    tokens.skip(1),
                    height,
                    (first + 1) as usize,
                );
                assert(ordinals_along(walker, tokens, height) == seq![first as nat] + later);
            } else if next.frames.len() >= height {
                assert(next.frames[height - 1].frame == (Frame::OrderedList { next: first }));
                lemma_ordinals_are_consecutive(next, tokens.skip(1), height, first);
                assert(ordinals_along(walker, tokens, height) == later);
            } else {
                assert(later =~= Seq::<nat>::empty());
            }
        }
    }
}

/// The prefixes fit a machine word in every state that the walker reaches
/// while it takes `tokens`.
pub open spec fn fits_along(walker: WalkerView, tokens: Seq<TokenView>) -> bool
    decreases tokens.len(),
{
    if tokens.len() == 0 {
        true
    } else {
        match walker.step(tokens[0]) {
            Outcome::Continue(next) => next.render.prefix_current.len() <= usize::MAX
                && fits_along(next, tokens.skip(1)),
            _ => true,
        }
    }
}

/// The walker does not leave the element at `height` while it takes
/// `tokens`.
pub open spec fn stays_inside(walker: WalkerView, tokens: Seq<TokenView>, height: nat) -> bool
    decreases tokens.len(),
{
    if tokens.len() == 0 {
        true
    } else {
        match walker.step(tokens[0]) {
            Outcome::Continue(next) => next.frames.len() > height && stays_inside(
                next,
                tokens.skip(1),
                height,
            ),
            _ => true,
        }
    }
}

/// Whatever happens within a list item or admonition, the walker stays
/// nested, the item remembers the prefix that it found, and the prefix
/// within is longer than that.
pub proof fn lemma_inside_is_deeper(
    walker: WalkerView,
    tokens: Seq<TokenView>,
    height: nat,
    saved: usize,
)
    requires
        walker.wf(),
        walker.nested(),
        walker.steps + tokens.len() <= usize::MAX,
        walker.frames.len() > height,
        walker.frames[height as int].frame == (Frame::ListItem { saved })
            || walker.frames[height as int].frame == (Frame::Admonition { saved }),
        fits_along(walker, tokens),
        stays_inside(walker, tokens, height),
    ensures
        after(walker, tokens) matches Some(last) ==> {
            &&& last.wf()
            &&& last.nested()
            &&& last.frames.len() > height
            &&& last.frames[height as int] == walker.frames[height as int]
            &&& last.render.prefix_current.len() > saved
        },
    decreases tokens.len(),
{
    if tokens.len() == 0 {
        lemma_levels_below(walker.frames, walker.render.prefix_current.len(), height, saved);
    } else {
        if let Outcome::Continue(next) = walker.step(tokens[0]) {
            lemma_step_inside(walker, tokens[0], height);
            lemma_inside_is_deeper(next, tokens.skip(1), height, saved);
        }
    }
}

/// A step that stays within an item keeps the walker sound and nested and
/// the item as it is.
proof fn lemma_step_inside(walker: WalkerView, token: TokenView, height: nat)
    requires
        walker.wf(),
        walker.nested(),
        walker.steps < usize::MAX,
        walker.frames.len() > height,
        walker.frames[height as int].frame is ListItem || walker.frames[height as int].frame
            is Admonition,
        walker.step(token) matches Outcome::Continue(next) ==> next.render.prefix_current.len()
            <= usize::MAX && next.frames.len() > height,
    ensures
        walker.step(token) matches Outcome::Continue(next) ==> {
            &&& next.wf()
            &&& next.nested()
            &&& next.steps <= walker.steps + 1
            &&& next.frames[height as int] == walker.frames[height as int]
        },
{
    lemma_step_sound(walker, token);
    lemma_step_nested(walker, token);
    if walker.frames.len() > height + 1 {
        lemma_step_keeps_outer_frames(walker, token, height + 1);
        if let Outcome::Continue(next) = walker.step(token) {
            assert(next.frames[height as int] == next.frames.take((height + 1) as int)[height as int]);
            assert(walker.frames[height as int] == walker.frames.take((height + 1) as int)[height as int]);
        }
    } else {
        lemma_step_keeps_item(walker, token);
    }
}

/// A step in a list item or admonition that does not leave it keeps it as
/// it is.
proof fn lemma_step_keeps_item(walker: WalkerView, token: TokenView)
    requires
        walker.frames.len() > 0,
        walker.top() is ListItem || walker.top() is Admonition,
    ensures
        walker.step(token) matches Outcome::Continue(next) ==> next.frames.len()
            >= walker.frames.len() ==> next.frames[walker.frames.len() - 1]
            == walker.frames[walker.frames.len() - 1],
{
}

/// The prefix that a stack accounts for is longer than the one that an item
/// within the stack remembers.
proof fn lemma_levels_below(frames: Seq<crate::walker::Entry>, len: nat, height: nat, saved: usize)
    requires
        levels(frames, len),
        frames.len() > height,
        frames[height as int].frame == (Frame::ListItem { saved }) || frames[height as int].frame
            == (Frame::Admonition { saved }),
    ensures
        saved < len,
    decreases frames.len(),
{
    if frames.len() - 1 > height {
        let rest = frames.drop_last();
        assert(rest[height as int] == frames[height as int]);
        match frames.last().frame {
            Frame::ListItem { saved: inner } => {
                lemma_levels_below(rest, inner as nat, height, saved);
            },
            Frame::Admonition { saved: inner } => {
                lemma_levels_below(rest, inner as nat, height, saved);
            },
            _ => {
                lemma_levels_below(rest, len, height, saved);
            },
        }
    }
}

/// Indentation is balanced over whole items: when the walker leaves a list
/// item or admonition, whatever it took within, both prefixes are as long
/// again as the item found them, and within the item they were never
/// shorter.
pub proof fn lemma_item_gives_back_its_prefix(
    walker: WalkerView,
    tokens: Seq<TokenView>,
    closing: TokenView,
    height: nat,
    saved: usize,
)
    requires
        walker.wf(),
        walker.nested(),
        walker.steps + tokens.len() < usize::MAX,
        walker.frames.len() > height,
        walker.frames[height as int].frame == (Frame::ListItem { saved })
            || walker.frames[height as int].frame == (Frame::Admonition { saved }),
        fits_along(walker, tokens),
        stays_inside(walker, tokens, height),
    ensures
        after(walker, tokens) matches Some(last) ==> last.render.prefix_current.len() > saved && (
        last.step(closing) matches Outcome::Continue(left) ==> left.frames.len() == height ==> {
            &&& left.render.prefix_current.len() == saved
            &&& left.render.prefix_continuation.len() == saved
        }),
{
    lemma_inside_is_deeper(walker, tokens, height, saved);
    if let Some(last) = after(walker, tokens) {
        if let Outcome::Continue(left) = last.step(closing) {
            if left.frames.len() == height {
                if last.frames.len() > height + 1 {
                    lemma_step_keeps_outer_frames(last, closing, height + 1);
                }
                assert(last.frames.len() == height + 1);
                assert(last.top() == last.frames[height as int].frame);
            }
        }
    }
}

} // verus!
