//! The navigation controller: a cursor over the deck, the two
//! affordances `has_previous` / `has_next`, and the transitions they
//! guard. Within a slide the cursor walks segment by segment; at a
//! slide boundary it moves to the neighbouring slide and the segment
//! index restarts at zero. There is no wraparound.

use vstd::prelude::*;

use crate::deck::{Deck, Slide, deck_well_formed};

verus! {

/// The cursor: the current slide and the current segment within it.
#[derive(Debug, Clone, Copy, PartialEq, Eq, Structural)]
pub struct Position {
    pub slide: usize,
    pub segment: usize,
}

/// A position points at an existing segment of an existing slide.
pub open spec fn position_in_deck(deck: Seq<Slide>, pos: Position) -> bool {
    &&& (pos.slide as int) < deck.len()
    &&& (pos.segment as int) < deck[pos.slide as int].segment_count
}

/// There is something before the cursor exactly when it has left the
/// origin.
pub open spec fn spec_has_previous(pos: Position) -> bool {
    pos.slide > 0 || pos.segment > 0
}

/// There is something after the cursor: either a further segment in
/// the current slide, or a further slide.
pub open spec fn spec_has_next(deck: Seq<Slide>, pos: Position) -> bool {
    ||| (pos.segment as int) + 1 < deck[pos.slide as int].segment_count
    ||| (pos.slide as int) + 1 < deck.len()
}

/// Where one forward step lands.
pub open spec fn spec_next(deck: Seq<Slide>, pos: Position) -> Position {
    if (pos.segment as int) + 1 < deck[pos.slide as int].segment_count {
        Position { slide: pos.slide, segment: (pos.segment + 1) as usize }
    } else {
        Position { slide: (pos.slide + 1) as usize, segment: 0 }
    }
}

/// Where one backward step lands: the previous segment, or the last
/// segment of the previous slide.
pub open spec fn spec_previous(deck: Seq<Slide>, pos: Position) -> Position {
    if pos.segment > 0 {
        Position { slide: pos.slide, segment: (pos.segment - 1) as usize }
    } else {
        Position {
            slide: (pos.slide - 1) as usize,
            segment: (deck[pos.slide as int - 1].segment_count - 1) as usize,
        }
    }
}

/// Whether a backward step is allowed from `pos`.
pub fn has_previous(pos: &Position) -> (allowed: bool)
    ensures
        allowed == spec_has_previous(*pos),
{
    pos.slide > 0 || pos.segment > 0
}

/// Whether a forward step is allowed from `pos`.
pub fn has_next(deck: &Deck, pos: &Position) -> (allowed: bool)
    requires
        position_in_deck(deck@, *pos),
    ensures
        allowed == spec_has_next(deck@, *pos),
{
    let slide_count = deck.slide_count();
    pos.segment + 1 < deck.segment_count(pos.slide) || pos.slide + 1 < slide_count
}

/// One forward step. Only allowed where `has_next` holds; the result
/// is again a position inside the deck.
pub fn next(deck: &Deck, pos: &Position) -> (stepped: Position)
    requires
        deck_well_formed(deck@),
        position_in_deck(deck@, *pos),
        spec_has_next(deck@, *pos),
    ensures
        stepped == spec_next(deck@, *pos),
        position_in_deck(deck@, stepped),
{
    // Reading the slide count pins the deck's length, which bounds
    // the slide index below, so the increment cannot overflow.
    let _slide_count: usize = deck.slide_count();
    if pos.segment + 1 < deck.segment_count(pos.slide) {
        Position { slide: pos.slide, segment: pos.segment + 1 }
    } else {
        Position { slide: pos.slide + 1, segment: 0 }
    }
}

/// One backward step. Only allowed where `has_previous` holds; the
/// result is again a position inside the deck.
pub fn previous(deck: &Deck, pos: &Position) -> (stepped: Position)
    requires
        deck_well_formed(deck@),
        position_in_deck(deck@, *pos),
        spec_has_previous(*pos),
    ensures
        stepped == spec_previous(deck@, *pos),
        position_in_deck(deck@, stepped),
{
    if pos.segment > 0 {
        Position { slide: pos.slide, segment: pos.segment - 1 }
    } else {
        let slide = pos.slide - 1;
        Position { slide, segment: deck.segment_count(slide) - 1 }
    }
}

/// An inline advance link, declared at `(slide, segment)`, is live
/// exactly when the cursor sits on that segment.
pub open spec fn spec_link_active(pos: Position, slide: nat, segment: nat) -> bool {
    pos.slide == slide && pos.segment == segment
}

/// Whether the advance link declared at `(slide, segment)` is live.
pub fn link_active(pos: &Position, slide: usize, segment: usize) -> (live: bool)
    ensures
        live == spec_link_active(*pos, slide as nat, segment as nat),
{
    pos.slide == slide && pos.segment == segment
}

/// A click on the advance link declared at `(slide, segment)`: if the
/// link is live and a further segment exists in the current slide, the
/// cursor moves onto it; otherwise the click is inert.
pub fn follow_link(deck: &Deck, pos: &Position, slide: usize, segment: usize) -> (after: Position)
    requires
        position_in_deck(deck@, *pos),
    ensures
        ({
            if spec_link_active(*pos, slide as nat, segment as nat) && (pos.segment as int) + 1
                < deck@[pos.slide as int].segment_count {
                after == (Position { slide: pos.slide, segment: (pos.segment + 1) as usize })
            } else {
                after == *pos
            }
        }),
        position_in_deck(deck@, after),
{
    if link_active(pos, slide, segment) && pos.segment + 1 < deck.segment_count(pos.slide) {
        Position { slide: pos.slide, segment: pos.segment + 1 }
    } else {
        Position { slide: pos.slide, segment: pos.segment }
    }
}

/// The backward affordance is absent exactly at the origin, and the
/// forward affordance is absent exactly at the last segment of the
/// last slide.
pub proof fn lemma_terminal_positions(deck: Seq<Slide>, pos: Position)
    requires
        deck.len() <= usize::MAX,
        deck_well_formed(deck),
        position_in_deck(deck, pos),
    ensures
        !spec_has_previous(pos) <==> pos == (Position { slide: 0, segment: 0 }),
        !spec_has_next(deck, pos) <==> (pos.slide as int) == deck.len() - 1 && (pos.segment as int)
            == deck[deck.len() - 1].segment_count - 1,
{
}

/// A forward step never lands on the origin, so a backward step is
/// allowed right after it, and taking it restores the position the
/// forward step started from.
pub proof fn lemma_next_then_previous(deck: Seq<Slide>, pos: Position)
    requires
        deck.len() <= usize::MAX,
        deck_well_formed(deck),
        position_in_deck(deck, pos),
        spec_has_next(deck, pos),
    ensures
        position_in_deck(deck, spec_next(deck, pos)),
        spec_has_previous(spec_next(deck, pos)),
        spec_previous(deck, spec_next(deck, pos)) == pos,
{
}

/// The mirror round trip: a backward step allows an immediate forward
/// step, which restores the position the backward step started from.
pub proof fn lemma_previous_then_next(deck: Seq<Slide>, pos: Position)
    requires
        deck.len() <= usize::MAX,
        deck_well_formed(deck),
        position_in_deck(deck, pos),
        spec_has_previous(pos),
    ensures
        position_in_deck(deck, spec_previous(deck, pos)),
        spec_has_next(deck, spec_previous(deck, pos)),
        spec_next(deck, spec_previous(deck, pos)) == pos,
{
}

} // verus!
