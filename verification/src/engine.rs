//! The presentation engine: one handle holding the declared deck, the
//! cursor, and the graphic panes, threaded through the component tree
//! at mount. The cursor moves only through the navigation operations
//! here, which keep it inside the deck; pane updates never touch the
//! cursor, and cursor moves never touch a pane.

use vstd::prelude::*;

use crate::deck::{Deck, Slide, deck_well_formed};
use crate::fragment::{fragment_chars, fragment_for_slide, restore_slide, spec_restore_slide};
use crate::media::{FetchOutcome, PaneState, spec_resolve_pane};
use crate::nav::{
    Position, has_next, has_previous, next, position_in_deck, previous, spec_has_next,
    spec_has_previous, spec_link_active, spec_next, spec_previous,
};

verus! {

/// The mounted presentation: the immutable deck, the cursor over it,
/// and one graphic pane per slide.
#[derive(Debug)]
pub struct Engine {
    deck: Deck,
    position: Position,
    panes: Vec<PaneState>,
}

impl Engine {
    /// The declared slides.
    pub closed spec fn deck_view(&self) -> Seq<Slide> {
        self.deck@
    }

    /// The cursor.
    pub closed spec fn position_view(&self) -> Position {
        self.position
    }

    /// The graphic panes, one per slide.
    pub closed spec fn panes_view(&self) -> Seq<PaneState> {
        self.panes@
    }

    /// The engine's invariant: the deck is well-formed, the cursor
    /// points at one of its segments, and every slide has its pane.
    pub open spec fn wf(&self) -> bool {
        &&& deck_well_formed(self.deck_view())
        &&& position_in_deck(self.deck_view(), self.position_view())
        &&& self.panes_view().len() == self.deck_view().len()
    }

    /// Mounts a declared deck, restoring the cursor's slide from the
    /// given URL fragment (out of range or malformed falls back to
    /// the first slide); every pane starts out loading.
    pub fn mount(deck: Deck, fragment: &str) -> (engine: Engine)
        requires
            deck_well_formed(deck@),
        ensures
            engine.wf(),
            engine.deck_view() == deck@,
            engine.position_view().slide as nat == spec_restore_slide(fragment@, deck@.len()),
            engine.position_view().segment == 0,
            forall|i: int|
                0 <= i < engine.panes_view().len() ==> engine.panes_view()[i] is Loading,
    {
        let slide_count = deck.slide_count();
        let slide = restore_slide(fragment, slide_count);
        let mut panes: Vec<PaneState> = Vec::new();
        let mut i: usize = 0;
        while i < slide_count
            invariant
                i <= slide_count,
                panes@.len() == i,
                forall|j: int| 0 <= j < i ==> panes@[j] is Loading,
            decreases slide_count - i,
        {
            panes.push(PaneState::Loading);
            i += 1;
        }
        Engine { deck, position: Position { slide, segment: 0 }, panes }
    }

    /// The cursor's slide.
    pub fn current_slide(&self) -> (slide: usize)
        ensures
            slide == self.position_view().slide,
    {
        self.position.slide
    }

    /// The cursor's segment.
    pub fn current_segment(&self) -> (segment: usize)
        ensures
            segment == self.position_view().segment,
    {
        self.position.segment
    }

    /// How many slides the deck has.
    pub fn slide_count(&self) -> (count: usize)
        ensures
            count == self.deck_view().len(),
    {
        self.deck.slide_count()
    }

    /// How many segments the slide at `slide` has.
    pub fn segment_count(&self, slide: usize) -> (count: usize)
        requires
            slide < self.deck_view().len(),
        ensures
            count == self.deck_view()[slide as int].segment_count,
    {
        self.deck.segment_count(slide)
    }

    /// The pane of the slide at `slide`.
    pub fn pane(&self, slide: usize) -> (pane: &PaneState)
        requires
            slide < self.panes_view().len(),
        ensures
            *pane == self.panes_view()[slide as int],
    {
        &self.panes[slide]
    }

    /// Whether a backward step is allowed.
    pub fn has_previous(&self) -> (allowed: bool)
        ensures
            allowed == spec_has_previous(self.position_view()),
    {
        has_previous(&self.position)
    }

    /// Whether a forward step is allowed.
    pub fn has_next(&self) -> (allowed: bool)
        requires
            self.wf(),
        ensures
            allowed == spec_has_next(self.deck_view(), self.position_view()),
    {
        has_next(&self.deck, &self.position)
    }

    /// One backward step of the cursor. Nothing but the cursor moves.
    pub fn previous(&mut self)
        requires
            old(self).wf(),
            spec_has_previous(old(self).position_view()),
        ensures
            final(self).wf(),
            final(self).position_view() == spec_previous(
                old(self).deck_view(),
                old(self).position_view(),
            ),
            final(self).deck_view() == old(self).deck_view(),
            final(self).panes_view() == old(self).panes_view(),
    {
        self.position = previous(&self.deck, &self.position);
    }

    /// One forward step of the cursor. Nothing but the cursor moves.
    pub fn next(&mut self)
        requires
            old(self).wf(),
            spec_has_next(old(self).deck_view(), old(self).position_view()),
        ensures
            final(self).wf(),
            final(self).position_view() == spec_next(
                old(self).deck_view(),
                old(self).position_view(),
            ),
            final(self).deck_view() == old(self).deck_view(),
            final(self).panes_view() == old(self).panes_view(),
    {
        self.position = next(&self.deck, &self.position);
    }

    /// A click on the advance link declared at `(slide, segment)`:
    /// the cursor moves one segment forward when the link is live and
    /// a further segment exists in its slide, and stays put otherwise.
    pub fn follow_link(&mut self, slide: usize, segment: usize)
        requires
            old(self).wf(),
        ensures
            final(self).wf(),
            ({
                let pos = old(self).position_view();
                if spec_link_active(pos, slide as nat, segment as nat) && (pos.segment as int) + 1
                    < old(self).deck_view()[pos.slide as int].segment_count {
                    final(self).position_view() == (Position {
                        slide: pos.slide,
                        segment: (pos.segment + 1) as usize,
                    })
                } else {
                    final(self).position_view() == pos
                }
            }),
            final(self).deck_view() == old(self).deck_view(),
            final(self).panes_view() == old(self).panes_view(),
    {
        self.position = crate::nav::follow_link(&self.deck, &self.position, slide, segment);
    }

    /// The end of the video at `index` on the slide at `slide`: when
    /// that entry asks to advance and the cursor is exactly on that
    /// segment with a further segment after it, the cursor moves one
    /// segment forward; every other ending is ignored.
    pub fn video_ended(&mut self, slide: usize, index: usize)
        requires
            old(self).wf(),
            slide < old(self).deck_view().len(),
        ensures
            final(self).wf(),
            ({
                let pos = old(self).position_view();
                let advances = {
                    &&& old(self).panes_view()[slide as int] matches PaneState::Ready(entries)
                    &&& (index as int) < entries.len()
                    &&& entries[index as int].auto_next
                    &&& pos.slide == slide
                    &&& pos.segment == index
                    &&& (pos.segment as int) + 1 < old(self).deck_view()[pos.slide as int].segment_count
                };
                if advances {
                    final(self).position_view() == (Position {
                        slide: pos.slide,
                        segment: (pos.segment + 1) as usize,
                    })
                } else {
                    final(self).position_view() == pos
                }
            }),
            final(self).deck_view() == old(self).deck_view(),
            final(self).panes_view() == old(self).panes_view(),
    {
        let auto_next = match &self.panes[slide] {
            PaneState::Ready(entries) => index < entries.len() && entries[index].auto_next,
            _ => false,
        };
        if auto_next && slide == self.position.slide && index == self.position.segment
            && self.position.segment + 1 < self.deck.segment_count(self.position.slide) {
            self.position = Position { slide: self.position.slide, segment: self.position.segment + 1 };
        }
    }

    /// The manifest fetch of the slide at `slide` settled. Only that
    /// slide's pane reacts, and only out of its loading state — a
    /// pane that already failed stays failed. The cursor and every
    /// other pane are untouched.
    pub fn apply_fetch(&mut self, slide: usize, outcome: FetchOutcome)
        requires
            old(self).wf(),
            slide < old(self).deck_view().len(),
        ensures
            final(self).wf(),
            final(self).position_view() == old(self).position_view(),
            final(self).deck_view() == old(self).deck_view(),
            final(self).panes_view() == old(self).panes_view().update(
                slide as int,
                spec_resolve_pane(old(self).panes_view()[slide as int], outcome),
            ),
    {
        let loading = match &self.panes[slide] {
            PaneState::Loading => true,
            _ => false,
        };
        if loading {
            let settled = match outcome {
                FetchOutcome::Loaded(entries) => PaneState::Ready(entries),
                FetchOutcome::HttpError => PaneState::Failed,
                FetchOutcome::ParseError => PaneState::Failed,
            };
            self.panes[slide] = settled;
        } else {
            proof {
                assert(self.panes@ =~= old(self).panes@.update(
                    slide as int,
                    spec_resolve_pane(old(self).panes@[slide as int], outcome),
                ));
            }
        }
    }

    /// The control bar's counter, `<current> / <total>`, counting
    /// slides from one.
    pub fn position_label(&self) -> (label: String)
        requires
            self.wf(),
        ensures
            label@ == crate::numeral::dec_digits(self.position_view().slide as nat + 1) + " / "@
                + crate::numeral::dec_digits(self.deck_view().len() as nat),
    {
        let total = self.deck.slide_count();
        let mut label = crate::numeral::usize_to_dec(self.position.slide + 1);
        label.append(" / ");
        let total_digits = crate::numeral::usize_to_dec(total);
        label.append(total_digits.as_str());
        label
    }

    /// The URL fragment mirroring the cursor's slide.
    pub fn fragment(&self) -> (fragment: String)
        ensures
            fragment@ == fragment_chars(self.position_view().slide as nat),
    {
        fragment_for_slide(self.position.slide)
    }
}

} // verus!
