//! Visibility policy: which slides and segments are shown for a given
//! cursor position. Segments reveal cumulatively: once a segment has
//! been shown, it stays shown for the rest of its slide's viewing, and
//! every segment of an earlier slide counts as fully revealed.

use vstd::prelude::*;

verus! {

/// A slide is on screen exactly when it is the current slide.
pub open spec fn spec_slide_visible(current_slide: nat, slide: nat) -> bool {
    slide == current_slide
}

/// Cumulative reveal: a segment is shown when its slide is already
/// behind the cursor, or when it is on the current slide and the
/// cursor has reached it.
pub open spec fn spec_segment_visible(
    current_slide: nat,
    current_segment: nat,
    slide: nat,
    segment: nat,
) -> bool {
    slide < current_slide || (slide == current_slide && segment <= current_segment)
}

/// Whether the slide at index `slide` is shown while the cursor is on
/// `current_slide`.
pub fn slide_visible(current_slide: usize, slide: usize) -> (shown: bool)
    ensures
        shown == spec_slide_visible(current_slide as nat, slide as nat),
{
    slide == current_slide
}

/// Whether the segment at `(slide, segment)` is shown while the cursor
/// is at `(current_slide, current_segment)`.
pub fn segment_visible(
    current_slide: usize,
    current_segment: usize,
    slide: usize,
    segment: usize,
) -> (shown: bool)
    ensures
        shown == spec_segment_visible(
            current_slide as nat,
            current_segment as nat,
            slide as nat,
            segment as nat,
        ),
{
    slide < current_slide || (slide == current_slide && segment <= current_segment)
}

/// A segment strictly ahead of the cursor's slide is never shown.
pub proof fn lemma_segment_ahead_hidden(
    current_slide: nat,
    current_segment: nat,
    slide: nat,
    segment: nat,
)
    requires
        slide > current_slide,
    ensures
        !spec_segment_visible(current_slide, current_segment, slide, segment),
{
}

} // verus!
