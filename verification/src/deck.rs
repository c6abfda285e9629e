//! The deck registry: slides and their segments are recorded in
//! declaration order during a single mount pass, and the deck is
//! read-only afterwards. Indices are handed out densely, starting at
//! zero, in the order of registration.

use vstd::prelude::*;

use crate::text::str_eq;

verus! {

/// The two supported slide layouts: plain text, or text beside a
/// graphic pane.
#[derive(Debug, Clone, Copy, PartialEq, Eq, Structural)]
pub enum SlideKind {
    Text,
    Split,
}

impl Default for SlideKind {
    /// The layout used when a slide declares none.
    fn default() -> (kind: Self)
        ensures
            kind == SlideKind::Text,
    {
        SlideKind::Text
    }
}

impl SlideKind {
    /// Reads a layout name: `"text"` and `"split"` are the only
    /// accepted spellings.
    pub fn from_str(s: &str) -> (kind: Result<Self, ()>)
        ensures
            s@ == "text"@ ==> kind == Ok::<SlideKind, ()>(SlideKind::Text),
            s@ == "split"@ ==> kind == Ok::<SlideKind, ()>(SlideKind::Split),
            s@ != "text"@ && s@ != "split"@ ==> kind == Err::<SlideKind, ()>(()),
    {
        proof {
            reveal_strlit("text");
            reveal_strlit("split");
            assert("text"@.len() == 4);
            assert("split"@.len() == 5);
        }
        if str_eq(s, "text") {
            Ok(SlideKind::Text)
        } else if str_eq(s, "split") {
            Ok(SlideKind::Split)
        } else {
            Err(())
        }
    }
}

impl core::str::FromStr for SlideKind {
    type Err = ();

    fn from_str(s: &str) -> Result<Self, Self::Err> {
        SlideKind::from_str(s)
    }
}

/// One registered slide: its layout and how many segments it has
/// declared so far.
#[derive(Debug, Clone, Copy, PartialEq, Eq, Structural)]
pub struct Slide {
    pub kind: SlideKind,
    pub segment_count: usize,
}

/// The registry of slides for one presentation, in declaration order.
#[derive(Debug)]
pub struct Deck {
    slides: Vec<Slide>,
}

impl View for Deck {
    type V = Seq<Slide>;

    closed spec fn view(&self) -> Seq<Slide> {
        self.slides@
    }
}

/// A fully declared deck is well-formed when it has at least one
/// slide and every slide has at least one segment.
pub open spec fn deck_well_formed(deck: Seq<Slide>) -> bool {
    &&& deck.len() > 0
    &&& forall|i: int| 0 <= i < deck.len() ==> #[trigger] deck[i].segment_count > 0
}

impl Default for Deck {
    /// The empty registry.
    fn default() -> (deck: Self)
        ensures
            deck@ == Seq::<Slide>::empty(),
    {
        Deck { slides: Vec::new() }
    }
}

impl Deck {
    /// An empty registry, ready for the declaration pass.
    pub fn new() -> (deck: Self)
        ensures
            deck@ == Seq::<Slide>::empty(),
    {
        Deck { slides: Vec::new() }
    }

    /// How many slides have been registered.
    pub fn slide_count(&self) -> (n: usize)
        ensures
            n == self@.len(),
    {
        self.slides.len()
    }

    /// How many segments the slide at `slide` has registered.
    pub fn segment_count(&self, slide: usize) -> (n: usize)
        requires
            slide < self@.len(),
        ensures
            n == self@[slide as int].segment_count,
    {
        self.slides[slide].segment_count
    }

    /// The layout of the slide at `slide`.
    pub fn kind(&self, slide: usize) -> (kind: SlideKind)
        requires
            slide < self@.len(),
        ensures
            kind == self@[slide as int].kind,
    {
        self.slides[slide].kind
    }

    /// Opens a new slide and returns its index: the next free one, so
    /// slide indices are dense and follow declaration order.
    pub fn register_slide(&mut self, kind: SlideKind) -> (index: usize)
        requires
            old(self)@.len() < usize::MAX,
        ensures
            index == old(self)@.len(),
            final(self)@ == old(self)@.push((Slide { kind, segment_count: 0 })),
    {
        let index = self.slides.len();
        self.slides.push(Slide { kind, segment_count: 0 });
        index
    }

    /// Adds one segment to the most recently opened slide and returns
    /// the pair of indices assigned to it. A segment can only be
    /// declared inside a slide, and segment indices within a slide are
    /// dense and follow declaration order.
    pub fn register_segment(&mut self) -> (index: (usize, usize))
        requires
            old(self)@.len() > 0,
            old(self)@.last().segment_count < usize::MAX,
        ensures
            index.0 == old(self)@.len() - 1,
            index.1 == old(self)@.last().segment_count,
            final(self)@ == old(self)@.update(
                old(self)@.len() - 1,
                (Slide {
                    kind: old(self)@.last().kind,
                    segment_count: (old(self)@.last().segment_count + 1) as usize,
                }),
            ),
    {
        let slide = self.slides.len() - 1;
        let segment = self.slides[slide].segment_count;
        self.slides[slide].segment_count = segment + 1;
        (slide, segment)
    }

    /// Whether the declared deck is well-formed: nonempty, with no
    /// slide left without a segment.
    pub fn is_well_formed(&self) -> (ok: bool)
        ensures
            ok == deck_well_formed(self@),
    {
        if self.slides.len() == 0 {
            return false;
        }
        let mut i: usize = 0;
        while i < self.slides.len()
            invariant
                i <= self@.len(),
                forall|j: int| 0 <= j < i ==> #[trigger] self@[j].segment_count > 0,
            decreases self@.len() - i,
        {
            if self.slides[i].segment_count == 0 {
                return false;
            }
            i += 1;
        }
        true
    }
}

} // verus!
