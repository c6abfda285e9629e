//! Position persistence through the URL fragment. The current slide
//! is mirrored into a fragment of the form `#slide-<N>`; on load, the
//! slide is restored from it. Anything malformed or out of range
//! silently falls back to slide zero.

use vstd::prelude::*;

use crate::numeral::{
    dec_digits, dec_val, is_dec_seq, lemma_dec_digits_val, lemma_dec_seq_val_nonneg,
    parse_dec_usize, usize_to_dec,
};

verus! {

/// The fragment written for the slide at `slide`.
pub open spec fn fragment_chars(slide: nat) -> Seq<char> {
    "#slide-"@ + dec_digits(slide)
}

/// The slide restored from a fragment: the number after the
/// `#slide-` prefix when the whole fragment has that shape and the
/// number is within the deck, and slide zero in every other case.
pub open spec fn spec_restore_slide(fragment: Seq<char>, slide_count: nat) -> nat {
    if fragment.len() > 7 && fragment.take(7) == "#slide-"@ && is_dec_seq(fragment.skip(7))
        && dec_val(fragment.skip(7)) < slide_count {
        dec_val(fragment.skip(7)) as nat
    } else {
        0
    }
}

/// Serializes the current slide as a URL fragment.
pub fn fragment_for_slide(slide: usize) -> (fragment: String)
    ensures
        fragment@ == fragment_chars(slide as nat),
{
    let mut fragment = String::from_str("#slide-");
    let digits = usize_to_dec(slide);
    fragment.append(digits.as_str());
    fragment
}

/// Restores the slide from a URL fragment, falling back to slide zero
/// on anything that is not a well-formed, in-range `#slide-<N>`.
pub fn restore_slide(fragment: &str, slide_count: usize) -> (slide: usize)
    ensures
        slide as nat == spec_restore_slide(fragment@, slide_count as nat),
        slide_count > 0 ==> slide < slide_count,
{
    proof {
        reveal_strlit("#slide-");
        assert("#slide-"@.len() == 7);
    }
    let len = fragment.unicode_len();
    if len < 8 {
        return 0;
    }
    let head = fragment.substring_char(0, 7);
    if !crate::text::str_eq(head, "#slide-") {
        proof {
            assert(fragment@.take(7) =~= fragment@.subrange(0, 7));
        }
        return 0;
    }
    proof {
        assert(fragment@.take(7) =~= fragment@.subrange(0, 7));
    }
    let rest = fragment.substring_char(7, len);
    proof {
        assert(rest@ =~= fragment@.skip(7));
    }
    match parse_dec_usize(rest) {
        Some(n) => {
            proof {
                lemma_dec_seq_val_nonneg(fragment@.skip(7));
            }
            if n < slide_count {
                n
            } else {
                0
            }
        },
        None => 0,
    }
}

/// Writing the fragment for an in-range slide and restoring it yields
/// that same slide.
pub proof fn lemma_fragment_round_trip(slide: nat, slide_count: nat)
    requires
        slide < slide_count,
    ensures
        spec_restore_slide(fragment_chars(slide), slide_count) == slide,
{
    reveal_strlit("#slide-");
    assert("#slide-"@.len() == 7);
    lemma_dec_digits_val(slide);
    let fragment = fragment_chars(slide);
    assert(fragment.take(7) =~= "#slide-"@);
    assert(fragment.skip(7) =~= dec_digits(slide));
}

} // verus!
