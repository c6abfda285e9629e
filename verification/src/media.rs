//! The graphic pane of a split slide: the manifest of its video
//! entries, the pane's lifecycle around the manifest fetch, and the
//! small rules that drive playback.

use vstd::prelude::*;

use crate::text::{join_slash_prefix, spec_join_sep, spec_split_sep, split_sep};

verus! {

/// One entry of a slide's video manifest: the media file, whether it
/// plays in a loop, and whether its completion advances the cursor.
#[derive(Debug, Clone, PartialEq, Eq, Hash)]
pub struct ManifestEntry {
    pub file: String,
    pub looped: bool,
    pub auto_next: bool,
}

/// What came back from the manifest fetch: the parsed entries, a
/// transport failure, or a body that did not parse.
#[derive(Debug)]
pub enum FetchOutcome {
    Loaded(Vec<ManifestEntry>),
    HttpError,
    ParseError,
}

/// The lifecycle of a slide's graphic pane. It starts out loading;
/// a fetch outcome moves it to ready or to a terminal failure state.
#[derive(Debug)]
pub enum PaneState {
    Loading,
    Ready(Vec<ManifestEntry>),
    Failed,
}

/// The pane state after a fetch outcome arrives. Only a loading pane
/// reacts: entries make it ready, either failure makes it failed, and
/// a pane already settled stays exactly as it was — in particular a
/// failed pane is failed for good.
pub open spec fn spec_resolve_pane(pane: PaneState, outcome: FetchOutcome) -> PaneState {
    match pane {
        PaneState::Loading => match outcome {
            FetchOutcome::Loaded(entries) => PaneState::Ready(entries),
            FetchOutcome::HttpError => PaneState::Failed,
            FetchOutcome::ParseError => PaneState::Failed,
        },
        _ => pane,
    }
}

/// The entry at `index` plays exactly while the cursor is on segment
/// `index` of its slide.
pub open spec fn spec_video_shown(current_segment: nat, index: nat) -> bool {
    current_segment == index
}

/// Whether the video entry at `index` is the one playing.
pub fn video_shown(current_segment: usize, index: usize) -> (shown: bool)
    ensures
        shown == spec_video_shown(current_segment as nat, index as nat),
{
    current_segment == index
}

/// The replay button appears once a non-looping video has ended, but
/// never on the opening segment.
pub fn replay_visible(ended: bool, current_segment: usize) -> (shown: bool)
    ensures
        shown == (ended && current_segment != 0),
{
    ended && current_segment != 0
}

/// The directory that a slide's media files are served from: the
/// manifest path with its last two components cut off. A path without
/// any separator has no such directory.
pub fn video_url_base(manifest_path: &str) -> (base: Option<String>)
    ensures
        ({
            let pieces = spec_split_sep(manifest_path@, '/');
            match base {
                Some(joined) => pieces.len() >= 2 && joined@ == spec_join_sep(
                    pieces.take(pieces.len() - 2),
                    '/',
                ),
                None => pieces.len() < 2,
            }
        }),
{
    let parts = split_sep(manifest_path, '/');
    proof {
        assert(parts@.len() == spec_split_sep(manifest_path@, '/').len()) by {
            assert(parts@.map_values(|piece: String| piece@).len() == parts@.len());
        }
    }
    if parts.len() < 2 {
        None
    } else {
        let keep = parts.len() - 2;
        let joined = join_slash_prefix(&parts, keep);
        proof {
            let pieces = spec_split_sep(manifest_path@, '/');
            assert(parts@.take(keep as int).map_values(|piece: String| piece@) =~= pieces.take(
                pieces.len() - 2,
            ));
        }
        Some(joined)
    }
}

} // verus!
