//! Core logic of a slide-show style blog: a deck of slides made of
//! progressively revealed segments, a cursor over them, and the pure
//! rules (visibility, navigation, URL-fragment persistence, post
//! metadata handling) that drive the surrounding user interface.

pub mod date;
pub mod deck;
pub mod engine;
pub mod fragment;
pub mod mathspan;
pub mod media;
pub mod nav;
pub mod numeral;
pub mod posts;
pub mod text;
pub mod visibility;
