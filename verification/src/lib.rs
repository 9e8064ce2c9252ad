//! Placing a finished image on a printed sheet.
//!
//! The dialog that this library is the heart of owns the placement: paper, orientation, margins,
//! scaling, rotation and position. All lengths are exact numbers, so what is proved of them holds
//! without any rounding; a number is rounded once, where it leaves the library as text or as a
//! floating point number.

pub mod controls;
pub mod decimal;
pub mod dialog;
pub mod dialog_laws;
pub mod double;
pub mod event_laws;
pub mod fit;
pub mod job;
pub mod natural;
pub mod number;
pub mod painting;
pub mod picture;
pub mod placement;
pub mod placement_laws;
pub mod preview;
pub mod sheet;
