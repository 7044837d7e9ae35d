//! An interactive board where pieces are picked up, dragged and dropped by a
//! pointer, and captured by overlap of their hit boxes rather than by the rules
//! of chess. World positions are held in tenths of a world unit.
pub mod geometry;
pub mod pieces;
pub mod position;
pub mod counting;
pub mod gameplay;
pub mod theorems;
