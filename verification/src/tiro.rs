//! A shot flying across the arena.
use crate::endereco::Endereco;
use vstd::prelude::*;

verus! {

/// A shot: the address of the player who fired it, its position (each
/// coordinate between 0.0 and 1.0) and its direction in radians. The three
/// numbers are `f32` values held as their IEEE 754 bit patterns.
pub struct Tiro {
    pub origem: Endereco,
    pub x_bits: u32,
    pub y_bits: u32,
    pub dir_bits: u32,
}

} // verus!
