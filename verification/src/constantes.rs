//! The game's timings, in milliseconds, and the bit patterns of the
//! positions that a player starts from.
use vstd::prelude::*;

verus! {

/// Time between two shots of a player.
pub const INTERVALO_TIROS: u64 = 500;

/// Time after which a remote player that sent nothing is dropped.
pub const TIMEOUT_JOGADOR: u64 = 5000;

/// Time a killed player stays dead.
pub const TEMPO_MORTE: u64 = 3000;

/// Time a player cannot be hit after coming back to life.
pub const TEMPO_INVULNERAVEL: u64 = 2000;

/// Time between two blinks of a player that cannot be hit.
pub const INTERVALO_PISCADA: u64 = 100;

/// The bit pattern of the `f32` value 0.5, the middle of the arena.
pub const MEIO_ARENA_BITS: u32 = 0x3F00_0000;

/// The bit pattern of the `f32` value 0.0.
pub const ZERO_BITS: u32 = 0;

} // verus!
