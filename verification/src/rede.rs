//! The order in which the program tries local ports until one can be bound.
use vstd::prelude::*;

verus! {

/// The first port tried.
pub const PRIMEIRA_PORTA: u16 = 1025;

/// The port tried after `porta` could not be bound: the next one, up to
/// 65534; after 65534 there is none left.
pub fn proxima_porta(porta: u16) -> (r: Option<u16>)
    ensures
        porta < 65534 ==> r == Some((porta + 1) as u16),
        porta >= 65534 ==> r is None,
{
    if porta < 65534 {
        Some(porta + 1)
    } else {
        None
    }
}

} // verus!
