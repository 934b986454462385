//! A player's keyboard state (W, A, S, D and space), one bit per key.
use vstd::prelude::*;

verus! {

/// Bit 4 holds W (up), bit 3 A (left), bit 2 S (down), bit 1 D (right) and
/// bit 0 the space bar (action).
pub struct InputJogador(pub u8);

/// Whether bit `n` of `b` is set.
pub open spec fn bit_ligado(b: u8, n: u8) -> bool {
    (b >> n) & 1 != 0
}

/// The byte that encodes the five keys.
pub open spec fn codificar(w: bool, a: bool, s: bool, d: bool, spc: bool) -> u8 {
    ((if w { 16int } else { 0int }) + (if a { 8int } else { 0int }) + (if s { 4int } else { 0int })
        + (if d { 2int } else { 0int }) + (if spc { 1int } else { 0int })) as u8
}

impl InputJogador {
    pub open spec fn spec_up(&self) -> bool {
        bit_ligado(self.0, 4)
    }

    pub open spec fn spec_left(&self) -> bool {
        bit_ligado(self.0, 3)
    }

    pub open spec fn spec_down(&self) -> bool {
        bit_ligado(self.0, 2)
    }

    pub open spec fn spec_right(&self) -> bool {
        bit_ligado(self.0, 1)
    }

    pub open spec fn spec_action(&self) -> bool {
        bit_ligado(self.0, 0)
    }

    /// No key pressed.
    pub fn new() -> (r: Self)
        ensures
            r.0 == 0,
            !r.spec_up() && !r.spec_left() && !r.spec_down() && !r.spec_right()
                && !r.spec_action(),
    {
        let r = InputJogador(0);
        assert(bit_ligado(0, 4) == false && bit_ligado(0, 3) == false && bit_ligado(0, 2) == false
            && bit_ligado(0, 1) == false && bit_ligado(0, 0) == false) by (bit_vector);
        r
    }

    /// Replaces the whole state with the five given keys.
    pub fn bool_input(&mut self, w: bool, a: bool, s: bool, d: bool, spc: bool)
        ensures
            final(self).0 == codificar(w, a, s, d, spc),
            final(self).0 < 32,
            final(self).spec_up() == w,
            final(self).spec_left() == a,
            final(self).spec_down() == s,
            final(self).spec_right() == d,
            final(self).spec_action() == spc,
    {
        self.0 = 0;
        if w {
            self.0 |= 16;
        } else {
            proof { lemma_or_zero(self.0); }
        }
        if a {
            self.0 |= 8;
        } else {
            proof { lemma_or_zero(self.0); }
        }
        if s {
            self.0 |= 4;
        } else {
            proof { lemma_or_zero(self.0); }
        }
        if d {
            self.0 |= 2;
        } else {
            proof { lemma_or_zero(self.0); }
        }
        if spc {
            self.0 |= 1;
        } else {
            proof { lemma_or_zero(self.0); }
        }
        proof {
            lemma_codificar(w, a, s, d, spc);
        }
    }

    /// W is pressed.
    pub fn up(&self) -> (r: bool)
        ensures
            r == self.spec_up(),
    {
        ((self.0 >> 4) & 1) != 0
    }

    /// A is pressed.
    pub fn left(&self) -> (r: bool)
        ensures
            r == self.spec_left(),
    {
        ((self.0 >> 3) & 1) != 0
    }

    /// S is pressed.
    pub fn down(&self) -> (r: bool)
        ensures
            r == self.spec_down(),
    {
        ((self.0 >> 2) & 1) != 0
    }

    /// D is pressed.
    pub fn right(&self) -> (r: bool)
        ensures
            r == self.spec_right(),
    {
        ((self.0 >> 1) & 1) != 0
    }

    /// The space bar is pressed.
    pub fn action(&self) -> (r: bool)
        ensures
            r == self.spec_action(),
    {
        let b = self.0;
        assert(b >> 0u8 == b) by (bit_vector);
        (self.0 & 1) != 0
    }
}

proof fn lemma_or_zero(x: u8)
    ensures
        x | 0u8 == x,
{
    assert(x | 0u8 == x) by (bit_vector);
}

/// The code of five keys is the bitwise or of their masks, below 32, and each
/// key reads back from its own bit.
pub proof fn lemma_codificar(w: bool, a: bool, s: bool, d: bool, spc: bool)
    ensures
        codificar(w, a, s, d, spc) == ((((0u8 | (if w { 16u8 } else { 0u8 })) | (if a { 8u8 } else { 0u8 }))
            | (if s { 4u8 } else { 0u8 })) | (if d { 2u8 } else { 0u8 })) | (if spc { 1u8 } else { 0u8 }),
        codificar(w, a, s, d, spc) < 32,
        bit_ligado(codificar(w, a, s, d, spc), 4) == w,
        bit_ligado(codificar(w, a, s, d, spc), 3) == a,
        bit_ligado(codificar(w, a, s, d, spc), 2) == s,
        bit_ligado(codificar(w, a, s, d, spc), 1) == d,
        bit_ligado(codificar(w, a, s, d, spc), 0) == spc,
{
    let c = codificar(w, a, s, d, spc);
    let bw: u8 = if w { 16 } else { 0 };
    let ba: u8 = if a { 8 } else { 0 };
    let bs: u8 = if s { 4 } else { 0 };
    let bd: u8 = if d { 2 } else { 0 };
    let bspc: u8 = if spc { 1 } else { 0 };
    assert(c == bw + ba + bs + bd + bspc);
    assert({
        &&& bw + ba + bs + bd + bspc == ((((0u8 | bw) | ba) | bs) | bd) | bspc
        &&& bw + ba + bs + bd + bspc < 32
        &&& ((((bw + ba + bs + bd + bspc) as u8) >> 4u8) & 1u8 != 0) == (bw == 16)
        &&& ((((bw + ba + bs + bd + bspc) as u8) >> 3u8) & 1u8 != 0) == (ba == 8)
        &&& ((((bw + ba + bs + bd + bspc) as u8) >> 2u8) & 1u8 != 0) == (bs == 4)
        &&& ((((bw + ba + bs + bd + bspc) as u8) >> 1u8) & 1u8 != 0) == (bd == 2)
        &&& ((((bw + ba + bs + bd + bspc) as u8) >> 0u8) & 1u8 != 0) == (bspc == 1)
    }) by (bit_vector)
        requires
            bw == 16 || bw == 0,
            ba == 8 || ba == 0,
            bs == 4 || bs == 0,
            bd == 2 || bd == 0,
            bspc == 1 || bspc == 0,
    ;
}

} // verus!
