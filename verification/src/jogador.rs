//! A player's state: name, address, input, score, pose and the timers that
//! decide when the player may shoot, is alive, can be hit and is seen.
use crate::constantes::{
    INTERVALO_PISCADA, INTERVALO_TIROS, MEIO_ARENA_BITS, TEMPO_INVULNERAVEL, TEMPO_MORTE,
    TIMEOUT_JOGADOR, ZERO_BITS,
};
use crate::endereco::Endereco;
use crate::input_jogador::InputJogador;
use crate::temporizador::{lei_contagem, soma, Temporizador, NANOS_POR_MILLI};
use vstd::prelude::*;

verus! {

/// A player. The pose (`x_bits`, `y_bits`: position between 0.0 and 1.0;
/// `dir_bits`: direction in radians; `impulso_bits`: speed) is made of `f32`
/// values held as their IEEE 754 bit patterns; the code that moves players
/// works on them as floats.
pub struct DadosJogador {
    pub nome: String,
    pub addr: Endereco,
    pub input: InputJogador,
    pub x_bits: u32,
    pub y_bits: u32,
    pub dir_bits: u32,
    pub impulso_bits: u32,
    pub timer_tiro: Temporizador,
    pub timeout: Option<Temporizador>,
    pub pontos: u32,
    pub vida: EstadoVida,
}

/// Whether a player is alive, can be hit and is drawn: its death timer, the
/// timer of the time it cannot be hit after coming back, its blink timer and
/// its visibility. Only this module changes them, so that a dead player can
/// never be hit and a living player that can be hit is always drawn.
pub struct EstadoVida {
    timer_morte: Temporizador,
    timer_inalvejavel: Temporizador,
    timer_invisivel: Temporizador,
    visivel: bool,
}

/// `ms` milliseconds in nanoseconds.
pub open spec fn nanos_de(ms: u64) -> u64 {
    (ms * NANOS_POR_MILLI) as u64
}

impl EstadoVida {
    /// A dead player cannot be hit, a living player that can be hit is
    /// seen, and the three timers last as the game says.
    #[verifier::type_invariant]
    spec fn coerente(self) -> bool {
        &&& !self.timer_morte.pronto ==> !self.timer_inalvejavel.pronto
        &&& self.timer_morte.pronto && self.timer_inalvejavel.pronto ==> self.visivel
        &&& self.timer_morte.duracao == nanos_de(TEMPO_MORTE)
        &&& self.timer_inalvejavel.duracao == nanos_de(TEMPO_INVULNERAVEL)
        &&& self.timer_invisivel.duracao == nanos_de(INTERVALO_PISCADA)
    }

    pub closed spec fn morte(self) -> Temporizador {
        self.timer_morte
    }

    pub closed spec fn inalvejavel(self) -> Temporizador {
        self.timer_inalvejavel
    }

    pub closed spec fn invisivel(self) -> Temporizador {
        self.timer_invisivel
    }

    pub closed spec fn visivel(self) -> bool {
        self.visivel
    }
}

/// What a step of the timers leaves to the code that moves the player.
#[derive(Clone, Copy, Debug, PartialEq, Eq, Structural)]
pub struct Passo {
    /// The player was alive: turn, speed up or slow down and move it.
    pub movimenta: bool,
    /// The player shoots: add a shot from its new position.
    pub atira: bool,
}

/// A timer that is already ready and lasts `ms` milliseconds once started.
pub open spec fn timer_pronto(ms: u64) -> Temporizador {
    Temporizador { duracao: nanos_de(ms), restante: 0, pronto: true }
}

/// A timer of `ms` milliseconds that has just started.
pub open spec fn timer_novo(ms: u64) -> Temporizador {
    Temporizador { duracao: nanos_de(ms), restante: nanos_de(ms), pronto: false }
}

/// `novo` is `velho` killed, when `pontos` was its score: half the score
/// (rounded down), back in the middle of the arena facing direction 0.0
/// and standing still, its death, the time it cannot be hit and its
/// blinking started over, and the rest as it was.
pub open spec fn morto(novo: DadosJogador, velho: DadosJogador, pontos: u32) -> bool {
    &&& novo.pontos == pontos / 2
    &&& novo.x_bits == MEIO_ARENA_BITS
    &&& novo.y_bits == MEIO_ARENA_BITS
    &&& novo.dir_bits == ZERO_BITS
    &&& novo.impulso_bits == ZERO_BITS
    &&& novo.timer_morte() == velho.timer_morte().reiniciado()
    &&& novo.timer_inalvejavel() == velho.timer_inalvejavel().reiniciado()
    &&& novo.timer_invisivel() == velho.timer_invisivel().reiniciado()
    &&& novo.spec_visivel() == velho.spec_visivel()
    &&& novo.nome@ == velho.nome@
    &&& novo.addr == velho.addr
    &&& novo.input == velho.input
    &&& novo.timer_tiro == velho.timer_tiro
    &&& novo.timeout == velho.timeout
}

impl DadosJogador {
    /// The timer of the player's death; the player is alive while it is ready.
    pub open spec fn timer_morte(&self) -> Temporizador {
        self.vida.morte()
    }

    /// The timer of the time the player cannot be hit; it can be hit while
    /// it is ready.
    pub open spec fn timer_inalvejavel(&self) -> Temporizador {
        self.vida.inalvejavel()
    }

    /// The timer of the player's blinking.
    pub open spec fn timer_invisivel(&self) -> Temporizador {
        self.vida.invisivel()
    }

    /// The player is drawn.
    pub open spec fn spec_visivel(&self) -> bool {
        self.vida.visivel()
    }

    pub open spec fn spec_vivo(&self) -> bool {
        self.timer_morte().pronto
    }

    pub open spec fn spec_alvejavel(&self) -> bool {
        self.timer_inalvejavel().pronto
    }

    /// The player is one that `new` makes from `nome`, `addr` and `timeout`.
    pub open spec fn eh_novo(&self, nome: Seq<char>, addr: Endereco, timeout: bool) -> bool {
        &&& self.nome@ == nome
        &&& self.addr == addr
        &&& self.input.0 == 0
        &&& self.x_bits == MEIO_ARENA_BITS
        &&& self.y_bits == MEIO_ARENA_BITS
        &&& self.dir_bits == ZERO_BITS
        &&& self.impulso_bits == ZERO_BITS
        &&& self.timer_tiro == timer_novo(INTERVALO_TIROS)
        &&& self.timeout == (if timeout { Some(timer_novo(TIMEOUT_JOGADOR)) } else { None })
        &&& self.pontos == 0
        &&& self.timer_morte() == timer_pronto(TEMPO_MORTE)
        &&& self.timer_inalvejavel() == timer_pronto(TEMPO_INVULNERAVEL)
        &&& self.timer_invisivel() == timer_pronto(INTERVALO_PISCADA)
        &&& self.spec_visivel()
    }

    /// Everything of the player but its timers and visibility is as in `o`.
    pub open spec fn mesmos_dados(&self, o: &DadosJogador) -> bool {
        &&& self.nome@ == o.nome@
        &&& self.addr == o.addr
        &&& self.input == o.input
        &&& self.pontos == o.pontos
        &&& self.x_bits == o.x_bits
        &&& self.y_bits == o.y_bits
        &&& self.dir_bits == o.dir_bits
        &&& self.impulso_bits == o.impulso_bits
    }

    /// A player in the middle of the arena, alive, visible, able to be hit,
    /// with no score, facing direction 0.0 and standing still; with a
    /// timeout timer when `timeout` holds.
    pub fn new(nome: String, addr: Endereco, timeout: bool) -> (r: DadosJogador)
        ensures
            r.eh_novo(nome@, addr, timeout),
            r.timeout is Some <==> timeout,
            r.timeout matches Some(t) ==> t.duracao == TIMEOUT_JOGADOR * NANOS_POR_MILLI
                && t.restante == t.duracao && !t.pronto,
            r.timer_tiro.duracao == INTERVALO_TIROS * NANOS_POR_MILLI,
            r.timer_tiro.restante == r.timer_tiro.duracao && !r.timer_tiro.pronto,
            r.pontos == 0,
            r.nome@ == nome@ && r.addr == addr && r.input.0 == 0,
            r.x_bits == MEIO_ARENA_BITS && r.y_bits == MEIO_ARENA_BITS,
            r.dir_bits == ZERO_BITS && r.impulso_bits == ZERO_BITS,
            r.spec_vivo() && r.spec_alvejavel() && r.spec_visivel(),
            r.spec_vivo(),
            r.spec_alvejavel(),
    {
        DadosJogador {
            nome,
            addr,
            input: InputJogador::new(),
            x_bits: MEIO_ARENA_BITS,
            y_bits: MEIO_ARENA_BITS,
            dir_bits: ZERO_BITS,
            impulso_bits: ZERO_BITS,
            timer_tiro: Temporizador::from_millis(INTERVALO_TIROS),
            timeout: if timeout {
                Some(Temporizador::from_millis(TIMEOUT_JOGADOR))
            } else {
                None
            },
            pontos: 0,
            vida: EstadoVida {
                timer_morte: Temporizador {
                    duracao: TEMPO_MORTE * NANOS_POR_MILLI,
                    restante: 0,
                    pronto: true,
                },
                timer_inalvejavel: Temporizador {
                    duracao: TEMPO_INVULNERAVEL * NANOS_POR_MILLI,
                    restante: 0,
                    pronto: true,
                },
                timer_invisivel: Temporizador {
                    duracao: INTERVALO_PISCADA * NANOS_POR_MILLI,
                    restante: 0,
                    pronto: true,
                },
                visivel: true,
            },
        }
    }

    /// Lets `delta` nanoseconds pass for the player's timers. The shot timer
    /// and the timeout run always. A dead player only counts down its death.
    /// A living player counts down the time it cannot be hit; while it
    /// cannot be hit it blinks, flipping its visibility each time the blink
    /// timer runs out, and once it can be hit it is visible. A living player
    /// that presses the action key while its shot timer is ready shoots, and
    /// its shot timer starts over. Moving the player is left to the caller,
    /// as `Passo` says.
    pub fn update(&mut self, delta: u64) -> (r: Passo)
        ensures
            final(self).mesmos_dados(&*old(self)),
            // the pose and speed are left to the code that moves the player
            final(self).x_bits == old(self).x_bits,
            final(self).y_bits == old(self).y_bits,
            final(self).dir_bits == old(self).dir_bits,
            final(self).impulso_bits == old(self).impulso_bits,
            final(self).pontos == old(self).pontos,
            final(self).nome@ == old(self).nome@,
            final(self).addr == old(self).addr,
            final(self).input == old(self).input,
            final(self).timeout == (match old(self).timeout {
                Some(t) => Some(t.atualizado(delta)),
                None => None,
            }),
            r.movimenta == old(self).spec_vivo(),
            r.atira == (old(self).spec_vivo() && old(self).input.spec_action()
                && old(self).timer_tiro.atualizado(delta).pronto),
            final(self).timer_tiro == (if r.atira {
                old(self).timer_tiro.atualizado(delta).reiniciado()
            } else {
                old(self).timer_tiro.atualizado(delta)
            }),
            // the death timer counts down (a living player's is ready and stays so)
            final(self).timer_morte() == old(self).timer_morte().atualizado(delta),
            !old(self).spec_vivo() ==> {
                &&& final(self).timer_inalvejavel() == old(self).timer_inalvejavel()
                &&& final(self).timer_invisivel() == old(self).timer_invisivel()
                &&& final(self).spec_visivel() == old(self).spec_visivel()
            },
            old(self).spec_vivo() ==> {
                let inalvejavel = old(self).timer_inalvejavel().atualizado(delta);
                let invisivel = old(self).timer_invisivel().atualizado(delta);
                &&& final(self).timer_inalvejavel() == inalvejavel
                &&& inalvejavel.pronto ==> final(self).spec_visivel()
                    && final(self).timer_invisivel() == old(self).timer_invisivel()
                &&& !inalvejavel.pronto && invisivel.pronto ==> final(self).spec_visivel()
                    == !old(self).spec_visivel() && final(self).timer_invisivel()
                    == invisivel.reiniciado()
                &&& !inalvejavel.pronto && !invisivel.pronto ==> final(self).spec_visivel()
                    == old(self).spec_visivel() && final(self).timer_invisivel() == invisivel
            },
            // only a living player that presses the action key shoots
            r.atira ==> old(self).spec_vivo() && old(self).input.spec_action(),
            // right after a shot the player cannot shoot again
            r.atira ==> !final(self).timer_tiro.pronto,
    {
        self.timer_tiro.update(delta);
        match &mut self.timeout {
            Some(timeout) => timeout.update(delta),
            None => {},
        }
        proof {
            use_type_invariant(&self.vida);
        }
        if self.vida.timer_morte.pronto {
            let mut inalvejavel = self.vida.timer_inalvejavel;
            let mut invisivel = self.vida.timer_invisivel;
            let mut visivel = self.vida.visivel;
            inalvejavel.update(delta);
            if inalvejavel.pronto {
                visivel = true;
            } else {
                invisivel.update(delta);
                if invisivel.pronto {
                    invisivel.reset();
                    visivel = !visivel;
                }
            }
            self.vida = EstadoVida {
                timer_morte: self.vida.timer_morte,
                timer_inalvejavel: inalvejavel,
                timer_invisivel: invisivel,
                visivel,
            };
            let atira = self.input.action() && self.timer_tiro.pronto;
            if atira {
                self.timer_tiro.reset();
            }
            Passo { movimenta: true, atira }
        } else {
            let mut morte = self.vida.timer_morte;
            morte.update(delta);
            self.vida = EstadoVida {
                timer_morte: morte,
                timer_inalvejavel: self.vida.timer_inalvejavel,
                timer_invisivel: self.vida.timer_invisivel,
                visivel: self.vida.visivel,
            };
            Passo { movimenta: false, atira: false }
        }
    }

    /// Kills the player: it loses half its score (rounded down), goes back
    /// to the middle of the arena facing direction 0.0 and standing still,
    /// and its death, the time it cannot be hit and its blinking start over.
    pub fn matar(&mut self)
        ensures
            final(self).pontos == old(self).pontos / 2,
            final(self).x_bits == MEIO_ARENA_BITS,
            final(self).y_bits == MEIO_ARENA_BITS,
            final(self).dir_bits == ZERO_BITS,
            final(self).impulso_bits == ZERO_BITS,
            final(self).timer_morte() == old(self).timer_morte().reiniciado(),
            final(self).timer_inalvejavel() == old(self).timer_inalvejavel().reiniciado(),
            final(self).timer_invisivel() == old(self).timer_invisivel().reiniciado(),
            final(self).nome@ == old(self).nome@,
            final(self).addr == old(self).addr,
            final(self).input == old(self).input,
            final(self).timer_tiro == old(self).timer_tiro,
            final(self).timeout == old(self).timeout,
            final(self).spec_visivel() == old(self).spec_visivel(),
            morto(*final(self), *old(self), old(self).pontos),
            // a killed player is dead and cannot be hit
            !final(self).spec_vivo(),
            !final(self).spec_alvejavel(),
    {
        self.impulso_bits = ZERO_BITS;
        self.dir_bits = ZERO_BITS;
        proof {
            use_type_invariant(&self.vida);
        }
        let mut morte = self.vida.timer_morte;
        let mut inalvejavel = self.vida.timer_inalvejavel;
        let mut invisivel = self.vida.timer_invisivel;
        morte.reset();
        inalvejavel.reset();
        invisivel.reset();
        self.vida = EstadoVida {
            timer_morte: morte,
            timer_inalvejavel: inalvejavel,
            timer_invisivel: invisivel,
            visivel: self.vida.visivel,
        };
        self.pontos /= 2;
        self.x_bits = MEIO_ARENA_BITS;
        self.y_bits = MEIO_ARENA_BITS;
    }

    /// The player can be hit; a dead player never can.
    pub fn alvejavel(&self) -> (r: bool)
        ensures
            r == self.spec_alvejavel(),
            !self.spec_vivo() ==> !r,
    {
        proof {
            use_type_invariant(&self.vida);
        }
        self.vida.timer_inalvejavel.pronto
    }

    /// The player is alive. Its death lasts `TEMPO_MORTE` milliseconds.
    pub fn vivo(&self) -> (r: bool)
        ensures
            r == self.spec_vivo(),
            self.timer_morte().duracao == nanos_de(TEMPO_MORTE),
    {
        proof {
            use_type_invariant(&self.vida);
        }
        self.vida.timer_morte.pronto
    }

    /// The player is drawn; a living player that can be hit always is.
    pub fn visivel(&self) -> (r: bool)
        ensures
            r == self.spec_visivel(),
            self.spec_vivo() && self.spec_alvejavel() ==> r,
    {
        proof {
            use_type_invariant(&self.vida);
        }
        self.vida.visivel
    }
}

/// A killed player is dead, cannot be hit, has half the score it had
/// (rounded down) and stands still in the middle of the arena facing
/// direction 0.0; its name, address, input, shot timer and timeout are as
/// they were.
pub proof fn lei_morto(novo: DadosJogador, velho: DadosJogador, pontos: u32)
    requires
        morto(novo, velho, pontos),
    ensures
        !novo.spec_vivo(),
        !novo.spec_alvejavel(),
        novo.pontos == pontos / 2,
        novo.x_bits == 0x3F00_0000u32 && novo.y_bits == 0x3F00_0000u32,
        novo.dir_bits == 0u32 && novo.impulso_bits == 0u32,
        novo.nome@ == velho.nome@,
        novo.addr == velho.addr,
        novo.input == velho.input,
        novo.timer_tiro == velho.timer_tiro,
        novo.timeout == velho.timeout,
{
}

/// `morto` says exactly what `matar` promises of the player it kills.
pub proof fn lei_morto_e_matar(novo: DadosJogador, velho: DadosJogador)
    ensures
        morto(novo, velho, velho.pontos) <==> {
            &&& novo.pontos == velho.pontos / 2
            &&& novo.x_bits == MEIO_ARENA_BITS
            &&& novo.y_bits == MEIO_ARENA_BITS
            &&& novo.dir_bits == ZERO_BITS
            &&& novo.impulso_bits == ZERO_BITS
            &&& novo.timer_morte() == velho.timer_morte().reiniciado()
            &&& novo.timer_inalvejavel() == velho.timer_inalvejavel().reiniciado()
            &&& novo.timer_invisivel() == velho.timer_invisivel().reiniciado()
            &&& novo.nome@ == velho.nome@
            &&& novo.addr == velho.addr
            &&& novo.input == velho.input
            &&& novo.timer_tiro == velho.timer_tiro
            &&& novo.timeout == velho.timeout
            &&& novo.spec_visivel() == velho.spec_visivel()
        },
{
}

/// A step of a player's timers leaves its pose and speed, score, name,
/// address and input as they were, however many steps follow one another:
/// `estados[i + 1]` is `estados[i]` after an `update`.
pub proof fn lei_passos_guardam_pose(estados: Seq<DadosJogador>)
    requires
        estados.len() > 0,
        forall|i: int| 0 <= i < estados.len() - 1 ==> #[trigger] estados[i + 1].mesmos_dados(&estados[i]),
    ensures
        estados.last().x_bits == estados[0].x_bits,
        estados.last().y_bits == estados[0].y_bits,
        estados.last().dir_bits == estados[0].dir_bits,
        estados.last().impulso_bits == estados[0].impulso_bits,
        estados.last().pontos == estados[0].pontos,
        estados.last().nome@ == estados[0].nome@,
        estados.last().addr == estados[0].addr,
        estados.last().input == estados[0].input,
    decreases estados.len(),
{
    if estados.len() > 1 {
        let e = estados.drop_last();
        assert forall|i: int| 0 <= i < e.len() - 1 implies #[trigger] e[i + 1].mesmos_dados(&e[i]) by {
            assert(estados[i + 1].mesmos_dados(&estados[i]));
        }
        lei_passos_guardam_pose(e);
        let k = estados.len() - 2;
        assert(estados[k + 1].mesmos_dados(&estados[k]));
    }
}

/// A player that joins with a timeout is not dropped before
/// `TIMEOUT_JOGADOR` milliseconds pass without a message: its timeout has
/// all of that time left, and steps (`ds`, the times of the `update`s that
/// count it down) that add up to no more than it leave it not ready.
pub proof fn lei_novo_nao_cai_cedo(j: DadosJogador, nome: Seq<char>, addr: Endereco, ds: Seq<u64>)
    requires
        j.eh_novo(nome, addr, true),
    ensures
        j.timeout is Some,
        j.timeout->0.duracao == TIMEOUT_JOGADOR * NANOS_POR_MILLI,
        j.timeout->0.restante == j.timeout->0.duracao,
        !j.timeout->0.pronto,
        soma(ds) <= TIMEOUT_JOGADOR * NANOS_POR_MILLI ==> !j.timeout->0.atualizado_passos(ds).pronto,
        soma(ds) > TIMEOUT_JOGADOR * NANOS_POR_MILLI ==> j.timeout->0.atualizado_passos(ds).pronto,
{
    lei_contagem(j.timeout->0, ds);
}

/// A killed player comes back to life once the steps after its death add
/// up to more than `TEMPO_MORTE` milliseconds, and not before. `estados`
/// are the player after `matar` and after each later `update`, whose time
/// steps are `ds`: `matar` starts the death timer over and each `update`
/// counts it down by its step, as their contracts say.
pub proof fn lei_tempo_de_morte(p: DadosJogador, estados: Seq<DadosJogador>, ds: Seq<u64>)
    requires
        p.timer_morte().duracao == nanos_de(TEMPO_MORTE),
        estados.len() == ds.len() + 1,
        estados[0].timer_morte() == p.timer_morte().reiniciado(),
        forall|i: int|
            0 <= i < ds.len() ==> #[trigger] estados[i + 1].timer_morte()
                == estados[i].timer_morte().atualizado(ds[i]),
    ensures
        estados.last().spec_vivo() <==> soma(ds) > nanos_de(TEMPO_MORTE),
{
    let t = p.timer_morte().reiniciado();
    lemma_estados_morte(t, estados, ds);
    lei_contagem(t, ds);
}

proof fn lemma_estados_morte(t: Temporizador, estados: Seq<DadosJogador>, ds: Seq<u64>)
    requires
        estados.len() == ds.len() + 1,
        estados[0].timer_morte() == t,
        forall|i: int|
            0 <= i < ds.len() ==> #[trigger] estados[i + 1].timer_morte()
                == estados[i].timer_morte().atualizado(ds[i]),
    ensures
        estados.last().timer_morte() == t.atualizado_passos(ds),
    decreases ds.len(),
{
    if ds.len() > 0 {
        let k = ds.len() - 1;
        assert(estados.drop_last().len() == ds.drop_last().len() + 1);
        assert forall|i: int| 0 <= i < ds.drop_last().len() implies #[trigger] estados.drop_last()[i + 1].timer_morte()
            == estados.drop_last()[i].timer_morte().atualizado(ds.drop_last()[i]) by {
            assert(estados[i + 1].timer_morte() == estados[i].timer_morte().atualizado(ds[i]));
        }
        lemma_estados_morte(t, estados.drop_last(), ds.drop_last());
        assert(estados[k + 1].timer_morte() == estados[k].timer_morte().atualizado(ds[k]));
    }
}

} // verus!
