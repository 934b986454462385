//! Countdown timers, as the `rusty_time` crate keeps them, with every
//! duration held as a whole number of nanoseconds.
use std::time::Duration;
use vstd::prelude::*;

verus! {

/// Nanoseconds in a millisecond.
pub const NANOS_POR_MILLI: u64 = 1_000_000;

/// A timer that counts down from `duracao` and is `pronto` (ready) once more
/// time has passed than was left. Durations are in nanoseconds.
#[derive(Clone, Copy, Debug, PartialEq, Eq, Structural)]
pub struct Temporizador {
    pub duracao: u64,
    pub restante: u64,
    pub pronto: bool,
}

impl Temporizador {
    /// The timer after `delta` nanoseconds passed: a ready timer stays as it
    /// is; otherwise `delta` is taken from what is left, and when more than
    /// what is left passed, nothing is left and the timer is ready.
    pub open spec fn atualizado(self, delta: u64) -> Temporizador {
        if self.pronto {
            self
        } else if delta <= self.restante {
            Temporizador { duracao: self.duracao, restante: (self.restante - delta) as u64, pronto: false }
        } else {
            Temporizador { duracao: self.duracao, restante: 0, pronto: true }
        }
    }

    /// The timer after the steps `ds`, one after the other.
    pub open spec fn atualizado_passos(self, ds: Seq<u64>) -> Temporizador
        decreases ds.len(),
    {
        if ds.len() == 0 {
            self
        } else {
            self.atualizado_passos(ds.drop_last()).atualizado(ds.last())
        }
    }

    /// The timer started over: its whole duration is left and it is not ready.
    pub open spec fn reiniciado(self) -> Temporizador {
        Temporizador { duracao: self.duracao, restante: self.duracao, pronto: false }
    }

    /// A timer of `ms` milliseconds that has just started.
    pub fn from_millis(ms: u64) -> (r: Temporizador)
        requires
            ms <= u64::MAX / NANOS_POR_MILLI,
        ensures
            r.duracao == ms * NANOS_POR_MILLI,
            r.restante == r.duracao,
            !r.pronto,
    {
        let (duracao, restante, pronto) = timer_from_millis(ms);
        Temporizador { duracao, restante, pronto }
    }

    /// Starts the timer over.
    pub fn reset(&mut self)
        ensures
            *final(self) == old(self).reiniciado(),
    {
        self.pronto = false;
        self.restante = self.duracao;
    }

    /// Lets `delta` nanoseconds pass.
    pub fn update(&mut self, delta: u64)
        ensures
            *final(self) == old(self).atualizado(delta),
    {
        let (restante, pronto) = timer_update(self.duracao, self.restante, self.pronto, delta);
        self.restante = restante;
        self.pronto = pronto;
    }
}

/// A timer that starts over becomes ready exactly when more time than its
/// duration passes in one step.
pub proof fn lei_reiniciado_pronto(t: Temporizador, delta: u64)
    ensures
        t.reiniciado().atualizado(delta).pronto <==> delta > t.duracao,
{
}

/// The time that the steps `ds` add up to.
pub open spec fn soma(ds: Seq<u64>) -> int
    decreases ds.len(),
{
    if ds.len() == 0 {
        0
    } else {
        soma(ds.drop_last()) + ds.last()
    }
}

/// A timer that is not ready becomes ready exactly when the steps after it
/// add up to more than the time it had left; until then what is left drops
/// by their sum. Its duration never changes.
pub proof fn lei_contagem(t: Temporizador, ds: Seq<u64>)
    requires
        !t.pronto,
    ensures
        t.atualizado_passos(ds).pronto <==> soma(ds) > t.restante,
        !t.atualizado_passos(ds).pronto ==> t.atualizado_passos(ds).restante == t.restante - soma(ds),
        t.atualizado_passos(ds).duracao == t.duracao,
    decreases ds.len(),
{
    if ds.len() > 0 {
        lei_contagem(t, ds.drop_last());
    }
}

/// A ready timer stays as it is, however much time passes.
pub proof fn lei_pronto_permanece(t: Temporizador, delta: u64)
    requires
        t.pronto,
    ensures
        t.atualizado(delta) == t,
{
}

/// Time that passes in two steps leaves a timer that is not yet ready as
/// one step of their sum does, while the sum leaves it not ready.
pub proof fn lei_passos_somam(t: Temporizador, d1: u64, d2: u64)
    requires
        !t.pronto,
        d1 + d2 <= t.restante,
    ensures
        t.atualizado(d1).atualizado(d2) == t.atualizado((d1 + d2) as u64),
{
}

/// Calls `rusty_time::Timer::from_millis` and reads the new timer's fields
/// in nanoseconds. Trusted: that the timer lasts `ms` milliseconds, has all
/// of it left and is not ready, as the crate's source builds it.
#[verifier::external_body]
fn timer_from_millis(ms: u64) -> (r: (u64, u64, bool))
    requires
        ms <= u64::MAX / NANOS_POR_MILLI,
    ensures
        r.0 == ms * NANOS_POR_MILLI,
        r.1 == r.0,
        !r.2,
{
    let t = rusty_time::Timer::from_millis(ms);
    (t.duration.as_nanos() as u64, t.time_left.as_nanos() as u64, t.ready)
}

/// Builds a `rusty_time::Timer` from the given fields, calls its `update`
/// with `delta` nanoseconds and reads back the time left and the ready flag.
/// Trusted: the crate's `update`, which leaves a ready timer alone, takes
/// `delta` from the time left when that does not go below zero, and else sets
/// the time left to zero and the timer ready.
#[verifier::external_body]
fn timer_update(duracao: u64, restante: u64, pronto: bool, delta: u64) -> (r: (u64, bool))
    ensures
        pronto ==> r == (restante, true),
        !pronto && delta <= restante ==> r == ((restante - delta) as u64, false),
        !pronto && delta > restante ==> r == (0u64, true),
{
    let mut t = rusty_time::Timer {
        duration: Duration::from_nanos(duracao),
        time_left: Duration::from_nanos(restante),
        ready: pronto,
    };
    t.update(Duration::from_nanos(delta));
    (t.time_left.as_nanos() as u64, t.ready)
}

} // verus!
