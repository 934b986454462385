//! The list of players in the game.
use crate::endereco::Endereco;
use crate::input_jogador::InputJogador;
use crate::jogador::{morto, DadosJogador};
use crate::constantes::{MEIO_ARENA_BITS, ZERO_BITS};
use crate::temporizador::Temporizador;
use vstd::prelude::*;

verus! {

/// The players, in the order in which they joined (a removal moves the last
/// player into the removed one's place).
pub struct Jogadores(Vec<DadosJogador>);

/// `i` is the first position of `s` that holds a player with address `addr`.
pub open spec fn primeiro_com_addr(s: Seq<DadosJogador>, addr: Endereco, i: int) -> bool {
    &&& 0 <= i < s.len()
    &&& s[i].addr == addr
    &&& forall|j: int| 0 <= j < i ==> s[j].addr != addr
}

/// Some player of `s` has address `addr`.
pub open spec fn contem_addr(s: Seq<DadosJogador>, addr: Endereco) -> bool {
    exists|i: int| 0 <= i < s.len() && s[i].addr == addr
}

/// The first position of `s` that holds a player with address `addr`.
pub open spec fn indice_com_addr(s: Seq<DadosJogador>, addr: Endereco) -> int {
    choose|i: int| primeiro_com_addr(s, addr, i)
}

/// The first position that holds a given address is the one that
/// `indice_com_addr` names.
pub proof fn lemma_indice_com_addr(s: Seq<DadosJogador>, addr: Endereco, i: int)
    requires
        primeiro_com_addr(s, addr, i),
    ensures
        indice_com_addr(s, addr) == i,
{
    let k = indice_com_addr(s, addr);
    assert(primeiro_com_addr(s, addr, k));
    if k < i {
        assert(s[k].addr != addr);
    } else if k > i {
        assert(s[i].addr != addr);
    }
}

/// When some player has address `addr`, `indice_com_addr` names the first.
pub proof fn lemma_existe_primeiro(s: Seq<DadosJogador>, addr: Endereco)
    requires
        contem_addr(s, addr),
    ensures
        primeiro_com_addr(s, addr, indice_com_addr(s, addr)),
{
    lemma_primeiro_ate(s, addr, s.len() as int);
}

proof fn lemma_primeiro_ate(s: Seq<DadosJogador>, addr: Endereco, n: int)
    requires
        0 <= n <= s.len(),
        exists|i: int| 0 <= i < n && s[i].addr == addr,
    ensures
        exists|k: int| primeiro_com_addr(s, addr, k),
    decreases n,
{
    if exists|i: int| 0 <= i < n - 1 && s[i].addr == addr {
        lemma_primeiro_ate(s, addr, n - 1);
    } else {
        assert(primeiro_com_addr(s, addr, n - 1));
    }
}

impl View for Jogadores {
    type V = Seq<DadosJogador>;

    closed spec fn view(&self) -> Seq<DadosJogador> {
        self.0@
    }
}

/// No two players of `s` share an address.
pub open spec fn enderecos_unicos(s: Seq<DadosJogador>) -> bool {
    forall|i: int, j: int| 0 <= i < j < s.len() ==> s[i].addr != s[j].addr
}

/// `novo` is `velho` after a new message from its client: the name and the
/// input it sent, and its timeout started over.
pub open spec fn renovado(novo: DadosJogador, velho: DadosJogador, nome: Seq<char>, input: InputJogador) -> bool {
    &&& novo.nome@ == nome
    &&& novo.input == input
    &&& novo.timeout == (match velho.timeout {
        Some(t) => Some(t.reiniciado()),
        None => None,
    })
    &&& novo.addr == velho.addr
    &&& novo.pontos == velho.pontos
    &&& novo.x_bits == velho.x_bits
    &&& novo.y_bits == velho.y_bits
    &&& novo.dir_bits == velho.dir_bits
    &&& novo.impulso_bits == velho.impulso_bits
    &&& novo.timer_tiro == velho.timer_tiro
    &&& novo.vida == velho.vida
}

/// An operation that changes how many players there are, as the counting
/// law names them.
pub enum OperacaoLista {
    Push,
    AddOrUpdate { addr: Endereco },
    SwapRemove,
}

/// How much an operation on the list `s` changes its length: `push` adds
/// a player, `add_or_update` adds one when the address was not in the list,
/// and `swap_remove` takes one away.
pub open spec fn variacao(s: Seq<DadosJogador>, op: OperacaoLista) -> int {
    match op {
        OperacaoLista::Push => 1,
        OperacaoLista::AddOrUpdate { addr } => if contem_addr(s, addr) {
            0
        } else {
            1
        },
        OperacaoLista::SwapRemove => -1,
    }
}

/// The number of `push` operations in `ops`.
pub open spec fn conta_push(ops: Seq<OperacaoLista>) -> int
    decreases ops.len(),
{
    if ops.len() == 0 {
        0
    } else {
        conta_push(ops.drop_last()) + if ops.last() is Push { 1int } else { 0int }
    }
}

/// The number of `swap_remove` operations in `ops`.
pub open spec fn conta_remocoes(ops: Seq<OperacaoLista>) -> int
    decreases ops.len(),
{
    if ops.len() == 0 {
        0
    } else {
        conta_remocoes(ops.drop_last()) + if ops.last() is SwapRemove { 1int } else { 0int }
    }
}

/// The number of `add_or_update` operations in `ops` whose address was not
/// in the list they were applied to (`estados[i]` is the list before
/// `ops[i]`).
pub open spec fn conta_novos(estados: Seq<Seq<DadosJogador>>, ops: Seq<OperacaoLista>) -> int
    decreases ops.len(),
{
    if ops.len() == 0 {
        0
    } else {
        conta_novos(estados, ops.drop_last()) + match ops.last() {
            OperacaoLista::AddOrUpdate { addr } => if contem_addr(estados[ops.len() - 1], addr) {
                0int
            } else {
                1int
            },
            _ => 0int,
        }
    }
}

/// The length of a player list after some operations is the length before,
/// plus one for each `push` and each `add_or_update` of an address that was
/// not in the list, minus one for each `swap_remove`. `estados[i]` is the
/// list before `ops[i]`; each step changes the length as that operation's
/// contract says.
pub proof fn lei_contagem_jogadores(estados: Seq<Seq<DadosJogador>>, ops: Seq<OperacaoLista>)
    requires
        estados.len() == ops.len() + 1,
        forall|i: int|
            0 <= i < ops.len() ==> #[trigger] estados[i + 1].len() == estados[i].len() + variacao(
                estados[i],
                ops[i],
            ),
    ensures
        estados.last().len() == estados[0].len() + conta_push(ops) + conta_novos(estados, ops)
            - conta_remocoes(ops),
    decreases ops.len(),
{
    if ops.len() > 0 {
        let k = ops.len() - 1;
        let e = estados.drop_last();
        assert forall|i: int| 0 <= i < ops.drop_last().len() implies #[trigger] e[i + 1].len()
            == e[i].len() + variacao(e[i], ops.drop_last()[i]) by {
            assert(estados[i + 1].len() == estados[i].len() + variacao(estados[i], ops[i]));
        }
        lei_contagem_jogadores(e, ops.drop_last());
        assert(conta_novos(e, ops.drop_last()) == conta_novos(estados, ops.drop_last())) by {
            lemma_conta_novos_prefixo(estados, ops.drop_last());
        }
        assert(estados[k + 1].len() == estados[k].len() + variacao(estados[k], ops[k]));
    }
}

/// `conta_novos` reads only the lists before each operation.
proof fn lemma_conta_novos_prefixo(estados: Seq<Seq<DadosJogador>>, ops: Seq<OperacaoLista>)
    requires
        estados.len() >= ops.len() + 1,
    ensures
        conta_novos(estados.drop_last(), ops) == conta_novos(estados, ops),
    decreases ops.len(),
{
    if ops.len() > 0 {
        lemma_conta_novos_prefixo(estados, ops.drop_last());
    }
}

/// What `add_or_update` does to the list `s`, giving `f`, for a message
/// from `addr` with name `nome` and input `input`.
pub open spec fn apos_mensagem(
    s: Seq<DadosJogador>,
    f: Seq<DadosJogador>,
    addr: Endereco,
    nome: Seq<char>,
    input: InputJogador,
) -> bool {
    &&& contem_addr(s, addr) ==> {
        let i = indice_com_addr(s, addr);
        &&& f.len() == s.len()
        &&& renovado(f[i], s[i], nome, input)
        &&& forall|k: int| 0 <= k < s.len() && k != i ==> f[k] == s[k]
    }
    &&& !contem_addr(s, addr) ==> {
        &&& f.len() == s.len() + 1
        &&& f.drop_last() == s
        &&& f.last().eh_novo(nome, addr, true)
    }
}

/// A player refreshed by a message from its client takes the name and
/// input the message carries and has its timeout started over; its score,
/// address, pose, shot timer and life are as they were.
pub proof fn lei_renovado(novo: DadosJogador, velho: DadosJogador, nome: Seq<char>, input: InputJogador)
    requires
        renovado(novo, velho, nome, input),
    ensures
        novo.nome@ == nome,
        novo.input == input,
        velho.timeout matches Some(t) ==> novo.timeout == Some(
            Temporizador { duracao: t.duracao, restante: t.duracao, pronto: false },
        ),
        velho.timeout is None ==> novo.timeout is None,
        novo.pontos == velho.pontos,
        novo.addr == velho.addr,
        novo.x_bits == velho.x_bits,
        novo.y_bits == velho.y_bits,
        novo.dir_bits == velho.dir_bits,
        novo.impulso_bits == velho.impulso_bits,
        novo.timer_tiro == velho.timer_tiro,
        novo.vida == velho.vida,
        novo.spec_vivo() == velho.spec_vivo(),
        novo.spec_alvejavel() == velho.spec_alvejavel(),
        novo.spec_visivel() == velho.spec_visivel(),
{
}

/// However many messages arrive, one after the other (`estados[j + 1]` is
/// `estados[j]` after the message `msgs[j]`), every player that was in the
/// list keeps its place, address and score, and a new player joins with no
/// points.
pub proof fn lei_mensagens_guardam_pontos(
    estados: Seq<Seq<DadosJogador>>,
    msgs: Seq<(Endereco, Seq<char>, InputJogador)>,
)
    requires
        estados.len() == msgs.len() + 1,
        forall|j: int|
            0 <= j < msgs.len() ==> #[trigger] apos_mensagem(
                estados[j],
                estados[j + 1],
                msgs[j].0,
                msgs[j].1,
                msgs[j].2,
            ),
    ensures
        estados.last().len() >= estados[0].len(),
        forall|k: int|
            0 <= k < estados[0].len() ==> #[trigger] estados.last()[k].pontos == estados[0][k].pontos
                && estados.last()[k].addr == estados[0][k].addr,
        forall|k: int| estados[0].len() <= k < estados.last().len() ==> #[trigger] estados.last()[k].pontos == 0,
    decreases msgs.len(),
{
    if msgs.len() > 0 {
        let n = msgs.len() - 1;
        let e = estados.drop_last();
        let m = msgs.drop_last();
        assert forall|j: int| 0 <= j < m.len() implies #[trigger] apos_mensagem(
            e[j],
            e[j + 1],
            m[j].0,
            m[j].1,
            m[j].2,
        ) by {
            assert(apos_mensagem(estados[j], estados[j + 1], msgs[j].0, msgs[j].1, msgs[j].2));
        }
        lei_mensagens_guardam_pontos(e, m);
        let s = estados[n];
        let f = estados[n + 1];
        assert(apos_mensagem(s, f, msgs[n].0, msgs[n].1, msgs[n].2));
        if contem_addr(s, msgs[n].0) {
            lemma_existe_primeiro(s, msgs[n].0);
            let i = indice_com_addr(s, msgs[n].0);
            lei_renovado(f[i], s[i], msgs[n].1, msgs[n].2);
            assert forall|k: int| 0 <= k < s.len() implies #[trigger] f[k].pontos == s[k].pontos
                && f[k].addr == s[k].addr by {
                if k != i {
                    assert(f[k] == s[k]);
                }
            }
        } else {
            assert forall|k: int| 0 <= k < s.len() implies #[trigger] f[k].pontos == s[k].pontos
                && f[k].addr == s[k].addr by {
                assert(f.drop_last()[k] == f[k]);
            }
            assert(f[f.len() - 1].pontos == 0);
        }
        assert forall|k: int| 0 <= k < estados[0].len() implies #[trigger] estados.last()[k].pontos
            == estados[0][k].pontos && estados.last()[k].addr == estados[0][k].addr by {
            assert(e.last()[k].pontos == estados[0][k].pontos);
            assert(f[k].pontos == s[k].pontos);
        }
        assert forall|k: int| estados[0].len() <= k < estados.last().len() implies #[trigger] estados.last()[k].pontos == 0 by {
            if k < s.len() {
                assert(e.last()[k].pontos == 0);
                assert(f[k].pontos == s[k].pontos);
            }
        }
    }
}

impl Jogadores {
    /// No players, with room for `capacity` of them.
    pub fn with_capacity(capacity: usize) -> (r: Jogadores)
        ensures
            r@ == Seq::<DadosJogador>::empty(),
    {
        Jogadores(Vec::with_capacity(capacity))
    }

    /// Adds `j` at the end.
    pub fn push(&mut self, j: DadosJogador)
        ensures
            final(self)@ == old(self)@.push(j),
            final(self)@.len() == old(self)@.len() + variacao(old(self)@, OperacaoLista::Push),
    {
        self.0.push(j);
    }

    /// The number of players.
    pub fn len(&self) -> (r: usize)
        ensures
            r == self@.len(),
    {
        self.0.len()
    }

    /// Removes the player at position `i`; the last player takes its place.
    pub fn swap_remove(&mut self, i: usize)
        requires
            i < old(self)@.len(),
        ensures
            final(self)@ == old(self)@.update(i as int, old(self)@.last()).drop_last(),
            final(self)@.len() == old(self)@.len() + variacao(old(self)@, OperacaoLista::SwapRemove),
            // with unique addresses, the removed player is gone and the
            // addresses stay unique
            enderecos_unicos(old(self)@) ==> enderecos_unicos(final(self)@)
                && !contem_addr(final(self)@, old(self)@[i as int].addr),
    {
        self.0.swap_remove(i);
        proof {
            let o = old(self)@;
            let f = self@;
            if enderecos_unicos(o) {
                assert forall|a: int, b: int| 0 <= a < b < f.len() implies f[a].addr != f[b].addr by {
                    if a == i {
                        assert(f[a] == o[o.len() - 1]);
                    } else if b == i {
                        assert(f[b] == o[o.len() - 1]);
                    }
                }
                assert forall|k: int| 0 <= k < f.len() implies f[k].addr != o[i as int].addr by {
                    if k == i {
                        assert(f[k] == o[o.len() - 1]);
                    }
                }
            }
        }
    }

    /// The player at position `i`.
    pub fn index(&self, i: usize) -> (r: &DadosJogador)
        requires
            i < self@.len(),
        ensures
            *r == self@[i as int],
    {
        &self.0[i]
    }

    /// The player at position `i`, to change it.
    pub fn index_mut(&mut self, i: usize) -> (r: &mut DadosJogador)
        requires
            i < old(self)@.len(),
        ensures
            *r == old(self)@[i as int],
            final(self)@ == old(self)@.update(i as int, *final(r)),
    {
        &mut self.0[i]
    }

    /// A player from `addr` sent its name and input: if it is in the list,
    /// the first player with that address takes the name and input and its
    /// timeout starts over; if not, a new player with a timeout joins at the
    /// end.
    pub fn add_or_update(&mut self, addr: Endereco, nome: &str, input: InputJogador)
        ensures
            contem_addr(old(self)@, addr) ==> {
                let i = indice_com_addr(old(self)@, addr);
                &&& final(self)@.len() == old(self)@.len()
                &&& renovado(final(self)@[i], old(self)@[i], nome@, input)
                &&& forall|k: int| 0 <= k < old(self)@.len() && k != i ==> final(self)@[k] == old(self)@[k]
            },
            !contem_addr(old(self)@, addr) ==> {
                &&& final(self)@.len() == old(self)@.len() + 1
                &&& final(self)@.drop_last() == old(self)@
                &&& final(self)@.last().eh_novo(nome@, addr, true)
            },
            final(self)@.len() == old(self)@.len() + variacao(
                old(self)@,
                OperacaoLista::AddOrUpdate { addr },
            ),
            // the sender is now in the list, under the name it sent (a
            // player that joins starts with no key pressed)
            contem_addr(final(self)@, addr),
            final(self)@[indice_com_addr(final(self)@, addr)].nome@ == nome@,
            // no two players come to share an address
            enderecos_unicos(old(self)@) ==> enderecos_unicos(final(self)@),
            apos_mensagem(old(self)@, final(self)@, addr, nome@, input),
            // a message changes no player's score, pose, shot timer or life
            forall|k: int| 0 <= k < old(self)@.len() ==> {
                &&& #[trigger] final(self)@[k].pontos == old(self)@[k].pontos
                &&& final(self)@[k].addr == old(self)@[k].addr
                &&& final(self)@[k].x_bits == old(self)@[k].x_bits
                &&& final(self)@[k].y_bits == old(self)@[k].y_bits
                &&& final(self)@[k].dir_bits == old(self)@[k].dir_bits
                &&& final(self)@[k].impulso_bits == old(self)@[k].impulso_bits
                &&& final(self)@[k].timer_tiro == old(self)@[k].timer_tiro
                &&& final(self)@[k].vida == old(self)@[k].vida
            },
    {
        let ghost antes = self@;
        match self.jogador_com_addr(&addr) {
            Some(j) => {
                j.nome = nome.to_string();
                j.input = input;
                match &mut j.timeout {
                    Some(timeout) => timeout.reset(),
                    None => {},
                }
            },
            None => {
                self.0.push(DadosJogador::new(nome.to_string(), addr, true));
            },
        }
        proof {
            let depois = self@;
            if contem_addr(antes, addr) {
                let i = indice_com_addr(antes, addr);
                lemma_existe_primeiro(antes, addr);
                assert(primeiro_com_addr(depois, addr, i));
                lemma_indice_com_addr(depois, addr, i);
            } else {
                let i = antes.len() as int;
                assert(depois[i].addr == addr);
                assert forall|j: int| 0 <= j < i implies depois[j].addr != addr by {
                    assert(depois[j] == antes[j]);
                }
                assert(primeiro_com_addr(depois, addr, i));
                lemma_indice_com_addr(depois, addr, i);
                assert(depois.drop_last() =~= antes);
            }
        }
    }

    /// The first player with address `addr`, to change it; `None` when no
    /// player has it.
    pub fn jogador_com_addr(&mut self, addr: &Endereco) -> (r: Option<&mut DadosJogador>)
        ensures
            r is None <==> !contem_addr(old(self)@, *addr),
            r is None ==> final(self)@ == old(self)@,
            r matches Some(j) ==> {
                let i = indice_com_addr(old(self)@, *addr);
                &&& *j == old(self)@[i]
                &&& final(self)@ == old(self)@.update(i, *final(j))
            },
    {
        let n = self.0.len();
        for i in 0..n
            invariant
                n == self.0.len(),
                self@ == old(self)@,
                forall|j: int| 0 <= j < i ==> self@[j].addr != *addr,
        {
            if self.0[i].addr == *addr {
                proof {
                    lemma_indice_com_addr(self@, *addr, i as int);
                }
                return Some(&mut self.0[i]);
            }
        }
        None
    }
}

impl Jogadores {
    /// Drops the player at position `i` when it went silent (its timeout
    /// ran out); the last player takes its place. Says whether it did.
    pub fn remover_se_inativo(&mut self, i: usize) -> (r: bool)
        requires
            i < old(self)@.len(),
        ensures
            r == (match old(self)@[i as int].timeout {
                Some(t) => t.pronto,
                None => false,
            }),
            r ==> final(self)@ == old(self)@.update(i as int, old(self)@.last()).drop_last(),
            !r ==> final(self)@ == old(self)@,
    {
        let inativo = match &self.0[i].timeout {
            Some(timeout) => timeout.pronto,
            None => false,
        };
        if inativo {
            self.swap_remove(i);
        }
        inativo
    }

    /// A shot from `origem` hit the player at position `alvo`: the first
    /// player with address `origem`, if there is one, scores a point, then
    /// the player at `alvo` is killed.
    pub fn registrar_acerto(&mut self, origem: &Endereco, alvo: usize)
        requires
            alvo < old(self)@.len(),
            contem_addr(old(self)@, *origem) ==> old(self)@[indice_com_addr(old(self)@, *origem)].pontos
                < u32::MAX,
        ensures
            final(self)@.len() == old(self)@.len(),
            ({
                let s = old(self)@;
                let f = final(self)@;
                let achou = contem_addr(s, *origem);
                let i = indice_com_addr(s, *origem);
                &&& forall|k: int|
                    0 <= k < s.len() && k != alvo && !(achou && k == i) ==> f[k] == s[k]
                &&& achou && i != alvo ==> {
                    &&& f[i].pontos == s[i].pontos + 1
                    &&& f[i].nome@ == s[i].nome@
                    &&& f[i].addr == s[i].addr
                    &&& f[i].input == s[i].input
                    &&& f[i].x_bits == s[i].x_bits
                    &&& f[i].y_bits == s[i].y_bits
                    &&& f[i].dir_bits == s[i].dir_bits
                    &&& f[i].impulso_bits == s[i].impulso_bits
                    &&& f[i].timer_tiro == s[i].timer_tiro
                    &&& f[i].timeout == s[i].timeout
                    &&& f[i].vida == s[i].vida
                }
                &&& morto(
                    f[alvo as int],
                    s[alvo as int],
                    if achou && i == alvo {
                        (s[alvo as int].pontos + 1) as u32
                    } else {
                        s[alvo as int].pontos
                    },
                )
            }),
            // the target is killed: dead, unable to be hit, back in the middle
            // of the arena, standing still and facing direction 0.0
            !final(self)@[alvo as int].spec_vivo(),
            !final(self)@[alvo as int].spec_alvejavel(),
            final(self)@[alvo as int].x_bits == MEIO_ARENA_BITS,
            final(self)@[alvo as int].y_bits == MEIO_ARENA_BITS,
            final(self)@[alvo as int].dir_bits == ZERO_BITS,
            final(self)@[alvo as int].impulso_bits == ZERO_BITS,
            final(self)@[alvo as int].addr == old(self)@[alvo as int].addr,
            // the shooter, when it is another player, scores one point
            contem_addr(old(self)@, *origem) && indice_com_addr(old(self)@, *origem) != alvo
                ==> final(self)@[indice_com_addr(old(self)@, *origem)].pontos
                == old(self)@[indice_com_addr(old(self)@, *origem)].pontos + 1,
            !(contem_addr(old(self)@, *origem) && indice_com_addr(old(self)@, *origem) == alvo)
                ==> final(self)@[alvo as int].pontos == old(self)@[alvo as int].pontos / 2,
    {
        let ghost s = self@;
        proof {
            if contem_addr(s, *origem) {
                lemma_existe_primeiro(s, *origem);
            }
        }
        match self.jogador_com_addr(origem) {
            Some(atirador) => {
                atirador.pontos += 1;
            },
            None => {},
        }
        let ghost meio = self@;
        self.index_mut(alvo).matar();
        proof {
            let f = self@;
            assert forall|k: int| 0 <= k < s.len() && k != alvo implies f[k] == meio[k] by {}
        }
    }
}

} // verus!
