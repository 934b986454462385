//! The text that a client sends to the server: the player's name, a `;`
//! and the player's input byte written in decimal. The server reads it from
//! a buffer that it filled with zero bytes before receiving.
use crate::input_jogador::InputJogador;
use vstd::prelude::*;
use vstd::utf8::{
    encode_utf8, is_char_boundary_iff_not_is_continuation_byte, pop_first_scalar, valid_utf8,
    valid_utf8_concat, valid_utf8_split,
};

verus! {

/// The byte of `;`, which ends the name.
pub const SEPARADOR: u8 = 0x3B;

/// The byte of `+`, which may stand before the digits of the value.
pub const MAIS: u8 = 0x2B;

/// The length of `b` without the zero bytes (NUL characters) at its end.
pub open spec fn fim_sem_nulos(b: Seq<u8>) -> int
    decreases b.len(),
{
    if b.len() > 0 && b.last() == 0 {
        fim_sem_nulos(b.drop_last())
    } else {
        b.len() as int
    }
}

/// The position of the first `c` in `t`, or the length of `t` when there is
/// none.
pub open spec fn primeira(t: Seq<u8>, c: u8) -> int
    decreases t.len(),
{
    if t.len() == 0 {
        0
    } else if t[0] == c {
        0
    } else {
        1 + primeira(t.drop_first(), c)
    }
}

pub open spec fn eh_digito(b: u8) -> bool {
    0x30 <= b <= 0x39
}

/// The number that the decimal digits `d` write.
pub open spec fn valor_digitos(d: Seq<u8>) -> nat
    decreases d.len(),
{
    if d.len() == 0 {
        0
    } else {
        valor_digitos(d.drop_last()) * 10 + (d.last() - 0x30) as nat
    }
}

/// All of `d` are decimal digits.
pub open spec fn so_digitos(d: Seq<u8>) -> bool {
    forall|i: int| 0 <= i < d.len() ==> eh_digito(#[trigger] d[i])
}

/// `f` without the `+` it may start with.
pub open spec fn sem_sinal(f: Seq<u8>) -> Seq<u8> {
    if f.len() > 0 && f[0] == MAIS {
        f.drop_first()
    } else {
        f
    }
}

/// What the standard library's `u8::from_str` gives for the text `f`: an
/// optional `+`, then one or more decimal digits, whose number must fit in a
/// byte.
pub open spec fn valor_u8(f: Seq<u8>) -> Option<u8> {
    let d = sem_sinal(f);
    if d.len() > 0 && so_digitos(d) && valor_digitos(d) <= 255 {
        Some(valor_digitos(d) as u8)
    } else {
        None
    }
}

/// What the server makes of a received buffer.
pub enum Leitura {
    /// The bytes are not UTF-8: the message is ignored.
    Invalida,
    /// There is no `;`: there is no value to read.
    SemValor,
    /// The text between the first `;` and the next one (or the end) is not
    /// a byte in decimal: the message is ignored.
    ValorInvalido,
    /// A player's name (the UTF-8 bytes before the first `;`) and input.
    Entrada { nome: Seq<u8>, valor: u8 },
}

/// How the server reads `b`: drop the NUL characters at the end, split at
/// the first `;`, and read the value up to the next `;`.
pub open spec fn leitura(b: Seq<u8>) -> Leitura {
    if !valid_utf8(b) {
        Leitura::Invalida
    } else {
        let t = b.subrange(0, fim_sem_nulos(b));
        let p = primeira(t, SEPARADOR);
        if p == t.len() {
            Leitura::SemValor
        } else {
            let resto = t.subrange(p + 1, t.len() as int);
            let campo = resto.subrange(0, primeira(resto, SEPARADOR));
            match valor_u8(campo) {
                None => Leitura::ValorInvalido,
                Some(v) => Leitura::Entrada { nome: t.subrange(0, p), valor: v },
            }
        }
    }
}

/// A message as the server reads it.
pub enum Mensagem {
    /// Not UTF-8.
    Invalida,
    /// No `;` in it.
    SemValor,
    /// No byte in decimal after the `;`.
    ValorInvalido,
    /// The sender's name and input.
    Entrada { nome: String, input: InputJogador },
}

impl Mensagem {
    pub open spec fn leitura(&self) -> Leitura {
        match self {
            Mensagem::Invalida => Leitura::Invalida,
            Mensagem::SemValor => Leitura::SemValor,
            Mensagem::ValorInvalido => Leitura::ValorInvalido,
            Mensagem::Entrada { nome, input } => Leitura::Entrada {
                nome: encode_utf8(nome@),
                valor: input.0,
            },
        }
    }
}

/// The bytes that a client sends: its name, `;` and the text `msg`.
pub fn formatar_mensagem(apelido: &str, msg: &str) -> (r: Vec<u8>)
    ensures
        r@ == encode_utf8(apelido@) + seq![SEPARADOR] + encode_utf8(msg@),
{
    let a = apelido.as_bytes();
    let m = msg.as_bytes();
    let mut r: Vec<u8> = Vec::new();
    acrescentar(&mut r, a);
    r.push(SEPARADOR);
    acrescentar(&mut r, m);
    r
}

fn acrescentar(v: &mut Vec<u8>, s: &[u8])
    ensures
        final(v)@ == old(v)@ + s@,
{
    let n = s.len();
    for i in 0..n
        invariant
            n == s@.len(),
            v@ == old(v)@ + s@.subrange(0, i as int),
    {
        v.push(s[i]);
        assert(s@.subrange(0, i + 1) == s@.subrange(0, i as int).push(s@[i as int]));
    }
    assert(s@.subrange(0, n as int) == s@);
}

/// The length of `b` without its trailing zero bytes.
fn tamanho_sem_nulos(b: &[u8]) -> (k: usize)
    ensures
        k == fim_sem_nulos(b@),
        k <= b@.len(),
{
    let mut k = b.len();
    assert(b@.subrange(0, k as int) == b@);
    while k > 0 && b[k - 1] == 0
        invariant
            k <= b@.len(),
            fim_sem_nulos(b@) == fim_sem_nulos(b@.subrange(0, k as int)),
        decreases k,
    {
        assert(b@.subrange(0, k as int).drop_last() == b@.subrange(0, k - 1));
        k -= 1;
    }
    k
}

/// `primeira` is the first position that holds `c`.
proof fn lemma_primeira(t: Seq<u8>, c: u8, r: int)
    requires
        0 <= r <= t.len(),
        forall|j: int| 0 <= j < r ==> t[j] != c,
        r < t.len() ==> t[r] == c,
    ensures
        primeira(t, c) == r,
    decreases r,
{
    if r > 0 {
        assert forall|j: int| 0 <= j < r - 1 implies t.drop_first()[j] != c by {
            assert(t[j + 1] != c);
        }
        lemma_primeira(t.drop_first(), c, r - 1);
    }
}

/// The position of the first `c` in `b` from `de` on, before `ate`, or
/// `ate` when there is none.
fn posicao(b: &[u8], de: usize, ate: usize, c: u8) -> (r: usize)
    requires
        de <= ate <= b@.len(),
    ensures
        r == de + primeira(b@.subrange(de as int, ate as int), c),
        de <= r <= ate,
        r < ate ==> b@[r as int] == c,
        forall|j: int| de <= j < r ==> b@[j] != c,
{
    let mut i = de;
    while i < ate
        invariant
            de <= i <= ate <= b@.len(),
            forall|j: int| de <= j < i ==> b@[j] != c,
        ensures
            de <= i <= ate,
            forall|j: int| de <= j < i ==> b@[j] != c,
            i < ate ==> b@[i as int] == c,
        decreases ate - i,
    {
        if b[i] == c {
            break;
        }
        i += 1;
    }
    proof {
        let t = b@.subrange(de as int, ate as int);
        assert forall|j: int| 0 <= j < i - de implies t[j] != c by {
            assert(t[j] == b@[de + j]);
        }
        lemma_primeira(t, c, i - de);
    }
    i
}

/// The byte written in decimal in `b` from `de` to `ate`, read as
/// `u8::from_str` reads it.
fn valor_campo(b: &[u8], de: usize, ate: usize) -> (r: Option<u8>)
    requires
        de <= ate <= b@.len(),
    ensures
        r == valor_u8(b@.subrange(de as int, ate as int)),
{
    let ghost f = b@.subrange(de as int, ate as int);
    let mut i = de;
    if i < ate && b[i] == MAIS {
        assert(f[0] == b@[de as int]);
        i += 1;
        assert(f.drop_first() == b@.subrange(i as int, ate as int));
    } else {
        if i < ate {
            assert(f[0] == b@[de as int]);
        }
        assert(f == b@.subrange(i as int, ate as int));
    }
    let ghost d = b@.subrange(i as int, ate as int);
    assert(d == sem_sinal(f));
    if i == ate {
        return None;
    }
    let mut acc: u32 = 0;
    let mut j = i;
    assert(b@.subrange(i as int, i as int) == Seq::<u8>::empty());
    while j < ate
        invariant
            de <= i <= j <= ate <= b@.len(),
            d == b@.subrange(i as int, ate as int),
            f == b@.subrange(de as int, ate as int),
            d == sem_sinal(f),
            forall|k: int| i <= k < j ==> eh_digito(b@[k]),
            acc == (if valor_digitos(b@.subrange(i as int, j as int)) < 256 {
                valor_digitos(b@.subrange(i as int, j as int))
            } else {
                256
            }),
        decreases ate - j,
    {
        let c = b[j];
        if !(0x30 <= c && c <= 0x39) {
            assert(!eh_digito(d[j - i]));
            assert(valor_u8(f) is None);
            return None;
        }
        assert(b@.subrange(i as int, j + 1).drop_last() == b@.subrange(i as int, j as int));
        let seguinte = acc * 10 + (c - 0x30) as u32;
        acc = if seguinte > 256 {
            256
        } else {
            seguinte
        };
        j += 1;
    }
    assert(b@.subrange(i as int, j as int) == d);
    assert forall|k: int| 0 <= k < d.len() implies eh_digito(#[trigger] d[k]) by {
        assert(d[k] == b@[i + k]);
    }
    if acc <= 255 {
        Some(acc as u8)
    } else {
        None
    }
}

/// Calls `std::str::from_utf8`. Trusted: it gives a string exactly when the
/// bytes are valid UTF-8 (as vstd's `valid_utf8` says), and then the string
/// is made of those bytes, as the standard library documents.
#[verifier::external_body]
fn str_de_utf8(b: &[u8]) -> (r: Option<&str>)
    ensures
        r is Some <==> valid_utf8(b@),
        r matches Some(s) ==> encode_utf8(s@) == b@,
{
    std::str::from_utf8(b).ok()
}

/// Reads a received buffer: when it is UTF-8, the NUL characters at its end
/// are dropped, the name is what stands before the first `;` and the input
/// is the byte written in decimal between that `;` and the next one (or the
/// end).
pub fn interpretar_mensagem(buf: &[u8]) -> (r: Mensagem)
    ensures
        r.leitura() == leitura(buf@),
{
    if str_de_utf8(buf).is_none() {
        return Mensagem::Invalida;
    }
    let k = tamanho_sem_nulos(buf);
    let ghost t = buf@.subrange(0, k as int);
    assert(buf@.subrange(0, k as int) == t);
    let p = posicao(buf, 0, k, SEPARADOR);
    if p == k {
        return Mensagem::SemValor;
    }
    let q = posicao(buf, p + 1, k, SEPARADOR);
    proof {
        let resto = t.subrange(p + 1, t.len() as int);
        assert(resto == buf@.subrange(p + 1, k as int));
        assert(resto.subrange(0, q - (p + 1)) == buf@.subrange(p + 1, q as int));
    }
    match valor_campo(buf, p + 1, q) {
        None => Mensagem::ValorInvalido,
        Some(v) => {
            proof {
                assert(buf@[p as int] == SEPARADOR);
                is_char_boundary_iff_not_is_continuation_byte(buf@, p as int);
                valid_utf8_split(buf@, p as int);
                assert(t.subrange(0, p as int) == buf@.subrange(0, p as int));
            }
            let nome = &buf[0..p];
            match str_de_utf8(nome) {
                Some(s) => Mensagem::Entrada { nome: s.to_string(), input: InputJogador(v) },
                None => Mensagem::Invalida,
            }
        },
    }
}

/// The decimal digits of `v` as `u8`'s `to_string` writes them: no sign
/// and no leading zero.
pub open spec fn decimal(v: u8) -> Seq<u8> {
    if v < 10 {
        seq![(0x30 + v) as u8]
    } else if v < 100 {
        seq![(0x30 + v / 10) as u8, (0x30 + v % 10) as u8]
    } else {
        seq![(0x30 + v / 100) as u8, (0x30 + (v / 10) % 10) as u8, (0x30 + v % 10) as u8]
    }
}

/// The input byte `v` in decimal, as `u8`'s `to_string` writes it: the
/// text that a client sends after its name.
pub fn texto_decimal(v: u8) -> (r: String)
    ensures
        encode_utf8(r@) == decimal(v),
{
    let mut d: Vec<u8> = Vec::new();
    if v >= 100 {
        d.push(0x30 + v / 100);
    }
    if v >= 10 {
        d.push(0x30 + (v / 10) % 10);
    }
    d.push(0x30 + v % 10);
    proof {
        assert(d@ == decimal(v));
        lemma_ascii_utf8(d@);
    }
    match str_de_utf8(d.as_slice()) {
        Some(s) => s.to_string(),
        None => String::new(),
    }
}

/// `n` zero bytes.
pub open spec fn nulos(n: nat) -> Seq<u8> {
    Seq::new(n, |i: int| 0u8)
}

/// What a client sends, the server reads back: the UTF-8 bytes of a name
/// without `;`, then `;`, then an input byte in decimal, followed by any
/// number of zero bytes, read as that name and that input. These are the
/// bytes of `formatar_mensagem(apelido, &texto_decimal(v))`, with the
/// zero bytes that the server's buffer holds after them.
pub proof fn lei_mensagem_ida_e_volta(nome: Seq<u8>, valor: u8, n: nat)
    requires
        valid_utf8(nome),
        forall|i: int| 0 <= i < nome.len() ==> nome[i] != SEPARADOR,
    ensures
        leitura(nome + seq![SEPARADOR] + decimal(valor) + nulos(n)) == (Leitura::Entrada {
            nome,
            valor,
        }),
{
    let d = decimal(valor);
    let m = nome + seq![SEPARADOR] + d;
    let b = m + nulos(n);
    assert(so_digitos(d));
    assert(d.len() > 0 && d.last() != 0);
    // the bytes are UTF-8
    let cauda = seq![SEPARADOR] + d + nulos(n);
    assert forall|i: int| 0 <= i < cauda.len() implies cauda[i] < 0x80 by {
        if 1 <= i < 1 + d.len() {
            assert(cauda[i] == d[i - 1]);
        }
    }
    lemma_ascii_utf8(cauda);
    valid_utf8_concat(nome, cauda);
    assert(b == nome + cauda);
    // the zero bytes at the end go
    lemma_fim_sem_nulos(m, n);
    assert(b.subrange(0, m.len() as int) == m);
    // the name ends at the first `;`
    lemma_primeira(m, SEPARADOR, nome.len() as int);
    // the value runs to the end
    let resto = m.subrange(nome.len() + 1int, m.len() as int);
    assert(resto == d);
    lemma_primeira(d, SEPARADOR, d.len() as int);
    assert(d.subrange(0, d.len() as int) == d);
    assert(sem_sinal(d) == d);
    lemma_decimal(valor);
    assert(m.subrange(0, nome.len() as int) == nome);
}

/// The digits of `decimal(v)` write `v`.
proof fn lemma_decimal(v: u8)
    ensures
        valor_digitos(decimal(v)) == v,
{
    let d = decimal(v);
    reveal_with_fuel(valor_digitos, 4);
    if v < 10 {
        assert(d.drop_last() == Seq::<u8>::empty());
    } else if v < 100 {
        assert(d.drop_last() == seq![(0x30 + v / 10) as u8]);
        assert(d.drop_last().drop_last() == Seq::<u8>::empty());
    } else {
        assert(d.drop_last() == seq![(0x30 + v / 100) as u8, (0x30 + (v / 10) % 10) as u8]);
        assert(d.drop_last().drop_last() == seq![(0x30 + v / 100) as u8]);
        assert(d.drop_last().drop_last().drop_last() == Seq::<u8>::empty());
    }
}

/// Bytes below 0x80 are valid UTF-8.
proof fn lemma_ascii_utf8(b: Seq<u8>)
    requires
        forall|i: int| 0 <= i < b.len() ==> b[i] < 0x80,
    ensures
        valid_utf8(b),
    decreases b.len(),
{
    if b.len() > 0 {
        let b0 = b[0];
        assert((b0 & 0x7F) as u32 == b0 as u32) by (bit_vector)
            requires
                b0 < 0x80,
        ;
        assert(pop_first_scalar(b) == b.drop_first());
        lemma_ascii_utf8(b.drop_first());
    }
}

/// Zero bytes after a sequence that does not end in one are what
/// `fim_sem_nulos` drops.
proof fn lemma_fim_sem_nulos(m: Seq<u8>, n: nat)
    requires
        m.len() > 0,
        m.last() != 0,
    ensures
        fim_sem_nulos(m + nulos(n)) == m.len(),
    decreases n,
{
    if n == 0 {
        assert(m + nulos(0) == m);
    } else {
        assert((m + nulos(n)).drop_last() == m + nulos((n - 1) as nat));
        lemma_fim_sem_nulos(m, (n - 1) as nat);
    }
}

} // verus!
