//! The scoreboard that the server shows: each player's name and score,
//! highest score first.
use vstd::prelude::*;
use vstd::multiset::Multiset;
use vstd::seq_lib::{to_multiset_build, to_multiset_contains, to_multiset_len, to_multiset_remove};

verus! {

broadcast use {vstd::multiset::group_multiset_axioms, vstd::seq_lib::group_to_multiset_ensures};

/// The scores of `s` do not increase from one line to the next.
pub open spec fn decrescente(s: Seq<(String, u32)>) -> bool {
    forall|i: int, j: int| 0 <= i < j < s.len() ==> s[i].1 >= s[j].1
}

/// Orders the scoreboard by score, highest first; lines with equal scores
/// may come in any order. The lines are the same, only reordered.
pub fn ordenar_placar(placar: &mut Vec<(String, u32)>)
    ensures
        final(placar)@.to_multiset() == old(placar)@.to_multiset(),
        decrescente(final(placar)@),
{
    let mut restante: Vec<(String, u32)> = Vec::new();
    std::mem::swap(placar, &mut restante);
    let ghost original = restante@;
    proof {
        to_multiset_len(placar@);
    }
    assert(placar@.to_multiset() =~= Multiset::empty());
    assert(placar@.to_multiset().add(restante@.to_multiset()) =~= original.to_multiset());
    while restante.len() > 0
        invariant
            placar@.to_multiset().add(restante@.to_multiset()) == original.to_multiset(),
            decrescente(placar@),
            forall|i: int, j: int|
                0 <= i < placar@.len() && 0 <= j < restante@.len() ==> placar@[i].1
                    >= restante@[j].1,
        decreases restante@.len(),
    {
        let k = posicao_do_maior(&restante);
        let ghost antes_p = placar@;
        let ghost antes_r = restante@;
        let linha = restante.remove(k);
        proof {
            to_multiset_remove(antes_r, k as int);
            assert(antes_r.contains(linha));
            to_multiset_contains(antes_r, linha);
        }
        placar.push(linha);
        proof {
            to_multiset_build(antes_p, linha);
            assert(placar@.to_multiset().add(restante@.to_multiset()) =~= original.to_multiset());
            assert forall|i: int, j: int| 0 <= i < placar@.len() && 0 <= j < restante@.len()
                implies placar@[i].1 >= restante@[j].1 by {
                if j < k {
                    assert(restante@[j] == antes_r[j]);
                } else {
                    assert(restante@[j] == antes_r[j + 1]);
                }
            }
        }
    }
}

/// The position of a line with the highest score.
fn posicao_do_maior(v: &Vec<(String, u32)>) -> (k: usize)
    requires
        v@.len() > 0,
    ensures
        k < v@.len(),
        forall|j: int| 0 <= j < v@.len() ==> v@[k as int].1 >= v@[j].1,
{
    let mut k: usize = 0;
    let mut i: usize = 1;
    while i < v.len()
        invariant
            0 <= k < i <= v@.len(),
            forall|j: int| 0 <= j < i ==> v@[k as int].1 >= v@[j].1,
        decreases v@.len() - i,
    {
        if v[i].1 > v[k].1 {
            k = i;
        }
        i += 1;
    }
    k
}

} // verus!
