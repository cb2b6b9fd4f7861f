use vstd::prelude::*;

use crate::frequency::{score, score_decryption, FrequencyTable};
use crate::xor::{xor_bytes, xor_decrypt};

verus! {

/// `c` XOR-ed byte by byte with the single key byte `k`.
pub open spec fn single_key_xor(c: Seq<u8>, k: u8) -> Seq<u8> {
    xor_bytes(c, Seq::new(c.len(), |i: int| k))
}

/// Score of `c` decrypted under the single key byte `k`.
pub open spec fn trial_score(w: Seq<u16>, c: Seq<u8>, k: u8) -> int {
    score(w, single_key_xor(c, k))
}

/// `k` is the first of the key bytes whose decryption of `c` scores highest:
/// no byte scores more, and every smaller byte scores strictly less.
pub open spec fn is_best_key(w: Seq<u16>, c: Seq<u8>, k: u8) -> bool {
    &&& forall|j: u8| #[trigger] trial_score(w, c, j) <= trial_score(w, c, k)
    &&& forall|j: u8| j < k ==> #[trigger] trial_score(w, c, j) < trial_score(w, c, k)
}

/// The ciphertexts as byte sequences.
pub open spec fn corpus_view(cts: Seq<Vec<u8>>) -> Seq<Seq<u8>> {
    cts.map_values(|c: Vec<u8>| c@)
}

/// The bytes at absolute index `p` of the ciphertexts that reach that index,
/// in corpus order. Ciphertexts too short to have a byte at `p` add nothing.
pub open spec fn column(cts: Seq<Seq<u8>>, p: int) -> Seq<u8>
    decreases cts.len(),
{
    if cts.len() == 0 {
        Seq::empty()
    } else {
        let rest = column(cts.drop_last(), p);
        if p < cts.last().len() {
            rest.push(cts.last()[p])
        } else {
            rest
        }
    }
}

/// `key` has length `n`, and each of its bytes is the best single key byte for
/// the column of `cts` at that position.
pub open spec fn is_recovered_key(w: Seq<u16>, cts: Seq<Seq<u8>>, n: nat, key: Seq<u8>) -> bool {
    &&& key.len() == n
    &&& forall|p: int| 0 <= p < n ==> is_best_key(w, column(cts, p), #[trigger] key[p])
}

/// Decrypts `ciphertext` under the single key byte `k` and scores the result.
fn score_key_byte(table: &FrequencyTable, ciphertext: &[u8], k: u8) -> (r: u128)
    requires
        table.wf(),
    ensures
        r == trial_score(table@, ciphertext@, k),
{
    let key: Vec<u8> = vec![k; ciphertext.len()];
    assert(key@ =~= Seq::new(ciphertext@.len(), |i: int| k));
    let decrypted = xor_decrypt(ciphertext, key.as_slice());
    score_decryption(table, decrypted.as_slice())
}

/// Tries every key byte from `0` to `255` on `ciphertext` and returns the one
/// whose decryption scores highest, with that score. On a tie the smaller
/// byte wins, so an empty ciphertext gives key byte `0` with score `0`.
pub fn break_single_xor(table: &FrequencyTable, ciphertext: &[u8]) -> (r: (u8, u128))
    requires
        table.wf(),
    ensures
        is_best_key(table@, ciphertext@, r.0),
        r.1 == trial_score(table@, ciphertext@, r.0),
        ciphertext@.len() == 0 ==> r.0 == 0 && r.1 == 0,
{
    let mut best_key: u8 = 0;
    let mut best_score: u128 = score_key_byte(table, ciphertext, 0);
    let mut k: u16 = 1;
    while k < 256
        invariant
            table.wf(),
            1 <= k <= 256,
            best_key < k,
            best_score == trial_score(table@, ciphertext@, best_key),
            forall|j: u8| j < k ==> #[trigger] trial_score(table@, ciphertext@, j) <= best_score,
            forall|j: u8| j < best_key ==> #[trigger] trial_score(table@, ciphertext@, j) < best_score,
        decreases 256 - k,
    {
        let s = score_key_byte(table, ciphertext, k as u8);
        if s > best_score {
            best_score = s;
            best_key = k as u8;
        }
        k = k + 1;
    }
    if ciphertext.len() == 0 {
        proof {
            lemma_empty_trial_score(table@, ciphertext@, best_key);
            lemma_empty_ciphertext_best_key(table@, ciphertext@, best_key);
        }
    }
    (best_key, best_score)
}

/// On an empty ciphertext every key byte scores `0`.
proof fn lemma_empty_trial_score(w: Seq<u16>, c: Seq<u8>, k: u8)
    requires
        c.len() == 0,
    ensures
        trial_score(w, c, k) == 0,
{
    assert(single_key_xor(c, k).len() == 0);
}

/// On an empty ciphertext the best key byte is `0`: all bytes tie, and the
/// first one wins.
pub proof fn lemma_empty_ciphertext_best_key(w: Seq<u16>, c: Seq<u8>, k: u8)
    requires
        c.len() == 0,
        is_best_key(w, c, k),
    ensures
        k == 0,
{
    lemma_empty_trial_score(w, c, 0);
    lemma_empty_trial_score(w, c, k);
    if k > 0 {
        assert(trial_score(w, c, 0u8) < trial_score(w, c, k));
    }
}

/// The best key byte of a ciphertext is unique, so breaking the same
/// ciphertext twice gives the same byte.
pub proof fn lemma_best_key_unique(w: Seq<u16>, c: Seq<u8>, k1: u8, k2: u8)
    requires
        is_best_key(w, c, k1),
        is_best_key(w, c, k2),
    ensures
        k1 == k2,
{
    if k1 < k2 {
        assert(trial_score(w, c, k1) < trial_score(w, c, k2));
        assert(trial_score(w, c, k2) <= trial_score(w, c, k1));
    } else if k2 < k1 {
        assert(trial_score(w, c, k2) < trial_score(w, c, k1));
        assert(trial_score(w, c, k1) <= trial_score(w, c, k2));
    }
}

/// The column of the corpus at absolute index `p`: byte `p` of each
/// ciphertext that has one, in corpus order.
pub fn key_column(ciphertexts: &[Vec<u8>], p: usize) -> (r: Vec<u8>)
    ensures
        r@ == column(corpus_view(ciphertexts@), p as int),
{
    let mut out: Vec<u8> = Vec::new();
    let mut i: usize = 0;
    while i < ciphertexts.len()
        invariant
            i <= ciphertexts@.len(),
            out@ == column(corpus_view(ciphertexts@.take(i as int)), p as int),
        decreases ciphertexts@.len() - i,
    {
        let ct = &ciphertexts[i];
        assert(corpus_view(ciphertexts@.take(i + 1)).drop_last() =~= corpus_view(
            ciphertexts@.take(i as int),
        ));
        assert(corpus_view(ciphertexts@.take(i + 1)).last() == ct@);
        if p < ct.len() {
            out.push(ct[p]);
        }
        i = i + 1;
    }
    assert(ciphertexts@.take(i as int) =~= ciphertexts@);
    out
}

/// Recovers a repeating key of `key_length` bytes from ciphertexts that share
/// it: byte `p` of the key is the best single key byte for the corpus's column
/// at `p`. A position that no ciphertext reaches gets the placeholder `0`.
pub fn recover_key(
    table: &FrequencyTable,
    ciphertexts: &[Vec<u8>],
    key_length: usize,
) -> (r: Vec<u8>)
    requires
        table.wf(),
    ensures
        is_recovered_key(table@, corpus_view(ciphertexts@), key_length as nat, r@),
{
    let mut key: Vec<u8> = Vec::with_capacity(key_length);
    let mut p: usize = 0;
    while p < key_length
        invariant
            table.wf(),
            p <= key_length,
            is_recovered_key(table@, corpus_view(ciphertexts@), p as nat, key@),
        decreases key_length - p,
    {
        let col = key_column(ciphertexts, p);
        let (best, _) = break_single_xor(table, col.as_slice());
        key.push(best);
        p = p + 1;
    }
    key
}

/// With no ciphertexts every column is empty, so the recovered key is all
/// placeholder bytes `0`.
pub proof fn lemma_recover_key_empty_corpus(w: Seq<u16>, n: nat, key: Seq<u8>)
    requires
        is_recovered_key(w, Seq::empty(), n, key),
    ensures
        key == Seq::new(n, |i: int| 0u8),
{
    assert forall|p: int| 0 <= p < n implies key[p] == 0u8 by {
        assert(is_best_key(w, column(Seq::empty(), p), key[p]));
        lemma_empty_ciphertext_best_key(w, column(Seq::empty(), p), key[p]);
    }
    assert(key =~= Seq::new(n, |i: int| 0u8));
}

/// A ciphertext with no byte at index `p` adds nothing to the column at `p`:
/// it is left out, not padded.
pub proof fn lemma_short_ciphertext_excluded(cts: Seq<Seq<u8>>, c: Seq<u8>, p: int)
    requires
        c.len() <= p,
    ensures
        column(cts.push(c), p) == column(cts, p),
{
    assert(cts.push(c).drop_last() =~= cts);
}

} // verus!
