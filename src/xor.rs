use vstd::prelude::*;

verus! {

/// Byte-wise exclusive-or of two sequences over their common prefix.
pub open spec fn xor_bytes(a: Seq<u8>, b: Seq<u8>) -> Seq<u8> {
    let n = if a.len() <= b.len() { a.len() } else { b.len() };
    Seq::new(n, |i: int| a[i] ^ b[i])
}

/// XORs `ciphertext` with `key` byte by byte. The result is as long as the
/// shorter of the two: bytes past the end of either input are dropped.
pub fn xor_decrypt(ciphertext: &[u8], key: &[u8]) -> (r: Vec<u8>)
    ensures
        r@ == xor_bytes(ciphertext@, key@),
{
    let n: usize = if ciphertext.len() <= key.len() { ciphertext.len() } else { key.len() };
    let mut out: Vec<u8> = Vec::with_capacity(n);
    let mut i: usize = 0;
    while i < n
        invariant
            i <= n,
            n <= ciphertext@.len(),
            n <= key@.len(),
            out@.len() == i,
            forall|j: int| 0 <= j < i ==> out@[j] == ciphertext@[j] ^ key@[j],
        decreases n - i,
    {
        out.push(ciphertext[i] ^ key[i]);
        i = i + 1;
    }
    assert(out@ =~= xor_bytes(ciphertext@, key@));
    out
}

/// The key `k` repeated, and cut, to length `n`.
pub open spec fn repeat_key(k: Seq<u8>, n: nat) -> Seq<u8>
    recommends
        k.len() > 0,
{
    Seq::new(n, |i: int| k[i % (k.len() as int)])
}

/// XOR-ing twice with the same sequence of equal length gives back the input.
pub proof fn lemma_xor_involution(a: Seq<u8>, b: Seq<u8>)
    requires
        a.len() == b.len(),
    ensures
        xor_bytes(xor_bytes(a, b), b) == a,
{
    let once = xor_bytes(a, b);
    assert forall|i: int| 0 <= i < a.len() implies #[trigger] xor_bytes(once, b)[i] == a[i] by {
        let x = a[i];
        let y = b[i];
        assert((x ^ y) ^ y == x) by (bit_vector);
    }
    assert(xor_bytes(once, b) =~= a);
}

/// Encrypting a plaintext with a non-empty key repeated to the plaintext's
/// length, then decrypting with the same repeated key, gives the plaintext.
pub proof fn lemma_repeating_key_round_trip(p: Seq<u8>, k: Seq<u8>)
    requires
        k.len() > 0,
    ensures
        xor_bytes(xor_bytes(p, repeat_key(k, p.len())), repeat_key(k, p.len())) == p,
{
    lemma_xor_involution(p, repeat_key(k, p.len()));
}

} // verus!
