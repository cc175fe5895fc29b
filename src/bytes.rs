use vstd::prelude::*;

verus! {

/// The `k` low-order bytes of `n`, least significant first.
pub open spec fn le_bytes(n: nat, k: nat) -> Seq<u8>
    decreases k,
{
    if k == 0 {
        Seq::empty()
    } else {
        seq![(n % 256) as u8] + le_bytes(n / 256, (k - 1) as nat)
    }
}

/// The number written big-endian in the first four bytes of `b`.
pub open spec fn be_u32(b: Seq<u8>) -> nat
    recommends
        b.len() >= 4,
{
    (b[0] as nat) * 0x100_0000 + (b[1] as nat) * 0x1_0000 + (b[2] as nat) * 0x100 + (b[3] as nat)
}

proof fn lemma_le_bytes_len(n: nat, k: nat)
    ensures
        le_bytes(n, k).len() == k,
    decreases k,
{
    if k > 0 {
        lemma_le_bytes_len(n / 256, (k - 1) as nat);
    }
}

/// The sixteen bytes of `nonce`, least significant first.
pub fn nonce_le_bytes(nonce: u128) -> (r: [u8; 16])
    ensures
        r@ == le_bytes(nonce as nat, 16),
{
    let mut r: [u8; 16] = [0u8; 16];
    let mut rest: u128 = nonce;
    let mut i: usize = 0;
    proof {
        lemma_le_bytes_len(nonce as nat, 16);
    }
    while i < 16
        invariant
            0 <= i <= 16,
            r@.len() == 16,
            r@.subrange(0, i as int) + le_bytes(rest as nat, (16 - i) as nat) == le_bytes(
                nonce as nat,
                16,
            ),
        decreases 16 - i,
    {
        let ghost before = r@;
        proof {
            lemma_le_bytes_len(rest as nat, (16 - i) as nat);
        }
        r[i] = (rest % 256) as u8;
        assert(r@.subrange(0, i + 1) =~= before.subrange(0, i as int) + seq![(rest % 256) as u8]);
        assert(le_bytes(rest as nat, (16 - i) as nat) == seq![(rest % 256) as u8] + le_bytes(
            (rest / 256) as nat,
            (16 - (i + 1)) as nat,
        ));
        assert(r@.subrange(0, i + 1) + le_bytes((rest / 256) as nat, (16 - (i + 1)) as nat)
            =~= before.subrange(0, i as int) + le_bytes(rest as nat, (16 - i) as nat));
        rest = rest / 256;
        i = i + 1;
    }
    assert(r@.subrange(0, 16) =~= r@);
    assert(le_bytes(rest as nat, 0) =~= Seq::<u8>::empty());
    assert(r@ =~= r@.subrange(0, 16) + le_bytes(rest as nat, 0));
    r
}

/// Reads the first four bytes of `b` as a big-endian number.
pub fn leading_u32_be(b: &[u8]) -> (r: u32)
    requires
        b@.len() >= 4,
    ensures
        r as nat == be_u32(b@),
{
    let r: u32 = (b[0] as u32) * 0x100_0000 + (b[1] as u32) * 0x1_0000 + (b[2] as u32) * 0x100
        + (b[3] as u32);
    r
}

} // verus!
