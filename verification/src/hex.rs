use vstd::prelude::*;

verus! {

/// The ASCII code of the uppercase hexadecimal digit of `v`.
pub open spec fn hex_digit(v: int) -> u8 {
    if v < 10 {
        (48 + v) as u8
    } else {
        (55 + v) as u8
    }
}

/// The uppercase hexadecimal encoding of a byte string, two digits a byte.
pub open spec fn hex_of(s: Seq<u8>) -> Seq<u8>
    decreases s.len(),
{
    if s.len() == 0 {
        Seq::empty()
    } else {
        hex_of(s.drop_last()) + seq![
            hex_digit(s.last() as int / 16),
            hex_digit(s.last() as int % 16),
        ]
    }
}

/// Encodes a byte string as uppercase hexadecimal ASCII.
pub fn hex_upper(bytes: &Vec<u8>) -> (r: Vec<u8>)
    ensures
        r@ == hex_of(bytes@),
        r@.len() == 2 * bytes@.len(),
{
    proof {
        lemma_hex_of_len(bytes@);
    }
    let mut out: Vec<u8> = Vec::new();
    let mut i: usize = 0;
    while i < bytes.len()
        invariant
            i <= bytes.len(),
            out@ == hex_of(bytes@.subrange(0, i as int)),
        decreases bytes.len() - i,
    {
        let b = bytes[i];
        let hi = b / 16;
        let lo = b % 16;
        out.push(if hi < 10 { 48 + hi } else { 55 + hi });
        out.push(if lo < 10 { 48 + lo } else { 55 + lo });
        proof {
            let t1 = bytes@.subrange(0, i as int);
            let t2 = bytes@.subrange(0, i as int + 1);
            assert(t2.drop_last() =~= t1);
            assert(t2.last() == bytes@[i as int]);
            assert(out@ =~= hex_of(t2));
        }
        i = i + 1;
    }
    proof {
        assert(bytes@.subrange(0, bytes@.len() as int) =~= bytes@);
    }
    out
}

proof fn lemma_hex_of_len(s: Seq<u8>)
    ensures
        hex_of(s).len() == 2 * s.len(),
    decreases s.len(),
{
    if s.len() > 0 {
        lemma_hex_of_len(s.drop_last());
    }
}

} // verus!
