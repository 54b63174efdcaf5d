//! Stream XOR decoder with an incrementing key schedule, used to recover an
//! embedded resource blob.
use vstd::prelude::*;

verus! {

/// One step of the decoder's counter schedule: advance by 3, but reset to 3
/// instead of reaching 255 or beyond.
pub open spec fn next_counter(c: u8) -> u8 {
    if c + 3 >= 255 {
        3
    } else {
        (c + 3) as u8
    }
}

/// The decoder's transform: each byte is XORed with the running counter,
/// which starts at `c` and advances by `next_counter` after every byte.
pub open spec fn xor_decode(s: Seq<u8>, c: u8) -> Seq<u8>
    decreases s.len(),
{
    if s.len() == 0 {
        s
    } else {
        seq![(s[0] ^ c)] + xor_decode(s.skip(1), next_counter(c))
    }
}

/// The transform keeps the length of the buffer.
pub proof fn lemma_xor_decode_len(s: Seq<u8>, c: u8)
    ensures
        xor_decode(s, c).len() == s.len(),
    decreases s.len(),
{
    if s.len() != 0 {
        lemma_xor_decode_len(s.skip(1), next_counter(c));
    }
}

/// Applying the transform twice with the same starting counter gives the
/// original buffer back: XOR with the same keystream cancels.
pub proof fn lemma_xor_decode_involution(s: Seq<u8>, c: u8)
    ensures
        xor_decode(xor_decode(s, c), c) == s,
    decreases s.len(),
{
    if s.len() == 0 {
        assert(xor_decode(xor_decode(s, c), c) =~= s);
    } else {
        let d = xor_decode(s, c);
        lemma_xor_decode_len(s, c);
        assert(d == seq![(s[0] ^ c)] + xor_decode(s.skip(1), next_counter(c)));
        assert(d[0] == s[0] ^ c);
        assert(d.skip(1) =~= xor_decode(s.skip(1), next_counter(c)));
        lemma_xor_decode_involution(s.skip(1), next_counter(c));
        let b0 = s[0];
        assert((b0 ^ c) ^ c == b0) by (bit_vector);
        assert(xor_decode(d, c) =~= s);
    }
}

/// Decodes the embedded resource in place: byte `i` is XORed with the `i`-th
/// counter value of the schedule that starts at 3.
pub fn decrypt_lib(lib_raw: &mut Vec<u8>)
    ensures
        final(lib_raw)@ == xor_decode(old(lib_raw)@, 3),
{
    let ghost orig: Seq<u8> = lib_raw@;
    let mut counter: u8 = 3;
    let mut i: usize = 0;
    proof {
        assert(orig.subrange(0, orig.len() as int) =~= orig);
        assert(lib_raw@.subrange(0, 0) + xor_decode(orig, 3) =~= xor_decode(orig, 3));
    }
    while i < lib_raw.len()
        invariant
            i <= lib_raw@.len(),
            lib_raw@.len() == orig.len(),
            lib_raw@.subrange(i as int, orig.len() as int) == orig.subrange(
                i as int,
                orig.len() as int,
            ),
            xor_decode(orig, 3) == lib_raw@.subrange(0, i as int) + xor_decode(
                orig.subrange(i as int, orig.len() as int),
                counter,
            ),
        decreases lib_raw@.len() - i,
    {
        let ghost pre: Seq<u8> = lib_raw@;
        let b = lib_raw[i];
        lib_raw[i] = b ^ counter;
        proof {
            let rest = orig.subrange(i as int, orig.len() as int);
            assert(rest.len() != 0);
            assert(rest[0] == b);
            assert(xor_decode(rest, counter) == seq![(b ^ counter)] + xor_decode(
                rest.skip(1),
                next_counter(counter),
            ));
            assert(rest.skip(1) =~= orig.subrange(i + 1, orig.len() as int));
            assert(lib_raw@.subrange(0, i + 1) =~= pre.subrange(0, i as int) + seq![
                (b ^ counter)
            ]);
            assert(lib_raw@.subrange(i + 1, orig.len() as int) =~= orig.subrange(
                i + 1,
                orig.len() as int,
            ));
            assert(xor_decode(orig, 3) == lib_raw@.subrange(0, i + 1) + xor_decode(
                orig.subrange(i + 1, orig.len() as int),
                next_counter(counter),
            ));
        }
        counter = if counter as u32 + 3 >= 255 {
            3
        } else {
            counter + 3
        };
        i = i + 1;
    }
    proof {
        assert(orig.subrange(i as int, orig.len() as int) =~= Seq::<u8>::empty());
        assert(xor_decode(orig, 3) =~= lib_raw@.subrange(0, i as int));
        assert(lib_raw@.subrange(0, i as int) =~= lib_raw@);
    }
}

} // verus!
