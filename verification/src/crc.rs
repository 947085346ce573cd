//! CRC-16/CCITT (polynomial 0x1021, initial value 0xFFFF, no reflection,
//! no final xor), the checksum that closes every packet on the wire.

use vstd::prelude::*;

verus! {

/// One shift of the checksum register: the register moves left by one bit
/// and the polynomial is folded in when the bit that leaves was set.
pub open spec fn crc16_shift(crc: u16) -> u16 {
    if crc & 0x8000 != 0 {
        (crc << 1) ^ 0x1021
    } else {
        crc << 1
    }
}

/// `n` successive shifts of the register.
pub open spec fn crc16_rounds(crc: u16, n: nat) -> u16
    decreases n,
{
    if n == 0 {
        crc
    } else {
        crc16_shift(crc16_rounds(crc, (n - 1) as nat))
    }
}

/// The register after one more byte of input: the byte is xored into the
/// high half, then the register is shifted eight times.
pub open spec fn crc16_update(crc: u16, byte: u8) -> u16 {
    crc16_rounds(crc ^ ((byte as u16) << 8), 8)
}

/// The register after all of `data`, starting from `init`.
pub open spec fn crc16_fold(init: u16, data: Seq<u8>) -> u16
    decreases data.len(),
{
    if data.len() == 0 {
        init
    } else {
        crc16_update(crc16_fold(init, data.drop_last()), data.last())
    }
}

/// CRC-16/CCITT of `data`.
pub open spec fn crc16_ccitt(data: Seq<u8>) -> u16 {
    crc16_fold(0xFFFF, data)
}

/// Computes the CRC-16/CCITT of `data`.
pub fn calculate_crc16_ccitt(data: &[u8]) -> (crc: u16)
    ensures
        crc == crc16_ccitt(data@),
{
    let mut crc: u16 = 0xFFFF;
    let mut i: usize = 0;
    while i < data.len()
        invariant
            i <= data.len(),
            crc == crc16_fold(0xFFFF, data@.take(i as int)),
        decreases data.len() - i,
    {
        let byte = data[i];
        let ghost before = crc;
        crc = crc ^ ((byte as u16) << 8);
        let ghost start = crc;
        let mut round: u8 = 0;
        while round < 8
            invariant
                round <= 8,
                crc == crc16_rounds(start, round as nat),
            decreases 8 - round,
        {
            if crc & 0x8000 != 0 {
                crc = (crc << 1) ^ 0x1021;
            } else {
                crc = crc << 1;
            }
            round = round + 1;
        }
        proof {
            let next = data@.take(i + 1);
            assert(next.drop_last() =~= data@.take(i as int));
            assert(next.last() == byte);
            assert(crc == crc16_update(before, byte));
        }
        i = i + 1;
    }
    proof {
        assert(data@.take(i as int) =~= data@);
    }
    crc
}

proof fn lemma_shift_injective(a: u16, b: u16)
    by (bit_vector)
    requires
        a != b,
    ensures
        crc16_shift(a) != crc16_shift(b),
{
}

proof fn lemma_rounds_injective(a: u16, b: u16, n: nat)
    requires
        a != b,
    ensures
        crc16_rounds(a, n) != crc16_rounds(b, n),
    decreases n,
{
    if n > 0 {
        lemma_rounds_injective(a, b, (n - 1) as nat);
        lemma_shift_injective(crc16_rounds(a, (n - 1) as nat), crc16_rounds(b, (n - 1) as nat));
    }
}

proof fn lemma_xor_in_injective(crc1: u16, byte1: u8, crc2: u16, byte2: u8)
    by (bit_vector)
    requires
        (crc1 == crc2) != (byte1 == byte2),
    ensures
        crc1 ^ ((byte1 as u16) << 8) != crc2 ^ ((byte2 as u16) << 8),
{
}

/// Two registers that differ stay different when the same bytes follow.
proof fn lemma_fold_keeps_difference(init1: u16, init2: u16, data: Seq<u8>)
    requires
        init1 != init2,
    ensures
        crc16_fold(init1, data) != crc16_fold(init2, data),
    decreases data.len(),
{
    if data.len() > 0 {
        lemma_fold_keeps_difference(init1, init2, data.drop_last());
        let r1 = crc16_fold(init1, data.drop_last());
        let r2 = crc16_fold(init2, data.drop_last());
        lemma_xor_in_injective(r1, data.last(), r2, data.last());
        lemma_rounds_injective(
            r1 ^ ((data.last() as u16) << 8),
            r2 ^ ((data.last() as u16) << 8),
            8,
        );
    }
}

/// The register after `a + b` is the register after `b`, started from the
/// register after `a`.
pub proof fn lemma_crc16_fold_concat(init: u16, a: Seq<u8>, b: Seq<u8>)
    ensures
        crc16_fold(init, a + b) == crc16_fold(crc16_fold(init, a), b),
    decreases b.len(),
{
    if b.len() == 0 {
        assert(a + b =~= a);
    } else {
        lemma_crc16_fold_concat(init, a, b.drop_last());
        assert((a + b).drop_last() =~= a + b.drop_last());
        assert((a + b).last() == b.last());
    }
}

/// Every change of a single byte changes the checksum: two inputs of the
/// same length that differ at exactly one position never share a CRC.
pub proof fn lemma_crc16_detects_single_byte_change(a: Seq<u8>, b: Seq<u8>, at: int)
    requires
        a.len() == b.len(),
        0 <= at < a.len(),
        a[at] != b[at],
        forall|j: int| 0 <= j < a.len() && j != at ==> a[j] == b[j],
    ensures
        crc16_ccitt(a) != crc16_ccitt(b),
{
    let head = a.take(at);
    let tail = a.skip(at + 1);
    assert(b.take(at) =~= head);
    assert(b.skip(at + 1) =~= tail);
    assert(a =~= (head + seq![a[at]]) + tail);
    assert(b =~= (head + seq![b[at]]) + tail);
    let before = crc16_fold(0xFFFF, head);
    lemma_crc16_fold_concat(0xFFFF, head + seq![a[at]], tail);
    lemma_crc16_fold_concat(0xFFFF, head + seq![b[at]], tail);
    lemma_crc16_fold_concat(0xFFFF, head, seq![a[at]]);
    lemma_crc16_fold_concat(0xFFFF, head, seq![b[at]]);
    assert(seq![a[at]].drop_last() =~= Seq::<u8>::empty());
    assert(seq![b[at]].drop_last() =~= Seq::<u8>::empty());
    assert(crc16_fold(before, seq![a[at]]) == crc16_update(before, a[at])) by {
        reveal_with_fuel(crc16_fold, 2);
    }
    assert(crc16_fold(before, seq![b[at]]) == crc16_update(before, b[at])) by {
        reveal_with_fuel(crc16_fold, 2);
    }
    lemma_xor_in_injective(before, a[at], before, b[at]);
    lemma_rounds_injective(
        before ^ ((a[at] as u16) << 8),
        before ^ ((b[at] as u16) << 8),
        8,
    );
    lemma_fold_keeps_difference(
        crc16_update(before, a[at]),
        crc16_update(before, b[at]),
        tail,
    );
}

} // verus!
