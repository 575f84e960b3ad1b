use vstd::arithmetic::power2::{lemma2_to64, pow2};
use vstd::bits::{
    lemma_u16_low_bits_mask_is_mod, lemma_u16_pow2_no_overflow, lemma_u16_shl_is_mul,
    lemma_u16_shr_is_div, low_bits_mask,
};
use vstd::prelude::*;

verus! {

/// The number held in bits `lo` to `hi` (both inclusive) of the word `w`.
pub open spec fn field(w: u16, lo: nat, hi: nat) -> nat {
    (w as nat / pow2(lo)) % pow2((hi + 1 - lo) as nat)
}

/// Whether bit `i` of the word `w` is set.
pub open spec fn bit(w: u16, i: nat) -> bool {
    field(w, i, i) == 1
}

proof fn lemma_chunk(w: u16, start: u16, length: u16)
    requires
        1 <= length,
        start + length <= 16,
    ensures
        (w >> start) & (0xFFFFu16 >> (16 - length) as u16) == field(
            w,
            start as nat,
            (start + length - 1) as nat,
        ),
        field(w, start as nat, (start + length - 1) as nat) < pow2(length as nat),
{
    lemma_u16_shr_is_div(w, start);
    let x = w >> start;
    lemma2_to64();
    if length == 16 {
        assert(0xFFFFu16 >> 0u16 == 0xFFFFu16) by (bit_vector);
        assert(x & 0xFFFFu16 == x) by (bit_vector);
    } else {
        assert(0xFFFFu16 >> (16 - length) as u16 == ((1u16 << length) - 1u16) as u16) by (bit_vector)
            requires
                1 <= length < 16,
        ;
        lemma_u16_pow2_no_overflow(length as nat);
        lemma_u16_shl_is_mul(1, length);
        assert(0xFFFFu16 >> (16 - length) as u16 == low_bits_mask(length as nat) as u16);
        lemma_u16_low_bits_mask_is_mod(x, length as nat);
    }
    vstd::arithmetic::power2::lemma_pow2_pos(length as nat);
}

/// One fetched instruction word, whose fields are read by bit ranges.
pub struct Instruction {
    content: u16,
}

impl View for Instruction {
    type V = u16;

    closed spec fn view(&self) -> u16 {
        self.content
    }
}

impl Instruction {
    pub fn new(content: u16) -> (r: Instruction)
        ensures
            r@ == content,
    {
        Instruction { content }
    }

    /// Extracts the bits `start` to `end` of the word, both inclusive.
    pub fn chunk(&self, start: u16, end: u16) -> (r: u16)
        requires
            start <= end <= 15,
        ensures
            r == field(self@, start as nat, end as nat),
            r < pow2((end - start + 1) as nat),
    {
        let mask: u16 = u16::MAX;
        let length = end - start + 1;
        proof {
            lemma_chunk(self.content, start, length);
        }
        self.content >> start & mask >> (16 - length)
    }

    pub fn all(&self) -> (r: u16)
        ensures
            r == self@,
    {
        self.content
    }
    /// Bits 15..12: which operation the word encodes.
    pub fn opcode(&self) -> (r: u16)
        ensures
            r == field(self@, 12, 15),
            r < 16,
    {
        proof {
            lemma2_to64();
        }
        self.chunk(12, 15)
    }

    /// Bits 11..9: the destination register, or the source of a store.
    pub fn dr(&self) -> (r: usize)
        ensures
            r == field(self@, 9, 11),
            r < 8,
    {
        proof {
            lemma2_to64();
        }
        self.chunk(9, 11) as usize
    }

    /// Bits 8..6: the first source register.
    pub fn sr1(&self) -> (r: usize)
        ensures
            r == field(self@, 6, 8),
            r < 8,
    {
        proof {
            lemma2_to64();
        }
        self.chunk(6, 8) as usize
    }

    /// Bits 8..6 read as the base register of an address.
    pub fn base_r(&self) -> (r: usize)
        ensures
            r == field(self@, 6, 8),
            r < 8,
    {
        self.sr1()
    }

    /// Bits 2..0: the second source register.
    pub fn sr2(&self) -> (r: usize)
        ensures
            r == field(self@, 0, 2),
            r < 8,
    {
        proof {
            lemma2_to64();
        }
        self.chunk(0, 2) as usize
    }

    /// Bit 5: whether the second operand is an immediate value.
    pub fn is_imm(&self) -> (r: bool)
        ensures
            r == bit(self@, 5),
    {
        proof {
            lemma2_to64();
        }
        self.chunk(5, 5) > 0
    }

    /// Bits 4..0: a five-bit immediate operand.
    pub fn imm5(&self) -> (r: u16)
        ensures
            r == field(self@, 0, 4),
            r < 32,
    {
        proof {
            lemma2_to64();
        }
        self.chunk(0, 4)
    }

    /// Bits 8..0: a nine-bit offset from the program counter.
    pub fn pc_offset9(&self) -> (r: u16)
        ensures
            r == field(self@, 0, 8),
            r < 512,
    {
        proof {
            lemma2_to64();
        }
        self.chunk(0, 8)
    }

    /// Bits 10..0: an eleven-bit offset from the program counter.
    pub fn pc_offset11(&self) -> (r: u16)
        ensures
            r == field(self@, 0, 10),
            r < 2048,
    {
        proof {
            lemma2_to64();
        }
        self.chunk(0, 10)
    }

    /// Bit 11: the branch condition "negative".
    pub fn n_flag(&self) -> (r: bool)
        ensures
            r == bit(self@, 11),
    {
        proof {
            lemma2_to64();
        }
        self.chunk(11, 11) > 0
    }

    /// Bit 10: the branch condition "zero".
    pub fn z_flag(&self) -> (r: bool)
        ensures
            r == bit(self@, 10),
    {
        proof {
            lemma2_to64();
        }
        self.chunk(10, 10) > 0
    }

    /// Bit 9: the branch condition "positive".
    pub fn p_flag(&self) -> (r: bool)
        ensures
            r == bit(self@, 9),
    {
        proof {
            lemma2_to64();
        }
        self.chunk(9, 9) > 0
    }

    /// Bit 11 read as the mode of a jump to subroutine: the target is a register.
    pub fn is_base_r(&self) -> (r: bool)
        ensures
            r == bit(self@, 11),
    {
        self.n_flag()
    }

    /// Bits 5..0: a six-bit offset from a base register.
    pub fn offset6(&self) -> (r: u16)
        ensures
            r == field(self@, 0, 5),
            r < 64,
    {
        proof {
            lemma2_to64();
        }
        self.chunk(0, 5)
    }

    /// Bits 7..0: the trap vector.
    pub fn trap_vect8(&self) -> (r: u16)
        ensures
            r == field(self@, 0, 7),
            r < 256,
    {
        proof {
            lemma2_to64();
        }
        self.chunk(0, 7)
    }
}

} // verus!
