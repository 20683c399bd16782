//! Rendering a store as a binary literal.
use crate::store::BitStore;
use vstd::prelude::*;
use vstd::string::StringExecFns;

verus! {

/// The digits of the bits below `n`, highest first, with an underscore in
/// front of every bit whose distance from the low end is one less than a
/// multiple of four.
pub open spec fn binary_digits(s: Seq<bool>, n: nat) -> Seq<char>
    decreases n,
{
    if n == 0 {
        Seq::empty()
    } else {
        let separator = if n % 4 == 0 {
            seq!['_']
        } else {
            Seq::empty()
        };
        let digit = if s[n - 1] {
            '1'
        } else {
            '0'
        };
        separator.push(digit) + binary_digits(s, (n - 1) as nat)
    }
}

/// The binary literal of a sequence of bits: the prefix `0b`, then the
/// grouped digits, most significant bit first.
pub open spec fn binary_literal(s: Seq<bool>) -> Seq<char> {
    seq!['0', 'b'] + binary_digits(s, s.len())
}

/// Renders a store as a binary literal, most significant bit first, with an
/// underscore between every four bits counted from the low end.
pub fn format_binary<S: BitStore>(bits: &S) -> (r: String)
    requires
        S::spec_bits() <= u32::MAX,
    ensures
        r@ == binary_literal(bits.bitseq()),
{
    proof {
        bits.lemma_width();
        reveal_strlit("0b");
        reveal_strlit("_");
        reveal_strlit("0");
        reveal_strlit("1");
    }
    let mut out = String::new();
    out.append("0b");
    assert(out@ =~= seq!['0', 'b']);
    let mut bit: u32 = S::bits();
    while bit > 0
        invariant
            bit <= S::spec_bits() <= u32::MAX,
            "_"@ == seq!['_'],
            "0"@ == seq!['0'],
            "1"@ == seq!['1'],
            out@ + binary_digits(bits.bitseq(), bit as nat) == binary_literal(bits.bitseq()),
        decreases bit,
    {
        let ghost before = out@;
        bit -= 1;
        if (bit + 1) % 4 == 0 {
            out.append("_");
        }
        if bits.get(bit) {
            out.append("1");
        } else {
            out.append("0");
        }
        assert(out@ + binary_digits(bits.bitseq(), bit as nat) =~= before + binary_digits(
            bits.bitseq(),
            (bit + 1) as nat,
        ));
    }
    assert(out@ + binary_digits(bits.bitseq(), 0) =~= out@);
    out
}

} // verus!
