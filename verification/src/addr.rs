use vstd::prelude::*;

verus! {

/// A 32-byte ledger address. It identifies makers, takers, assets and the
/// derived record accounts alike; its view is the sequence of its bytes.
#[derive(Clone, Copy, Debug)]
pub struct Address(pub [u8; 32]);

impl View for Address {
    type V = Seq<u8>;

    open spec fn view(&self) -> Seq<u8> {
        self.0@
    }
}

impl Address {
    /// Wraps raw bytes as an address.
    pub fn new(bytes: [u8; 32]) -> (a: Address)
        ensures
            a@ == bytes@,
    {
        Address(bytes)
    }

    /// Byte-for-byte equality of two addresses.
    pub fn equals(&self, other: &Address) -> (r: bool)
        ensures
            r == (self@ == other@),
    {
        let mut i: usize = 0;
        while i < 32
            invariant
                i <= 32,
                forall|j: int| 0 <= j < i ==> self@[j] == other@[j],
            decreases 32 - i,
        {
            if self.0[i] != other.0[i] {
                return false;
            }
            i = i + 1;
        }
        proof {
            assert(self@ =~= other@);
        }
        true
    }
}

/// The address and proof value (bump) that the ledger's deterministic
/// derivation yields for a trade record, from the program namespace, the
/// maker's address and the trade seed.
pub uninterp spec fn pda_of(program: Seq<u8>, maker: Seq<u8>, seed: u64) -> (Seq<u8>, u8);

/// Relies on anchor_lang::derive_program_address: the returned address and
/// bump seed are a pure function of the seed slices and the program id. The
/// seed slices are the fixed record tag, the maker's bytes and the
/// little-endian seed, so the pair is a function of (program, maker, seed).
#[verifier::external_body]
pub(crate) fn derive_record_address(program: &Address, maker: &Address, seed: u64) -> (r: (
    Address,
    u8,
))
    ensures
        (r.0@, r.1) == pda_of(program@, maker@, seed),
{
    let (bytes, bump) = anchor_lang::derive_program_address(
        &[b"escrow", &maker.0, &seed.to_le_bytes()],
        &program.0,
    );
    (Address(bytes), bump)
}

} // verus!
