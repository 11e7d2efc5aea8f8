//! Addresses, and how the address of a record is derived from its owner.

use vstd::prelude::*;

verus! {

/// A 32-byte ledger address: the identity of an agent, or the place of a record.
#[derive(Clone, Copy, Debug, PartialEq, Eq)]
pub struct Address {
    pub bytes: [u8; 32],
}

impl View for Address {
    type V = Seq<u8>;

    open spec fn view(&self) -> Seq<u8> {
        self.bytes@
    }
}

impl Address {
    /// Whether two addresses are the same, byte by byte.
    pub fn same_as(&self, other: &Address) -> (same: bool)
        ensures
            same == (*self == *other),
    {
        let mut i: usize = 0;
        while i < 32
            invariant
                i <= 32,
                forall|j: int| 0 <= j < i ==> self.bytes[j] == other.bytes[j],
            decreases 32 - i,
        {
            if self.bytes[i] != other.bytes[i] {
                return false;
            }
            i += 1;
        }
        assert(self.bytes =~= other.bytes);
        true
    }
}

/// Two addresses with the same bytes are the same address.
pub proof fn lemma_address_by_bytes(a: Address, b: Address)
    requires
        a@ == b@,
    ensures
        a == b,
{
    assert(a.bytes =~= b.bytes);
}

/// The domain tag under which intent records are addressed: the ASCII bytes of `intent`.
pub open spec fn intent_tag() -> Seq<u8> {
    seq![105u8, 110u8, 116u8, 101u8, 110u8, 116u8]
}

/// The program-derived address that `Pubkey::try_find_program_address` gives for a
/// list of seeds under a program id, with the bump seed that it settled on; `None`
/// where it finds no bump seed or refuses the seeds.
pub uninterp spec fn program_address(seeds: Seq<Seq<u8>>, program_id: Seq<u8>) -> Option<(Seq<u8>, u8)>;

/// A derived address and its bump seed, as plain bytes.
pub open spec fn derived_view(found: Option<(Address, u8)>) -> Option<(Seq<u8>, u8)> {
    match found {
        Some(pair) => Some((pair.0@, pair.1)),
        None => None,
    }
}

/// The address of the intent record of `agent` under `program_id`, with its bump seed.
pub open spec fn intent_address(program_id: Address, agent: Address) -> Option<(Seq<u8>, u8)> {
    program_address(seq![intent_tag(), agent@], program_id@)
}

/// Calls `Pubkey::try_find_program_address` with the two seeds `tag` and the bytes of
/// `owner`. Nothing is proved of it: the contract only gives the outcome its name, the
/// derivation being a fixed function of the seeds and the program id.
#[verifier::external_body]
fn find_program_address(tag: &Vec<u8>, owner: &Address, program_id: &Address) -> (found: Option<(Address, u8)>)
    ensures
        derived_view(found) == program_address(seq![tag@, owner@], program_id@),
{
    let program = anchor_lang::prelude::Pubkey::new_from_array(program_id.bytes);
    let seeds: [&[u8]; 2] = [tag.as_slice(), &owner.bytes];
    match anchor_lang::prelude::Pubkey::try_find_program_address(&seeds, &program) {
        Some((key, bump)) => Some((Address { bytes: key.to_bytes() }, bump)),
        None => None,
    }
}

/// Derives the address at which the intent record of `agent` lives, and the bump
/// seed that proves it. The address depends on the agent and the program alone, so
/// it can be found again without any index.
pub fn derive_intent_address(program_id: &Address, agent: &Address) -> (found: Option<(Address, u8)>)
    ensures
        derived_view(found) == intent_address(*program_id, *agent),
{
    let tag: Vec<u8> = vec![105u8, 110u8, 116u8, 101u8, 110u8, 116u8];
    assert(tag@ =~= intent_tag());
    find_program_address(&tag, agent, program_id)
}

} // verus!
