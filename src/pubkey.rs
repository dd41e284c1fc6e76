use vstd::prelude::*;

verus! {

/// A 32-byte account address.
#[derive(Clone, Copy, Debug)]
pub struct Pubkey {
    pub bytes: [u8; 32],
}

impl View for Pubkey {
    type V = Seq<u8>;

    open spec fn view(&self) -> Seq<u8> {
        self.bytes@
    }
}

impl Pubkey {
    pub fn new_from_array(bytes: [u8; 32]) -> (r: Pubkey)
        ensures
            r@ == bytes@,
    {
        Pubkey { bytes }
    }

    pub fn to_bytes(&self) -> (r: [u8; 32])
        ensures
            r@ == self@,
    {
        self.bytes
    }
}

impl PartialEq for Pubkey {
    fn eq(&self, other: &Pubkey) -> (r: bool) {
        let mut i: usize = 0;
        while i < 32
            invariant
                0 <= i <= 32,
                self.bytes@.len() == 32,
                other.bytes@.len() == 32,
                forall|j: int| 0 <= j < i ==> self.bytes@[j] == other.bytes@[j],
            decreases 32 - i,
        {
            if self.bytes[i] != other.bytes[i] {
                return false;
            }
            i = i + 1;
        }
        assert(self.bytes@ =~= other.bytes@);
        true
    }
}

impl Eq for Pubkey {
}

impl vstd::std_specs::cmp::PartialEqSpecImpl for Pubkey {
    open spec fn obeys_eq_spec() -> bool {
        true
    }

    open spec fn eq_spec(&self, other: &Pubkey) -> bool {
        self@ == other@
    }
}

/// The address that the ledger derives from one seed and a program's address:
/// none where the derived point lies on the signing curve, so that some key
/// could sign for it.
pub uninterp spec fn program_address(seed: Seq<u8>, program_id: Seq<u8>) -> Option<Seq<u8>>;

/// Relies on solana_program's `Pubkey::create_program_address`, called with the
/// one seed `seed`: it hashes the seed with the program's address and refuses a
/// hash that is a curve point. A single seed of 32 bytes is within its limits,
/// so that refusal is the only error it can give here.
#[verifier::external_body]
pub(crate) fn create_program_address(seed: &[u8; 32], program_id: &Pubkey) -> (r: Option<Pubkey>)
    ensures
        match r {
            Some(k) => program_address(seed@, program_id@) == Some(k@),
            None => program_address(seed@, program_id@) is None,
        },
{
    let program = solana_program::pubkey::Pubkey::new_from_array(program_id.bytes);
    match solana_program::pubkey::Pubkey::create_program_address(&[seed], &program) {
        Ok(k) => Some(Pubkey { bytes: k.to_bytes() }),
        Err(_) => None,
    }
}

/// The search for a bump byte among `0 .. bound`, from the highest down: the
/// first bump whose seed `prefix + [bump]` has a derived address, with that
/// address.
pub open spec fn bump_search(prefix: Seq<u8>, program_id: Seq<u8>, bound: int) -> Option<(Seq<u8>, u8)>
    decreases bound,
{
    if bound <= 0 {
        None
    } else {
        let bump = (bound - 1) as u8;
        match program_address(prefix.push(bump), program_id) {
            Some(k) => Some((k, bump)),
            None => bump_search(prefix, program_id, bound - 1),
        }
    }
}

/// The canonical derived address of a 31-byte seed prefix: the highest bump
/// byte that gives the full seed an address, and that address.
pub open spec fn canonical_address(prefix: Seq<u8>, program_id: Seq<u8>) -> Option<(Seq<u8>, u8)> {
    bump_search(prefix, program_id, 256)
}

/// The search below `bound` finds a bump whose full seed has that address,
/// or finds none because no bump below `bound` has one.
pub proof fn lemma_bump_search(prefix: Seq<u8>, program_id: Seq<u8>, bound: int)
    requires
        bound <= 256,
    ensures
        match bump_search(prefix, program_id, bound) {
            Some((k, bump)) => (bump as int) < bound && program_address(prefix.push(bump), program_id)
                == Some(k),
            None => forall|b: u8|
                (b as int) < bound ==> #[trigger] program_address(prefix.push(b), program_id) is None,
        },
    decreases bound,
{
    if bound > 0 {
        lemma_bump_search(prefix, program_id, bound - 1);
    }
}

/// The derivation by which a client finds the vesting account's address
/// agrees with the one every handler makes again from the full seed: the
/// canonical address of a prefix is the derived address of the prefix with
/// its bump byte appended, and where there is none, no bump byte gives one.
/// Both depend on the prefix and the program alone.
pub proof fn lemma_derivation_agrees(prefix: Seq<u8>, program_id: Seq<u8>)
    ensures
        match canonical_address(prefix, program_id) {
            Some((k, bump)) => program_address(prefix.push(bump), program_id) == Some(k),
            None => forall|b: u8| #[trigger] program_address(prefix.push(b), program_id) is None,
        },
{
    lemma_bump_search(prefix, program_id, 256);
}

/// Finds the canonical derived address of `seed_prefix` and its bump byte, by
/// trying every bump from 255 down to 0.
pub fn find_program_address(seed_prefix: &[u8; 31], program_id: &Pubkey) -> (r: Option<(Pubkey, u8)>)
    ensures
        match r {
            Some((k, bump)) => canonical_address(seed_prefix@, program_id@) == Some((k@, bump)),
            None => canonical_address(seed_prefix@, program_id@) is None,
        },
{
    let mut bound: u16 = 256;
    while bound > 0
        invariant
            bound <= 256,
            bump_search(seed_prefix@, program_id@, 256) == bump_search(
                seed_prefix@,
                program_id@,
                bound as int,
            ),
        decreases bound,
    {
        let bump = (bound - 1) as u8;
        let seed = with_bump(seed_prefix, bump);
        match create_program_address(&seed, program_id) {
            Some(k) => {
                return Some((k, bump));
            },
            None => {},
        }
        bound = bound - 1;
    }
    None
}

/// The full 32-byte seed: the prefix followed by the bump byte.
pub fn with_bump(seed_prefix: &[u8; 31], bump: u8) -> (r: [u8; 32])
    ensures
        r@ == seed_prefix@.push(bump),
{
    let mut seed: [u8; 32] = [0u8; 32];
    let mut i: usize = 0;
    while i < 31
        invariant
            0 <= i <= 31,
            seed@.len() == 32,
            seed_prefix@.len() == 31,
            forall|j: int| 0 <= j < i ==> seed@[j] == seed_prefix@[j],
        decreases 31 - i,
    {
        seed[i] = seed_prefix[i];
        i = i + 1;
    }
    seed[31] = bump;
    assert(seed@ =~= seed_prefix@.push(bump));
    seed
}

} // verus!
