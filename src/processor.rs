use crate::bytes::{append_bytes, write_bytes};
use crate::error::ProgramError;
use crate::instruction::{decode, invalid_instruction, InstructionModel, Schedule, VestingInstruction};
use crate::pubkey::{create_program_address, program_address, Pubkey};
use crate::state::{slot, unpack_schedules, pack_schedules_into_slice, VestingSchedule, VestingScheduleHeader};
use crate::token::{token_amount, token_error, token_owner, unpack_token_account};
use vstd::bytes::spec_u64_to_le_bytes;
use vstd::prelude::*;

verus! {

/// An account as an instruction sees it: its address, the program that owns
/// it, whether it signed, and its data.
#[derive(Clone, Debug, PartialEq, Eq)]
pub struct AccountInfo {
    pub key: Pubkey,
    pub owner: Pubkey,
    pub is_signer: bool,
    pub data: Vec<u8>,
}

/// A call into another program that an instruction asks the ledger to make
/// once its own checks have passed.
#[derive(Clone, Copy, Debug, PartialEq, Eq)]
pub enum Invocation {
    /// The system program creates `new_account` with `space` bytes owned by
    /// `owner`, paid for by `payer`; the program signs for the new account
    /// with `seeds`.
    CreateAccount {
        payer: Pubkey,
        new_account: Pubkey,
        space: u64,
        owner: Pubkey,
        seeds: [u8; 32],
    },
    /// The token program moves `amount` from `source` to `destination` on the
    /// authority of `authority`; where `signer_seeds` is given the program
    /// signs for the authority with them.
    Transfer {
        token_program: Pubkey,
        source: Pubkey,
        destination: Pubkey,
        authority: Pubkey,
        amount: u64,
        signer_seeds: Option<[u8; 32]>,
    },
}

/// The dispatcher of the four operations.
pub struct Processor {}

/// The length of a vesting account's data for `n` tranches.
pub open spec fn state_size(n: int) -> int {
    65 + 16 * n
}

/// Whether `new` is `old` with at most the data of account `i` changed.
pub open spec fn only_data_changed(old: Seq<AccountInfo>, new: Seq<AccountInfo>, i: int) -> bool {
    &&& new.len() == old.len()
    &&& 0 <= i < old.len()
    &&& forall|j: int| 0 <= j < old.len() && j != i ==> new[j] == old[j]
    &&& new[i].key == old[i].key
    &&& new[i].owner == old[i].owner
    &&& new[i].is_signer == old[i].is_signer
}

/// Whether `new` is `old` with the data of account `i` replaced by `d` and
/// nothing else changed.
pub open spec fn data_replaced(old: Seq<AccountInfo>, new: Seq<AccountInfo>, i: int, d: Seq<u8>) -> bool {
    &&& only_data_changed(old, new, i)
    &&& new[i].data@ == d
}

/// The total of the tranches' amounts.
pub open spec fn amount_sum(s: Seq<Schedule>) -> int
    decreases s.len(),
{
    if s.len() == 0 {
        0
    } else {
        amount_sum(s.drop_last()) + s.last().amount
    }
}

/// The first check of `Create` that fails, if one does.
pub open spec fn create_error(program_id: Pubkey, a: Seq<AccountInfo>, seeds: Seq<u8>, s: Seq<Schedule>) -> Option<ProgramError> {
    if a.len() < 5 {
        Some(ProgramError::NotEnoughAccountKeys)
    } else {
        match program_address(seeds, program_id@) {
            None => Some(ProgramError::InvalidSeeds),
            Some(key) => if a[1].key@ != key {
                Some(ProgramError::InvalidArgument)
            } else if !a[3].is_signer {
                Some(ProgramError::InvalidArgument)
            } else if a[1].owner@ != program_id@ {
                Some(ProgramError::InvalidArgument)
            } else if a[1].data@.len() < 65 {
                Some(ProgramError::InvalidAccountData)
            } else if a[1].data@[64] == 1 {
                Some(ProgramError::InvalidArgument)
            } else if token_error(a[2].data@) is Some {
                token_error(a[2].data@)
            } else if token_owner(a[2].data@) != key {
                Some(ProgramError::InvalidArgument)
            } else if a[1].data@.len() != state_size(s.len() as int) {
                Some(ProgramError::InvalidAccountData)
            } else if amount_sum(s) > u64::MAX {
                Some(ProgramError::InvalidInstructionData)
            } else if token_error(a[4].data@) is Some {
                token_error(a[4].data@)
            } else if token_amount(a[4].data@) < amount_sum(s) {
                Some(ProgramError::InsufficientFunds)
            } else {
                None
            },
        }
    }
}

/// Whether `d` is a freshly written contract: the header with the
/// destination, the mint and the flag set, then the tranches.
pub open spec fn created_data(d: Seq<u8>, destination: Seq<u8>, mint: Seq<u8>, s: Seq<Schedule>) -> bool {
    &&& d.len() == state_size(s.len() as int)
    &&& d.subrange(0, 65) == destination + mint + seq![1u8]
    &&& forall|i: int| 0 <= i < s.len() ==> #[trigger] slot(d, 65, i) == s[i].spec_bytes()
}

/// What `Create` owes: on success the contract is written into the vesting
/// account and the sum of the tranches moves from the source token account
/// to the vesting token account, on the source owner's signature.
pub open spec fn create_post(
    program_id: Pubkey,
    a: Seq<AccountInfo>,
    b: Seq<AccountInfo>,
    seeds: Seq<u8>,
    mint: Seq<u8>,
    destination: Seq<u8>,
    s: Seq<Schedule>,
    r: Result<Invocation, ProgramError>,
) -> bool {
    match r {
        Err(e) => create_error(program_id, a, seeds, s) == Some(e) && b == a,
        Ok(inv) => {
            &&& create_error(program_id, a, seeds, s) is None
            &&& only_data_changed(a, b, 1)
            &&& created_data(b[1].data@, destination, mint, s)
            &&& inv matches Invocation::Transfer {
                token_program,
                source,
                destination: to,
                authority,
                amount,
                signer_seeds,
            }
            &&& token_program == a[0].key
            &&& source == a[4].key
            &&& to == a[2].key
            &&& authority == a[3].key
            &&& amount == amount_sum(s)
            &&& signer_seeds is None
        },
    }
}

/// A prefix of the tranches sums to no more than all of them.
pub proof fn lemma_amount_sum_prefix(s: Seq<Schedule>, k: int)
    requires
        0 <= k <= s.len(),
    ensures
        amount_sum(s.subrange(0, k)) <= amount_sum(s),
    decreases s.len() - k,
{
    if k < s.len() {
        lemma_amount_sum_prefix(s, k + 1);
        assert(s.subrange(0, k + 1).drop_last() =~= s.subrange(0, k));
    } else {
        assert(s.subrange(0, k) =~= s);
    }
}

/// The first check of `Init` that fails, if one does.
pub open spec fn init_error(program_id: Pubkey, a: Seq<AccountInfo>, seeds: Seq<u8>, n: u64) -> Option<ProgramError> {
    if a.len() < 3 {
        Some(ProgramError::NotEnoughAccountKeys)
    } else {
        match program_address(seeds, program_id@) {
            None => Some(ProgramError::InvalidSeeds),
            Some(key) => if a[2].key@ != key {
                Some(ProgramError::InvalidArgument)
            } else if state_size(n as int) > u64::MAX {
                Some(ProgramError::InvalidInstructionData)
            } else {
                None
            },
        }
    }
}

/// What `Init` owes: on success, an account of the full size at the derived
/// address, owned by this program and paid for by the payer.
pub open spec fn init_post(
    program_id: Pubkey,
    a: Seq<AccountInfo>,
    seeds: Seq<u8>,
    n: u64,
    r: Result<Invocation, ProgramError>,
) -> bool {
    match r {
        Err(e) => init_error(program_id, a, seeds, n) == Some(e),
        Ok(inv) => {
            &&& init_error(program_id, a, seeds, n) is None
            &&& inv matches Invocation::CreateAccount { payer, new_account, space, owner, seeds: s }
            &&& payer == a[1].key
            &&& new_account == a[2].key
            &&& space == state_size(n as int)
            &&& owner == program_id
            &&& s@ == seeds
        },
    }
}

/// The first check of `ChangeDestination` that fails, if one does.
pub open spec fn change_destination_error(program_id: Pubkey, a: Seq<AccountInfo>, seeds: Seq<u8>) -> Option<ProgramError> {
    if a.len() < 4 {
        Some(ProgramError::NotEnoughAccountKeys)
    } else {
        match program_address(seeds, program_id@) {
            None => Some(ProgramError::InvalidSeeds),
            Some(key) => if a[0].key@ != key {
                Some(ProgramError::InvalidArgument)
            } else if a[0].owner@ != program_id@ {
                Some(ProgramError::InvalidArgument)
            } else if a[0].data@.len() < 65 {
                Some(ProgramError::InvalidAccountData)
            } else if a[0].data@[64] != 1 {
                Some(ProgramError::UninitializedAccount)
            } else if a[0].data@.subrange(0, 32) != a[1].key@ {
                Some(ProgramError::InvalidArgument)
            } else if !a[2].is_signer {
                Some(ProgramError::InvalidArgument)
            } else if token_error(a[1].data@) is Some {
                token_error(a[1].data@)
            } else if token_owner(a[1].data@) != a[2].key@ {
                Some(ProgramError::InvalidArgument)
            } else {
                None
            },
        }
    }
}

/// What `ChangeDestination` owes: on success, the header names the new
/// destination and every other byte stays.
pub open spec fn change_destination_post(
    program_id: Pubkey,
    a: Seq<AccountInfo>,
    b: Seq<AccountInfo>,
    seeds: Seq<u8>,
    r: Result<(), ProgramError>,
) -> bool {
    match r {
        Err(e) => change_destination_error(program_id, a, seeds) == Some(e) && b == a,
        Ok(_) => {
            &&& change_destination_error(program_id, a, seeds) is None
            &&& data_replaced(a, b, 0, a[3].key@ + a[0].data@.subrange(32, a[0].data@.len() as int))
        },
    }
}

/// What the dispatcher owes: an undecodable instruction is refused before
/// any account is read; any other is handled by its handler, whose result is
/// passed on unchanged.
pub open spec fn instruction_post(
    program_id: Pubkey,
    a: Seq<AccountInfo>,
    b: Seq<AccountInfo>,
    data: Seq<u8>,
    now: i64,
    r: Result<Option<Invocation>, ProgramError>,
) -> bool {
    match decode(data) {
        None => r == Err::<Option<Invocation>, ProgramError>(invalid_instruction()) && b == a,
        Some(InstructionModel::Init { seeds, number_of_schedules }) => b == a && match r {
            Err(e) => init_post(program_id, a, seeds, number_of_schedules, Err(e)),
            Ok(Some(inv)) => init_post(program_id, a, seeds, number_of_schedules, Ok(inv)),
            Ok(None) => false,
        },
        Some(
            InstructionModel::Create { seeds, mint_address, destination_token_address, schedules },
        ) => match r {
            Err(e) => create_post(
                program_id,
                a,
                b,
                seeds,
                mint_address,
                destination_token_address,
                schedules,
                Err(e),
            ),
            Ok(Some(inv)) => create_post(
                program_id,
                a,
                b,
                seeds,
                mint_address,
                destination_token_address,
                schedules,
                Ok(inv),
            ),
            Ok(None) => false,
        },
        Some(InstructionModel::Unlock { seeds }) => match r {
            Err(e) => unlock_post(program_id, a, b, seeds, now, Err(e)),
            Ok(Some(inv)) => unlock_post(program_id, a, b, seeds, now, Ok(inv)),
            Ok(None) => false,
        },
        Some(InstructionModel::ChangeDestination { seeds }) => match r {
            Err(e) => change_destination_post(program_id, a, b, seeds, Err(e)),
            Ok(None) => change_destination_post(program_id, a, b, seeds, Ok(())),
            Ok(Some(_)) => false,
        },
    }
}

/// Whether a tranche that opens at `release_height` may leave at time `now`.
/// A clock reading before the epoch is before every release.
pub open spec fn is_due(release_height: u64, now: i64) -> bool {
    now as int >= release_height as int
}

/// The number of whole tranches in a vesting account's data.
pub open spec fn tranche_count(d: Seq<u8>) -> int {
    (d.len() - 65) / 16
}

/// The total that is due at `now` among the first `k` tranches stored in `d`.
pub open spec fn released_amount(d: Seq<u8>, now: i64, k: int) -> int
    decreases k,
{
    if k <= 0 {
        0
    } else {
        let t = VestingSchedule::spec_at(d, 65 + 16 * (k - 1));
        released_amount(d, now, k - 1) + if is_due(t.release_height, now) {
            t.amount as int
        } else {
            0
        }
    }
}

/// The first check of `Unlock` that fails, if one does.
pub open spec fn unlock_error(program_id: Pubkey, a: Seq<AccountInfo>, seeds: Seq<u8>, now: i64) -> Option<ProgramError> {
    if a.len() < 5 {
        Some(ProgramError::NotEnoughAccountKeys)
    } else {
        match program_address(seeds, program_id@) {
            None => Some(ProgramError::InvalidSeeds),
            Some(key) => if a[2].key@ != key {
                Some(ProgramError::InvalidArgument)
            } else if a[2].owner@ != program_id@ {
                Some(ProgramError::InvalidArgument)
            } else if a[2].data@.len() < 65 {
                Some(ProgramError::InvalidAccountData)
            } else if a[2].data@[64] != 1 {
                Some(ProgramError::UninitializedAccount)
            } else if a[2].data@.subrange(0, 32) != a[4].key@ {
                Some(ProgramError::InvalidArgument)
            } else if token_error(a[3].data@) is Some {
                token_error(a[3].data@)
            } else if token_owner(a[3].data@) != key {
                Some(ProgramError::InvalidArgument)
            } else if released_amount(a[2].data@, now, tranche_count(a[2].data@)) > u64::MAX {
                Some(ProgramError::InvalidAccountData)
            } else if released_amount(a[2].data@, now, tranche_count(a[2].data@)) == 0 {
                Some(ProgramError::InvalidArgument)
            } else {
                None
            },
        }
    }
}

/// The `i`-th tranche slot after an unlock at `now`: a due tranche keeps its
/// time and has its amount set to zero; any other stays as it was.
pub open spec fn unlocked_slot(d: Seq<u8>, now: i64, i: int) -> Seq<u8> {
    let t = VestingSchedule::spec_at(d, 65 + 16 * i);
    if is_due(t.release_height, now) {
        VestingSchedule { release_height: t.release_height, amount: 0 }.spec_bytes()
    } else {
        slot(d, 65, i)
    }
}

/// Whether `e` is the data `d` after an unlock at `now`: the header and any
/// bytes after the last whole tranche stay, and each tranche is unlocked.
pub open spec fn unlocked_data(d: Seq<u8>, e: Seq<u8>, now: i64) -> bool {
    let n = tranche_count(d);
    &&& e.len() == d.len()
    &&& e.subrange(0, 65) == d.subrange(0, 65)
    &&& forall|i: int| 0 <= i < n ==> #[trigger] slot(e, 65, i) == unlocked_slot(d, now, i)
    &&& e.subrange(65 + 16 * n, e.len() as int) == d.subrange(65 + 16 * n, d.len() as int)
}

/// What `Unlock` owes: on success every due tranche is zeroed and their
/// total moves from the vesting token account to the destination, on the
/// vesting account's derived signature.
pub open spec fn unlock_post(
    program_id: Pubkey,
    a: Seq<AccountInfo>,
    b: Seq<AccountInfo>,
    seeds: Seq<u8>,
    now: i64,
    r: Result<Invocation, ProgramError>,
) -> bool {
    match r {
        Err(e) => unlock_error(program_id, a, seeds, now) == Some(e) && b == a,
        Ok(inv) => {
            &&& unlock_error(program_id, a, seeds, now) is None
            &&& only_data_changed(a, b, 2)
            &&& unlocked_data(a[2].data@, b[2].data@, now)
            &&& inv matches Invocation::Transfer {
                token_program,
                source,
                destination,
                authority,
                amount,
                signer_seeds,
            }
            &&& token_program == a[0].key
            &&& source == a[3].key
            &&& destination == a[4].key
            &&& authority == a[2].key
            &&& amount == released_amount(a[2].data@, now, tranche_count(a[2].data@))
            &&& signer_seeds matches Some(sd)
            &&& sd@ == seeds
        },
    }
}

/// The amount due among the first `k` tranches grows with `k`.
pub proof fn lemma_released_prefix(d: Seq<u8>, now: i64, k: int, n: int)
    requires
        0 <= k <= n,
    ensures
        released_amount(d, now, k) <= released_amount(d, now, n),
    decreases n - k,
{
    if k < n {
        lemma_released_prefix(d, now, k + 1, n);
    }
}

/// The total of the first `k` amounts stored in a vesting account's data.
pub open spec fn stored_total(d: Seq<u8>, k: int) -> int
    decreases k,
{
    if k <= 0 {
        0
    } else {
        stored_total(d, k - 1) + VestingSchedule::spec_at(d, 65 + 16 * (k - 1)).amount
    }
}

/// After `Create`, the amounts stored in the vesting account add up to
/// exactly what is moved out of the source token account, and it is the
/// source token account that the tokens leave.
pub proof fn lemma_create_locks_stored_total(
    program_id: Pubkey,
    a: Seq<AccountInfo>,
    b: Seq<AccountInfo>,
    seeds: Seq<u8>,
    mint: Seq<u8>,
    destination: Seq<u8>,
    s: Seq<Schedule>,
    inv: Invocation,
)
    requires
        create_post(program_id, a, b, seeds, mint, destination, s, Ok(inv)),
    ensures
        inv matches Invocation::Transfer { source, amount, .. } && source == a[4].key && amount
            == stored_total(b[1].data@, tranche_count(b[1].data@)),
{
    let d = b[1].data@;
    assert(tranche_count(d) == s.len());
    lemma_stored_total(d, s, s.len() as int);
    assert(s.subrange(0, s.len() as int) =~= s);
}

/// The stored amounts of a freshly written contract are the tranches' amounts.
pub proof fn lemma_stored_total(d: Seq<u8>, s: Seq<Schedule>, k: int)
    requires
        d.len() == state_size(s.len() as int),
        forall|i: int| 0 <= i < s.len() ==> #[trigger] slot(d, 65, i) == s[i].spec_bytes(),
        0 <= k <= s.len(),
    ensures
        stored_total(d, k) == amount_sum(s.subrange(0, k)),
    decreases k,
{
    if k > 0 {
        lemma_stored_total(d, s, k - 1);
        vstd::bytes::lemma_auto_spec_u64_to_from_le_bytes();
        let i = k - 1;
        let sl = slot(d, 65, i);
        assert(sl == s[i].spec_bytes());
        assert(d.subrange(65 + 16 * i + 8, 65 + 16 * i + 16) =~= sl.subrange(8, 16));
        assert(sl.subrange(8, 16) =~= spec_u64_to_le_bytes(s[i].amount));
        assert(s.subrange(0, k).drop_last() =~= s.subrange(0, k - 1));
    }
}

/// Every handler refuses a vesting account whose address is not the one
/// derived from the seeds; once the accounts it expects are all there (and,
/// for `ChangeDestination`, the account holds a header), it refuses it with
/// `InvalidArgument`.
pub proof fn lemma_wrong_address_refused(
    program_id: Pubkey,
    a: Seq<AccountInfo>,
    seeds: Seq<u8>,
    n: u64,
    s: Seq<Schedule>,
    now: i64,
)
    requires
        program_address(seeds, program_id@) is Some,
    ensures
        ({
            let key = program_address(seeds, program_id@)->0;
            &&& a.len() >= 3 && a[2].key@ != key ==> init_error(program_id, a, seeds, n) == Some(
                ProgramError::InvalidArgument,
            )
            &&& a.len() >= 5 && a[1].key@ != key ==> create_error(program_id, a, seeds, s) == Some(
                ProgramError::InvalidArgument,
            )
            &&& a.len() >= 5 && a[2].key@ != key ==> unlock_error(program_id, a, seeds, now) == Some(
                ProgramError::InvalidArgument,
            )
            &&& a.len() >= 4 && a[0].key@ != key ==> change_destination_error(program_id, a, seeds) == Some(
                ProgramError::InvalidArgument,
            )
        }),
        a.len() >= 3 && a[2].key@ != program_address(seeds, program_id@)->0 ==> init_error(
            program_id,
            a,
            seeds,
            n,
        ) is Some,
        a.len() >= 2 && a[1].key@ != program_address(seeds, program_id@)->0 ==> create_error(
            program_id,
            a,
            seeds,
            s,
        ) is Some,
        a.len() >= 3 && a[2].key@ != program_address(seeds, program_id@)->0 ==> unlock_error(
            program_id,
            a,
            seeds,
            now,
        ) is Some,
        a.len() >= 1 && a[0].key@ != program_address(seeds, program_id@)->0
            ==> change_destination_error(program_id, a, seeds) is Some,
{
}

/// A second `Unlock` at the same time, on the accounts that the first one
/// left, is always refused: after a success nothing is due any more, and it
/// is refused with `InvalidArgument`; after a refusal nothing has changed.
pub proof fn lemma_unlock_twice(
    program_id: Pubkey,
    a: Seq<AccountInfo>,
    b: Seq<AccountInfo>,
    seeds: Seq<u8>,
    now: i64,
    r: Result<Invocation, ProgramError>,
)
    requires
        unlock_post(program_id, a, b, seeds, now, r),
    ensures
        unlock_error(program_id, b, seeds, now) is Some,
        r is Ok ==> unlock_error(program_id, b, seeds, now) == Some(ProgramError::InvalidArgument),
{
    if r is Ok {
        let d = a[2].data@;
        let e = b[2].data@;
        let n = tranche_count(d);
        assert(e.subrange(0, 32) =~= e.subrange(0, 65).subrange(0, 32));
        assert(d.subrange(0, 32) =~= d.subrange(0, 65).subrange(0, 32));
        assert(tranche_count(e) == n);
        assert(e[64] == e.subrange(0, 65)[64]);
        assert(d[64] == d.subrange(0, 65)[64]);
        lemma_released_after_unlock(d, e, now, n);
    }
}

/// After an unlock at `now`, nothing among the first `k` tranches is due at `now`.
pub proof fn lemma_released_after_unlock(d: Seq<u8>, e: Seq<u8>, now: i64, k: int)
    requires
        d.len() >= 65,
        unlocked_data(d, e, now),
        0 <= k <= tranche_count(d),
    ensures
        released_amount(e, now, k) == 0,
    decreases k,
{
    if k > 0 {
        lemma_released_after_unlock(d, e, now, k - 1);
        vstd::bytes::lemma_auto_spec_u64_to_from_le_bytes();
        let i = k - 1;
        let t = VestingSchedule::spec_at(d, 65 + 16 * i);
        let u = VestingSchedule::spec_at(e, 65 + 16 * i);
        let sl = slot(e, 65, i);
        assert(sl == unlocked_slot(d, now, i));
        assert(e.subrange(65 + 16 * i, 65 + 16 * i + 8) =~= sl.subrange(0, 8));
        assert(e.subrange(65 + 16 * i + 8, 65 + 16 * i + 16) =~= sl.subrange(8, 16));
        if is_due(t.release_height, now) {
            let z = VestingSchedule { release_height: t.release_height, amount: 0 };
            assert(sl.subrange(0, 8) =~= spec_u64_to_le_bytes(t.release_height));
            assert(sl.subrange(8, 16) =~= spec_u64_to_le_bytes(0));
            assert(u.amount == 0);
        } else {
            assert(sl.subrange(0, 8) =~= d.subrange(65 + 16 * i, 65 + 16 * i + 8));
            assert(u.release_height == t.release_height);
        }
    }
}

/// `ChangeDestination` never succeeds when the signer does not own the
/// current destination token account, whatever the other accounts hold; when
/// every other check passes, it is refused with `InvalidArgument`.
pub proof fn lemma_change_destination_needs_owner(program_id: Pubkey, a: Seq<AccountInfo>, seeds: Seq<u8>)
    requires
        a.len() >= 4,
        token_owner(a[1].data@) != a[2].key@,
    ensures
        change_destination_error(program_id, a, seeds) is Some,
        program_address(seeds, program_id@) == Some(a[0].key@) && a[0].owner@ == program_id@
            && a[0].data@.len() >= 65 && a[0].data@[64] == 1 && a[0].data@.subrange(0, 32)
            == a[1].key@ && a[2].is_signer && token_error(a[1].data@) is None
            ==> change_destination_error(program_id, a, seeds) == Some(
            ProgramError::InvalidArgument,
        ),
{
}

/// The address that `Init` creates the vesting account at is the one that
/// the other handlers derive again from the same seeds: once `Init` has
/// succeeded, an account at that address passes their address check.
pub proof fn lemma_init_address_recomputed(
    program_id: Pubkey,
    a: Seq<AccountInfo>,
    seeds: Seq<u8>,
    n: u64,
    inv: Invocation,
)
    requires
        init_post(program_id, a, seeds, n, Ok(inv)),
    ensures
        inv matches Invocation::CreateAccount { new_account, owner, .. } && program_address(
            seeds,
            program_id@,
        ) == Some(new_account@) && owner == program_id,
{
}

/// Compares two keys.
fn same_key(x: &Pubkey, y: &Pubkey) -> (r: bool)
    ensures
        r == (x@ == y@),
{
    *x == *y
}

/// Sums the tranches' amounts; none where the sum passes `u64::MAX`.
fn checked_amount_sum(schedules: &Vec<Schedule>) -> (r: Option<u64>)
    ensures
        match r {
            Some(t) => t == amount_sum(schedules@),
            None => amount_sum(schedules@) > u64::MAX,
        },
{
    let mut total: u64 = 0;
    let mut k: usize = 0;
    while k < schedules.len()
        invariant
            0 <= k <= schedules@.len(),
            total == amount_sum(schedules@.subrange(0, k as int)),
        decreases schedules@.len() - k,
    {
        proof {
            assert(schedules@.subrange(0, k + 1).drop_last() =~= schedules@.subrange(0, k as int));
        }
        match total.checked_add(schedules[k].amount) {
            Some(t) => {
                total = t;
            },
            None => {
                proof {
                    lemma_amount_sum_prefix(schedules@, k + 1);
                }
                return None;
            },
        }
        k = k + 1;
    }
    assert(schedules@.subrange(0, k as int) =~= schedules@);
    Some(total)
}

/// The record of a freshly written contract.
fn created_state(destination: &Pubkey, mint: &Pubkey, schedules: &Vec<Schedule>) -> (r: Vec<u8>)
    requires
        state_size(schedules@.len() as int) <= usize::MAX,
    ensures
        created_data(r@, destination@, mint@, schedules@),
{
    let header = VestingScheduleHeader {
        destination_address: *destination,
        mint_address: *mint,
        is_initialized: true,
    };
    let mut data: Vec<u8> = vec![0u8; 65];
    header.pack_into_slice(data.as_mut_slice());
    let n = schedules.len();
    let mut tranches: Vec<VestingSchedule> = Vec::with_capacity(n);
    let mut k: usize = 0;
    while k < n
        invariant
            n == schedules@.len(),
            0 <= k <= n,
            tranches@.len() == k,
            forall|i: int|
                0 <= i < k ==> #[trigger] tranches@[i] == (VestingSchedule {
                    release_height: schedules@[i].release_height,
                    amount: schedules@[i].amount,
                }),
        decreases n - k,
    {
        let s = schedules[k];
        tranches.push(VestingSchedule { release_height: s.release_height, amount: s.amount });
        k = k + 1;
    }
    let ghost stored = tranches@;
    let mut body: Vec<u8> = vec![0u8; 16 * n];
    pack_schedules_into_slice(tranches, body.as_mut_slice());
    let ghost head = data@;
    let ghost tail = body@;
    data.append(&mut body);
    proof {
        assert(head =~= destination@ + mint@ + seq![1u8]);
        assert(data@.subrange(0, 65) =~= head);
        assert forall|i: int| 0 <= i < n implies #[trigger] slot(data@, 65, i)
            == schedules@[i].spec_bytes() by {
            assert(slot(tail, 0, i) == stored[i].spec_bytes());
            assert(slot(data@, 65, i) =~= slot(tail, 0, i));
        }
    }
    data
}

impl Processor {
    /// Allocates the vesting account: checks the derived address and asks the
    /// system program for an account of the full size.
    pub fn process_init(
        program_id: &Pubkey,
        accounts: &Vec<AccountInfo>,
        seeds: [u8; 32],
        number_of_schedules: u64,
    ) -> (r: Result<Invocation, ProgramError>)
        ensures
            init_post(*program_id, accounts@, seeds@, number_of_schedules, r),
    {
        if accounts.len() < 3 {
            return Err(ProgramError::NotEnoughAccountKeys);
        }
        let key = match create_program_address(&seeds, program_id) {
            Some(k) => k,
            None => {
                return Err(ProgramError::InvalidSeeds);
            },
        };
        if !same_key(&accounts[2].key, &key) {
            return Err(ProgramError::InvalidArgument);
        }
        if number_of_schedules > (u64::MAX - 65) / 16 {
            return Err(ProgramError::InvalidInstructionData);
        }
        let space = 65 + 16 * number_of_schedules;
        Ok(
            Invocation::CreateAccount {
                payer: accounts[1].key,
                new_account: accounts[2].key,
                space,
                owner: *program_id,
                seeds,
            },
        )
    }

    /// Writes a new contract into the allocated vesting account and asks the
    /// token program to lock the sum of its tranches.
    pub fn process_create(
        program_id: &Pubkey,
        accounts: &mut Vec<AccountInfo>,
        seeds: [u8; 32],
        mint_address: &Pubkey,
        destination_token_address: &Pubkey,
        schedules: Vec<Schedule>,
    ) -> (r: Result<Invocation, ProgramError>)
        ensures
            create_post(
                *program_id,
                old(accounts)@,
                final(accounts)@,
                seeds@,
                mint_address@,
                destination_token_address@,
                schedules@,
                r,
            ),
    {
        if accounts.len() < 5 {
            return Err(ProgramError::NotEnoughAccountKeys);
        }
        let key = match create_program_address(&seeds, program_id) {
            Some(k) => k,
            None => {
                return Err(ProgramError::InvalidSeeds);
            },
        };
        if !same_key(&accounts[1].key, &key) {
            return Err(ProgramError::InvalidArgument);
        }
        if !accounts[3].is_signer {
            return Err(ProgramError::InvalidArgument);
        }
        if !same_key(&accounts[1].owner, program_id) {
            return Err(ProgramError::InvalidArgument);
        }
        let len = accounts[1].data.len();
        if len < 65 {
            return Err(ProgramError::InvalidAccountData);
        }
        if accounts[1].data[64] == 1 {
            return Err(ProgramError::InvalidArgument);
        }
        let vesting_token = match unpack_token_account(accounts[2].data.as_slice()) {
            Ok(t) => t,
            Err(e) => {
                return Err(e);
            },
        };
        if !same_key(&vesting_token.owner, &key) {
            return Err(ProgramError::InvalidArgument);
        }
        let n = schedules.len();
        if (len - 65) % 16 != 0 || (len - 65) / 16 != n {
            return Err(ProgramError::InvalidAccountData);
        }
        let total = match checked_amount_sum(&schedules) {
            Some(t) => t,
            None => {
                return Err(ProgramError::InvalidInstructionData);
            },
        };
        let source = match unpack_token_account(accounts[4].data.as_slice()) {
            Ok(t) => t,
            Err(e) => {
                return Err(e);
            },
        };
        if source.amount < total {
            return Err(ProgramError::InsufficientFunds);
        }
        let data = created_state(destination_token_address, mint_address, &schedules);
        accounts[1].data = data;
        Ok(
            Invocation::Transfer {
                token_program: accounts[0].key,
                source: accounts[4].key,
                destination: accounts[2].key,
                authority: accounts[3].key,
                amount: total,
                signer_seeds: None,
            },
        )
    }

    /// Releases every tranche that is due at `now`: zeroes them in the
    /// vesting account and asks the token program to move their total to the
    /// destination. Nothing due is an error, so that a call that moves nothing
    /// cannot pass for one that moved something.
    pub fn process_unlock(
        program_id: &Pubkey,
        accounts: &mut Vec<AccountInfo>,
        seeds: [u8; 32],
        now: i64,
    ) -> (r: Result<Invocation, ProgramError>)
        ensures
            unlock_post(*program_id, old(accounts)@, final(accounts)@, seeds@, now, r),
    {
        if accounts.len() < 5 {
            return Err(ProgramError::NotEnoughAccountKeys);
        }
        let key = match create_program_address(&seeds, program_id) {
            Some(k) => k,
            None => {
                return Err(ProgramError::InvalidSeeds);
            },
        };
        if !same_key(&accounts[2].key, &key) {
            return Err(ProgramError::InvalidArgument);
        }
        if !same_key(&accounts[2].owner, program_id) {
            return Err(ProgramError::InvalidArgument);
        }
        let len = accounts[2].data.len();
        let header = match VestingScheduleHeader::unpack_from_slice(accounts[2].data.as_slice()) {
            Ok(h) => h,
            Err(e) => {
                return Err(e);
            },
        };
        if !header.is_initialized() {
            return Err(ProgramError::UninitializedAccount);
        }
        if !same_key(&header.destination_address, &accounts[4].key) {
            return Err(ProgramError::InvalidArgument);
        }
        let vesting_token = match unpack_token_account(accounts[3].data.as_slice()) {
            Ok(t) => t,
            Err(e) => {
                return Err(e);
            },
        };
        if !same_key(&vesting_token.owner, &key) {
            return Err(ProgramError::InvalidArgument);
        }
        let ghost d = accounts@[2].data@;
        let tail = &accounts[2].data.as_slice()[65..len];
        assert(tail@ =~= d.subrange(65, len as int));
        let mut schedules = match unpack_schedules(tail) {
            Ok(s) => s,
            Err(e) => {
                return Err(e);
            },
        };
        let n = schedules.len();
        proof {
            assert forall|i: int| 0 <= i < n implies #[trigger] schedules@[i]
                == VestingSchedule::spec_at(d, 65 + 16 * i) by {
                assert(tail@.subrange(16 * i, 16 * i + 8) =~= d.subrange(65 + 16 * i, 65 + 16 * i + 8));
                assert(tail@.subrange(16 * i + 8, 16 * i + 16) =~= d.subrange(
                    65 + 16 * i + 8,
                    65 + 16 * i + 16,
                ));
            }
        }
        let mut total: u64 = 0;
        let mut k: usize = 0;
        while k < n
            invariant
                n == schedules@.len(),
                n == tranche_count(d),
                0 <= k <= n,
                total == released_amount(d, now, k as int),
                released_amount(d, now, n as int) > u64::MAX ==> unlock_error(
                    *program_id,
                    old(accounts)@,
                    seeds@,
                    now,
                ) == Some(ProgramError::InvalidAccountData),
                forall|i: int|
                    k <= i < n ==> #[trigger] schedules@[i] == VestingSchedule::spec_at(
                        d,
                        65 + 16 * i,
                    ),
                forall|i: int|
                    0 <= i < k ==> #[trigger] schedules@[i] == (if is_due(
                        VestingSchedule::spec_at(d, 65 + 16 * i).release_height,
                        now,
                    ) {
                        VestingSchedule {
                            release_height: VestingSchedule::spec_at(d, 65 + 16 * i).release_height,
                            amount: 0,
                        }
                    } else {
                        VestingSchedule::spec_at(d, 65 + 16 * i)
                    }),
            decreases n - k,
        {
            let t = schedules[k];
            if now >= 0 && (now as u64) >= t.release_height {
                match total.checked_add(t.amount) {
                    Some(v) => {
                        total = v;
                    },
                    None => {
                        proof {
                            assert(schedules@[k as int] == VestingSchedule::spec_at(d, 65 + 16 * k));
                            assert(is_due(t.release_height, now));
                            assert(released_amount(d, now, k + 1) == released_amount(d, now, k as int)
                                + t.amount);
                            lemma_released_prefix(d, now, k + 1, n as int);
                        }
                        return Err(ProgramError::InvalidAccountData);
                    },
                }
                schedules[k] = VestingSchedule { release_height: t.release_height, amount: 0 };
            }
            k = k + 1;
        }
        if total == 0 {
            return Err(ProgramError::InvalidArgument);
        }
        let ghost updated = schedules@;
        let mut data: Vec<u8> = Vec::new();
        append_bytes(&mut data, &accounts[2].data.as_slice()[0..65]);
        let mut body: Vec<u8> = Vec::new();
        append_bytes(&mut body, tail);
        pack_schedules_into_slice(schedules, body.as_mut_slice());
        let ghost head = data@;
        let ghost rest = body@;
        data.append(&mut body);
        proof {
            vstd::bytes::lemma_auto_spec_u64_to_from_le_bytes();
            assert(head =~= d.subrange(0, 65));
            assert(data@.subrange(0, 65) =~= d.subrange(0, 65));
            assert forall|i: int| 0 <= i < n implies #[trigger] slot(data@, 65, i)
                == unlocked_slot(d, now, i) by {
                assert(slot(data@, 65, i) =~= slot(rest, 0, i));
                assert(slot(rest, 0, i) == updated[i].spec_bytes());
                let t = VestingSchedule::spec_at(d, 65 + 16 * i);
                if !is_due(t.release_height, now) {
                    let sl = slot(d, 65, i);
                    assert(sl.subrange(0, 8) =~= d.subrange(65 + 16 * i, 65 + 16 * i + 8));
                    assert(sl.subrange(8, 16) =~= d.subrange(65 + 16 * i + 8, 65 + 16 * i + 16));
                    assert(sl =~= sl.subrange(0, 8) + sl.subrange(8, 16));
                    assert(t.spec_bytes() =~= sl);
                }
            }
            assert(data@.subrange(65 + 16 * n, data@.len() as int) =~= d.subrange(
                65 + 16 * n,
                d.len() as int,
            ));
        }
        accounts[2].data = data;
        Ok(
            Invocation::Transfer {
                token_program: accounts[0].key,
                source: accounts[3].key,
                destination: accounts[4].key,
                authority: accounts[2].key,
                amount: total,
                signer_seeds: Some(seeds),
            },
        )
    }

    /// Decodes an instruction and hands it to its handler. `now` is the
    /// ledger's clock, in seconds since the Unix epoch; only `Unlock` reads it.
    pub fn process_instruction(
        program_id: &Pubkey,
        accounts: &mut Vec<AccountInfo>,
        instruction_data: &[u8],
        now: i64,
    ) -> (r: Result<Option<Invocation>, ProgramError>)
        ensures
            instruction_post(*program_id, old(accounts)@, final(accounts)@, instruction_data@, now, r),
    {
        let instruction = match VestingInstruction::unpack(instruction_data) {
            Ok(i) => i,
            Err(e) => {
                return Err(e);
            },
        };
        match instruction {
            VestingInstruction::Init { seeds, number_of_schedules } => {
                match Self::process_init(program_id, accounts, seeds, number_of_schedules) {
                    Ok(inv) => Ok(Some(inv)),
                    Err(e) => Err(e),
                }
            },
            VestingInstruction::Create {
                seeds,
                mint_address,
                destination_token_address,
                schedules,
            } => {
                match Self::process_create(
                    program_id,
                    accounts,
                    seeds,
                    &mint_address,
                    &destination_token_address,
                    schedules,
                ) {
                    Ok(inv) => Ok(Some(inv)),
                    Err(e) => Err(e),
                }
            },
            VestingInstruction::Unlock { seeds } => {
                match Self::process_unlock(program_id, accounts, seeds, now) {
                    Ok(inv) => Ok(Some(inv)),
                    Err(e) => Err(e),
                }
            },
            VestingInstruction::ChangeDestination { seeds } => {
                match Self::process_change_destination(program_id, accounts, seeds) {
                    Ok(()) => Ok(None),
                    Err(e) => Err(e),
                }
            },
        }
    }

    /// Names a new destination in the header, on the signature of the owner of
    /// the current destination token account.
    pub fn process_change_destination(
        program_id: &Pubkey,
        accounts: &mut Vec<AccountInfo>,
        seeds: [u8; 32],
    ) -> (r: Result<(), ProgramError>)
        ensures
            change_destination_post(*program_id, old(accounts)@, final(accounts)@, seeds@, r),
    {
        if accounts.len() < 4 {
            return Err(ProgramError::NotEnoughAccountKeys);
        }
        let key = match create_program_address(&seeds, program_id) {
            Some(k) => k,
            None => {
                return Err(ProgramError::InvalidSeeds);
            },
        };
        if !same_key(&accounts[0].key, &key) {
            return Err(ProgramError::InvalidArgument);
        }
        if !same_key(&accounts[0].owner, program_id) {
            return Err(ProgramError::InvalidArgument);
        }
        let state = match VestingScheduleHeader::unpack_from_slice(accounts[0].data.as_slice()) {
            Ok(h) => h,
            Err(e) => {
                return Err(e);
            },
        };
        if !state.is_initialized() {
            return Err(ProgramError::UninitializedAccount);
        }
        if !same_key(&state.destination_address, &accounts[1].key) {
            return Err(ProgramError::InvalidArgument);
        }
        if !accounts[2].is_signer {
            return Err(ProgramError::InvalidArgument);
        }
        let current = match unpack_token_account(accounts[1].data.as_slice()) {
            Ok(t) => t,
            Err(e) => {
                return Err(e);
            },
        };
        if !same_key(&current.owner, &accounts[2].key) {
            return Err(ProgramError::InvalidArgument);
        }
        let destination = accounts[3].key.to_bytes();
        let mut data: Vec<u8> = Vec::new();
        append_bytes(&mut data, accounts[0].data.as_slice());
        write_bytes(data.as_mut_slice(), 0, destination.as_slice());
        proof {
            let old_data = old(accounts)@[0].data@;
            assert(data@ =~= accounts@[3].key@ + old_data.subrange(32, old_data.len() as int));
        }
        accounts[0].data = data;
        Ok(())
    }
}

} // verus!
