use crate::bytes::{append_bytes, u64_at};
use crate::error::{ProgramError, VestingError};
use crate::pubkey::Pubkey;
use crate::state::read_key;
use vstd::bytes::{spec_u64_to_le_bytes, u64_to_le_bytes};
use vstd::prelude::*;

verus! {

/// One tranche of a `Create` instruction.
#[derive(Clone, Copy, Debug, PartialEq, Eq, Structural)]
pub struct Schedule {
    pub release_height: u64,
    pub amount: u64,
}

/// The width of one tranche in the instruction and in the account's data.
pub const SCHEDULE_SIZE: usize = 16;

impl Schedule {
    /// The sixteen bytes of a tranche: release time, then amount, each little-endian.
    pub open spec fn spec_bytes(self) -> Seq<u8> {
        spec_u64_to_le_bytes(self.release_height) + spec_u64_to_le_bytes(self.amount)
    }

    /// The tranche stored at `off`.
    pub open spec fn spec_at(d: Seq<u8>, off: int) -> Schedule {
        Schedule { release_height: u64_at(d, off), amount: u64_at(d, off + 8) }
    }
}

/// The four operations of the program.
#[derive(Clone, Debug, PartialEq, Eq)]
pub enum VestingInstruction {
    /// Allocates the vesting account for `number_of_schedules` tranches.
    ///
    /// Accounts: 0. `[]` the system program; 1. `[signer, writable]` the payer;
    /// 2. `[writable]` the vesting account.
    Init { seeds: [u8; 32], number_of_schedules: u64 },
    /// Writes the contract and locks the sum of the tranches.
    ///
    /// Accounts: 0. `[]` the token program; 1. `[writable]` the vesting account;
    /// 2. `[writable]` the vesting token account; 3. `[signer]` the source token
    /// account's owner; 4. `[writable]` the source token account.
    Create {
        seeds: [u8; 32],
        mint_address: Pubkey,
        destination_token_address: Pubkey,
        schedules: Vec<Schedule>,
    },
    /// Releases every tranche whose time has come.
    ///
    /// Accounts: 0. `[]` the token program; 1. `[]` the clock; 2. `[writable]` the
    /// vesting account; 3. `[writable]` the vesting token account; 4. `[writable]`
    /// the destination token account.
    Unlock { seeds: [u8; 32] },
    /// Moves the contract to a new destination, on the word of the current one.
    ///
    /// Accounts: 0. `[writable]` the vesting account; 1. `[]` the current
    /// destination token account; 2. `[signer]` its owner; 3. `[]` the new
    /// destination token account.
    ChangeDestination { seeds: [u8; 32] },
}

/// What an instruction says, with byte arrays and lists as sequences.
pub enum InstructionModel {
    Init { seeds: Seq<u8>, number_of_schedules: u64 },
    Create {
        seeds: Seq<u8>,
        mint_address: Seq<u8>,
        destination_token_address: Seq<u8>,
        schedules: Seq<Schedule>,
    },
    Unlock { seeds: Seq<u8> },
    ChangeDestination { seeds: Seq<u8> },
}

impl View for VestingInstruction {
    type V = InstructionModel;

    open spec fn view(&self) -> InstructionModel {
        match self {
            VestingInstruction::Init { seeds, number_of_schedules } => InstructionModel::Init {
                seeds: seeds@,
                number_of_schedules: *number_of_schedules,
            },
            VestingInstruction::Create {
                seeds,
                mint_address,
                destination_token_address,
                schedules,
            } => InstructionModel::Create {
                seeds: seeds@,
                mint_address: mint_address@,
                destination_token_address: destination_token_address@,
                schedules: schedules@,
            },
            VestingInstruction::Unlock { seeds } => InstructionModel::Unlock { seeds: seeds@ },
            VestingInstruction::ChangeDestination { seeds } => InstructionModel::ChangeDestination {
                seeds: seeds@,
            },
        }
    }
}

/// The tranches one after another.
pub open spec fn schedules_encoding(s: Seq<Schedule>) -> Seq<u8>
    decreases s.len(),
{
    if s.len() == 0 {
        Seq::empty()
    } else {
        schedules_encoding(s.drop_last()) + s.last().spec_bytes()
    }
}

/// The wire form of an instruction: a tag byte, then the fields in order.
pub open spec fn encode(m: InstructionModel) -> Seq<u8> {
    match m {
        InstructionModel::Init { seeds, number_of_schedules } => seq![0u8] + seeds
            + spec_u64_to_le_bytes(number_of_schedules),
        InstructionModel::Create {
            seeds,
            mint_address,
            destination_token_address,
            schedules,
        } => seq![1u8] + seeds + mint_address + destination_token_address + schedules_encoding(
            schedules,
        ),
        InstructionModel::Unlock { seeds } => seq![2u8] + seeds,
        InstructionModel::ChangeDestination { seeds } => seq![3u8] + seeds,
    }
}

/// The instruction that `b` holds: none where the tag is unknown or a fixed
/// field is cut short. Bytes after the last field, or after the last whole
/// tranche, are ignored.
pub open spec fn decode(b: Seq<u8>) -> Option<InstructionModel> {
    if b.len() == 0 {
        None
    } else if b[0] == 0 {
        if b.len() >= 41 {
            Some(
                InstructionModel::Init {
                    seeds: b.subrange(1, 33),
                    number_of_schedules: u64_at(b, 33),
                },
            )
        } else {
            None
        }
    } else if b[0] == 1 {
        if b.len() >= 97 {
            Some(
                InstructionModel::Create {
                    seeds: b.subrange(1, 33),
                    mint_address: b.subrange(33, 65),
                    destination_token_address: b.subrange(65, 97),
                    schedules: Seq::new(
                        ((b.len() - 97) / 16) as nat,
                        |i: int| Schedule::spec_at(b, 97 + 16 * i),
                    ),
                },
            )
        } else {
            None
        }
    } else if b[0] == 2 {
        if b.len() >= 33 {
            Some(InstructionModel::Unlock { seeds: b.subrange(1, 33) })
        } else {
            None
        }
    } else if b[0] == 3 {
        if b.len() >= 33 {
            Some(InstructionModel::ChangeDestination { seeds: b.subrange(1, 33) })
        } else {
            None
        }
    } else {
        None
    }
}

/// The encoding of `s` is sixteen bytes per tranche, each in its slot.
pub proof fn lemma_schedules_encoding(s: Seq<Schedule>)
    ensures
        schedules_encoding(s).len() == 16 * s.len(),
        forall|i: int|
            0 <= i < s.len() ==> #[trigger] schedules_encoding(s).subrange(16 * i, 16 * i + 16)
                == s[i].spec_bytes(),
    decreases s.len(),
{
    vstd::bytes::lemma_auto_spec_u64_to_from_le_bytes();
    if s.len() > 0 {
        let p = s.drop_last();
        lemma_schedules_encoding(p);
        let e = schedules_encoding(s);
        assert(e == schedules_encoding(p) + s.last().spec_bytes());
        assert forall|i: int| 0 <= i < s.len() implies #[trigger] e.subrange(16 * i, 16 * i + 16)
            == s[i].spec_bytes() by {
            if i < s.len() - 1 {
                assert(e.subrange(16 * i, 16 * i + 16) =~= schedules_encoding(p).subrange(
                    16 * i,
                    16 * i + 16,
                ));
                assert(p[i] == s[i]);
            } else {
                assert(e.subrange(16 * i, 16 * i + 16) =~= s.last().spec_bytes());
            }
        }
    }
}

/// Decoding the wire form of any instruction gives that instruction back.
pub proof fn lemma_round_trip(ins: VestingInstruction)
    ensures
        decode(encode(ins@)) == Some(ins@),
{
    vstd::bytes::lemma_auto_spec_u64_to_from_le_bytes();
    let b = encode(ins@);
    match ins@ {
        InstructionModel::Init { seeds, number_of_schedules } => {
            assert(b.subrange(1, 33) =~= seeds);
            assert(b.subrange(33, 41) =~= spec_u64_to_le_bytes(number_of_schedules));
        },
        InstructionModel::Create { seeds, mint_address, destination_token_address, schedules } => {
            lemma_schedules_encoding(schedules);
            let e = schedules_encoding(schedules);
            assert(b.subrange(1, 33) =~= seeds);
            assert(b.subrange(33, 65) =~= mint_address);
            assert(b.subrange(65, 97) =~= destination_token_address);
            assert(b.subrange(97, b.len() as int) =~= e);
            let d = Seq::new(
                ((b.len() - 97) / 16) as nat,
                |i: int| Schedule::spec_at(b, 97 + 16 * i),
            );
            assert forall|i: int| 0 <= i < schedules.len() implies d[i] == schedules[i] by {
                let sl = e.subrange(16 * i, 16 * i + 16);
                assert(sl == schedules[i].spec_bytes());
                assert(b.subrange(97 + 16 * i, 97 + 16 * i + 8) =~= sl.subrange(0, 8));
                assert(b.subrange(97 + 16 * i + 8, 97 + 16 * i + 16) =~= sl.subrange(8, 16));
                assert(sl.subrange(0, 8) =~= spec_u64_to_le_bytes(schedules[i].release_height));
                assert(sl.subrange(8, 16) =~= spec_u64_to_le_bytes(schedules[i].amount));
            }
            assert(d =~= schedules);
        },
        InstructionModel::Unlock { seeds } => {
            assert(b.subrange(1, 33) =~= seeds);
        },
        InstructionModel::ChangeDestination { seeds } => {
            assert(b.subrange(1, 33) =~= seeds);
        },
    }
}

/// The error of an instruction that does not decode.
pub open spec fn invalid_instruction() -> ProgramError {
    ProgramError::Custom(VestingError::InvalidInstruction.spec_code())
}

/// Reads a 32-byte array at `off`.
fn read_seeds(src: &[u8], off: usize) -> (r: [u8; 32])
    requires
        off + 32 <= src@.len(),
    ensures
        r@ == src@.subrange(off as int, off + 32),
{
    read_key(src, off).to_bytes()
}

impl VestingInstruction {
    /// Decodes an instruction from its wire form.
    pub fn unpack(input: &[u8]) -> (r: Result<VestingInstruction, ProgramError>)
        ensures
            match r {
                Ok(ins) => decode(input@) == Some(ins@),
                Err(e) => decode(input@) is None && e == invalid_instruction(),
            },
    {
        let len = input.len();
        if len == 0 {
            return Err(VestingError::InvalidInstruction.into());
        }
        let tag = input[0];
        if tag == 0 {
            if len < 41 {
                return Err(VestingError::InvalidInstruction.into());
            }
            let seeds = read_seeds(input, 1);
            let number_of_schedules = crate::bytes::read_u64(input, 33);
            Ok(VestingInstruction::Init { seeds, number_of_schedules })
        } else if tag == 1 {
            if len < 97 {
                return Err(VestingError::InvalidInstruction.into());
            }
            let seeds = read_seeds(input, 1);
            let mint_address = read_key(input, 33);
            let destination_token_address = read_key(input, 65);
            let n = (len - 97) / SCHEDULE_SIZE;
            assert(97 + 16 * n <= len);
            let mut schedules: Vec<Schedule> = Vec::with_capacity(n);
            let mut offset: usize = 97;
            let mut k: usize = 0;
            while k < n
                invariant
                    len == input@.len(),
                    n == (len - 97) / 16,
                    97 + 16 * n <= len,
                    0 <= k <= n,
                    offset == 97 + 16 * k,
                    schedules@.len() == k,
                    forall|i: int|
                        0 <= i < k ==> #[trigger] schedules@[i] == Schedule::spec_at(
                            input@,
                            97 + 16 * i,
                        ),
                decreases n - k,
            {
                let release_height = crate::bytes::read_u64(input, offset);
                let amount = crate::bytes::read_u64(input, offset + 8);
                schedules.push(Schedule { release_height, amount });
                offset = offset + SCHEDULE_SIZE;
                k = k + 1;
            }
            let ins = VestingInstruction::Create {
                seeds,
                mint_address,
                destination_token_address,
                schedules,
            };
            proof {
                let m = decode(input@)->0;
                if let InstructionModel::Create { schedules: s, .. } = m {
                    assert(s =~= schedules@);
                }
            }
            Ok(ins)
        } else if tag == 2 || tag == 3 {
            if len < 33 {
                return Err(VestingError::InvalidInstruction.into());
            }
            let seeds = read_seeds(input, 1);
            if tag == 2 {
                Ok(VestingInstruction::Unlock { seeds })
            } else {
                Ok(VestingInstruction::ChangeDestination { seeds })
            }
        } else {
            Err(VestingError::InvalidInstruction.into())
        }
    }

    /// Encodes the instruction in its wire form.
    pub fn pack(&self) -> (r: Vec<u8>)
        ensures
            r@ == encode(self@),
    {
        let mut buf: Vec<u8> = Vec::new();
        match self {
            VestingInstruction::Init { seeds, number_of_schedules } => {
                buf.push(0);
                append_bytes(&mut buf, seeds.as_slice());
                let n = u64_to_le_bytes(*number_of_schedules);
                append_bytes(&mut buf, n.as_slice());
            },
            VestingInstruction::Create {
                seeds,
                mint_address,
                destination_token_address,
                schedules,
            } => {
                buf.push(1);
                append_bytes(&mut buf, seeds.as_slice());
                let m = mint_address.to_bytes();
                append_bytes(&mut buf, m.as_slice());
                let d = destination_token_address.to_bytes();
                append_bytes(&mut buf, d.as_slice());
                let ghost head = buf@;
                let mut k: usize = 0;
                while k < schedules.len()
                    invariant
                        0 <= k <= schedules@.len(),
                        buf@ == head + schedules_encoding(schedules@.subrange(0, k as int)),
                    decreases schedules@.len() - k,
                {
                    let s = schedules[k];
                    let a = u64_to_le_bytes(s.release_height);
                    append_bytes(&mut buf, a.as_slice());
                    let b = u64_to_le_bytes(s.amount);
                    append_bytes(&mut buf, b.as_slice());
                    proof {
                        let next = schedules@.subrange(0, k + 1);
                        assert(next.drop_last() =~= schedules@.subrange(0, k as int));
                        assert(buf@ =~= head + schedules_encoding(next));
                    }
                    k = k + 1;
                }
                assert(schedules@.subrange(0, k as int) =~= schedules@);
            },
            VestingInstruction::Unlock { seeds } => {
                buf.push(2);
                append_bytes(&mut buf, seeds.as_slice());
            },
            VestingInstruction::ChangeDestination { seeds } => {
                buf.push(3);
                append_bytes(&mut buf, seeds.as_slice());
            },
        }
        proof {
            assert(buf@ =~= encode(self@));
        }
        buf
    }
}

/// An account that an instruction names, with its flags.
#[derive(Clone, Copy, Debug, PartialEq, Eq)]
pub struct AccountMeta {
    pub pubkey: Pubkey,
    pub is_signer: bool,
    pub is_writable: bool,
}

impl AccountMeta {
    /// A writable account.
    pub fn new(pubkey: Pubkey, is_signer: bool) -> (r: AccountMeta)
        ensures
            r == (AccountMeta { pubkey, is_signer, is_writable: true }),
    {
        AccountMeta { pubkey, is_signer, is_writable: true }
    }

    /// A read-only account.
    pub fn new_readonly(pubkey: Pubkey, is_signer: bool) -> (r: AccountMeta)
        ensures
            r == (AccountMeta { pubkey, is_signer, is_writable: false }),
    {
        AccountMeta { pubkey, is_signer, is_writable: false }
    }
}

/// A call of a program: its address, the accounts in order, and the data.
#[derive(Clone, Debug, PartialEq, Eq)]
pub struct Instruction {
    pub program_id: Pubkey,
    pub accounts: Vec<AccountMeta>,
    pub data: Vec<u8>,
}

/// An `AccountMeta` as a value of spec code.
pub open spec fn meta(pubkey: Pubkey, is_signer: bool, is_writable: bool) -> AccountMeta {
    AccountMeta { pubkey, is_signer, is_writable }
}

/// Builds an `Init` instruction.
pub fn init(
    system_program_id: &Pubkey,
    vesting_program_id: &Pubkey,
    payer_key: &Pubkey,
    vesting_account: &Pubkey,
    seeds: [u8; 32],
    number_of_schedules: u64,
) -> (r: Result<Instruction, ProgramError>)
    ensures
        r is Ok,
        r->Ok_0.program_id == *vesting_program_id,
        r->Ok_0.data@ == encode(InstructionModel::Init { seeds: seeds@, number_of_schedules }),
        r->Ok_0.accounts@ == seq![
            meta(*system_program_id, false, false),
            meta(*payer_key, true, true),
            meta(*vesting_account, false, true),
        ],
{
    let data = VestingInstruction::Init { seeds, number_of_schedules }.pack();
    let accounts = vec![
        AccountMeta::new_readonly(*system_program_id, false),
        AccountMeta::new(*payer_key, true),
        AccountMeta::new(*vesting_account, false),
    ];
    Ok(Instruction { program_id: *vesting_program_id, accounts, data })
}

/// Builds a `Create` instruction.
pub fn create(
    vesting_program_id: &Pubkey,
    token_program_id: &Pubkey,
    vesting_account_key: &Pubkey,
    vesting_token_account_key: &Pubkey,
    source_token_account_owner_key: &Pubkey,
    source_token_account_key: &Pubkey,
    destination_token_account_key: &Pubkey,
    mint_address: &Pubkey,
    schedules: Vec<Schedule>,
    seeds: [u8; 32],
) -> (r: Result<Instruction, ProgramError>)
    ensures
        r is Ok,
        r->Ok_0.program_id == *vesting_program_id,
        r->Ok_0.data@ == encode(
            InstructionModel::Create {
                seeds: seeds@,
                mint_address: mint_address@,
                destination_token_address: destination_token_account_key@,
                schedules: schedules@,
            },
        ),
        r->Ok_0.accounts@ == seq![
            meta(*token_program_id, false, false),
            meta(*vesting_account_key, false, true),
            meta(*vesting_token_account_key, false, true),
            meta(*source_token_account_owner_key, true, false),
            meta(*source_token_account_key, false, true),
        ],
{
    let data = VestingInstruction::Create {
        seeds,
        mint_address: *mint_address,
        destination_token_address: *destination_token_account_key,
        schedules,
    }.pack();
    let accounts = vec![
        AccountMeta::new_readonly(*token_program_id, false),
        AccountMeta::new(*vesting_account_key, false),
        AccountMeta::new(*vesting_token_account_key, false),
        AccountMeta::new_readonly(*source_token_account_owner_key, true),
        AccountMeta::new(*source_token_account_key, false),
    ];
    Ok(Instruction { program_id: *vesting_program_id, accounts, data })
}

/// Builds an `Unlock` instruction.
pub fn unlock(
    vesting_program_id: &Pubkey,
    token_program_id: &Pubkey,
    clock_sysvar_id: &Pubkey,
    vesting_account_key: &Pubkey,
    vesting_token_account_key: &Pubkey,
    destination_token_account_key: &Pubkey,
    seeds: [u8; 32],
) -> (r: Result<Instruction, ProgramError>)
    ensures
        r is Ok,
        r->Ok_0.program_id == *vesting_program_id,
        r->Ok_0.data@ == encode(InstructionModel::Unlock { seeds: seeds@ }),
        r->Ok_0.accounts@ == seq![
            meta(*token_program_id, false, false),
            meta(*clock_sysvar_id, false, false),
            meta(*vesting_account_key, false, true),
            meta(*vesting_token_account_key, false, true),
            meta(*destination_token_account_key, false, true),
        ],
{
    let data = VestingInstruction::Unlock { seeds }.pack();
    let accounts = vec![
        AccountMeta::new_readonly(*token_program_id, false),
        AccountMeta::new_readonly(*clock_sysvar_id, false),
        AccountMeta::new(*vesting_account_key, false),
        AccountMeta::new(*vesting_token_account_key, false),
        AccountMeta::new(*destination_token_account_key, false),
    ];
    Ok(Instruction { program_id: *vesting_program_id, accounts, data })
}

/// Builds a `ChangeDestination` instruction.
pub fn change_destination(
    vesting_program_id: &Pubkey,
    vesting_account_key: &Pubkey,
    current_destination_token_account_owner: &Pubkey,
    current_destination_token_account: &Pubkey,
    target_destination_token_account: &Pubkey,
    seeds: [u8; 32],
) -> (r: Result<Instruction, ProgramError>)
    ensures
        r is Ok,
        r->Ok_0.program_id == *vesting_program_id,
        r->Ok_0.data@ == encode(InstructionModel::ChangeDestination { seeds: seeds@ }),
        r->Ok_0.accounts@ == seq![
            meta(*vesting_account_key, false, true),
            meta(*current_destination_token_account, false, false),
            meta(*current_destination_token_account_owner, true, false),
            meta(*target_destination_token_account, false, false),
        ],
{
    let data = VestingInstruction::ChangeDestination { seeds }.pack();
    let accounts = vec![
        AccountMeta::new(*vesting_account_key, false),
        AccountMeta::new_readonly(*current_destination_token_account, false),
        AccountMeta::new_readonly(*current_destination_token_account_owner, true),
        AccountMeta::new_readonly(*target_destination_token_account, false),
    ];
    Ok(Instruction { program_id: *vesting_program_id, accounts, data })
}

} // verus!
