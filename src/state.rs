use crate::bytes::{read_u64, splice, u64_at, write_bytes, write_u64};
use crate::error::ProgramError;
use crate::pubkey::Pubkey;
use vstd::bytes::spec_u64_to_le_bytes;
use vstd::prelude::*;

verus! {

/// One tranche: `amount` tokens that may leave at or after `release_height`.
/// An amount of zero marks a tranche that has been released.
#[derive(Clone, Copy, Debug, PartialEq, Eq, Structural)]
pub struct VestingSchedule {
    pub release_height: u64,
    pub amount: u64,
}

/// The record that opens a vesting account's data.
#[derive(Clone, Copy, Debug, PartialEq, Eq)]
pub struct VestingScheduleHeader {
    pub destination_address: Pubkey,
    pub mint_address: Pubkey,
    pub is_initialized: bool,
}

/// The byte that stores a flag.
pub open spec fn flag_byte(b: bool) -> u8 {
    if b {
        1
    } else {
        0
    }
}

impl VestingSchedule {
    pub const LEN: usize = 16;

    /// The sixteen bytes of a tranche: release time, then amount, each little-endian.
    pub open spec fn spec_bytes(self) -> Seq<u8> {
        spec_u64_to_le_bytes(self.release_height) + spec_u64_to_le_bytes(self.amount)
    }

    /// The tranche stored at `off`.
    pub open spec fn spec_at(d: Seq<u8>, off: int) -> VestingSchedule {
        VestingSchedule { release_height: u64_at(d, off), amount: u64_at(d, off + 8) }
    }

    /// Writes the tranche into the first sixteen bytes of `dst`.
    pub fn pack_into_slice(&self, dst: &mut [u8])
        requires
            old(dst)@.len() >= 16,
        ensures
            final(dst)@ == splice(old(dst)@, 0, self.spec_bytes()),
    {
        write_u64(dst, 0, self.release_height);
        write_u64(dst, 8, self.amount);
        proof {
            let a = spec_u64_to_le_bytes(self.release_height);
            let b = spec_u64_to_le_bytes(self.amount);
            vstd::bytes::lemma_auto_spec_u64_to_from_le_bytes();
            assert(splice(splice(old(dst)@, 0, a), 8, b) =~= splice(old(dst)@, 0, a + b));
        }
    }

    /// Reads a tranche from the first sixteen bytes of `src`.
    pub fn unpack_from_slice(src: &[u8]) -> (r: Result<VestingSchedule, ProgramError>)
        ensures
            src@.len() < 16 ==> r == Err::<VestingSchedule, ProgramError>(
                ProgramError::InvalidAccountData,
            ),
            src@.len() >= 16 ==> r == Ok::<VestingSchedule, ProgramError>(
                VestingSchedule::spec_at(src@, 0),
            ),
    {
        if src.len() < 16 {
            return Err(ProgramError::InvalidAccountData);
        }
        let release_height = read_u64(src, 0);
        let amount = read_u64(src, 8);
        Ok(VestingSchedule { release_height, amount })
    }
}

impl VestingScheduleHeader {
    pub const LEN: usize = 65;

    /// The 65 bytes of the header: destination, mint, then the flag.
    pub open spec fn spec_bytes(self) -> Seq<u8> {
        self.destination_address@ + self.mint_address@ + seq![flag_byte(self.is_initialized)]
    }

    /// The header stored at the start of `d`. Any flag byte but 1 reads as false.
    pub open spec fn spec_from(d: Seq<u8>) -> (Seq<u8>, Seq<u8>, bool) {
        (d.subrange(0, 32), d.subrange(32, 64), d[64] == 1)
    }

    /// Whether `self` is the header stored at the start of `d`.
    pub open spec fn stored_in(self, d: Seq<u8>) -> bool {
        VestingScheduleHeader::spec_from(d) == (
            self.destination_address@,
            self.mint_address@,
            self.is_initialized,
        )
    }

    pub fn is_initialized(&self) -> (r: bool)
        ensures
            r == self.is_initialized,
    {
        self.is_initialized
    }

    /// Writes the header into the first 65 bytes of `dst`.
    pub fn pack_into_slice(&self, dst: &mut [u8])
        requires
            old(dst)@.len() >= 65,
        ensures
            final(dst)@ == splice(old(dst)@, 0, self.spec_bytes()),
    {
        let d = self.destination_address.to_bytes();
        let m = self.mint_address.to_bytes();
        write_bytes(dst, 0, d.as_slice());
        write_bytes(dst, 32, m.as_slice());
        dst[64] = if self.is_initialized { 1 } else { 0 };
        proof {
            assert(dst@ =~= splice(old(dst)@, 0, self.spec_bytes()));
        }
    }

    /// Reads a header from the first 65 bytes of `src`.
    pub fn unpack_from_slice(src: &[u8]) -> (r: Result<VestingScheduleHeader, ProgramError>)
        ensures
            src@.len() < 65 ==> r == Err::<VestingScheduleHeader, ProgramError>(
                ProgramError::InvalidAccountData,
            ),
            src@.len() >= 65 ==> r is Ok && r->Ok_0.stored_in(src@),
    {
        if src.len() < 65 {
            return Err(ProgramError::InvalidAccountData);
        }
        let destination_address = read_key(src, 0);
        let mint_address = read_key(src, 32);
        let is_initialized = src[64] == 1;
        Ok(VestingScheduleHeader { destination_address, mint_address, is_initialized })
    }

    /// Reads a header from data of exactly 65 bytes, which must be initialized.
    pub fn unpack(src: &[u8]) -> (r: Result<VestingScheduleHeader, ProgramError>)
        ensures
            src@.len() != 65 ==> r == Err::<VestingScheduleHeader, ProgramError>(
                ProgramError::InvalidAccountData,
            ),
            src@.len() == 65 && src@[64] != 1 ==> r == Err::<VestingScheduleHeader, ProgramError>(
                ProgramError::UninitializedAccount,
            ),
            src@.len() == 65 && src@[64] == 1 ==> r is Ok && r->Ok_0.stored_in(src@),
    {
        if src.len() != 65 {
            return Err(ProgramError::InvalidAccountData);
        }
        let h = VestingScheduleHeader::unpack_from_slice(src)?;
        if !h.is_initialized() {
            return Err(ProgramError::UninitializedAccount);
        }
        Ok(h)
    }
}

/// Reads the 32-byte key at `off`.
pub fn read_key(src: &[u8], off: usize) -> (r: Pubkey)
    requires
        off + 32 <= src@.len(),
    ensures
        r@ == src@.subrange(off as int, off + 32),
{
    let len = src.len();
    let mut bytes: [u8; 32] = [0u8; 32];
    let mut i: usize = 0;
    while i < 32
        invariant
            0 <= i <= 32,
            len == src@.len(),
            off + 32 <= src@.len(),
            bytes@.len() == 32,
            forall|j: int| 0 <= j < i ==> bytes@[j] == src@[off + j],
        decreases 32 - i,
    {
        bytes[i] = src[off + i];
        i = i + 1;
    }
    assert(bytes@ =~= src@.subrange(off as int, off + 32));
    Pubkey::new_from_array(bytes)
}

/// The sixteen bytes of the `i`-th tranche slot of `d` from `off` on.
pub open spec fn slot(d: Seq<u8>, off: int, i: int) -> Seq<u8> {
    d.subrange(off + 16 * i, off + 16 * i + 16)
}

/// Whether `d`, from `off` on, holds the tranches `s`, one after another.
pub open spec fn schedules_stored(d: Seq<u8>, off: int, s: Seq<VestingSchedule>) -> bool {
    &&& 0 <= off
    &&& off + 16 * s.len() <= d.len()
    &&& forall|i: int| 0 <= i < s.len() ==> #[trigger] slot(d, off, i) == s[i].spec_bytes()
}

/// Reads every whole tranche in `input`; bytes after the last whole one are ignored.
pub fn unpack_schedules(input: &[u8]) -> (r: Result<Vec<VestingSchedule>, ProgramError>)
    ensures
        r is Ok,
        r->Ok_0@.len() == input@.len() / 16,
        forall|i: int|
            0 <= i < r->Ok_0@.len() ==> #[trigger] r->Ok_0@[i] == VestingSchedule::spec_at(
                input@,
                16 * i,
            ),
{
    let len = input.len();
    let n = len / 16;
    assert(16 * n <= len);
    let mut output: Vec<VestingSchedule> = Vec::with_capacity(n);
    let mut offset: usize = 0;
    let mut k: usize = 0;
    while k < n
        invariant
            n == input@.len() / 16,
            16 * n <= len == input@.len(),
            0 <= k <= n,
            offset == 16 * k,
            output@.len() == k,
            forall|i: int|
                0 <= i < k ==> #[trigger] output@[i] == VestingSchedule::spec_at(input@, 16 * i),
        decreases n - k,
    {
        let part = &input[offset..offset + 16];
        let s = VestingSchedule::unpack_from_slice(part)?;
        proof {
            assert(part@ =~= input@.subrange(offset as int, offset + 16));
            assert(part@.subrange(0, 8) =~= input@.subrange(offset as int, offset + 8));
            assert(part@.subrange(8, 16) =~= input@.subrange(offset + 8, offset + 16));
        }
        output.push(s);
        offset = offset + 16;
        k = k + 1;
    }
    Ok(output)
}

/// Writes the tranches one after another from the start of `target`.
pub fn pack_schedules_into_slice(schedules: Vec<VestingSchedule>, target: &mut [u8])
    requires
        16 * schedules@.len() <= old(target)@.len(),
    ensures
        final(target)@.len() == old(target)@.len(),
        schedules_stored(final(target)@, 0, schedules@),
        forall|j: int|
            16 * schedules@.len() <= j < old(target)@.len() ==> #[trigger] final(target)@[j]
                == old(target)@[j],
{
    let len = target.len();
    let mut offset: usize = 0;
    let mut k: usize = 0;
    while k < schedules.len()
        invariant
            len == target@.len(),
            16 * schedules@.len() <= target@.len(),
            target@.len() == old(target)@.len(),
            0 <= k <= schedules@.len(),
            offset == 16 * k,
            schedules_stored(target@, 0, schedules@.subrange(0, k as int)),
            forall|j: int| 16 * k <= j < target@.len() ==> #[trigger] target@[j] == old(target)@[j],
        decreases schedules@.len() - k,
    {
        let ghost before = target@;
        write_schedule(target, offset, &schedules[k]);
        proof {
            vstd::bytes::lemma_auto_spec_u64_to_from_le_bytes();
            let s = schedules@.subrange(0, k + 1);
            let prev = schedules@.subrange(0, k as int);
            assert(schedules@[k as int].spec_bytes().len() == 16);
            assert forall|i: int| 0 <= i < s.len() implies #[trigger] slot(target@, 0, i)
                == s[i].spec_bytes() by {
                if i < k {
                    assert(slot(before, 0, i) == prev[i].spec_bytes());
                    assert(slot(target@, 0, i) =~= slot(before, 0, i));
                } else {
                    assert(slot(target@, 0, i) =~= schedules@[k as int].spec_bytes());
                }
            }
        }
        offset = offset + 16;
        k = k + 1;
    }
    assert(schedules@.subrange(0, k as int) =~= schedules@);
}

/// Writes one tranche at `off`.
pub fn write_schedule(target: &mut [u8], off: usize, s: &VestingSchedule)
    requires
        off + 16 <= old(target)@.len(),
    ensures
        final(target)@ == splice(old(target)@, off as int, s.spec_bytes()),
{
    let _len = target.len();
    write_u64(target, off, s.release_height);
    write_u64(target, off + 8, s.amount);
    proof {
        let a = spec_u64_to_le_bytes(s.release_height);
        let b = spec_u64_to_le_bytes(s.amount);
        vstd::bytes::lemma_auto_spec_u64_to_from_le_bytes();
        assert(splice(splice(old(target)@, off as int, a), off + 8, b) =~= splice(
            old(target)@,
            off as int,
            a + b,
        ));
    }
}

} // verus!
