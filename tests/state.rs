use token_vesting::error::ProgramError;
use token_vesting::pubkey::Pubkey;
use token_vesting::state::{
    pack_schedules_into_slice, unpack_schedules, VestingSchedule, VestingScheduleHeader,
};

fn unique_key() -> Pubkey {
    Pubkey::new_from_array(solana_program::pubkey::Pubkey::new_unique().to_bytes())
}

#[test]
fn test_state_packing() {
    let header_state = VestingScheduleHeader {
        destination_address: unique_key(),
        mint_address: unique_key(),
        is_initialized: true,
    };
    let schedule_state_0 = VestingSchedule {
        release_height: 30767976,
        amount: 969,
    };
    let schedule_state_1 = VestingSchedule {
        release_height: 32767076,
        amount: 420,
    };
    let state_size = VestingScheduleHeader::LEN + 2 * VestingSchedule::LEN;
    let mut state_array = [0u8; 97];
    header_state.pack_into_slice(&mut state_array[..VestingScheduleHeader::LEN]);
    schedule_state_0.pack_into_slice(
        &mut state_array
            [VestingScheduleHeader::LEN..VestingScheduleHeader::LEN + VestingSchedule::LEN],
    );
    schedule_state_1
        .pack_into_slice(&mut state_array[VestingScheduleHeader::LEN + VestingSchedule::LEN..]);
    let packed = Vec::from(state_array);
    let mut expected = Vec::with_capacity(state_size);
    expected.extend_from_slice(&header_state.destination_address.to_bytes());
    expected.extend_from_slice(&header_state.mint_address.to_bytes());
    expected.extend_from_slice(&[header_state.is_initialized as u8]);
    expected.extend_from_slice(&schedule_state_0.release_height.to_le_bytes());
    expected.extend_from_slice(&schedule_state_0.amount.to_le_bytes());
    expected.extend_from_slice(&schedule_state_1.release_height.to_le_bytes());
    expected.extend_from_slice(&schedule_state_1.amount.to_le_bytes());

    assert_eq!(expected, packed);
    assert_eq!(packed.len(), state_size);
    let unpacked_header =
        VestingScheduleHeader::unpack(&packed[..VestingScheduleHeader::LEN]).unwrap();
    assert_eq!(unpacked_header, header_state);
    let unpacked_schedules = unpack_schedules(&packed[VestingScheduleHeader::LEN..]).unwrap();
    assert_eq!(unpacked_schedules[0], schedule_state_0);
    assert_eq!(unpacked_schedules[1], schedule_state_1);
}

#[test]
fn header_unpack_errors() {
    assert_eq!(
        VestingScheduleHeader::unpack(&[0u8; 64]),
        Err(ProgramError::InvalidAccountData)
    );
    assert_eq!(
        VestingScheduleHeader::unpack(&[0u8; 66]),
        Err(ProgramError::InvalidAccountData)
    );
    assert_eq!(
        VestingScheduleHeader::unpack(&[0u8; 65]),
        Err(ProgramError::UninitializedAccount)
    );
    assert_eq!(
        VestingScheduleHeader::unpack_from_slice(&[0u8; 10]),
        Err(ProgramError::InvalidAccountData)
    );
    let h = VestingScheduleHeader::unpack_from_slice(&[7u8; 70]).unwrap();
    assert!(!h.is_initialized());
    assert_eq!(h.mint_address.to_bytes(), [7u8; 32]);
}

#[test]
fn schedule_unpack_errors_and_values() {
    assert_eq!(
        VestingSchedule::unpack_from_slice(&[1u8; 15]),
        Err(ProgramError::InvalidAccountData)
    );
    let mut bytes = [0u8; 16];
    bytes[0] = 1;
    bytes[15] = 1;
    assert_eq!(
        VestingSchedule::unpack_from_slice(&bytes),
        Ok(VestingSchedule {
            release_height: 1,
            amount: 1 << 56
        })
    );
}

#[test]
fn schedules_pack_and_unpack_agree() {
    let schedules = vec![
        VestingSchedule {
            release_height: 0,
            amount: u64::MAX,
        },
        VestingSchedule {
            release_height: 100,
            amount: 20,
        },
    ];
    let mut target = [0xAAu8; 40];
    pack_schedules_into_slice(schedules.clone(), &mut target);
    assert_eq!(&target[32..], &[0xAAu8; 8]);
    let back = unpack_schedules(&target).unwrap();
    assert_eq!(back.len(), 2);
    assert_eq!(back, schedules);
    assert_eq!(unpack_schedules(&[]).unwrap(), vec![]);
}
