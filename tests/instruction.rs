use token_vesting::error::ProgramError;
use token_vesting::instruction::{
    change_destination, create, init, unlock, AccountMeta, Schedule, VestingInstruction,
};
use token_vesting::pubkey::Pubkey;

fn unique_key() -> Pubkey {
    Pubkey::new_from_array(solana_program::pubkey::Pubkey::new_unique().to_bytes())
}

#[test]
fn test_instruction_packing() {
    let mint_address = unique_key();
    let destination_token_address = unique_key();

    let sent_create = VestingInstruction::Create {
        seeds: [50u8; 32],
        schedules: vec![Schedule {
            amount: 42,
            release_height: 250,
        }],
        mint_address: mint_address.clone(),
        destination_token_address,
    };
    let packed_create = sent_create.pack();
    let unpacked_create = VestingInstruction::unpack(&packed_create).unwrap();
    assert_eq!(sent_create, unpacked_create);

    let sent_unlock = VestingInstruction::Unlock { seeds: [50u8; 32] };
    assert_eq!(
        sent_unlock,
        VestingInstruction::unpack(&sent_unlock.pack()).unwrap()
    );

    let sent_init = VestingInstruction::Init {
        number_of_schedules: 42,
        seeds: [50u8; 32],
    };
    assert_eq!(
        sent_init,
        VestingInstruction::unpack(&sent_init.pack()).unwrap()
    );

    let sent_change = VestingInstruction::ChangeDestination { seeds: [50u8; 32] };
    assert_eq!(
        sent_change,
        VestingInstruction::unpack(&sent_change.pack()).unwrap()
    );
}

#[test]
fn create_without_schedules_round_trips() {
    let ins = VestingInstruction::Create {
        seeds: [7u8; 32],
        mint_address: unique_key(),
        destination_token_address: unique_key(),
        schedules: vec![],
    };
    let packed = ins.pack();
    assert_eq!(packed.len(), 97);
    assert_eq!(VestingInstruction::unpack(&packed).unwrap(), ins);
}

#[test]
fn create_with_many_schedules_round_trips() {
    let schedules: Vec<Schedule> = (0..4096u64)
        .map(|i| Schedule {
            release_height: u64::MAX - i,
            amount: i * 3,
        })
        .collect();
    let ins = VestingInstruction::Create {
        seeds: [255u8; 32],
        mint_address: unique_key(),
        destination_token_address: unique_key(),
        schedules,
    };
    let packed = ins.pack();
    assert_eq!(packed.len(), 97 + 16 * 4096);
    assert_eq!(VestingInstruction::unpack(&packed).unwrap(), ins);
}

#[test]
fn init_extremes_round_trip() {
    for n in [0u64, 1, u64::MAX] {
        let ins = VestingInstruction::Init {
            seeds: [0u8; 32],
            number_of_schedules: n,
        };
        assert_eq!(VestingInstruction::unpack(&ins.pack()).unwrap(), ins);
    }
}

#[test]
fn packed_layout_is_byte_exact() {
    let ins = VestingInstruction::Init {
        seeds: [9u8; 32],
        number_of_schedules: 0x0102030405060708,
    };
    let packed = ins.pack();
    assert_eq!(packed[0], 0);
    assert_eq!(&packed[1..33], &[9u8; 32]);
    assert_eq!(&packed[33..41], &[8, 7, 6, 5, 4, 3, 2, 1]);

    let mint = Pubkey::new_from_array([1u8; 32]);
    let dest = Pubkey::new_from_array([2u8; 32]);
    let ins = VestingInstruction::Create {
        seeds: [3u8; 32],
        mint_address: mint,
        destination_token_address: dest,
        schedules: vec![Schedule {
            release_height: 256,
            amount: 1,
        }],
    };
    let packed = ins.pack();
    assert_eq!(packed.len(), 113);
    assert_eq!(packed[0], 1);
    assert_eq!(&packed[33..65], &[1u8; 32]);
    assert_eq!(&packed[65..97], &[2u8; 32]);
    assert_eq!(&packed[97..113], &[0, 1, 0, 0, 0, 0, 0, 0, 1, 0, 0, 0, 0, 0, 0, 0]);

    assert_eq!(VestingInstruction::Unlock { seeds: [4u8; 32] }.pack()[0], 2);
    assert_eq!(
        VestingInstruction::ChangeDestination { seeds: [4u8; 32] }.pack()[0],
        3
    );
}

#[test]
fn undecodable_instructions_are_refused() {
    let invalid = Err(ProgramError::Custom(0));
    assert_eq!(VestingInstruction::unpack(&[]), invalid);
    assert_eq!(VestingInstruction::unpack(&[4; 41]), invalid);
    assert_eq!(VestingInstruction::unpack(&[0; 40]), invalid);
    assert_eq!(VestingInstruction::unpack(&[1; 96]), invalid);
    assert_eq!(VestingInstruction::unpack(&[2; 32]), invalid);
    assert_eq!(VestingInstruction::unpack(&[3; 1]), invalid);
}

#[test]
fn trailing_partial_schedule_is_ignored() {
    let mut bytes = vec![1u8; 97 + 16 + 5];
    bytes[0] = 1;
    match VestingInstruction::unpack(&bytes).unwrap() {
        VestingInstruction::Create { schedules, .. } => {
            assert_eq!(schedules.len(), 1);
            assert_eq!(schedules[0].release_height, 0x0101010101010101);
        }
        other => panic!("decoded {:?}", other),
    }
}

#[test]
fn builders_list_accounts_in_order() {
    let k: Vec<Pubkey> = (0..8).map(|_| unique_key()).collect();
    let i = init(&k[0], &k[1], &k[2], &k[3], [5u8; 32], 3).unwrap();
    assert_eq!(i.program_id, k[1]);
    assert_eq!(
        i.accounts,
        vec![
            AccountMeta::new_readonly(k[0], false),
            AccountMeta::new(k[2], true),
            AccountMeta::new(k[3], false),
        ]
    );
    assert_eq!(
        VestingInstruction::unpack(&i.data).unwrap(),
        VestingInstruction::Init {
            seeds: [5u8; 32],
            number_of_schedules: 3
        }
    );

    let schedules = vec![Schedule {
        release_height: 1,
        amount: 2,
    }];
    let c = create(
        &k[0], &k[1], &k[2], &k[3], &k[4], &k[5], &k[6], &k[7], schedules.clone(), [6u8; 32],
    )
    .unwrap();
    assert_eq!(c.program_id, k[0]);
    assert_eq!(
        c.accounts,
        vec![
            AccountMeta::new_readonly(k[1], false),
            AccountMeta::new(k[2], false),
            AccountMeta::new(k[3], false),
            AccountMeta::new_readonly(k[4], true),
            AccountMeta::new(k[5], false),
        ]
    );
    assert_eq!(
        VestingInstruction::unpack(&c.data).unwrap(),
        VestingInstruction::Create {
            seeds: [6u8; 32],
            mint_address: k[7],
            destination_token_address: k[6],
            schedules,
        }
    );

    let u = unlock(&k[0], &k[1], &k[2], &k[3], &k[4], &k[5], [7u8; 32]).unwrap();
    assert_eq!(
        u.accounts,
        vec![
            AccountMeta::new_readonly(k[1], false),
            AccountMeta::new_readonly(k[2], false),
            AccountMeta::new(k[3], false),
            AccountMeta::new(k[4], false),
            AccountMeta::new(k[5], false),
        ]
    );
    assert_eq!(u.data, VestingInstruction::Unlock { seeds: [7u8; 32] }.pack());

    let d = change_destination(&k[0], &k[1], &k[2], &k[3], &k[4], [8u8; 32]).unwrap();
    assert_eq!(
        d.accounts,
        vec![
            AccountMeta::new(k[1], false),
            AccountMeta::new_readonly(k[3], false),
            AccountMeta::new_readonly(k[2], true),
            AccountMeta::new_readonly(k[4], false),
        ]
    );
    assert_eq!(
        d.data,
        VestingInstruction::ChangeDestination { seeds: [8u8; 32] }.pack()
    );
}
