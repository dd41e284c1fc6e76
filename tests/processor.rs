use std::str::FromStr;
use token_vesting::error::ProgramError;
use token_vesting::instruction::{Schedule, VestingInstruction};
use token_vesting::processor::{AccountInfo, Invocation, Processor};
use token_vesting::pubkey::{find_program_address, with_bump, Pubkey};

fn key(byte: u8) -> Pubkey {
    Pubkey::new_from_array([byte; 32])
}

fn program_id() -> Pubkey {
    let k = solana_program::pubkey::Pubkey::from_str("VestingbGKPFXCWuBvfkegQfZyiNwAJb9Ss623VQ5DA")
        .unwrap();
    Pubkey::new_from_array(k.to_bytes())
}

fn token_data(owner: &Pubkey, amount: u64) -> Vec<u8> {
    let mut d = vec![0u8; 165];
    d[..32].copy_from_slice(&[200u8; 32]);
    d[32..64].copy_from_slice(&owner.to_bytes());
    d[64..72].copy_from_slice(&amount.to_le_bytes());
    d[108] = 1;
    d
}

fn account(key: Pubkey, owner: Pubkey, is_signer: bool, data: Vec<u8>) -> AccountInfo {
    AccountInfo {
        key,
        owner,
        is_signer,
        data,
    }
}

struct Env {
    program: Pubkey,
    seeds: [u8; 32],
    vesting: Pubkey,
    token_program: Pubkey,
    source_owner: Pubkey,
    destination_owner: Pubkey,
    vesting_token: Pubkey,
    source_token: Pubkey,
    destination_token: Pubkey,
}

fn env() -> Env {
    let program = program_id();
    let (vesting, bump) = find_program_address(&[42u8; 31], &program).unwrap();
    let seeds = with_bump(&[42u8; 31], bump);
    Env {
        program,
        seeds,
        vesting,
        token_program: key(1),
        source_owner: key(2),
        destination_owner: key(3),
        vesting_token: key(4),
        source_token: key(5),
        destination_token: key(6),
    }
}

fn schedules() -> Vec<Schedule> {
    vec![
        Schedule {
            release_height: 0,
            amount: 20,
        },
        Schedule {
            release_height: 100,
            amount: 20,
        },
        Schedule {
            release_height: 200,
            amount: 20,
        },
    ]
}

fn create_accounts(e: &Env, n: usize, source_balance: u64) -> Vec<AccountInfo> {
    vec![
        account(e.token_program, key(0), false, vec![]),
        account(e.vesting, e.program, false, vec![0u8; 65 + 16 * n]),
        account(e.vesting_token, e.token_program, false, token_data(&e.vesting, 0)),
        account(e.source_owner, key(0), true, vec![]),
        account(
            e.source_token,
            e.token_program,
            false,
            token_data(&e.source_owner, source_balance),
        ),
    ]
}

fn unlock_accounts(e: &Env, vesting_data: Vec<u8>) -> Vec<AccountInfo> {
    vec![
        account(e.token_program, key(0), false, vec![]),
        account(key(9), key(0), false, vec![]),
        account(e.vesting, e.program, false, vesting_data),
        account(e.vesting_token, e.token_program, false, token_data(&e.vesting, 60)),
        account(
            e.destination_token,
            e.token_program,
            false,
            token_data(&e.destination_owner, 0),
        ),
    ]
}

fn created(e: &Env) -> Vec<u8> {
    let mut a = create_accounts(e, 3, 100);
    Processor::process_create(
        &e.program,
        &mut a,
        e.seeds,
        &key(200),
        &e.destination_token,
        schedules(),
    )
    .unwrap();
    a[1].data.clone()
}

fn stored_amounts(data: &[u8]) -> Vec<u64> {
    data[65..]
        .chunks(16)
        .map(|c| u64::from_le_bytes(c[8..16].try_into().unwrap()))
        .collect()
}

fn transferred(r: Result<Invocation, ProgramError>) -> u64 {
    match r.unwrap() {
        Invocation::Transfer { amount, .. } => amount,
        other => panic!("unexpected {:?}", other),
    }
}

#[test]
fn init_asks_for_an_account_of_the_full_size() {
    let e = env();
    let accounts = vec![
        account(key(0), key(0), false, vec![]),
        account(key(7), key(0), true, vec![]),
        account(e.vesting, key(0), false, vec![]),
    ];
    let r = Processor::process_init(&e.program, &accounts, e.seeds, 3).unwrap();
    assert_eq!(
        r,
        Invocation::CreateAccount {
            payer: key(7),
            new_account: e.vesting,
            space: 65 + 16 * 3,
            owner: e.program,
            seeds: e.seeds,
        }
    );
    assert_eq!(
        Processor::process_init(&e.program, &accounts, e.seeds, u64::MAX / 16),
        Err(ProgramError::InvalidInstructionData)
    );
    assert_eq!(
        Processor::process_init(&e.program, &accounts[..2].to_vec(), e.seeds, 3),
        Err(ProgramError::NotEnoughAccountKeys)
    );
}

#[test]
fn derivation_is_deterministic_and_differs_from_the_seed() {
    let e = env();
    let again = find_program_address(&[42u8; 31], &e.program).unwrap();
    assert_eq!(again, (e.vesting, e.seeds[31]));
    assert_ne!(e.vesting.to_bytes(), e.seeds);
    let other = find_program_address(&[43u8; 31], &e.program).unwrap();
    assert_ne!(other.0, e.vesting);
    let expected =
        solana_program::pubkey::Pubkey::find_program_address(&[&[42u8; 31]], &solana_program::pubkey::Pubkey::new_from_array(e.program.to_bytes()));
    assert_eq!(expected.0.to_bytes(), e.vesting.to_bytes());
    assert_eq!(expected.1, e.seeds[31]);
}

#[test]
fn seeds_without_an_address_are_refused() {
    let e = env();
    let mut prefix = [0u8; 31];
    let mut found = None;
    for b in 0..=255u8 {
        prefix[0] = b;
        let (_, bump) = find_program_address(&prefix, &e.program).unwrap();
        if bump != 255 {
            found = Some(prefix);
            break;
        }
    }
    let seeds = with_bump(&found.unwrap(), 255);
    let accounts = vec![
        account(key(0), key(0), false, vec![]),
        account(key(7), key(0), true, vec![]),
        account(e.vesting, key(0), false, vec![]),
    ];
    assert_eq!(
        Processor::process_init(&e.program, &accounts, seeds, 1),
        Err(ProgramError::InvalidSeeds)
    );
}

#[test]
fn create_locks_the_sum_of_the_schedules() {
    let e = env();
    let mut a = create_accounts(&e, 3, 100);
    let r = Processor::process_create(
        &e.program,
        &mut a,
        e.seeds,
        &key(200),
        &e.destination_token,
        schedules(),
    )
    .unwrap();
    assert_eq!(
        r,
        Invocation::Transfer {
            token_program: e.token_program,
            source: e.source_token,
            destination: e.vesting_token,
            authority: e.source_owner,
            amount: 60,
            signer_seeds: None,
        }
    );
    let d = &a[1].data;
    assert_eq!(&d[..32], &e.destination_token.to_bytes());
    assert_eq!(&d[32..64], &[200u8; 32]);
    assert_eq!(d[64], 1);
    assert_eq!(stored_amounts(d), vec![20, 20, 20]);
    assert_eq!(stored_amounts(d).iter().sum::<u64>(), 60);
}

#[test]
fn unlock_releases_what_is_due() {
    let e = env();
    let mut a = unlock_accounts(&e, created(&e));
    let r = Processor::process_unlock(&e.program, &mut a, e.seeds, 50);
    assert_eq!(
        r,
        Ok(Invocation::Transfer {
            token_program: e.token_program,
            source: e.vesting_token,
            destination: e.destination_token,
            authority: e.vesting,
            amount: 20,
            signer_seeds: Some(e.seeds),
        })
    );
    assert_eq!(stored_amounts(&a[2].data), vec![0, 20, 20]);
    let r = Processor::process_unlock(&e.program, &mut a, e.seeds, 250);
    assert_eq!(transferred(r), 40);
    assert_eq!(stored_amounts(&a[2].data), vec![0, 0, 0]);
}

#[test]
fn unlock_twice_at_the_same_time_is_refused() {
    let e = env();
    let mut a = unlock_accounts(&e, created(&e));
    assert_eq!(transferred(Processor::process_unlock(&e.program, &mut a, e.seeds, 50)), 20);
    let before = a.clone();
    assert_eq!(
        Processor::process_unlock(&e.program, &mut a, e.seeds, 50),
        Err(ProgramError::InvalidArgument)
    );
    assert_eq!(a, before);
}

#[test]
fn unlock_before_any_release_is_refused() {
    let e = env();
    let mut data = created(&e);
    data[65..73].copy_from_slice(&10u64.to_le_bytes());
    let mut a = unlock_accounts(&e, data);
    assert_eq!(
        Processor::process_unlock(&e.program, &mut a, e.seeds, 5),
        Err(ProgramError::InvalidArgument)
    );
    assert_eq!(
        Processor::process_unlock(&e.program, &mut a, e.seeds, -1),
        Err(ProgramError::InvalidArgument)
    );
}

#[test]
fn unlock_to_another_destination_is_refused() {
    let e = env();
    let mut a = unlock_accounts(&e, created(&e));
    a[4].key = key(77);
    assert_eq!(
        Processor::process_unlock(&e.program, &mut a, e.seeds, 500),
        Err(ProgramError::InvalidArgument)
    );
}

#[test]
fn create_with_insufficient_funds_moves_nothing() {
    let e = env();
    let mut a = create_accounts(&e, 3, 59);
    let before = a.clone();
    let r = Processor::process_create(
        &e.program,
        &mut a,
        e.seeds,
        &key(200),
        &e.destination_token,
        schedules(),
    );
    assert_eq!(r, Err(ProgramError::InsufficientFunds));
    assert_eq!(a, before);
    assert_eq!(a[1].data, vec![0u8; 65 + 48]);
}

#[test]
fn second_create_on_the_same_seed_is_refused() {
    let e = env();
    let mut a = create_accounts(&e, 3, 100);
    Processor::process_create(
        &e.program,
        &mut a,
        e.seeds,
        &key(200),
        &e.destination_token,
        schedules(),
    )
    .unwrap();
    let r = Processor::process_create(
        &e.program,
        &mut a,
        e.seeds,
        &key(201),
        &key(202),
        schedules(),
    );
    assert_eq!(r, Err(ProgramError::InvalidArgument));
    assert_eq!(&a[1].data[32..64], &[200u8; 32]);
}

#[test]
fn create_errors() {
    let e = env();
    let run = |a: &mut Vec<AccountInfo>, s: Vec<Schedule>| {
        Processor::process_create(&e.program, a, e.seeds, &key(200), &e.destination_token, s)
    };
    let mut a = create_accounts(&e, 2, 100);
    assert_eq!(run(&mut a, schedules()), Err(ProgramError::InvalidAccountData));

    let mut a = create_accounts(&e, 2, u64::MAX);
    let big = vec![
        Schedule {
            release_height: 0,
            amount: u64::MAX,
        },
        Schedule {
            release_height: 0,
            amount: 1,
        },
    ];
    assert_eq!(run(&mut a, big), Err(ProgramError::InvalidInstructionData));

    let mut a = create_accounts(&e, 3, 100);
    a[3].is_signer = false;
    assert_eq!(run(&mut a, schedules()), Err(ProgramError::InvalidArgument));

    let mut a = create_accounts(&e, 3, 100);
    a[1].owner = key(99);
    assert_eq!(run(&mut a, schedules()), Err(ProgramError::InvalidArgument));

    let mut a = create_accounts(&e, 3, 100);
    a[2].data = token_data(&key(98), 0);
    assert_eq!(run(&mut a, schedules()), Err(ProgramError::InvalidArgument));

    let mut a = create_accounts(&e, 3, 100);
    a[4].data[108] = 0;
    assert_eq!(run(&mut a, schedules()), Err(ProgramError::UninitializedAccount));

    let mut a = create_accounts(&e, 3, 100);
    a[2].data.pop();
    assert_eq!(run(&mut a, schedules()), Err(ProgramError::InvalidAccountData));

    let mut a = create_accounts(&e, 3, 100);
    a[4].data[72] = 2;
    assert_eq!(run(&mut a, schedules()), Err(ProgramError::InvalidAccountData));

    let mut a = create_accounts(&e, 3, 100);
    a[1].data = vec![0u8; 10];
    assert_eq!(run(&mut a, schedules()), Err(ProgramError::InvalidAccountData));

    let mut a = create_accounts(&e, 3, 100);
    a.pop();
    assert_eq!(run(&mut a, schedules()), Err(ProgramError::NotEnoughAccountKeys));
}

#[test]
fn create_with_exact_balance_succeeds() {
    let e = env();
    let mut a = create_accounts(&e, 3, 60);
    let r = Processor::process_create(
        &e.program,
        &mut a,
        e.seeds,
        &key(200),
        &e.destination_token,
        schedules(),
    );
    assert_eq!(transferred(r), 60);
}

#[test]
fn every_handler_refuses_a_wrong_vesting_address() {
    let e = env();
    let wrong = key(123);
    let init_accounts = vec![
        account(key(0), key(0), false, vec![]),
        account(key(7), key(0), true, vec![]),
        account(wrong, key(0), false, vec![]),
    ];
    assert_eq!(
        Processor::process_init(&e.program, &init_accounts, e.seeds, 3),
        Err(ProgramError::InvalidArgument)
    );

    let mut a = create_accounts(&e, 3, 100);
    a[1].key = wrong;
    let r = Processor::process_create(
        &e.program,
        &mut a,
        e.seeds,
        &key(200),
        &e.destination_token,
        schedules(),
    );
    assert_eq!(r, Err(ProgramError::InvalidArgument));

    let mut a = unlock_accounts(&e, created(&e));
    a[2].key = wrong;
    assert_eq!(
        Processor::process_unlock(&e.program, &mut a, e.seeds, 500),
        Err(ProgramError::InvalidArgument)
    );

    let mut a = change_accounts(&e, created(&e));
    a[0].key = wrong;
    assert_eq!(
        Processor::process_change_destination(&e.program, &mut a, e.seeds),
        Err(ProgramError::InvalidArgument)
    );
}

fn change_accounts(e: &Env, vesting_data: Vec<u8>) -> Vec<AccountInfo> {
    vec![
        account(e.vesting, e.program, false, vesting_data),
        account(
            e.destination_token,
            e.token_program,
            false,
            token_data(&e.destination_owner, 0),
        ),
        account(e.destination_owner, key(0), true, vec![]),
        account(key(88), e.token_program, false, vec![]),
    ]
}

#[test]
fn change_destination_moves_the_contract() {
    let e = env();
    let data = created(&e);
    let mut a = change_accounts(&e, data.clone());
    assert_eq!(
        Processor::process_change_destination(&e.program, &mut a, e.seeds),
        Ok(())
    );
    assert_eq!(&a[0].data[..32], &[88u8; 32]);
    assert_eq!(&a[0].data[32..], &data[32..]);
}

#[test]
fn change_destination_needs_the_owner_signature() {
    let e = env();
    let mut a = change_accounts(&e, created(&e));
    a[2].key = key(44);
    let before = a.clone();
    assert_eq!(
        Processor::process_change_destination(&e.program, &mut a, e.seeds),
        Err(ProgramError::InvalidArgument)
    );
    assert_eq!(a, before);

    let mut a = change_accounts(&e, created(&e));
    a[2].is_signer = false;
    assert_eq!(
        Processor::process_change_destination(&e.program, &mut a, e.seeds),
        Err(ProgramError::InvalidArgument)
    );

    let mut a = change_accounts(&e, created(&e));
    a[1].key = key(45);
    assert_eq!(
        Processor::process_change_destination(&e.program, &mut a, e.seeds),
        Err(ProgramError::InvalidArgument)
    );

    let mut a = change_accounts(&e, vec![0u8; 64]);
    assert_eq!(
        Processor::process_change_destination(&e.program, &mut a, e.seeds),
        Err(ProgramError::InvalidAccountData)
    );
}

#[test]
fn dispatcher_runs_a_whole_contract() {
    let e = env();
    let bad = Processor::process_instruction(&e.program, &mut vec![], &[9, 1, 2], 0);
    assert_eq!(bad, Err(ProgramError::Custom(0)));

    let mut a = create_accounts(&e, 3, 100);
    let data = VestingInstruction::Create {
        seeds: e.seeds,
        mint_address: key(200),
        destination_token_address: e.destination_token,
        schedules: schedules(),
    }
    .pack();
    let r = Processor::process_instruction(&e.program, &mut a, &data, 0).unwrap();
    assert!(matches!(r, Some(Invocation::Transfer { amount: 60, .. })));

    let mut u = unlock_accounts(&e, a[1].data.clone());
    let data = VestingInstruction::Unlock { seeds: e.seeds }.pack();
    let r = Processor::process_instruction(&e.program, &mut u, &data, 150).unwrap();
    assert!(matches!(r, Some(Invocation::Transfer { amount: 40, .. })));

    let mut c = change_accounts(&e, u[2].data.clone());
    let data = VestingInstruction::ChangeDestination { seeds: e.seeds }.pack();
    assert_eq!(
        Processor::process_instruction(&e.program, &mut c, &data, 0),
        Ok(None)
    );
}

#[test]
fn wrong_address_is_refused_before_the_record_is_read() {
    let e = env();
    let mut a = change_accounts(&e, vec![0u8; 10]);
    a[0].key = key(123);
    assert_eq!(
        Processor::process_change_destination(&e.program, &mut a, e.seeds),
        Err(ProgramError::InvalidArgument)
    );
    let data = VestingInstruction::ChangeDestination { seeds: e.seeds }.pack();
    assert_eq!(
        Processor::process_instruction(&e.program, &mut a, &data, 0),
        Err(ProgramError::InvalidArgument)
    );
}

#[test]
fn allocated_but_never_created_record_is_refused() {
    let e = env();
    let mut a = unlock_accounts(&e, vec![0u8; 65 + 48]);
    assert_eq!(
        Processor::process_unlock(&e.program, &mut a, e.seeds, 500),
        Err(ProgramError::UninitializedAccount)
    );
    let mut a = change_accounts(&e, vec![0u8; 65 + 48]);
    assert_eq!(
        Processor::process_change_destination(&e.program, &mut a, e.seeds),
        Err(ProgramError::UninitializedAccount)
    );
}
