use amm_pool::error::AmmError;
use amm_pool::instruction::{AmmInstruction, Direction};
use amm_pool::processor::{AccountInput, Effect, Processor};
use amm_pool::state::{AmmPool, PoolStatus, POOL_LEN};
use solana_program::program_pack::Pack;
use solana_program::pubkey::Pubkey;
use spl_token::state::{Account as TokenState, AccountState};

struct Keys {
    program: Pubkey,
    pool: Pubkey,
    owner: Pubkey,
    mint_a: Pubkey,
    mint_b: Pubkey,
    vault_a: Pubkey,
    vault_b: Pubkey,
    fee_vault: Pubkey,
    pda: Pubkey,
    nonce: u8,
    token_a: Pubkey,
    token_b: Pubkey,
    wallet: Pubkey,
}

fn key(n: u8) -> Pubkey {
    Pubkey::new_from_array([n; 32])
}

fn keys() -> Keys {
    let program = key(200);
    let pool = key(1);
    let (pda, nonce) = Pubkey::find_program_address(&[pool.as_ref()], &program);
    Keys {
        program,
        pool,
        owner: key(2),
        mint_a: key(3),
        mint_b: key(4),
        vault_a: key(5),
        vault_b: key(6),
        fee_vault: key(7),
        pda,
        nonce,
        token_a: key(8),
        token_b: key(9),
        wallet: key(10),
    }
}

fn account(key: &Pubkey, owner: &Pubkey, is_signer: bool, data: Vec<u8>) -> AccountInput {
    AccountInput { key: key.to_bytes(), owner: owner.to_bytes(), is_signer, data }
}

fn plain(key: &Pubkey, is_signer: bool) -> AccountInput {
    account(key, &key_system(), is_signer, vec![])
}

fn key_system() -> Pubkey {
    key(0)
}

fn token(key: &Pubkey, mint: &Pubkey, owner: &Pubkey, amount: u64) -> AccountInput {
    let state = TokenState {
        mint: *mint,
        owner: *owner,
        amount,
        state: AccountState::Initialized,
        ..TokenState::default()
    };
    let mut data = vec![0u8; TokenState::LEN];
    TokenState::pack(state, &mut data).unwrap();
    account(key, &spl_token::id(), false, data)
}

fn pool_account(k: &Keys, pool: &AmmPool) -> AccountInput {
    account(&k.pool, &k.program, false, pool.pack())
}

fn live_pool(k: &Keys, tolerance: u64, fee: u64) -> AmmPool {
    AmmPool {
        status: PoolStatus::Normal,
        nonce: k.nonce,
        ka: 1000,
        kb: 1000,
        tolerance,
        fee,
        owner: k.owner.to_bytes(),
        mint_a: k.mint_a.to_bytes(),
        mint_b: k.mint_b.to_bytes(),
        vault_a: k.vault_a.to_bytes(),
        vault_b: k.vault_b.to_bytes(),
        fee_vault: k.fee_vault.to_bytes(),
    }
}

fn initialize_accounts(k: &Keys, pool_data: Vec<u8>) -> Vec<AccountInput> {
    vec![
        account(&k.pool, &k.program, false, pool_data),
        plain(&k.owner, true),
        plain(&k.mint_a, false),
        plain(&k.mint_b, false),
        token(&k.vault_a, &k.mint_a, &k.pda, 0),
        token(&k.vault_b, &k.mint_b, &k.pda, 0),
        token(&k.fee_vault, &k.mint_b, &k.pda, 0),
        plain(&k.pda, false),
        token(&k.token_a, &k.mint_a, &k.owner, 5000),
        token(&k.token_b, &k.mint_b, &k.owner, 5000),
        plain(&spl_token::id(), false),
    ]
}

fn swap_accounts(k: &Keys, pool: &AmmPool, reserve_a: u64, reserve_b: u64) -> Vec<AccountInput> {
    vec![
        pool_account(k, pool),
        token(&k.vault_a, &k.mint_a, &k.pda, reserve_a),
        token(&k.vault_b, &k.mint_b, &k.pda, reserve_b),
        token(&k.fee_vault, &k.mint_b, &k.pda, 0),
        plain(&k.pda, false),
        plain(&k.wallet, true),
        token(&k.token_a, &k.mint_a, &k.wallet, 500),
        token(&k.token_b, &k.mint_b, &k.wallet, 500),
        plain(&spl_token::id(), false),
    ]
}

fn owner_accounts(k: &Keys, pool: &AmmPool) -> Vec<AccountInput> {
    vec![pool_account(k, pool), plain(&k.owner, true)]
}

fn terminate_accounts(k: &Keys, pool: &AmmPool, a: u64, b: u64, fee: u64) -> Vec<AccountInput> {
    vec![
        pool_account(k, pool),
        plain(&k.owner, true),
        token(&k.vault_a, &k.mint_a, &k.pda, a),
        token(&k.vault_b, &k.mint_b, &k.pda, b),
        token(&k.fee_vault, &k.mint_b, &k.pda, fee),
        plain(&k.pda, false),
        token(&k.token_a, &k.mint_a, &k.owner, 0),
        token(&k.token_b, &k.mint_b, &k.owner, 0),
        plain(&spl_token::id(), false),
    ]
}

fn withdrawal_accounts(k: &Keys, pool: &AmmPool, fee: u64) -> Vec<AccountInput> {
    vec![
        pool_account(k, pool),
        plain(&k.owner, true),
        token(&k.fee_vault, &k.mint_b, &k.pda, fee),
        token(&k.token_b, &k.mint_b, &k.owner, 0),
        plain(&k.pda, false),
        plain(&spl_token::id(), false),
    ]
}

fn run(k: &Keys, accounts: &Vec<AccountInput>, ix: AmmInstruction) -> Result<Vec<Effect>, AmmError> {
    Processor::process(&k.program.to_bytes(), accounts, &ix.pack())
}

fn init_ix(k: &Keys, tolerance: u64) -> AmmInstruction {
    AmmInstruction::Initialize { nonce: k.nonce, fee: 1000, amount_a: 1000, amount_b: 1000, tolerance }
}

fn user(source: usize, destination: usize, authority: usize, amount: u64) -> Effect {
    Effect::Transfer { source, destination, authority, amount, pool_nonce: None }
}

fn by_pool(source: usize, destination: usize, amount: u64, nonce: u8) -> Effect {
    Effect::Transfer { source, destination, authority: 4, amount, pool_nonce: Some(nonce) }
}

#[test]
fn initialize_deposits_and_writes_the_record() {
    let k = keys();
    let accounts = initialize_accounts(&k, vec![0u8; POOL_LEN]);
    let effects = run(&k, &accounts, init_ix(&k, 0)).unwrap();
    let mut expected = live_pool(&k, 0, 1000);
    expected.nonce = k.nonce;
    assert_eq!(
        effects,
        vec![user(8, 4, 1, 1000), user(9, 5, 1, 1000), Effect::Store { pool: expected }]
    );
}

#[test]
fn initialize_refuses_a_nonce_that_derives_another_address() {
    let k = keys();
    let accounts = initialize_accounts(&k, vec![0u8; POOL_LEN]);
    let ix = AmmInstruction::Initialize {
        nonce: k.nonce.wrapping_sub(1),
        fee: 1000,
        amount_a: 1000,
        amount_b: 1000,
        tolerance: 0,
    };
    assert_eq!(run(&k, &accounts, ix), Err(AmmError::InvalidPDA));
}

#[test]
fn initialize_guards() {
    let k = keys();
    let ok = initialize_accounts(&k, vec![0u8; POOL_LEN]);

    let mut accounts = ok.clone();
    accounts[1].is_signer = false;
    assert_eq!(run(&k, &accounts, init_ix(&k, 0)), Err(AmmError::InvalidSignAccount));

    let mut accounts = ok.clone();
    accounts[0].owner = key(99).to_bytes();
    assert_eq!(run(&k, &accounts, init_ix(&k, 0)), Err(AmmError::InvalidProgramAddress));

    let accounts = initialize_accounts(&k, live_pool(&k, 0, 0).pack());
    assert_eq!(run(&k, &accounts, init_ix(&k, 0)), Err(AmmError::PoolExist));

    let mut accounts = ok.clone();
    accounts[4] = token(&k.vault_a, &k.mint_b, &k.pda, 0);
    assert_eq!(run(&k, &accounts, init_ix(&k, 0)), Err(AmmError::InvalidMint));

    let mut accounts = ok.clone();
    accounts[6] = token(&k.fee_vault, &k.mint_a, &k.pda, 0);
    assert_eq!(run(&k, &accounts, init_ix(&k, 0)), Err(AmmError::InvalidMint));

    let mut accounts = ok.clone();
    accounts[5] = token(&k.vault_b, &k.mint_b, &k.owner, 0);
    assert_eq!(run(&k, &accounts, init_ix(&k, 0)), Err(AmmError::InvalidOwner));

    let mut accounts = ok.clone();
    accounts[4].owner = key(98).to_bytes();
    assert_eq!(run(&k, &accounts, init_ix(&k, 0)), Err(AmmError::InvalidTokenProgramId));

    let mut accounts = ok.clone();
    accounts[4].data.pop();
    assert_eq!(run(&k, &accounts, init_ix(&k, 0)), Err(AmmError::ExpectedAccount));

    let mut accounts = ok.clone();
    accounts[0].data.pop();
    assert_eq!(run(&k, &accounts, init_ix(&k, 0)), Err(AmmError::InvalidAccountData));

    let ix = AmmInstruction::Initialize { nonce: k.nonce, fee: 0, amount_a: 0, amount_b: 10, tolerance: 0 };
    assert_eq!(run(&k, &ok, ix), Err(AmmError::NoughtTransfer));

    assert_eq!(run(&k, &ok[..10].to_vec(), init_ix(&k, 0)), Err(AmmError::InvalidInput));
}

#[test]
fn scenario_swap_after_initialize() {
    let k = keys();
    // Pool of 1000 and 1000 at a fee of 1000 parts per million; 100 of A pays 91 of B.
    // The settled product 1100 * 909 lies 100 below the checkpoint: a tolerance of 0
    // refuses the trade, one of 100 lets it through.
    let strict = live_pool(&k, 0, 1000);
    let accounts = swap_accounts(&k, &strict, 1000, 1000);
    let ix = AmmInstruction::Swap { amount: 100, direction: Direction::A2B };
    assert_eq!(run(&k, &accounts, ix.clone()), Err(AmmError::OutOfTolerance));

    let loose = live_pool(&k, 100, 1000);
    let accounts = swap_accounts(&k, &loose, 1000, 1000);
    let effects = run(&k, &accounts, ix).unwrap();
    assert_eq!(effects, vec![user(6, 1, 5, 100), by_pool(2, 7, 91, k.nonce)]);
}

#[test]
fn swap_takes_its_fee_from_the_output() {
    let k = keys();
    let pool = live_pool(&k, 100, 100_000);
    let accounts = swap_accounts(&k, &pool, 1000, 1000);
    let ix = AmmInstruction::Swap { amount: 100, direction: Direction::A2B };
    let effects = run(&k, &accounts, ix).unwrap();
    // 91 out, fee floor(91 * 100_000 / 1_000_000) = 9; the user keeps 82.
    assert_eq!(effects, vec![user(6, 1, 5, 100), by_pool(2, 7, 91, k.nonce), user(7, 3, 5, 9)]);

    let ix = AmmInstruction::Swap { amount: 100, direction: Direction::B2A };
    let effects = run(&k, &accounts, ix).unwrap();
    // From B to A the fee is charged in asset B on the payment: floor(100 * 0.1) = 10.
    assert_eq!(effects, vec![user(7, 2, 5, 100), by_pool(1, 6, 91, k.nonce), user(7, 3, 5, 10)]);
}

#[test]
fn scenario_swap_of_zero_is_refused_before_any_read() {
    let k = keys();
    let ix = AmmInstruction::Swap { amount: 0, direction: Direction::A2B };
    assert_eq!(run(&k, &vec![], ix.clone()), Err(AmmError::InvalidInstruction));
    let accounts = swap_accounts(&k, &live_pool(&k, 100, 0), 1000, 1000);
    assert_eq!(run(&k, &accounts, ix), Err(AmmError::InvalidInstruction));
}

#[test]
fn scenario_swap_on_locked_pool_fails() {
    let k = keys();
    let mut pool = live_pool(&k, 100, 0);
    pool.status = PoolStatus::Lock;
    let accounts = swap_accounts(&k, &pool, 1000, 1000);
    let ix = AmmInstruction::Swap { amount: 100, direction: Direction::A2B };
    assert_eq!(run(&k, &accounts, ix), Err(AmmError::PoolLock));
}

#[test]
fn swap_guards() {
    let k = keys();
    let pool = live_pool(&k, 100, 0);
    let ok = swap_accounts(&k, &pool, 1000, 1000);
    let ix = AmmInstruction::Swap { amount: 100, direction: Direction::A2B };

    let mut accounts = ok.clone();
    accounts[5].is_signer = false;
    assert_eq!(run(&k, &accounts, ix.clone()), Err(AmmError::InvalidSignAccount));

    let mut accounts = ok.clone();
    accounts[3] = token(&key(77), &k.mint_b, &k.pda, 0);
    assert_eq!(run(&k, &accounts, ix.clone()), Err(AmmError::InvalidVault));

    let mut accounts = ok.clone();
    accounts[7] = token(&k.token_b, &k.mint_a, &k.wallet, 0);
    assert_eq!(run(&k, &accounts, ix.clone()), Err(AmmError::InvalidMint));

    let accounts = swap_accounts(&k, &pool, 1000, 0);
    assert_eq!(run(&k, &accounts, ix.clone()), Err(AmmError::CalculationError));

    let tiny = AmmInstruction::Swap { amount: 1, direction: Direction::A2B };
    let accounts = swap_accounts(&k, &pool, 1000, 1);
    assert_eq!(run(&k, &accounts, tiny), Err(AmmError::CalculationError));

    assert_eq!(run(&k, &ok[..8].to_vec(), ix), Err(AmmError::InvalidInput));
}

#[test]
fn status_and_tolerance_updates() {
    let k = keys();
    let pool = live_pool(&k, 100, 0);
    let accounts = owner_accounts(&k, &pool);
    let mut locked = pool;
    locked.status = PoolStatus::Lock;
    assert_eq!(
        run(&k, &accounts, AmmInstruction::UpdateStatus { status: 2 }),
        Ok(vec![Effect::Store { pool: locked }])
    );
    assert_eq!(
        run(&k, &accounts, AmmInstruction::UpdateStatus { status: 1 }),
        Ok(vec![Effect::Store { pool }])
    );
    for bad in [0u8, 3, 255] {
        assert_eq!(
            run(&k, &accounts, AmmInstruction::UpdateStatus { status: bad }),
            Err(AmmError::InvalidStatus)
        );
    }
    let mut widened = pool;
    widened.tolerance = 7;
    assert_eq!(
        run(&k, &accounts, AmmInstruction::UpdateTolerance { tolerance: 7 }),
        Ok(vec![Effect::Store { pool: widened }])
    );

    let stranger = vec![pool_account(&k, &pool), plain(&key(55), true)];
    assert_eq!(
        run(&k, &stranger, AmmInstruction::UpdateTolerance { tolerance: 7 }),
        Err(AmmError::InvalidOwner)
    );
    let fresh = vec![account(&k.pool, &k.program, false, vec![0u8; POOL_LEN]), plain(&k.owner, true)];
    assert_eq!(
        run(&k, &fresh, AmmInstruction::UpdateStatus { status: 1 }),
        Err(AmmError::InvalidOwner)
    );
    let mut unset = pool;
    unset.status = PoolStatus::NotInit;
    assert_eq!(
        run(&k, &owner_accounts(&k, &unset), AmmInstruction::UpdateStatus { status: 1 }),
        Err(AmmError::InvalidStatus)
    );
}

#[test]
fn scenario_withdrawal_of_empty_fee_vault_fails() {
    let k = keys();
    let pool = live_pool(&k, 100, 0);
    let accounts = withdrawal_accounts(&k, &pool, 0);
    assert_eq!(run(&k, &accounts, AmmInstruction::WithdrawalFee {}), Err(AmmError::NoFee));
}

#[test]
fn withdrawal_moves_the_whole_fee_balance() {
    let k = keys();
    let pool = live_pool(&k, 100, 0);
    let accounts = withdrawal_accounts(&k, &pool, 50);
    assert_eq!(
        run(&k, &accounts, AmmInstruction::WithdrawalFee {}),
        Ok(vec![by_pool(2, 3, 50, k.nonce)])
    );
    let mut accounts = withdrawal_accounts(&k, &pool, 50);
    accounts[2] = token(&key(66), &k.mint_b, &k.pda, 50);
    assert_eq!(run(&k, &accounts, AmmInstruction::WithdrawalFee {}), Err(AmmError::InvalidVault));
}

#[test]
fn terminate_empties_closes_and_wipes() {
    let k = keys();
    let pool = live_pool(&k, 100, 0);
    let accounts = terminate_accounts(&k, &pool, 1100, 909, 0);
    let effects = run(&k, &accounts, AmmInstruction::Terminate {}).unwrap();
    let n = k.nonce;
    let close = |account: usize| Effect::Close { account, destination: 1, authority: 5, pool_nonce: n };
    let wiped = AmmPool {
        status: PoolStatus::Terminated,
        nonce: 0,
        ka: 0,
        kb: 0,
        tolerance: 0,
        fee: 0,
        owner: [0u8; 32],
        mint_a: [0u8; 32],
        mint_b: [0u8; 32],
        vault_a: [0u8; 32],
        vault_b: [0u8; 32],
        fee_vault: [0u8; 32],
    };
    let pay = |source: usize, destination: usize, amount: u64| Effect::Transfer {
        source,
        destination,
        authority: 5,
        amount,
        pool_nonce: Some(n),
    };
    assert_eq!(
        effects,
        vec![
            pay(2, 6, 1100),
            close(2),
            pay(3, 7, 909),
            close(3),
            close(4),
            Effect::Store { pool: wiped },
            Effect::Release { destination: 1 },
        ]
    );
}

#[test]
fn terminated_pool_refuses_everything() {
    let k = keys();
    let pool = live_pool(&k, 100, 0);
    let accounts = terminate_accounts(&k, &pool, 1, 1, 1);
    let effects = run(&k, &accounts, AmmInstruction::Terminate {}).unwrap();
    let stored = effects
        .iter()
        .find_map(|e| match e {
            Effect::Store { pool } => Some(*pool),
            _ => None,
        })
        .unwrap();
    assert_eq!(stored.status, PoolStatus::Terminated);
    // Even a record that kept its owner stays closed once terminated.
    let mut closed = pool;
    closed.status = PoolStatus::Terminated;
    for record in [stored, closed] {
        let data = record.pack();
        let init = initialize_accounts(&k, data.clone());
        assert_eq!(run(&k, &init, init_ix(&k, 0)), Err(AmmError::PoolExist));
        let swap = swap_accounts(&k, &record, 1000, 1000);
        let ix = AmmInstruction::Swap { amount: 10, direction: Direction::B2A };
        assert!(run(&k, &swap, ix).is_err());
        for ix in [
            AmmInstruction::UpdateStatus { status: 1 },
            AmmInstruction::UpdateTolerance { tolerance: 1 },
        ] {
            assert!(run(&k, &owner_accounts(&k, &record), ix).is_err());
        }
        assert!(run(&k, &withdrawal_accounts(&k, &record, 5), AmmInstruction::WithdrawalFee {}).is_err());
        assert!(run(&k, &terminate_accounts(&k, &record, 1, 1, 1), AmmInstruction::Terminate {}).is_err());
    }
    let mut owned = closed;
    owned.status = PoolStatus::Terminated;
    assert_eq!(
        run(&k, &owner_accounts(&k, &owned), AmmInstruction::UpdateStatus { status: 1 }),
        Err(AmmError::InvalidStatus)
    );
}

#[test]
fn malformed_instruction_is_refused() {
    let k = keys();
    assert_eq!(Processor::process(&k.program.to_bytes(), &vec![], &[77]), Err(AmmError::InvalidInstruction));
    assert_eq!(
        Processor::process(&k.program.to_bytes(), &vec![], &[10, 1, 0, 0, 0, 0, 0, 0, 0, 9]),
        Err(AmmError::InvalidDirection)
    );
}

#[test]
fn token_accounts_must_be_packed_and_initialized() {
    let k = keys();
    let pool = live_pool(&k, 100, 0);
    let ok = swap_accounts(&k, &pool, 1000, 1000);
    let ix = AmmInstruction::Swap { amount: 100, direction: Direction::A2B };

    // State byte 0: an uninitialized account.
    let mut accounts = ok.clone();
    accounts[2].data[108] = 0;
    assert_eq!(run(&k, &accounts, ix.clone()), Err(AmmError::ExpectedAccount));

    // State byte 3: no such state.
    let mut accounts = ok.clone();
    accounts[6].data[108] = 3;
    assert_eq!(run(&k, &accounts, ix.clone()), Err(AmmError::ExpectedAccount));

    // A delegate tag that is neither absent nor present.
    let mut accounts = ok.clone();
    accounts[7].data[72] = 2;
    assert_eq!(run(&k, &accounts, ix.clone()), Err(AmmError::ExpectedAccount));

    // A close-authority tag with a stray byte.
    let mut accounts = ok.clone();
    accounts[1].data[131] = 1;
    assert_eq!(run(&k, &accounts, ix.clone()), Err(AmmError::ExpectedAccount));

    // A frozen account still reads.
    let mut accounts = ok.clone();
    accounts[6].data[108] = 2;
    assert!(run(&k, &accounts, ix.clone()).is_ok());

    // The first failing read decides the error.
    let mut accounts = ok.clone();
    accounts[1].owner = key(97).to_bytes();
    accounts[2].data[108] = 0;
    assert_eq!(run(&k, &accounts, ix), Err(AmmError::InvalidTokenProgramId));
}
