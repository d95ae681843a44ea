//! The pool's state machine: each instruction, given what the host reports of its
//! accounts, is either refused with an error or answered with the effects that the
//! host must carry out, in order.
use vstd::prelude::*;
use crate::error::AmmError;
use crate::host::{
    check_token_program, derive_address, is_token_account_data, is_token_program, program_address, same_key,
    token_view_of, unpack_token_data, TokenAccount, TokenView, TOKEN_ACCOUNT_LEN,
};
use crate::instruction::{decode_instruction, AmmInstruction, Direction};
use crate::state::{decode_pool, AmmPool, PoolStatus};
use crate::swap::{
    calculate_amount_a2b, calculate_amount_b2a, check_amount_tolerance, fee_amount, fee_of,
    reserves_after, drift, swap_output, tolerance_check,
};

verus! {

/// What the host reports of one account handed to an instruction.
#[derive(Clone, Debug)]
pub struct AccountInput {
    /// The account's address.
    pub key: [u8; 32],
    /// The program that owns the account.
    pub owner: [u8; 32],
    /// Whether the account signed the transaction.
    pub is_signer: bool,
    /// The account's data.
    pub data: Vec<u8>,
}

/// One thing the host must do. Accounts are named by their position in the
/// instruction's account list.
#[derive(Clone, Copy, Debug, PartialEq)]
pub enum Effect {
    /// Move `amount` tokens from `source` to `destination`, authorised by the signer
    /// at `authority`, or, with `pool_nonce`, by the pool's derived address at
    /// `authority` signing with that nonce.
    Transfer {
        source: usize,
        destination: usize,
        authority: usize,
        amount: u64,
        pool_nonce: Option<u8>,
    },
    /// Close the token account `account`, its rent going to `destination`, authorised
    /// by the pool's derived address at `authority` signing with `pool_nonce`.
    Close { account: usize, destination: usize, authority: usize, pool_nonce: u8 },
    /// Write `pool` into the pool account.
    Store { pool: AmmPool },
    /// Move the pool account's lamports to `destination`.
    Release { destination: usize },
}

/// A transfer authorised by a signer.
pub open spec fn user_transfer(source: usize, destination: usize, authority: usize, amount: u64) -> Effect {
    Effect::Transfer { source, destination, authority, amount, pool_nonce: None }
}

/// A transfer authorised by the pool's derived address.
pub open spec fn pool_transfer(
    source: usize,
    destination: usize,
    authority: usize,
    amount: u64,
    nonce: u8,
) -> Effect {
    Effect::Transfer { source, destination, authority, amount, pool_nonce: Some(nonce) }
}

/// A result with its effects as a sequence.
pub open spec fn result_view(r: Result<Vec<Effect>, AmmError>) -> Result<Seq<Effect>, AmmError> {
    match r {
        Ok(v) => Ok(v@),
        Err(e) => Err(e),
    }
}

/// How much a list of effects moves into `account`, less what it moves out of it.
pub open spec fn net_credit(effects: Seq<Effect>, account: usize) -> int
    decreases effects.len(),
{
    if effects.len() == 0 {
        0
    } else {
        let rest = net_credit(effects.drop_last(), account);
        match effects.last() {
            Effect::Transfer { source, destination, amount, .. } => rest + (if destination
                == account {
                amount as int
            } else {
                0
            }) - (if source == account {
                amount as int
            } else {
                0
            }),
            _ => rest,
        }
    }
}

/// Accounts of a swap: pool, vault A, vault B, fee vault, the pool's derived address,
/// the user's wallet, the user's token accounts for A and for B, the token program.
pub const SWAP_ACCOUNTS: usize = 9;

/// The output of a swap in `direction`, priced against the live reserves.
pub open spec fn swap_price(amount: u64, direction: Direction, reserve_a: u64, reserve_b: u64) -> Result<u64, AmmError> {
    match direction {
        Direction::A2B => swap_output(amount, reserve_a, reserve_b),
        Direction::B2A => swap_output(amount, reserve_b, reserve_a),
    }
}

/// The asset-B side of a trade, on which its fee is charged: the output of a trade
/// from A to B, the payment of a trade from B to A.
pub open spec fn fee_base(direction: Direction, amount: u64, output: u64) -> u64 {
    match direction {
        Direction::A2B => output,
        Direction::B2A => amount,
    }
}

/// The transfers of a settled swap: the payment into the vault, the output from the
/// other vault to the user's account on that side, and the fee, if any, from the
/// user's account for asset B into the fee vault, which holds asset B.
pub open spec fn swap_effects(direction: Direction, amount: u64, output: u64, fee: u64, nonce: u8) -> Seq<Effect> {
    let (pay_from, pay_to, out_from, out_to) = match direction {
        Direction::A2B => (6usize, 1usize, 2usize, 7usize),
        Direction::B2A => (7usize, 2usize, 1usize, 6usize),
    };
    seq![user_transfer(pay_from, pay_to, 5, amount), pool_transfer(out_from, out_to, 4, output, nonce)]
        + if fee > 0 {
        seq![user_transfer(7, 3, 5, fee)]
    } else {
        Seq::<Effect>::empty()
    }
}

/// What a swap does: its guards in order, then the pricing against the live
/// reserves, the tolerance check against the checkpoint, and the fee.
pub open spec fn swap_outcome(
    program_id: Seq<u8>,
    accounts: Seq<AccountInput>,
    pool: AmmPool,
    vault_a: TokenView,
    vault_b: TokenView,
    user_a: TokenView,
    user_b: TokenView,
    amount: u64,
    direction: Direction,
) -> Result<Seq<Effect>, AmmError> {
    if amount == 0 {
        Err(AmmError::InvalidInstruction)
    } else if !accounts[5].is_signer {
        Err(AmmError::InvalidSignAccount)
    } else if accounts[0].owner@ != program_id {
        Err(AmmError::InvalidProgramAddress)
    } else if pool.vault_a@ != accounts[1].key@ || pool.vault_b@ != accounts[2].key@
        || pool.fee_vault@ != accounts[3].key@ {
        Err(AmmError::InvalidVault)
    } else if pool.status != PoolStatus::Normal {
        Err(AmmError::PoolLock)
    } else if user_a.mint != vault_a.mint || user_b.mint != vault_b.mint {
        Err(AmmError::InvalidMint)
    } else {
        match swap_price(amount, direction, vault_a.amount, vault_b.amount) {
            Err(e) => Err(e),
            Ok(output) => {
                match tolerance_check(
                    pool.ka,
                    pool.kb,
                    pool.tolerance,
                    direction,
                    amount,
                    output,
                    vault_a.amount,
                    vault_b.amount,
                ) {
                    Err(e) => Err(e),
                    Ok(_) => if fee_of(fee_base(direction, amount, output), pool.fee) > u64::MAX {
                        Err(AmmError::CalculationError)
                    } else {
                        Ok(
                            swap_effects(
                                direction,
                                amount,
                                output,
                                fee_of(fee_base(direction, amount, output), pool.fee) as u64,
                                pool.nonce,
                            ),
                        )
                    },
                }
            },
        }
    }
}

/// Accounts of an initialize: pool, owner, mint A, mint B, vault A, vault B, fee
/// vault, the pool's derived address, the owner's token accounts for A and for B, the
/// token program.
pub const INITIALIZE_ACCOUNTS: usize = 11;

/// Accounts of a status or tolerance update: pool, owner.
pub const UPDATE_ACCOUNTS: usize = 2;

/// Accounts of a termination: pool, owner, vault A, vault B, fee vault, the pool's
/// derived address, the owner's token accounts for A and for B, the token program.
pub const TERMINATE_ACCOUNTS: usize = 9;

/// Accounts of a fee withdrawal: pool, owner, fee vault, fee receiver, the pool's
/// derived address, the token program.
pub const WITHDRAWAL_ACCOUNTS: usize = 6;

/// The record that an initialize writes.
pub open spec fn initialized_pool(
    accounts: Seq<AccountInput>,
    nonce: u8,
    fee: u64,
    amount_a: u64,
    amount_b: u64,
    tolerance: u64,
) -> AmmPool {
    AmmPool {
        status: PoolStatus::Normal,
        nonce,
        ka: amount_a,
        kb: amount_b,
        tolerance,
        fee,
        owner: accounts[1].key,
        mint_a: accounts[2].key,
        mint_b: accounts[3].key,
        vault_a: accounts[4].key,
        vault_b: accounts[5].key,
        fee_vault: accounts[6].key,
    }
}

/// What an initialize does: the owner signs, the pool account belongs to the
/// program and is not yet initialized, the vaults hold the declared mints (the fee
/// vault mint B) and are owned by the derived address, which `nonce` must derive.
/// Then both deposits are moved in and the record is written.
pub open spec fn initialize_outcome(
    program_id: Seq<u8>,
    accounts: Seq<AccountInput>,
    pool: AmmPool,
    vault_a: TokenView,
    vault_b: TokenView,
    fee_vault: TokenView,
    derived: Option<Seq<u8>>,
    nonce: u8,
    fee: u64,
    amount_a: u64,
    amount_b: u64,
    tolerance: u64,
) -> Result<Seq<Effect>, AmmError> {
    let pda = accounts[7].key@;
    if !accounts[1].is_signer {
        Err(AmmError::InvalidSignAccount)
    } else if accounts[0].owner@ != program_id {
        Err(AmmError::InvalidProgramAddress)
    } else if pool.status != PoolStatus::NotInit {
        Err(AmmError::PoolExist)
    } else if vault_a.mint != accounts[2].key@ {
        Err(AmmError::InvalidMint)
    } else if vault_a.owner != pda {
        Err(AmmError::InvalidOwner)
    } else if vault_b.mint != accounts[3].key@ {
        Err(AmmError::InvalidMint)
    } else if vault_b.owner != pda {
        Err(AmmError::InvalidOwner)
    } else if fee_vault.mint != accounts[3].key@ {
        Err(AmmError::InvalidMint)
    } else if fee_vault.owner != pda {
        Err(AmmError::InvalidOwner)
    } else if derived != Some(pda) {
        Err(AmmError::InvalidPDA)
    } else if amount_a == 0 || amount_b == 0 {
        Err(AmmError::NoughtTransfer)
    } else {
        Ok(
            seq![
                user_transfer(8, 4, 1, amount_a),
                user_transfer(9, 5, 1, amount_b),
                Effect::Store {
                    pool: initialized_pool(accounts, nonce, fee, amount_a, amount_b, tolerance),
                },
            ],
        )
    }
}

/// The guards of the owner's operations: the owner signs, the pool account belongs
/// to the program, the signer is the pool's owner, and the pool is initialized and
/// not terminated.
pub open spec fn owner_guard(program_id: Seq<u8>, accounts: Seq<AccountInput>, pool: AmmPool) -> Option<AmmError> {
    if !accounts[1].is_signer {
        Some(AmmError::InvalidSignAccount)
    } else if accounts[0].owner@ != program_id {
        Some(AmmError::InvalidProgramAddress)
    } else if pool.owner@ != accounts[1].key@ {
        Some(AmmError::InvalidOwner)
    } else if pool.status == PoolStatus::NotInit || pool.status == PoolStatus::Terminated {
        Some(AmmError::InvalidStatus)
    } else {
        None
    }
}

/// What a status update does: past the owner's guards, 1 sets `Normal`, 2 sets
/// `Lock`, anything else is `InvalidStatus`.
pub open spec fn update_status_outcome(
    program_id: Seq<u8>,
    accounts: Seq<AccountInput>,
    pool: AmmPool,
    status: u8,
) -> Result<Seq<Effect>, AmmError> {
    match owner_guard(program_id, accounts, pool) {
        Some(e) => Err(e),
        None => if status == 1 {
            Ok(seq![Effect::Store { pool: AmmPool { status: PoolStatus::Normal, ..pool } }])
        } else if status == 2 {
            Ok(seq![Effect::Store { pool: AmmPool { status: PoolStatus::Lock, ..pool } }])
        } else {
            Err(AmmError::InvalidStatus)
        },
    }
}

/// What a tolerance update does: past the owner's guards, the tolerance is replaced.
pub open spec fn update_tolerance_outcome(
    program_id: Seq<u8>,
    accounts: Seq<AccountInput>,
    pool: AmmPool,
    tolerance: u64,
) -> Result<Seq<Effect>, AmmError> {
    match owner_guard(program_id, accounts, pool) {
        Some(e) => Err(e),
        None => Ok(seq![Effect::Store { pool: AmmPool { tolerance, ..pool } }]),
    }
}

/// What a fee withdrawal does: past the owner's guards, the fee vault must be the
/// pool's and hold a balance (else `NoFee`), which all goes to the receiver.
pub open spec fn withdrawal_fee_outcome(
    program_id: Seq<u8>,
    accounts: Seq<AccountInput>,
    pool: AmmPool,
    fee_vault: TokenView,
) -> Result<Seq<Effect>, AmmError> {
    match owner_guard(program_id, accounts, pool) {
        Some(e) => Err(e),
        None => if pool.fee_vault@ != accounts[2].key@ {
            Err(AmmError::InvalidVault)
        } else if fee_vault.amount == 0 {
            Err(AmmError::NoFee)
        } else {
            Ok(seq![pool_transfer(2, 3, 4, fee_vault.amount, pool.nonce)])
        },
    }
}

/// Empties the vault `account` into `destination` and closes it to the owner.
pub open spec fn drain(account: usize, destination: usize, amount: u64, nonce: u8) -> Seq<Effect> {
    (if amount > 0 {
        seq![pool_transfer(account, destination, 5, amount, nonce)]
    } else {
        Seq::<Effect>::empty()
    }) + seq![Effect::Close { account, destination: 1, authority: 5, pool_nonce: nonce }]
}

/// The all-zero address.
pub open spec fn zero_key() -> [u8; 32] {
    choose|k: [u8; 32]| k@ == Seq::new(32, |_i: int| 0u8)
}

/// The record left behind by a termination: status `Terminated`, every other field zero.
pub open spec fn terminated_pool() -> AmmPool {
    AmmPool {
        status: PoolStatus::Terminated,
        nonce: 0,
        ka: 0,
        kb: 0,
        tolerance: 0,
        fee: 0,
        owner: zero_key(),
        mint_a: zero_key(),
        mint_b: zero_key(),
        vault_a: zero_key(),
        vault_b: zero_key(),
        fee_vault: zero_key(),
    }
}

/// What a termination does: past the owner's guards, the three vaults must be the
/// pool's. Each vault's balance goes to the owner's account for its asset and the
/// vault is closed; the record is wiped to `terminated_pool` and its lamports go to
/// the owner.
pub open spec fn terminate_outcome(
    program_id: Seq<u8>,
    accounts: Seq<AccountInput>,
    pool: AmmPool,
    vault_a: TokenView,
    vault_b: TokenView,
    fee_vault: TokenView,
) -> Result<Seq<Effect>, AmmError> {
    match owner_guard(program_id, accounts, pool) {
        Some(e) => Err(e),
        None => if pool.vault_a@ != accounts[2].key@ || pool.vault_b@ != accounts[3].key@
            || pool.fee_vault@ != accounts[4].key@ {
            Err(AmmError::InvalidVault)
        } else {
            Ok(
                drain(2, 6, vault_a.amount, pool.nonce) + drain(3, 7, vault_b.amount, pool.nonce)
                    + drain(4, 7, fee_vault.amount, pool.nonce) + seq![
                    Effect::Store { pool: terminated_pool() },
                    Effect::Release { destination: 1 },
                ],
            )
        },
    }
}

/// The number of accounts that an instruction takes.
pub open spec fn accounts_needed(ix: AmmInstruction) -> usize {
    match ix {
        AmmInstruction::Initialize { .. } => INITIALIZE_ACCOUNTS,
        AmmInstruction::UpdateStatus { .. } => UPDATE_ACCOUNTS,
        AmmInstruction::UpdateTolerance { .. } => UPDATE_ACCOUNTS,
        AmmInstruction::Swap { .. } => SWAP_ACCOUNTS,
        AmmInstruction::WithdrawalFee {  } => WITHDRAWAL_ACCOUNTS,
        AmmInstruction::Terminate {  } => TERMINATE_ACCOUNTS,
    }
}

/// What an instruction does to a pool whose record is `pool`, with the token
/// accounts it reads taken from the accounts' data.
pub open spec fn instruction_outcome(
    ix: AmmInstruction,
    program_id: Seq<u8>,
    accounts: Seq<AccountInput>,
    pool: AmmPool,
) -> Result<Seq<Effect>, AmmError> {
    match ix {
        AmmInstruction::Initialize { nonce, fee, amount_a, amount_b, tolerance } => initialize_outcome(
            program_id,
            accounts,
            pool,
            token_view_of(accounts[4].data@),
            token_view_of(accounts[5].data@),
            token_view_of(accounts[6].data@),
            program_address(accounts[0].key@, nonce, program_id),
            nonce,
            fee,
            amount_a,
            amount_b,
            tolerance,
        ),
        AmmInstruction::UpdateStatus { status } => update_status_outcome(
            program_id,
            accounts,
            pool,
            status,
        ),
        AmmInstruction::UpdateTolerance { tolerance } => update_tolerance_outcome(
            program_id,
            accounts,
            pool,
            tolerance,
        ),
        AmmInstruction::Swap { amount, direction } => swap_outcome(
            program_id,
            accounts,
            pool,
            token_view_of(accounts[1].data@),
            token_view_of(accounts[2].data@),
            token_view_of(accounts[6].data@),
            token_view_of(accounts[7].data@),
            amount,
            direction,
        ),
        AmmInstruction::WithdrawalFee {  } => withdrawal_fee_outcome(
            program_id,
            accounts,
            pool,
            token_view_of(accounts[2].data@),
        ),
        AmmInstruction::Terminate {  } => terminate_outcome(
            program_id,
            accounts,
            pool,
            token_view_of(accounts[2].data@),
            token_view_of(accounts[3].data@),
            token_view_of(accounts[4].data@),
        ),
    }
}

/// What reading a token account gives: `InvalidTokenProgramId` unless the token
/// program owns it, `ExpectedAccount` unless its data is a packed, initialized token
/// account, else the fields at the head of its data.
pub open spec fn token_read(account: AccountInput) -> Result<TokenView, AmmError> {
    if !is_token_program(account.owner@) {
        Err(AmmError::InvalidTokenProgramId)
    } else if !is_token_account_data(account.data@) {
        Err(AmmError::ExpectedAccount)
    } else {
        Ok(token_view_of(account.data@))
    }
}

/// `prior`, or else the error of reading `account`, if any.
pub open spec fn then_read(prior: Option<AmmError>, account: AccountInput) -> Option<AmmError> {
    match prior {
        Some(e) => Some(e),
        None => match token_read(account) {
            Err(e) => Some(e),
            Ok(_) => None,
        },
    }
}

/// The first error among the reads of the token accounts that an instruction reads,
/// in the order it reads them.
pub open spec fn reads_error(ix: AmmInstruction, accounts: Seq<AccountInput>) -> Option<AmmError> {
    match ix {
        AmmInstruction::Initialize { .. } => then_read(
            then_read(then_read(None, accounts[4]), accounts[5]),
            accounts[6],
        ),
        AmmInstruction::Swap { .. } => then_read(
            then_read(then_read(then_read(None, accounts[1]), accounts[2]), accounts[6]),
            accounts[7],
        ),
        AmmInstruction::Terminate {  } => then_read(
            then_read(then_read(None, accounts[2]), accounts[3]),
            accounts[4],
        ),
        AmmInstruction::WithdrawalFee {  } => then_read(None, accounts[2]),
        _ => None,
    }
}

/// The pool record that the bytes `data` hold.
pub open spec fn pool_of(data: Seq<u8>) -> AmmPool {
    choose|p: AmmPool| p@ == decode_pool(data)->0
}

/// Whether `ix` is a swap of nothing.
pub open spec fn is_empty_swap(ix: AmmInstruction) -> bool {
    match ix {
        AmmInstruction::Swap { amount, .. } => amount == 0,
        _ => false,
    }
}

/// What processing an instruction gives: a swap of nothing is `InvalidInstruction`
/// before anything is read; too few accounts `InvalidInput`; a pool record that does
/// not decode `InvalidAccountData`; then the first failed read of a token account;
/// and otherwise what `instruction_outcome` gives for the record.
pub open spec fn process_outcome(
    ix: AmmInstruction,
    program_id: Seq<u8>,
    accounts: Seq<AccountInput>,
) -> Result<Seq<Effect>, AmmError> {
    if is_empty_swap(ix) {
        Err(AmmError::InvalidInstruction)
    } else if accounts.len() < accounts_needed(ix) {
        Err(AmmError::InvalidInput)
    } else if decode_pool(accounts[0].data@) is None {
        Err(AmmError::InvalidAccountData)
    } else if reads_error(ix, accounts) is Some {
        Err(reads_error(ix, accounts)->0)
    } else {
        instruction_outcome(ix, program_id, accounts, pool_of(accounts[0].data@))
    }
}

/// Two addresses with the same bytes are the same.
proof fn lemma_key_eq(a: [u8; 32], b: [u8; 32])
    requires
        a@ == b@,
    ensures
        a == b,
{
    broadcast use vstd::array::group_array_axioms;

    assert(a =~= b) by {
        assert forall|i: int| 0 <= i < 32 implies a[i] == b[i] by {
            assert(a@[i] == b@[i]);
        }
    }
}

/// The record read from `data` is `pool_of(data)`.
proof fn lemma_pool_of(p: AmmPool, data: Seq<u8>)
    requires
        decode_pool(data) == Some(p@),
    ensures
        pool_of(data) == p,
{
    assert(p@ == decode_pool(data)->0);
    let q = pool_of(data);
    assert(q@ == p@);
    lemma_key_eq(q.owner, p.owner);
    lemma_key_eq(q.mint_a, p.mint_a);
    lemma_key_eq(q.mint_b, p.mint_b);
    lemma_key_eq(q.vault_a, p.vault_a);
    lemma_key_eq(q.vault_b, p.vault_b);
    lemma_key_eq(q.fee_vault, p.fee_vault);
}

/// A swap on a pool that is not `Normal` fails with `PoolLock`, and so moves nothing,
/// once it has passed the guards that come before the status: a non-zero amount,
/// the user's signature, the pool account's program, and the pool's three vaults.
pub proof fn lemma_locked_pool_refuses_swaps(
    program_id: Seq<u8>,
    accounts: Seq<AccountInput>,
    pool: AmmPool,
    vault_a: TokenView,
    vault_b: TokenView,
    user_a: TokenView,
    user_b: TokenView,
    amount: u64,
    direction: Direction,
)
    requires
        amount > 0,
        accounts[5].is_signer,
        accounts[0].owner@ == program_id,
        pool.vault_a@ == accounts[1].key@,
        pool.vault_b@ == accounts[2].key@,
        pool.fee_vault@ == accounts[3].key@,
        pool.status != PoolStatus::Normal,
    ensures
        swap_outcome(program_id, accounts, pool, vault_a, vault_b, user_a, user_b, amount, direction)
            == Err::<Seq<Effect>, AmmError>(AmmError::PoolLock),
{
}

/// The owner's withdrawal from an empty fee vault of a live pool fails with `NoFee`.
pub proof fn lemma_empty_fee_vault_refuses_withdrawal(
    program_id: Seq<u8>,
    accounts: Seq<AccountInput>,
    pool: AmmPool,
    fee_vault: TokenView,
)
    requires
        accounts[1].is_signer,
        accounts[0].owner@ == program_id,
        pool.owner@ == accounts[1].key@,
        pool.status == PoolStatus::Normal || pool.status == PoolStatus::Lock,
        pool.fee_vault@ == accounts[2].key@,
        fee_vault.amount == 0,
    ensures
        withdrawal_fee_outcome(program_id, accounts, pool, fee_vault) == Err::<
            Seq<Effect>,
            AmmError,
        >(AmmError::NoFee),
{
}

/// An initialize that passes its guards moves both deposits from the owner into the
/// vaults and writes a `Normal` record whose checkpoint is the two deposits, so
/// that `ka * kb == amount_a * amount_b`.
pub proof fn lemma_initialize_sets_checkpoint(
    program_id: Seq<u8>,
    accounts: Seq<AccountInput>,
    pool: AmmPool,
    vault_a: TokenView,
    vault_b: TokenView,
    fee_vault: TokenView,
    nonce: u8,
    fee: u64,
    amount_a: u64,
    amount_b: u64,
    tolerance: u64,
)
    requires
        accounts[1].is_signer,
        accounts[0].owner@ == program_id,
        pool.status == PoolStatus::NotInit,
        vault_a.mint == accounts[2].key@ && vault_a.owner == accounts[7].key@,
        vault_b.mint == accounts[3].key@ && vault_b.owner == accounts[7].key@,
        fee_vault.mint == accounts[3].key@ && fee_vault.owner == accounts[7].key@,
        amount_a > 0 && amount_b > 0,
    ensures
        ({
            let r = initialize_outcome(
                program_id,
                accounts,
                pool,
                vault_a,
                vault_b,
                fee_vault,
                Some(accounts[7].key@),
                nonce,
                fee,
                amount_a,
                amount_b,
                tolerance,
            );
            let stored = initialized_pool(accounts, nonce, fee, amount_a, amount_b, tolerance);
            &&& r == Ok::<Seq<Effect>, AmmError>(
                seq![
                    user_transfer(8, 4, 1, amount_a),
                    user_transfer(9, 5, 1, amount_b),
                    Effect::Store { pool: stored },
                ],
            )
            &&& stored.status == PoolStatus::Normal
            &&& stored.nonce == nonce && stored.fee == fee && stored.tolerance == tolerance
            &&& stored.ka * stored.kb == amount_a * amount_b
        }),
{
}

/// No record that the effects write is uninitialized.
pub open spec fn stores_initialized(effects: Seq<Effect>) -> bool {
    forall|i: int|
        0 <= i < effects.len() && #[trigger] effects[i] is Store ==> effects[i]->pool.status
            != PoolStatus::NotInit
}

/// A pool never returns to `NotInit`: no instruction on an initialized pool writes
/// an uninitialized record, and every instruction on a terminated pool fails.
pub proof fn lemma_one_way_lifecycle(
    ix: AmmInstruction,
    program_id: Seq<u8>,
    accounts: Seq<AccountInput>,
    pool: AmmPool,
)
    requires
        pool.status != PoolStatus::NotInit,
        accounts.len() >= accounts_needed(ix),
    ensures
        instruction_outcome(ix, program_id, accounts, pool) is Ok ==> stores_initialized(
            instruction_outcome(ix, program_id, accounts, pool)->Ok_0,
        ),
        pool.status == PoolStatus::Terminated ==> instruction_outcome(
            ix,
            program_id,
            accounts,
            pool,
        ) is Err,
{
    let r = instruction_outcome(ix, program_id, accounts, pool);
    if r is Ok {
        let effects = r->Ok_0;
        match ix {
            AmmInstruction::Swap { amount, direction } => {
                let output = swap_price(
                    amount,
                    direction,
                    token_view_of(accounts[1].data@).amount,
                    token_view_of(accounts[2].data@).amount,
                )->Ok_0;
                let fee = fee_of(fee_base(direction, amount, output), pool.fee) as u64;
                assert(effects == swap_effects(direction, amount, output, fee, pool.nonce));
                assert forall|i: int| 0 <= i < effects.len() implies !(#[trigger] effects[i] is Store) by {
                    if fee > 0 {
                        assert(effects.len() == 3);
                    } else {
                        assert(effects.len() == 2);
                    }
                }
            },
            AmmInstruction::Terminate {  } => {
                let n = pool.nonce;
                let a = drain(2, 6, token_view_of(accounts[2].data@).amount, n);
                let b = drain(3, 7, token_view_of(accounts[3].data@).amount, n);
                let f = drain(4, 7, token_view_of(accounts[4].data@).amount, n);
                let tail = seq![Effect::Store { pool: terminated_pool() }, Effect::Release { destination: 1 }];
                assert(effects == a + b + f + tail);
                assert forall|i: int| 0 <= i < effects.len() && #[trigger] effects[i] is Store implies effects[i]->pool.status != PoolStatus::NotInit by {
                    if i < a.len() {
                        assert(effects[i] == a[i]);
                    } else if i < a.len() + b.len() {
                        assert(effects[i] == b[i - a.len()]);
                    } else if i < a.len() + b.len() + f.len() {
                        assert(effects[i] == f[i - a.len() - b.len()]);
                    } else {
                        assert(effects[i] == tail[i - a.len() - b.len() - f.len()]);
                    }
                }
            },
            _ => {},
        }
    }
}

/// A swap that succeeds leaves the live reserves with a product within the pool's
/// tolerance of the checkpoint `ka * kb`; one whose settled product would drift
/// further fails.
pub proof fn lemma_swap_within_tolerance(
    program_id: Seq<u8>,
    accounts: Seq<AccountInput>,
    pool: AmmPool,
    vault_a: TokenView,
    vault_b: TokenView,
    user_a: TokenView,
    user_b: TokenView,
    amount: u64,
    direction: Direction,
)
    ensures
        swap_outcome(program_id, accounts, pool, vault_a, vault_b, user_a, user_b, amount, direction)
            is Ok ==> ({
            let output = swap_price(amount, direction, vault_a.amount, vault_b.amount)->Ok_0;
            let (na, nb) = reserves_after(direction, amount, output, vault_a.amount, vault_b.amount);
            drift(na * nb, pool.ka * pool.kb) <= pool.tolerance
        }),
        ({
            let output = swap_price(amount, direction, vault_a.amount, vault_b.amount)->Ok_0;
            let (na, nb) = reserves_after(direction, amount, output, vault_a.amount, vault_b.amount);
            &&& swap_price(amount, direction, vault_a.amount, vault_b.amount) is Ok
            &&& 0 <= na && 0 <= nb && na * nb <= u128::MAX
            &&& drift(na * nb, pool.ka * pool.kb) > pool.tolerance
        }) ==> swap_outcome(program_id, accounts, pool, vault_a, vault_b, user_a, user_b, amount, direction)
            is Err,
{
}

/// In a swap that succeeds, the fee vault receives `floor(base * fee / PERCENT_MUL)` of
/// asset B, where `base` is the trade's asset-B side, and the user's account for
/// asset B pays it: a trade from A to B credits that account the output less the
/// fee, a trade from B to A debits it the payment plus the fee and credits the
/// account for asset A the whole output.
pub proof fn lemma_fee_correct(
    program_id: Seq<u8>,
    accounts: Seq<AccountInput>,
    pool: AmmPool,
    vault_a: TokenView,
    vault_b: TokenView,
    user_a: TokenView,
    user_b: TokenView,
    amount: u64,
    direction: Direction,
)
    requires
        swap_outcome(program_id, accounts, pool, vault_a, vault_b, user_a, user_b, amount, direction)
            is Ok,
    ensures
        ({
            let effects = swap_outcome(
                program_id,
                accounts,
                pool,
                vault_a,
                vault_b,
                user_a,
                user_b,
                amount,
                direction,
            )->Ok_0;
            let output = swap_price(amount, direction, vault_a.amount, vault_b.amount)->Ok_0;
            let fee = fee_of(fee_base(direction, amount, output), pool.fee);
            &&& net_credit(effects, 3) == fee
            &&& direction == Direction::A2B ==> net_credit(effects, 7) == output - fee && net_credit(
                effects,
                6,
            ) == -amount
            &&& direction == Direction::B2A ==> net_credit(effects, 6) == output && net_credit(
                effects,
                7,
            ) == -(amount + fee)
        }),
{
    let effects = swap_outcome(
        program_id,
        accounts,
        pool,
        vault_a,
        vault_b,
        user_a,
        user_b,
        amount,
        direction,
    )->Ok_0;
    let output = swap_price(amount, direction, vault_a.amount, vault_b.amount)->Ok_0;
    let base = fee_base(direction, amount, output);
    let fee = fee_of(base, pool.fee) as u64;
    assert(effects == swap_effects(direction, amount, output, fee, pool.nonce));
    assert(fee_of(base, pool.fee) >= 0) by (nonlinear_arith)
        requires
            base >= 0,
            pool.fee >= 0,
    ;
    let first = effects.take(1);
    let two = effects.take(2);
    assert(first.drop_last() =~= Seq::<Effect>::empty());
    assert(two.drop_last() =~= first);
    if fee > 0 {
        assert(effects.drop_last() =~= two);
    } else {
        assert(effects =~= two);
    }
    reveal_with_fuel(net_credit, 4);
}

/// The all-zero address, as a value.
fn zero_key_value() -> (r: [u8; 32])
    ensures
        r == zero_key(),
{
    broadcast use vstd::array::group_array_axioms;

    let r: [u8; 32] = [0u8; 32];
    assert(r@ =~= Seq::new(32, |_i: int| 0u8));
    let ghost z = zero_key();
    assert(z@ == Seq::new(32, |_i: int| 0u8));
    assert(r =~= z) by {
        assert forall|i: int| 0 <= i < 32 implies r[i] == z[i] by {
            assert(r@[i] == z@[i]);
        }
    }
    r
}

/// Program state handler.
pub struct Processor {}

impl Processor {
    /// Decides a swap from the pool record and the token accounts it reads.
    pub fn swap_plan(
        program_id: &[u8; 32],
        accounts: &Vec<AccountInput>,
        pool: &AmmPool,
        vault_a: &TokenAccount,
        vault_b: &TokenAccount,
        user_a: &TokenAccount,
        user_b: &TokenAccount,
        amount: u64,
        direction: Direction,
    ) -> (r: Result<Vec<Effect>, AmmError>)
        requires
            accounts@.len() >= SWAP_ACCOUNTS,
        ensures
            result_view(r) == swap_outcome(
                program_id@,
                accounts@,
                *pool,
                vault_a@,
                vault_b@,
                user_a@,
                user_b@,
                amount,
                direction,
            ),
    {
        if amount == 0 {
            return Err(AmmError::InvalidInstruction);
        }
        if !accounts[5].is_signer {
            return Err(AmmError::InvalidSignAccount);
        }
        if !same_key(&accounts[0].owner, program_id) {
            return Err(AmmError::InvalidProgramAddress);
        }
        if !same_key(&pool.vault_a, &accounts[1].key) || !same_key(&pool.vault_b, &accounts[2].key)
            || !same_key(&pool.fee_vault, &accounts[3].key) {
            return Err(AmmError::InvalidVault);
        }
        if pool.status != PoolStatus::Normal {
            return Err(AmmError::PoolLock);
        }
        if !same_key(&user_a.mint, &vault_a.mint) || !same_key(&user_b.mint, &vault_b.mint) {
            return Err(AmmError::InvalidMint);
        }
        let priced = match direction {
            Direction::A2B => calculate_amount_a2b(amount, vault_a.amount, vault_b.amount),
            Direction::B2A => calculate_amount_b2a(amount, vault_a.amount, vault_b.amount),
        };
        let output = match priced {
            Ok(o) => o,
            Err(e) => {
                return Err(e);
            },
        };
        match check_amount_tolerance(pool, direction, amount, output, vault_a.amount, vault_b.amount) {
            Ok(_) => {},
            Err(e) => {
                return Err(e);
            },
        }
        let base = match direction {
            Direction::A2B => output,
            Direction::B2A => amount,
        };
        let fee = match fee_amount(base, pool.fee) {
            Ok(f) => f,
            Err(e) => {
                return Err(e);
            },
        };
        let (pay_from, pay_to, out_from, out_to): (usize, usize, usize, usize) = match direction {
            Direction::A2B => (6, 1, 2, 7),
            Direction::B2A => (7, 2, 1, 6),
        };
        let mut effects: Vec<Effect> = Vec::new();
        effects.push(
            Effect::Transfer {
                source: pay_from,
                destination: pay_to,
                authority: 5,
                amount,
                pool_nonce: None,
            },
        );
        effects.push(
            Effect::Transfer {
                source: out_from,
                destination: out_to,
                authority: 4,
                amount: output,
                pool_nonce: Some(pool.nonce),
            },
        );
        if fee > 0 {
            effects.push(
                Effect::Transfer {
                    source: 7,
                    destination: 3,
                    authority: 5,
                    amount: fee,
                    pool_nonce: None,
                },
            );
        }
        assert(effects@ =~= swap_effects(direction, amount, output, fee, pool.nonce));
        Ok(effects)
    }

    /// Reads a token account. Its owner must be the token program, else
    /// `InvalidTokenProgramId`; its data must hold a token account, else `ExpectedAccount`.
    pub fn unpack_token_account(account: &AccountInput) -> (r: Result<TokenAccount, AmmError>)
        ensures
            match r {
                Ok(t) => token_read(*account) == Ok::<TokenView, AmmError>(t@),
                Err(e) => token_read(*account) == Err::<TokenView, AmmError>(e),
            },
    {
        if !check_token_program(&account.owner) {
            return Err(AmmError::InvalidTokenProgramId);
        }
        match unpack_token_data(account.data.as_slice()) {
            Some(t) => Ok(t),
            None => Err(AmmError::ExpectedAccount),
        }
    }

    /// Processes a swap of `amount` in `direction`. A zero amount is refused with
    /// `InvalidInstruction` before any account is read; fewer accounts than a swap
    /// takes with `InvalidInput`. Otherwise the pool record and the four token accounts
    /// are read, and what is returned is what `swap_outcome` gives for them.
    pub fn process_swap(
        program_id: &[u8; 32],
        accounts: &Vec<AccountInput>,
        amount: u64,
        direction: Direction,
    ) -> (r: Result<Vec<Effect>, AmmError>)
        ensures
            amount == 0 ==> r == Err::<Vec<Effect>, AmmError>(AmmError::InvalidInstruction),
            result_view(r) == process_outcome(AmmInstruction::Swap { amount, direction }, program_id@, accounts@),
    {
        if amount == 0 {
            return Err(AmmError::InvalidInstruction);
        }
        if accounts.len() < SWAP_ACCOUNTS {
            return Err(AmmError::InvalidInput);
        }
        let pool = match AmmPool::unpack_from_slice(accounts[0].data.as_slice()) {
            Ok(p) => p,
            Err(e) => {
                return Err(e);
            },
        };
        let vault_a = match Self::unpack_token_account(&accounts[1]) {
            Ok(t) => t,
            Err(e) => {
                return Err(e);
            },
        };
        let vault_b = match Self::unpack_token_account(&accounts[2]) {
            Ok(t) => t,
            Err(e) => {
                return Err(e);
            },
        };
        let user_a = match Self::unpack_token_account(&accounts[6]) {
            Ok(t) => t,
            Err(e) => {
                return Err(e);
            },
        };
        let user_b = match Self::unpack_token_account(&accounts[7]) {
            Ok(t) => t,
            Err(e) => {
                return Err(e);
            },
        };
        let r = Self::swap_plan(
            program_id,
            accounts,
            &pool,
            &vault_a,
            &vault_b,
            &user_a,
            &user_b,
            amount,
            direction,
        );
        proof {
            lemma_pool_of(pool, accounts@[0].data@);
        }
        r
    }

    /// The owner's guards, in order.
    fn owner_check(program_id: &[u8; 32], accounts: &Vec<AccountInput>, pool: &AmmPool) -> (r: Result<(), AmmError>)
        requires
            accounts@.len() >= UPDATE_ACCOUNTS,
        ensures
            r == (match owner_guard(program_id@, accounts@, *pool) {
                Some(e) => Err(e),
                None => Ok(()),
            }),
    {
        if !accounts[1].is_signer {
            return Err(AmmError::InvalidSignAccount);
        }
        if !same_key(&accounts[0].owner, program_id) {
            return Err(AmmError::InvalidProgramAddress);
        }
        if !same_key(&pool.owner, &accounts[1].key) {
            return Err(AmmError::InvalidOwner);
        }
        if pool.status == PoolStatus::NotInit || pool.status == PoolStatus::Terminated {
            return Err(AmmError::InvalidStatus);
        }
        Ok(())
    }

    /// Decides a status update for the pool record `pool`.
    pub fn update_status_plan(
        program_id: &[u8; 32],
        accounts: &Vec<AccountInput>,
        pool: &AmmPool,
        status: u8,
    ) -> (r: Result<Vec<Effect>, AmmError>)
        requires
            accounts@.len() >= UPDATE_ACCOUNTS,
        ensures
            result_view(r) == update_status_outcome(program_id@, accounts@, *pool, status),
    {
        match Self::owner_check(program_id, accounts, pool) {
            Ok(_) => {},
            Err(e) => {
                return Err(e);
            },
        }
        let new_status = match status {
            1 => PoolStatus::Normal,
            2 => PoolStatus::Lock,
            _ => {
                return Err(AmmError::InvalidStatus);
            },
        };
        let mut updated = *pool;
        updated.status = new_status;
        let mut effects: Vec<Effect> = Vec::new();
        effects.push(Effect::Store { pool: updated });
        assert(effects@ =~= update_status_outcome(program_id@, accounts@, *pool, status)->Ok_0);
        Ok(effects)
    }

    /// Decides a tolerance update for the pool record `pool`.
    pub fn update_tolerance_plan(
        program_id: &[u8; 32],
        accounts: &Vec<AccountInput>,
        pool: &AmmPool,
        tolerance: u64,
    ) -> (r: Result<Vec<Effect>, AmmError>)
        requires
            accounts@.len() >= UPDATE_ACCOUNTS,
        ensures
            result_view(r) == update_tolerance_outcome(program_id@, accounts@, *pool, tolerance),
    {
        match Self::owner_check(program_id, accounts, pool) {
            Ok(_) => {},
            Err(e) => {
                return Err(e);
            },
        }
        let mut updated = *pool;
        updated.tolerance = tolerance;
        let mut effects: Vec<Effect> = Vec::new();
        effects.push(Effect::Store { pool: updated });
        assert(effects@ =~= update_tolerance_outcome(program_id@, accounts@, *pool, tolerance)->Ok_0);
        Ok(effects)
    }

    /// Decides a fee withdrawal for the pool record `pool` and the fee vault's state.
    pub fn withdrawal_fee_plan(
        program_id: &[u8; 32],
        accounts: &Vec<AccountInput>,
        pool: &AmmPool,
        fee_vault: &TokenAccount,
    ) -> (r: Result<Vec<Effect>, AmmError>)
        requires
            accounts@.len() >= WITHDRAWAL_ACCOUNTS,
        ensures
            result_view(r) == withdrawal_fee_outcome(program_id@, accounts@, *pool, fee_vault@),
    {
        match Self::owner_check(program_id, accounts, pool) {
            Ok(_) => {},
            Err(e) => {
                return Err(e);
            },
        }
        if !same_key(&pool.fee_vault, &accounts[2].key) {
            return Err(AmmError::InvalidVault);
        }
        if fee_vault.amount == 0 {
            return Err(AmmError::NoFee);
        }
        let mut effects: Vec<Effect> = Vec::new();
        effects.push(
            Effect::Transfer {
                source: 2,
                destination: 3,
                authority: 4,
                amount: fee_vault.amount,
                pool_nonce: Some(pool.nonce),
            },
        );
        assert(effects@ =~= withdrawal_fee_outcome(program_id@, accounts@, *pool, fee_vault@)->Ok_0);
        Ok(effects)
    }

    /// Appends the effects that empty and close one vault.
    fn push_drain(effects: &mut Vec<Effect>, account: usize, destination: usize, amount: u64, nonce: u8)
        ensures
            final(effects)@ == old(effects)@ + drain(account, destination, amount, nonce),
    {
        let ghost start = effects@;
        if amount > 0 {
            effects.push(
                Effect::Transfer {
                    source: account,
                    destination,
                    authority: 5,
                    amount,
                    pool_nonce: Some(nonce),
                },
            );
        }
        effects.push(Effect::Close { account, destination: 1, authority: 5, pool_nonce: nonce });
        assert(effects@ =~= start + drain(account, destination, amount, nonce));
    }

    /// Decides a termination for the pool record `pool` and the vaults' states.
    pub fn terminate_plan(
        program_id: &[u8; 32],
        accounts: &Vec<AccountInput>,
        pool: &AmmPool,
        vault_a: &TokenAccount,
        vault_b: &TokenAccount,
        fee_vault: &TokenAccount,
    ) -> (r: Result<Vec<Effect>, AmmError>)
        requires
            accounts@.len() >= TERMINATE_ACCOUNTS,
        ensures
            result_view(r) == terminate_outcome(
                program_id@,
                accounts@,
                *pool,
                vault_a@,
                vault_b@,
                fee_vault@,
            ),
    {
        match Self::owner_check(program_id, accounts, pool) {
            Ok(_) => {},
            Err(e) => {
                return Err(e);
            },
        }
        if !same_key(&pool.vault_a, &accounts[2].key) || !same_key(&pool.vault_b, &accounts[3].key)
            || !same_key(&pool.fee_vault, &accounts[4].key) {
            return Err(AmmError::InvalidVault);
        }
        let mut effects: Vec<Effect> = Vec::new();
        Self::push_drain(&mut effects, 2, 6, vault_a.amount, pool.nonce);
        Self::push_drain(&mut effects, 3, 7, vault_b.amount, pool.nonce);
        Self::push_drain(&mut effects, 4, 7, fee_vault.amount, pool.nonce);
        let zero = zero_key_value();
        let wiped = AmmPool {
            status: PoolStatus::Terminated,
            nonce: 0,
            ka: 0,
            kb: 0,
            tolerance: 0,
            fee: 0,
            owner: zero,
            mint_a: zero,
            mint_b: zero,
            vault_a: zero,
            vault_b: zero,
            fee_vault: zero,
        };
        effects.push(Effect::Store { pool: wiped });
        effects.push(Effect::Release { destination: 1 });
        assert(effects@ =~= terminate_outcome(
            program_id@,
            accounts@,
            *pool,
            vault_a@,
            vault_b@,
            fee_vault@,
        )->Ok_0);
        Ok(effects)
    }

    /// Decides an initialize for the pool record `pool`, the vaults' states and the
    /// address that `nonce` derives, if any.
    pub fn initialize_plan(
        program_id: &[u8; 32],
        accounts: &Vec<AccountInput>,
        pool: &AmmPool,
        vault_a: &TokenAccount,
        vault_b: &TokenAccount,
        fee_vault: &TokenAccount,
        derived: Option<[u8; 32]>,
        nonce: u8,
        fee: u64,
        amount_a: u64,
        amount_b: u64,
        tolerance: u64,
    ) -> (r: Result<Vec<Effect>, AmmError>)
        requires
            accounts@.len() >= INITIALIZE_ACCOUNTS,
        ensures
            result_view(r) == initialize_outcome(
                program_id@,
                accounts@,
                *pool,
                vault_a@,
                vault_b@,
                fee_vault@,
                match derived {
                    Some(k) => Some(k@),
                    None => None,
                },
                nonce,
                fee,
                amount_a,
                amount_b,
                tolerance,
            ),
    {
        if !accounts[1].is_signer {
            return Err(AmmError::InvalidSignAccount);
        }
        if !same_key(&accounts[0].owner, program_id) {
            return Err(AmmError::InvalidProgramAddress);
        }
        if pool.status != PoolStatus::NotInit {
            return Err(AmmError::PoolExist);
        }
        let pda = &accounts[7].key;
        if !same_key(&vault_a.mint, &accounts[2].key) {
            return Err(AmmError::InvalidMint);
        }
        if !same_key(&vault_a.owner, pda) {
            return Err(AmmError::InvalidOwner);
        }
        if !same_key(&vault_b.mint, &accounts[3].key) {
            return Err(AmmError::InvalidMint);
        }
        if !same_key(&vault_b.owner, pda) {
            return Err(AmmError::InvalidOwner);
        }
        if !same_key(&fee_vault.mint, &accounts[3].key) {
            return Err(AmmError::InvalidMint);
        }
        if !same_key(&fee_vault.owner, pda) {
            return Err(AmmError::InvalidOwner);
        }
        match derived {
            Some(k) => {
                if !same_key(&k, pda) {
                    return Err(AmmError::InvalidPDA);
                }
            },
            None => {
                return Err(AmmError::InvalidPDA);
            },
        }
        if amount_a == 0 || amount_b == 0 {
            return Err(AmmError::NoughtTransfer);
        }
        let created = AmmPool {
            status: PoolStatus::Normal,
            nonce,
            ka: amount_a,
            kb: amount_b,
            tolerance,
            fee,
            owner: accounts[1].key,
            mint_a: accounts[2].key,
            mint_b: accounts[3].key,
            vault_a: accounts[4].key,
            vault_b: accounts[5].key,
            fee_vault: accounts[6].key,
        };
        let mut effects: Vec<Effect> = Vec::new();
        effects.push(
            Effect::Transfer {
                source: 8,
                destination: 4,
                authority: 1,
                amount: amount_a,
                pool_nonce: None,
            },
        );
        effects.push(
            Effect::Transfer {
                source: 9,
                destination: 5,
                authority: 1,
                amount: amount_b,
                pool_nonce: None,
            },
        );
        effects.push(Effect::Store { pool: created });
        assert(effects@ =~= seq![
            user_transfer(8, 4, 1, amount_a),
            user_transfer(9, 5, 1, amount_b),
            Effect::Store {
                pool: initialized_pool(accounts@, nonce, fee, amount_a, amount_b, tolerance),
            },
        ]);
        Ok(effects)
    }

    /// Processes an initialize: reads the pool record, the three vaults and the
    /// address that `nonce` derives, then decides as `initialize_outcome` says.
    pub fn process_initialize(
        program_id: &[u8; 32],
        accounts: &Vec<AccountInput>,
        nonce: u8,
        fee: u64,
        amount_a: u64,
        amount_b: u64,
        tolerance: u64,
    ) -> (r: Result<Vec<Effect>, AmmError>)
        ensures
            result_view(r) == process_outcome(AmmInstruction::Initialize { nonce, fee, amount_a, amount_b, tolerance }, program_id@, accounts@),
    {
        if accounts.len() < INITIALIZE_ACCOUNTS {
            return Err(AmmError::InvalidInput);
        }
        let pool = match AmmPool::unpack_from_slice(accounts[0].data.as_slice()) {
            Ok(p) => p,
            Err(e) => {
                return Err(e);
            },
        };
        let vault_a = match Self::unpack_token_account(&accounts[4]) {
            Ok(t) => t,
            Err(e) => {
                return Err(e);
            },
        };
        let vault_b = match Self::unpack_token_account(&accounts[5]) {
            Ok(t) => t,
            Err(e) => {
                return Err(e);
            },
        };
        let fee_vault = match Self::unpack_token_account(&accounts[6]) {
            Ok(t) => t,
            Err(e) => {
                return Err(e);
            },
        };
        let derived = derive_address(&accounts[0].key, nonce, program_id);
        let r = Self::initialize_plan(
            program_id,
            accounts,
            &pool,
            &vault_a,
            &vault_b,
            &fee_vault,
            derived,
            nonce,
            fee,
            amount_a,
            amount_b,
            tolerance,
        );
        proof {
            lemma_pool_of(pool, accounts@[0].data@);
        }
        r
    }

    /// Processes a status update: reads the pool record, then decides as
    /// `update_status_outcome` says.
    pub fn process_update_status(program_id: &[u8; 32], accounts: &Vec<AccountInput>, status: u8) -> (r:
        Result<Vec<Effect>, AmmError>)
        ensures
            result_view(r) == process_outcome(AmmInstruction::UpdateStatus { status }, program_id@, accounts@),
    {
        if accounts.len() < UPDATE_ACCOUNTS {
            return Err(AmmError::InvalidInput);
        }
        let pool = match AmmPool::unpack_from_slice(accounts[0].data.as_slice()) {
            Ok(p) => p,
            Err(e) => {
                return Err(e);
            },
        };
        let r = Self::update_status_plan(program_id, accounts, &pool, status);
        proof {
            lemma_pool_of(pool, accounts@[0].data@);
        }
        r
    }

    /// Processes a tolerance update: reads the pool record, then decides as
    /// `update_tolerance_outcome` says.
    pub fn process_update_tolerance(
        program_id: &[u8; 32],
        accounts: &Vec<AccountInput>,
        tolerance: u64,
    ) -> (r: Result<Vec<Effect>, AmmError>)
        ensures
            result_view(r) == process_outcome(AmmInstruction::UpdateTolerance { tolerance }, program_id@, accounts@),
    {
        if accounts.len() < UPDATE_ACCOUNTS {
            return Err(AmmError::InvalidInput);
        }
        let pool = match AmmPool::unpack_from_slice(accounts[0].data.as_slice()) {
            Ok(p) => p,
            Err(e) => {
                return Err(e);
            },
        };
        let r = Self::update_tolerance_plan(program_id, accounts, &pool, tolerance);
        proof {
            lemma_pool_of(pool, accounts@[0].data@);
        }
        r
    }

    /// Processes a termination: reads the pool record and the three vaults, then
    /// decides as `terminate_outcome` says.
    pub fn process_terminate(program_id: &[u8; 32], accounts: &Vec<AccountInput>) -> (r: Result<
        Vec<Effect>,
        AmmError,
    >)
        ensures
            result_view(r) == process_outcome(AmmInstruction::Terminate {  }, program_id@, accounts@),
    {
        if accounts.len() < TERMINATE_ACCOUNTS {
            return Err(AmmError::InvalidInput);
        }
        let pool = match AmmPool::unpack_from_slice(accounts[0].data.as_slice()) {
            Ok(p) => p,
            Err(e) => {
                return Err(e);
            },
        };
        let vault_a = match Self::unpack_token_account(&accounts[2]) {
            Ok(t) => t,
            Err(e) => {
                return Err(e);
            },
        };
        let vault_b = match Self::unpack_token_account(&accounts[3]) {
            Ok(t) => t,
            Err(e) => {
                return Err(e);
            },
        };
        let fee_vault = match Self::unpack_token_account(&accounts[4]) {
            Ok(t) => t,
            Err(e) => {
                return Err(e);
            },
        };
        let r = Self::terminate_plan(program_id, accounts, &pool, &vault_a, &vault_b, &fee_vault);
        proof {
            lemma_pool_of(pool, accounts@[0].data@);
        }
        r
    }

    /// Processes a fee withdrawal: reads the pool record and the fee vault, then
    /// decides as `withdrawal_fee_outcome` says.
    pub fn process_withdrawal_fee(program_id: &[u8; 32], accounts: &Vec<AccountInput>) -> (r: Result<
        Vec<Effect>,
        AmmError,
    >)
        ensures
            result_view(r) == process_outcome(AmmInstruction::WithdrawalFee {  }, program_id@, accounts@),
    {
        if accounts.len() < WITHDRAWAL_ACCOUNTS {
            return Err(AmmError::InvalidInput);
        }
        let pool = match AmmPool::unpack_from_slice(accounts[0].data.as_slice()) {
            Ok(p) => p,
            Err(e) => {
                return Err(e);
            },
        };
        let fee_vault = match Self::unpack_token_account(&accounts[2]) {
            Ok(t) => t,
            Err(e) => {
                return Err(e);
            },
        };
        let r = Self::withdrawal_fee_plan(program_id, accounts, &pool, &fee_vault);
        proof {
            lemma_pool_of(pool, accounts@[0].data@);
        }
        r
    }

    /// Processes an instruction's wire bytes: a malformed instruction is refused with
    /// the decoder's error; otherwise the instruction is processed, and what succeeds
    /// is what `instruction_outcome` gives for the pool record read.
    pub fn process(program_id: &[u8; 32], accounts: &Vec<AccountInput>, input: &[u8]) -> (r: Result<
        Vec<Effect>,
        AmmError,
    >)
        ensures
            decode_instruction(input@) is Err ==> r == Err::<Vec<Effect>, AmmError>(
                decode_instruction(input@)->Err_0,
            ),
            decode_instruction(input@) is Ok ==> result_view(r) == process_outcome(
                decode_instruction(input@)->Ok_0,
                program_id@,
                accounts@,
            ),
    {
        let instruction = match AmmInstruction::unpack(input) {
            Ok(ix) => ix,
            Err(e) => {
                return Err(e);
            },
        };
        match instruction {
            AmmInstruction::Initialize { nonce, fee, amount_a, amount_b, tolerance } => {
                Self::process_initialize(program_id, accounts, nonce, fee, amount_a, amount_b, tolerance)
            },
            AmmInstruction::UpdateStatus { status } => {
                Self::process_update_status(program_id, accounts, status)
            },
            AmmInstruction::UpdateTolerance { tolerance } => {
                Self::process_update_tolerance(program_id, accounts, tolerance)
            },
            AmmInstruction::Terminate {  } => Self::process_terminate(program_id, accounts),
            AmmInstruction::Swap { amount, direction } => {
                Self::process_swap(program_id, accounts, amount, direction)
            },
            AmmInstruction::WithdrawalFee {  } => Self::process_withdrawal_fee(program_id, accounts),
        }
    }
}

} // verus!
