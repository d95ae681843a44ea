//! Calls into the host's libraries: the derived-address function and the
//! token program's account format.
use vstd::prelude::*;
use solana_program::program_pack::Pack;
use solana_program::pubkey::Pubkey;
use crate::state::KEY_LEN;
use vstd::bytes::spec_u64_from_le_bytes;

verus! {

/// Length in bytes of a packed token account.
pub const TOKEN_ACCOUNT_LEN: usize = 165;

/// The fields of a token account that the pool reads.
#[derive(Clone, Copy, Debug, PartialEq)]
pub struct TokenAccount {
    pub mint: [u8; 32],
    pub owner: [u8; 32],
    pub amount: u64,
}

/// A token account's fields with its addresses as byte sequences.
pub struct TokenView {
    pub mint: Seq<u8>,
    pub owner: Seq<u8>,
    pub amount: u64,
}

impl View for TokenAccount {
    type V = TokenView;

    open spec fn view(&self) -> TokenView {
        TokenView { mint: self.mint@, owner: self.owner@, amount: self.amount }
    }
}

/// The fields at the head of a packed token account: mint, owner, then the balance
/// little-endian.
pub open spec fn token_view_of(b: Seq<u8>) -> TokenView {
    TokenView {
        mint: b.subrange(0, 32),
        owner: b.subrange(32, 64),
        amount: spec_u64_from_le_bytes(b.subrange(64, 72)),
    }
}

/// Whether the four bytes of `b` at `off` tag an optional field: `[0, 0, 0, 0]` for
/// absent, `[1, 0, 0, 0]` for present.
pub open spec fn is_option_tag(b: Seq<u8>, off: int) -> bool {
    (b[off] == 0 || b[off] == 1) && b[off + 1] == 0 && b[off + 2] == 0 && b[off + 3] == 0
}

/// Whether `b` is a packed, initialized token account: `TOKEN_ACCOUNT_LEN` bytes, a
/// state byte at 108 that is initialized (1) or frozen (2), and option tags for the
/// delegate (72), the native reserve (109) and the close authority (129).
pub open spec fn is_token_account_data(b: Seq<u8>) -> bool {
    &&& b.len() == TOKEN_ACCOUNT_LEN
    &&& (b[108] == 1 || b[108] == 2)
    &&& is_option_tag(b, 72)
    &&& is_option_tag(b, 109)
    &&& is_option_tag(b, 129)
}

/// The address derived from a seed address, a nonce and a program, if the pair
/// derives one.
pub uninterp spec fn program_address(seed: Seq<u8>, nonce: u8, program_id: Seq<u8>) -> Option<
    Seq<u8>,
>;

/// Whether `key` is the token program's address.
pub uninterp spec fn is_token_program(key: Seq<u8>) -> bool;

/// Relies on `Pubkey::create_program_address` with the seeds `[seed, [nonce]]`: its
/// result depends on the seeds and the program alone, and is absent where the
/// derived point lies on the curve.
#[verifier::external_body]
pub(crate) fn derive_address(seed: &[u8; 32], nonce: u8, program_id: &[u8; 32]) -> (r: Option<[u8; 32]>)
    ensures
        match r {
            Some(k) => program_address(seed@, nonce, program_id@) == Some(k@),
            None => program_address(seed@, nonce, program_id@) is None,
        },
{
    let program = Pubkey::new_from_array(*program_id);
    Pubkey::create_program_address(&[&seed[..], &[nonce]], &program).ok().map(|k| k.to_bytes())
}

/// Relies on `spl_token::check_program_account`, which accepts exactly the token
/// program's address.
#[verifier::external_body]
pub(crate) fn check_token_program(key: &[u8; 32]) -> (r: bool)
    ensures
        r == is_token_program(key@),
{
    spl_token::check_program_account(&Pubkey::new_from_array(*key)).is_ok()
}

/// Relies on `spl_token::state::Account::unpack`: it accepts exactly the packed,
/// initialized token accounts, and reads the mint, the owner and the balance from
/// the head of the data.
#[verifier::external_body]
pub(crate) fn unpack_token_data(data: &[u8]) -> (r: Option<TokenAccount>)
    ensures
        r is Some <==> is_token_account_data(data@),
        r is Some ==> r->0@ == token_view_of(data@),
{
    spl_token::state::Account::unpack(data).ok().map(
        |a| TokenAccount { mint: a.mint.to_bytes(), owner: a.owner.to_bytes(), amount: a.amount },
    )
}

/// Whether two addresses are equal.
pub fn same_key(a: &[u8; 32], b: &[u8; 32]) -> (r: bool)
    ensures
        r == (a@ == b@),
{
    let mut i: usize = 0;
    while i < KEY_LEN
        invariant
            0 <= i <= KEY_LEN,
            a@.len() == KEY_LEN,
            b@.len() == KEY_LEN,
            forall|j: int| 0 <= j < i ==> a@[j] == b@[j],
        decreases KEY_LEN - i,
    {
        if a[i] != b[i] {
            return false;
        }
        i = i + 1;
    }
    assert(a@ =~= b@);
    true
}

} // verus!
