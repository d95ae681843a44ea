//! The persisted pool record and its fixed binary layout.
use vstd::prelude::*;
use vstd::bytes::{
    lemma_auto_spec_u64_to_from_le_bytes, spec_u64_from_le_bytes, spec_u64_to_le_bytes,
    u64_from_le_bytes, u64_to_le_bytes,
};
use crate::error::AmmError;

verus! {

/// Length in bytes of a packed pool record.
pub const POOL_LEN: usize = 226;

/// Length in bytes of an address.
pub const KEY_LEN: usize = 32;

/// Lifecycle of a pool.
#[derive(Clone, Copy, Debug, PartialEq, Eq, Structural)]
pub enum PoolStatus {
    NotInit,
    Normal,
    Lock,
    Terminated,
}

/// The byte that stands for a status in a packed record.
pub open spec fn status_byte(s: PoolStatus) -> u8 {
    match s {
        PoolStatus::NotInit => 0,
        PoolStatus::Normal => 1,
        PoolStatus::Lock => 2,
        PoolStatus::Terminated => 3,
    }
}

/// The status that a byte of a packed record stands for, if any.
pub open spec fn status_of_byte(b: u8) -> Option<PoolStatus> {
    if b == 0 {
        Some(PoolStatus::NotInit)
    } else if b == 1 {
        Some(PoolStatus::Normal)
    } else if b == 2 {
        Some(PoolStatus::Lock)
    } else if b == 3 {
        Some(PoolStatus::Terminated)
    } else {
        None
    }
}

impl PoolStatus {
    pub fn to_byte(self) -> (r: u8)
        ensures
            r == status_byte(self),
    {
        match self {
            PoolStatus::NotInit => 0,
            PoolStatus::Normal => 1,
            PoolStatus::Lock => 2,
            PoolStatus::Terminated => 3,
        }
    }

    pub fn from_byte(b: u8) -> (r: Option<PoolStatus>)
        ensures
            r == status_of_byte(b),
    {
        match b {
            0 => Some(PoolStatus::NotInit),
            1 => Some(PoolStatus::Normal),
            2 => Some(PoolStatus::Lock),
            3 => Some(PoolStatus::Terminated),
            _ => None,
        }
    }
}

/// One pool: its status, the invariant checkpoint, its parameters and the
/// addresses it is bound to.
#[derive(Clone, Copy, Debug, PartialEq)]
pub struct AmmPool {
    pub status: PoolStatus,
    /// Nonce of the pool's derived signing address.
    pub nonce: u8,
    /// Reference reserve of asset A.
    pub ka: u64,
    /// Reference reserve of asset B.
    pub kb: u64,
    /// Largest allowed drift of the product invariant.
    pub tolerance: u64,
    /// Fee rate in parts per million of a swap's output.
    pub fee: u64,
    pub owner: [u8; 32],
    pub mint_a: [u8; 32],
    pub mint_b: [u8; 32],
    pub vault_a: [u8; 32],
    pub vault_b: [u8; 32],
    pub fee_vault: [u8; 32],
}

/// A pool record with its addresses as byte sequences.
pub struct PoolView {
    pub status: PoolStatus,
    pub nonce: u8,
    pub ka: u64,
    pub kb: u64,
    pub tolerance: u64,
    pub fee: u64,
    pub owner: Seq<u8>,
    pub mint_a: Seq<u8>,
    pub mint_b: Seq<u8>,
    pub vault_a: Seq<u8>,
    pub vault_b: Seq<u8>,
    pub fee_vault: Seq<u8>,
}

impl View for AmmPool {
    type V = PoolView;

    open spec fn view(&self) -> PoolView {
        PoolView {
            status: self.status,
            nonce: self.nonce,
            ka: self.ka,
            kb: self.kb,
            tolerance: self.tolerance,
            fee: self.fee,
            owner: self.owner@,
            mint_a: self.mint_a@,
            mint_b: self.mint_b@,
            vault_a: self.vault_a@,
            vault_b: self.vault_b@,
            fee_vault: self.fee_vault@,
        }
    }
}

/// Every address of the record is `KEY_LEN` bytes long.
pub open spec fn pool_view_wf(p: PoolView) -> bool {
    &&& p.owner.len() == KEY_LEN
    &&& p.mint_a.len() == KEY_LEN
    &&& p.mint_b.len() == KEY_LEN
    &&& p.vault_a.len() == KEY_LEN
    &&& p.vault_b.len() == KEY_LEN
    &&& p.fee_vault.len() == KEY_LEN
}

/// The packed record: status, nonce, ka, kb, tolerance, fee (integers little-endian),
/// then owner, mint_a, mint_b, vault_a, vault_b, fee_vault.
pub open spec fn encode_pool(p: PoolView) -> Seq<u8> {
    seq![status_byte(p.status), p.nonce] + spec_u64_to_le_bytes(p.ka) + spec_u64_to_le_bytes(p.kb)
        + spec_u64_to_le_bytes(p.tolerance) + spec_u64_to_le_bytes(p.fee) + p.owner + p.mint_a
        + p.mint_b + p.vault_a + p.vault_b + p.fee_vault
}

/// The record that `b` holds, if it has the record's length and a known status byte.
pub open spec fn decode_pool(b: Seq<u8>) -> Option<PoolView> {
    if b.len() == POOL_LEN && status_of_byte(b[0]) is Some {
        Some(
            PoolView {
                status: status_of_byte(b[0])->0,
                nonce: b[1],
                ka: spec_u64_from_le_bytes(b.subrange(2, 10)),
                kb: spec_u64_from_le_bytes(b.subrange(10, 18)),
                tolerance: spec_u64_from_le_bytes(b.subrange(18, 26)),
                fee: spec_u64_from_le_bytes(b.subrange(26, 34)),
                owner: b.subrange(34, 66),
                mint_a: b.subrange(66, 98),
                mint_b: b.subrange(98, 130),
                vault_a: b.subrange(130, 162),
                vault_b: b.subrange(162, 194),
                fee_vault: b.subrange(194, 226),
            },
        )
    } else {
        None
    }
}

/// Appends the bytes of `key` to `buf`.
fn push_key(buf: &mut Vec<u8>, key: &[u8; 32])
    ensures
        final(buf)@ == old(buf)@ + key@,
{
    let ghost start = buf@;
    let mut i: usize = 0;
    while i < KEY_LEN
        invariant
            0 <= i <= KEY_LEN,
            key@.len() == KEY_LEN,
            buf@ == start + key@.subrange(0, i as int),
        decreases KEY_LEN - i,
    {
        buf.push(key[i]);
        proof {
            assert(key@.subrange(0, i + 1) == key@.subrange(0, i as int).push(key@[i as int]));
        }
        i = i + 1;
    }
    assert(key@.subrange(0, KEY_LEN as int) == key@);
}

/// The address held in `src` from `off` on.
fn read_key(src: &[u8], off: usize) -> (r: [u8; 32])
    requires
        off + KEY_LEN <= src@.len(),
    ensures
        r@ == src@.subrange(off as int, off + KEY_LEN),
{
    let len = src.len();
    let mut r: [u8; 32] = [0u8; 32];
    let mut i: usize = 0;
    while i < KEY_LEN
        invariant
            0 <= i <= KEY_LEN,
            off + KEY_LEN <= src@.len(),
            len == src@.len(),
            r@.len() == KEY_LEN,
            forall|j: int| 0 <= j < i ==> r@[j] == src@[off + j],
        decreases KEY_LEN - i,
    {
        r[i] = src[off + i];
        i = i + 1;
    }
    assert(r@ =~= src@.subrange(off as int, off + KEY_LEN));
    r
}

/// The integer held little-endian in `src` from `off` on.
fn read_u64(src: &[u8], off: usize) -> (r: u64)
    requires
        off + 8 <= src@.len(),
    ensures
        r == spec_u64_from_le_bytes(src@.subrange(off as int, off + 8)),
{
    let len = src.len();
    assert(off + 8 <= len);
    let part = vstd::slice::slice_subrange(src, off, off + 8);
    u64_from_le_bytes(part)
}

impl AmmPool {
    /// The record packed into its fixed layout.
    pub fn pack(&self) -> (r: Vec<u8>)
        ensures
            r@ == encode_pool(self@),
            r@.len() == POOL_LEN,
    {
        let mut buf: Vec<u8> = Vec::new();
        buf.push(self.status.to_byte());
        buf.push(self.nonce);
        let mut v = u64_to_le_bytes(self.ka);
        buf.append(&mut v);
        let mut v = u64_to_le_bytes(self.kb);
        buf.append(&mut v);
        let mut v = u64_to_le_bytes(self.tolerance);
        buf.append(&mut v);
        let mut v = u64_to_le_bytes(self.fee);
        buf.append(&mut v);
        push_key(&mut buf, &self.owner);
        push_key(&mut buf, &self.mint_a);
        push_key(&mut buf, &self.mint_b);
        push_key(&mut buf, &self.vault_a);
        push_key(&mut buf, &self.vault_b);
        push_key(&mut buf, &self.fee_vault);
        proof {
            lemma_auto_spec_u64_to_from_le_bytes();
            assert(buf@ =~= encode_pool(self@));
        }
        buf
    }

    /// Packs the record into the first `POOL_LEN` bytes of `dst`.
    pub fn pack_into_slice(&self, dst: &mut [u8])
        requires
            old(dst)@.len() >= POOL_LEN,
        ensures
            final(dst)@ == encode_pool(self@) + old(dst)@.subrange(
                POOL_LEN as int,
                old(dst)@.len() as int,
            ),
    {
        let buf = self.pack();
        let mut i: usize = 0;
        while i < POOL_LEN
            invariant
                0 <= i <= POOL_LEN,
                buf@.len() == POOL_LEN,
                dst@.len() == old(dst)@.len(),
                old(dst)@.len() >= POOL_LEN,
                forall|j: int| 0 <= j < i ==> dst@[j] == buf@[j],
                forall|j: int| POOL_LEN <= j < dst@.len() ==> dst@[j] == old(dst)@[j],
            decreases POOL_LEN - i,
        {
            dst[i] = buf[i];
            i = i + 1;
        }
        assert(dst@ =~= buf@ + old(dst)@.subrange(POOL_LEN as int, old(dst)@.len() as int));
    }

    /// Reads a packed record. Fails with `InvalidAccountData` unless `src` is
    /// `POOL_LEN` bytes long and its status byte is known.
    pub fn unpack_from_slice(src: &[u8]) -> (r: Result<AmmPool, AmmError>)
        ensures
            r is Ok <==> decode_pool(src@) is Some,
            r is Ok ==> decode_pool(src@) == Some(r->Ok_0@),
            r is Err ==> r->Err_0 == AmmError::InvalidAccountData,
    {
        if src.len() != POOL_LEN {
            return Err(AmmError::InvalidAccountData);
        }
        let status = match PoolStatus::from_byte(src[0]) {
            Some(s) => s,
            None => {
                return Err(AmmError::InvalidAccountData);
            },
        };
        let pool = AmmPool {
            status,
            nonce: src[1],
            ka: read_u64(src, 2),
            kb: read_u64(src, 10),
            tolerance: read_u64(src, 18),
            fee: read_u64(src, 26),
            owner: read_key(src, 34),
            mint_a: read_key(src, 66),
            mint_b: read_key(src, 98),
            vault_a: read_key(src, 130),
            vault_b: read_key(src, 162),
            fee_vault: read_key(src, 194),
        };
        Ok(pool)
    }
}

/// Packing a record and reading it back gives the same record.
pub proof fn lemma_pool_round_trip(p: AmmPool)
    ensures
        decode_pool(encode_pool(p@)) == Some(p@),
{
    lemma_auto_spec_u64_to_from_le_bytes();
    let b = encode_pool(p@);
    assert(b.subrange(2, 10) =~= spec_u64_to_le_bytes(p.ka));
    assert(b.subrange(10, 18) =~= spec_u64_to_le_bytes(p.kb));
    assert(b.subrange(18, 26) =~= spec_u64_to_le_bytes(p.tolerance));
    assert(b.subrange(26, 34) =~= spec_u64_to_le_bytes(p.fee));
    assert(b.subrange(34, 66) =~= p.owner@);
    assert(b.subrange(66, 98) =~= p.mint_a@);
    assert(b.subrange(98, 130) =~= p.mint_b@);
    assert(b.subrange(130, 162) =~= p.vault_a@);
    assert(b.subrange(162, 194) =~= p.vault_b@);
    assert(b.subrange(194, 226) =~= p.fee_vault@);
    assert(status_of_byte(status_byte(p.status)) == Some(p.status));
}

/// Reading a valid packed record and packing it again gives the same bytes.
pub proof fn lemma_pool_bytes_round_trip(b: Seq<u8>)
    requires
        decode_pool(b) is Some,
    ensures
        encode_pool(decode_pool(b)->0) == b,
{
    lemma_auto_spec_u64_to_from_le_bytes();
    let p = decode_pool(b)->0;
    assert(status_byte(p.status) == b[0]);
    assert(encode_pool(p) =~= b);
}

} // verus!
