//! Market and user account records and their fixed byte layout.
use vstd::prelude::*;
use crate::codec::{copy_prefix, le_at, le_bytes, lemma_le_bytes_value, lemma_le_value_bound, lemma_pow256_values, push_bytes, push_le, read_bytes, read_key, read_le};
use crate::error::DexError;

verus! {

/// Discriminant stored in the first eight bytes of every record.
#[derive(Clone, Copy, Debug, PartialEq, Eq, Structural)]
pub enum AccountTag {
    Uninitialized,
    DexState,
    UserAccount,
    Closed,
}

impl AccountTag {
    /// The number that stands for the tag in a buffer.
    pub open spec fn value(self) -> u64 {
        match self {
            AccountTag::Uninitialized => 0,
            AccountTag::DexState => 1,
            AccountTag::UserAccount => 2,
            AccountTag::Closed => 3,
        }
    }

    /// The number that stands for the tag in a buffer.
    pub fn to_u64(self) -> (r: u64)
        ensures
            r == self.value(),
    {
        match self {
            AccountTag::Uninitialized => 0,
            AccountTag::DexState => 1,
            AccountTag::UserAccount => 2,
            AccountTag::Closed => 3,
        }
    }
}

/// The side of an order.
#[derive(Clone, Copy, Debug, PartialEq, Eq, Structural)]
pub enum Side {
    Bid,
    Ask,
}

/// How a match between two orders of the same user is handled.
#[derive(Clone, Copy, Debug, PartialEq, Eq, Structural)]
pub enum SelfTradeBehavior {
    /// Both sides are decremented as in a normal match, without fees.
    DecrementTake,
    /// The maker side is cancelled.
    CancelProvide,
    /// The whole transaction is aborted.
    AbortTransaction,
}

/// A 32-byte account address.
#[derive(Clone, Copy, Debug, PartialEq, Eq)]
pub struct Pubkey {
    pub bytes: [u8; 32],
}

impl View for Pubkey {
    type V = Seq<u8>;

    open spec fn view(&self) -> Seq<u8> {
        self.bytes@
    }
}

impl Pubkey {
    /// Whether two addresses hold the same bytes.
    pub fn equals(&self, other: &Pubkey) -> (r: bool)
        ensures
            r == (self@ == other@),
    {
        let mut i: usize = 0;
        while i < 32
            invariant
                0 <= i <= 32,
                self@.len() == 32,
                other@.len() == 32,
                forall|j: int| 0 <= j < i ==> self@[j] == other@[j],
            decreases 32 - i,
        {
            if self.bytes[i] != other.bytes[i] {
                return false;
            }
            i = i + 1;
        }
        assert(self@ =~= other@);
        true
    }
}

/// Mint of the governance token whose holdings give the `Srm2` to `Srm6` tiers.
pub const SRM_MINT: [u8; 32] = [
    6, 131, 16, 134, 26, 152, 50, 125, 5, 80, 87, 77, 132, 65, 138, 166,
    225, 12, 51, 82, 221, 170, 127, 215, 245, 129, 82, 204, 238, 178, 56, 135,
];

/// Mint of the token whose holding gives the `MSrm` tier.
pub const MSRM_MINT: [u8; 32] = [
    5, 60, 91, 203, 210, 103, 82, 19, 118, 41, 168, 211, 132, 128, 50, 62,
    59, 72, 20, 45, 46, 53, 104, 115, 98, 211, 213, 222, 124, 102, 61, 83,
];

/// The market state record.
#[derive(Clone, Copy, Debug)]
pub struct DexState {
    /// Verifies and versions the record: `AccountTag::DexState`.
    pub tag: u64,
    /// Mint of the base token.
    pub base_mint: Pubkey,
    /// Mint of the quote token.
    pub quote_mint: Pubkey,
    /// Token account holding the market's base tokens.
    pub base_vault: Pubkey,
    /// Token account holding the market's quote tokens.
    pub quote_vault: Pubkey,
    /// The orderbook address.
    pub orderbook: Pubkey,
    /// The admin, who can collect the fees.
    pub admin: Pubkey,
    /// Creation time on the runtime clock.
    pub creation_timestamp: i64,
    /// Historical volume in base token.
    pub base_volume: u64,
    /// Historical volume in quote token.
    pub quote_volume: u64,
    /// Fees available for extraction by the admin.
    pub accumulated_fees: u64,
    /// Smallest order size in base token.
    pub min_base_order_size: u64,
    /// Royalties in basis points.
    pub royalties_bps: u64,
    /// Royalties accumulated so far.
    pub accumulated_royalties: u64,
    /// Base currency multiplier.
    pub base_currency_multiplier: u64,
    /// Quote currency multiplier.
    pub quote_currency_multiplier: u64,
    /// Nonce with which the market signs.
    pub signer_nonce: u8,
    /// Fee type: 0 for default, 1 for stable.
    pub fee_type: u8,
    /// Padding.
    pub _padding: [u8; 6],
}

/// Length in bytes of the market state record.
pub const DEX_STATE_LEN: usize = 280;

/// The 64 bits that hold `t` in two's complement, as an unsigned number.
pub open spec fn i64_bits(t: i64) -> nat {
    if t >= 0 {
        t as nat
    } else {
        (t + 0x1_0000_0000_0000_0000) as nat
    }
}

/// The 64 bits that hold `t` in two's complement.
fn timestamp_bits(t: i64) -> (r: u64)
    ensures
        r == i64_bits(t),
{
    if t >= 0 {
        t as u64
    } else {
        (t as i128 + 0x1_0000_0000_0000_0000) as u64
    }
}

/// The signed number whose two's complement bits are `v`.
fn timestamp_from_bits(v: u64) -> (r: i64)
    ensures
        i64_bits(r) == v,
{
    if v <= i64::MAX as u64 {
        v as i64
    } else {
        (v as i128 - 0x1_0000_0000_0000_0000) as i64
    }
}

/// Whether a market state buffer is accepted: its tag must say market state.
pub open spec fn dex_state_status(s: Seq<u8>) -> Result<(), DexError> {
    if le_at(s, 0, 8) != AccountTag::DexState.value() {
        Err(DexError::InvalidAccountData)
    } else {
        Ok(())
    }
}

/// The record read back from a buffer that starts with the bytes of `d` is
/// `d`.
pub proof fn lemma_dex_state_round_trip(d: DexState, s: Seq<u8>)
    requires
        s.len() >= DEX_STATE_LEN,
        s.subrange(0, DEX_STATE_LEN as int) == d.to_bytes_spec(),
    ensures
        d.read_from(s),
{
    lemma_pow256_values();
    let b = d.to_bytes_spec();
    assert forall|k: int| 0 <= k < 280 implies s[k] == b[k] by {
        assert(s.subrange(0, 280)[k] == s[k]);
    }
    assert(s.subrange(0, 8) =~= le_bytes(d.tag as nat, 8));
    lemma_le_bytes_value(d.tag as nat, 8);
    assert(s.subrange(208, 216) =~= le_bytes(d.base_volume as nat, 8));
    lemma_le_bytes_value(d.base_volume as nat, 8);
    assert(s.subrange(216, 224) =~= le_bytes(d.quote_volume as nat, 8));
    lemma_le_bytes_value(d.quote_volume as nat, 8);
    assert(s.subrange(224, 232) =~= le_bytes(d.accumulated_fees as nat, 8));
    lemma_le_bytes_value(d.accumulated_fees as nat, 8);
    assert(s.subrange(232, 240) =~= le_bytes(d.min_base_order_size as nat, 8));
    lemma_le_bytes_value(d.min_base_order_size as nat, 8);
    assert(s.subrange(240, 248) =~= le_bytes(d.royalties_bps as nat, 8));
    lemma_le_bytes_value(d.royalties_bps as nat, 8);
    assert(s.subrange(248, 256) =~= le_bytes(d.accumulated_royalties as nat, 8));
    lemma_le_bytes_value(d.accumulated_royalties as nat, 8);
    assert(s.subrange(256, 264) =~= le_bytes(d.base_currency_multiplier as nat, 8));
    lemma_le_bytes_value(d.base_currency_multiplier as nat, 8);
    assert(s.subrange(264, 272) =~= le_bytes(d.quote_currency_multiplier as nat, 8));
    lemma_le_bytes_value(d.quote_currency_multiplier as nat, 8);
    assert(s.subrange(272, 273) =~= le_bytes(d.signer_nonce as nat, 1));
    lemma_le_bytes_value(d.signer_nonce as nat, 1);
    assert(s.subrange(273, 274) =~= le_bytes(d.fee_type as nat, 1));
    lemma_le_bytes_value(d.fee_type as nat, 1);
    assert(s.subrange(8, 40) =~= d.base_mint@);
    assert(s.subrange(40, 72) =~= d.quote_mint@);
    assert(s.subrange(72, 104) =~= d.base_vault@);
    assert(s.subrange(104, 136) =~= d.quote_vault@);
    assert(s.subrange(136, 168) =~= d.orderbook@);
    assert(s.subrange(168, 200) =~= d.admin@);
    assert(s.subrange(200, 208) =~= le_bytes(i64_bits(d.creation_timestamp), 8));
    lemma_le_bytes_value(i64_bits(d.creation_timestamp), 8);
    assert(s.subrange(274, 280) =~= d._padding@);
}

/// A buffer that starts with the bytes of a market state record tagged as
/// such is accepted as market state.
pub proof fn lemma_tagged_dex_state_accepted(d: DexState, s: Seq<u8>)
    requires
        s.len() >= DEX_STATE_LEN,
        s.subrange(0, DEX_STATE_LEN as int) == d.to_bytes_spec(),
        d.tag == AccountTag::DexState.value(),
    ensures
        dex_state_status(s) is Ok,
{
    let b = d.to_bytes_spec();
    assert(s.subrange(0, 8) =~= b.subrange(0, 8));
    assert(b.subrange(0, 8) =~= le_bytes(d.tag as nat, 8));
    lemma_pow256_values();
    lemma_le_bytes_value(d.tag as nat, 8);
}

/// A buffer whose tag is not the market state tag is refused with
/// `InvalidAccountData`.
pub proof fn lemma_other_tag_refused_as_dex_state(s: Seq<u8>)
    requires
        le_at(s, 0, 8) != AccountTag::DexState.value(),
    ensures
        dex_state_status(s) == Err::<(), DexError>(DexError::InvalidAccountData),
{
}

impl DexState {
    /// The bytes of the record, in layout order.
    pub open spec fn to_bytes_spec(self) -> Seq<u8> {
        le_bytes(self.tag as nat, 8)
            + self.base_mint@
            + self.quote_mint@
            + self.base_vault@
            + self.quote_vault@
            + self.orderbook@
            + self.admin@
            + le_bytes(i64_bits(self.creation_timestamp), 8)
            + le_bytes(self.base_volume as nat, 8)
            + le_bytes(self.quote_volume as nat, 8)
            + le_bytes(self.accumulated_fees as nat, 8)
            + le_bytes(self.min_base_order_size as nat, 8)
            + le_bytes(self.royalties_bps as nat, 8)
            + le_bytes(self.accumulated_royalties as nat, 8)
            + le_bytes(self.base_currency_multiplier as nat, 8)
            + le_bytes(self.quote_currency_multiplier as nat, 8)
            + le_bytes(self.signer_nonce as nat, 1)
            + le_bytes(self.fee_type as nat, 1)
            + self._padding@
    }

    /// The record's fields are the ones that the first bytes of `s` hold.
    pub open spec fn read_from(self, s: Seq<u8>) -> bool {
        &&& self.tag == le_at(s, 0, 8)
        &&& self.base_volume == le_at(s, 208, 8)
        &&& self.quote_volume == le_at(s, 216, 8)
        &&& self.accumulated_fees == le_at(s, 224, 8)
        &&& self.min_base_order_size == le_at(s, 232, 8)
        &&& self.royalties_bps == le_at(s, 240, 8)
        &&& self.accumulated_royalties == le_at(s, 248, 8)
        &&& self.base_currency_multiplier == le_at(s, 256, 8)
        &&& self.quote_currency_multiplier == le_at(s, 264, 8)
        &&& self.signer_nonce == le_at(s, 272, 1)
        &&& self.fee_type == le_at(s, 273, 1)
        &&& self.base_mint@ == s.subrange(8, 40)
        &&& self.quote_mint@ == s.subrange(40, 72)
        &&& self.base_vault@ == s.subrange(72, 104)
        &&& self.quote_vault@ == s.subrange(104, 136)
        &&& self.orderbook@ == s.subrange(136, 168)
        &&& self.admin@ == s.subrange(168, 200)
        &&& i64_bits(self.creation_timestamp) == le_at(s, 200, 8)
        &&& self._padding@ == s.subrange(274, 280)
    }

    /// Reads the market state that the first bytes of `buf` hold, whatever
    /// its tag, for a buffer that is being initialized.
    pub fn get_unchecked(buf: &[u8]) -> (r: DexState)
        requires
            buf@.len() >= DEX_STATE_LEN,
        ensures
            r.read_from(buf@),
    {
        let tag = read_le(buf, 0, 8);
        let base_volume = read_le(buf, 208, 8);
        let quote_volume = read_le(buf, 216, 8);
        let accumulated_fees = read_le(buf, 224, 8);
        let min_base_order_size = read_le(buf, 232, 8);
        let royalties_bps = read_le(buf, 240, 8);
        let accumulated_royalties = read_le(buf, 248, 8);
        let base_currency_multiplier = read_le(buf, 256, 8);
        let quote_currency_multiplier = read_le(buf, 264, 8);
        let signer_nonce = read_le(buf, 272, 1);
        let fee_type = read_le(buf, 273, 1);
        let base_mint = Pubkey { bytes: read_key(buf, 8) };
        let quote_mint = Pubkey { bytes: read_key(buf, 40) };
        let base_vault = Pubkey { bytes: read_key(buf, 72) };
        let quote_vault = Pubkey { bytes: read_key(buf, 104) };
        let orderbook = Pubkey { bytes: read_key(buf, 136) };
        let admin = Pubkey { bytes: read_key(buf, 168) };
        let creation_timestamp = timestamp_from_bits(read_le(buf, 200, 8) as u64);
        let mut _padding: [u8; 6] = [0u8; 6];
        read_bytes(buf, 274, &mut _padding);
        proof {
            lemma_pow256_values();
            lemma_le_value_bound(buf@.subrange(200, 208));
            lemma_le_value_bound(buf@.subrange(0, 8));
            lemma_le_value_bound(buf@.subrange(208, 216));
            lemma_le_value_bound(buf@.subrange(216, 224));
            lemma_le_value_bound(buf@.subrange(224, 232));
            lemma_le_value_bound(buf@.subrange(232, 240));
            lemma_le_value_bound(buf@.subrange(240, 248));
            lemma_le_value_bound(buf@.subrange(248, 256));
            lemma_le_value_bound(buf@.subrange(256, 264));
            lemma_le_value_bound(buf@.subrange(264, 272));
            lemma_le_value_bound(buf@.subrange(272, 273));
            lemma_le_value_bound(buf@.subrange(273, 274));
        }
        DexState {
            tag: tag as u64,
            base_volume: base_volume as u64,
            quote_volume: quote_volume as u64,
            accumulated_fees: accumulated_fees as u64,
            min_base_order_size: min_base_order_size as u64,
            royalties_bps: royalties_bps as u64,
            accumulated_royalties: accumulated_royalties as u64,
            base_currency_multiplier: base_currency_multiplier as u64,
            quote_currency_multiplier: quote_currency_multiplier as u64,
            signer_nonce: signer_nonce as u8,
            fee_type: fee_type as u8,
            base_mint,
            quote_mint,
            base_vault,
            quote_vault,
            orderbook,
            admin,
            creation_timestamp,
            _padding,
        }
    }

    /// Reads the market state that the first bytes of `buf` hold; refused
    /// with `InvalidAccountData` when the tag does not say market state.
    pub fn get(buf: &[u8]) -> (r: Result<DexState, DexError>)
        requires
            buf@.len() >= DEX_STATE_LEN,
        ensures
            r is Ok <==> dex_state_status(buf@) is Ok,
            r is Err ==> r == Err::<DexState, DexError>(DexError::InvalidAccountData),
            r matches Ok(d) ==> d.read_from(buf@),
    {
        let a = DexState::get_unchecked(buf);
        if a.tag != AccountTag::DexState.to_u64() {
            return Err(DexError::InvalidAccountData);
        }
        Ok(a)
    }

    /// The bytes of the record, in layout order.
    pub fn to_bytes(&self) -> (r: Vec<u8>)
        ensures
            r@ == self.to_bytes_spec(),
    {
        let mut out: Vec<u8> = Vec::new();
        push_le(&mut out, self.tag as u128, 8);
        proof {
            assert(out@ =~= le_bytes(self.tag as nat, 8));
        }
        push_bytes(&mut out, self.base_mint.bytes.as_slice());
        push_bytes(&mut out, self.quote_mint.bytes.as_slice());
        push_bytes(&mut out, self.base_vault.bytes.as_slice());
        push_bytes(&mut out, self.quote_vault.bytes.as_slice());
        push_bytes(&mut out, self.orderbook.bytes.as_slice());
        push_bytes(&mut out, self.admin.bytes.as_slice());
        push_le(&mut out, timestamp_bits(self.creation_timestamp) as u128, 8);
        push_le(&mut out, self.base_volume as u128, 8);
        push_le(&mut out, self.quote_volume as u128, 8);
        push_le(&mut out, self.accumulated_fees as u128, 8);
        push_le(&mut out, self.min_base_order_size as u128, 8);
        push_le(&mut out, self.royalties_bps as u128, 8);
        push_le(&mut out, self.accumulated_royalties as u128, 8);
        push_le(&mut out, self.base_currency_multiplier as u128, 8);
        push_le(&mut out, self.quote_currency_multiplier as u128, 8);
        push_le(&mut out, self.signer_nonce as u128, 1);
        push_le(&mut out, self.fee_type as u128, 1);
        push_bytes(&mut out, self._padding.as_slice());
        out
    }

    /// Writes the record over the first bytes of `buf`; the rest of `buf`
    /// stays as it is.
    pub fn write_to_buffer(&self, buf: &mut [u8])
        requires
            old(buf)@.len() >= DEX_STATE_LEN,
        ensures
            final(buf)@ == self.to_bytes_spec() + old(buf)@.subrange(
                DEX_STATE_LEN as int,
                old(buf)@.len() as int,
            ),
    {
        let out = self.to_bytes();
        copy_prefix(buf, &out);
    }
}

} // verus!
