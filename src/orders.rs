//! The user account: a header and a fixed number of order slots, of which a
//! prefix is active.
use vstd::prelude::*;
use crate::codec::{pow256, lemma_le_bytes_value, le_at, le_bytes, push_bytes, push_le, read_key, read_le, copy_prefix, lemma_pow256_values, lemma_le_value_bound};
use crate::error::DexError;
use crate::state::{AccountTag, Pubkey};

verus! {

/// An order held by a user account: the protocol's order id and the id that
/// the client chose for it.
#[derive(Clone, Copy, Debug, PartialEq, Eq, Structural)]
pub struct Order {
    /// The order id.
    pub id: u128,
    /// The client-defined order id.
    pub client_id: u128,
}

/// Length in bytes of an order record.
pub const ORDER_LEN: usize = 32;

impl Order {
    /// Length in bytes of an order record.
    pub const LEN: usize = 32;
}

/// The key of `o` that a lookup goes by: its client id or its order id.
pub open spec fn order_key(o: Order, by_client: bool) -> u128 {
    if by_client {
        o.client_id
    } else {
        o.id
    }
}

/// Index of the first order of `s` whose key is `key`; `s.len()` when none is.
pub open spec fn first_with_key(s: Seq<Order>, key: u128, by_client: bool) -> nat
    decreases s.len(),
{
    if s.len() == 0 {
        0
    } else if order_key(s[0], by_client) == key {
        0
    } else {
        1 + first_with_key(s.drop_first(), key, by_client)
    }
}

/// No two orders of `s` share an order id.
pub open spec fn unique_ids(s: Seq<Order>) -> bool {
    forall|a: int, b: int| 0 <= a < s.len() && 0 <= b < s.len() && a != b ==> s[a].id != s[b].id
}

/// Where a scan finds nothing before `i` and a match at `i` (or reaches the
/// end), the first match is at `i`.
pub proof fn lemma_first_with_key(s: Seq<Order>, key: u128, by_client: bool, i: int)
    requires
        0 <= i <= s.len(),
        forall|j: int| 0 <= j < i ==> order_key(s[j], by_client) != key,
        i < s.len() ==> order_key(s[i], by_client) == key,
    ensures
        first_with_key(s, key, by_client) == i,
    decreases i,
{
    if i > 0 {
        let t = s.drop_first();
        assert forall|j: int| 0 <= j < i - 1 implies order_key(t[j], by_client) != key by {
            assert(t[j] == s[j + 1]);
        }
        lemma_first_with_key(t, key, by_client, i - 1);
    }
}

/// The first match is a match, and no order before it matches.
pub proof fn lemma_first_with_key_found(s: Seq<Order>, key: u128, by_client: bool)
    ensures
        first_with_key(s, key, by_client) <= s.len(),
        first_with_key(s, key, by_client) < s.len() ==> order_key(
            s[first_with_key(s, key, by_client) as int],
            by_client,
        ) == key,
        forall|j: int|
            0 <= j < first_with_key(s, key, by_client) ==> order_key(s[j], by_client) != key,
    decreases s.len(),
{
    if s.len() > 0 && order_key(s[0], by_client) != key {
        let t = s.drop_first();
        lemma_first_with_key_found(t, key, by_client);
        assert forall|j: int|
            0 <= j < first_with_key(s, key, by_client) implies order_key(s[j], by_client)
            != key by {
            if j > 0 {
                assert(s[j] == t[j - 1]);
            }
        }
    }
}

/// The order held by the 32 bytes at `start` of `s`.
pub open spec fn order_at(s: Seq<u8>, start: int) -> Order {
    Order { id: le_at(s, start, 16) as u128, client_id: le_at(s, start + 16, 16) as u128 }
}

/// Number of order slots that a buffer of `len` bytes holds after the header.
pub open spec fn slot_count(len: nat) -> nat {
    ((len - USER_ACCOUNT_HEADER_LEN) / ORDER_LEN as int) as nat
}

/// The order slots that a user account buffer holds after its header.
pub open spec fn slots_in(s: Seq<u8>) -> Seq<Order> {
    Seq::new(
        slot_count(s.len()),
        |k: int| order_at(s, USER_ACCOUNT_HEADER_LEN + ORDER_LEN * k),
    )
}

/// A buffer that can hold a user account: a header followed by whole order
/// records, no more than the order count field can number.
pub open spec fn user_account_layout(len: nat) -> bool {
    &&& len >= USER_ACCOUNT_HEADER_LEN
    &&& (len - USER_ACCOUNT_HEADER_LEN) % ORDER_LEN as int == 0
    &&& slot_count(len) <= u32::MAX
}

/// Whether a user account buffer is accepted: its tag (when `check_tag`)
/// must say user account, and its order count must fit its slots.
pub open spec fn user_account_status(s: Seq<u8>, check_tag: bool) -> Result<(), DexError> {
    if check_tag && le_at(s, 0, 8) != AccountTag::UserAccount.value() {
        Err(DexError::InvalidAccountData)
    } else if le_at(s, 148, 4) > slot_count(s.len()) {
        Err(DexError::InvalidAccountData)
    } else {
        Ok(())
    }
}

/// The bytes of an order record.
pub open spec fn order_bytes(o: Order) -> Seq<u8> {
    le_bytes(o.id as nat, 16) + le_bytes(o.client_id as nat, 16)
}

/// The bytes of a run of order records.
pub open spec fn orders_bytes(s: Seq<Order>) -> Seq<u8>
    decreases s.len(),
{
    if s.len() == 0 {
        Seq::empty()
    } else {
        orders_bytes(s.drop_last()) + order_bytes(s.last())
    }
}

/// A run of `n` order records takes `32 * n` bytes.
pub proof fn lemma_orders_bytes_len(s: Seq<Order>)
    ensures
        orders_bytes(s).len() == ORDER_LEN * s.len(),
    decreases s.len(),
{
    if s.len() > 0 {
        lemma_orders_bytes_len(s.drop_last());
    }
}

/// Reads the orders that `buf` holds after its header.
fn read_slots(buf: &[u8]) -> (r: Vec<Order>)
    requires
        user_account_layout(buf@.len()),
    ensures
        r@ == slots_in(buf@),
{
    let buf_len = buf.len();
    let count = (buf_len - USER_ACCOUNT_HEADER_LEN) / ORDER_LEN;
    let mut v: Vec<Order> = Vec::new();
    let mut k: usize = 0;
    proof {
        lemma_pow256_values();
    }
    while k < count
        invariant
            user_account_layout(buf@.len()),
            buf@.len() == buf_len,
            count == slot_count(buf@.len()),
            k <= count,
            v@.len() == k,
            forall|j: int| 0 <= j < k ==> v@[j] == slots_in(buf@)[j],
            pow256(16) == 0x1_0000_0000_0000_0000_0000_0000_0000_0000,
        decreases count - k,
    {
        assert(152 + 32 * k + 32 <= buf_len) by (nonlinear_arith)
            requires
                k < count,
                count == (buf_len - 152) / 32,
                buf_len >= 152,
        ;
        let start = USER_ACCOUNT_HEADER_LEN + ORDER_LEN * k;
        let id = read_le(buf, start, 16);
        let client_id = read_le(buf, start + 16, 16);
        v.push(Order { id, client_id });
        k = k + 1;
    }
    assert(v@ =~= slots_in(buf@));
    v
}

/// The slots and the order count after one `add_order(o)` on an account
/// with slots `slots` and `n` active orders.
pub open spec fn add_model(slots: Seq<Order>, n: nat, o: Order) -> (Seq<Order>, nat) {
    if n < slots.len() {
        (slots.update(n as int, o), n + 1)
    } else {
        (slots, n)
    }
}

/// The slots and the order count after adding each order of `os` in turn.
pub open spec fn adds_model(slots: Seq<Order>, n: nat, os: Seq<Order>) -> (Seq<Order>, nat)
    decreases os.len(),
{
    if os.len() == 0 {
        (slots, n)
    } else {
        let prev = adds_model(slots, n, os.drop_last());
        add_model(prev.0, prev.1, os.last())
    }
}

/// Adding up to `slots.len()` orders to an empty account fills the first
/// slots with them, in order.
proof fn lemma_adds_fill(slots: Seq<Order>, os: Seq<Order>)
    requires
        os.len() <= slots.len(),
    ensures
        adds_model(slots, 0, os).1 == os.len(),
        adds_model(slots, 0, os).0.len() == slots.len(),
        adds_model(slots, 0, os).0.subrange(0, os.len() as int) == os,
    decreases os.len(),
{
    if os.len() > 0 {
        let init = os.drop_last();
        lemma_adds_fill(slots, init);
        let prev = adds_model(slots, 0, init);
        let k = init.len();
        assert(prev.0.update(k as int, os.last()).subrange(0, os.len() as int) =~= os) by {
            assert forall|j: int| 0 <= j < k implies prev.0[j] == os[j] by {
                assert(prev.0.subrange(0, k as int)[j] == prev.0[j]);
            }
        }
    }
}

/// On an empty account with `c` slots, adding `c` orders one after another
/// finds a free slot each time; afterwards the count is `c` and slot `k`
/// holds the `k`-th order added. The next add finds no free slot and leaves
/// slots and count as they are.
pub proof fn lemma_fill_to_capacity(slots: Seq<Order>, os: Seq<Order>, next: Order)
    requires
        os.len() == slots.len(),
    ensures
        forall|k: int|
            0 <= k < os.len() ==> #[trigger] adds_model(slots, 0, os.subrange(0, k)).1 == k
                && k < slots.len(),
        adds_model(slots, 0, os).1 == slots.len(),
        adds_model(slots, 0, os).0 == os,
        add_model(adds_model(slots, 0, os).0, adds_model(slots, 0, os).1, next) == adds_model(
            slots,
            0,
            os,
        ),
{
    assert forall|k: int| 0 <= k < os.len() implies #[trigger] adds_model(
        slots,
        0,
        os.subrange(0, k),
    ).1 == k && k < slots.len() by {
        lemma_adds_fill(slots, os.subrange(0, k));
    }
    lemma_adds_fill(slots, os);
    assert(adds_model(slots, 0, os).0 =~= adds_model(slots, 0, os).0.subrange(0, os.len() as int));
}

/// After `add_order(o)` on an account with a free slot and no active order
/// with the id of `o`, looking that id up gives the new slot, and that slot
/// holds `o`.
pub proof fn lemma_add_then_find(slots: Seq<Order>, n: nat, o: Order)
    requires
        n < slots.len(),
        forall|j: int| 0 <= j < n ==> slots[j].id != o.id,
    ensures
        first_with_key(slots.update(n as int, o).subrange(0, n as int + 1), o.id, false) == n,
        slots.update(n as int, o)[n as int] == o,
{
    let act = slots.update(n as int, o).subrange(0, n as int + 1);
    assert forall|j: int| 0 <= j < n implies order_key(act[j], false) != o.id by {
        assert(act[j] == slots[j]);
    }
    lemma_first_with_key(act, o.id, false, n as int);
}

/// After `remove_order(i)` on an account whose `n` active orders have
/// distinct ids, every other active order is still found by its id (the last
/// one now in slot `i`), and the removed id is found no more.
pub proof fn lemma_remove_keeps_others(slots: Seq<Order>, n: nat, i: nat)
    requires
        i < n <= slots.len(),
        unique_ids(slots.subrange(0, n as int)),
    ensures
        forall|j: int|
            0 <= j < n && j != i ==> {
                let act = slots.update(i as int, slots[n - 1]).subrange(0, n - 1);
                let k = first_with_key(act, #[trigger] slots[j].id, false);
                k < n - 1 && act[k as int] == slots[j]
            },
        first_with_key(
            slots.update(i as int, slots[n - 1]).subrange(0, n - 1),
            slots[i as int].id,
            false,
        ) == n - 1,
{
    let act = slots.update(i as int, slots[n - 1]).subrange(0, n - 1);
    let before = slots.subrange(0, n as int);
    assert forall|j: int| 0 <= j < n && j != i implies {
        let k = first_with_key(act, #[trigger] slots[j].id, false);
        k < n - 1 && act[k as int] == slots[j]
    } by {
        let p: int = if j == n - 1 {
            i as int
        } else {
            j
        };
        assert(act[p] == slots[j]);
        assert forall|q: int| 0 <= q < p implies order_key(act[q], false) != slots[j].id by {
            assert(before[q] == slots[q]);
            assert(before[j] == slots[j]);
            assert(before[n - 1] == slots[n - 1]);
            if q == i {
                assert(act[q] == slots[n - 1]);
            } else {
                assert(act[q] == slots[q]);
            }
        }
        lemma_first_with_key(act, slots[j].id, false, p);
    }
    assert forall|q: int| 0 <= q < n - 1 implies order_key(act[q], false)
        != slots[i as int].id by {
        assert(before[i as int] == slots[i as int]);
        assert(before[n - 1] == slots[n - 1]);
        assert(before[q] == slots[q]);
    }
    lemma_first_with_key(act, slots[i as int].id, false, n - 1);
}

/// The header read back from a buffer that starts with the bytes of `h` is
/// `h`.
pub proof fn lemma_header_round_trip(h: UserAccountHeader, s: Seq<u8>)
    requires
        s.len() >= USER_ACCOUNT_HEADER_LEN,
        s.subrange(0, USER_ACCOUNT_HEADER_LEN as int) == h.to_bytes_spec(),
    ensures
        h.read_from(s),
{
    lemma_pow256_values();
    let b = h.to_bytes_spec();
    assert forall|k: int| 0 <= k < 152 implies s[k] == b[k] by {
        assert(s.subrange(0, 152)[k] == s[k]);
    }
    assert(s.subrange(0, 8) =~= le_bytes(h.tag as nat, 8));
    lemma_le_bytes_value(h.tag as nat, 8);
    assert(s.subrange(72, 80) =~= le_bytes(h.base_token_free as nat, 8));
    lemma_le_bytes_value(h.base_token_free as nat, 8);
    assert(s.subrange(80, 88) =~= le_bytes(h.base_token_locked as nat, 8));
    lemma_le_bytes_value(h.base_token_locked as nat, 8);
    assert(s.subrange(88, 96) =~= le_bytes(h.quote_token_free as nat, 8));
    lemma_le_bytes_value(h.quote_token_free as nat, 8);
    assert(s.subrange(96, 104) =~= le_bytes(h.quote_token_locked as nat, 8));
    lemma_le_bytes_value(h.quote_token_locked as nat, 8);
    assert(s.subrange(104, 112) =~= le_bytes(h.accumulated_rebates as nat, 8));
    lemma_le_bytes_value(h.accumulated_rebates as nat, 8);
    assert(s.subrange(112, 120) =~= le_bytes(h.accumulated_maker_quote_volume as nat, 8));
    lemma_le_bytes_value(h.accumulated_maker_quote_volume as nat, 8);
    assert(s.subrange(120, 128) =~= le_bytes(h.accumulated_maker_base_volume as nat, 8));
    lemma_le_bytes_value(h.accumulated_maker_base_volume as nat, 8);
    assert(s.subrange(128, 136) =~= le_bytes(h.accumulated_taker_quote_volume as nat, 8));
    lemma_le_bytes_value(h.accumulated_taker_quote_volume as nat, 8);
    assert(s.subrange(136, 144) =~= le_bytes(h.accumulated_taker_base_volume as nat, 8));
    lemma_le_bytes_value(h.accumulated_taker_base_volume as nat, 8);
    assert(s.subrange(144, 148) =~= le_bytes(h._padding as nat, 4));
    lemma_le_bytes_value(h._padding as nat, 4);
    assert(s.subrange(148, 152) =~= le_bytes(h.number_of_orders as nat, 4));
    lemma_le_bytes_value(h.number_of_orders as nat, 4);
    assert(s.subrange(8, 40) =~= h.market@);
    assert(s.subrange(40, 72) =~= h.owner@);
}

/// Byte `j` of record `k` in a run of order records.
proof fn lemma_orders_bytes_index(s: Seq<Order>, k: int, j: int)
    requires
        0 <= k < s.len(),
        0 <= j < ORDER_LEN,
    ensures
        orders_bytes(s).len() == ORDER_LEN * s.len(),
        orders_bytes(s)[ORDER_LEN * k + j] == order_bytes(s[k])[j],
    decreases s.len(),
{
    lemma_orders_bytes_len(s);
    let t = s.drop_last();
    lemma_orders_bytes_len(t);
    if k < s.len() - 1 {
        lemma_orders_bytes_index(t, k, j);
        assert(ORDER_LEN * k + j < ORDER_LEN * t.len()) by (nonlinear_arith)
            requires
                k < t.len(),
                j < 32,
        ;
    } else {
        assert(ORDER_LEN * k == ORDER_LEN * t.len());
    }
}

/// The order slots read back from the bytes of an account are its slots.
proof fn lemma_slots_round_trip(h: UserAccountHeader, slots: Seq<Order>)
    ensures
        slots_in(h.to_bytes_spec() + orders_bytes(slots)) == slots,
{
    let b = h.to_bytes_spec() + orders_bytes(slots);
    lemma_orders_bytes_len(slots);
    lemma_pow256_values();
    assert(b.len() == 152 + 32 * slots.len());
    assert(slot_count(b.len()) == slots.len()) by (nonlinear_arith)
        requires
            b.len() == 152 + 32 * slots.len(),
            slot_count(b.len()) == (b.len() - 152) / 32,
    ;
    assert forall|k: int| 0 <= k < slots.len() implies #[trigger] slots_in(b)[k] == slots[k] by {
        let o = slots[k];
        let start = 152 + 32 * k;
        assert(start + 32 <= b.len()) by (nonlinear_arith)
            requires
                start == 152 + 32 * k,
                k < slots.len(),
                b.len() == 152 + 32 * slots.len(),
        ;
        let ids = le_bytes(o.id as nat, 16);
        let cids = le_bytes(o.client_id as nat, 16);
        assert forall|j: int| 0 <= j < 16 implies #[trigger] b.subrange(start, start + 16)[j]
            == ids[j] by {
            lemma_orders_bytes_index(slots, k, j);
            assert(orders_bytes(slots)[32 * k + j] == b[start + j]);
        }
        assert forall|j: int| 0 <= j < 16 implies #[trigger] b.subrange(start + 16, start + 32)[j]
            == cids[j] by {
            lemma_orders_bytes_index(slots, k, j + 16);
            assert(orders_bytes(slots)[32 * k + j + 16] == b[start + 16 + j]);
        }
        assert(b.subrange(start, start + 16) =~= ids);
        assert(b.subrange(start + 16, start + 32) =~= cids);
        lemma_le_bytes_value(o.id as nat, 16);
        lemma_le_bytes_value(o.client_id as nat, 16);
    }
    assert(slots_in(b) =~= slots);
}

/// An account written to bytes and read back is the same account: the
/// layout is accepted, the header fields and every slot come back, and the
/// tag check passes whenever the header's tag says user account.
pub proof fn lemma_account_round_trip(a: UserAccount)
    requires
        a.wf(),
    ensures
        user_account_layout(a.to_bytes_spec().len()),
        a.header_view().read_from(a.to_bytes_spec()),
        slots_in(a.to_bytes_spec()) == a.slots(),
        user_account_status(a.to_bytes_spec(), false) is Ok,
        a.header_view().tag == AccountTag::UserAccount.value() ==> user_account_status(
            a.to_bytes_spec(),
            true,
        ) is Ok,
{
    let h = a.header_view();
    let b = a.to_bytes_spec();
    lemma_orders_bytes_len(a.slots());
    lemma_slots_round_trip(h, a.slots());
    assert(b.subrange(0, 152) =~= h.to_bytes_spec());
    lemma_header_round_trip(h, b);
    assert(b.len() == 152 + 32 * a.capacity());
    assert((b.len() - 152) % 32 == 0 && (b.len() - 152) / 32 == a.capacity()) by (nonlinear_arith)
        requires
            b.len() == 152 + 32 * a.capacity(),
    ;
}

/// A buffer that starts with the bytes of a freshly constructed header is
/// accepted as a user account.
pub proof fn lemma_fresh_header_accepted(market: Pubkey, owner: Pubkey, s: Seq<u8>)
    requires
        user_account_layout(s.len()),
        s.subrange(0, USER_ACCOUNT_HEADER_LEN as int) == UserAccountHeader::initial(
            market,
            owner,
        ).to_bytes_spec(),
    ensures
        user_account_status(s, true) is Ok,
{
    let h = UserAccountHeader::initial(market, owner);
    let b = h.to_bytes_spec();
    assert(s.subrange(0, 8) =~= b.subrange(0, 8));
    assert(b.subrange(0, 8) =~= le_bytes(2, 8));
    assert(s.subrange(148, 152) =~= b.subrange(148, 152));
    assert(b.subrange(148, 152) =~= le_bytes(0, 4));
    lemma_pow256_values();
    lemma_le_bytes_value(2, 8);
    lemma_le_bytes_value(0, 4);
}

/// A buffer whose tag is not the user account tag is refused with
/// `InvalidAccountData`.
pub proof fn lemma_other_tag_refused(s: Seq<u8>)
    requires
        le_at(s, 0, 8) != AccountTag::UserAccount.value(),
    ensures
        user_account_status(s, true) == Err::<(), DexError>(DexError::InvalidAccountData),
{
}

/// The header of a user account.
#[derive(Clone, Copy, Debug)]
pub struct UserAccountHeader {
    /// Verifies and versions the record: `AccountTag::UserAccount`.
    pub tag: u64,
    /// The market of the account.
    pub market: Pubkey,
    /// The wallet that owns the account.
    pub owner: Pubkey,
    /// Base token available for settlement.
    pub base_token_free: u64,
    /// Base token locked in the orderbook.
    pub base_token_locked: u64,
    /// Quote token available for settlement.
    pub quote_token_free: u64,
    /// Quote token locked in the orderbook.
    pub quote_token_locked: u64,
    /// All-time rebates; a metric only.
    pub accumulated_rebates: u64,
    /// Maker quote volume; a metric only.
    pub accumulated_maker_quote_volume: u64,
    /// Maker base volume; a metric only.
    pub accumulated_maker_base_volume: u64,
    /// Taker quote volume; a metric only.
    pub accumulated_taker_quote_volume: u64,
    /// Taker base volume; a metric only.
    pub accumulated_taker_base_volume: u64,
    /// Keeps the order count at its place in the layout.
    pub _padding: u32,
    /// Number of active orders.
    pub number_of_orders: u32,
}

/// Length in bytes of the user account header.
pub const USER_ACCOUNT_HEADER_LEN: usize = 152;

impl UserAccountHeader {
    /// The header of a fresh account of `owner` on `market`.
    pub open spec fn initial(market: Pubkey, owner: Pubkey) -> UserAccountHeader {
        UserAccountHeader {
            tag: AccountTag::UserAccount.value(),
            market: market,
            owner: owner,
            base_token_free: 0,
            base_token_locked: 0,
            quote_token_free: 0,
            quote_token_locked: 0,
            accumulated_rebates: 0,
            accumulated_maker_quote_volume: 0,
            accumulated_maker_base_volume: 0,
            accumulated_taker_quote_volume: 0,
            accumulated_taker_base_volume: 0,
            _padding: 0,
            number_of_orders: 0,
        }
    }

    /// The bytes of the header, in layout order.
    pub open spec fn to_bytes_spec(self) -> Seq<u8> {
        le_bytes(self.tag as nat, 8)
            + self.market@
            + self.owner@
            + le_bytes(self.base_token_free as nat, 8)
            + le_bytes(self.base_token_locked as nat, 8)
            + le_bytes(self.quote_token_free as nat, 8)
            + le_bytes(self.quote_token_locked as nat, 8)
            + le_bytes(self.accumulated_rebates as nat, 8)
            + le_bytes(self.accumulated_maker_quote_volume as nat, 8)
            + le_bytes(self.accumulated_maker_base_volume as nat, 8)
            + le_bytes(self.accumulated_taker_quote_volume as nat, 8)
            + le_bytes(self.accumulated_taker_base_volume as nat, 8)
            + le_bytes(self._padding as nat, 4)
            + le_bytes(self.number_of_orders as nat, 4)
    }

    /// The header's fields are the ones that the first bytes of `s` hold.
    pub open spec fn read_from(self, s: Seq<u8>) -> bool {
        &&& self.tag == le_at(s, 0, 8)
        &&& self.base_token_free == le_at(s, 72, 8)
        &&& self.base_token_locked == le_at(s, 80, 8)
        &&& self.quote_token_free == le_at(s, 88, 8)
        &&& self.quote_token_locked == le_at(s, 96, 8)
        &&& self.accumulated_rebates == le_at(s, 104, 8)
        &&& self.accumulated_maker_quote_volume == le_at(s, 112, 8)
        &&& self.accumulated_maker_base_volume == le_at(s, 120, 8)
        &&& self.accumulated_taker_quote_volume == le_at(s, 128, 8)
        &&& self.accumulated_taker_base_volume == le_at(s, 136, 8)
        &&& self._padding == le_at(s, 144, 4)
        &&& self.number_of_orders == le_at(s, 148, 4)
        &&& self.market@ == s.subrange(8, 40)
        &&& self.owner@ == s.subrange(40, 72)
    }

    /// Reads the header that the first bytes of `buf` hold.
    pub fn read(buf: &[u8]) -> (r: UserAccountHeader)
        requires
            buf@.len() >= USER_ACCOUNT_HEADER_LEN,
        ensures
            r.read_from(buf@),
    {
        let tag = read_le(buf, 0, 8);
        let base_token_free = read_le(buf, 72, 8);
        let base_token_locked = read_le(buf, 80, 8);
        let quote_token_free = read_le(buf, 88, 8);
        let quote_token_locked = read_le(buf, 96, 8);
        let accumulated_rebates = read_le(buf, 104, 8);
        let accumulated_maker_quote_volume = read_le(buf, 112, 8);
        let accumulated_maker_base_volume = read_le(buf, 120, 8);
        let accumulated_taker_quote_volume = read_le(buf, 128, 8);
        let accumulated_taker_base_volume = read_le(buf, 136, 8);
        let padding = read_le(buf, 144, 4);
        let number_of_orders = read_le(buf, 148, 4);
        let market = Pubkey { bytes: read_key(buf, 8) };
        let owner = Pubkey { bytes: read_key(buf, 40) };
        proof {
            lemma_pow256_values();
            lemma_le_value_bound(buf@.subrange(0, 8));
            lemma_le_value_bound(buf@.subrange(72, 80));
            lemma_le_value_bound(buf@.subrange(80, 88));
            lemma_le_value_bound(buf@.subrange(88, 96));
            lemma_le_value_bound(buf@.subrange(96, 104));
            lemma_le_value_bound(buf@.subrange(104, 112));
            lemma_le_value_bound(buf@.subrange(112, 120));
            lemma_le_value_bound(buf@.subrange(120, 128));
            lemma_le_value_bound(buf@.subrange(128, 136));
            lemma_le_value_bound(buf@.subrange(136, 144));
            lemma_le_value_bound(buf@.subrange(144, 148));
            lemma_le_value_bound(buf@.subrange(148, 152));
        }
        UserAccountHeader {
            tag: tag as u64,
            base_token_free: base_token_free as u64,
            base_token_locked: base_token_locked as u64,
            quote_token_free: quote_token_free as u64,
            quote_token_locked: quote_token_locked as u64,
            accumulated_rebates: accumulated_rebates as u64,
            accumulated_maker_quote_volume: accumulated_maker_quote_volume as u64,
            accumulated_maker_base_volume: accumulated_maker_base_volume as u64,
            accumulated_taker_quote_volume: accumulated_taker_quote_volume as u64,
            accumulated_taker_base_volume: accumulated_taker_base_volume as u64,
            _padding: padding as u32,
            number_of_orders: number_of_orders as u32,
            market,
            owner,
        }
    }

    /// The bytes of the record, in layout order.
    pub fn to_bytes(&self) -> (r: Vec<u8>)
        ensures
            r@ == self.to_bytes_spec(),
    {
        let mut out: Vec<u8> = Vec::new();
        push_le(&mut out, self.tag as u128, 8);
        proof {
            assert(out@ =~= le_bytes(self.tag as nat, 8));
        }
        push_bytes(&mut out, self.market.bytes.as_slice());
        push_bytes(&mut out, self.owner.bytes.as_slice());
        push_le(&mut out, self.base_token_free as u128, 8);
        push_le(&mut out, self.base_token_locked as u128, 8);
        push_le(&mut out, self.quote_token_free as u128, 8);
        push_le(&mut out, self.quote_token_locked as u128, 8);
        push_le(&mut out, self.accumulated_rebates as u128, 8);
        push_le(&mut out, self.accumulated_maker_quote_volume as u128, 8);
        push_le(&mut out, self.accumulated_maker_base_volume as u128, 8);
        push_le(&mut out, self.accumulated_taker_quote_volume as u128, 8);
        push_le(&mut out, self.accumulated_taker_base_volume as u128, 8);
        push_le(&mut out, self._padding as u128, 4);
        push_le(&mut out, self.number_of_orders as u128, 4);
        out
    }

    /// Writes the header over the first bytes of `buf`; the rest of `buf`
    /// stays as it is.
    pub fn write_to_buffer(&self, buf: &mut [u8])
        requires
            old(buf)@.len() >= USER_ACCOUNT_HEADER_LEN,
        ensures
            final(buf)@ == self.to_bytes_spec() + old(buf)@.subrange(
                USER_ACCOUNT_HEADER_LEN as int,
                old(buf)@.len() as int,
            ),
    {
        let out = self.to_bytes();
        copy_prefix(buf, &out);
    }

    /// The header of a fresh account of `owner` on `market`: tagged as a user
    /// account, with zero balances and no orders.
    pub fn new(market: &Pubkey, owner: &Pubkey) -> (r: UserAccountHeader)
        ensures
            r == UserAccountHeader::initial(*market, *owner),
    {
        UserAccountHeader {
            tag: AccountTag::UserAccount.to_u64(),
            market: *market,
            owner: *owner,
            base_token_free: 0,
            base_token_locked: 0,
            quote_token_free: 0,
            quote_token_locked: 0,
            accumulated_rebates: 0,
            accumulated_maker_quote_volume: 0,
            accumulated_maker_base_volume: 0,
            accumulated_taker_quote_volume: 0,
            accumulated_taker_base_volume: 0,
            _padding: 0,
            number_of_orders: 0,
        }
    }
}

/// A user account: its header and its order slots. The first
/// `header.number_of_orders` slots hold the active orders; the methods keep
/// that count within the slots (`wf`).
pub struct UserAccount {
    pub header: UserAccountHeader,
    pub orders: Vec<Order>,
}

impl UserAccount {
    /// Every order slot, active or not.
    pub open spec fn slots(&self) -> Seq<Order> {
        self.orders@
    }

    /// The header, as seen from outside.
    pub open spec fn header_view(&self) -> UserAccountHeader {
        self.header
    }

    /// Number of order slots.
    pub open spec fn capacity(&self) -> nat {
        self.slots().len()
    }

    /// The active orders: the first `number_of_orders` slots.
    pub open spec fn active(&self) -> Seq<Order> {
        self.slots().subrange(0, self.header_view().number_of_orders as int)
    }

    /// The active range lies within the slots, and the count field can hold
    /// every slot.
    pub open spec fn wf(&self) -> bool {
        &&& self.header_view().number_of_orders <= self.capacity()
        &&& self.capacity() <= u32::MAX
    }

    /// The bytes of the account: its header, then every order slot.
    pub open spec fn to_bytes_spec(&self) -> Seq<u8> {
        self.header_view().to_bytes_spec() + orders_bytes(self.slots())
    }

    fn read_buffer(buf: &[u8], check_tag: bool) -> (r: Result<UserAccount, DexError>)
        requires
            user_account_layout(buf@.len()),
        ensures
            r is Ok <==> user_account_status(buf@, check_tag) is Ok,
            r is Err ==> r == Err::<UserAccount, DexError>(DexError::InvalidAccountData),
            r matches Ok(a) ==> {
                &&& a.wf()
                &&& a.header_view().read_from(buf@)
                &&& a.slots() == slots_in(buf@)
            },
    {
        let header = UserAccountHeader::read(buf);
        if check_tag && header.tag != AccountTag::UserAccount.to_u64() {
            return Err(DexError::InvalidAccountData);
        }
        let orders = read_slots(buf);
        if header.number_of_orders as usize > orders.len() {
            return Err(DexError::InvalidAccountData);
        }
        Ok(UserAccount { header, orders })
    }

    /// Reads the user account that `buf` holds. Refused with
    /// `InvalidAccountData` when the tag does not say user account or the
    /// order count exceeds the slots.
    pub fn from_buffer(buf: &[u8]) -> (r: Result<UserAccount, DexError>)
        requires
            user_account_layout(buf@.len()),
        ensures
            r is Ok <==> user_account_status(buf@, true) is Ok,
            r is Err ==> r == Err::<UserAccount, DexError>(DexError::InvalidAccountData),
            r matches Ok(a) ==> {
                &&& a.wf()
                &&& a.header_view().read_from(buf@)
                &&& a.slots() == slots_in(buf@)
            },
    {
        UserAccount::read_buffer(buf, true)
    }

    /// Reads the user account that `buf` holds without looking at its tag,
    /// for a buffer that is being initialized. Refused with
    /// `InvalidAccountData` when the order count exceeds the slots.
    pub fn from_buffer_unchecked(buf: &[u8]) -> (r: Result<UserAccount, DexError>)
        requires
            user_account_layout(buf@.len()),
        ensures
            r is Ok <==> user_account_status(buf@, false) is Ok,
            r is Err ==> r == Err::<UserAccount, DexError>(DexError::InvalidAccountData),
            r matches Ok(a) ==> {
                &&& a.wf()
                &&& a.header_view().read_from(buf@)
                &&& a.slots() == slots_in(buf@)
            },
    {
        UserAccount::read_buffer(buf, false)
    }

    /// Writes the account back over `buf`, which has room for exactly its
    /// header and its slots.
    pub fn write_to_buffer(&self, buf: &mut [u8])
        requires
            old(buf)@.len() == USER_ACCOUNT_HEADER_LEN + ORDER_LEN * self.capacity(),
        ensures
            final(buf)@ == self.to_bytes_spec(),
    {
        let mut out = self.header.to_bytes();
        let mut k: usize = 0;
        proof {
            assert(self.orders@.subrange(0, 0) =~= Seq::<Order>::empty());
            assert(out@ =~= self.header.to_bytes_spec() + orders_bytes(self.orders@.subrange(0, 0)));
        }
        while k < self.orders.len()
            invariant
                k <= self.orders@.len(),
                out@ == self.header.to_bytes_spec() + orders_bytes(self.orders@.subrange(0, k as int)),
            decreases self.orders@.len() - k,
        {
            let o = self.orders[k];
            push_le(&mut out, o.id, 16);
            push_le(&mut out, o.client_id, 16);
            proof {
                let t = self.orders@.subrange(0, k + 1);
                assert(t.drop_last() =~= self.orders@.subrange(0, k as int));
                assert(out@ =~= self.header.to_bytes_spec() + orders_bytes(t));
            }
            k = k + 1;
        }
        proof {
            assert(self.orders@.subrange(0, self.orders@.len() as int) =~= self.orders@);
            lemma_orders_bytes_len(self.orders@);
            assert(self.header.to_bytes_spec().len() == 152);
        }
        copy_prefix(buf, &out);
        proof {
            assert(final(buf)@ =~= out@);
        }
    }

    /// Number of order slots.
    pub fn order_capacity(&self) -> (r: usize)
        ensures
            r == self.capacity(),
    {
        self.orders.len()
    }

    /// The active order at `order_index`.
    pub fn read_order(&self, order_index: usize) -> (r: Result<Order, DexError>)
        requires
            self.wf(),
        ensures
            order_index < self.header_view().number_of_orders ==> r == Ok::<Order, DexError>(
                self.slots()[order_index as int],
            ),
            order_index >= self.header_view().number_of_orders ==> r == Err::<Order, DexError>(
                DexError::InvalidOrderIndex,
            ),
    {
        if order_index >= self.header.number_of_orders as usize {
            return Err(DexError::InvalidOrderIndex);
        }
        Ok(self.orders[order_index])
    }

    /// Removes the active order at `order_index`: the last active order takes
    /// its slot and the count drops by one.
    pub fn remove_order(&mut self, order_index: usize) -> (r: Result<(), DexError>)
        requires
            old(self).wf(),
        ensures
            final(self).wf(),
            final(self).capacity() == old(self).capacity(),
            order_index >= old(self).header_view().number_of_orders ==> {
                &&& r == Err::<(), DexError>(DexError::InvalidOrderIndex)
                &&& final(self).header_view() == old(self).header_view()
                &&& final(self).slots() == old(self).slots()
            },
            order_index < old(self).header_view().number_of_orders ==> {
                &&& r is Ok
                &&& final(self).header_view() == (UserAccountHeader {
                    number_of_orders: (old(self).header_view().number_of_orders - 1) as u32,
                    ..old(self).header_view()
                })
                &&& final(self).slots() == old(self).slots().update(
                    order_index as int,
                    old(self).slots()[old(self).header_view().number_of_orders - 1],
                )
            },
    {
        let n = self.header.number_of_orders;
        if order_index >= n as usize {
            return Err(DexError::InvalidOrderIndex);
        }
        let last = self.orders[(n - 1) as usize];
        if n - order_index as u32 != 1 {
            self.orders.set(order_index, last);
        } else {
            assert(self.orders@.update(order_index as int, last) =~= self.orders@);
        }
        self.header.number_of_orders = n - 1;
        Ok(())
    }

    /// Appends `order` to the active orders, in the first free slot.
    pub fn add_order(&mut self, order: Order) -> (r: Result<(), DexError>)
        requires
            old(self).wf(),
        ensures
            final(self).wf(),
            final(self).capacity() == old(self).capacity(),
            (final(self).slots(), final(self).header_view().number_of_orders as nat) == add_model(
                old(self).slots(),
                old(self).header_view().number_of_orders as nat,
                order,
            ),
            old(self).header_view().number_of_orders == old(self).capacity() ==> {
                &&& r == Err::<(), DexError>(DexError::UserAccountFull)
                &&& final(self).header_view() == old(self).header_view()
                &&& final(self).slots() == old(self).slots()
            },
            old(self).header_view().number_of_orders < old(self).capacity() ==> {
                &&& r is Ok
                &&& final(self).header_view() == (UserAccountHeader {
                    number_of_orders: (old(self).header_view().number_of_orders + 1) as u32,
                    ..old(self).header_view()
                })
                &&& final(self).slots() == old(self).slots().update(
                    old(self).header_view().number_of_orders as int,
                    order,
                )
            },
    {
        let n = self.header.number_of_orders;
        if n as usize >= self.orders.len() {
            return Err(DexError::UserAccountFull);
        }
        self.orders.set(n as usize, order);
        self.header.number_of_orders = n + 1;
        Ok(())
    }

    /// Index of the first active order whose key is `key`.
    fn find_index(&self, key: u128, by_client: bool) -> (r: usize)
        requires
            self.wf(),
        ensures
            r == first_with_key(self.active(), key, by_client),
    {
        let n = self.header.number_of_orders as usize;
        let mut i: usize = 0;
        while i < n
            invariant
                self.wf(),
                n == self.header.number_of_orders,
                i <= n,
                forall|j: int| 0 <= j < i ==> order_key(self.active()[j], by_client) != key,
            decreases n - i,
        {
            let o = self.orders[i];
            let k = if by_client {
                o.client_id
            } else {
                o.id
            };
            if k == key {
                proof {
                    lemma_first_with_key(self.active(), key, by_client, i as int);
                }
                return i;
            }
            i = i + 1;
        }
        proof {
            lemma_first_with_key(self.active(), key, by_client, i as int);
        }
        i
    }

    /// Index of the first active order with order id `order_id`.
    pub fn find_order_index(&self, order_id: u128) -> (r: Result<usize, DexError>)
        requires
            self.wf(),
        ensures
            first_with_key(self.active(), order_id, false) < self.active().len()
                ==> r == Ok::<usize, DexError>(
                first_with_key(self.active(), order_id, false) as usize,
            ),
            first_with_key(self.active(), order_id, false) >= self.active().len()
                ==> r == Err::<usize, DexError>(DexError::OrderNotFound),
    {
        let i = self.find_index(order_id, false);
        if i < self.header.number_of_orders as usize {
            Ok(i)
        } else {
            Err(DexError::OrderNotFound)
        }
    }

    /// Order id of the first active order with client id `client_order_id`.
    pub fn find_order_id_by_client_id(&self, client_order_id: u128) -> (r: Result<u128, DexError>)
        requires
            self.wf(),
        ensures
            first_with_key(self.active(), client_order_id, true) < self.active().len()
                ==> r == Ok::<u128, DexError>(
                self.active()[first_with_key(self.active(), client_order_id, true) as int].id,
            ),
            first_with_key(self.active(), client_order_id, true)
                >= self.active().len() ==> r == Err::<u128, DexError>(
                DexError::OrderNotFound,
            ),
    {
        let i = self.find_index(client_order_id, true);
        if i < self.header.number_of_orders as usize {
            Ok(self.orders[i].id)
        } else {
            Err(DexError::OrderNotFound)
        }
    }
}

} // verus!
