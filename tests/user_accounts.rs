use dex_state::error::DexError;
use dex_state::orders::{Order, UserAccount, UserAccountHeader, ORDER_LEN, USER_ACCOUNT_HEADER_LEN};
use dex_state::state::{AccountTag, DexState, Pubkey, DEX_STATE_LEN};

fn order(id: u128) -> Order {
    Order { id, client_id: id + 100 }
}

fn fresh_buffer(capacity: usize) -> Vec<u8> {
    let mut buf = vec![0u8; USER_ACCOUNT_HEADER_LEN + ORDER_LEN * capacity];
    let header = UserAccountHeader::new(&Pubkey { bytes: [1; 32] }, &Pubkey { bytes: [2; 32] });
    header.write_to_buffer(&mut buf);
    buf
}

fn active_ids(acc: &UserAccount) -> Vec<u128> {
    (0..acc.header.number_of_orders as usize).map(|i| acc.read_order(i).unwrap().id).collect()
}

#[test]
fn layout_sizes() {
    assert_eq!(USER_ACCOUNT_HEADER_LEN, 152);
    assert_eq!(Order::LEN, 32);
    assert_eq!(DEX_STATE_LEN, 280);
    assert_eq!(AccountTag::UserAccount.to_u64(), 2);
}

#[test]
fn fresh_header_is_accepted() {
    let buf = fresh_buffer(2);
    assert_eq!(&buf[0..8], &2u64.to_le_bytes());
    assert_eq!(&buf[8..40], &[1u8; 32]);
    let acc = UserAccount::from_buffer(&buf).unwrap();
    assert_eq!(acc.header.number_of_orders, 0);
    assert_eq!(acc.header.owner, Pubkey { bytes: [2; 32] });
    assert_eq!(acc.order_capacity(), 2);
}

#[test]
fn other_tags_are_refused() {
    for tag in [0u64, 1, 3, 4, u64::MAX] {
        let mut buf = fresh_buffer(1);
        buf[0..8].copy_from_slice(&tag.to_le_bytes());
        assert_eq!(UserAccount::from_buffer(&buf).err(), Some(DexError::InvalidAccountData));
        assert!(UserAccount::from_buffer_unchecked(&buf).is_ok());
    }
}

#[test]
fn count_beyond_slots_is_refused() {
    let mut buf = fresh_buffer(1);
    buf[148..152].copy_from_slice(&2u32.to_le_bytes());
    assert_eq!(UserAccount::from_buffer(&buf).err(), Some(DexError::InvalidAccountData));
    assert_eq!(UserAccount::from_buffer_unchecked(&buf).err(), Some(DexError::InvalidAccountData));
}

#[test]
fn add_then_find() {
    let buf = fresh_buffer(3);
    let mut acc = UserAccount::from_buffer(&buf).unwrap();
    acc.add_order(order(7)).unwrap();
    acc.add_order(order(9)).unwrap();
    let i = acc.find_order_index(9).unwrap();
    assert_eq!(i, 1);
    assert_eq!(acc.read_order(i), Ok(order(9)));
    assert_eq!(acc.find_order_id_by_client_id(107), Ok(7));
    assert_eq!(acc.find_order_index(8), Err(DexError::OrderNotFound));
    assert_eq!(acc.find_order_id_by_client_id(7), Err(DexError::OrderNotFound));
    assert_eq!(acc.read_order(2), Err(DexError::InvalidOrderIndex));
}

#[test]
fn capacity_is_enforced() {
    let buf = fresh_buffer(4);
    let mut acc = UserAccount::from_buffer(&buf).unwrap();
    for id in 1..=4u128 {
        assert_eq!(acc.add_order(order(id)), Ok(()));
    }
    assert_eq!(acc.add_order(order(5)), Err(DexError::UserAccountFull));
    assert_eq!(acc.header.number_of_orders, 4);
    assert_eq!(active_ids(&acc), vec![1, 2, 3, 4]);
}

#[test]
fn remove_moves_last_into_gap() {
    let buf = fresh_buffer(4);
    let mut acc = UserAccount::from_buffer(&buf).unwrap();
    for id in 1..=4u128 {
        acc.add_order(order(id)).unwrap();
    }
    assert_eq!(acc.remove_order(1), Ok(()));
    assert_eq!(acc.header.number_of_orders, 3);
    assert_eq!(active_ids(&acc), vec![1, 4, 3]);
    assert_eq!(acc.find_order_index(2), Err(DexError::OrderNotFound));
    assert_eq!(acc.find_order_index(4), Ok(1));
    assert_eq!(acc.remove_order(3), Err(DexError::InvalidOrderIndex));
    assert_eq!(acc.remove_order(2), Ok(()));
    assert_eq!(active_ids(&acc), vec![1, 4]);
}

#[test]
fn account_survives_write_and_read() {
    let mut buf = fresh_buffer(3);
    let mut acc = UserAccount::from_buffer(&buf).unwrap();
    acc.add_order(order(u128::MAX)).unwrap();
    acc.add_order(order(5)).unwrap();
    acc.header.base_token_free = 1234;
    acc.write_to_buffer(&mut buf);
    assert_eq!(&buf[152..168], &u128::MAX.to_le_bytes());
    let again = UserAccount::from_buffer(&buf).unwrap();
    assert_eq!(again.header.number_of_orders, 2);
    assert_eq!(again.header.base_token_free, 1234);
    assert_eq!(again.read_order(0), Ok(order(u128::MAX)));
    assert_eq!(again.read_order(1), Ok(order(5)));
}

#[test]
fn market_state_round_trip() {
    let mut buf = vec![0u8; DEX_STATE_LEN];
    assert!(DexState::get(&buf).is_err());
    let mut d = DexState::get_unchecked(&buf);
    d.tag = AccountTag::DexState.to_u64();
    d.creation_timestamp = -42;
    d.quote_volume = 77;
    d.fee_type = 1;
    d.admin = Pubkey { bytes: [9; 32] };
    d.write_to_buffer(&mut buf);
    assert_eq!(&buf[200..208], &(-42i64).to_le_bytes());
    let back = DexState::get(&buf).unwrap();
    assert_eq!(back.creation_timestamp, -42);
    assert_eq!(back.quote_volume, 77);
    assert_eq!(back.fee_type, 1);
    assert_eq!(back.admin, Pubkey { bytes: [9; 32] });
    buf[0] = 2;
    assert_eq!(DexState::get(&buf).err(), Some(DexError::InvalidAccountData));
}

#[test]
fn empty_and_zero_slot_accounts() {
    let buf = fresh_buffer(0);
    let mut acc = UserAccount::from_buffer(&buf).unwrap();
    assert_eq!(acc.order_capacity(), 0);
    assert_eq!(acc.read_order(0), Err(DexError::InvalidOrderIndex));
    assert_eq!(acc.remove_order(0), Err(DexError::InvalidOrderIndex));
    assert_eq!(acc.find_order_index(0), Err(DexError::OrderNotFound));
    assert_eq!(acc.find_order_id_by_client_id(0), Err(DexError::OrderNotFound));
    assert_eq!(acc.add_order(order(1)), Err(DexError::UserAccountFull));
    assert_eq!(acc.header.number_of_orders, 0);
}

#[test]
fn removal_keeps_other_ids_findable() {
    let buf = fresh_buffer(5);
    let mut acc = UserAccount::from_buffer(&buf).unwrap();
    for id in 10..15u128 {
        acc.add_order(order(id)).unwrap();
    }
    acc.remove_order(0).unwrap();
    assert_eq!(acc.header.number_of_orders, 4);
    assert_eq!(acc.find_order_index(10), Err(DexError::OrderNotFound));
    for id in 11..15u128 {
        let i = acc.find_order_index(id).unwrap();
        assert_eq!(acc.read_order(i), Ok(order(id)));
    }
    assert_eq!(acc.find_order_index(14), Ok(0));
}
