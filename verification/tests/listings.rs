use coretime_sched::dex::{Error as DexError, Pallet as Dex, PoolInfo};
use coretime_sched::rpc::SubscriptionResponse;
use coretime_sched::scheduler::names::{same_bytes, NameIndex};
use coretime_sched::scheduler::types::Turn;
use coretime_sched::sorting::sort_by_rank;
use coretime_sched::store::{copy_vec, Table};
use coretime_sched::uniques::{
    approvals, attribute_at_most, attributes, bytes_at_most, collections, items,
    CollectionDetails, ItemDetails, Registry,
};

#[test]
fn sorting_is_stable_and_by_rank() {
    let turns = vec![
        Turn { priority: 5, index: 0 },
        Turn { priority: 1, index: 1 },
        Turn { priority: 5, index: 2 },
        Turn { priority: 0, index: 3 },
        Turn { priority: 1, index: 4 },
    ];
    assert_eq!(
        sort_by_rank(&turns),
        vec![
            Turn { priority: 0, index: 3 },
            Turn { priority: 1, index: 1 },
            Turn { priority: 1, index: 4 },
            Turn { priority: 5, index: 0 },
            Turn { priority: 5, index: 2 },
        ]
    );
    let sorted = sort_by_rank(&turns);
    assert_eq!(sort_by_rank(&sorted), sorted);
    assert_eq!(sort_by_rank(&Vec::<Turn>::new()), Vec::<Turn>::new());
    assert_eq!(
        sort_by_rank(&vec![(2u64, 1u32), (1, 9), (2, 0), (1, 9)]),
        vec![(1, 9), (1, 9), (2, 0), (2, 1)]
    );
    assert_eq!(
        sort_by_rank(&vec![(1u64, 2u32, 3u32), (1, 2, 2), (0, u32::MAX, 0), (u64::MAX, 0, 0), (1, 1, 9)]),
        vec![(0, u32::MAX, 0), (1, 1, 9), (1, 2, 2), (1, 2, 3), (u64::MAX, 0, 0)]
    );
}

#[test]
fn a_table_is_a_map() {
    let mut t: Table<u32> = Table::new();
    assert_eq!(t.len(), 0);
    assert!(!t.contains_key(5));
    t.insert(5, 50);
    t.insert(6, 60);
    t.insert(5, 51);
    assert_eq!(t.len(), 2);
    assert_eq!(t.get(5), Some(&51));
    assert_eq!(t.get(7), None);
    assert_eq!(t.remove(5), Some(51));
    assert_eq!(t.remove(5), None);
    assert!(t.contains_key(6));
    assert_eq!(copy_vec(&vec![3u8, 1, 2]), vec![3, 1, 2]);
}

#[test]
fn the_name_index_lets_the_last_entry_win() {
    let mut index = NameIndex::new();
    let a = b"a".to_vec();
    let ab = b"ab".to_vec();
    assert!(same_bytes(&a, &b"a".to_vec()));
    assert!(!same_bytes(&a, &ab));
    assert!(!same_bytes(&ab, &b"ac".to_vec()));
    assert!(same_bytes(&Vec::new(), &Vec::new()));
    assert_eq!(index.get(&a), None);
    index.insert(&a, (1, 0));
    index.insert(&ab, (2, 0));
    index.insert(&a, (3, 1));
    assert_eq!(index.get(&a), Some((3, 1)));
    assert_eq!(index.get(&ab), Some((2, 0)));
    assert!(index.contains(&ab));
    index.remove(&a);
    assert_eq!(index.get(&a), None);
    assert!(!index.contains(&a));
    assert_eq!(index.get(&ab), Some((2, 0)));
    index.remove(&a);
    assert_eq!(index.get(&ab), Some((2, 0)));
}

fn registry() -> Registry {
    let mut r = Registry::new();
    r.collections = vec![
        (0, CollectionDetails { owner: 2, items: 2, attributes: 0 }),
        (1, CollectionDetails { owner: 1, items: 1, attributes: 0 }),
        (2, CollectionDetails { owner: 1, items: 0, attributes: 0 }),
    ];
    r.collection_owner = vec![(2, 0), (1, 2), (1, 1)];
    r.items = vec![
        (0, 42, ItemDetails { owner: 5, approvals: vec![(3, None), (4, Some(20))] }),
        (1, 7, ItemDetails { owner: 5, approvals: vec![] }),
        (0, 69, ItemDetails { owner: 4, approvals: vec![(9, Some(1))] }),
    ];
    r.account_items = vec![(5, 1, 7), (4, 0, 69), (5, 0, 42)];
    r.attributes = vec![
        (0, Some(69), vec![1], vec![0]),
        (1, None, vec![0], vec![9]),
        (0, Some(42), vec![1], vec![0]),
        (0, None, vec![1, 0], vec![5]),
        (0, Some(42), vec![0], vec![7, 7]),
        (0, None, vec![1], vec![]),
        (0, Some(42), vec![0], vec![7]),
    ];
    r.collections[0].1.attributes = 6;
    r.collections[1].1.attributes = 1;
    r
}

#[test]
fn attributes_are_listed_by_item_key_and_value() {
    let r = registry();
    assert_eq!(
        attributes(&r, 0),
        vec![
            (None, vec![1], vec![]),
            (None, vec![1, 0], vec![5]),
            (Some(42), vec![0], vec![7]),
            (Some(42), vec![0], vec![7, 7]),
            (Some(42), vec![1], vec![0]),
            (Some(69), vec![1], vec![0]),
        ]
    );
    assert_eq!(attributes(&r, 1), vec![(None, vec![0], vec![9])]);
    assert_eq!(attributes(&r, 2), vec![]);
    assert_eq!(attributes(&r, 3), vec![]);
}

#[test]
fn byte_strings_are_ordered_as_in_a_dictionary() {
    assert!(bytes_at_most(&vec![], &vec![]));
    assert!(bytes_at_most(&vec![], &vec![0]));
    assert!(!bytes_at_most(&vec![0], &vec![]));
    assert!(bytes_at_most(&vec![1, 2], &vec![1, 2]));
    assert!(bytes_at_most(&vec![1, 2], &vec![1, 2, 0]));
    assert!(bytes_at_most(&vec![1, 2, 255], &vec![1, 3]));
    assert!(!bytes_at_most(&vec![2], &vec![1, 255]));
    assert!(attribute_at_most(&(None, vec![9], vec![9]), &(Some(0), vec![], vec![])));
    assert!(!attribute_at_most(&(Some(1), vec![], vec![]), &(Some(0), vec![9], vec![9])));
    assert!(attribute_at_most(&(Some(1), vec![1], vec![9]), &(Some(1), vec![2], vec![])));
    assert!(!attribute_at_most(&(Some(1), vec![1], vec![9]), &(Some(1), vec![1], vec![8])));
    assert!(attribute_at_most(&(Some(u32::MAX), vec![1], vec![9]), &(Some(u32::MAX), vec![1], vec![9])));
}

#[test]
fn collections_are_listed_by_owner() {
    assert_eq!(collections(&Registry::new()), vec![]);
    assert_eq!(collections(&registry()), vec![(1, 1), (1, 2), (2, 0)]);
}

#[test]
fn items_are_listed_by_owner() {
    assert_eq!(items(&Registry::new()), vec![]);
    assert_eq!(items(&registry()), vec![(4, 0, 69), (5, 0, 42), (5, 1, 7)]);
}

#[test]
fn approvals_are_those_of_the_item() {
    let r = registry();
    assert_eq!(approvals(&r, 0, 42), vec![(3, None), (4, Some(20))]);
    assert_eq!(approvals(&r, 1, 7), vec![]);
    assert_eq!(approvals(&r, 0, 69), vec![(9, Some(1))]);
}

#[test]
fn plain_records_hold_what_they_are_given() {
    let pool = PoolInfo { owner: 1u64, lp_token: 9u32, asset1: 2u32, asset2: 3u32, balance1: 10u128, balance2: 20u128 };
    assert_eq!(pool.asset2, 3);
    assert_eq!(pool.balance1 + pool.balance2, 30);
    assert_eq!(SubscriptionResponse::Event(5u8).into_event(), Some(5));
    assert_eq!(SubscriptionResponse::<u8>::Closed.into_event(), None);
}

#[test]
fn pool_identities_put_the_lower_asset_first() {
    assert_eq!(Dex::get_pool_id(2, 1), (1, 2));
    assert_eq!(Dex::get_pool_id(1, 2), (1, 2));
    assert_eq!(Dex::get_pool_id(7, 7), (7, 7));
}

#[test]
fn quotes_follow_the_reserves() {
    assert_eq!(Dex::quote(1, 20, 1000), Ok(50));
    assert_eq!(Dex::quote(3, 1000, 20), Ok(0));
    assert_eq!(Dex::quote(7, 3, 5), Ok(11));
    assert_eq!(Dex::quote(1, 0, 5), Err(DexError::Overflow));
    assert_eq!(Dex::quote(2, 1, u128::MAX), Err(DexError::Overflow));
    assert_eq!(Dex::quote(1, 1, u128::MAX), Ok(u128::MAX));
}

#[test]
fn swaps_pay_the_fee() {
    assert_eq!(Dex::get_amount_out(10, 100, 100), Ok(9));
    assert_eq!(Dex::get_amount_out(0, 100, 100), Ok(0));
    assert_eq!(Dex::get_amount_out(1000, 1000, 1000), Ok(499));
    assert_eq!(Dex::get_amount_out(10, 0, 100), Err(DexError::InsufficientLiquidity));
    assert_eq!(Dex::get_amount_out(10, 100, 0), Err(DexError::InsufficientLiquidity));
    assert_eq!(Dex::get_amount_out(u128::MAX / 996, 1, 1), Err(DexError::Overflow));
    assert_eq!(Dex::get_amount_out(2, 1, u128::MAX / 1000), Err(DexError::Overflow));
    assert_eq!(Dex::get_amount_out(1, u128::MAX / 999, 1), Err(DexError::Overflow));
    assert_eq!(Dex::get_amount_out(u128::MAX / 997, u128::MAX / 1000, 1), Err(DexError::Overflow));

    assert_eq!(Dex::get_amount_in(9, 100, 100), Ok(10));
    assert_eq!(Dex::get_amount_in(0, 100, 100), Ok(1));
    assert_eq!(Dex::get_amount_in(499, 1000, 1000), Ok(1000));
    assert_eq!(Dex::get_amount_in(9, 0, 100), Err(DexError::InsufficientLiquidity));
    assert_eq!(Dex::get_amount_in(9, 100, 0), Err(DexError::InsufficientLiquidity));
    // The reserve cannot pay out all it holds, nor more.
    assert_eq!(Dex::get_amount_in(100, 100, 100), Err(DexError::Overflow));
    assert_eq!(Dex::get_amount_in(101, 100, 100), Err(DexError::Overflow));
    assert_eq!(Dex::get_amount_in(2, u128::MAX, 100), Err(DexError::Overflow));
    assert_eq!(Dex::get_amount_in(1, u128::MAX / 999, 100), Err(DexError::Overflow));
    assert_eq!(Dex::get_amount_in(1, 1, u128::MAX), Err(DexError::Overflow));
}

#[test]
fn a_swap_must_leave_something_in_the_reserve() {
    assert_eq!(Dex::validate_swap(1, 5, (1, 2), 10, 6), Ok((2, 5)));
    assert_eq!(Dex::validate_swap(1, 6, (1, 2), 10, 6), Err(DexError::InsufficientLiquidity));
    assert_eq!(Dex::validate_swap(2, 6, (1, 2), 10, 6), Ok((1, 6)));
    assert_eq!(Dex::validate_swap(2, 10, (1, 2), 10, 60), Err(DexError::InsufficientLiquidity));
    assert_eq!(Dex::validate_swap(3, 9, (1, 2), 10, 6), Ok((1, 9)));
}
