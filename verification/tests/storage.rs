use mini_substrate::l_mini_substrate::codec::{decode, Decode, Encode};
use mini_substrate::l_mini_substrate::currency_module::{AccountBalance, BalancesMap, TotalIssuance};
use mini_substrate::l_mini_substrate::io_storage;
use mini_substrate::l_mini_substrate::io_storage::Storage;
use mini_substrate::l_mini_substrate::runtime::MyRuntime;
use mini_substrate::l_mini_substrate::shared::{
    map_key, value_key, AccountId, BalanceT, StorageMap, StorageValue,
};

#[test]
fn byte_store_get_set_clear() {
    let mut store = Storage::new();
    assert_eq!(io_storage::get(&store, b"a".to_vec()), None);

    io_storage::set(&mut store, b"a".to_vec(), vec![1, 2, 3]);
    io_storage::set(&mut store, b"ab".to_vec(), vec![4]);
    io_storage::set(&mut store, Vec::new(), vec![5]);
    assert_eq!(io_storage::get(&store, b"a".to_vec()), Some(vec![1, 2, 3]));
    assert_eq!(io_storage::get(&store, b"ab".to_vec()), Some(vec![4]));
    assert_eq!(io_storage::get(&store, Vec::new()), Some(vec![5]));
    assert_eq!(io_storage::get(&store, b"b".to_vec()), None);

    io_storage::set(&mut store, b"a".to_vec(), Vec::new());
    assert_eq!(io_storage::get(&store, b"a".to_vec()), Some(Vec::new()));
    assert_eq!(io_storage::get(&store, b"ab".to_vec()), Some(vec![4]));

    io_storage::clear(&mut store, b"a".to_vec());
    io_storage::clear(&mut store, b"missing".to_vec());
    assert_eq!(io_storage::get(&store, b"a".to_vec()), None);
    assert_eq!(io_storage::get(&store, b"ab".to_vec()), Some(vec![4]));
    assert_eq!(io_storage::get(&store, Vec::new()), Some(vec![5]));
}

#[test]
fn byte_helpers() {
    assert!(io_storage::same_bytes(&vec![1, 2], &vec![1, 2]));
    assert!(!io_storage::same_bytes(&vec![1, 2], &vec![1, 3]));
    assert!(!io_storage::same_bytes(&vec![1, 2], &vec![1, 2, 0]));
    assert!(io_storage::same_bytes(&Vec::new(), &Vec::new()));
    assert_eq!(io_storage::copy_bytes(&vec![9, 8, 7]), vec![9, 8, 7]);
}

#[test]
fn two_stores_are_independent() {
    let mut first = Storage::new();
    let second = Storage::new();
    TotalIssuance::<MyRuntime>::set(&mut first, 7);
    assert_eq!(TotalIssuance::<MyRuntime>::get(&first), Some(7));
    assert_eq!(TotalIssuance::<MyRuntime>::get(&second), None);
}

#[test]
fn integers_are_encoded_little_endian() {
    assert_eq!(1000u32.encode(), vec![232, 3, 0, 0]);
    assert_eq!(AccountId(1000).encode(), vec![232, 3, 0, 0]);
    assert_eq!(
        0x0102030405060708u64.encode(),
        vec![8, 7, 6, 5, 4, 3, 2, 1]
    );
    assert_eq!(decode::<u64>(&[8, 7, 6, 5, 4, 3, 2, 1]), Some(0x0102030405060708));
    assert_eq!(u64::decode_front(&[1, 0, 0, 0, 0, 0, 0, 0, 99]), Some((1, 8)));
    assert_eq!(decode::<u64>(&[1, 0, 0, 0, 0, 0, 0]), None);
    assert_eq!(decode::<u64>(&[]), None);

    assert_eq!(decode::<u32>(&[232, 3, 0, 0]), Some(1000));
    assert_eq!(decode::<u32>(&[4, 3, 2, 1]), Some(0x01020304));
    assert_eq!(u32::decode_front(&[1, 0, 0, 0, 99, 98]), Some((1, 4)));
    assert_eq!(decode::<u32>(&[1, 0, 0]), None);
    assert_eq!(decode::<u32>(&[]), None);
}

#[test]
fn account_id_is_decoded_as_its_number() {
    assert!(decode::<AccountId>(&[232, 3, 0, 0]) == Some(AccountId(1000)));
    assert!(decode::<AccountId>(&AccountId(42).encode()) == Some(AccountId(42)));
    assert!(AccountId::decode_front(&[7, 0, 0, 0, 1]) == Some((AccountId(7), 4)));
    assert!(decode::<AccountId>(&[7, 0, 0]).is_none());
    for id in [0u32, 1, 255, 256, 65535, 65536, u32::MAX] {
        assert_eq!(decode::<u32>(&id.encode()), Some(id));
        assert!(decode::<AccountId>(&AccountId(id).encode()) == Some(AccountId(id)));
    }
}

#[test]
fn account_balance_is_encoded_field_after_field() {
    let balance: AccountBalance<MyRuntime> = AccountBalance {
        free: 258,
        reserved: 3,
    };
    let bytes = balance.encode();
    assert_eq!(bytes, vec![2, 1, 0, 0, 0, 0, 0, 0, 3, 0, 0, 0, 0, 0, 0, 0]);
    let (back, taken) = AccountBalance::<MyRuntime>::decode_front(&bytes).unwrap();
    assert_eq!((back.free, back.reserved, taken), (258, 3, 16));
    assert!(decode::<AccountBalance<MyRuntime>>(&bytes[..15]).is_none());
    assert!(decode::<AccountBalance<MyRuntime>>(&bytes[..7]).is_none());
}

#[test]
fn round_trip_of_persisted_values() {
    for value in [0u64, 1, 5, 255, 256, 1 << 32, u64::MAX - 1, u64::MAX] {
        assert_eq!(decode::<u64>(&value.encode()), Some(value));
        let balance: AccountBalance<MyRuntime> = AccountBalance {
            free: value,
            reserved: u64::MAX - value,
        };
        let back = decode::<AccountBalance<MyRuntime>>(&balance.encode()).unwrap();
        assert_eq!((back.free, back.reserved), (value, u64::MAX - value));
    }
}

#[test]
fn key_derivation() {
    assert_eq!(value_key("TotalIssuance"), b"TotalIssuance".to_vec());
    assert_eq!(map_key("Balances", &7u32), b"Balances_\x07\x00\x00\x00".to_vec());
    assert_eq!(
        BalancesMap::<MyRuntime>::raw_storage_key(AccountId(42)),
        b"BalancesMap_\x2a\x00\x00\x00".to_vec()
    );
    assert_eq!(
        BalancesMap::<MyRuntime>::raw_storage_key(AccountId(0x01020304)),
        b"BalancesMap_\x04\x03\x02\x01".to_vec()
    );
}

#[test]
fn keys_of_different_accounts_differ() {
    let ids = [0u32, 1, 42, 255, 256, 65536, u32::MAX];
    for a in ids {
        for b in ids {
            let same = BalancesMap::<MyRuntime>::raw_storage_key(AccountId(a))
                == BalancesMap::<MyRuntime>::raw_storage_key(AccountId(b));
            assert_eq!(same, a == b);
        }
        assert_ne!(
            BalancesMap::<MyRuntime>::raw_storage_key(AccountId(a)),
            TotalIssuance::<MyRuntime>::raw_storage_key()
        );
    }
}

#[test]
fn storage_value_operations() {
    let mut store = Storage::new();
    assert_eq!(TotalIssuance::<MyRuntime>::get(&store), None);
    assert!(!TotalIssuance::<MyRuntime>::is_present(&store));

    TotalIssuance::<MyRuntime>::set(&mut store, 42);
    assert_eq!(TotalIssuance::<MyRuntime>::get(&store), Some(42));
    assert!(TotalIssuance::<MyRuntime>::is_present(&store));
    assert_eq!(
        io_storage::get(&store, b"TotalIssuance".to_vec()),
        Some(vec![42, 0, 0, 0, 0, 0, 0, 0])
    );

    TotalIssuance::<MyRuntime>::clear(&mut store);
    assert_eq!(TotalIssuance::<MyRuntime>::get(&store), None);
    assert!(!TotalIssuance::<MyRuntime>::is_present(&store));

    TotalIssuance::<MyRuntime>::mutate(&mut store, |maybe_v| {
        assert!(maybe_v.is_none());
        *maybe_v = Some(69);
    });
    assert_eq!(TotalIssuance::<MyRuntime>::get(&store), Some(69));

    TotalIssuance::<MyRuntime>::mutate(&mut store, |maybe_v| {
        assert_eq!(*maybe_v, Some(69));
        *maybe_v = Some(77);
    });
    assert_eq!(TotalIssuance::<MyRuntime>::get(&store), Some(77));

    TotalIssuance::<MyRuntime>::mutate(&mut store, |maybe_v| {
        assert!(maybe_v.is_some());
        *maybe_v = None;
    });
    assert_eq!(TotalIssuance::<MyRuntime>::get(&store), None);
    assert_eq!(io_storage::get(&store, b"TotalIssuance".to_vec()), None);
}

#[test]
fn storage_map_operations() {
    let mut store = Storage::new();
    let free_of = |store: &Storage, id: u32| {
        BalancesMap::<MyRuntime>::get(store, AccountId(id)).map(|b| (b.free, b.reserved))
    };
    assert_eq!(free_of(&store, 42), None);
    assert!(!BalancesMap::<MyRuntime>::is_present(&store, AccountId(42)));

    BalancesMap::<MyRuntime>::set(
        &mut store,
        AccountId(42),
        AccountBalance {
            free: 10,
            reserved: 20,
        },
    );
    assert_eq!(free_of(&store, 42), Some((10, 20)));
    assert!(BalancesMap::<MyRuntime>::is_present(&store, AccountId(42)));
    assert_eq!(free_of(&store, 43), None);
    assert!(!BalancesMap::<MyRuntime>::is_present(&store, AccountId(43)));

    BalancesMap::<MyRuntime>::clear(&mut store, AccountId(42));
    assert_eq!(free_of(&store, 42), None);

    BalancesMap::<MyRuntime>::mutate(&mut store, AccountId(42), |maybe_v| {
        assert!(maybe_v.is_none());
        *maybe_v = Some(AccountBalance {
            free: 1,
            reserved: 2,
        });
    });
    assert_eq!(free_of(&store, 42), Some((1, 2)));

    BalancesMap::<MyRuntime>::mutate(&mut store, AccountId(42), |maybe_v| {
        let held = maybe_v.as_mut().unwrap();
        held.free = 8;
    });
    assert_eq!(free_of(&store, 42), Some((8, 2)));

    BalancesMap::<MyRuntime>::mutate(&mut store, AccountId(42), |maybe_v| {
        *maybe_v = None;
    });
    assert_eq!(free_of(&store, 42), None);
    assert!(!BalancesMap::<MyRuntime>::is_present(&store, AccountId(42)));
}

// Stored bytes that do not decode count as no value; bytes behind a value are ignored.
#[test]
fn unreadable_bytes_count_as_absent() {
    let mut store = Storage::new();
    io_storage::set(&mut store, b"TotalIssuance".to_vec(), vec![1, 2, 3]);
    assert_eq!(TotalIssuance::<MyRuntime>::get(&store), None);
    assert!(!TotalIssuance::<MyRuntime>::is_present(&store));

    io_storage::set(
        &mut store,
        b"TotalIssuance".to_vec(),
        vec![9, 0, 0, 0, 0, 0, 0, 0, 77, 77],
    );
    assert_eq!(TotalIssuance::<MyRuntime>::get(&store), Some(9));

    let key = BalancesMap::<MyRuntime>::raw_storage_key(AccountId(1));
    io_storage::set(&mut store, key, vec![0; 15]);
    assert!(BalancesMap::<MyRuntime>::get(&store, AccountId(1)).is_none());
}

#[test]
fn balance_arithmetic_is_checked() {
    assert_eq!(<u64 as BalanceT>::zero(), 0);
    assert!(BalanceT::is_zero(&0u64));
    assert!(!BalanceT::is_zero(&1u64));
    assert_eq!(BalanceT::checked_add(&2u64, &3u64), Some(5));
    assert_eq!(BalanceT::checked_add(&u64::MAX, &1u64), None);
    assert_eq!(BalanceT::checked_add(&u64::MAX, &0u64), Some(u64::MAX));
    assert_eq!(BalanceT::checked_sub(&5u64, &3u64), Some(2));
    assert_eq!(BalanceT::checked_sub(&3u64, &5u64), None);
    assert_eq!(BalanceT::checked_sub(&3u64, &3u64), Some(0));
    assert!(BalanceT::at_least(&5u64, &5u64));
    assert!(!BalanceT::at_least(&4u64, &5u64));
}
