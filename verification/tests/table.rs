use pvault::account::{Account, AccountKey};
use pvault::table::AccountTable;

fn account(balance: i64) -> Account {
    Account {
        balance,
        owner: None,
    }
}

fn keys_of(table: &AccountTable) -> Vec<AccountKey> {
    table.entries().iter().map(|(key, _)| key.clone()).collect()
}

#[test]
fn players_come_first_then_names_in_order() {
    let mut table = AccountTable::new();
    table.insert(AccountKey::Named("shop:till".to_string()), account(1));
    table.insert(AccountKey::Player([9; 16]), account(2));
    table.insert(AccountKey::Named("bank:vault".to_string()), account(3));
    table.insert(AccountKey::Player([1; 16]), account(4));
    table.insert(AccountKey::Named("shop:safe".to_string()), account(5));
    assert_eq!(
        keys_of(&table),
        vec![
            AccountKey::Player([1; 16]),
            AccountKey::Player([9; 16]),
            AccountKey::Named("bank:vault".to_string()),
            AccountKey::Named("shop:safe".to_string()),
            AccountKey::Named("shop:till".to_string()),
        ]
    );
}

#[test]
fn entries_follow_the_order_keys_sort_in() {
    let mut keys = vec![
        AccountKey::Named("z:a".to_string()),
        AccountKey::Named("a:z".to_string()),
        AccountKey::Named("a:é".to_string()),
        AccountKey::Named("a:zz".to_string()),
        AccountKey::Named("A:b".to_string()),
        AccountKey::Named("a:\u{1F600}".to_string()),
        AccountKey::Player([0xff; 16]),
        AccountKey::Player([0; 16]),
        AccountKey::Player([0, 0, 0, 0, 0, 0, 0, 0, 0, 0, 0, 0, 0, 0, 0, 1]),
        AccountKey::Player([1, 0, 0, 0, 0, 0, 0, 0, 0, 0, 0, 0, 0, 0, 0, 0]),
    ];
    let mut table = AccountTable::new();
    for (i, key) in keys.iter().enumerate() {
        table.insert(key.clone(), account(i as i64));
    }
    keys.sort();
    assert_eq!(keys_of(&table), keys);
}

#[test]
fn replacing_and_removing_keep_the_order() {
    let mut table = AccountTable::new();
    table.insert(AccountKey::Named("b:b".to_string()), account(1));
    table.insert(AccountKey::Named("a:a".to_string()), account(2));
    table.insert(AccountKey::Named("c:c".to_string()), account(3));
    table.insert(AccountKey::Named("b:b".to_string()), account(10));
    assert_eq!(table.len(), 3);
    assert_eq!(table.get(&AccountKey::Named("b:b".to_string())), Some(&account(10)));
    table.remove(&AccountKey::Named("a:a".to_string()));
    table.remove(&AccountKey::Named("x:x".to_string()));
    assert_eq!(
        keys_of(&table),
        vec![
            AccountKey::Named("b:b".to_string()),
            AccountKey::Named("c:c".to_string()),
        ]
    );
    assert!(!table.contains_key(&AccountKey::Named("a:a".to_string())));
}

#[test]
fn keys_precede_as_they_sort() {
    let a = AccountKey::Player([3; 16]);
    let b = AccountKey::Named("a:a".to_string());
    let c = AccountKey::Named("a:b".to_string());
    let d = AccountKey::Named("a:ba".to_string());
    assert!(a.precedes(&b));
    assert!(!b.precedes(&a));
    assert!(b.precedes(&c));
    assert!(c.precedes(&d));
    assert!(!d.precedes(&c));
    assert!(!c.precedes(&c));
    assert!(!a.precedes(&a));
}
