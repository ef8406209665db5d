use pvault::account::AccountKey;
use pvault::config::Config;
use pvault::journal::{log_lines, DecodedLine, Snapshot, SNAPSHOT_FORMAT};
use pvault::ledger::{Economy, ADMIN_SENDER};
use pvault::proto::account_id::Kind;
use pvault::proto::request;
use pvault::proto::response;
use pvault::proto::{
    spec_version, AccountId, CreateAccount, DeleteAccount, Deposit, ErrorCode, GetBalance,
    Request, Response, SetBalance, Transfer, Version, Withdraw,
};
use pvault::recover;
use pvault::table::AccountTable;

const ALICE: [u8; 16] = [1; 16];
const BOB: [u8; 16] = [2; 16];

fn economy() -> Economy {
    Economy::new(Config {
        starting_balance: 100,
        ..Config::default()
    })
}

/// Runs a request the way the plugin does: plan, then apply.
fn send(economy: &mut Economy, sender: &str, body: request::Body) -> Response {
    let outcome = economy.plan(sender, 0, &Request::new(body));
    if let Some(entry) = &outcome.entry {
        economy.apply(entry);
    }
    outcome.response
}

fn error_code(response: &Response) -> ErrorCode {
    match &response.body {
        Some(response::Body::Error(error)) => error.code(),
        other => panic!("expected an error, got {other:?}"),
    }
}

fn balance_of(response: &Response) -> i64 {
    match &response.body {
        Some(response::Body::Balance(balance)) => balance.amount,
        other => panic!("expected a balance, got {other:?}"),
    }
}

fn deposit(account: AccountId, amount: i64) -> request::Body {
    request::Body::Deposit(Deposit {
        account: Some(account),
        amount,
        reason: String::new(),
    })
}

fn withdraw(account: AccountId, amount: i64) -> request::Body {
    request::Body::Withdraw(Withdraw {
        account: Some(account),
        amount,
        reason: String::new(),
    })
}

fn get_balance(account: AccountId) -> request::Body {
    request::Body::GetBalance(GetBalance {
        account: Some(account),
    })
}

fn create(account: AccountId, initial: Option<i64>) -> request::Body {
    request::Body::CreateAccount(CreateAccount {
        account: Some(account),
        initial_balance: initial,
    })
}

#[test]
fn unknown_players_report_the_starting_balance_without_being_created() {
    let mut economy = economy();
    let response = send(&mut economy, "shop", get_balance(AccountId::player(ALICE)));

    assert_eq!(balance_of(&response), 100);
    assert!(economy.accounts().is_empty());
}

#[test]
fn depositing_materializes_a_player_account() {
    let mut economy = economy();
    let response = send(&mut economy, "shop", deposit(AccountId::player(ALICE), 250));

    assert_eq!(balance_of(&response), 350);
    assert!(economy.account_exists(&AccountKey::Player(ALICE)));
    assert_eq!(economy.seq(), 1);
}

#[test]
fn a_failed_withdrawal_changes_nothing() {
    let mut economy = economy();
    let response = send(
        &mut economy,
        "shop",
        withdraw(AccountId::player(ALICE), 500),
    );

    assert_eq!(error_code(&response), ErrorCode::InsufficientFunds);
    match response.body {
        Some(response::Body::Error(error)) => assert_eq!(error.balance, 100),
        other => panic!("expected an error, got {other:?}"),
    }
    assert_eq!(economy.balance(&AccountKey::Player(ALICE)), 100);
    assert_eq!(economy.seq(), 0);
}

#[test]
fn transfers_move_both_balances_or_neither() {
    let mut economy = economy();
    let response = send(
        &mut economy,
        "shop",
        request::Body::Transfer(Transfer {
            from: Some(AccountId::player(ALICE)),
            to: Some(AccountId::player(BOB)),
            amount: 40,
            reason: "trade".into(),
        }),
    );

    match response.body {
        Some(response::Body::Transfer(result)) => {
            assert_eq!(result.from.unwrap().amount, 60);
            assert_eq!(result.to.unwrap().amount, 140);
        }
        other => panic!("expected a transfer result, got {other:?}"),
    }

    let failed = send(
        &mut economy,
        "shop",
        request::Body::Transfer(Transfer {
            from: Some(AccountId::player(ALICE)),
            to: Some(AccountId::player(BOB)),
            amount: 1_000,
            reason: String::new(),
        }),
    );
    assert_eq!(error_code(&failed), ErrorCode::InsufficientFunds);
    assert_eq!(economy.balance(&AccountKey::Player(ALICE)), 60);
    assert_eq!(economy.balance(&AccountKey::Player(BOB)), 140);
}

#[test]
fn an_account_cannot_pay_itself() {
    let mut economy = economy();
    let response = send(
        &mut economy,
        "shop",
        request::Body::Transfer(Transfer {
            from: Some(AccountId::player(ALICE)),
            to: Some(AccountId::player(ALICE)),
            amount: 10,
            reason: String::new(),
        }),
    );

    assert_eq!(error_code(&response), ErrorCode::InvalidAccount);
}

#[test]
fn named_accounts_must_be_created_before_use() {
    let mut economy = economy();
    let till = AccountId::named("shop", "till");

    let response = send(&mut economy, "shop", deposit(till.clone(), 10));
    assert_eq!(error_code(&response), ErrorCode::AccountNotFound);

    send(&mut economy, "shop", create(till.clone(), Some(500)));
    let response = send(&mut economy, "shop", deposit(till.clone(), 10));
    assert_eq!(balance_of(&response), 510);

    let again = send(&mut economy, "shop", create(till, None));
    assert_eq!(error_code(&again), ErrorCode::AccountExists);
}

#[test]
fn only_the_owner_may_reset_a_named_account() {
    let mut economy = economy();
    let till = AccountId::named("shop", "till");
    send(&mut economy, "shop", create(till.clone(), Some(500)));

    let set = |amount| {
        request::Body::SetBalance(SetBalance {
            account: Some(till.clone()),
            amount,
            reason: String::new(),
        })
    };

    assert_eq!(
        error_code(&send(&mut economy, "casino", set(0))),
        ErrorCode::PermissionDenied
    );
    assert_eq!(balance_of(&send(&mut economy, "shop", set(20))), 20);
    assert_eq!(balance_of(&send(&mut economy, ADMIN_SENDER, set(7))), 7);
}

#[test]
fn anyone_may_pay_into_someone_elses_named_account() {
    let mut economy = economy();
    let till = AccountId::named("shop", "till");
    send(&mut economy, "shop", create(till.clone(), Some(0)));

    assert_eq!(
        balance_of(&send(&mut economy, "casino", deposit(till, 25))),
        25
    );
}

#[test]
fn deleting_a_named_account_needs_ownership_too() {
    let mut economy = economy();
    let till = AccountId::named("shop", "till");
    send(&mut economy, "shop", create(till.clone(), Some(5)));

    let delete = request::Body::DeleteAccount(DeleteAccount {
        account: Some(till.clone()),
    });
    assert_eq!(
        error_code(&send(&mut economy, "casino", delete.clone())),
        ErrorCode::PermissionDenied
    );

    send(&mut economy, "shop", delete);
    assert!(!economy.account_exists(&AccountKey::Named("shop:till".into())));
}

#[test]
fn negative_amounts_are_rejected() {
    let mut economy = economy();
    let response = send(&mut economy, "shop", deposit(AccountId::player(ALICE), -1));

    assert_eq!(error_code(&response), ErrorCode::InvalidAmount);
}

#[test]
fn balances_cannot_overflow() {
    let mut economy = economy();
    send(
        &mut economy,
        ADMIN_SENDER,
        request::Body::SetBalance(SetBalance {
            account: Some(AccountId::player(ALICE)),
            amount: i64::MAX,
            reason: String::new(),
        }),
    );

    let response = send(&mut economy, "shop", deposit(AccountId::player(ALICE), 1));
    assert_eq!(error_code(&response), ErrorCode::Overflow);
}

#[test]
fn malformed_account_ids_are_named_as_such() {
    let mut economy = economy();

    let bad_uuid = AccountId {
        kind: Some(Kind::Player(vec![0; 4])),
    };
    assert_eq!(
        error_code(&send(&mut economy, "shop", get_balance(bad_uuid))),
        ErrorCode::InvalidAccount
    );

    let bad_name = AccountId {
        kind: Some(Kind::Named("no-namespace".into())),
    };
    assert_eq!(
        error_code(&send(&mut economy, "shop", get_balance(bad_name))),
        ErrorCode::InvalidAccount
    );
}

#[test]
fn a_different_major_version_is_turned_away() {
    let economy = economy();
    let request = Request {
        version: Some(Version {
            major: spec_version().major + 1,
            minor: 0,
            patch: 0,
        }),
        body: Some(get_balance(AccountId::player(ALICE))),
    };

    let outcome = economy.plan("shop", 0, &request);
    assert_eq!(error_code(&outcome.response), ErrorCode::VersionMismatch);
    assert!(outcome.entry.is_none());
}

#[test]
fn a_newer_minor_version_is_served() {
    let economy = economy();
    let request = Request {
        version: Some(Version {
            major: spec_version().major,
            minor: spec_version().minor + 5,
            patch: 0,
        }),
        body: Some(get_balance(AccountId::player(ALICE))),
    };

    let outcome = economy.plan("shop", 0, &request);
    assert_eq!(balance_of(&outcome.response), 100);
    assert_eq!(outcome.response.version, Some(spec_version()));
}

#[test]
fn a_body_we_do_not_understand_is_reported_clearly() {
    let economy = economy();
    let request = Request {
        version: Some(spec_version()),
        body: None,
    };

    assert_eq!(
        error_code(&economy.plan("shop", 0, &request).response),
        ErrorCode::UnknownRequest
    );
}

#[test]
fn recovery_replays_the_log_on_top_of_the_snapshot() {
    let mut economy = economy();
    let mut log = Vec::new();

    for (number, amount) in [10, 20, 30].into_iter().enumerate() {
        let outcome = economy.plan(
            "shop",
            0,
            &Request::new(deposit(AccountId::player(ALICE), amount)),
        );
        let entry = outcome.entry.unwrap();
        economy.apply(&entry);
        log.push(DecodedLine {
            number: number + 1,
            entry: Ok(entry),
        });
    }

    let snapshot = economy.snapshot().check_format().ok().unwrap();
    let (recovered, problems) = recover(economy.config().clone(), Some(snapshot), log);

    assert!(problems.is_empty());
    assert_eq!(recovered.balance(&AccountKey::Player(ALICE)), 160);
    assert_eq!(recovered.seq(), economy.seq());
}

#[test]
fn a_half_written_final_log_line_is_dropped_with_a_warning() {
    let mut economy = economy();
    let mut log = Vec::new();

    for (number, amount) in [10, 20].into_iter().enumerate() {
        let outcome = economy.plan(
            "shop",
            0,
            &Request::new(deposit(AccountId::player(ALICE), amount)),
        );
        let entry = outcome.entry.unwrap();
        economy.apply(&entry);
        log.push(DecodedLine {
            number: number + 1,
            entry: Ok(entry),
        });
    }
    // "{\"seq\":3,\"time\":0,\"sender\":\"sh" does not decode.
    log.push(DecodedLine {
        number: 3,
        entry: Err("EOF while parsing a string at line 1 column 33".into()),
    });

    let (recovered, problems) = recover(
        Config {
            starting_balance: 100,
            ..Config::default()
        },
        None,
        log,
    );

    assert_eq!(problems.len(), 1);
    assert_eq!(recovered.balance(&AccountKey::Player(ALICE)), 130);
    assert_eq!(recovered.seq(), 2);
}

#[test]
fn replaying_the_same_entry_twice_is_harmless() {
    let mut economy = economy();
    let outcome = economy.plan(
        "shop",
        0,
        &Request::new(deposit(AccountId::player(ALICE), 40)),
    );
    let entry = outcome.entry.unwrap();

    economy.apply(&entry);
    economy.apply(&entry);

    assert_eq!(economy.balance(&AccountKey::Player(ALICE)), 140);
}

#[test]
fn journal_text_splits_into_numbered_lines() {
    let lines = log_lines("first\r\n\n  \nsecond\nthird\r");
    let numbered: Vec<(usize, String)> = lines.into_iter().map(|l| (l.number, l.text)).collect();
    assert_eq!(
        numbered,
        vec![
            (1, "first".to_string()),
            (4, "second".to_string()),
            (5, "third\r".to_string()),
        ]
    );
    assert!(log_lines("").is_empty());
    assert!(log_lines("\n\n").is_empty());
}

#[test]
fn problems_name_the_line_they_are_on() {
    let (economy, problems) = recover(
        Config::default(),
        None,
        vec![DecodedLine {
            number: 7,
            entry: Err("expected value".into()),
        }],
    );
    assert_eq!(problems, vec!["log line 7: expected value".to_string()]);
    assert_eq!(economy.seq(), 0);
}

#[test]
fn recovery_skips_entries_the_snapshot_already_holds() {
    let mut economy = economy();
    let mut log = Vec::new();
    for (number, amount) in [10, 20, 30, 40].into_iter().enumerate() {
        let outcome = economy.plan(
            "shop",
            0,
            &Request::new(deposit(AccountId::player(ALICE), amount)),
        );
        let entry = outcome.entry.unwrap();
        economy.apply(&entry);
        log.push(entry);
        if number == 1 {
            // The snapshot is taken after the second deposit.
            let snapshot = economy.snapshot();
            let replayed: Vec<DecodedLine> = Vec::new();
            let (at_snapshot, _) = recover(economy.config().clone(), Some(snapshot), replayed);
            assert_eq!(at_snapshot.balance(&AccountKey::Player(ALICE)), 130);
        }
    }
    let mut partial = Economy::new(economy.config().clone());
    for entry in &log[..2] {
        partial.apply(entry);
    }
    let lines: Vec<DecodedLine> = log
        .into_iter()
        .enumerate()
        .map(|(i, entry)| DecodedLine {
            number: i + 1,
            entry: Ok(entry),
        })
        .collect();
    let (recovered, problems) = recover(economy.config().clone(), Some(partial.snapshot()), lines);
    assert!(problems.is_empty());
    assert_eq!(recovered.balance(&AccountKey::Player(ALICE)), 200);
    assert_eq!(recovered.seq(), 4);
}

#[test]
fn error_messages_name_the_account() {
    let mut economy = economy();
    let till = AccountId::named("shop", "till");
    let message = |response: &Response| match &response.body {
        Some(response::Body::Error(error)) => error.message.clone(),
        other => panic!("expected an error, got {other:?}"),
    };

    let missing = send(&mut economy, "shop", deposit(till.clone(), 1));
    assert_eq!(message(&missing), "no account named shop:till");

    send(&mut economy, "shop", create(till.clone(), None));
    let again = send(&mut economy, "shop", create(till.clone(), None));
    assert_eq!(message(&again), "account shop:till already exists");

    let denied = send(
        &mut economy,
        "casino",
        request::Body::SetBalance(SetBalance {
            account: Some(till),
            amount: 1,
            reason: String::new(),
        }),
    );
    assert_eq!(message(&denied), "account shop:till belongs to shop");

    let old = economy.plan(
        "shop",
        0,
        &Request {
            version: Some(Version {
                major: 2,
                minor: 3,
                patch: 4,
            }),
            body: None,
        },
    );
    assert_eq!(message(&old.response), "PVault speaks 1.0.0, this message is for 2.3.4");

    let unversioned = economy.plan("shop", 0, &Request { version: None, body: None });
    assert_eq!(error_code(&unversioned.response), ErrorCode::Malformed);
}

#[test]
fn creating_uses_the_right_default_balance_and_owner() {
    let mut economy = economy();
    let player = send(&mut economy, "shop", create(AccountId::player(BOB), None));
    match player.body {
        Some(response::Body::Account(status)) => {
            assert!(status.exists);
            assert_eq!(status.balance, 100);
        }
        other => panic!("expected an account status, got {other:?}"),
    }
    send(&mut economy, "shop", create(AccountId::named("shop", "till"), None));
    let key = AccountKey::Named("shop:till".into());
    assert_eq!(economy.balance(&key), 0);
    let account = economy.accounts().get(&key).unwrap();
    assert_eq!(account.owner.as_deref(), Some("shop"));
    let bob = economy.accounts().get(&AccountKey::Player(BOB)).unwrap();
    assert_eq!(bob.owner, None);
}

#[test]
fn deleting_a_player_resets_them_to_the_starting_balance() {
    let mut economy = economy();
    send(&mut economy, "shop", deposit(AccountId::player(ALICE), 50));
    assert_eq!(economy.balance(&AccountKey::Player(ALICE)), 150);
    let response = send(
        &mut economy,
        "shop",
        request::Body::DeleteAccount(DeleteAccount {
            account: Some(AccountId::player(ALICE)),
        }),
    );
    match response.body {
        Some(response::Body::Account(status)) => {
            assert!(!status.exists);
            assert_eq!(status.balance, 0);
        }
        other => panic!("expected an account status, got {other:?}"),
    }
    assert_eq!(economy.balance(&AccountKey::Player(ALICE)), 100);
    assert!(!economy.account_exists(&AccountKey::Player(ALICE)));
}

#[test]
fn deleting_a_player_who_never_had_an_account_succeeds() {
    let mut economy = economy();
    let response = send(
        &mut economy,
        "shop",
        request::Body::DeleteAccount(DeleteAccount {
            account: Some(AccountId::player(BOB)),
        }),
    );
    match response.body {
        Some(response::Body::Account(status)) => {
            assert!(!status.exists);
            assert_eq!(status.balance, 0);
        }
        other => panic!("expected an account status, got {other:?}"),
    }
    assert_eq!(economy.seq(), 1);
    assert_eq!(economy.balance(&AccountKey::Player(BOB)), 100);
    assert!(!economy.account_exists(&AccountKey::Player(BOB)));
    let read = send(&mut economy, "shop", get_balance(AccountId::player(BOB)));
    assert_eq!(balance_of(&read), 100);
}

#[test]
fn deleting_a_named_account_that_was_never_created_is_refused() {
    let mut economy = economy();
    let response = send(
        &mut economy,
        "shop",
        request::Body::DeleteAccount(DeleteAccount {
            account: Some(AccountId::named("shop", "till")),
        }),
    );
    assert_eq!(error_code(&response), ErrorCode::AccountNotFound);
    assert_eq!(economy.seq(), 0);
}

#[test]
fn queries_report_without_changing_anything() {
    let mut economy = economy();
    let has = send(
        &mut economy,
        "shop",
        request::Body::HasBalance(pvault::proto::HasBalance {
            account: Some(AccountId::player(ALICE)),
            amount: 101,
        }),
    );
    match has.body {
        Some(response::Body::HasBalance(result)) => {
            assert!(!result.sufficient);
            assert_eq!(result.balance, 100);
        }
        other => panic!("expected a balance check, got {other:?}"),
    }
    let exists = send(
        &mut economy,
        "shop",
        request::Body::AccountExists(pvault::proto::AccountExists {
            account: Some(AccountId::player(ALICE)),
        }),
    );
    match exists.body {
        Some(response::Body::Account(status)) => {
            assert!(!status.exists);
            assert_eq!(status.balance, 100);
        }
        other => panic!("expected an account status, got {other:?}"),
    }
    let currency = send(
        &mut economy,
        "shop",
        request::Body::GetCurrency(pvault::proto::GetCurrency {}),
    );
    match currency.body {
        Some(response::Body::Currency(info)) => {
            assert_eq!(info.name, "coin");
            assert_eq!(info.plural, "coins");
            assert_eq!(info.symbol, "$");
            assert_eq!(info.fraction_digits, 2);
            assert_eq!(info.starting_balance, 100);
        }
        other => panic!("expected currency information, got {other:?}"),
    }
    assert_eq!(economy.seq(), 0);
    assert!(economy.accounts().is_empty());
}

#[test]
fn journal_entries_record_the_change() {
    let economy = economy();
    let outcome = economy.plan(
        "shop",
        42,
        &Request::new(request::Body::Transfer(Transfer {
            from: Some(AccountId::player(ALICE)),
            to: Some(AccountId::player(BOB)),
            amount: 30,
            reason: "trade".into(),
        })),
    );
    let entry = outcome.entry.unwrap();
    assert_eq!(entry.seq, 1);
    assert_eq!(entry.time, 42);
    assert_eq!(entry.sender, "shop");
    assert_eq!(entry.op, "transfer");
    assert_eq!(entry.reason, "trade");
    assert_eq!(entry.effects.len(), 2);
    let withdrawn = match &entry.effects[0] {
        pvault::journal::Effect::Assign { balance, .. } => *balance,
        other => panic!("expected an assignment, got {other:?}"),
    };
    assert_eq!(withdrawn, 70);
    assert_eq!(entry.effects[1].account(), &AccountKey::Player(BOB));
}

#[test]
fn sending_the_same_deposit_twice_deposits_twice() {
    let mut economy = economy();
    send(&mut economy, "shop", deposit(AccountId::player(ALICE), 5));
    send(&mut economy, "shop", deposit(AccountId::player(ALICE), 5));
    assert_eq!(economy.balance(&AccountKey::Player(ALICE)), 110);
    assert_eq!(economy.seq(), 2);
}

#[test]
fn a_transfer_keeps_the_sum_of_both_balances() {
    let mut economy = economy();
    let before = economy.balance(&AccountKey::Player(ALICE)) + economy.balance(&AccountKey::Player(BOB));
    send(
        &mut economy,
        "shop",
        request::Body::Transfer(Transfer {
            from: Some(AccountId::player(ALICE)),
            to: Some(AccountId::player(BOB)),
            amount: 100,
            reason: String::new(),
        }),
    );
    assert_eq!(economy.balance(&AccountKey::Player(ALICE)), 0);
    let after = economy.balance(&AccountKey::Player(ALICE)) + economy.balance(&AccountKey::Player(BOB));
    assert_eq!(before, after);
}

#[test]
fn pvault_itself_may_delete_any_named_account() {
    let mut economy = economy();
    let till = AccountId::named("shop", "till");
    send(&mut economy, "shop", create(till.clone(), Some(5)));
    send(
        &mut economy,
        ADMIN_SENDER,
        request::Body::DeleteAccount(DeleteAccount { account: Some(till) }),
    );
    assert!(economy.accounts().is_empty());
}

#[test]
fn a_full_journal_still_answers_reads_but_takes_no_writes() {
    let economy = Economy::from_snapshot(
        Config {
            starting_balance: 100,
            ..Config::default()
        },
        Snapshot {
            format: SNAPSHOT_FORMAT,
            seq: u64::MAX,
            accounts: AccountTable::new(),
        },
    );
    let read = economy
        .try_plan("shop", 0, &Request::new(get_balance(AccountId::player(ALICE))))
        .expect("a read is still answered");
    assert!(read.entry.is_none());
    assert_eq!(balance_of(&read.response), 100);
    assert!(economy
        .try_plan("shop", 0, &Request::new(deposit(AccountId::player(ALICE), 5)))
        .is_none());
    let refused = economy
        .try_plan("shop", 0, &Request::new(withdraw(AccountId::player(ALICE), 500)))
        .expect("a refusal is still answered");
    assert!(refused.entry.is_none());
    assert_eq!(error_code(&refused.response), ErrorCode::InsufficientFunds);
}

#[test]
fn try_plan_matches_plan_while_the_journal_has_room() {
    let economy = economy();
    let request = Request::new(deposit(AccountId::player(ALICE), 5));
    let planned = economy.plan("shop", 7, &request);
    let tried = economy.try_plan("shop", 7, &request).expect("room in the journal");
    assert_eq!(tried.response, planned.response);
    assert_eq!(tried.entry.map(|e| e.seq), Some(1));
    assert_eq!(balance_of(&tried.response), 105);
}
