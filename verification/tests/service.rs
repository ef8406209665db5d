use pvault::client::account;
use pvault::client::{Economy as Client, Error, Reply};
use pvault::commands::{describe, eco_body, pay_body, Action};
use pvault::config::Config;
use pvault::ledger::Economy;
use pvault::proto::{request, response, AccountId, ErrorCode, Request, Response, Version};
use pvault::service::{format_money, needs_compaction, settle};

fn deposit(amount: i64) -> Request {
    Request::new(request::Body::Deposit(request::Deposit {
        account: Some(AccountId::player([3; 16])),
        amount,
        reason: "test".into(),
    }))
}

#[test]
fn an_entry_that_cannot_be_journalled_is_not_applied() {
    let mut economy = Economy::new(Config::default());
    let outcome = economy.plan("shop", 0, &deposit(10));
    let response = settle(&mut economy, outcome, false);
    match response.body {
        Some(response::Body::Error(error)) => {
            assert_eq!(error.code(), ErrorCode::StorageError);
            assert_eq!(
                error.message,
                "the transaction could not be written to disk, so it was not applied"
            );
        }
        other => panic!("expected an error, got {other:?}"),
    }
    assert_eq!(economy.seq(), 0);

    let outcome = economy.plan("shop", 0, &deposit(10));
    settle(&mut economy, outcome, true);
    assert_eq!(economy.seq(), 1);
}

#[test]
fn compaction_is_due_at_the_threshold() {
    assert!(!needs_compaction(99, 100));
    assert!(needs_compaction(100, 100));
}

#[test]
fn money_is_shown_with_its_symbol() {
    let config = Config::default();
    assert_eq!(format_money(&config, 1205), "$12.05");
    assert_eq!(format_money(&config, -3), "$-0.03");
}

#[test]
fn sanitize_brings_settings_into_range() {
    let mut config = Config {
        fraction_digits: 12,
        starting_balance: -5,
        autosave_ticks: 3,
        log_compaction_threshold: 7,
        ..Config::default()
    };
    config.sanitize();
    assert_eq!(config.fraction_digits, 9);
    assert_eq!(config.starting_balance, 0);
    assert_eq!(config.autosave_ticks, 20);
    assert_eq!(config.log_compaction_threshold, 100);
    let before = config.clone();
    config.sanitize();
    assert_eq!(config, before);
}

#[test]
fn eco_actions_become_requests() {
    let id = AccountId::player([5; 16]);
    assert!(matches!(
        eco_body(Action::Give, id.clone(), 3, "r".into()),
        request::Body::Deposit(_)
    ));
    assert!(matches!(
        eco_body(Action::Take, id.clone(), 3, "r".into()),
        request::Body::Withdraw(_)
    ));
    assert!(matches!(
        eco_body(Action::Reset, id.clone(), 3, "r".into()),
        request::Body::SetBalance(_)
    ));
    assert!(matches!(
        pay_body(id.clone(), AccountId::player([6; 16]), 3, "r".into()),
        request::Body::Transfer(_)
    ));
}

#[test]
fn failures_are_described_by_their_message() {
    assert_eq!(
        describe(&Response::error(ErrorCode::Overflow, "too much".into())),
        "too much"
    );
    assert_eq!(
        describe(&Response::new(response::Body::Account(pvault::proto::AccountStatus {
            exists: true,
            balance: 1
        }))),
        "PVault returned something unexpected."
    );
}

#[test]
fn player_ids_are_the_uuid_big_endian() {
    let id = account::player(0x0011_2233_4455_6677, 0x8899_aabb_ccdd_eeff);
    assert_eq!(
        id,
        AccountId::player([
            0x00, 0x11, 0x22, 0x33, 0x44, 0x55, 0x66, 0x77, 0x88, 0x99, 0xaa, 0xbb, 0xcc, 0xdd,
            0xee, 0xff
        ])
    );
    assert_eq!(account::named("shop", "till"), AccountId::named("shop", "till"));
}

#[test]
fn replies_are_read_into_results() {
    assert_eq!(Client::balance(Reply::Unreachable), Err(Error::Unreachable));
    assert_eq!(
        Client::balance(Reply::Refused("bad".into())),
        Err(Error::Transport("bad".into()))
    );
    assert_eq!(
        Client::balance(Reply::Undecodable("eof".into())),
        Err(Error::Decode("eof".into()))
    );
    let newer = Response {
        version: Some(Version {
            major: 2,
            minor: 0,
            patch: 0,
        }),
        body: None,
    };
    let incompatible = Client::balance(Reply::Answered(newer)).unwrap_err();
    assert_eq!(
        incompatible.to_string(),
        "PVault speaks 2.0.0, this plugin was built against 1.0.0"
    );

    let mut poor = pvault::proto::Error::new(ErrorCode::InsufficientFunds, "not enough funds".into());
    poor.balance = 4;
    let failed = Client::withdraw(Reply::Answered(Response::new(response::Body::Error(poor))))
        .unwrap_err();
    assert!(failed.is_insufficient_funds());
    assert_eq!(failed.to_string(), "not enough funds");

    let strange = pvault::proto::Error {
        code: 99,
        message: "from the future".into(),
        balance: 0,
    };
    match Client::has(Reply::Answered(Response::new(response::Body::Error(strange)))) {
        Err(Error::Failed { code, .. }) => assert_eq!(code, ErrorCode::Unspecified),
        other => panic!("expected a failure, got {other:?}"),
    }

    let status = Response::new(response::Body::Account(pvault::proto::AccountStatus {
        exists: true,
        balance: 9,
    }));
    assert_eq!(Client::account_exists(Reply::Answered(status.clone())), Ok(true));
    assert_eq!(Client::create_account(Reply::Answered(status.clone())), Ok(9));
    assert_eq!(Client::delete_account(Reply::Answered(status.clone())), Ok(()));
    assert_eq!(Client::balance(Reply::Answered(status)), Err(Error::Unexpected));
    assert_eq!(
        Client::balance(Reply::Answered(Response {
            version: None,
            body: None
        })),
        Err(Error::Unexpected)
    );
}

#[test]
fn requests_carry_what_they_ask() {
    let id = AccountId::named("shop", "till");
    let request = Client::deposit_request(&id, 25, "sold");
    assert_eq!(request.version, Some(pvault::proto::spec_version()));
    assert_eq!(
        request.body,
        Some(request::Body::Deposit(request::Deposit {
            account: Some(id.clone()),
            amount: 25,
            reason: "sold".into(),
        }))
    );
    let request = Client::transfer_request(&id, &AccountId::player([1; 16]), 3, "x");
    assert!(matches!(request.body, Some(request::Body::Transfer(t)) if t.amount == 3));
}
