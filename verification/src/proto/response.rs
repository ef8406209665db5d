//! What the economy answers.
use vstd::prelude::*;

use crate::proto::{
    AccountStatus, Balance, BalanceView, CurrencyInfo, CurrencyView, Error, ErrorView,
    HasBalanceResult, TransferResult,
};

verus! {

/// The body of a response.
#[derive(Clone, Debug, PartialEq, Eq)]
pub enum Body {
    Error(Error),
    Currency(CurrencyInfo),
    Balance(Balance),
    HasBalance(HasBalanceResult),
    Transfer(TransferResult),
    Account(AccountStatus),
}

/// The body of a response as plain values.
pub enum BodyView {
    Error(ErrorView),
    Currency(CurrencyView),
    Balance(BalanceView),
    HasBalance(HasBalanceResult),
    Transfer(Option<BalanceView>, Option<BalanceView>),
    Account(AccountStatus),
}

impl View for Body {
    type V = BodyView;

    open spec fn view(&self) -> BodyView {
        match self {
            Body::Error(e) => BodyView::Error(e@),
            Body::Currency(c) => BodyView::Currency(c@),
            Body::Balance(b) => BodyView::Balance(b@),
            Body::HasBalance(h) => BodyView::HasBalance(*h),
            Body::Transfer(t) => BodyView::Transfer(
                match t.from {
                    Some(b) => Some(b@),
                    None => None,
                },
                match t.to {
                    Some(b) => Some(b@),
                    None => None,
                },
            ),
            Body::Account(a) => BodyView::Account(*a),
        }
    }
}

} // verus!
