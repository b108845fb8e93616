//! Account kinds, payees and scheduled transactions.

use vstd::prelude::*;
use crate::data_layer::ynab_api::response_models::{Payee, ScheduledSubTransaction};

verus! {

/// The type of account.
#[derive(Clone, Copy, Debug, PartialEq, Eq, Structural, Hash)]
pub enum AccountType {
    Checking,
    Savings,
    Cash,
    CreditCard,
    LineOfCredit,
    OtherAsset,
    OtherLiability,
    Mortgage,
    AutoLoan,
    StudentLoan,
    PersonalLoan,
    MedicalDebt,
    OtherDebt,
}

impl AccountType {
    /// The name of the type as the remote service writes it.
    pub open spec fn name_text(self) -> Seq<char> {
        match self {
            AccountType::Checking => "checking"@,
            AccountType::Savings => "savings"@,
            AccountType::Cash => "cash"@,
            AccountType::CreditCard => "creditCard"@,
            AccountType::LineOfCredit => "lineOfCredit"@,
            AccountType::OtherAsset => "otherAsset"@,
            AccountType::OtherLiability => "otherLiability"@,
            AccountType::Mortgage => "mortgage"@,
            AccountType::AutoLoan => "autoLoan"@,
            AccountType::StudentLoan => "studentLoan"@,
            AccountType::PersonalLoan => "personalLoan"@,
            AccountType::MedicalDebt => "medicalDebt"@,
            AccountType::OtherDebt => "otherDebt"@,
        }
    }

    /// The name of the type as the remote service writes it.
    pub fn to_string(&self) -> (name: String)
        ensures
            name@ == self.name_text(),
    {
        match self {
            Self::Checking => "checking".to_owned(),
            Self::Savings => "savings".to_owned(),
            Self::Cash => "cash".to_owned(),
            Self::CreditCard => "creditCard".to_owned(),
            Self::LineOfCredit => "lineOfCredit".to_owned(),
            Self::OtherAsset => "otherAsset".to_owned(),
            Self::OtherLiability => "otherLiability".to_owned(),
            Self::Mortgage => "mortgage".to_owned(),
            Self::AutoLoan => "autoLoan".to_owned(),
            Self::StudentLoan => "studentLoan".to_owned(),
            Self::PersonalLoan => "personalLoan".to_owned(),
            Self::MedicalDebt => "medicalDebt".to_owned(),
            Self::OtherDebt => "otherDebt".to_owned(),
        }
    }
}

impl Default for AccountType {
    fn default() -> (kind: AccountType)
        ensures
            kind == AccountType::Checking,
    {
        Self::Checking
    }
}

/// What a response about one payee holds.
#[derive(Debug, PartialEq, Eq)]
pub struct PayeeResponseData {
    pub payee: Box<Payee>,
}

/// A response about one payee.
#[derive(Debug, PartialEq, Eq)]
pub struct PayeeResponse {
    pub data: Box<PayeeResponseData>,
}

impl PayeeResponse {
    /// The response that holds `data`.
    pub fn new(data: PayeeResponseData) -> (response: PayeeResponse)
        ensures
            *response.data == data,
    {
        PayeeResponse { data: Box::new(data) }
    }
}

/// How often a scheduled transaction repeats.
#[derive(Clone, Copy, Debug, PartialEq, Eq, Structural, Hash)]
pub enum Frequency {
    Never,
    Daily,
    Weekly,
    EveryOtherWeek,
    TwiceAMonth,
    Every4Weeks,
    Monthly,
    EveryOtherMonth,
    Every3Months,
    Every4Months,
    TwiceAYear,
    Yearly,
    EveryOtherYear,
}

impl Default for Frequency {
    fn default() -> (frequency: Frequency)
        ensures
            frequency == Frequency::Never,
    {
        Self::Never
    }
}

/// The scheduled transaction flag.
#[derive(Clone, Copy, Debug, PartialEq, Eq, Structural, Hash)]
pub enum FlagColor {
    Red,
    Orange,
    Yellow,
    Green,
    Blue,
    Purple,
}

impl Default for FlagColor {
    fn default() -> (color: FlagColor)
        ensures
            color == FlagColor::Red,
    {
        Self::Red
    }
}

/// A scheduled transaction with the names of its account, payee and
/// category, and with its parts. Identifiers are kept as their text.
#[derive(Debug, PartialEq, Eq)]
pub struct ScheduledTransactionDetail {
    pub id: String,
    /// The first date for which the scheduled transaction was scheduled.
    pub date_first: String,
    /// The next date for which the scheduled transaction is scheduled.
    pub date_next: String,
    pub frequency: Frequency,
    /// The amount in milliunits.
    pub amount: i64,
    pub memo: Option<String>,
    pub flag_color: Option<FlagColor>,
    pub account_id: String,
    pub payee_id: Option<String>,
    pub category_id: Option<String>,
    /// If a transfer, the account that the scheduled transaction transfers to.
    pub transfer_account_id: Option<String>,
    /// Whether the scheduled transaction has been deleted.
    pub deleted: bool,
    pub account_name: String,
    pub payee_name: Option<String>,
    /// The name of the category; `Split` for a split scheduled transaction.
    pub category_name: Option<String>,
    /// The parts of a split scheduled transaction.
    pub subtransactions: Vec<ScheduledSubTransaction>,
}

impl ScheduledTransactionDetail {
    /// A scheduled transaction with the fields that every one has; the
    /// others are absent.
    pub fn new(
        id: String,
        date_first: String,
        date_next: String,
        frequency: Frequency,
        amount: i64,
        account_id: String,
        deleted: bool,
        account_name: String,
        subtransactions: Vec<ScheduledSubTransaction>,
    ) -> (detail: ScheduledTransactionDetail)
        ensures
            detail == (ScheduledTransactionDetail {
                id,
                date_first,
                date_next,
                frequency,
                amount,
                memo: None,
                flag_color: None,
                account_id,
                payee_id: None,
                category_id: None,
                transfer_account_id: None,
                deleted,
                account_name,
                payee_name: None,
                category_name: None,
                subtransactions,
            }),
    {
        ScheduledTransactionDetail {
            id,
            date_first,
            date_next,
            frequency,
            amount,
            memo: None,
            flag_color: None,
            account_id,
            payee_id: None,
            category_id: None,
            transfer_account_id: None,
            deleted,
            account_name,
            payee_name: None,
            category_name: None,
            subtransactions,
        }
    }
}

} // verus!
