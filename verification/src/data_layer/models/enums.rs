//! Closed vocabularies of the remote service.

use vstd::prelude::*;
use crate::data_layer::text::same_text;

verus! {

/// How often a scheduled transaction repeats.
#[derive(Debug, Clone, Copy, PartialEq, Eq, Structural)]
pub enum Frequency {
    Never,
    Daily,
    Weekly,
    EveryOtherWeek,
    TwiceAMonth,
    Every4Weeks,
    Monthly,
    EveryOtherMonth,
    Every3Months,
    Every4Months,
    TwiceAYear,
    Yearly,
    EveryOtherYear,
}

/// Whether a transaction has cleared.
#[derive(Debug, Clone, Copy, PartialEq, Eq, Structural)]
pub enum ClearedStatus {
    Cleared,
    Uncleared,
    Reconciled,
}

/// The flag on a transaction.
#[derive(Debug, Clone, Copy, PartialEq, Eq, Structural)]
pub enum FlagColor {
    Red,
    Orange,
    Yellow,
    Green,
    Blue,
    Purple,
}

/// Whether a record is a transaction or a part of a split one.
#[derive(Debug, Clone, Copy, PartialEq, Eq, Structural)]
pub enum TransactionType {
    Transaction,
    Subtransaction,
}

/// The goal of a category: target category balance, target category balance
/// by date, monthly funding, plan your spending, or debt.
#[derive(Debug, Clone, Copy, PartialEq, Eq, Structural)]
pub enum GoalType {
    TB,
    TBD,
    MF,
    NEED,
    DEBT,
}

/// The kind of an account.
#[derive(Debug, Clone, Copy, PartialEq, Eq, Structural)]
pub enum AccountTypeString {
    Checking,
    Savings,
    Cash,
    CreditCard,
    LineOfCredit,
    OtherAsset,
    OtherLiability,
    Mortgage,
    AutoLoan,
    StudentLoan,
    PersonalLoan,
    MedicalDebt,
    OtherDebt,
}

impl AccountTypeString {
    /// The name of the kind as the remote service writes it: the variant's
    /// name with a lower-case first letter.
    pub open spec fn name_text(self) -> Seq<char> {
        match self {
            AccountTypeString::Checking => "checking"@,
            AccountTypeString::Savings => "savings"@,
            AccountTypeString::Cash => "cash"@,
            AccountTypeString::CreditCard => "creditCard"@,
            AccountTypeString::LineOfCredit => "lineOfCredit"@,
            AccountTypeString::OtherAsset => "otherAsset"@,
            AccountTypeString::OtherLiability => "otherLiability"@,
            AccountTypeString::Mortgage => "mortgage"@,
            AccountTypeString::AutoLoan => "autoLoan"@,
            AccountTypeString::StudentLoan => "studentLoan"@,
            AccountTypeString::PersonalLoan => "personalLoan"@,
            AccountTypeString::MedicalDebt => "medicalDebt"@,
            AccountTypeString::OtherDebt => "otherDebt"@,
        }
    }

    /// The kind that a name stands for, if it is the name of one.
    pub open spec fn named(text: Seq<char>) -> Option<AccountTypeString> {
        if text == "checking"@ {
            Some(AccountTypeString::Checking)
        } else if text == "savings"@ {
            Some(AccountTypeString::Savings)
        } else if text == "cash"@ {
            Some(AccountTypeString::Cash)
        } else if text == "creditCard"@ {
            Some(AccountTypeString::CreditCard)
        } else if text == "lineOfCredit"@ {
            Some(AccountTypeString::LineOfCredit)
        } else if text == "otherAsset"@ {
            Some(AccountTypeString::OtherAsset)
        } else if text == "otherLiability"@ {
            Some(AccountTypeString::OtherLiability)
        } else if text == "mortgage"@ {
            Some(AccountTypeString::Mortgage)
        } else if text == "autoLoan"@ {
            Some(AccountTypeString::AutoLoan)
        } else if text == "studentLoan"@ {
            Some(AccountTypeString::StudentLoan)
        } else if text == "personalLoan"@ {
            Some(AccountTypeString::PersonalLoan)
        } else if text == "medicalDebt"@ {
            Some(AccountTypeString::MedicalDebt)
        } else if text == "otherDebt"@ {
            Some(AccountTypeString::OtherDebt)
        } else {
            None
        }
    }

    /// The name of the kind as the remote service writes it.
    pub fn name(&self) -> (name: &'static str)
        ensures
            name@ == self.name_text(),
    {
        match self {
            AccountTypeString::Checking => "checking",
            AccountTypeString::Savings => "savings",
            AccountTypeString::Cash => "cash",
            AccountTypeString::CreditCard => "creditCard",
            AccountTypeString::LineOfCredit => "lineOfCredit",
            AccountTypeString::OtherAsset => "otherAsset",
            AccountTypeString::OtherLiability => "otherLiability",
            AccountTypeString::Mortgage => "mortgage",
            AccountTypeString::AutoLoan => "autoLoan",
            AccountTypeString::StudentLoan => "studentLoan",
            AccountTypeString::PersonalLoan => "personalLoan",
            AccountTypeString::MedicalDebt => "medicalDebt",
            AccountTypeString::OtherDebt => "otherDebt",
        }
    }

    /// The kind that a name stands for; `None` for any other text.
    pub fn from_name(text: &str) -> (kind: Option<AccountTypeString>)
        ensures
            kind == Self::named(text@),
    {
        if same_text(text, "checking") {
            Some(AccountTypeString::Checking)
        } else if same_text(text, "savings") {
            Some(AccountTypeString::Savings)
        } else if same_text(text, "cash") {
            Some(AccountTypeString::Cash)
        } else if same_text(text, "creditCard") {
            Some(AccountTypeString::CreditCard)
        } else if same_text(text, "lineOfCredit") {
            Some(AccountTypeString::LineOfCredit)
        } else if same_text(text, "otherAsset") {
            Some(AccountTypeString::OtherAsset)
        } else if same_text(text, "otherLiability") {
            Some(AccountTypeString::OtherLiability)
        } else if same_text(text, "mortgage") {
            Some(AccountTypeString::Mortgage)
        } else if same_text(text, "autoLoan") {
            Some(AccountTypeString::AutoLoan)
        } else if same_text(text, "studentLoan") {
            Some(AccountTypeString::StudentLoan)
        } else if same_text(text, "personalLoan") {
            Some(AccountTypeString::PersonalLoan)
        } else if same_text(text, "medicalDebt") {
            Some(AccountTypeString::MedicalDebt)
        } else if same_text(text, "otherDebt") {
            Some(AccountTypeString::OtherDebt)
        } else {
            None
        }
    }
}

/// A kind is found again by its name.
pub proof fn lemma_account_type_name_round_trip(kind: AccountTypeString)
    ensures
        AccountTypeString::named(kind.name_text()) == Some(kind),
{
    reveal_strlit("checking");
    reveal_strlit("savings");
    reveal_strlit("cash");
    reveal_strlit("creditCard");
    reveal_strlit("lineOfCredit");
    reveal_strlit("otherAsset");
    reveal_strlit("otherLiability");
    reveal_strlit("mortgage");
    reveal_strlit("autoLoan");
    reveal_strlit("studentLoan");
    reveal_strlit("personalLoan");
    reveal_strlit("medicalDebt");
    reveal_strlit("otherDebt");
    assert("mortgage"@[0] != "checking"@[0]);
    assert("autoLoan"@[0] != "checking"@[0]);
    assert("autoLoan"@[0] != "mortgage"@[0]);
    assert("otherAsset"@[0] != "creditCard"@[0]);
    assert("personalLoan"@[0] != "lineOfCredit"@[0]);
    assert("medicalDebt"@[0] != "studentLoan"@[0]);
    assert("checking"@.len() == 8 && "savings"@.len() == 7 && "cash"@.len() == 4);
    assert("creditCard"@.len() == 10 && "lineOfCredit"@.len() == 12);
    assert("otherAsset"@.len() == 10 && "otherLiability"@.len() == 14);
    assert("mortgage"@.len() == 8 && "autoLoan"@.len() == 8);
    assert("studentLoan"@.len() == 11 && "personalLoan"@.len() == 12);
    assert("medicalDebt"@.len() == 11 && "otherDebt"@.len() == 9);
}

} // verus!
