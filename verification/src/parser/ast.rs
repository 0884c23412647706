//! The elements that a journal is made of, and the mathematical values
//! that the contracts of this crate speak of.

use chrono::Datelike;
use vstd::prelude::*;

use crate::decimal::{DecimalValue, Quantity};

verus! {

/// The code of a currency, such as `EUR`.
pub type CurrencyCode = String;

/// What a transaction was for.
pub type Description = String;

/// Whom a transaction was made with.
pub type Payee = String;

/// A label on a transaction.
pub type Tag = String;

/// The year of a journal.
pub type Year = u32;

/// The text of each string of a list.
pub open spec fn texts(strings: Seq<String>) -> Seq<Seq<char>> {
    strings.map_values(|s: String| s@)
}

/// Whether `year` is a leap year of the Gregorian calendar.
pub open spec fn leap_year(year: int) -> bool {
    year % 4 == 0 && (year % 100 != 0 || year % 400 == 0)
}

/// The number of days of a month of the Gregorian calendar.
pub open spec fn days_in_month(year: int, month: int) -> int {
    if month == 2 {
        if leap_year(year) {
            29
        } else {
            28
        }
    } else if month == 4 || month == 6 || month == 9 || month == 11 {
        30
    } else {
        31
    }
}

/// A day of the Gregorian calendar.
#[derive(Debug, PartialEq, Eq, Clone, Copy, Structural)]
pub struct CalendarDate {
    pub year: i32,
    pub month: u32,
    pub day: u32,
}

impl CalendarDate {
    /// Whether the calendar has this day.
    pub open spec fn is_valid(self) -> bool {
        1 <= self.month <= 12 && 1 <= self.day <= days_in_month(
            self.year as int,
            self.month as int,
        )
    }
}

impl View for CalendarDate {
    type V = CalendarDate;

    open spec fn view(&self) -> CalendarDate {
        *self
    }
}

/// Reads the system clock with `SystemTime::now` and takes the day it
/// shows in UTC from chrono's `DateTime<Utc>`, by `Datelike::year`, `month`
/// and `day`. Which day comes back depends on the clock; it is a day of
/// the calendar.
#[verifier::external_body]
fn today() -> (date: CalendarDate)
    ensures
        date.is_valid(),
{
    let now: chrono::DateTime<chrono::Utc> = std::time::SystemTime::now().into();
    let day = now.date_naive();
    CalendarDate { year: day.year(), month: day.month(), day: day.day() }
}

/// The date of a transaction.
#[derive(Debug, PartialEq, Eq, Clone, Copy, Structural)]
pub enum ParsedDate {
    /// A date that was written with its year.
    Full(CalendarDate),
    /// A date that was written without a year and was given a provisional
    /// one, to be replaced by the year of the journal.
    Partial(CalendarDate),
}

impl ParsedDate {
    /// The day that the date stands for.
    pub open spec fn date(self) -> CalendarDate {
        match self {
            ParsedDate::Full(date) => date,
            ParsedDate::Partial(date) => date,
        }
    }

    /// The day and the month, as `day/month`.
    pub fn day_and_month(&self) -> (pair: (u32, u32))
        ensures
            pair == (self.date().day, self.date().month),
    {
        match self {
            ParsedDate::Full(date) => (date.day, date.month),
            ParsedDate::Partial(date) => (date.day, date.month),
        }
    }
}

impl View for ParsedDate {
    type V = ParsedDate;

    open spec fn view(&self) -> ParsedDate {
        *self
    }
}

impl Default for ParsedDate {
    /// The current day, as a full date.
    fn default() -> (date: ParsedDate)
        ensures
            date is Full,
            date.date().is_valid(),
    {
        ParsedDate::Full(today())
    }
}

/// An account of the journal: a root name and the path below it.
#[derive(Debug, PartialEq)]
pub struct Account {
    pub name: String,
    pub children: Vec<String>,
}

/// An account, as a value.
pub struct AccountView {
    pub name: Seq<char>,
    pub children: Seq<Seq<char>>,
}

impl View for Account {
    type V = AccountView;

    open spec fn view(&self) -> AccountView {
        AccountView { name: self.name@, children: texts(self.children@) }
    }
}

/// A copy of a list of strings.
pub fn copy_texts(strings: &Vec<String>) -> (copy: Vec<String>)
    ensures
        texts(copy@) == texts(strings@),
{
    let mut copy: Vec<String> = Vec::new();
    let mut i: usize = 0;
    while i < strings.len()
        invariant
            i <= strings@.len(),
            copy@.len() == i,
            forall|j: int| 0 <= j < i ==> copy@[j]@ == strings@[j]@,
        decreases strings@.len() - i,
    {
        copy.push(strings[i].clone());
        i = i + 1;
    }
    assert(texts(copy@) =~= texts(strings@));
    copy
}

impl Clone for Account {
    fn clone(&self) -> (copy: Account)
        ensures
            copy@ == self@,
    {
        Account { name: self.name.clone(), children: copy_texts(&self.children) }
    }
}

impl Default for Account {
    fn default() -> (account: Account)
        ensures
            account@ == (AccountView { name: Seq::empty(), children: Seq::empty() }),
    {
        let account = Account { name: String::new(), children: Vec::new() };
        assert(texts(account.children@) =~= Seq::<Seq<char>>::empty());
        account
    }
}

/// A quantity of a currency.
#[derive(Debug, PartialEq)]
pub struct Amount {
    pub quantity: Quantity,
    pub currency: CurrencyCode,
}

/// An amount, as a value.
pub struct AmountView {
    pub quantity: DecimalValue,
    pub currency: Seq<char>,
}

impl View for Amount {
    type V = AmountView;

    open spec fn view(&self) -> AmountView {
        AmountView { quantity: self.quantity@, currency: self.currency@ }
    }
}

impl Clone for Amount {
    fn clone(&self) -> (copy: Amount)
        ensures
            copy@ == self@,
    {
        Amount { quantity: self.quantity, currency: self.currency.clone() }
    }
}

/// What stands between the date and the tags of a transaction.
#[derive(Debug, PartialEq)]
pub enum PayeeSectionType {
    Empty,
    PayeeOnly(Payee),
    PayeeAndDescription((Payee, Description)),
}

/// A payee section, as a value.
pub enum PayeeSectionView {
    Empty,
    PayeeOnly(Seq<char>),
    PayeeAndDescription(Seq<char>, Seq<char>),
}

impl View for PayeeSectionType {
    type V = PayeeSectionView;

    open spec fn view(&self) -> PayeeSectionView {
        match self {
            PayeeSectionType::Empty => PayeeSectionView::Empty,
            PayeeSectionType::PayeeOnly(payee) => PayeeSectionView::PayeeOnly(payee@),
            PayeeSectionType::PayeeAndDescription(pair) => PayeeSectionView::PayeeAndDescription(
                pair.0@,
                pair.1@,
            ),
        }
    }
}

/// One leg of a transaction: an account, and the amount moved to it. The
/// amount may be left out on one of the two postings of a transaction.
#[derive(Debug, PartialEq)]
pub struct Posting {
    pub account: Account,
    pub amount: Option<Amount>,
}

/// A posting, as a value.
pub struct PostingView {
    pub account: AccountView,
    pub amount: Option<AmountView>,
}

impl View for Posting {
    type V = PostingView;

    open spec fn view(&self) -> PostingView {
        PostingView {
            account: self.account@,
            amount: match self.amount {
                Some(amount) => Some(amount@),
                None => None,
            },
        }
    }
}

impl Clone for Posting {
    fn clone(&self) -> (copy: Posting)
        ensures
            copy@ == self@,
    {
        let amount = match &self.amount {
            Some(amount) => Some(amount.clone()),
            None => None,
        };
        Posting { account: self.account.clone(), amount }
    }
}

impl Default for Posting {
    fn default() -> (posting: Posting)
        ensures
            posting@ == (PostingView {
                account: AccountView { name: Seq::empty(), children: Seq::empty() },
                amount: None,
            }),
    {
        Posting { account: Account::default(), amount: None }
    }
}

/// Whether a transaction has been settled.
#[derive(Debug, PartialEq, Eq, Clone, Copy, Structural)]
pub enum TransactionStatus {
    Cleared,
    Pending,
}

impl View for TransactionStatus {
    type V = TransactionStatus;

    open spec fn view(&self) -> TransactionStatus {
        *self
    }
}

impl Default for TransactionStatus {
    fn default() -> (status: TransactionStatus)
        ensures
            status == TransactionStatus::Cleared,
    {
        TransactionStatus::Cleared
    }
}

/// A transfer between two accounts.
#[derive(Debug, PartialEq)]
pub struct Transaction {
    pub date: ParsedDate,
    pub status: TransactionStatus,
    pub description: Description,
    pub tags: Vec<Tag>,
    pub payee: Payee,
    pub postings: (Posting, Posting),
}

/// A transaction, as a value.
pub struct TransactionView {
    pub date: ParsedDate,
    pub status: TransactionStatus,
    pub description: Seq<char>,
    pub tags: Seq<Seq<char>>,
    pub payee: Seq<char>,
    pub postings: (PostingView, PostingView),
}

impl View for Transaction {
    type V = TransactionView;

    open spec fn view(&self) -> TransactionView {
        TransactionView {
            date: self.date,
            status: self.status,
            description: self.description@,
            tags: texts(self.tags@),
            payee: self.payee@,
            postings: (self.postings.0@, self.postings.1@),
        }
    }
}

impl Clone for Transaction {
    fn clone(&self) -> (copy: Transaction)
        ensures
            copy@ == self@,
    {
        Transaction {
            date: self.date,
            status: self.status,
            description: self.description.clone(),
            tags: copy_texts(&self.tags),
            payee: self.payee.clone(),
            postings: (self.postings.0.clone(), self.postings.1.clone()),
        }
    }
}

impl Default for Transaction {
    /// A cleared transaction of the current day with nothing else in it.
    fn default() -> (transaction: Transaction)
        ensures
            transaction@.date is Full,
            transaction@.date.date().is_valid(),
            transaction@.status == TransactionStatus::Cleared,
            transaction@.description == Seq::<char>::empty(),
            transaction@.tags == Seq::<Seq<char>>::empty(),
            transaction@.payee == Seq::<char>::empty(),
            transaction@.postings.0 == Posting::default_view(),
            transaction@.postings.1 == Posting::default_view(),
    {
        let transaction = Transaction {
            date: ParsedDate::default(),
            status: TransactionStatus::default(),
            description: String::new(),
            tags: Vec::new(),
            payee: String::new(),
            postings: (Posting::default(), Posting::default()),
        };
        assert(texts(transaction.tags@) =~= Seq::<Seq<char>>::empty());
        transaction
    }
}

impl Posting {
    /// The value of `Posting::default()`.
    pub open spec fn default_view() -> PostingView {
        PostingView {
            account: AccountView { name: Seq::empty(), children: Seq::empty() },
            amount: None,
        }
    }
}

/// One top-level construct of a journal.
#[derive(Debug, PartialEq)]
pub enum JournalElement {
    /// White space and nothing else.
    Empty,
    /// The declaration of an account.
    Account(Account),
    /// A comment; what it said is not kept.
    Comment,
    /// The directive that sets the year of the journal.
    Year(Year),
    Transaction(Transaction),
}

/// A journal element, as a value.
pub enum JournalElementView {
    Empty,
    Account(AccountView),
    Comment,
    Year(Year),
    Transaction(TransactionView),
}

impl View for JournalElement {
    type V = JournalElementView;

    open spec fn view(&self) -> JournalElementView {
        match self {
            JournalElement::Empty => JournalElementView::Empty,
            JournalElement::Account(account) => JournalElementView::Account(account@),
            JournalElement::Comment => JournalElementView::Comment,
            JournalElement::Year(year) => JournalElementView::Year(*year),
            JournalElement::Transaction(transaction) => JournalElementView::Transaction(
                transaction@,
            ),
        }
    }
}

impl Clone for JournalElement {
    fn clone(&self) -> (copy: JournalElement)
        ensures
            copy@ == self@,
    {
        match self {
            JournalElement::Empty => JournalElement::Empty,
            JournalElement::Account(account) => JournalElement::Account(account.clone()),
            JournalElement::Comment => JournalElement::Comment,
            JournalElement::Year(year) => JournalElement::Year(*year),
            JournalElement::Transaction(transaction) => JournalElement::Transaction(
                transaction.clone(),
            ),
        }
    }
}

/// The views of a list of journal elements.
pub open spec fn element_views(elements: Seq<JournalElement>) -> Seq<JournalElementView> {
    elements.map_values(|element: JournalElement| element@)
}

/// The views of a list of transactions.
pub open spec fn transaction_views(transactions: Seq<Transaction>) -> Seq<TransactionView> {
    transactions.map_values(|transaction: Transaction| transaction@)
}

} // verus!
