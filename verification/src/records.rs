//! The records that the service stores, one type per table.
use vstd::prelude::*;
use crate::datetime::DateTime;
use crate::table::{
    Record, first_selected, lemma_first_selected_is_selected, lemma_listing_members, owned_rows,
    updated_rows,
};

verus! {

/// The kind of a transaction, stored as text in the `type` column.
#[derive(Clone, Copy, PartialEq, Eq, Structural, Debug)]
pub enum Type {
    Income,
    Expense,
    Transfer,
}

impl Type {
    /// The text that stands for the kind in the database.
    pub open spec fn sql_text(self) -> Seq<char> {
        match self {
            Type::Income => "income"@,
            Type::Expense => "expense"@,
            Type::Transfer => "transfer"@,
        }
    }

    /// The text to store for this kind.
    pub fn to_sql(&self) -> (r: String)
        ensures
            r@ == self.sql_text(),
    {
        match self {
            Type::Income => String::from_str("income"),
            Type::Expense => String::from_str("expense"),
            Type::Transfer => String::from_str("transfer"),
        }
    }

    /// Reads a stored kind; any other text is refused with the message
    /// `Unknown transaction type: <text>`.
    pub fn from_sql(text: &str) -> (r: Result<Type, String>)
        ensures
            r matches Ok(t) ==> t.sql_text() == text@,
            r is Err <==> (forall|t: Type| #[trigger] t.sql_text() != text@),
            r matches Err(m) ==> m@ == "Unknown transaction type: "@ + text@,
    {
        let owned = String::from_str(text);
        if owned == String::from_str("income") {
            assert(Type::Income.sql_text() == text@);
            Ok(Type::Income)
        } else if owned == String::from_str("expense") {
            assert(Type::Expense.sql_text() == text@);
            Ok(Type::Expense)
        } else if owned == String::from_str("transfer") {
            assert(Type::Transfer.sql_text() == text@);
            Ok(Type::Transfer)
        } else {
            proof {
                assert forall|t: Type| #[trigger] t.sql_text() != text@ by {
                    match t {
                        Type::Income => {},
                        Type::Expense => {},
                        Type::Transfer => {},
                    }
                }
            }
            Err(String::from_str("Unknown transaction type: ").concat(text))
        }
    }
}

/// Reading back the stored text of a kind gives the kind.
pub proof fn lemma_type_round_trip(t: Type)
    ensures
        forall|u: Type| #[trigger] u.sql_text() == t.sql_text() ==> u == t,
{
    reveal_strlit("income");
    reveal_strlit("expense");
    reveal_strlit("transfer");
    assert("income"@.len() == 6);
    assert("expense"@.len() == 7);
    assert("transfer"@.len() == 8);
}


/// An optional text field after an update: the new value where the update
/// carries one, the old value otherwise.
pub open spec fn kept_or_replaced(old: Option<String>, new: Option<String>) -> Option<String> {
    if new is Some {
        new
    } else {
        old
    }
}

/// The optional text holds exactly `sub`.
pub open spec fn text_is(o: Option<String>, sub: Seq<char>) -> bool {
    o matches Some(t) && t@ == sub
}

fn copy_text(o: &Option<String>) -> (r: Option<String>)
    ensures
        r == *o,
{
    match o {
        Some(t) => Some(t.clone()),
        None => None,
    }
}

fn merge_text(old: &Option<String>, new: &Option<String>) -> (r: Option<String>)
    ensures
        r == kept_or_replaced(*old, *new),
{
    match new {
        Some(t) => Some(t.clone()),
        None => copy_text(old),
    }
}

/// A user of the service; a user owns the records whose `user_id` is its id.
#[derive(Debug)]
pub struct User {
    pub id: String,
    pub name: String,
    pub email: String,
    pub password: Option<String>,
    pub created_at: DateTime,
    pub updated_at: DateTime,
}

impl Record for User {
    open spec fn key(&self) -> Seq<char> {
        self.id@
    }

    open spec fn belongs_to(&self, sub: Seq<char>) -> bool {
        self.id@ == sub
    }

    open spec fn changed_by(&self, changes: &Self) -> Self {
        User {
            id: self.id,
            name: changes.name,
            email: changes.email,
            password: kept_or_replaced(self.password, changes.password),
            created_at: changes.created_at,
            updated_at: changes.updated_at,
        }
    }

    fn id(&self) -> (r: &String) {
        &self.id
    }

    fn has_key(&self, id: &String) -> (r: bool) {
        self.id == *id
    }

    fn is_owned_by(&self, sub: &String) -> (r: bool) {
        self.id == *sub
    }

    fn apply_changes(&self, changes: &Self) -> (r: Self) {
        User {
            id: self.id.clone(),
            name: changes.name.clone(),
            email: changes.email.clone(),
            password: merge_text(&self.password, &changes.password),
            created_at: changes.created_at,
            updated_at: changes.updated_at,
        }
    }

    fn duplicate(&self) -> (r: Self) {
        User {
            id: self.id.clone(),
            name: self.name.clone(),
            email: self.email.clone(),
            password: copy_text(&self.password),
            created_at: self.created_at,
            updated_at: self.updated_at,
        }
    }

    proof fn lemma_changes_keep_key(&self, changes: &Self) {
    }

    proof fn lemma_changes_idempotent(&self, changes: &Self) {
    }
}

impl Clone for User {
    fn clone(&self) -> (r: Self)
        ensures
            r == *self,
    {
        self.duplicate()
    }
}

/// A category of transactions, owned by at most one user.
#[derive(Debug)]
pub struct Category {
    pub id: String,
    pub name: String,
    pub description: Option<String>,
    pub color: Option<String>,
    pub icon: Option<String>,
    pub user_id: Option<String>,
    pub created_at: DateTime,
    pub updated_at: DateTime,
}

impl Record for Category {
    open spec fn key(&self) -> Seq<char> {
        self.id@
    }

    open spec fn belongs_to(&self, sub: Seq<char>) -> bool {
        text_is(self.user_id, sub)
    }

    open spec fn changed_by(&self, changes: &Self) -> Self {
        Category {
            id: self.id,
            name: changes.name,
            description: kept_or_replaced(self.description, changes.description),
            color: kept_or_replaced(self.color, changes.color),
            icon: kept_or_replaced(self.icon, changes.icon),
            user_id: kept_or_replaced(self.user_id, changes.user_id),
            created_at: changes.created_at,
            updated_at: changes.updated_at,
        }
    }

    fn id(&self) -> (r: &String) {
        &self.id
    }

    fn has_key(&self, id: &String) -> (r: bool) {
        self.id == *id
    }

    fn is_owned_by(&self, sub: &String) -> (r: bool) {
        match &self.user_id {
            Some(u) => *u == *sub,
            None => false,
        }
    }

    fn apply_changes(&self, changes: &Self) -> (r: Self) {
        Category {
            id: self.id.clone(),
            name: changes.name.clone(),
            description: merge_text(&self.description, &changes.description),
            color: merge_text(&self.color, &changes.color),
            icon: merge_text(&self.icon, &changes.icon),
            user_id: merge_text(&self.user_id, &changes.user_id),
            created_at: changes.created_at,
            updated_at: changes.updated_at,
        }
    }

    fn duplicate(&self) -> (r: Self) {
        Category {
            id: self.id.clone(),
            name: self.name.clone(),
            description: copy_text(&self.description),
            color: copy_text(&self.color),
            icon: copy_text(&self.icon),
            user_id: copy_text(&self.user_id),
            created_at: self.created_at,
            updated_at: self.updated_at,
        }
    }

    proof fn lemma_changes_keep_key(&self, changes: &Self) {
    }

    proof fn lemma_changes_idempotent(&self, changes: &Self) {
    }
}

impl Clone for Category {
    fn clone(&self) -> (r: Self)
        ensures
            r == *self,
    {
        self.duplicate()
    }
}

/// A bank account or wallet of a user; the balance is in cents.
#[derive(Debug)]
pub struct Account {
    pub id: String,
    pub name: String,
    pub balance: i64,
    pub bank_name: String,
    pub user_id: String,
    pub created_at: DateTime,
    pub updated_at: DateTime,
}

impl Record for Account {
    open spec fn key(&self) -> Seq<char> {
        self.id@
    }

    open spec fn belongs_to(&self, sub: Seq<char>) -> bool {
        self.user_id@ == sub
    }

    open spec fn changed_by(&self, changes: &Self) -> Self {
        Account {
            id: self.id,
            name: changes.name,
            balance: changes.balance,
            bank_name: changes.bank_name,
            user_id: changes.user_id,
            created_at: changes.created_at,
            updated_at: changes.updated_at,
        }
    }

    fn id(&self) -> (r: &String) {
        &self.id
    }

    fn has_key(&self, id: &String) -> (r: bool) {
        self.id == *id
    }

    fn is_owned_by(&self, sub: &String) -> (r: bool) {
        self.user_id == *sub
    }

    fn apply_changes(&self, changes: &Self) -> (r: Self) {
        Account {
            id: self.id.clone(),
            name: changes.name.clone(),
            balance: changes.balance,
            bank_name: changes.bank_name.clone(),
            user_id: changes.user_id.clone(),
            created_at: changes.created_at,
            updated_at: changes.updated_at,
        }
    }

    fn duplicate(&self) -> (r: Self) {
        Account {
            id: self.id.clone(),
            name: self.name.clone(),
            balance: self.balance,
            bank_name: self.bank_name.clone(),
            user_id: self.user_id.clone(),
            created_at: self.created_at,
            updated_at: self.updated_at,
        }
    }

    proof fn lemma_changes_keep_key(&self, changes: &Self) {
    }

    proof fn lemma_changes_idempotent(&self, changes: &Self) {
    }
}

impl Clone for Account {
    fn clone(&self) -> (r: Self)
        ensures
            r == *self,
    {
        self.duplicate()
    }
}

/// A movement of money on an account; the amount is in cents.
#[derive(Debug)]
pub struct Transaction {
    pub id: String,
    pub amount: i64,
    pub description: Option<String>,
    pub date: DateTime,
    pub type_: Type,
    pub account_id: String,
    pub transfer_id: Option<String>,
    pub category_id: Option<String>,
    pub user_id: String,
    pub created_at: DateTime,
    pub updated_at: DateTime,
}

impl Record for Transaction {
    open spec fn key(&self) -> Seq<char> {
        self.id@
    }

    open spec fn belongs_to(&self, sub: Seq<char>) -> bool {
        self.user_id@ == sub
    }

    open spec fn changed_by(&self, changes: &Self) -> Self {
        Transaction {
            id: self.id,
            amount: changes.amount,
            description: kept_or_replaced(self.description, changes.description),
            date: changes.date,
            type_: changes.type_,
            account_id: changes.account_id,
            transfer_id: kept_or_replaced(self.transfer_id, changes.transfer_id),
            category_id: kept_or_replaced(self.category_id, changes.category_id),
            user_id: changes.user_id,
            created_at: changes.created_at,
            updated_at: changes.updated_at,
        }
    }

    fn id(&self) -> (r: &String) {
        &self.id
    }

    fn has_key(&self, id: &String) -> (r: bool) {
        self.id == *id
    }

    fn is_owned_by(&self, sub: &String) -> (r: bool) {
        self.user_id == *sub
    }

    fn apply_changes(&self, changes: &Self) -> (r: Self) {
        Transaction {
            id: self.id.clone(),
            amount: changes.amount,
            description: merge_text(&self.description, &changes.description),
            date: changes.date,
            type_: changes.type_,
            account_id: changes.account_id.clone(),
            transfer_id: merge_text(&self.transfer_id, &changes.transfer_id),
            category_id: merge_text(&self.category_id, &changes.category_id),
            user_id: changes.user_id.clone(),
            created_at: changes.created_at,
            updated_at: changes.updated_at,
        }
    }

    fn duplicate(&self) -> (r: Self) {
        Transaction {
            id: self.id.clone(),
            amount: self.amount,
            description: copy_text(&self.description),
            date: self.date,
            type_: self.type_,
            account_id: self.account_id.clone(),
            transfer_id: copy_text(&self.transfer_id),
            category_id: copy_text(&self.category_id),
            user_id: self.user_id.clone(),
            created_at: self.created_at,
            updated_at: self.updated_at,
        }
    }

    proof fn lemma_changes_keep_key(&self, changes: &Self) {
    }

    proof fn lemma_changes_idempotent(&self, changes: &Self) {
    }
}

impl Clone for Transaction {
    fn clone(&self) -> (r: Self)
        ensures
            r == *self,
    {
        self.duplicate()
    }
}

/// A transfer of money between two accounts of a user; the amount is in cents.
#[derive(Debug)]
pub struct AccountTransfer {
    pub id: String,
    pub from_account_id: String,
    pub to_account_id: String,
    pub amount: i64,
    pub description: Option<String>,
    pub date: DateTime,
    pub user_id: String,
    pub created_at: DateTime,
    pub updated_at: DateTime,
}

impl Record for AccountTransfer {
    open spec fn key(&self) -> Seq<char> {
        self.id@
    }

    open spec fn belongs_to(&self, sub: Seq<char>) -> bool {
        self.user_id@ == sub
    }

    open spec fn changed_by(&self, changes: &Self) -> Self {
        AccountTransfer {
            id: self.id,
            from_account_id: changes.from_account_id,
            to_account_id: changes.to_account_id,
            amount: changes.amount,
            description: kept_or_replaced(self.description, changes.description),
            date: changes.date,
            user_id: changes.user_id,
            created_at: changes.created_at,
            updated_at: changes.updated_at,
        }
    }

    fn id(&self) -> (r: &String) {
        &self.id
    }

    fn has_key(&self, id: &String) -> (r: bool) {
        self.id == *id
    }

    fn is_owned_by(&self, sub: &String) -> (r: bool) {
        self.user_id == *sub
    }

    fn apply_changes(&self, changes: &Self) -> (r: Self) {
        AccountTransfer {
            id: self.id.clone(),
            from_account_id: changes.from_account_id.clone(),
            to_account_id: changes.to_account_id.clone(),
            amount: changes.amount,
            description: merge_text(&self.description, &changes.description),
            date: changes.date,
            user_id: changes.user_id.clone(),
            created_at: changes.created_at,
            updated_at: changes.updated_at,
        }
    }

    fn duplicate(&self) -> (r: Self) {
        AccountTransfer {
            id: self.id.clone(),
            from_account_id: self.from_account_id.clone(),
            to_account_id: self.to_account_id.clone(),
            amount: self.amount,
            description: copy_text(&self.description),
            date: self.date,
            user_id: self.user_id.clone(),
            created_at: self.created_at,
            updated_at: self.updated_at,
        }
    }

    proof fn lemma_changes_keep_key(&self, changes: &Self) {
    }

    proof fn lemma_changes_idempotent(&self, changes: &Self) {
    }
}

impl Clone for AccountTransfer {
    fn clone(&self) -> (r: Self)
        ensures
            r == *self,
    {
        self.duplicate()
    }
}


/// Reads of users: a user is the caller's own when its id is the caller's id. The listing for `sub` holds only such rows
/// and every one of them, and a lookup finds only a row with the asked id
/// that is the caller's, and finds one wherever such a row exists.
pub proof fn law_user_reads(rows: Seq<User>, id: Seq<char>, sub: Seq<char>)
    ensures
        forall|j: int| 0 <= j < owned_rows(rows, sub).len() ==> ((#[trigger] owned_rows(rows, sub)[j]).id@ == sub),
        forall|i: int|
            0 <= i < rows.len() && (rows[i].id@ == sub) ==> owned_rows(rows, sub).contains(#[trigger] rows[i]),
        first_selected(rows, id, sub) matches Some(r) ==> r.id@ == id && (r.id@ == sub),
        (exists|i: int| 0 <= i < rows.len() && #[trigger] rows[i].id@ == id && (rows[i].id@ == sub))
            ==> first_selected(rows, id, sub) is Some,
{
    lemma_listing_members(rows, sub);
    lemma_first_selected_is_selected(rows, id, sub);
}

/// An update of users by `sub` rewrites each row with the id `id` that
/// is the caller's: the id stays, every field that always has a value is
/// the one sent, and an optional field is the one sent where one is sent
/// and the old one otherwise. Every other row stays as it was.
pub proof fn law_user_update(rows: Seq<User>, id: Seq<char>, sub: Seq<char>, changes: User, i: int)
    requires
        0 <= i < rows.len(),
    ensures
        updated_rows(rows, id, sub, changes).len() == rows.len(),
        updated_rows(rows, id, sub, changes)[i].id == rows[i].id,
        !(rows[i].id@ == id && (rows[i].id@ == sub)) ==> updated_rows(rows, id, sub, changes)[i] == rows[i],
        (rows[i].id@ == id && (rows[i].id@ == sub)) ==> updated_rows(rows, id, sub, changes)[i].name == changes.name,
        (rows[i].id@ == id && (rows[i].id@ == sub)) ==> updated_rows(rows, id, sub, changes)[i].email == changes.email,
        (rows[i].id@ == id && (rows[i].id@ == sub)) && changes.password is Some ==> updated_rows(rows, id, sub, changes)[i].password == changes.password,
        (rows[i].id@ == id && (rows[i].id@ == sub)) && changes.password is None ==> updated_rows(rows, id, sub, changes)[i].password == rows[i].password,
        (rows[i].id@ == id && (rows[i].id@ == sub)) ==> updated_rows(rows, id, sub, changes)[i].created_at == changes.created_at,
        (rows[i].id@ == id && (rows[i].id@ == sub)) ==> updated_rows(rows, id, sub, changes)[i].updated_at == changes.updated_at,
{
}

/// Reads of categories: a category is the caller's when its user_id holds the caller's id. The listing for `sub` holds only such rows
/// and every one of them, and a lookup finds only a row with the asked id
/// that is the caller's, and finds one wherever such a row exists.
pub proof fn law_category_reads(rows: Seq<Category>, id: Seq<char>, sub: Seq<char>)
    ensures
        forall|j: int| 0 <= j < owned_rows(rows, sub).len() ==> ((#[trigger] owned_rows(rows, sub)[j]).user_id matches Some(u) && u@ == sub),
        forall|i: int|
            0 <= i < rows.len() && (rows[i].user_id matches Some(u) && u@ == sub) ==> owned_rows(rows, sub).contains(#[trigger] rows[i]),
        first_selected(rows, id, sub) matches Some(r) ==> r.id@ == id && (r.user_id matches Some(u) && u@ == sub),
        (exists|i: int| 0 <= i < rows.len() && #[trigger] rows[i].id@ == id && (rows[i].user_id matches Some(u) && u@ == sub))
            ==> first_selected(rows, id, sub) is Some,
{
    lemma_listing_members(rows, sub);
    lemma_first_selected_is_selected(rows, id, sub);
}

/// An update of categories by `sub` rewrites each row with the id `id` that
/// is the caller's: the id stays, every field that always has a value is
/// the one sent, and an optional field is the one sent where one is sent
/// and the old one otherwise. Every other row stays as it was.
pub proof fn law_category_update(rows: Seq<Category>, id: Seq<char>, sub: Seq<char>, changes: Category, i: int)
    requires
        0 <= i < rows.len(),
    ensures
        updated_rows(rows, id, sub, changes).len() == rows.len(),
        updated_rows(rows, id, sub, changes)[i].id == rows[i].id,
        !(rows[i].id@ == id && (rows[i].user_id matches Some(u) && u@ == sub)) ==> updated_rows(rows, id, sub, changes)[i] == rows[i],
        (rows[i].id@ == id && (rows[i].user_id matches Some(u) && u@ == sub)) ==> updated_rows(rows, id, sub, changes)[i].name == changes.name,
        (rows[i].id@ == id && (rows[i].user_id matches Some(u) && u@ == sub)) && changes.description is Some ==> updated_rows(rows, id, sub, changes)[i].description == changes.description,
        (rows[i].id@ == id && (rows[i].user_id matches Some(u) && u@ == sub)) && changes.description is None ==> updated_rows(rows, id, sub, changes)[i].description == rows[i].description,
        (rows[i].id@ == id && (rows[i].user_id matches Some(u) && u@ == sub)) && changes.color is Some ==> updated_rows(rows, id, sub, changes)[i].color == changes.color,
        (rows[i].id@ == id && (rows[i].user_id matches Some(u) && u@ == sub)) && changes.color is None ==> updated_rows(rows, id, sub, changes)[i].color == rows[i].color,
        (rows[i].id@ == id && (rows[i].user_id matches Some(u) && u@ == sub)) && changes.icon is Some ==> updated_rows(rows, id, sub, changes)[i].icon == changes.icon,
        (rows[i].id@ == id && (rows[i].user_id matches Some(u) && u@ == sub)) && changes.icon is None ==> updated_rows(rows, id, sub, changes)[i].icon == rows[i].icon,
        (rows[i].id@ == id && (rows[i].user_id matches Some(u) && u@ == sub)) && changes.user_id is Some ==> updated_rows(rows, id, sub, changes)[i].user_id == changes.user_id,
        (rows[i].id@ == id && (rows[i].user_id matches Some(u) && u@ == sub)) && changes.user_id is None ==> updated_rows(rows, id, sub, changes)[i].user_id == rows[i].user_id,
        (rows[i].id@ == id && (rows[i].user_id matches Some(u) && u@ == sub)) ==> updated_rows(rows, id, sub, changes)[i].created_at == changes.created_at,
        (rows[i].id@ == id && (rows[i].user_id matches Some(u) && u@ == sub)) ==> updated_rows(rows, id, sub, changes)[i].updated_at == changes.updated_at,
{
}

/// Reads of accounts: an account is the caller's when its user_id equals the caller's id. The listing for `sub` holds only such rows
/// and every one of them, and a lookup finds only a row with the asked id
/// that is the caller's, and finds one wherever such a row exists.
pub proof fn law_account_reads(rows: Seq<Account>, id: Seq<char>, sub: Seq<char>)
    ensures
        forall|j: int| 0 <= j < owned_rows(rows, sub).len() ==> ((#[trigger] owned_rows(rows, sub)[j]).user_id@ == sub),
        forall|i: int|
            0 <= i < rows.len() && (rows[i].user_id@ == sub) ==> owned_rows(rows, sub).contains(#[trigger] rows[i]),
        first_selected(rows, id, sub) matches Some(r) ==> r.id@ == id && (r.user_id@ == sub),
        (exists|i: int| 0 <= i < rows.len() && #[trigger] rows[i].id@ == id && (rows[i].user_id@ == sub))
            ==> first_selected(rows, id, sub) is Some,
{
    lemma_listing_members(rows, sub);
    lemma_first_selected_is_selected(rows, id, sub);
}

/// An update of accounts by `sub` rewrites each row with the id `id` that
/// is the caller's: the id stays, every field that always has a value is
/// the one sent, and an optional field is the one sent where one is sent
/// and the old one otherwise. Every other row stays as it was.
pub proof fn law_account_update(rows: Seq<Account>, id: Seq<char>, sub: Seq<char>, changes: Account, i: int)
    requires
        0 <= i < rows.len(),
    ensures
        updated_rows(rows, id, sub, changes).len() == rows.len(),
        updated_rows(rows, id, sub, changes)[i].id == rows[i].id,
        !(rows[i].id@ == id && (rows[i].user_id@ == sub)) ==> updated_rows(rows, id, sub, changes)[i] == rows[i],
        (rows[i].id@ == id && (rows[i].user_id@ == sub)) ==> updated_rows(rows, id, sub, changes)[i].name == changes.name,
        (rows[i].id@ == id && (rows[i].user_id@ == sub)) ==> updated_rows(rows, id, sub, changes)[i].balance == changes.balance,
        (rows[i].id@ == id && (rows[i].user_id@ == sub)) ==> updated_rows(rows, id, sub, changes)[i].bank_name == changes.bank_name,
        (rows[i].id@ == id && (rows[i].user_id@ == sub)) ==> updated_rows(rows, id, sub, changes)[i].user_id == changes.user_id,
        (rows[i].id@ == id && (rows[i].user_id@ == sub)) ==> updated_rows(rows, id, sub, changes)[i].created_at == changes.created_at,
        (rows[i].id@ == id && (rows[i].user_id@ == sub)) ==> updated_rows(rows, id, sub, changes)[i].updated_at == changes.updated_at,
{
}

/// Reads of transactions: a transaction is the caller's when its user_id equals the caller's id. The listing for `sub` holds only such rows
/// and every one of them, and a lookup finds only a row with the asked id
/// that is the caller's, and finds one wherever such a row exists.
pub proof fn law_transaction_reads(rows: Seq<Transaction>, id: Seq<char>, sub: Seq<char>)
    ensures
        forall|j: int| 0 <= j < owned_rows(rows, sub).len() ==> ((#[trigger] owned_rows(rows, sub)[j]).user_id@ == sub),
        forall|i: int|
            0 <= i < rows.len() && (rows[i].user_id@ == sub) ==> owned_rows(rows, sub).contains(#[trigger] rows[i]),
        first_selected(rows, id, sub) matches Some(r) ==> r.id@ == id && (r.user_id@ == sub),
        (exists|i: int| 0 <= i < rows.len() && #[trigger] rows[i].id@ == id && (rows[i].user_id@ == sub))
            ==> first_selected(rows, id, sub) is Some,
{
    lemma_listing_members(rows, sub);
    lemma_first_selected_is_selected(rows, id, sub);
}

/// An update of transactions by `sub` rewrites each row with the id `id` that
/// is the caller's: the id stays, every field that always has a value is
/// the one sent, and an optional field is the one sent where one is sent
/// and the old one otherwise. Every other row stays as it was.
pub proof fn law_transaction_update(rows: Seq<Transaction>, id: Seq<char>, sub: Seq<char>, changes: Transaction, i: int)
    requires
        0 <= i < rows.len(),
    ensures
        updated_rows(rows, id, sub, changes).len() == rows.len(),
        updated_rows(rows, id, sub, changes)[i].id == rows[i].id,
        !(rows[i].id@ == id && (rows[i].user_id@ == sub)) ==> updated_rows(rows, id, sub, changes)[i] == rows[i],
        (rows[i].id@ == id && (rows[i].user_id@ == sub)) ==> updated_rows(rows, id, sub, changes)[i].amount == changes.amount,
        (rows[i].id@ == id && (rows[i].user_id@ == sub)) && changes.description is Some ==> updated_rows(rows, id, sub, changes)[i].description == changes.description,
        (rows[i].id@ == id && (rows[i].user_id@ == sub)) && changes.description is None ==> updated_rows(rows, id, sub, changes)[i].description == rows[i].description,
        (rows[i].id@ == id && (rows[i].user_id@ == sub)) ==> updated_rows(rows, id, sub, changes)[i].date == changes.date,
        (rows[i].id@ == id && (rows[i].user_id@ == sub)) ==> updated_rows(rows, id, sub, changes)[i].type_ == changes.type_,
        (rows[i].id@ == id && (rows[i].user_id@ == sub)) ==> updated_rows(rows, id, sub, changes)[i].account_id == changes.account_id,
        (rows[i].id@ == id && (rows[i].user_id@ == sub)) && changes.transfer_id is Some ==> updated_rows(rows, id, sub, changes)[i].transfer_id == changes.transfer_id,
        (rows[i].id@ == id && (rows[i].user_id@ == sub)) && changes.transfer_id is None ==> updated_rows(rows, id, sub, changes)[i].transfer_id == rows[i].transfer_id,
        (rows[i].id@ == id && (rows[i].user_id@ == sub)) && changes.category_id is Some ==> updated_rows(rows, id, sub, changes)[i].category_id == changes.category_id,
        (rows[i].id@ == id && (rows[i].user_id@ == sub)) && changes.category_id is None ==> updated_rows(rows, id, sub, changes)[i].category_id == rows[i].category_id,
        (rows[i].id@ == id && (rows[i].user_id@ == sub)) ==> updated_rows(rows, id, sub, changes)[i].user_id == changes.user_id,
        (rows[i].id@ == id && (rows[i].user_id@ == sub)) ==> updated_rows(rows, id, sub, changes)[i].created_at == changes.created_at,
        (rows[i].id@ == id && (rows[i].user_id@ == sub)) ==> updated_rows(rows, id, sub, changes)[i].updated_at == changes.updated_at,
{
}

/// Reads of transfers: a transfer is the caller's when its user_id equals the caller's id. The listing for `sub` holds only such rows
/// and every one of them, and a lookup finds only a row with the asked id
/// that is the caller's, and finds one wherever such a row exists.
pub proof fn law_transfer_reads(rows: Seq<AccountTransfer>, id: Seq<char>, sub: Seq<char>)
    ensures
        forall|j: int| 0 <= j < owned_rows(rows, sub).len() ==> ((#[trigger] owned_rows(rows, sub)[j]).user_id@ == sub),
        forall|i: int|
            0 <= i < rows.len() && (rows[i].user_id@ == sub) ==> owned_rows(rows, sub).contains(#[trigger] rows[i]),
        first_selected(rows, id, sub) matches Some(r) ==> r.id@ == id && (r.user_id@ == sub),
        (exists|i: int| 0 <= i < rows.len() && #[trigger] rows[i].id@ == id && (rows[i].user_id@ == sub))
            ==> first_selected(rows, id, sub) is Some,
{
    lemma_listing_members(rows, sub);
    lemma_first_selected_is_selected(rows, id, sub);
}

} // verus!
