//! The ledger: the tables of the service and the requests that read and
//! write them on behalf of a signed-in user.
use vstd::prelude::*;
use crate::auth::{
    Claims, LoginRequest, SESSION_SECONDS, bcrypt_prefix, hash_of, hash_password, issue_claims,
    password_accepted, password_matches, stored_hash,
};
use crate::error::ApiError;
use crate::records::{Account, AccountTransfer, Category, Transaction, User};
use crate::table::{
    Record, contains_key, find_keyed, find_selected, first_keyed, first_selected, key_taken,
    keys_unique, lemma_owned_by_key_at_most_one, owned_rows, select_owned, update_selected,
    updated_rows,
};

verus! {

/// The contents of the ledger, table by table, each in insertion order.
pub struct LedgerView {
    pub users: Seq<User>,
    pub categories: Seq<Category>,
    pub accounts: Seq<Account>,
    pub transactions: Seq<Transaction>,
    pub transfers: Seq<AccountTransfer>,
}

impl LedgerView {
    /// Every table has unique primary keys.
    pub open spec fn wf(self) -> bool {
        &&& keys_unique(self.users)
        &&& keys_unique(self.categories)
        &&& keys_unique(self.accounts)
        &&& keys_unique(self.transactions)
        &&& keys_unique(self.transfers)
    }
}

/// The first user, in table order, with the e-mail address `email`.
pub open spec fn first_with_email(users: Seq<User>, email: Seq<char>) -> Option<User>
    decreases users.len(),
{
    if users.len() == 0 {
        None
    } else if users[0].email@ == email {
        Some(users[0])
    } else {
        first_with_email(users.drop_first(), email)
    }
}

/// The answer to a login: the claims of a new session for the first user
/// with the e-mail address, if bcrypt accepts the password for that user's
/// stored hash; a refusal otherwise.
pub open spec fn login_outcome(users: Seq<User>, email: Seq<char>, password: Seq<char>, now_secs: u64) -> Result<Claims, ApiError> {
    match first_with_email(users, email) {
        Some(u) => if password_accepted(password, stored_hash(u.password)) {
            Ok(Claims { sub: u.id, exp: (now_secs + SESSION_SECONDS) as usize })
        } else {
            Err(ApiError::InvalidCredentials)
        },
        None => Err(ApiError::InvalidCredentials),
    }
}

/// The tables of the service.
pub struct Ledger {
    users: Vec<User>,
    categories: Vec<Category>,
    accounts: Vec<Account>,
    transactions: Vec<Transaction>,
    transfers: Vec<AccountTransfer>,
}

impl View for Ledger {
    type V = LedgerView;

    closed spec fn view(&self) -> LedgerView {
        LedgerView {
            users: self.users@,
            categories: self.categories@,
            accounts: self.accounts@,
            transactions: self.transactions@,
            transfers: self.transfers@,
        }
    }
}

/// Whether no two rows share a primary key.
fn all_keys_unique<R: Record>(rows: &Vec<R>) -> (r: bool)
    ensures
        r == keys_unique(rows@),
{
    let mut i: usize = 0;
    while i < rows.len()
        invariant
            i <= rows@.len(),
            forall|a: int, b: int|
                0 <= a < rows@.len() && 0 <= b < i && a != b ==> #[trigger] rows@[a].key()
                    != #[trigger] rows@[b].key(),
        decreases rows@.len() - i,
    {
        let mut j: usize = 0;
        while j < rows.len()
            invariant
                i < rows@.len(),
                j <= rows@.len(),
                forall|a: int, b: int|
                    0 <= a < rows@.len() && 0 <= b < i && a != b ==> #[trigger] rows@[a].key()
                        != #[trigger] rows@[b].key(),
                forall|a: int| 0 <= a < j && a != i ==> #[trigger] rows@[a].key() != rows@[i as int].key(),
            decreases rows@.len() - j,
        {
            if j != i && rows[j].has_key(rows[i].id()) {
                return false;
            }
            j = j + 1;
        }
        i = i + 1;
    }
    true
}


impl Ledger {
    /// An empty ledger.
    pub fn new() -> (r: Ledger)
        ensures
            r@.wf(),
            r@.users.len() == 0,
            r@.categories.len() == 0,
            r@.accounts.len() == 0,
            r@.transactions.len() == 0,
            r@.transfers.len() == 0,
    {
        Ledger {
            users: Vec::new(),
            categories: Vec::new(),
            accounts: Vec::new(),
            transactions: Vec::new(),
            transfers: Vec::new(),
        }
    }

    /// A ledger that holds the given tables, if every table has unique
    /// primary keys.
    pub fn from_tables(
        users: Vec<User>,
        categories: Vec<Category>,
        accounts: Vec<Account>,
        transactions: Vec<Transaction>,
        transfers: Vec<AccountTransfer>,
    ) -> (r: Option<Ledger>)
        ensures
            r is Some <==> (LedgerView {
                users: users@,
                categories: categories@,
                accounts: accounts@,
                transactions: transactions@,
                transfers: transfers@,
            }).wf(),
            r matches Some(l) ==> l@ == (LedgerView {
                users: users@,
                categories: categories@,
                accounts: accounts@,
                transactions: transactions@,
                transfers: transfers@,
            }),
    {
        if all_keys_unique(&users) && all_keys_unique(&categories) && all_keys_unique(&accounts)
            && all_keys_unique(&transactions) && all_keys_unique(&transfers) {
            Some(Ledger { users, categories, accounts, transactions, transfers })
        } else {
            None
        }
    }

    // ---- users ----

    /// Whether a user has the id `id`.
    pub fn has_user(&self, id: &String) -> (r: bool)
        ensures
            r == key_taken(self@.users, id@),
    {
        contains_key(&self.users, id)
    }

    /// The user with the id `id`, for storing it after an update.
    pub fn user_with_id(&self, id: &String) -> (r: Option<User>)
        ensures
            r == first_keyed(self@.users, id@),
    {
        find_keyed(&self.users, id)
    }

    /// The category with the id `id`, for storing it after an update.
    pub fn category_with_id(&self, id: &String) -> (r: Option<Category>)
        ensures
            r == first_keyed(self@.categories, id@),
    {
        find_keyed(&self.categories, id)
    }

    /// The transaction with the id `id`, for storing it after an update.
    pub fn transaction_with_id(&self, id: &String) -> (r: Option<Transaction>)
        ensures
            r == first_keyed(self@.transactions, id@),
    {
        find_keyed(&self.transactions, id)
    }

    /// Registers a new user; the password is stored as a bcrypt hash (the
    /// empty text where hashing failed). A user without a password is
    /// refused.
    pub fn create_user(&mut self, new_user: User) -> (r: Result<User, ApiError>)
        requires
            old(self)@.wf(),
            new_user.password is Some ==> !key_taken(old(self)@.users, new_user.id@),
        ensures
            final(self)@.wf(),
            new_user.password is None ==> r == Err::<User, ApiError>(ApiError::PasswordRequired)
                && final(self)@ == old(self)@,
            new_user.password is Some ==> (r matches Ok(u) && registered(old(self)@, new_user, final(self)@, u)),
    {
        match &new_user.password {
            None => Err(ApiError::PasswordRequired),
            Some(password) => {
                let hashed = hash_password(password);
                let stored = User { password: Some(hashed), ..new_user };
                self.users.push(stored.duplicate());
                Ok(stored)
            },
        }
    }

    /// Updates the user `user_id` if it is the signed-in user; answers with
    /// the update as sent.
    pub fn update_user(&mut self, user_id: &String, updated: User, claims: &Claims) -> (r: User)
        requires
            old(self)@.wf(),
        ensures
            r == updated,
            final(self)@ == (LedgerView {
                users: updated_rows(old(self)@.users, user_id@, claims.sub@, updated),
                ..old(self)@
            }),
            final(self)@.wf(),
    {
        update_selected(&mut self.users, user_id, &claims.sub, &updated);
        proof {
            lemma_update_keeps_keys(old(self)@.users, user_id@, claims.sub@, updated);
        }
        updated
    }

    /// The user `user_id`, if it is the signed-in user.
    pub fn get_user(&self, user_id: &String, claims: &Claims) -> (r: Result<User, ApiError>)
        ensures
            r == found_or(first_selected(self@.users, user_id@, claims.sub@), ApiError::UserNotFound),
    {
        found_or_exec(find_selected(&self.users, user_id, &claims.sub), ApiError::UserNotFound)
    }

    /// The users that the signed-in user may see: itself.
    pub fn get_users(&self, claims: &Claims) -> (r: Vec<User>)
        ensures
            r@ == owned_rows(self@.users, claims.sub@),
    {
        select_owned(&self.users, &claims.sub)
    }

    /// Signs a user in: the claims of a new session that starts at
    /// `now_secs`, for the first user with the e-mail address, if the
    /// password matches that user's stored hash.
    pub fn login(&self, credentials: &LoginRequest, now_secs: u64) -> (r: Result<Claims, ApiError>)
        requires
            now_secs <= u64::MAX - SESSION_SECONDS,
        ensures
            r == login_outcome(self@.users, credentials.email@, credentials.password@, now_secs),
            first_with_email(self@.users, credentials.email@) matches Some(u) && stored_hash(
                u.password,
            ).len() != 60 ==> r == Err::<Claims, ApiError>(ApiError::InvalidCredentials),
    {
        match find_by_email(&self.users, &credentials.email) {
            None => Err(ApiError::InvalidCredentials),
            Some(user) => {
                if password_matches(&credentials.password, &user.password) {
                    Ok(issue_claims(&user.id, now_secs))
                } else {
                    Err(ApiError::InvalidCredentials)
                }
            },
        }
    }

    // ---- categories ----

    /// Whether a category has the id `id`.
    pub fn has_category(&self, id: &String) -> (r: bool)
        ensures
            r == key_taken(self@.categories, id@),
    {
        contains_key(&self.categories, id)
    }

    /// Stores a new category as one of the signed-in user.
    pub fn create_category(&mut self, new_category: Category, claims: &Claims) -> (r: Category)
        requires
            old(self)@.wf(),
            !key_taken(old(self)@.categories, new_category.id@),
        ensures
            r == (Category { user_id: Some(claims.sub), ..new_category }),
            r.belongs_to(claims.sub@),
            final(self)@ == (LedgerView { categories: old(self)@.categories.push(r), ..old(self)@ }),
            final(self)@.wf(),
    {
        let created = Category { user_id: Some(claims.sub.clone()), ..new_category };
        proof {
            lemma_push_keeps_keys(old(self)@.categories, created);
        }
        self.categories.push(created.duplicate());
        created
    }

    /// The categories of the signed-in user, in table order.
    pub fn get_categories(&self, claims: &Claims) -> (r: Vec<Category>)
        ensures
            r@ == owned_rows(self@.categories, claims.sub@),
    {
        select_owned(&self.categories, &claims.sub)
    }

    /// The category `id`, if it belongs to the signed-in user.
    pub fn get_category(&self, id: &String, claims: &Claims) -> (r: Result<Category, ApiError>)
        ensures
            r == found_or(first_selected(self@.categories, id@, claims.sub@), ApiError::CategoryNotFound),
    {
        found_or_exec(find_selected(&self.categories, id, &claims.sub), ApiError::CategoryNotFound)
    }

    /// Updates the category `id` if it belongs to the signed-in user; answers
    /// with the update as sent.
    pub fn update_category(&mut self, id: &String, updated: Category, claims: &Claims) -> (r: Category)
        requires
            old(self)@.wf(),
        ensures
            r == updated,
            final(self)@ == (LedgerView {
                categories: updated_rows(old(self)@.categories, id@, claims.sub@, updated),
                ..old(self)@
            }),
            final(self)@.wf(),
    {
        update_selected(&mut self.categories, id, &claims.sub, &updated);
        proof {
            lemma_update_keeps_keys(old(self)@.categories, id@, claims.sub@, updated);
        }
        updated
    }

    // ---- accounts ----

    /// Whether a account has the id `id`.
    pub fn has_account(&self, id: &String) -> (r: bool)
        ensures
            r == key_taken(self@.accounts, id@),
    {
        contains_key(&self.accounts, id)
    }

    /// Stores a new account as one of the signed-in user.
    pub fn create_account(&mut self, new_account: Account, claims: &Claims) -> (r: Account)
        requires
            old(self)@.wf(),
            !key_taken(old(self)@.accounts, new_account.id@),
        ensures
            r == (Account { user_id: claims.sub, ..new_account }),
            r.belongs_to(claims.sub@),
            final(self)@ == (LedgerView { accounts: old(self)@.accounts.push(r), ..old(self)@ }),
            final(self)@.wf(),
    {
        let created = Account { user_id: claims.sub.clone(), ..new_account };
        proof {
            lemma_push_keeps_keys(old(self)@.accounts, created);
        }
        self.accounts.push(created.duplicate());
        created
    }

    /// The accounts of the signed-in user, in table order.
    pub fn get_accounts(&self, claims: &Claims) -> (r: Vec<Account>)
        ensures
            r@ == owned_rows(self@.accounts, claims.sub@),
    {
        select_owned(&self.accounts, &claims.sub)
    }

    /// The account `id`, if it belongs to the signed-in user.
    pub fn get_account(&self, id: &String, claims: &Claims) -> (r: Result<Account, ApiError>)
        ensures
            r == found_or(first_selected(self@.accounts, id@, claims.sub@), ApiError::AccountNotFound),
    {
        found_or_exec(find_selected(&self.accounts, id, &claims.sub), ApiError::AccountNotFound)
    }

    // ---- transactions ----

    /// Whether a transaction has the id `id`.
    pub fn has_transaction(&self, id: &String) -> (r: bool)
        ensures
            r == key_taken(self@.transactions, id@),
    {
        contains_key(&self.transactions, id)
    }

    /// Stores a new transaction as one of the signed-in user.
    pub fn create_transaction(&mut self, new_transaction: Transaction, claims: &Claims) -> (r: Transaction)
        requires
            old(self)@.wf(),
            !key_taken(old(self)@.transactions, new_transaction.id@),
        ensures
            r == (Transaction { user_id: claims.sub, ..new_transaction }),
            r.belongs_to(claims.sub@),
            final(self)@ == (LedgerView { transactions: old(self)@.transactions.push(r), ..old(self)@ }),
            final(self)@.wf(),
    {
        let created = Transaction { user_id: claims.sub.clone(), ..new_transaction };
        proof {
            lemma_push_keeps_keys(old(self)@.transactions, created);
        }
        self.transactions.push(created.duplicate());
        created
    }

    /// The transactions of the signed-in user, in table order.
    pub fn get_transactions(&self, claims: &Claims) -> (r: Vec<Transaction>)
        ensures
            r@ == owned_rows(self@.transactions, claims.sub@),
    {
        select_owned(&self.transactions, &claims.sub)
    }

    /// The transaction `id`, if it belongs to the signed-in user.
    pub fn get_transaction(&self, id: &String, claims: &Claims) -> (r: Result<Transaction, ApiError>)
        ensures
            r == found_or(first_selected(self@.transactions, id@, claims.sub@), ApiError::TransactionNotFound),
    {
        found_or_exec(find_selected(&self.transactions, id, &claims.sub), ApiError::TransactionNotFound)
    }

    /// Updates the transaction `id` if it belongs to the signed-in user; answers
    /// with the update as sent.
    pub fn update_transaction(&mut self, id: &String, updated: Transaction, claims: &Claims) -> (r: Transaction)
        requires
            old(self)@.wf(),
        ensures
            r == updated,
            final(self)@ == (LedgerView {
                transactions: updated_rows(old(self)@.transactions, id@, claims.sub@, updated),
                ..old(self)@
            }),
            final(self)@.wf(),
    {
        update_selected(&mut self.transactions, id, &claims.sub, &updated);
        proof {
            lemma_update_keeps_keys(old(self)@.transactions, id@, claims.sub@, updated);
        }
        updated
    }
}

/// `user` is `new_user` as stored by a registration into `before`: its
/// password replaced by a hash of it, appended to the users.
pub open spec fn registered(before: LedgerView, new_user: User, after: LedgerView, user: User) -> bool {
    &&& new_user.password matches Some(p) && user.password matches Some(h) && hash_of(p@, h@)
    &&& user == (User { password: user.password, ..new_user })
    &&& after == (LedgerView { users: before.users.push(user), ..before })
}

/// The found row, or the refusal.
pub open spec fn found_or<R>(found: Option<R>, missing: ApiError) -> Result<R, ApiError> {
    match found {
        Some(r) => Ok(r),
        None => Err(missing),
    }
}

fn found_or_exec<R>(found: Option<R>, missing: ApiError) -> (r: Result<R, ApiError>)
    ensures
        r == found_or(found, missing),
{
    match found {
        Some(r) => Ok(r),
        None => Err(missing),
    }
}

/// The first user with the e-mail address `email`.
fn find_by_email(users: &Vec<User>, email: &String) -> (r: Option<User>)
    ensures
        r == first_with_email(users@, email@),
{
    assert(users@.skip(0) =~= users@);
    let mut i: usize = 0;
    while i < users.len()
        invariant
            i <= users@.len(),
            first_with_email(users@, email@) == first_with_email(users@.skip(i as int), email@),
        decreases users@.len() - i,
    {
        assert(users@.skip(i as int)[0] == users@[i as int]);
        if users[i].email == *email {
            return Some(users[i].duplicate());
        }
        assert(users@.skip(i as int).drop_first() =~= users@.skip(i + 1));
        i = i + 1;
    }
    None
}

/// An update keeps the primary key of every row, so keys stay unique.
pub proof fn lemma_update_keeps_keys<R: Record>(rows: Seq<R>, id: Seq<char>, sub: Seq<char>, changes: R)
    requires
        keys_unique(rows),
    ensures
        keys_unique(updated_rows(rows, id, sub, changes)),
        forall|i: int| 0 <= i < rows.len() ==> #[trigger] updated_rows(rows, id, sub, changes)[i].key() == rows[i].key(),
{
    let after = updated_rows(rows, id, sub, changes);
    assert forall|i: int| 0 <= i < rows.len() implies #[trigger] after[i].key() == rows[i].key() by {
        rows[i].lemma_changes_keep_key(&changes);
    }
    assert forall|i: int, j: int|
        0 <= i < after.len() && 0 <= j < after.len() && i != j implies #[trigger] after[i].key() != #[trigger] after[j].key() by {
        rows[i].lemma_changes_keep_key(&changes);
        rows[j].lemma_changes_keep_key(&changes);
    }
}

/// Appending a row with a new key keeps keys unique.
pub proof fn lemma_push_keeps_keys<R: Record>(rows: Seq<R>, row: R)
    requires
        keys_unique(rows),
        !key_taken(rows, row.key()),
    ensures
        keys_unique(rows.push(row)),
{
    let after = rows.push(row);
    assert forall|i: int, j: int|
        0 <= i < after.len() && 0 <= j < after.len() && i != j implies #[trigger] after[i].key() != #[trigger] after[j].key() by {
        if i == rows.len() {
            assert(after[j] == rows[j]);
        } else if j == rows.len() {
            assert(after[i] == rows[i]);
        }
    }
}


/// Appending a user with the e-mail address `email` to users among whom
/// none has it makes that user the first with it.
pub proof fn lemma_first_with_email_push(users: Seq<User>, user: User, email: Seq<char>)
    requires
        first_with_email(users, email) is None,
        user.email@ == email,
    ensures
        first_with_email(users.push(user), email) == Some(user),
    decreases users.len(),
{
    if users.len() > 0 {
        assert(users.push(user).drop_first() =~= users.drop_first().push(user));
        lemma_first_with_email_push(users.drop_first(), user, email);
    }
}

/// A user who registered with a password that was hashed can sign in with
/// that password, as long as no earlier user has the same e-mail address:
/// the session is the user's own and lasts one day from the sign-in.
pub proof fn law_registered_user_can_log_in(
    before: LedgerView,
    new_user: User,
    after: LedgerView,
    user: User,
    now_secs: u64,
)
    requires
        registered(before, new_user, after, user),
        stored_hash(user.password).len() == 60,
        first_with_email(before.users, new_user.email@) is None,
    ensures
        new_user.password matches Some(p) && login_outcome(after.users, new_user.email@, p@, now_secs)
            == Ok::<Claims, ApiError>(Claims { sub: new_user.id, exp: (now_secs + SESSION_SECONDS) as usize }),
{
    lemma_first_with_email_push(before.users, user, new_user.email@);
}


/// A signed-in user sees at most one user: itself.
pub proof fn law_users_see_only_themselves(view: LedgerView, sub: Seq<char>)
    requires
        view.wf(),
    ensures
        owned_rows(view.users, sub).len() <= 1,
        forall|i: int|
            0 <= i < owned_rows(view.users, sub).len() ==> #[trigger] owned_rows(view.users, sub)[i].id@
                == sub,
{
    lemma_owned_by_key_at_most_one(view.users, sub);
    assert forall|i: int| 0 <= i < owned_rows(view.users, sub).len() implies #[trigger] owned_rows(
        view.users,
        sub,
    )[i].id@ == sub by {
        let pred = |u: User| u.belongs_to(sub);
        view.users.lemma_filter_pred(pred, i);
    }
}


/// Registration never stores the password as sent: the stored text equals
/// the password only where the password is empty (and hashing failed) or
/// is itself a 60-character text that begins like a bcrypt hash.
pub proof fn law_plain_password_not_stored(before: LedgerView, new_user: User, after: LedgerView, user: User)
    requires
        registered(before, new_user, after, user),
    ensures
        new_user.password matches Some(p) && user.password matches Some(h) && (h@ == p@ ==> (p@.len()
            == 0 || (p@.len() == 60 && p@.subrange(0, 7) == bcrypt_prefix()))),
{
}

/// A sign-in is refused with the same answer whether no user has the
/// e-mail address or the password does not match: the answer does not tell
/// whether an address is registered.
pub proof fn law_refusals_look_alike(users: Seq<User>, email: Seq<char>, password: Seq<char>, now_secs: u64)
    ensures
        login_outcome(users, email, password, now_secs) is Ok || login_outcome(
            users,
            email,
            password,
            now_secs,
        ) == Err::<Claims, ApiError>(ApiError::InvalidCredentials),
        first_with_email(users, email) is None ==> login_outcome(users, email, password, now_secs)
            == Err::<Claims, ApiError>(ApiError::InvalidCredentials),
        first_with_email(users, email) matches Some(u) && !password_accepted(
            password,
            stored_hash(u.password),
        ) ==> login_outcome(users, email, password, now_secs) == Err::<Claims, ApiError>(
            ApiError::InvalidCredentials,
        ),
{
}

/// Two successful sign-ins of users with the same id at the same second
/// give the same claims: a session carries only the user's id and its
/// expiry, never the password or its hash.
pub proof fn law_session_claims_depend_on_user_and_time(
    users1: Seq<User>,
    email1: Seq<char>,
    password1: Seq<char>,
    users2: Seq<User>,
    email2: Seq<char>,
    password2: Seq<char>,
    now_secs: u64,
)
    requires
        login_outcome(users1, email1, password1, now_secs) is Ok,
        login_outcome(users2, email2, password2, now_secs) is Ok,
        first_with_email(users1, email1)->0.id@ == first_with_email(users2, email2)->0.id@,
    ensures
        login_outcome(users1, email1, password1, now_secs)->Ok_0.sub@ == first_with_email(
            users1,
            email1,
        )->0.id@,
        login_outcome(users1, email1, password1, now_secs)->Ok_0.sub@ == login_outcome(
            users2,
            email2,
            password2,
            now_secs,
        )->Ok_0.sub@,
        login_outcome(users1, email1, password1, now_secs)->Ok_0.exp == login_outcome(
            users2,
            email2,
            password2,
            now_secs,
        )->Ok_0.exp,
        login_outcome(users1, email1, password1, now_secs)->Ok_0.exp == (now_secs + SESSION_SECONDS) as usize,
{
}

} // verus!
