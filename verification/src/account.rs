//! The shapes that an account record has had over time, and the rule that
//! brings each of them to the current shape.
use vstd::prelude::*;
use vstd::std_specs::convert::FromSpecImpl;

verus! {

/// The height of a block of the chain that the service runs on.
pub type BlockHeight = u64;

/// The earliest record shape.
#[derive(Clone, Copy, Debug, PartialEq, Eq)]
pub struct AccountV1 {
    pub vote: u8,
    pub balance: u8,
}

/// The second record shape: a free text was added.
#[derive(Clone, Debug, PartialEq, Eq)]
pub struct AccountV2 {
    pub vote: u8,
    pub balance: u8,
    pub bio: String,
}

/// The current record shape, the only one that callers ever see.
#[derive(Clone, Debug, PartialEq, Eq)]
pub struct Account {
    pub vote: u8,
    pub balance: u8,
    pub bio: String,
    pub last_change: BlockHeight,
}

/// A record as it is stored: one of the shapes, tagged. Shapes are only ever
/// added, at the end.
#[derive(Clone, Debug, PartialEq, Eq)]
pub enum VersionedAccount {
    V1(AccountV1),
    V2(AccountV2),
    Current(Account),
}

/// What an [`AccountV2`] holds.
pub struct AccountV2View {
    pub vote: u8,
    pub balance: u8,
    pub bio: Seq<char>,
}

/// What an [`Account`] holds.
pub struct AccountView {
    pub vote: u8,
    pub balance: u8,
    pub bio: Seq<char>,
    pub last_change: u64,
}

/// What a [`VersionedAccount`] holds.
pub enum VersionedAccountView {
    V1(AccountV1),
    V2(AccountV2View),
    Current(AccountView),
}

impl View for AccountV2 {
    type V = AccountV2View;

    open spec fn view(&self) -> AccountV2View {
        AccountV2View { vote: self.vote, balance: self.balance, bio: self.bio@ }
    }
}

impl View for Account {
    type V = AccountView;

    open spec fn view(&self) -> AccountView {
        AccountView {
            vote: self.vote,
            balance: self.balance,
            bio: self.bio@,
            last_change: self.last_change,
        }
    }
}

impl View for VersionedAccount {
    type V = VersionedAccountView;

    open spec fn view(&self) -> VersionedAccountView {
        match *self {
            VersionedAccount::V1(a) => VersionedAccountView::V1(a),
            VersionedAccount::V2(a) => VersionedAccountView::V2(a@),
            VersionedAccount::Current(a) => VersionedAccountView::Current(a@),
        }
    }
}

/// The text that stands for the bio of a record written before records had one.
pub open spec fn placeholder_bio() -> Seq<char> {
    "migrate bio"@
}

/// A record that nobody has written to yet.
pub open spec fn blank_account() -> AccountView {
    AccountView { vote: 0, balance: 0, bio: Seq::empty(), last_change: 0 }
}

/// The current shape of a stored record. Fields that the stored shape has are
/// kept; the others get their fill-in value.
pub open spec fn normalize(v: VersionedAccountView) -> AccountView {
    match v {
        VersionedAccountView::V1(a) => AccountView {
            vote: a.vote,
            balance: a.balance,
            bio: placeholder_bio(),
            last_change: 0,
        },
        VersionedAccountView::V2(a) => AccountView {
            vote: a.vote,
            balance: a.balance,
            bio: a.bio,
            last_change: 0,
        },
        VersionedAccountView::Current(a) => a,
    }
}

/// The stored form of a current record: always the newest variant.
pub open spec fn wrap(a: AccountView) -> VersionedAccountView {
    VersionedAccountView::Current(a)
}

impl Default for AccountV1 {
    fn default() -> (r: AccountV1)
        ensures
            r.vote == 0,
            r.balance == 0,
    {
        AccountV1 { vote: 0, balance: 0 }
    }
}

impl Default for AccountV2 {
    fn default() -> (r: AccountV2)
        ensures
            r@ == (AccountV2View { vote: 0, balance: 0, bio: Seq::empty() }),
    {
        AccountV2 { vote: 0, balance: 0, bio: String::new() }
    }
}

impl Default for Account {
    fn default() -> (r: Account)
        ensures
            r@ == blank_account(),
    {
        Account { vote: 0, balance: 0, bio: String::new(), last_change: 0 }
    }
}

impl From<VersionedAccount> for Account {
    /// Brings a stored record to the current shape.
    fn from(account: VersionedAccount) -> (r: Account)
        ensures
            r@ == normalize(account@),
    {
        match account {
            VersionedAccount::Current(account) => account,
            VersionedAccount::V1(v1) => Account {
                vote: v1.vote,
                balance: v1.balance,
                bio: "migrate bio".to_owned(),
                last_change: 0,
            },
            VersionedAccount::V2(v2) => Account {
                vote: v2.vote,
                balance: v2.balance,
                bio: v2.bio,
                last_change: 0,
            },
        }
    }
}

/// Two accounts with the same contents need not be the same value to the
/// verifier, which knows a `String` by its view alone. So this conversion
/// names no result here, and states it over views where it is defined.
impl FromSpecImpl<VersionedAccount> for Account {
    open spec fn obeys_from_spec() -> bool {
        false
    }

    open spec fn from_spec(v: VersionedAccount) -> Account {
        arbitrary()
    }
}

impl From<Account> for VersionedAccount {
    /// Wraps a current record for storing.
    fn from(account: Account) -> (r: VersionedAccount)
        ensures
            r@ == wrap(account@),
    {
        VersionedAccount::Current(account)
    }
}

impl FromSpecImpl<Account> for VersionedAccount {
    open spec fn obeys_from_spec() -> bool {
        true
    }

    open spec fn from_spec(v: Account) -> VersionedAccount {
        VersionedAccount::Current(v)
    }
}

/// Normalizing is idempotent through the stored form: wrapping a normalized
/// record and normalizing it again changes nothing.
pub proof fn lemma_normalize_idempotent(v: VersionedAccountView)
    ensures
        normalize(wrap(normalize(v))) == normalize(v),
{
}

/// Wrapping loses nothing: a current record comes back from its stored form
/// as it went in.
pub proof fn lemma_normalize_wrap(a: AccountView)
    ensures
        normalize(wrap(a)) == a,
{
}

} // verus!
