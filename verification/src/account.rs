//! The accounts of the machine and the names under which the regular ones
//! are offered.

use vstd::prelude::*;
use vstd::string::*;

use crate::namemap::NameMap;
use crate::policy::{uid_admitted, UidRange};

verus! {

/// One entry of the account database, as far as the greeter reads it.
#[derive(Debug, PartialEq, Eq)]
pub struct Account {
    /// The login name.
    pub name: String,
    /// The numeric user id.
    pub uid: u32,
    /// The full name, where the entry has that field. It may be empty.
    pub full_name: Option<String>,
}

/// An account as a plain value.
pub struct AccountView {
    /// The characters of the login name.
    pub name: Seq<char>,
    /// The numeric user id.
    pub uid: u32,
    /// The characters of the full name, where the entry has that field.
    pub full_name: Option<Seq<char>>,
}

impl View for Account {
    type V = AccountView;

    open spec fn view(&self) -> AccountView {
        AccountView {
            name: self.name@,
            uid: self.uid,
            full_name: match self.full_name {
                Some(full) => Some(full@),
                None => None,
            },
        }
    }
}

impl DeepView for Account {
    type V = AccountView;

    open spec fn deep_view(&self) -> AccountView {
        self@
    }
}

impl AccountView {
    /// The name shown for the account: its full name where it has one that
    /// is not empty, else its login name.
    pub open spec fn display_name(self) -> Seq<char> {
        match self.full_name {
            Some(full) => if full.len() > 0 {
                full
            } else {
                self.name
            },
            None => self.name,
        }
    }
}

/// The users among `accounts` under the limits `min` and `max`: each account
/// whose uid the limits admit is put under its display name, in the order of
/// `accounts`, so that of two accounts with one display name the later stays.
pub open spec fn users_within(min: u32, max: u32, accounts: Seq<AccountView>) -> Map<
    Seq<char>,
    Seq<char>,
>
    decreases accounts.len(),
{
    if accounts.len() == 0 {
        Map::empty()
    } else {
        let earlier = users_within(min, max, accounts.drop_last());
        let account = accounts.last();
        if uid_admitted(min, max, account.uid) {
            earlier.insert(account.display_name(), account.name)
        } else {
            earlier
        }
    }
}

/// Limits of which the lower is above the higher admit no account.
pub proof fn lemma_inverted_limits_admit_nobody(min: u32, max: u32, accounts: Seq<AccountView>)
    requires
        min > max,
    ensures
        users_within(min, max, accounts) == Map::<Seq<char>, Seq<char>>::empty(),
    decreases accounts.len(),
{
    if accounts.len() > 0 {
        lemma_inverted_limits_admit_nobody(min, max, accounts.drop_last());
    }
}

/// An account without a full name, or with an empty one, is shown under its
/// login name.
pub proof fn lemma_nameless_account_shows_login_name(account: AccountView)
    requires
        account.full_name matches Some(full) ==> full.len() == 0,
    ensures
        account.display_name() == account.name,
{
}

/// Whether the account at `i` is a regular one that is shown as `name`.
pub open spec fn shown_as(
    min: u32,
    max: u32,
    accounts: Seq<AccountView>,
    name: Seq<char>,
    i: int,
) -> bool {
    0 <= i < accounts.len() && uid_admitted(min, max, accounts[i].uid)
        && accounts[i].display_name() == name
}

/// A name is among the users exactly where a regular account is shown under
/// it, and it leads to the login name of the last such account. So every
/// user stems from an account whose uid the limits admit, and every such
/// account is offered.
pub proof fn lemma_user_entry(min: u32, max: u32, accounts: Seq<AccountView>, name: Seq<char>)
    ensures
        users_within(min, max, accounts).contains_key(name) <==> exists|i: int|
            shown_as(min, max, accounts, name, i),
        users_within(min, max, accounts).contains_key(name) ==> exists|i: int|
            {
                &&& #[trigger] shown_as(min, max, accounts, name, i)
                &&& users_within(min, max, accounts)[name] == accounts[i].name
                &&& forall|j: int| i < j ==> !shown_as(min, max, accounts, name, j)
            },
    decreases accounts.len(),
{
    if accounts.len() > 0 {
        let front = accounts.drop_last();
        let last = accounts.len() - 1;
        lemma_user_entry(min, max, front, name);
        assert forall|i: int| shown_as(min, max, front, name, i) implies shown_as(
            min,
            max,
            accounts,
            name,
            i,
        ) by {
            assert(front[i] == accounts[i]);
        }
        assert forall|i: int| i != last && shown_as(min, max, accounts, name, i) implies shown_as(
            min,
            max,
            front,
            name,
            i,
        ) by {
            assert(front[i] == accounts[i]);
        }
        if shown_as(min, max, accounts, name, last) {
            assert(users_within(min, max, accounts)[name] == accounts[last].name);
        } else if users_within(min, max, accounts).contains_key(name) {
            assert(users_within(min, max, front).contains_key(name));
            let i = choose|i: int|
                {
                    &&& #[trigger] shown_as(min, max, front, name, i)
                    &&& users_within(min, max, front)[name] == front[i].name
                    &&& forall|j: int| i < j ==> !shown_as(min, max, front, name, j)
                };
            assert(shown_as(min, max, accounts, name, i));
            assert(front[i] == accounts[i]);
            assert forall|j: int| i < j implies !shown_as(min, max, accounts, name, j) by {
                if j != last && shown_as(min, max, accounts, name, j) {
                    assert(shown_as(min, max, front, name, j));
                }
            }
        }
    }
}

/// The accounts of two lists, one after the other, come to the users of the
/// first list overlaid with those of the second. So where both lists show a
/// regular account under one name, the later list's account is the one that
/// stays.
pub proof fn lemma_later_accounts_win(
    min: u32,
    max: u32,
    first: Seq<AccountView>,
    second: Seq<AccountView>,
)
    ensures
        users_within(min, max, first + second) == users_within(
            min,
            max,
            first,
        ).union_prefer_right(users_within(min, max, second)),
        forall|name: Seq<char>| #[trigger]
            users_within(min, max, second).contains_key(name) ==> users_within(
                min,
                max,
                first + second,
            )[name] == users_within(min, max, second)[name],
    decreases second.len(),
{
    if second.len() == 0 {
        assert(first + second =~= first);
        assert(users_within(min, max, first).union_prefer_right(users_within(min, max, second))
            =~= users_within(min, max, first));
    } else {
        lemma_later_accounts_win(min, max, first, second.drop_last());
        assert((first + second).drop_last() =~= first + second.drop_last());
        assert((first + second).last() == second.last());
        assert(users_within(min, max, first + second) =~= users_within(
            min,
            max,
            first,
        ).union_prefer_right(users_within(min, max, second)));
    }
}

impl Account {
    /// The name shown for the account: its full name where it has one that
    /// is not empty, else its login name.
    pub fn display_name(&self) -> (label: String)
        ensures
            label@ == self@.display_name(),
    {
        match &self.full_name {
            Some(full) => {
                if full.as_str().unicode_len() > 0 {
                    full.clone()
                } else {
                    self.name.clone()
                }
            },
            None => self.name.clone(),
        }
    }
}

/// The regular users among `accounts`: display name to login name, for each
/// account whose uid lies in `range`.
pub fn collect_users(range: &UidRange, accounts: &Vec<Account>) -> (users: NameMap<String>)
    ensures
        users@ == users_within(range.lowest(), range.highest(), accounts.deep_view()),
{
    let mut users: NameMap<String> = NameMap::new();
    let mut i: usize = 0;
    while i < accounts.len()
        invariant
            i <= accounts@.len(),
            users@ == users_within(
                range.lowest(),
                range.highest(),
                accounts.deep_view().take(i as int),
            ),
        decreases accounts@.len() - i,
    {
        let account = &accounts[i];
        proof {
            let done = accounts.deep_view().take(i as int);
            let next = accounts.deep_view().take(i + 1);
            assert(next.drop_last() =~= done);
            assert(next.last() == account@);
        }
        if range.contains(account.uid) {
            users.insert(account.display_name(), account.name.clone());
        }
        i = i + 1;
    }
    assert(accounts.deep_view().take(i as int) =~= accounts.deep_view());
    users
}

} // verus!
