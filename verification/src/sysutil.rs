//! The inventory itself: the regular users and the sessions of one machine.

use vstd::prelude::*;

use crate::account::{
    collect_users, lemma_inverted_limits_admit_nobody, lemma_user_entry, shown_as, users_within,
    Account, AccountView,
};
use crate::namemap::NameMap;
use crate::policy::{policy_bound, policy_limits, Bound, Limit, PolicyError, UidRange};
use crate::session::{describe, sessions_of, SessionFile, SessionFileView};

verus! {

/// Display name to login name, for each regular user.
pub type UserMap = NameMap<String>;

/// Display name to command, for each session.
pub type SessionMap = NameMap<Vec<String>>;

/// Stores info of all regular users and sessions.
pub struct SysUtil {
    /// Maps a user's full name to their system username.
    users: UserMap,
    /// Maps a session's full name to its command.
    sessions: SessionMap,
}

/// An inventory as a plain value.
pub struct Inventory {
    /// Display name to login name.
    pub users: Map<Seq<char>, Seq<char>>,
    /// Display name to the words of the command.
    pub sessions: Map<Seq<char>, Seq<Seq<char>>>,
}

impl View for SysUtil {
    type V = Inventory;

    closed spec fn view(&self) -> Inventory {
        Inventory { users: self.users@, sessions: self.sessions@ }
    }
}

/// The regular users that a policy file and an account database come to, or
/// the reason why the policy file sets no usable limits.
pub open spec fn regular_users(policy: Seq<char>, accounts: Seq<AccountView>) -> Result<
    Map<Seq<char>, Seq<char>>,
    PolicyError,
> {
    match policy_limits(policy) {
        Ok((min, max)) => Ok(users_within(min, max, accounts)),
        Err(e) => Err(e),
    }
}

/// The inventory that a policy file, an account database and a list of
/// session files come to.
pub open spec fn inventory_of(
    policy: Seq<char>,
    accounts: Seq<AccountView>,
    files: Seq<SessionFileView>,
) -> Result<Inventory, PolicyError> {
    match regular_users(policy, accounts) {
        Ok(users) => Ok(Inventory { users, sessions: sessions_of(files) }),
        Err(e) => Err(e),
    }
}

/// Whether `r` is what building the inventory from these inputs gives: the
/// inventory that they come to, or the reason why there is none.
pub open spec fn built_from(
    r: Result<SysUtil, PolicyError>,
    policy: Seq<char>,
    accounts: Seq<AccountView>,
    files: Seq<SessionFileView>,
) -> bool {
    match inventory_of(policy, accounts, files) {
        Ok(inventory) => r matches Ok(util) && util@ == inventory,
        Err(e) => r matches Err(err) && err == e,
    }
}

/// Where the policy file sets both limits, the users are drawn from the
/// accounts between them and from no others: every user stems from an
/// account whose uid lies within the limits, under that account's display
/// name and with its login name, and every account within the limits is
/// offered under its display name.
pub proof fn lemma_users_lie_within_limits(
    policy: Seq<char>,
    min: u32,
    max: u32,
    accounts: Seq<AccountView>,
)
    requires
        policy_bound(policy, Limit::Min) == Bound::Found(min),
        policy_bound(policy, Limit::Max) == Bound::Found(max),
    ensures
        regular_users(policy, accounts) matches Ok(users) && {
            &&& forall|name: Seq<char>| #[trigger]
                users.contains_key(name) ==> exists|i: int|
                    {
                        &&& 0 <= i < accounts.len()
                        &&& min <= (#[trigger] accounts[i]).uid <= max
                        &&& accounts[i].display_name() == name
                        &&& accounts[i].name == users[name]
                    }
            &&& forall|i: int|
                0 <= i < accounts.len() && min <= (#[trigger] accounts[i]).uid <= max
                    ==> users.contains_key(accounts[i].display_name())
        },
{
    let users = users_within(min, max, accounts);
    assert forall|name: Seq<char>| #[trigger] users.contains_key(name) implies exists|i: int|
        {
            &&& 0 <= i < accounts.len()
            &&& min <= (#[trigger] accounts[i]).uid <= max
            &&& accounts[i].display_name() == name
            &&& accounts[i].name == users[name]
        } by {
        lemma_user_entry(min, max, accounts, name);
        let i = choose|i: int|
            {
                &&& #[trigger] shown_as(min, max, accounts, name, i)
                &&& users[name] == accounts[i].name
                &&& forall|j: int| i < j ==> !shown_as(min, max, accounts, name, j)
            };
        assert(min <= accounts[i].uid <= max);
    }
    assert forall|i: int|
        0 <= i < accounts.len() && min <= (#[trigger] accounts[i]).uid
            <= max implies users.contains_key(accounts[i].display_name()) by {
        lemma_user_entry(min, max, accounts, accounts[i].display_name());
        assert(shown_as(min, max, accounts, accounts[i].display_name(), i));
    }
}

/// A limit that the policy file does not set counts as if the file set it to
/// its default: two policy files that differ only in that one leaves out
/// what the other sets to the default give the same users.
pub proof fn lemma_absent_limits_take_defaults(
    silent: Seq<char>,
    explicit: Seq<char>,
    accounts: Seq<AccountView>,
)
    requires
        forall|limit: Limit|
            match #[trigger] policy_bound(silent, limit) {
                Bound::Absent => policy_bound(explicit, limit) == Bound::Found(limit.fallback()),
                set => policy_bound(explicit, limit) == set,
            },
    ensures
        regular_users(silent, accounts) == regular_users(explicit, accounts),
{
    assert(policy_bound(silent, Limit::Min) is Absent ==> policy_bound(explicit, Limit::Min)
        == Bound::Found(Limit::Min.fallback()));
    assert(policy_bound(silent, Limit::Max) is Absent ==> policy_bound(explicit, Limit::Max)
        == Bound::Found(Limit::Max.fallback()));
}

/// Building the inventory again from the same inputs gives the same
/// inventory: the same users and the same sessions, or the same failure.
pub proof fn lemma_building_again_changes_nothing(
    first: Result<SysUtil, PolicyError>,
    second: Result<SysUtil, PolicyError>,
    policy: Seq<char>,
    accounts: Seq<AccountView>,
    files: Seq<SessionFileView>,
)
    requires
        built_from(first, policy, accounts, files),
        built_from(second, policy, accounts, files),
    ensures
        match (first, second) {
            (Ok(a), Ok(b)) => a@ == b@,
            (Err(a), Err(b)) => a == b,
            _ => false,
        },
{
}

impl SysUtil {
    /// Builds the inventory from what was read: the text of the login policy
    /// file, the entries of the account database in its order, and the
    /// session files in the order in which they were found.
    ///
    /// Fails where the policy file gives a limit that is no uid, and only
    /// there.
    pub fn new(policy: &str, accounts: &Vec<Account>, files: &Vec<SessionFile>) -> (r: Result<
        SysUtil,
        PolicyError,
    >)
        ensures
            built_from(r, policy@, accounts.deep_view(), files.deep_view()),
    {
        match Self::init_users(policy, accounts) {
            Ok(users) => Ok(SysUtil { users, sessions: Self::init_sessions(files) }),
            Err(e) => Err(e),
        }
    }

    /// Get the list of regular users.
    ///
    /// These are the accounts with a uid between the `UID_MIN` and `UID_MAX`
    /// of the policy file, each under its display name.
    pub fn init_users(policy: &str, accounts: &Vec<Account>) -> (r: Result<UserMap, PolicyError>)
        ensures
            match regular_users(policy@, accounts.deep_view()) {
                Ok(users) => r matches Ok(map) && map@ == users,
                Err(e) => r matches Err(err) && err == e,
            },
    {
        match UidRange::from_policy(policy) {
            Ok(Some(range)) => Ok(collect_users(&range, accounts)),
            Ok(None) => {
                proof {
                    let (min, max) = policy_limits(policy@)->Ok_0;
                    lemma_inverted_limits_admit_nobody(min, max, accounts.deep_view());
                }
                Ok(NameMap::new())
            },
            Err(e) => Err(e),
        }
    }

    /// Get available sessions.
    ///
    /// These are the sessions that `files` describe, each under its name.
    /// Files are taken in order, and a later session replaces an earlier one
    /// of its name.
    pub fn init_sessions(files: &Vec<SessionFile>) -> (sessions: SessionMap)
        ensures
            sessions@ == sessions_of(files.deep_view()),
    {
        let mut sessions: SessionMap = NameMap::new();
        let mut i: usize = 0;
        while i < files.len()
            invariant
                i <= files@.len(),
                sessions@ == sessions_of(files.deep_view().take(i as int)),
            decreases files@.len() - i,
        {
            proof {
                let done = files.deep_view().take(i as int);
                let next = files.deep_view().take(i + 1);
                assert(next.drop_last() =~= done);
                assert(next.last() == files@[i as int]@);
            }
            match describe(&files[i]) {
                Some(session) => {
                    sessions.insert(session.name, session.command);
                },
                None => {},
            }
            i = i + 1;
        }
        assert(files.deep_view().take(i as int) =~= files.deep_view());
        sessions
    }

    /// Get the mapping of a user's full name to their system username.
    ///
    /// If the full name is not available, their system username is used.
    pub fn get_users(&self) -> (users: &UserMap)
        ensures
            users@ == self@.users,
    {
        &self.users
    }

    /// Get the mapping of a session's full name to its command.
    ///
    /// If the full name is not available, the filename stem is used.
    pub fn get_sessions(&self) -> (sessions: &SessionMap)
        ensures
            sessions@ == self@.sessions,
    {
        &self.sessions
    }
}

} // verus!
