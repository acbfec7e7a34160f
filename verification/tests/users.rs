use egreet::account::{collect_users, Account};
use egreet::policy::{PolicyError, UidRange};
use egreet::sysutil::SysUtil;

fn account(name: &str, uid: u32, full_name: Option<&str>) -> Account {
    Account { name: name.to_string(), uid, full_name: full_name.map(str::to_string) }
}

fn sample_accounts() -> Vec<Account> {
    vec![
        account("root", 0, Some("root")),
        account("alice", 1000, Some("")),
        account("bob", 1500, Some("Bob Smith")),
    ]
}

#[test]
fn display_name_prefers_a_full_name() {
    assert_eq!(account("bob", 1500, Some("Bob Smith")).display_name(), "Bob Smith");
    assert_eq!(account("bob", 1500, Some(" ")).display_name(), " ");
}

#[test]
fn display_name_falls_back_to_the_login_name() {
    assert_eq!(account("alice", 1000, Some("")).display_name(), "alice");
    assert_eq!(account("carol", 1001, None).display_name(), "carol");
}

#[test]
fn only_accounts_within_the_limits_are_users() {
    let users = SysUtil::init_users("UID_MIN 1000\nUID_MAX 60000", &sample_accounts()).unwrap();
    assert_eq!(users.len(), 2);
    assert_eq!(users.get("alice"), Some(&"alice".to_string()));
    assert_eq!(users.get("Bob Smith"), Some(&"bob".to_string()));
    assert_eq!(users.get("root"), None);
    assert_eq!(users.get("bob"), None);
}

#[test]
fn limits_are_inclusive() {
    let accounts = vec![
        account("low", 499, None),
        account("first", 500, None),
        account("last", 600, None),
        account("high", 601, None),
    ];
    let users = SysUtil::init_users("UID_MIN 500\nUID_MAX 600", &accounts).unwrap();
    let mut names = users.names();
    names.sort();
    assert_eq!(names, vec!["first".to_string(), "last".to_string()]);
}

#[test]
fn absent_limits_mean_the_defaults() {
    let accounts = vec![
        account("daemon", 999, None),
        account("first", 1000, None),
        account("last", 60000, Some("Last User")),
        account("nobody", 65534, Some("Nobody")),
    ];
    let implied = SysUtil::init_users("# no limits here\n", &accounts).unwrap();
    let stated = SysUtil::init_users("UID_MIN 1000\nUID_MAX 60000\n", &accounts).unwrap();
    let mut implied_names = implied.names();
    let mut stated_names = stated.names();
    implied_names.sort();
    stated_names.sort();
    assert_eq!(implied_names, vec!["Last User".to_string(), "first".to_string()]);
    assert_eq!(implied_names, stated_names);
    for name in &implied_names {
        assert_eq!(implied.get(name), stated.get(name));
    }
    assert_eq!(implied.get("Last User"), Some(&"last".to_string()));
}

#[test]
fn one_absent_limit_means_its_default() {
    let accounts = vec![account("a", 500, None), account("b", 1000, None), account("c", 60001, None)];
    let users = SysUtil::init_users("UID_MIN 500\n", &accounts).unwrap();
    let mut names = users.names();
    names.sort();
    assert_eq!(names, vec!["a".to_string(), "b".to_string()]);
    let users = SysUtil::init_users("UID_MAX 70000\n", &accounts).unwrap();
    let mut names = users.names();
    names.sort();
    assert_eq!(names, vec!["b".to_string(), "c".to_string()]);
}

#[test]
fn later_account_wins_a_shared_display_name() {
    let accounts = vec![
        account("jsmith", 1000, Some("J. Smith")),
        account("other", 1001, None),
        account("jsmith2", 1002, Some("J. Smith")),
    ];
    let users = SysUtil::init_users("", &accounts).unwrap();
    assert_eq!(users.len(), 2);
    assert_eq!(users.get("J. Smith"), Some(&"jsmith2".to_string()));
    assert_eq!(users.get("other"), Some(&"other".to_string()));
}

#[test]
fn account_outside_the_limits_does_not_shadow_a_user() {
    let accounts = vec![account("admin", 1000, Some("Admin")), account("sysadmin", 10, Some("Admin"))];
    let users = SysUtil::init_users("", &accounts).unwrap();
    assert_eq!(users.len(), 1);
    assert_eq!(users.get("Admin"), Some(&"admin".to_string()));
}

#[test]
fn inverted_limits_admit_nobody() {
    let users = SysUtil::init_users("UID_MIN 2000\nUID_MAX 1000", &sample_accounts()).unwrap();
    assert!(users.is_empty());
    assert_eq!(users.len(), 0);
    let users = SysUtil::init_users("UID_MIN 70000", &sample_accounts()).unwrap();
    assert!(users.is_empty());
}

#[test]
fn malformed_limit_fails_the_users() {
    assert!(matches!(
        SysUtil::init_users("UID_MIN 4294967296", &sample_accounts()),
        Err(PolicyError::MalformedMin)
    ));
    assert!(matches!(
        SysUtil::init_users("UID_MAX 4294967296", &sample_accounts()),
        Err(PolicyError::MalformedMax)
    ));
    assert!(matches!(
        SysUtil::init_users("UID_MAX 4294967296 UID_MIN 4294967296", &sample_accounts()),
        Err(PolicyError::MalformedMin)
    ));
}

#[test]
fn no_accounts_no_users() {
    let users = SysUtil::init_users("UID_MIN 1000\nUID_MAX 60000", &Vec::new()).unwrap();
    assert!(users.is_empty());
}

#[test]
fn collects_users_of_a_range() {
    let range = UidRange::new(0, 1000).unwrap();
    let users = collect_users(&range, &sample_accounts());
    assert_eq!(users.len(), 2);
    assert_eq!(users.get("root"), Some(&"root".to_string()));
    assert_eq!(users.get("alice"), Some(&"alice".to_string()));
    assert!(!users.contains_key("Bob Smith"));
}

#[test]
fn resolving_users_twice_gives_the_same_users() {
    let accounts = sample_accounts();
    let policy = "UID_MIN 1000\nUID_MAX 60000";
    let first = SysUtil::init_users(policy, &accounts).unwrap();
    let second = SysUtil::init_users(policy, &accounts).unwrap();
    let mut first_names = first.names();
    let mut second_names = second.names();
    first_names.sort();
    second_names.sort();
    assert_eq!(first_names, second_names);
    for name in &first_names {
        assert_eq!(first.get(name), second.get(name));
    }
}
