use easy_ssh::command::{execute, Command, Outcome, RunStep};
use easy_ssh::error::RegistryError;
use easy_ssh::profile::ServerProfile;
use easy_ssh::registry::Registry;
use easy_ssh::store::Store;

fn profile(name: &str, user_ip: &str, key_path: &str) -> ServerProfile {
    ServerProfile::new(name.to_string(), user_ip.to_string(), key_path.to_string())
}

/// A registry over a store of its own, emptied of what an earlier run left.
fn fresh(dir: &str) -> Registry {
    let path = format!("/tmp/easy_ssh_test_stores/{}", dir);
    let mut store = Store::open(&path).expect("the store opens");
    let keys: Vec<Vec<u8>> =
        store.entries().expect("the store lists").into_iter().map(|(k, _)| k).collect();
    for k in keys {
        store.delete(&k).expect("the store deletes");
    }
    Registry::from_store(store)
}

fn fields(p: &ServerProfile) -> (String, String, String) {
    (p.name().to_string(), p.user_ip().to_string(), p.key_path().to_string())
}

#[test]
fn saved_profile_is_found_again() {
    let mut r = fresh("round_trip");
    let p = profile("db1", "alice@10.0.0.5", "/home/alice/.ssh/id_rsa");
    r.save_server(&p).expect("saved");
    let q = r.get_server("db1").expect("read").expect("present");
    assert_eq!(fields(&q), fields(&p));
}

#[test]
fn second_save_replaces_the_first() {
    let mut r = fresh("overwrite");
    r.save_server(&profile("web", "old@1.1.1.1", "/old/key")).expect("saved");
    r.save_server(&profile("web", "new@2.2.2.2", "/new/key")).expect("saved");
    let q = r.get_server("web").expect("read").expect("present");
    assert_eq!(fields(&q), fields(&profile("web", "new@2.2.2.2", "/new/key")));
    assert_eq!(r.list_servers().expect("listed").len(), 1);
}

#[test]
fn removing_an_absent_name_succeeds() {
    let mut r = fresh("remove_absent");
    r.remove_server("nothing-here").expect("no error for an absent name");
    r.save_server(&profile("a", "u@h", "k")).expect("saved");
    r.remove_server("a").expect("removed");
    r.remove_server("a").expect("removing twice is no error");
    assert!(r.get_server("a").expect("read").is_none());
    assert!(r.list_servers().expect("listed").is_empty());
}

#[test]
fn removing_one_name_keeps_the_others() {
    let mut r = fresh("remove_one");
    r.save_server(&profile("a", "u@h", "k")).expect("saved");
    r.save_server(&profile("b", "v@h", "l")).expect("saved");
    r.remove_server("a").expect("removed");
    assert!(r.get_server("a").expect("read").is_none());
    let b = r.get_server("b").expect("read").expect("present");
    assert_eq!(fields(&b), fields(&profile("b", "v@h", "l")));
}

#[test]
fn unknown_name_is_absent_not_an_error() {
    let r = fresh("absent");
    assert!(r.get_server("never-registered").expect("no error").is_none());
}

#[test]
fn listing_gives_every_saved_profile_once() {
    let mut r = fresh("listing");
    let saved = vec![
        profile("alpha", "a@10.0.0.1", "/k/a"),
        profile("beta", "b@10.0.0.2", "/k/b"),
        profile("gamma", "c@10.0.0.3", "/k/c"),
        profile("délta", "d@10.0.0.4", "/k/d"),
    ];
    for p in &saved {
        r.save_server(p).expect("saved");
    }
    let mut listed: Vec<_> = r.list_servers().expect("listed").iter().map(fields).collect();
    let mut expected: Vec<_> = saved.iter().map(fields).collect();
    listed.sort();
    expected.sort();
    assert_eq!(listed, expected);
}

#[test]
fn empty_store_lists_nothing() {
    let r = fresh("empty_listing");
    assert!(r.list_servers().expect("listed").is_empty());
}

#[test]
fn malformed_record_is_reported() {
    let r = fresh("malformed");
    drop(r);
    let mut store = Store::open("/tmp/easy_ssh_test_stores/malformed").expect("the store opens");
    store.put(b"bad", vec![7, 7, 7]).expect("written");
    let mut r = Registry::from_store(store);
    match r.get_server("bad") {
        Err(RegistryError::Malformed { key }) => assert_eq!(key, b"bad".to_vec()),
        _ => panic!("bytes that are no record are reported"),
    }
    r.save_server(&profile("good", "u@h", "k")).expect("saved");
    match r.list_servers() {
        Err(RegistryError::Malformed { key }) => assert_eq!(key, b"bad".to_vec()),
        _ => panic!("one malformed entry fails the listing"),
    }
    assert!(r.get_server("good").expect("read").is_some());
}

#[test]
fn register_then_list_shows_the_profile() {
    let mut r = fresh("scenario_register");
    let outcome = execute(
        &mut r,
        Command::Register {
            name: "db1".to_string(),
            user_ip: "alice@10.0.0.5".to_string(),
            key_path: "/home/alice/.ssh/id_rsa".to_string(),
        },
    );
    assert!(matches!(outcome, Outcome::Registered(Ok(()))));
    match execute(&mut r, Command::List) {
        Outcome::Listed(Ok(ps)) => {
            assert_eq!(ps.len(), 1);
            let shown = format!("{} {} {}", ps[0].name(), ps[0].user_ip(), ps[0].key_path());
            assert!(shown.contains("db1"));
            assert!(shown.contains("alice@10.0.0.5"));
            assert!(shown.contains("/home/alice/.ssh/id_rsa"));
        }
        _ => panic!("the listing succeeds"),
    }
}

#[test]
fn run_of_a_missing_server_launches_nothing() {
    let mut r = fresh("scenario_missing");
    match execute(&mut r, Command::Run { name: "missing-server".to_string() }) {
        Outcome::Run(RunStep::Exit { code }) => assert_eq!(code, 1),
        _ => panic!("a missing profile ends with code 1"),
    }
}

#[test]
fn run_after_remove_is_not_found() {
    let mut r = fresh("scenario_removed");
    let reg = Command::Register {
        name: "a".to_string(),
        user_ip: "u@h".to_string(),
        key_path: "k".to_string(),
    };
    assert!(matches!(execute(&mut r, reg), Outcome::Registered(Ok(()))));
    let rm = execute(&mut r, Command::Remove { name: "a".to_string() });
    assert!(matches!(rm, Outcome::Removed(Ok(()))));
    match execute(&mut r, Command::Run { name: "a".to_string() }) {
        Outcome::Run(RunStep::Exit { code }) => assert_eq!(code, 1),
        _ => panic!("a removed profile is not found"),
    }
}

#[test]
fn run_of_a_registered_server_launches_ssh() {
    let mut r = fresh("scenario_run");
    r.save_server(&profile("db1", "alice@10.0.0.5", "/home/alice/.ssh/id_rsa")).expect("saved");
    match execute(&mut r, Command::Run { name: "db1".to_string() }) {
        Outcome::Run(RunStep::Launch { args }) => {
            assert_eq!(args, vec!["-i", "/home/alice/.ssh/id_rsa", "alice@10.0.0.5"])
        }
        _ => panic!("a registered profile is launched"),
    }
}

#[test]
fn store_that_cannot_be_created_is_reported() {
    match Registry::open("/proc/easy_ssh_store_here") {
        Err(RegistryError::StoreOpen(_)) => {}
        _ => panic!("a store under /proc cannot be created"),
    }
}
