use dumpsta::plan::{find_dependents, plan, FetchTarget, LocalCrates, PackageRecord};
use dumpsta::registry::{CargoRegistry, RegistryError};

fn record(name: &str, version: &str, dependencies: &[&str]) -> PackageRecord {
    PackageRecord {
        name: String::from(name),
        version: String::from(version),
        dependencies: dependencies.iter().map(|d| String::from(*d)).collect(),
    }
}

fn index() -> Vec<PackageRecord> {
    vec![
        record("alpha", "1.0.0", &["serde", "insta"]),
        record("beta", "0.2.1", &["serde"]),
        record("gamma", "2.0.0", &["insta"]),
        record("delta", "0.1.0", &[]),
        record("epsilon", "3.1.4", &["insta", "rand"]),
    ]
}

fn listing(names: &[&str]) -> Vec<Option<String>> {
    names.iter().map(|n| Some(String::from(*n))).collect()
}

fn urls(targets: &[FetchTarget]) -> Vec<String> {
    targets.iter().map(|t| t.url.clone()).collect()
}

const DL: &str = "https://crates.io/api/v1/crates";

#[test]
fn key_is_name_hyphen_version() {
    assert_eq!(record("alpha", "1.0.0", &[]).key(), "alpha-1.0.0");
    assert_eq!(record("", "", &[]).key(), "-");
    assert_eq!(record("a-b", "1", &[]).key(), "a-b-1");
}

#[test]
fn depends_on_looks_for_the_exact_name() {
    let r = record("alpha", "1.0.0", &["serde", "insta"]);
    assert!(r.depends_on("insta"));
    assert!(r.depends_on("serde"));
    assert!(!r.depends_on("inst"));
    assert!(!r.depends_on("insta2"));
    assert!(!r.depends_on("Insta"));
    assert!(!record("x", "1", &[]).depends_on("insta"));
}

#[test]
fn dependents_are_kept_in_order() {
    let found = find_dependents(index(), "insta");
    let names: Vec<&str> = found.iter().map(|r| r.name.as_str()).collect();
    assert_eq!(names, vec!["alpha", "gamma", "epsilon"]);
    assert_eq!(found[1], record("gamma", "2.0.0", &["insta"]));
    assert!(find_dependents(index(), "tokio").is_empty());
    assert!(find_dependents(Vec::new(), "insta").is_empty());
}

#[test]
fn inventory_skips_entries_that_could_not_be_read() {
    let inventory = LocalCrates::new(vec![
        Some(String::from("alpha-1.0.0")),
        None,
        Some(String::from("gamma-2.0.0")),
        None,
    ]);
    assert!(inventory.has_key(&String::from("alpha-1.0.0")));
    assert!(inventory.has_key(&String::from("gamma-2.0.0")));
    assert!(!inventory.has_key(&String::from("")));
    assert!(!LocalCrates::new(Vec::new()).has_key(&String::from("alpha-1.0.0")));
    assert!(!LocalCrates::new(vec![None]).has_key(&String::from("")));
}

#[test]
fn inventory_membership_is_exact() {
    let inventory = LocalCrates::new(listing(&["alpha-1.0.0", "not a crate", "gamma-2.0.0"]));
    assert!(inventory.contains(&record("alpha", "1.0.0", &[])));
    assert!(inventory.contains(&record("gamma", "2.0.0", &["insta"])));
    assert!(!inventory.contains(&record("alpha", "1.0.1", &[])));
    assert!(!inventory.contains(&record("alpha", "1.0", &[])));
    assert!(!inventory.contains(&record("Alpha", "1.0.0", &[])));
    assert!(!inventory.contains(&record("beta", "0.2.1", &[])));
}

#[test]
fn other_version_is_not_filtered_out() {
    let inventory = LocalCrates::new(listing(&["gamma-1.9.0"]));
    let found = find_dependents(index(), "insta");
    let targets = plan(&found, &inventory, DL);
    assert_eq!(
        urls(&targets),
        vec![
            "https://crates.io/api/v1/crates/alpha/1.0.0/download",
            "https://crates.io/api/v1/crates/gamma/2.0.0/download",
            "https://crates.io/api/v1/crates/epsilon/3.1.4/download",
        ]
    );
}

#[test]
fn plan_is_dependents_less_inventory() {
    let inventory = LocalCrates::new(listing(&["gamma-2.0.0", "beta-0.2.1"]));
    let found = find_dependents(index(), "insta");
    assert_eq!(found.len(), 3);
    let targets = plan(&found, &inventory, DL);
    assert_eq!(
        urls(&targets),
        vec![
            "https://crates.io/api/v1/crates/alpha/1.0.0/download",
            "https://crates.io/api/v1/crates/epsilon/3.1.4/download",
        ]
    );
}

#[test]
fn plan_does_not_depend_on_the_order_of_the_index() {
    let inventory = LocalCrates::new(listing(&["gamma-2.0.0"]));
    let mut forward = urls(&plan(&find_dependents(index(), "insta"), &inventory, DL));
    let mut reversed_index = index();
    reversed_index.reverse();
    let mut backward = urls(&plan(&find_dependents(reversed_index, "insta"), &inventory, DL));
    assert_ne!(forward, backward);
    forward.sort();
    backward.sort();
    assert_eq!(forward, backward);
    assert_eq!(forward.len(), 2);
}

#[test]
fn plan_of_nothing_is_empty() {
    let inventory = LocalCrates::new(listing(&["alpha-1.0.0"]));
    assert!(plan(&Vec::new(), &inventory, DL).is_empty());
    let all_local = LocalCrates::new(listing(&["alpha-1.0.0", "gamma-2.0.0", "epsilon-3.1.4"]));
    assert!(plan(&find_dependents(index(), "insta"), &all_local, DL).is_empty());
}

#[test]
fn address_follows_the_pattern_of_the_index() {
    let none = LocalCrates::new(Vec::new());
    let found = vec![record("serde", "1.0.1", &["insta"])];
    let pattern = "https://mirror.test/{prefix}/{crate}/{crate}-{version}.crate";
    assert_eq!(
        urls(&plan(&found, &none, pattern)),
        vec!["https://mirror.test/se/rd/serde/serde-1.0.1.crate"]
    );
    assert_eq!(
        urls(&plan(&found, &none, "https://mirror.test/dl")),
        vec!["https://mirror.test/dl/serde/1.0.1/download"]
    );
}

#[test]
fn candidate_without_address_is_dropped() {
    let none = LocalCrates::new(Vec::new());
    let found = vec![record("", "1.0.0", &["insta"]), record("ok", "1.0.0", &["insta"])];
    let pattern = "https://mirror.test/{prefix}/{crate}-{version}.crate";
    assert_eq!(urls(&plan(&found, &none, pattern)), vec!["https://mirror.test/2/ok-1.0.0.crate"]);
}

#[test]
fn registry_lies_under_cargo_home_or_home() {
    assert_eq!(
        CargoRegistry::locate(Some(String::from("/opt/cargo")), Some(String::from("/home/u"))),
        Ok(String::from("/opt/cargo/registry"))
    );
    assert_eq!(
        CargoRegistry::locate(Some(String::from("/opt/cargo")), None),
        Ok(String::from("/opt/cargo/registry"))
    );
    assert_eq!(
        CargoRegistry::locate(None, Some(String::from("/home/u"))),
        Ok(String::from("/home/u/.cargo/registry"))
    );
    assert_eq!(CargoRegistry::locate(None, None), Err(RegistryError::NoHomeDir));
    assert_eq!(CargoRegistry::cache_home("/opt/cargo/registry"), "/opt/cargo/registry/cache");
}

#[test]
fn registry_directories_are_named_by_the_index() {
    let registry = CargoRegistry::new(
        String::from("/opt/cargo/registry"),
        Some(String::from("github.com-1ecc6299db9ec823")),
    )
    .unwrap();
    assert_eq!(registry.cache(), "/opt/cargo/registry/cache/github.com-1ecc6299db9ec823");
    assert_eq!(registry.index(), "/opt/cargo/registry/index/github.com-1ecc6299db9ec823");
    assert_eq!(registry.src(), "/opt/cargo/registry/src/github.com-1ecc6299db9ec823");
    assert_eq!(registry.sub_dir("x"), "/opt/cargo/registry/x/github.com-1ecc6299db9ec823");
    assert_eq!(
        CargoRegistry::new(String::from("/opt/cargo/registry"), None),
        Err(RegistryError::NoCargoHome)
    );
}

#[test]
fn registry_errors_have_their_messages() {
    assert_eq!(RegistryError::NoHomeDir.message(), "Failed to get home dir");
    assert_eq!(RegistryError::NoCargoHome.message(), "Cargo home doesn't seem to exist :(");
}

#[test]
fn records_are_equal_by_name_and_version() {
    assert_eq!(record("alpha", "1.0.0", &["insta"]), record("alpha", "1.0.0", &[]));
    assert_ne!(record("alpha", "1.0.0", &[]), record("alpha", "1.0.1", &[]));
    assert_ne!(record("alpha", "1.0.0", &[]), record("alph", "1.0.0", &[]));
    assert_ne!(record("a-b", "1", &[]), record("a", "b-1", &[]));
}

#[test]
fn inventory_holds_each_name_once() {
    let inventory = LocalCrates::new(listing(&["a-1", "b-2", "a-1", "a-1", "c-3", "b-2"]));
    assert_eq!(inventory.len(), 3);
    assert_eq!(LocalCrates::new(vec![None, None]).len(), 0);
    assert_eq!(inventory, LocalCrates::new(listing(&["a-1", "b-2", "c-3"])));
}
