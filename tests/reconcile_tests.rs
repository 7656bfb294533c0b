use ppm::reconcile::{
    apply_phase, resolve_phase, set_package, update_start, IndexError, InstallError, UpdateStart,
};

fn s(x: &str) -> String {
    x.to_string()
}

fn manifest() -> Vec<(String, String)> {
    vec![(s("requests"), s("2.0.0")), (s("numpy"), s("1.0.0")), (s("flask"), s("2.2.0"))]
}

#[test]
fn test_placeholder() {
    assert!(true);
}

#[test]
fn all_succeed_updates_every_entry() {
    let mut pk = manifest();
    let lookups = vec![Ok(s("2.31.0")), Ok(s("1.26.0")), Ok(s("3.0.0"))];
    let r = resolve_phase(&pk, &lookups);
    assert!(r.failed.is_empty());
    assert_eq!(r.updates.len(), 3);
    let installs = vec![Ok(()), Ok(()), Ok(())];
    let mut failed = r.failed.clone();
    apply_phase(&mut pk, &r.updates, &installs, &mut failed);
    assert_eq!(pk, vec![(s("requests"), s("2.31.0")), (s("numpy"), s("1.26.0")), (s("flask"), s("3.0.0"))]);
    assert!(failed.is_empty());
}

#[test]
fn empty_manifest_does_nothing() {
    let pk: Vec<(String, String)> = vec![];
    assert_eq!(update_start(&pk, true), UpdateStart::NothingToDo);
    assert_eq!(update_start(&pk, false), UpdateStart::NothingToDo);
    let r = resolve_phase(&pk, &vec![]);
    assert!(r.updates.is_empty() && r.failed.is_empty());
}

#[test]
fn update_start_needs_environment() {
    assert_eq!(update_start(&manifest(), false), UpdateStart::NeedEnvironment);
    assert_eq!(update_start(&manifest(), true), UpdateStart::Resolve);
}

#[test]
fn lookup_failure_keeps_entry() {
    let mut pk = manifest();
    let lookups = vec![Ok(s("2.31.0")), Err(IndexError::Network(s("timeout"))), Ok(s("3.0.0"))];
    let r = resolve_phase(&pk, &lookups);
    assert_eq!(r.updates, vec![(s("requests"), s("2.31.0")), (s("flask"), s("3.0.0"))]);
    assert_eq!(r.failed, vec![s("numpy")]);
    let mut failed = r.failed.clone();
    apply_phase(&mut pk, &r.updates, &vec![Ok(()), Ok(())], &mut failed);
    assert_eq!(pk, vec![(s("requests"), s("2.31.0")), (s("numpy"), s("1.0.0")), (s("flask"), s("3.0.0"))]);
    assert_eq!(failed, vec![s("numpy")]);
}

#[test]
fn install_failure_keeps_entry() {
    let mut pk = manifest();
    let lookups = vec![Ok(s("2.31.0")), Err(IndexError::MissingField), Ok(s("3.0.0"))];
    let r = resolve_phase(&pk, &lookups);
    let mut failed = r.failed.clone();
    let installs = vec![Err(InstallError::ProcessFailure(s("boom"))), Ok(())];
    apply_phase(&mut pk, &r.updates, &installs, &mut failed);
    assert_eq!(pk, vec![(s("requests"), s("2.0.0")), (s("numpy"), s("1.0.0")), (s("flask"), s("3.0.0"))]);
    assert_eq!(failed, vec![s("numpy"), s("requests")]);
}

#[test]
fn set_package_overwrites_or_appends() {
    let mut pk = manifest();
    set_package(&mut pk, &s("numpy"), &s("9.9"));
    assert_eq!(pk[1], (s("numpy"), s("9.9")));
    assert_eq!(pk.len(), 3);
    set_package(&mut pk, &s("rich"), &s("13.0"));
    assert_eq!(pk.len(), 4);
    assert_eq!(pk[3], (s("rich"), s("13.0")));
}
