use jellyfin_tui::inhibit::SleepInhibitor;

fn available() -> SleepInhibitor<u32, &'static str> {
    SleepInhibitor::new::<()>(Ok(true))
}

#[test]
fn asks_for_the_lock_program() {
    let mut inhibitor = available();
    assert_eq!(
        inhibitor.acquire().unwrap(),
        ["--what=sleep", "--who=jellyfin-tui", "--why=Playing audio", "--mode=block", "cat"]
    );
}

#[test]
fn starts_one_child_at_most() {
    let mut inhibitor = available();
    assert!(inhibitor.acquire().is_some());
    inhibitor.attach(Some((7, Some("pipe"))));
    assert!(inhibitor.acquire().is_none());
    assert_eq!(inhibitor.release(), (Some("pipe"), Some(7)));
    assert!(inhibitor.acquire().is_some());
}

#[test]
fn failed_start_leaves_the_lock_free() {
    let mut inhibitor = available();
    assert!(inhibitor.acquire().is_some());
    inhibitor.attach(None);
    assert!(inhibitor.acquire().is_some());
    assert_eq!(inhibitor.release(), (None, None));
}

#[test]
fn releasing_twice_is_releasing_once() {
    let mut inhibitor = available();
    inhibitor.attach(Some((1, None)));
    assert_eq!(inhibitor.release(), (None, Some(1)));
    assert_eq!(inhibitor.release(), (None, None));
}

#[test]
fn unavailable_lock_is_never_asked_for() {
    let mut failed = SleepInhibitor::<u32, u32>::new::<()>(Ok(false));
    assert!(failed.acquire().is_none());
    let mut missing = SleepInhibitor::<u32, u32>::new(Err("not found"));
    assert!(missing.acquire().is_none());
}
