use tasktrack::shell::App;

#[test]
fn increment_increment_decrement() {
    let mut a = App::new();
    a.update(Some('j'));
    a.update(Some('j'));
    a.update(Some('k'));
    assert_eq!(a.counter, 1);
    assert!(a.keep_running());
}

#[test]
fn quit_stops_after_one_poll() {
    let mut a = App::new();
    a.update(None);
    assert!(a.keep_running());
    a.update(Some('q'));
    assert!(a.should_quit);
    assert!(!a.keep_running());
    assert_eq!(a.counter, 0);
}

#[test]
fn other_keys_and_timeouts_change_nothing() {
    let mut a = App::new();
    a.update(Some('x'));
    a.update(Some('J'));
    a.update(None);
    assert_eq!(a, App { counter: 0, should_quit: false });
}

#[test]
fn counter_goes_negative() {
    let mut a = App::new();
    a.update(Some('k'));
    assert_eq!(a.counter, -1);
}
