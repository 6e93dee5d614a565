use qaul::{Attempt, FileFilter, Files, Next, Reconnect};

#[test]
fn reconnect_loop_decisions() {
    let mut r = Reconnect::new();
    assert_eq!(r.step(Attempt::ConnectFailed), Next::RetryAfter { secs: 5 });
    assert_eq!(r.retries, 0);
    assert_eq!(r.step(Attempt::HelloFailed), Next::RetryAfter { secs: 10 });
    assert_eq!(r.retries, 1);
    assert_eq!(r.step(Attempt::HelloSent), Next::Stop);
    assert_eq!(r.step(Attempt::AlreadyConnected), Next::Stop);
    assert_eq!(r.retries, 1);
}

#[test]
fn files_scope_drops_back_to_instance() {
    let instance = String::from("qaul");
    let files = Files::new(&instance);
    assert!(std::ptr::eq(files.drop(), &instance));
}

#[test]
fn file_filters_compare() {
    assert_eq!(FileFilter::Local, FileFilter::Local);
    assert_ne!(FileFilter::Local, FileFilter::InProgress);
    assert_ne!(FileFilter::Available, FileFilter::InProgress);
}
