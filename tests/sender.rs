use jockey::sender::{InitStep, SenderState};

#[test]
fn first_publish_registers_without_release() {
    let mut s = SenderState::new();
    assert!(!s.is_initialized());
    assert_eq!(s.init(640, 480), InitStep::Register { release_first: false });
    assert!(s.is_initialized());
    assert_eq!((s.width, s.height), (640, 480));
}

#[test]
fn same_size_publish_needs_nothing() {
    let mut s = SenderState::new();
    s.init(640, 480);
    assert_eq!(s.init(640, 480), InitStep::Ready);
    assert_eq!(s, SenderState { width: 640, height: 480, initialized: true });
}

#[test]
fn resize_releases_before_registering() {
    let mut s = SenderState::new();
    s.init(640, 480);
    assert_eq!(s.init(1280, 720), InitStep::Register { release_first: true });
    assert_eq!(s, SenderState { width: 1280, height: 720, initialized: true });
}

#[test]
fn release_only_once() {
    let mut s = SenderState::new();
    assert!(!s.release());
    s.init(10, 10);
    assert!(s.release());
    assert!(!s.is_initialized());
    assert!(!s.release());
    assert_eq!(s.init(10, 10), InitStep::Register { release_first: false });
}
