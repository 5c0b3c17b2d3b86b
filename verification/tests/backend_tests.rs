use sourses::backend::{create_backend, shell_program, BackendError, PtyBackend, ScriptedBackend};

#[test]
fn shell_program_prefers_named_shell() {
    assert_eq!(shell_program(Some("zsh".to_string())), "zsh");
    assert_eq!(shell_program(None), "bash");
}

#[test]
fn scenario_resize_pass_through() {
    let mut b = ScriptedBackend::new(b"prompt$ ".to_vec(), 24, 80);
    b.spawn_shell().unwrap();
    b.resize(40, 120).unwrap();
    assert_eq!(b.shell_reported_size(), (40, 120));
}

#[test]
fn scripted_shell_plays_output_then_eof() {
    let mut b = ScriptedBackend::new(b"hello".to_vec(), 24, 80);
    b.spawn_shell().unwrap();
    assert_eq!(b.read_master().unwrap(), b"hello".to_vec());
    // a zero-byte read: the shell side closed
    assert_eq!(b.read_master().unwrap(), Vec::<u8>::new());
    assert!(!b.shell_alive());
}

#[test]
fn write_master_reaches_the_shell() {
    let mut b = ScriptedBackend::new(Vec::new(), 24, 80);
    b.spawn_shell().unwrap();
    let n = b.write_master(b"ls\n").unwrap();
    assert_eq!(n, 3);
    assert_eq!(b.shell_received().as_slice(), b"ls\n");
}

#[test]
fn one_shell_per_session() {
    let mut b = ScriptedBackend::new(Vec::new(), 24, 80);
    b.spawn_shell().unwrap();
    assert_eq!(b.spawn_shell(), Err(BackendError::AlreadySpawned));
}

#[test]
fn io_before_spawn_is_refused() {
    let mut b = ScriptedBackend::new(b"x".to_vec(), 24, 80);
    assert_eq!(b.read_master(), Err(BackendError::NotSpawned));
    assert_eq!(b.write_master(b"y"), Err(BackendError::NotSpawned));
}

#[test]
fn resize_after_shell_gone_reports_closed() {
    let mut b = ScriptedBackend::new(Vec::new(), 24, 80);
    b.spawn_shell().unwrap();
    assert_eq!(b.resize(40, 120), Err(BackendError::SessionClosed));
    // the geometry is untouched
    assert_eq!(b.shell_reported_size(), (24, 80));
}

#[test]
fn create_backend_default_geometry() {
    let b = create_backend();
    assert_eq!(b.shell_reported_size(), (24, 80));
    assert!(!b.shell_alive());
}
