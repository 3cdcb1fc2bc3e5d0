use ptyterm::pty::{shell_path, Pty};

#[test]
fn new_session_owns_its_descriptor() {
    let p = Pty::new(7, 1234);
    assert!(p.is_open());
    assert_eq!(p.fd(), Some(7));
    assert_eq!(p.child(), 1234);
}

#[test]
fn second_close_releases_nothing() {
    let mut p = Pty::new(7, 1234);
    assert_eq!(p.close(), Some(7));
    assert_eq!(p.close(), None);
    assert!(!p.is_open());
}

#[test]
fn closed_session_gives_no_descriptor() {
    let mut p = Pty::new(3, 99);
    p.close();
    assert_eq!(p.fd(), None);
    assert_eq!(p.child(), 99);
}

#[test]
fn configured_shell_is_used() {
    assert_eq!(shell_path(Some("/bin/zsh".to_string())), "/bin/zsh");
}

#[test]
fn missing_or_empty_shell_gives_bash() {
    assert_eq!(shell_path(None), "bash");
    assert_eq!(shell_path(Some(String::new())), "bash");
}
