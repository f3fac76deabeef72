use node_system_audio::permission::{preflight, status, Platform, Status};
use node_system_audio::{permission_status, PermissionStatus};

#[test]
fn no_permission_off_macos() {
    assert_eq!(status(Platform::Ungated), Status::NotRequired);
}

#[test]
fn macos_never_notrequired() {
    // NotRequired would tell the UI to skip a prompt that does exist.
    assert_ne!(status(Platform::MacOs), Status::NotRequired);
    for answer in [None, Some(-1), Some(0), Some(1), Some(2), Some(3)] {
        assert_ne!(status(Platform::MacOsPreflight(answer)), Status::NotRequired);
    }
}

#[test]
fn without_preflight_unknown() {
    assert_eq!(status(Platform::MacOs), Status::Unknown);
}

#[test]
fn preflight_returns_a_defined_status() {
    for answer in [None, Some(i32::MIN), Some(0), Some(1), Some(2), Some(i32::MAX)] {
        assert!(matches!(
            status(Platform::MacOsPreflight(answer)),
            Status::Granted | Status::Denied | Status::Unknown
        ));
    }
}

#[test]
fn preflight_answers() {
    assert_eq!(preflight(Some(0)), Status::Granted);
    assert_eq!(preflight(Some(1)), Status::Denied);
    assert_eq!(preflight(Some(2)), Status::Unknown);
    assert_eq!(preflight(Some(-1)), Status::Unknown);
    assert_eq!(preflight(None), Status::Unknown);
}

#[test]
fn users_see_the_same_status() {
    assert_eq!(permission_status(Platform::Ungated), PermissionStatus::NotRequired);
    assert_eq!(permission_status(Platform::MacOs), PermissionStatus::Unknown);
    assert_eq!(
        permission_status(Platform::MacOsPreflight(Some(0))),
        PermissionStatus::Granted
    );
    assert_eq!(
        permission_status(Platform::MacOsPreflight(Some(1))),
        PermissionStatus::Denied
    );
}
