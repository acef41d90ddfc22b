//! Toast creation, coalescing, expiry and dismissal.

use cass::ui::toast::{Toast, ToastManager, ToastPosition, ToastType};

#[test]
fn test_toast_creation() {
    let toast = Toast::info("Test message".to_string(), 0);
    assert_eq!(toast.message, "Test message");
    assert_eq!(toast.toast_type, ToastType::Info);
    assert_eq!(toast.count, 1);
}

#[test]
fn test_toast_type_defaults() {
    assert_eq!(ToastType::Info.default_duration(), 3000);
    assert_eq!(ToastType::Error.default_duration(), 6000);
}

#[test]
fn test_toast_manager_push() {
    let mut manager = ToastManager::new();
    manager.push(Toast::info("First".to_string(), 0));
    manager.push(Toast::success("Second".to_string(), 0));
    assert_eq!(manager.len(), 2);
}

#[test]
fn test_toast_coalescing() {
    let mut manager = ToastManager::new().with_coalesce(true);
    manager.push(Toast::info("Same message".to_string(), 0));
    manager.push(Toast::info("Same message".to_string(), 1));
    manager.push(Toast::info("Same message".to_string(), 2));

    assert_eq!(manager.len(), 1);
    assert_eq!(manager.visible()[0].count, 3);
}

#[test]
fn test_toast_coalescing_disabled() {
    let mut manager = ToastManager::new().with_coalesce(false);
    manager.push(Toast::info("Same message".to_string(), 0));
    manager.push(Toast::info("Same message".to_string(), 1));

    assert_eq!(manager.len(), 2);
}

#[test]
fn test_toast_position() {
    let manager = ToastManager::new().with_position(ToastPosition::BottomLeft);
    assert_eq!(manager.position(), ToastPosition::BottomLeft);
}

#[test]
fn test_dismiss_type() {
    let mut manager = ToastManager::new();
    manager.push(Toast::info("Info 1".to_string(), 0));
    manager.push(Toast::error("Error 1".to_string(), 0));
    manager.push(Toast::info("Info 2".to_string(), 0));

    manager.dismiss_type(ToastType::Info);
    assert_eq!(manager.len(), 1);
    assert_eq!(manager.visible()[0].toast_type, ToastType::Error);
}

#[test]
fn toast_expires_after_duration() {
    let toast = Toast::info("short".to_string(), 1000).with_duration(500);
    assert!(!toast.is_expired(1000));
    assert!(!toast.is_expired(1499));
    assert!(toast.is_expired(1500));
}

#[test]
fn tick_drops_expired_toasts() {
    let mut manager = ToastManager::new();
    manager.push(Toast::info("old".to_string(), 0).with_id("a".to_string()));
    manager.push(Toast::info("new".to_string(), 10_000).with_id("b".to_string()));
    manager.tick(5_000);
    assert_eq!(manager.len(), 1);
    assert_eq!(manager.visible()[0].message, "new");
}

#[test]
fn push_trims_beyond_retention() {
    let mut manager = ToastManager::new().with_max_visible(1).with_coalesce(false);
    for i in 0..5 {
        manager.push(Toast::info(format!("m{}", i), i as u64));
    }
    assert_eq!(manager.len(), 2);
    assert_eq!(manager.visible().len(), 1);
    assert_eq!(manager.visible()[0].message, "m4");
}

#[test]
fn dismiss_oldest_removes_last() {
    let mut manager = ToastManager::new();
    manager.push(Toast::info("first".to_string(), 0));
    manager.push(Toast::info("second".to_string(), 0));
    manager.dismiss_oldest();
    assert_eq!(manager.len(), 1);
    assert_eq!(manager.visible()[0].message, "second");
}
