use tray_menu::notification::NotificationIcon;

#[test]
fn test_notification_icon_from() {
    assert_eq!(NotificationIcon::from(0), NotificationIcon::Normal);
    assert_eq!(NotificationIcon::from(1), NotificationIcon::Playing);
    assert_eq!(NotificationIcon::from(2), NotificationIcon::Pausing);
    assert_eq!(NotificationIcon::from(3), NotificationIcon::Locked);
    assert_eq!(NotificationIcon::from(99), NotificationIcon::Normal);
}
