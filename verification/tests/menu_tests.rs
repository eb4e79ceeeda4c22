use tray_menu::actions::MenuAction;
use tray_menu::i18n::Locale;
use tray_menu::menu::{Outcome, Registry, TrayState, UiRequest};
use tray_menu::i18n::StringKey;
use tray_menu::menu_items::{get_all_items, lang_chinese, ItemKind, MenuItemInfo};

#[test]
fn test_get_all_items() {
    let items = get_all_items();
    assert!(!items.is_empty());
}

#[test]
fn test_compile_default_schema() {
    let mut ts = TrayState::new();
    let items = get_all_items();
    ts.compile(&items);
    // 26 descriptors, of which 5 are separators without registry entries.
    assert_eq!(ts.tree.nodes.len(), 26);
    assert_eq!(ts.registry.len(), 21);
    // Assembly order follows ascending `order`.
    assert_eq!(ts.tree.nodes[0].id, "open_sunshine");
    assert_eq!(ts.tree.nodes[1].id, "sep_1");
    assert_eq!(ts.tree.nodes[2].id, "vdd_submenu");
    assert_eq!(ts.tree.nodes[3].id, "vdd_create");
    assert_eq!(ts.tree.nodes[25].id, "quit");
    // Labels are localized in the starting locale (English).
    assert_eq!(ts.tree.nodes[0].label, "Open Sunshine");
    // Checkboxes start from their schema default.
    assert_eq!(ts.get_check_state_by_id("vdd_create"), Some(false));
    assert_eq!(ts.get_check_state_by_id("open_sunshine"), None);
}

#[test]
fn test_registry_round_trip() {
    let mut ts = TrayState::new();
    let items = get_all_items();
    ts.compile(&items);
    for id in ["open_sunshine", "vdd_submenu", "vdd_create", "quit"] {
        let token = ts.registry.token_for(id).unwrap();
        assert_eq!(ts.registry.identify_item_id(token), Some(id.to_string()));
    }
    assert_eq!(ts.registry.token_for("sep_1"), None);
}

#[test]
fn test_state_preserved_across_rebuild() {
    let mut ts = TrayState::new();
    let items = get_all_items();
    ts.compile(&items);
    // default_checked is false; flip it, then run the full rebuild protocol.
    assert_eq!(ts.get_check_state_by_id("vdd_persistent"), Some(false));
    ts.set_check_state_by_id("vdd_persistent", true);
    ts.set_item_enabled_by_id("vdd_create", false);
    ts.set_check_state_by_id("vdd_create", true);
    ts.i18n.set_locale(Locale::Chinese);
    ts.update_menu_texts();
    assert_eq!(ts.get_check_state_by_id("vdd_persistent"), Some(true));
    assert_eq!(ts.get_check_state_by_id("vdd_create"), Some(true));
    assert_eq!(ts.get_item_enabled_by_id("vdd_create"), Some(false));
    // The rebuild re-localized the labels.
    assert_eq!(ts.tree.nodes[0].label, "打开 Sunshine");
}

#[test]
fn test_compile_idempotent_structure() {
    let mut ts = TrayState::new();
    let items = get_all_items();
    ts.compile(&items);
    let ids1: Vec<String> = ts.tree.nodes.iter().map(|n| n.id.clone()).collect();
    let tok1: Vec<u64> = ts.tree.nodes.iter().map(|n| n.token).collect();
    ts.compile(&items);
    let ids2: Vec<String> = ts.tree.nodes.iter().map(|n| n.id.clone()).collect();
    let tok2: Vec<u64> = ts.tree.nodes.iter().map(|n| n.token).collect();
    assert_eq!(ids1, ids2);
    // Tokens are never reused across rebuilds.
    for t1 in &tok1 {
        assert!(!tok2.contains(t1));
    }
}

#[test]
fn test_dangling_parent_excluded() {
    let mut ts = TrayState::new();
    let items = vec![
        MenuItemInfo::submenu("menu", StringKey::Language, None, 10),
        MenuItemInfo::action("ok", StringKey::Quit, Some("menu"), 20),
        MenuItemInfo::action("lost", StringKey::Quit, Some("nowhere"), 30),
        MenuItemInfo::action("self_parent", StringKey::Quit, Some("self_parent"), 40),
    ];
    ts.compile(&items);
    let ids: Vec<String> = ts.tree.nodes.iter().map(|n| n.id.clone()).collect();
    assert_eq!(ids, vec!["menu".to_string(), "ok".to_string()]);
}

#[test]
fn test_duplicate_id_dropped() {
    let mut ts = TrayState::new();
    let items = vec![
        MenuItemInfo::action("twin", StringKey::Quit, None, 10),
        MenuItemInfo::action("twin", StringKey::Restart, None, 20),
    ];
    ts.compile(&items);
    assert_eq!(ts.tree.nodes.len(), 1);
    assert_eq!(ts.registry.len(), 1);
}

#[test]
fn test_stable_order_ties() {
    let mut ts = TrayState::new();
    let items = vec![
        MenuItemInfo::action("b", StringKey::Quit, None, 20),
        MenuItemInfo::action("a1", StringKey::Quit, None, 10),
        MenuItemInfo::action("a2", StringKey::Quit, None, 10),
    ];
    ts.compile(&items);
    let ids: Vec<String> = ts.tree.nodes.iter().map(|n| n.id.clone()).collect();
    assert_eq!(ids, vec!["a1".to_string(), "a2".to_string(), "b".to_string()]);
}

#[test]
fn test_unresolved_event() {
    let mut ts = TrayState::new();
    let items = get_all_items();
    ts.compile(&items);
    ts.register_callback();
    let r = ts.handle_event(999_999);
    assert_eq!(r, Outcome::Unresolved);
    assert!(ts.notified.is_empty());
    assert!(ts.requests.is_empty());
}

#[test]
fn test_handle_event_language_change() {
    let mut ts = TrayState::new();
    let items = get_all_items();
    ts.compile(&items);
    ts.register_callback();
    let token = ts.registry.token_for("lang_chinese").unwrap();
    let r = ts.handle_event(token);
    assert_eq!(r, Outcome::Handled { rebuild: true });
    assert_eq!(ts.i18n.get_locale(), Locale::Chinese);
    assert_eq!(ts.notified, vec!["lang_chinese".to_string()]);
    assert_eq!(ts.requests, vec![UiRequest::SaveLocale(Locale::Chinese)]);
}

#[test]
fn test_end_to_end_language_menu() {
    let mut ts = TrayState::new();
    let items = vec![
        MenuItemInfo::submenu("lang", StringKey::Language, None, 10),
        MenuItemInfo::action("lang.en", StringKey::English, Some("lang"), 1),
        MenuItemInfo::action("lang.zh", StringKey::Chinese, Some("lang"), 2)
            .with_handler(lang_chinese())
            .with_rebuild(),
    ];
    ts.compile(&items);
    ts.register_callback();
    let token = ts.registry.token_for("lang.zh").unwrap();
    let r = ts.handle_event(token);
    assert_eq!(r, Outcome::Handled { rebuild: true });
    assert_eq!(ts.notified, vec!["lang.zh".to_string()]);
    // The caller now runs the rebuild protocol; the new tree is isomorphic
    // with fresh tokens.
    let ids1: Vec<String> = ts.tree.nodes.iter().map(|n| n.id.clone()).collect();
    ts.update_menu_texts();
    let ids2: Vec<String> = ts.tree.nodes.iter().map(|n| n.id.clone()).collect();
    assert_eq!(ids1, ids2);
    let new_token = ts.registry.token_for("lang.zh").unwrap();
    assert_ne!(token, new_token);
    assert_eq!(ts.registry.identify_item_id(token), None);
    assert_eq!(ts.registry.identify_item_id(new_token), Some("lang.zh".to_string()));
    // Exactly one notification went out for the whole interaction.
    assert_eq!(ts.notified.len(), 1);
}

#[test]
fn test_execute_handler() {
    let mut ts = TrayState::new();
    let items = get_all_items();
    ts.compile(&items);
    ts.register_callback();
    let r = ts.execute_handler("lang_english");
    assert_eq!(r, (true, true));
    assert_eq!(ts.i18n.get_locale(), Locale::English);
    assert_eq!(ts.notified, vec!["lang_english".to_string()]);
    let r2 = ts.execute_handler("no_such_item");
    assert_eq!(r2, (false, false));
}

#[test]
fn test_update_vdd_menu_state() {
    let mut ts = TrayState::new();
    let items = get_all_items();
    ts.compile(&items);
    ts.update_vdd_menu_state(false, true, true, true);
    assert_eq!(ts.get_check_state_by_id("vdd_create"), Some(true));
    assert_eq!(ts.get_item_enabled_by_id("vdd_create"), Some(false));
    assert_eq!(ts.get_check_state_by_id("vdd_close"), Some(false));
    assert_eq!(ts.get_item_enabled_by_id("vdd_close"), Some(true));
    assert_eq!(ts.get_check_state_by_id("vdd_persistent"), Some(true));
}

#[test]
fn test_action_codes() {
    assert_eq!(MenuAction::OpenUI.code(), 1);
    assert_eq!(MenuAction::Quit.code(), 17);
    assert_eq!(MenuAction::from_code(5), Some(MenuAction::ImportConfig));
    assert_eq!(MenuAction::from_code(0), None);
    assert_eq!(MenuAction::from_code(19), None);
    assert_eq!(MenuAction::for_item_id("quit"), Some(MenuAction::Quit));
    assert_eq!(MenuAction::for_item_id("sep_1"), None);
    assert_eq!(MenuAction::Quit.item_id(), "quit");
}

#[test]
fn test_confirm_handler_queues_request() {
    let mut ts = TrayState::new();
    let items = get_all_items();
    ts.compile(&items);
    ts.register_callback();
    let token = ts.registry.token_for("quit").unwrap();
    let r = ts.handle_event(token);
    assert_eq!(r, Outcome::Handled { rebuild: false });
    assert_eq!(ts.notified, vec!["quit".to_string()]);
    assert_eq!(
        ts.requests,
        vec![UiRequest::Confirm(StringKey::QuitTitle, StringKey::QuitMessage)]
    );
}

#[test]
fn test_snapshot_restore() {
    let mut ts = TrayState::new();
    let items = get_all_items();
    ts.compile(&items);
    ts.set_check_state_by_id("vdd_close", true);
    let snap = ts.snapshot_state();
    // Snapshots cover exactly the checkbox items.
    assert_eq!(snap.entries.len(), 3);
    ts.compile(&items);
    assert_eq!(ts.get_check_state_by_id("vdd_close"), Some(false));
    ts.restore_state(&snap);
    assert_eq!(ts.get_check_state_by_id("vdd_close"), Some(true));
    assert_eq!(ts.get_check_state_by_id("vdd_create"), Some(false));
}

#[test]
fn test_events_without_callback_not_forwarded() {
    let mut ts = TrayState::new();
    let items = get_all_items();
    ts.compile(&items);
    let token = ts.registry.token_for("open_sunshine").unwrap();
    let r = ts.handle_event(token);
    assert_eq!(r, Outcome::Handled { rebuild: false });
    assert!(ts.notified.is_empty());
}

#[test]
fn test_execute_handler_forwards_without_handler() {
    let mut ts = TrayState::new();
    let items = vec![
        MenuItemInfo::action("bare", StringKey::Quit, None, 1),
        MenuItemInfo::separator("line", None, 2),
    ];
    ts.compile(&items);
    ts.register_callback();
    // An action without a local handler is still forwarded to the host.
    assert_eq!(ts.execute_handler("bare"), (true, false));
    assert_eq!(ts.notified, vec!["bare".to_string()]);
    // A separator has nothing to dispatch.
    assert_eq!(ts.execute_handler("line"), (false, false));
    assert_eq!(ts.notified.len(), 1);
}

#[test]
fn test_register_overwrites_by_id() {
    let mut reg = Registry::new();
    reg.register("x", 1, ItemKind::Action);
    reg.register("y", 2, ItemKind::Check);
    reg.register("x", 7, ItemKind::Action);
    assert_eq!(reg.len(), 2);
    assert_eq!(reg.token_for("x"), Some(7));
    assert_eq!(reg.identify_item_id(1), None);
    assert_eq!(reg.identify_item_id(7), Some("x".to_string()));
    assert_eq!(reg.identify_item_id(2), Some("y".to_string()));
}

#[test]
fn test_trigger_action() {
    let mut ts = TrayState::new();
    ts.trigger_action(MenuAction::OpenUI);
    // Without a registered callback nothing is queued.
    assert!(ts.notified.is_empty());
    ts.register_callback();
    ts.trigger_action(MenuAction::OpenUI);
    ts.trigger_action(MenuAction::NotificationClicked);
    assert_eq!(
        ts.notified,
        vec!["open_sunshine".to_string(), "notification_clicked".to_string()]
    );
}
