use claudedeck::json::JsonValue;
use claudedeck::settings::{
    AppSettings, CostMilestone, NotificationLimits, SystemTrayBehavior, SystemTrayDisplay,
    SystemTrayDisplayShowItems, SystemTrayNotificationTriggers, SystemTrayNotifications,
    SystemTrayNumberFormat, SystemTraySettings, SystemTrayVisual, TriggerLimit,
};
use claudedeck::store::SettingsStore;

fn full_tray_block() -> SystemTraySettings {
    SystemTraySettings {
        enabled: true,
        display: SystemTrayDisplay {
            mode: "custom".to_string(),
            show_items: SystemTrayDisplayShowItems {
                current_block_tokens: true,
                current_block_cost: false,
                current_block_models: true,
                current_block_time_remaining: false,
                daily_total: true,
                session_total: false,
                monthly_total: true,
            },
            custom_format: Some("{tokens}".to_string()),
            number_format: SystemTrayNumberFormat {
                tokens_unit: "k".to_string(),
                cost_decimals: 2,
                compact_numbers: true,
            },
            update_interval: 60,
        },
        behavior: SystemTrayBehavior {
            click_action: "toggle_window".to_string(),
            right_click_shows_menu: true,
            show_only_when_active: false,
            inactivity_timeout: 120,
            start_minimized: true,
        },
        visual: SystemTrayVisual {
            icon_style: "monochrome".to_string(),
            show_tooltip: true,
            tooltip_content: "detailed_stats".to_string(),
            custom_tooltip_format: None,
        },
        notifications: SystemTrayNotifications {
            enabled: true,
            triggers: SystemTrayNotificationTriggers {
                new_block: true,
                daily_limit: TriggerLimit { enabled: true, threshold: 2500 },
                monthly_limit: TriggerLimit { enabled: false, threshold: 10000 },
                session_limit: TriggerLimit { enabled: true, threshold: 500 },
                cost_milestone: CostMilestone { enabled: true, amount: 1000 },
            },
            style: "native".to_string(),
            sound: false,
        },
    }
}

fn custom_settings(tray: Option<SystemTraySettings>) -> AppSettings {
    AppSettings {
        theme: "dark".to_string(),
        custom_data_directories: vec!["/data/a".to_string(), "/data/b".to_string()],
        notification_limits: NotificationLimits {
            daily: Some(1250),
            monthly: None,
            session: Some(75),
        },
        cost_mode: "calculate".to_string(),
        auto_refresh: false,
        refresh_interval: 30,
        show_in_system_tray: false,
        system_tray: tray,
        launch_at_startup: true,
        default_export_format: "json".to_string(),
        compact_mode: true,
    }
}

#[test]
fn default_object_is_fully_populated() {
    let s = AppSettings::default();
    assert_eq!(s.theme, "system");
    assert!(s.custom_data_directories.is_empty());
    assert_eq!(s.notification_limits, NotificationLimits { daily: None, monthly: None, session: None });
    assert_eq!(s.cost_mode, "auto");
    assert!(s.auto_refresh);
    assert_eq!(s.refresh_interval, 300);
    assert!(s.show_in_system_tray);
    assert!(s.system_tray.is_none());
    assert!(!s.launch_at_startup);
    assert_eq!(s.default_export_format, "csv");
    assert!(!s.compact_mode);
}

#[test]
fn save_then_load_returns_saved_object_without_tray_block() {
    let mut store = SettingsStore::new();
    let s = custom_settings(None);
    s.save_to_store(&mut store).unwrap();
    let loaded = AppSettings::from_store(&store);
    assert_eq!(loaded, s);
}

#[test]
fn save_then_load_returns_saved_object_with_tray_block() {
    let mut store = SettingsStore::new();
    let s = custom_settings(Some(full_tray_block()));
    s.save_to_store(&mut store).unwrap();
    let loaded = AppSettings::from_store(&store);
    assert_eq!(loaded, s);
}

#[test]
fn second_save_replaces_first() {
    let mut store = SettingsStore::new();
    custom_settings(None).save_to_store(&mut store).unwrap();
    AppSettings::default().save_to_store(&mut store).unwrap();
    assert_eq!(AppSettings::from_store(&store), AppSettings::default());
}

#[test]
fn empty_store_loads_default() {
    let store = SettingsStore::new();
    assert_eq!(AppSettings::from_store(&store), AppSettings::default());
}

#[test]
fn corrupted_value_loads_default() {
    let mut store = SettingsStore::new();
    store.set("settings", JsonValue::Str("{not a settings object}".to_string()));
    assert_eq!(AppSettings::from_store(&store), AppSettings::default());
}

#[test]
fn schema_mismatched_object_loads_default() {
    let mut store = SettingsStore::new();
    let fields = vec![("theem".to_string(), JsonValue::Str("dark".to_string()))];
    store.set("settings", JsonValue::Obj(fields));
    assert_eq!(AppSettings::from_store(&store), AppSettings::default());
}

#[test]
fn json_round_trip_preserves_every_field() {
    let s = custom_settings(Some(full_tray_block()));
    let doc = s.to_json();
    assert_eq!(AppSettings::from_json(&doc), Some(s));
}

#[test]
fn from_json_rejects_non_object() {
    assert_eq!(AppSettings::from_json(&JsonValue::Bool(true)), None);
    assert_eq!(AppSettings::from_json(&JsonValue::Null), None);
}

#[test]
fn from_json_rejects_an_oversized_interval() {
    let doc = custom_settings(None).to_json();
    let JsonValue::Obj(mut fields) = doc else {
        panic!("the canonical shape is an object");
    };
    assert_eq!(fields[5].0, "refreshInterval");
    fields[5].1 = JsonValue::UInt(u64::from(u32::MAX) + 1);
    assert_eq!(AppSettings::from_json(&JsonValue::Obj(fields)), None);
}

#[test]
fn from_json_rejects_a_mistyped_field() {
    let doc = custom_settings(None).to_json();
    let JsonValue::Obj(mut fields) = doc else {
        panic!("the canonical shape is an object");
    };
    assert_eq!(fields[0].0, "theme");
    fields[0].1 = JsonValue::UInt(7);
    assert_eq!(AppSettings::from_json(&JsonValue::Obj(fields)), None);
}

#[test]
fn from_json_accepts_an_older_document_without_compact_mode() {
    let mut s = custom_settings(None);
    s.compact_mode = false;
    let doc = s.to_json();
    let JsonValue::Obj(mut fields) = doc else {
        panic!("the canonical shape is an object");
    };
    assert_eq!(fields.last().map(|f| f.0.as_str()), Some("compactMode"));
    fields.pop();
    let loaded = AppSettings::from_json(&JsonValue::Obj(fields)).expect("older shape accepted");
    assert_eq!(loaded, s);
}

#[test]
fn store_set_replaces_value_and_keeps_other_keys() {
    let mut store = SettingsStore::new();
    store.set("alpha", JsonValue::UInt(1));
    store.set("beta", JsonValue::UInt(2));
    store.set("alpha", JsonValue::UInt(3));
    match store.get("alpha") {
        Some(JsonValue::UInt(n)) => assert_eq!(*n, 3),
        other => panic!("unexpected value: {:?}", other.is_some()),
    }
    match store.get("beta") {
        Some(JsonValue::UInt(n)) => assert_eq!(*n, 2),
        other => panic!("unexpected value: {:?}", other.is_some()),
    }
    assert!(store.get("gamma").is_none());
}
