use claudedeck::settings::{
    AppSettings, CostMilestone, SystemTrayBehavior, SystemTrayDisplay, SystemTrayDisplayShowItems,
    SystemTrayNotificationTriggers, SystemTrayNotifications, SystemTrayNumberFormat,
    SystemTraySettings, SystemTrayVisual, TriggerLimit,
};
use claudedeck::tray::{dispatch_click, resolve_click_action, TrayDirective};

fn settings_with_click_action(action: &str) -> AppSettings {
    let tray = SystemTraySettings {
        enabled: true,
        display: SystemTrayDisplay {
            mode: "compact".to_string(),
            show_items: SystemTrayDisplayShowItems {
                current_block_tokens: true,
                current_block_cost: true,
                current_block_models: false,
                current_block_time_remaining: false,
                daily_total: false,
                session_total: false,
                monthly_total: false,
            },
            custom_format: None,
            number_format: SystemTrayNumberFormat {
                tokens_unit: "raw".to_string(),
                cost_decimals: 1,
                compact_numbers: false,
            },
            update_interval: 30,
        },
        behavior: SystemTrayBehavior {
            click_action: action.to_string(),
            right_click_shows_menu: true,
            show_only_when_active: false,
            inactivity_timeout: 300,
            start_minimized: false,
        },
        visual: SystemTrayVisual {
            icon_style: "default".to_string(),
            show_tooltip: true,
            tooltip_content: "same_as_title".to_string(),
            custom_tooltip_format: None,
        },
        notifications: SystemTrayNotifications {
            enabled: false,
            triggers: SystemTrayNotificationTriggers {
                new_block: false,
                daily_limit: TriggerLimit { enabled: false, threshold: 0 },
                monthly_limit: TriggerLimit { enabled: false, threshold: 0 },
                session_limit: TriggerLimit { enabled: false, threshold: 0 },
                cost_milestone: CostMilestone { enabled: false, amount: 0 },
            },
            style: "native".to_string(),
            sound: false,
        },
    };
    AppSettings { system_tray: Some(tray), ..AppSettings::default() }
}

#[test]
fn toggle_window_hides_a_visible_main_window() {
    let s = settings_with_click_action("toggle_window");
    assert_eq!(dispatch_click(Some(&s), true), TrayDirective::HideMain);
}

#[test]
fn toggle_window_shows_a_hidden_main_window() {
    let s = settings_with_click_action("toggle_window");
    assert_eq!(dispatch_click(Some(&s), false), TrayDirective::ShowAndFocusMain);
}

#[test]
fn absent_tray_block_behaves_like_open_app() {
    let bare = AppSettings::default();
    assert!(bare.system_tray.is_none());
    let open = settings_with_click_action("open_app");
    for visible in [false, true] {
        assert_eq!(dispatch_click(Some(&bare), visible), dispatch_click(Some(&open), visible));
        assert_eq!(dispatch_click(Some(&bare), visible), TrayDirective::ShowAndFocusMain);
    }
}

#[test]
fn unreadable_settings_behave_like_open_app() {
    assert_eq!(resolve_click_action(None), "open_app");
    assert_eq!(dispatch_click(None, true), TrayDirective::ShowAndFocusMain);
    assert_eq!(dispatch_click(None, false), TrayDirective::ShowAndFocusMain);
}

#[test]
fn show_popup_opens_or_creates_the_popup() {
    let s = settings_with_click_action("show_popup");
    assert_eq!(dispatch_click(Some(&s), true), TrayDirective::ShowOrCreatePopup);
    assert_eq!(dispatch_click(Some(&s), false), TrayDirective::ShowOrCreatePopup);
}

#[test]
fn none_action_is_a_no_op() {
    let s = settings_with_click_action("none");
    assert_eq!(dispatch_click(Some(&s), true), TrayDirective::NoOp);
}

#[test]
fn unrecognized_action_falls_back_to_open_app() {
    let s = settings_with_click_action("somersault");
    assert_eq!(dispatch_click(Some(&s), true), TrayDirective::ShowAndFocusMain);
    assert_eq!(dispatch_click(Some(&s), false), TrayDirective::ShowAndFocusMain);
}

#[test]
fn configured_action_is_read_from_the_tray_block() {
    let s = settings_with_click_action("show_popup");
    assert_eq!(resolve_click_action(Some(&s)), "show_popup");
    assert_eq!(resolve_click_action(Some(&AppSettings::default())), "open_app");
}
