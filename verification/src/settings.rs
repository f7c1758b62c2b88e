//! The persisted settings object.
//!
//! The settings object is the single source of truth for user preferences.
//! It is always a total, valid structure: loading falls back to the
//! compiled-in default object whenever the persisted value is absent or
//! does not match the schema. Saving replaces the whole persisted value at
//! once; there is no field-level mutation.
//!
//! Currency thresholds are held in hundredths of the display currency, so
//! that the whole object is made of plain values.

use vstd::prelude::*;
use vstd::string::*;

verus! {

/// Optional usage-notification thresholds, in hundredths of the display
/// currency.
#[derive(Clone, Debug, PartialEq)]
pub struct NotificationLimits {
    pub daily: Option<u64>,
    pub monthly: Option<u64>,
    pub session: Option<u64>,
}

/// Which figures the tray title shows.
#[derive(Clone, Debug, PartialEq)]
pub struct SystemTrayDisplayShowItems {
    pub current_block_tokens: bool,
    pub current_block_cost: bool,
    pub current_block_models: bool,
    pub current_block_time_remaining: bool,
    pub daily_total: bool,
    pub session_total: bool,
    pub monthly_total: bool,
}

/// How the tray title formats numbers.
#[derive(Clone, Debug, PartialEq)]
pub struct SystemTrayNumberFormat {
    /// `"raw"`, `"k"` or `"M"`.
    pub tokens_unit: String,
    /// 0, 1 or 2.
    pub cost_decimals: u32,
    pub compact_numbers: bool,
}

/// What the tray displays.
#[derive(Clone, Debug, PartialEq)]
pub struct SystemTrayDisplay {
    /// `"compact"`, `"detailed"` or `"custom"`.
    pub mode: String,
    pub show_items: SystemTrayDisplayShowItems,
    pub custom_format: Option<String>,
    pub number_format: SystemTrayNumberFormat,
    pub update_interval: u32,
}

/// How the tray reacts to the user.
#[derive(Clone, Debug, PartialEq)]
pub struct SystemTrayBehavior {
    /// `"open_app"`, `"show_popup"`, `"toggle_window"` or `"none"`.
    pub click_action: String,
    pub right_click_shows_menu: bool,
    pub show_only_when_active: bool,
    pub inactivity_timeout: u32,
    pub start_minimized: bool,
}

/// How the tray icon looks.
#[derive(Clone, Debug, PartialEq)]
pub struct SystemTrayVisual {
    /// `"default"`, `"monochrome"` or `"usage_based"`.
    pub icon_style: String,
    pub show_tooltip: bool,
    /// `"same_as_title"`, `"detailed_stats"` or `"custom"`.
    pub tooltip_content: String,
    pub custom_tooltip_format: Option<String>,
}

/// One enabled flag with a threshold in hundredths of the display currency.
#[derive(Clone, Debug, PartialEq)]
pub struct TriggerLimit {
    pub enabled: bool,
    pub threshold: u64,
}

/// A cost milestone, in hundredths of the display currency.
#[derive(Clone, Debug, PartialEq)]
pub struct CostMilestone {
    pub enabled: bool,
    pub amount: u64,
}

/// Which events trigger a tray notification.
#[derive(Clone, Debug, PartialEq)]
pub struct SystemTrayNotificationTriggers {
    pub new_block: bool,
    pub daily_limit: TriggerLimit,
    pub monthly_limit: TriggerLimit,
    pub session_limit: TriggerLimit,
    pub cost_milestone: CostMilestone,
}

/// How tray notifications are delivered.
#[derive(Clone, Debug, PartialEq)]
pub struct SystemTrayNotifications {
    pub enabled: bool,
    pub triggers: SystemTrayNotificationTriggers,
    /// `"native"` or `"in_app"`.
    pub style: String,
    pub sound: bool,
}

/// The optional structured tray configuration block.
#[derive(Clone, Debug, PartialEq)]
pub struct SystemTraySettings {
    pub enabled: bool,
    pub display: SystemTrayDisplay,
    pub behavior: SystemTrayBehavior,
    pub visual: SystemTrayVisual,
    pub notifications: SystemTrayNotifications,
}

/// The complete user-configuration object persisted across runs.
#[derive(Clone, Debug, PartialEq)]
pub struct AppSettings {
    pub theme: String,
    pub custom_data_directories: Vec<String>,
    pub notification_limits: NotificationLimits,
    pub cost_mode: String,
    pub auto_refresh: bool,
    pub refresh_interval: u32,
    /// Kept for backward compatibility with older persisted settings.
    pub show_in_system_tray: bool,
    /// Absent in older persisted settings: absence means legacy default
    /// behavior, never an error.
    pub system_tray: Option<SystemTraySettings>,
    pub launch_at_startup: bool,
    pub default_export_format: String,
    pub compact_mode: bool,
}

/// The model of a [`SystemTrayNumberFormat`].
#[verifier::ext_equal]
pub struct NumberFormatModel {
    pub tokens_unit: Seq<char>,
    pub cost_decimals: u32,
    pub compact_numbers: bool,
}

/// The model of a [`SystemTrayDisplay`].
#[verifier::ext_equal]
pub struct DisplayModel {
    pub mode: Seq<char>,
    pub show_items: SystemTrayDisplayShowItems,
    pub custom_format: Option<Seq<char>>,
    pub number_format: NumberFormatModel,
    pub update_interval: u32,
}

/// The model of a [`SystemTrayBehavior`].
#[verifier::ext_equal]
pub struct BehaviorModel {
    pub click_action: Seq<char>,
    pub right_click_shows_menu: bool,
    pub show_only_when_active: bool,
    pub inactivity_timeout: u32,
    pub start_minimized: bool,
}

/// The model of a [`SystemTrayVisual`].
#[verifier::ext_equal]
pub struct VisualModel {
    pub icon_style: Seq<char>,
    pub show_tooltip: bool,
    pub tooltip_content: Seq<char>,
    pub custom_tooltip_format: Option<Seq<char>>,
}

/// The model of a [`SystemTrayNotifications`].
#[verifier::ext_equal]
pub struct NotificationsModel {
    pub enabled: bool,
    pub triggers: SystemTrayNotificationTriggers,
    pub style: Seq<char>,
    pub sound: bool,
}

/// The model of a [`SystemTraySettings`].
#[verifier::ext_equal]
pub struct TrayModel {
    pub enabled: bool,
    pub display: DisplayModel,
    pub behavior: BehaviorModel,
    pub visual: VisualModel,
    pub notifications: NotificationsModel,
}

/// The model of an [`AppSettings`].
#[verifier::ext_equal]
pub struct SettingsModel {
    pub theme: Seq<char>,
    pub custom_data_directories: Seq<Seq<char>>,
    pub notification_limits: NotificationLimits,
    pub cost_mode: Seq<char>,
    pub auto_refresh: bool,
    pub refresh_interval: u32,
    pub show_in_system_tray: bool,
    pub system_tray: Option<TrayModel>,
    pub launch_at_startup: bool,
    pub default_export_format: Seq<char>,
    pub compact_mode: bool,
}

impl View for SystemTrayNumberFormat {
    type V = NumberFormatModel;

    open spec fn view(&self) -> NumberFormatModel {
        NumberFormatModel {
            tokens_unit: self.tokens_unit@,
            cost_decimals: self.cost_decimals,
            compact_numbers: self.compact_numbers,
        }
    }
}

impl View for SystemTrayDisplay {
    type V = DisplayModel;

    open spec fn view(&self) -> DisplayModel {
        DisplayModel {
            mode: self.mode@,
            show_items: self.show_items,
            custom_format: match self.custom_format {
                Some(f) => Some(f@),
                None => None,
            },
            number_format: self.number_format@,
            update_interval: self.update_interval,
        }
    }
}

impl View for SystemTrayBehavior {
    type V = BehaviorModel;

    open spec fn view(&self) -> BehaviorModel {
        BehaviorModel {
            click_action: self.click_action@,
            right_click_shows_menu: self.right_click_shows_menu,
            show_only_when_active: self.show_only_when_active,
            inactivity_timeout: self.inactivity_timeout,
            start_minimized: self.start_minimized,
        }
    }
}

impl View for SystemTrayVisual {
    type V = VisualModel;

    open spec fn view(&self) -> VisualModel {
        VisualModel {
            icon_style: self.icon_style@,
            show_tooltip: self.show_tooltip,
            tooltip_content: self.tooltip_content@,
            custom_tooltip_format: match self.custom_tooltip_format {
                Some(f) => Some(f@),
                None => None,
            },
        }
    }
}

impl View for SystemTrayNotifications {
    type V = NotificationsModel;

    open spec fn view(&self) -> NotificationsModel {
        NotificationsModel {
            enabled: self.enabled,
            triggers: self.triggers,
            style: self.style@,
            sound: self.sound,
        }
    }
}

impl View for SystemTraySettings {
    type V = TrayModel;

    open spec fn view(&self) -> TrayModel {
        TrayModel {
            enabled: self.enabled,
            display: self.display@,
            behavior: self.behavior@,
            visual: self.visual@,
            notifications: self.notifications@,
        }
    }
}

impl View for AppSettings {
    type V = SettingsModel;

    open spec fn view(&self) -> SettingsModel {
        SettingsModel {
            theme: self.theme@,
            custom_data_directories: self.custom_data_directories.deep_view(),
            notification_limits: self.notification_limits,
            cost_mode: self.cost_mode@,
            auto_refresh: self.auto_refresh,
            refresh_interval: self.refresh_interval,
            show_in_system_tray: self.show_in_system_tray,
            system_tray: match self.system_tray {
                Some(t) => Some(t@),
                None => None,
            },
            launch_at_startup: self.launch_at_startup,
            default_export_format: self.default_export_format@,
            compact_mode: self.compact_mode,
        }
    }
}

/// The compiled-in default configuration: a fully valid object, so that a
/// run with no prior configuration behaves sensibly.
pub open spec fn default_model() -> SettingsModel {
    SettingsModel {
        theme: "system"@,
        custom_data_directories: Seq::empty(),
        notification_limits: NotificationLimits { daily: None, monthly: None, session: None },
        cost_mode: "auto"@,
        auto_refresh: true,
        refresh_interval: 300,
        show_in_system_tray: true,
        system_tray: None,
        launch_at_startup: false,
        default_export_format: "csv"@,
        compact_mode: false,
    }
}

impl Default for AppSettings {
    /// The compiled-in default settings object.
    fn default() -> (s: AppSettings)
        ensures
            s@ == default_model(),
    {
        let s = AppSettings {
            theme: String::from_str("system"),
            custom_data_directories: Vec::new(),
            notification_limits: NotificationLimits { daily: None, monthly: None, session: None },
            cost_mode: String::from_str("auto"),
            auto_refresh: true,
            refresh_interval: 300,
            show_in_system_tray: true,
            system_tray: None,
            launch_at_startup: false,
            default_export_format: String::from_str("csv"),
            compact_mode: false,
        };
        proof {
            assert(s.custom_data_directories.deep_view() =~= Seq::<Seq<char>>::empty());
            assert(s@ =~= default_model());
        }
        s
    }
}

} // verus!
