//! The persistence codec of the settings object.
//!
//! The settings object is persisted as a JSON-like value tree. The encoder
//! writes the canonical shape: every field under its document key, keys in
//! schema order, the optional blocks left out when absent. The decoder
//! accepts exactly the canonical shapes, including the older ones without
//! the optional blocks, and rejects everything else; a rejected value makes
//! the loader fall back to the default object.

use vstd::prelude::*;
use vstd::string::*;

use crate::json::{fields_model, items_model, json_model, lemma_fields_model, lemma_items_model,
    Json, JsonValue};
use crate::settings::{default_model, AppSettings, BehaviorModel, CostMilestone, DisplayModel,
    NotificationLimits, NotificationsModel, NumberFormatModel, SettingsModel, SystemTrayBehavior,
    SystemTrayDisplay, SystemTrayDisplayShowItems, SystemTrayNotificationTriggers,
    SystemTrayNotifications, SystemTrayNumberFormat, SystemTraySettings, SystemTrayVisual,
    TrayModel, TriggerLimit, VisualModel};
use crate::store::{lemma_store_set_get, store_get, store_set, SettingsStore};

verus! {

// ---------------------------------------------------------------------------
// Primitive values
// ---------------------------------------------------------------------------
/// An optional number encodes as the number or as null.
pub open spec fn enc_opt_u64(v: Option<u64>) -> Json {
    match v {
        Some(n) => Json::UInt(n),
        None => Json::Null,
    }
}

/// The decoding of an optional number; anything but a number or null is
/// rejected.
pub open spec fn dec_opt_u64(j: Json) -> Option<Option<u64>> {
    match j {
        Json::UInt(n) => Some(Some(n)),
        Json::Null => Some(None),
        _ => None,
    }
}

/// The decoding of a boolean.
pub open spec fn dec_bool(j: Json) -> Option<bool> {
    match j {
        Json::Bool(b) => Some(b),
        _ => None,
    }
}

/// The decoding of a number.
pub open spec fn dec_u64(j: Json) -> Option<u64> {
    match j {
        Json::UInt(n) => Some(n),
        _ => None,
    }
}

/// The decoding of a small number; values beyond the field width are
/// rejected.
pub open spec fn dec_u32(j: Json) -> Option<u32> {
    match j {
        Json::UInt(n) => if n <= u32::MAX as u64 {
            Some(n as u32)
        } else {
            None
        },
        _ => None,
    }
}

/// The decoding of a string.
pub open spec fn dec_str(j: Json) -> Option<Seq<char>> {
    match j {
        Json::Str(s) => Some(s),
        _ => None,
    }
}

fn opt_u64_to_json(v: &Option<u64>) -> (r: JsonValue)
    ensures
        r@ == enc_opt_u64(*v),
{
    match v {
        Some(n) => JsonValue::UInt(*n),
        None => JsonValue::Null,
    }
}

fn json_as_opt_u64(j: &JsonValue) -> (r: Option<Option<u64>>)
    ensures
        r == dec_opt_u64(j@),
{
    match j {
        JsonValue::UInt(n) => Some(Some(*n)),
        JsonValue::Null => Some(None),
        _ => None,
    }
}

fn json_as_bool(j: &JsonValue) -> (r: Option<bool>)
    ensures
        r == dec_bool(j@),
{
    match j {
        JsonValue::Bool(b) => Some(*b),
        _ => None,
    }
}

fn json_as_u64(j: &JsonValue) -> (r: Option<u64>)
    ensures
        r == dec_u64(j@),
{
    match j {
        JsonValue::UInt(n) => Some(*n),
        _ => None,
    }
}

fn json_as_u32(j: &JsonValue) -> (r: Option<u32>)
    ensures
        r == dec_u32(j@),
{
    match j {
        JsonValue::UInt(n) => {
            if *n <= u32::MAX as u64 {
                Some(*n as u32)
            } else {
                None
            }
        },
        _ => None,
    }
}

fn json_as_string(j: &JsonValue) -> (r: Option<String>)
    ensures
        match dec_str(j@) {
            Some(s) => r matches Some(rs) && rs@ == s,
            None => r is None,
        },
{
    match j {
        JsonValue::Str(s) => Some(s.clone()),
        _ => None,
    }
}

/// True when field `i` of the object carries the key `key`.
fn key_at(fields: &Vec<(String, JsonValue)>, i: usize, key: &str) -> (r: bool)
    requires
        i < fields@.len(),
    ensures
        r == (fields@[i as int].0@ == key@),
{
    fields[i].0 == String::from_str(key)
}

// ---------------------------------------------------------------------------
// Notification limits
// ---------------------------------------------------------------------------
/// The canonical document shape of [`NotificationLimits`].
pub open spec fn enc_limits(l: NotificationLimits) -> Json {
    Json::Obj(
        seq![
            ("daily"@, enc_opt_u64(l.daily)),
            ("monthly"@, enc_opt_u64(l.monthly)),
            ("session"@, enc_opt_u64(l.session)),
        ],
    )
}

/// The decoding of a [`NotificationLimits`] document value.
pub open spec fn dec_limits(j: Json) -> Option<NotificationLimits> {
    match j {
        Json::Obj(fs) => {
            if fs.len() == 3 && fs[0].0 == "daily"@ && fs[1].0 == "monthly"@ && fs[2].0
                == "session"@ {
                match (dec_opt_u64(fs[0].1), dec_opt_u64(fs[1].1), dec_opt_u64(fs[2].1)) {
                    (Some(d), Some(m), Some(s)) => Some(
                        NotificationLimits { daily: d, monthly: m, session: s },
                    ),
                    _ => None,
                }
            } else {
                None
            }
        },
        _ => None,
    }
}

fn limits_to_json(l: &NotificationLimits) -> (r: JsonValue)
    ensures
        r@ == enc_limits(*l),
{
    let mut fields: Vec<(String, JsonValue)> = Vec::new();
    fields.push((String::from_str("daily"), opt_u64_to_json(&l.daily)));
    fields.push((String::from_str("monthly"), opt_u64_to_json(&l.monthly)));
    fields.push((String::from_str("session"), opt_u64_to_json(&l.session)));
    proof {
        lemma_fields_model(fields@);
        assert(fields_model(fields@) =~= seq![
            ("daily"@, enc_opt_u64(l.daily)),
            ("monthly"@, enc_opt_u64(l.monthly)),
            ("session"@, enc_opt_u64(l.session)),
        ]);
    }
    JsonValue::Obj(fields)
}

fn limits_from_json(j: &JsonValue) -> (r: Option<NotificationLimits>)
    ensures
        r == dec_limits(j@),
{
    match j {
        JsonValue::Obj(fields) => {
            proof {
                lemma_fields_model(fields@);
            }
            if fields.len() == 3 && key_at(fields, 0, "daily") && key_at(fields, 1, "monthly")
                && key_at(fields, 2, "session") {
                let d = json_as_opt_u64(&fields[0].1);
                let m = json_as_opt_u64(&fields[1].1);
                let s = json_as_opt_u64(&fields[2].1);
                match (d, m, s) {
                    (Some(d), Some(m), Some(s)) => Some(
                        NotificationLimits { daily: d, monthly: m, session: s },
                    ),
                    _ => None,
                }
            } else {
                None
            }
        },
        _ => None,
    }
}

proof fn lemma_limits_round_trip(l: NotificationLimits)
    ensures
        dec_limits(enc_limits(l)) == Some(l),
{
}

// ---------------------------------------------------------------------------
// Tray display: shown items
// ---------------------------------------------------------------------------
/// The canonical document shape of [`SystemTrayDisplayShowItems`].
pub open spec fn enc_show_items(s: SystemTrayDisplayShowItems) -> Json {
    Json::Obj(
        seq![
            ("currentBlockTokens"@, Json::Bool(s.current_block_tokens)),
            ("currentBlockCost"@, Json::Bool(s.current_block_cost)),
            ("currentBlockModels"@, Json::Bool(s.current_block_models)),
            ("currentBlockTimeRemaining"@, Json::Bool(s.current_block_time_remaining)),
            ("dailyTotal"@, Json::Bool(s.daily_total)),
            ("sessionTotal"@, Json::Bool(s.session_total)),
            ("monthlyTotal"@, Json::Bool(s.monthly_total)),
        ],
    )
}

/// The decoding of a [`SystemTrayDisplayShowItems`] document value.
pub open spec fn dec_show_items(j: Json) -> Option<SystemTrayDisplayShowItems> {
    match j {
        Json::Obj(fs) => {
            if fs.len() == 7 && fs[0].0 == "currentBlockTokens"@ && fs[1].0 == "currentBlockCost"@
                && fs[2].0 == "currentBlockModels"@ && fs[3].0 == "currentBlockTimeRemaining"@
                && fs[4].0 == "dailyTotal"@ && fs[5].0 == "sessionTotal"@ && fs[6].0
                == "monthlyTotal"@ {
                match (dec_bool(fs[0].1),
                dec_bool(fs[1].1),
                dec_bool(fs[2].1),
                dec_bool(fs[3].1),
                dec_bool(fs[4].1),
                dec_bool(fs[5].1),
                dec_bool(fs[6].1)) {
                    (
                        Some(a),
                        Some(b),
                        Some(c),
                        Some(d),
                        Some(e),
                        Some(f),
                        Some(g),
                    ) => Some(
                        SystemTrayDisplayShowItems {
                            current_block_tokens: a,
                            current_block_cost: b,
                            current_block_models: c,
                            current_block_time_remaining: d,
                            daily_total: e,
                            session_total: f,
                            monthly_total: g,
                        },
                    ),
                    _ => None,
                }
            } else {
                None
            }
        },
        _ => None,
    }
}

fn show_items_to_json(s: &SystemTrayDisplayShowItems) -> (r: JsonValue)
    ensures
        r@ == enc_show_items(*s),
{
    let mut fields: Vec<(String, JsonValue)> = Vec::new();
    fields.push((String::from_str("currentBlockTokens"), JsonValue::Bool(s.current_block_tokens)));
    fields.push((String::from_str("currentBlockCost"), JsonValue::Bool(s.current_block_cost)));
    fields.push((String::from_str("currentBlockModels"), JsonValue::Bool(s.current_block_models)));
    fields.push(
        (
            String::from_str("currentBlockTimeRemaining"),
            JsonValue::Bool(s.current_block_time_remaining),
        ),
    );
    fields.push((String::from_str("dailyTotal"), JsonValue::Bool(s.daily_total)));
    fields.push((String::from_str("sessionTotal"), JsonValue::Bool(s.session_total)));
    fields.push((String::from_str("monthlyTotal"), JsonValue::Bool(s.monthly_total)));
    proof {
        lemma_fields_model(fields@);
        assert(fields_model(fields@) =~= seq![
            ("currentBlockTokens"@, Json::Bool(s.current_block_tokens)),
            ("currentBlockCost"@, Json::Bool(s.current_block_cost)),
            ("currentBlockModels"@, Json::Bool(s.current_block_models)),
            ("currentBlockTimeRemaining"@, Json::Bool(s.current_block_time_remaining)),
            ("dailyTotal"@, Json::Bool(s.daily_total)),
            ("sessionTotal"@, Json::Bool(s.session_total)),
            ("monthlyTotal"@, Json::Bool(s.monthly_total)),
        ]);
    }
    JsonValue::Obj(fields)
}

fn show_items_from_json(j: &JsonValue) -> (r: Option<SystemTrayDisplayShowItems>)
    ensures
        r == dec_show_items(j@),
{
    match j {
        JsonValue::Obj(fields) => {
            proof {
                lemma_fields_model(fields@);
            }
            if fields.len() == 7 && key_at(fields, 0, "currentBlockTokens") && key_at(
                fields,
                1,
                "currentBlockCost",
            ) && key_at(fields, 2, "currentBlockModels") && key_at(
                fields,
                3,
                "currentBlockTimeRemaining",
            ) && key_at(fields, 4, "dailyTotal") && key_at(fields, 5, "sessionTotal") && key_at(
                fields,
                6,
                "monthlyTotal",
            ) {
                let a = json_as_bool(&fields[0].1);
                let b = json_as_bool(&fields[1].1);
                let c = json_as_bool(&fields[2].1);
                let d = json_as_bool(&fields[3].1);
                let e = json_as_bool(&fields[4].1);
                let f = json_as_bool(&fields[5].1);
                let g = json_as_bool(&fields[6].1);
                match (a, b, c, d, e, f, g) {
                    (
                        Some(a),
                        Some(b),
                        Some(c),
                        Some(d),
                        Some(e),
                        Some(f),
                        Some(g),
                    ) => Some(
                        SystemTrayDisplayShowItems {
                            current_block_tokens: a,
                            current_block_cost: b,
                            current_block_models: c,
                            current_block_time_remaining: d,
                            daily_total: e,
                            session_total: f,
                            monthly_total: g,
                        },
                    ),
                    _ => None,
                }
            } else {
                None
            }
        },
        _ => None,
    }
}

proof fn lemma_show_items_round_trip(s: SystemTrayDisplayShowItems)
    ensures
        dec_show_items(enc_show_items(s)) == Some(s),
{
}

// ---------------------------------------------------------------------------
// Tray display: number format
// ---------------------------------------------------------------------------
/// The canonical document shape of a [`SystemTrayNumberFormat`].
pub open spec fn enc_number_format(m: NumberFormatModel) -> Json {
    Json::Obj(
        seq![
            ("tokensUnit"@, Json::Str(m.tokens_unit)),
            ("costDecimals"@, Json::UInt(m.cost_decimals as u64)),
            ("compactNumbers"@, Json::Bool(m.compact_numbers)),
        ],
    )
}

/// The decoding of a [`SystemTrayNumberFormat`] document value.
pub open spec fn dec_number_format(j: Json) -> Option<NumberFormatModel> {
    match j {
        Json::Obj(fs) => {
            if fs.len() == 3 && fs[0].0 == "tokensUnit"@ && fs[1].0 == "costDecimals"@ && fs[2].0
                == "compactNumbers"@ {
                match (dec_str(fs[0].1), dec_u32(fs[1].1), dec_bool(fs[2].1)) {
                    (Some(u), Some(d), Some(c)) => Some(
                        NumberFormatModel {
                            tokens_unit: u,
                            cost_decimals: d,
                            compact_numbers: c,
                        },
                    ),
                    _ => None,
                }
            } else {
                None
            }
        },
        _ => None,
    }
}

fn number_format_to_json(v: &SystemTrayNumberFormat) -> (r: JsonValue)
    ensures
        r@ == enc_number_format(v@),
{
    let mut fields: Vec<(String, JsonValue)> = Vec::new();
    fields.push((String::from_str("tokensUnit"), JsonValue::Str(v.tokens_unit.clone())));
    fields.push((String::from_str("costDecimals"), JsonValue::UInt(v.cost_decimals as u64)));
    fields.push((String::from_str("compactNumbers"), JsonValue::Bool(v.compact_numbers)));
    proof {
        lemma_fields_model(fields@);
        assert(fields_model(fields@) =~= seq![
            ("tokensUnit"@, Json::Str(v.tokens_unit@)),
            ("costDecimals"@, Json::UInt(v.cost_decimals as u64)),
            ("compactNumbers"@, Json::Bool(v.compact_numbers)),
        ]);
    }
    JsonValue::Obj(fields)
}

fn number_format_from_json(j: &JsonValue) -> (r: Option<SystemTrayNumberFormat>)
    ensures
        match dec_number_format(j@) {
            Some(m) => r matches Some(v) && v@ == m,
            None => r is None,
        },
{
    match j {
        JsonValue::Obj(fields) => {
            proof {
                lemma_fields_model(fields@);
            }
            if fields.len() == 3 && key_at(fields, 0, "tokensUnit") && key_at(
                fields,
                1,
                "costDecimals",
            ) && key_at(fields, 2, "compactNumbers") {
                let u = json_as_string(&fields[0].1);
                let d = json_as_u32(&fields[1].1);
                let c = json_as_bool(&fields[2].1);
                match (u, d, c) {
                    (Some(u), Some(d), Some(c)) => Some(
                        SystemTrayNumberFormat {
                            tokens_unit: u,
                            cost_decimals: d,
                            compact_numbers: c,
                        },
                    ),
                    _ => None,
                }
            } else {
                None
            }
        },
        _ => None,
    }
}

proof fn lemma_number_format_round_trip(m: NumberFormatModel)
    ensures
        dec_number_format(enc_number_format(m)) == Some(m),
{
    assert(dec_number_format(enc_number_format(m)).unwrap() =~= m);
}

// ---------------------------------------------------------------------------
// Tray notification triggers
// ---------------------------------------------------------------------------
/// The canonical document shape of a [`TriggerLimit`].
pub open spec fn enc_trigger_limit(t: TriggerLimit) -> Json {
    Json::Obj(
        seq![("enabled"@, Json::Bool(t.enabled)), ("threshold"@, Json::UInt(t.threshold))],
    )
}

/// The decoding of a [`TriggerLimit`] document value.
pub open spec fn dec_trigger_limit(j: Json) -> Option<TriggerLimit> {
    match j {
        Json::Obj(fs) => {
            if fs.len() == 2 && fs[0].0 == "enabled"@ && fs[1].0 == "threshold"@ {
                match (dec_bool(fs[0].1), dec_u64(fs[1].1)) {
                    (Some(e), Some(t)) => Some(TriggerLimit { enabled: e, threshold: t }),
                    _ => None,
                }
            } else {
                None
            }
        },
        _ => None,
    }
}

fn trigger_limit_to_json(t: &TriggerLimit) -> (r: JsonValue)
    ensures
        r@ == enc_trigger_limit(*t),
{
    let mut fields: Vec<(String, JsonValue)> = Vec::new();
    fields.push((String::from_str("enabled"), JsonValue::Bool(t.enabled)));
    fields.push((String::from_str("threshold"), JsonValue::UInt(t.threshold)));
    proof {
        lemma_fields_model(fields@);
        assert(fields_model(fields@) =~= seq![
            ("enabled"@, Json::Bool(t.enabled)),
            ("threshold"@, Json::UInt(t.threshold)),
        ]);
    }
    JsonValue::Obj(fields)
}

fn trigger_limit_from_json(j: &JsonValue) -> (r: Option<TriggerLimit>)
    ensures
        r == dec_trigger_limit(j@),
{
    match j {
        JsonValue::Obj(fields) => {
            proof {
                lemma_fields_model(fields@);
            }
            if fields.len() == 2 && key_at(fields, 0, "enabled") && key_at(fields, 1, "threshold") {
                let e = json_as_bool(&fields[0].1);
                let t = json_as_u64(&fields[1].1);
                match (e, t) {
                    (Some(e), Some(t)) => Some(TriggerLimit { enabled: e, threshold: t }),
                    _ => None,
                }
            } else {
                None
            }
        },
        _ => None,
    }
}

/// The canonical document shape of a [`CostMilestone`].
pub open spec fn enc_cost_milestone(c: CostMilestone) -> Json {
    Json::Obj(seq![("enabled"@, Json::Bool(c.enabled)), ("amount"@, Json::UInt(c.amount))])
}

/// The decoding of a [`CostMilestone`] document value.
pub open spec fn dec_cost_milestone(j: Json) -> Option<CostMilestone> {
    match j {
        Json::Obj(fs) => {
            if fs.len() == 2 && fs[0].0 == "enabled"@ && fs[1].0 == "amount"@ {
                match (dec_bool(fs[0].1), dec_u64(fs[1].1)) {
                    (Some(e), Some(a)) => Some(CostMilestone { enabled: e, amount: a }),
                    _ => None,
                }
            } else {
                None
            }
        },
        _ => None,
    }
}

fn cost_milestone_to_json(c: &CostMilestone) -> (r: JsonValue)
    ensures
        r@ == enc_cost_milestone(*c),
{
    let mut fields: Vec<(String, JsonValue)> = Vec::new();
    fields.push((String::from_str("enabled"), JsonValue::Bool(c.enabled)));
    fields.push((String::from_str("amount"), JsonValue::UInt(c.amount)));
    proof {
        lemma_fields_model(fields@);
        assert(fields_model(fields@) =~= seq![
            ("enabled"@, Json::Bool(c.enabled)),
            ("amount"@, Json::UInt(c.amount)),
        ]);
    }
    JsonValue::Obj(fields)
}

fn cost_milestone_from_json(j: &JsonValue) -> (r: Option<CostMilestone>)
    ensures
        r == dec_cost_milestone(j@),
{
    match j {
        JsonValue::Obj(fields) => {
            proof {
                lemma_fields_model(fields@);
            }
            if fields.len() == 2 && key_at(fields, 0, "enabled") && key_at(fields, 1, "amount") {
                let e = json_as_bool(&fields[0].1);
                let a = json_as_u64(&fields[1].1);
                match (e, a) {
                    (Some(e), Some(a)) => Some(CostMilestone { enabled: e, amount: a }),
                    _ => None,
                }
            } else {
                None
            }
        },
        _ => None,
    }
}

/// The canonical document shape of a [`SystemTrayNotificationTriggers`].
pub open spec fn enc_triggers(t: SystemTrayNotificationTriggers) -> Json {
    Json::Obj(
        seq![
            ("newBlock"@, Json::Bool(t.new_block)),
            ("dailyLimit"@, enc_trigger_limit(t.daily_limit)),
            ("monthlyLimit"@, enc_trigger_limit(t.monthly_limit)),
            ("sessionLimit"@, enc_trigger_limit(t.session_limit)),
            ("costMilestone"@, enc_cost_milestone(t.cost_milestone)),
        ],
    )
}

/// The decoding of a [`SystemTrayNotificationTriggers`] document value.
pub open spec fn dec_triggers(j: Json) -> Option<SystemTrayNotificationTriggers> {
    match j {
        Json::Obj(fs) => {
            if fs.len() == 5 && fs[0].0 == "newBlock"@ && fs[1].0 == "dailyLimit"@ && fs[2].0
                == "monthlyLimit"@ && fs[3].0 == "sessionLimit"@ && fs[4].0 == "costMilestone"@ {
                match (dec_bool(fs[0].1),
                dec_trigger_limit(fs[1].1),
                dec_trigger_limit(fs[2].1),
                dec_trigger_limit(fs[3].1),
                dec_cost_milestone(fs[4].1)) {
                    (Some(n), Some(d), Some(m), Some(s), Some(c)) => Some(
                        SystemTrayNotificationTriggers {
                            new_block: n,
                            daily_limit: d,
                            monthly_limit: m,
                            session_limit: s,
                            cost_milestone: c,
                        },
                    ),
                    _ => None,
                }
            } else {
                None
            }
        },
        _ => None,
    }
}

fn triggers_to_json(t: &SystemTrayNotificationTriggers) -> (r: JsonValue)
    ensures
        r@ == enc_triggers(*t),
{
    let mut fields: Vec<(String, JsonValue)> = Vec::new();
    fields.push((String::from_str("newBlock"), JsonValue::Bool(t.new_block)));
    fields.push((String::from_str("dailyLimit"), trigger_limit_to_json(&t.daily_limit)));
    fields.push((String::from_str("monthlyLimit"), trigger_limit_to_json(&t.monthly_limit)));
    fields.push((String::from_str("sessionLimit"), trigger_limit_to_json(&t.session_limit)));
    fields.push((String::from_str("costMilestone"), cost_milestone_to_json(&t.cost_milestone)));
    proof {
        lemma_fields_model(fields@);
        assert(fields_model(fields@) =~= seq![
            ("newBlock"@, Json::Bool(t.new_block)),
            ("dailyLimit"@, enc_trigger_limit(t.daily_limit)),
            ("monthlyLimit"@, enc_trigger_limit(t.monthly_limit)),
            ("sessionLimit"@, enc_trigger_limit(t.session_limit)),
            ("costMilestone"@, enc_cost_milestone(t.cost_milestone)),
        ]);
    }
    JsonValue::Obj(fields)
}

fn triggers_from_json(j: &JsonValue) -> (r: Option<SystemTrayNotificationTriggers>)
    ensures
        r == dec_triggers(j@),
{
    match j {
        JsonValue::Obj(fields) => {
            proof {
                lemma_fields_model(fields@);
            }
            if fields.len() == 5 && key_at(fields, 0, "newBlock") && key_at(fields, 1, "dailyLimit")
                && key_at(fields, 2, "monthlyLimit") && key_at(fields, 3, "sessionLimit") && key_at(
                fields,
                4,
                "costMilestone",
            ) {
                let n = json_as_bool(&fields[0].1);
                let d = trigger_limit_from_json(&fields[1].1);
                let m = trigger_limit_from_json(&fields[2].1);
                let s = trigger_limit_from_json(&fields[3].1);
                let c = cost_milestone_from_json(&fields[4].1);
                match (n, d, m, s, c) {
                    (Some(n), Some(d), Some(m), Some(s), Some(c)) => Some(
                        SystemTrayNotificationTriggers {
                            new_block: n,
                            daily_limit: d,
                            monthly_limit: m,
                            session_limit: s,
                            cost_milestone: c,
                        },
                    ),
                    _ => None,
                }
            } else {
                None
            }
        },
        _ => None,
    }
}

proof fn lemma_triggers_round_trip(t: SystemTrayNotificationTriggers)
    ensures
        dec_triggers(enc_triggers(t)) == Some(t),
{
}

// ---------------------------------------------------------------------------
// Tray behavior
// ---------------------------------------------------------------------------
/// The canonical document shape of a [`SystemTrayBehavior`].
pub open spec fn enc_behavior(m: BehaviorModel) -> Json {
    Json::Obj(
        seq![
            ("clickAction"@, Json::Str(m.click_action)),
            ("rightClickShowsMenu"@, Json::Bool(m.right_click_shows_menu)),
            ("showOnlyWhenActive"@, Json::Bool(m.show_only_when_active)),
            ("inactivityTimeout"@, Json::UInt(m.inactivity_timeout as u64)),
            ("startMinimized"@, Json::Bool(m.start_minimized)),
        ],
    )
}

/// The decoding of a [`SystemTrayBehavior`] document value.
pub open spec fn dec_behavior(j: Json) -> Option<BehaviorModel> {
    match j {
        Json::Obj(fs) => {
            if fs.len() == 5 && fs[0].0 == "clickAction"@ && fs[1].0 == "rightClickShowsMenu"@
                && fs[2].0 == "showOnlyWhenActive"@ && fs[3].0 == "inactivityTimeout"@ && fs[4].0
                == "startMinimized"@ {
                match (dec_str(fs[0].1),
                dec_bool(fs[1].1),
                dec_bool(fs[2].1),
                dec_u32(fs[3].1),
                dec_bool(fs[4].1)) {
                    (Some(a), Some(r), Some(s), Some(t), Some(m)) => Some(
                        BehaviorModel {
                            click_action: a,
                            right_click_shows_menu: r,
                            show_only_when_active: s,
                            inactivity_timeout: t,
                            start_minimized: m,
                        },
                    ),
                    _ => None,
                }
            } else {
                None
            }
        },
        _ => None,
    }
}

fn behavior_to_json(v: &SystemTrayBehavior) -> (r: JsonValue)
    ensures
        r@ == enc_behavior(v@),
{
    let mut fields: Vec<(String, JsonValue)> = Vec::new();
    fields.push((String::from_str("clickAction"), JsonValue::Str(v.click_action.clone())));
    fields.push(
        (String::from_str("rightClickShowsMenu"), JsonValue::Bool(v.right_click_shows_menu)),
    );
    fields.push(
        (String::from_str("showOnlyWhenActive"), JsonValue::Bool(v.show_only_when_active)),
    );
    fields.push(
        (String::from_str("inactivityTimeout"), JsonValue::UInt(v.inactivity_timeout as u64)),
    );
    fields.push((String::from_str("startMinimized"), JsonValue::Bool(v.start_minimized)));
    proof {
        lemma_fields_model(fields@);
        assert(fields_model(fields@) =~= seq![
            ("clickAction"@, Json::Str(v.click_action@)),
            ("rightClickShowsMenu"@, Json::Bool(v.right_click_shows_menu)),
            ("showOnlyWhenActive"@, Json::Bool(v.show_only_when_active)),
            ("inactivityTimeout"@, Json::UInt(v.inactivity_timeout as u64)),
            ("startMinimized"@, Json::Bool(v.start_minimized)),
        ]);
    }
    JsonValue::Obj(fields)
}

fn behavior_from_json(j: &JsonValue) -> (r: Option<SystemTrayBehavior>)
    ensures
        match dec_behavior(j@) {
            Some(m) => r matches Some(v) && v@ == m,
            None => r is None,
        },
{
    match j {
        JsonValue::Obj(fields) => {
            proof {
                lemma_fields_model(fields@);
            }
            if fields.len() == 5 && key_at(fields, 0, "clickAction") && key_at(
                fields,
                1,
                "rightClickShowsMenu",
            ) && key_at(fields, 2, "showOnlyWhenActive") && key_at(fields, 3, "inactivityTimeout")
                && key_at(fields, 4, "startMinimized") {
                let a = json_as_string(&fields[0].1);
                let r = json_as_bool(&fields[1].1);
                let s = json_as_bool(&fields[2].1);
                let t = json_as_u32(&fields[3].1);
                let m = json_as_bool(&fields[4].1);
                match (a, r, s, t, m) {
                    (Some(a), Some(r), Some(s), Some(t), Some(m)) => Some(
                        SystemTrayBehavior {
                            click_action: a,
                            right_click_shows_menu: r,
                            show_only_when_active: s,
                            inactivity_timeout: t,
                            start_minimized: m,
                        },
                    ),
                    _ => None,
                }
            } else {
                None
            }
        },
        _ => None,
    }
}

proof fn lemma_behavior_round_trip(m: BehaviorModel)
    ensures
        dec_behavior(enc_behavior(m)) == Some(m),
{
    assert(dec_behavior(enc_behavior(m)).unwrap() =~= m);
}

// ---------------------------------------------------------------------------
// Tray visual style
// ---------------------------------------------------------------------------
/// The canonical document shape of a [`SystemTrayVisual`]: the custom
/// tooltip format is left out when absent.
pub open spec fn enc_visual(m: VisualModel) -> Json {
    Json::Obj(
        seq![
            ("iconStyle"@, Json::Str(m.icon_style)),
            ("showTooltip"@, Json::Bool(m.show_tooltip)),
            ("tooltipContent"@, Json::Str(m.tooltip_content)),
        ] + match m.custom_tooltip_format {
            Some(f) => seq![("customTooltipFormat"@, Json::Str(f))],
            None => Seq::empty(),
        },
    )
}

/// The decoding of a [`SystemTrayVisual`] document value.
pub open spec fn dec_visual(j: Json) -> Option<VisualModel> {
    match j {
        Json::Obj(fs) => {
            if (fs.len() == 3 || fs.len() == 4) && fs[0].0 == "iconStyle"@ && fs[1].0
                == "showTooltip"@ && fs[2].0 == "tooltipContent"@ {
                let tail = if fs.len() == 4 {
                    if fs[3].0 == "customTooltipFormat"@ {
                        match dec_str(fs[3].1) {
                            Some(f) => Some(Some(f)),
                            None => None,
                        }
                    } else {
                        None
                    }
                } else {
                    Some(None)
                };
                match (dec_str(fs[0].1), dec_bool(fs[1].1), dec_str(fs[2].1), tail) {
                    (Some(i), Some(s), Some(t), Some(c)) => Some(
                        VisualModel {
                            icon_style: i,
                            show_tooltip: s,
                            tooltip_content: t,
                            custom_tooltip_format: c,
                        },
                    ),
                    _ => None,
                }
            } else {
                None
            }
        },
        _ => None,
    }
}

fn visual_to_json(v: &SystemTrayVisual) -> (r: JsonValue)
    ensures
        r@ == enc_visual(v@),
{
    let mut fields: Vec<(String, JsonValue)> = Vec::new();
    fields.push((String::from_str("iconStyle"), JsonValue::Str(v.icon_style.clone())));
    fields.push((String::from_str("showTooltip"), JsonValue::Bool(v.show_tooltip)));
    fields.push((String::from_str("tooltipContent"), JsonValue::Str(v.tooltip_content.clone())));
    match &v.custom_tooltip_format {
        Some(f) => {
            fields.push((String::from_str("customTooltipFormat"), JsonValue::Str(f.clone())));
            proof {
                lemma_fields_model(fields@);
                assert(fields_model(fields@) =~= seq![
                    ("iconStyle"@, Json::Str(v.icon_style@)),
                    ("showTooltip"@, Json::Bool(v.show_tooltip)),
                    ("tooltipContent"@, Json::Str(v.tooltip_content@)),
                    ("customTooltipFormat"@, Json::Str(f@)),
                ]);
                assert(fields_model(fields@) =~= seq![
                    ("iconStyle"@, Json::Str(v@.icon_style)),
                    ("showTooltip"@, Json::Bool(v@.show_tooltip)),
                    ("tooltipContent"@, Json::Str(v@.tooltip_content)),
                ] + match v@.custom_tooltip_format {
                    Some(f2) => seq![("customTooltipFormat"@, Json::Str(f2))],
                    None => Seq::empty(),
                });
            }
        },
        None => {
            proof {
                lemma_fields_model(fields@);
                assert(fields_model(fields@) =~= seq![
                    ("iconStyle"@, Json::Str(v@.icon_style)),
                    ("showTooltip"@, Json::Bool(v@.show_tooltip)),
                    ("tooltipContent"@, Json::Str(v@.tooltip_content)),
                ] + match v@.custom_tooltip_format {
                    Some(f2) => seq![("customTooltipFormat"@, Json::Str(f2))],
                    None => Seq::empty(),
                });
            }
        },
    }
    JsonValue::Obj(fields)
}

fn visual_from_json(j: &JsonValue) -> (r: Option<SystemTrayVisual>)
    ensures
        match dec_visual(j@) {
            Some(m) => r matches Some(v) && v@ == m,
            None => r is None,
        },
{
    match j {
        JsonValue::Obj(fields) => {
            proof {
                lemma_fields_model(fields@);
            }
            if (fields.len() == 3 || fields.len() == 4) && key_at(fields, 0, "iconStyle") && key_at(
                fields,
                1,
                "showTooltip",
            ) && key_at(fields, 2, "tooltipContent") {
                let tail: Option<Option<String>> = if fields.len() == 4 {
                    if key_at(fields, 3, "customTooltipFormat") {
                        match json_as_string(&fields[3].1) {
                            Some(f) => Some(Some(f)),
                            None => None,
                        }
                    } else {
                        None
                    }
                } else {
                    Some(None)
                };
                let i = json_as_string(&fields[0].1);
                let s = json_as_bool(&fields[1].1);
                let t = json_as_string(&fields[2].1);
                match (i, s, t, tail) {
                    (Some(i), Some(s), Some(t), Some(c)) => Some(
                        SystemTrayVisual {
                            icon_style: i,
                            show_tooltip: s,
                            tooltip_content: t,
                            custom_tooltip_format: c,
                        },
                    ),
                    _ => None,
                }
            } else {
                None
            }
        },
        _ => None,
    }
}

proof fn lemma_visual_round_trip(m: VisualModel)
    ensures
        dec_visual(enc_visual(m)) == Some(m),
{
    match m.custom_tooltip_format {
        Some(f) => {
            assert(dec_visual(enc_visual(m)).unwrap() =~= m);
        },
        None => {
            assert(dec_visual(enc_visual(m)).unwrap() =~= m);
        },
    }
}

// ---------------------------------------------------------------------------
// Tray notifications
// ---------------------------------------------------------------------------
/// The canonical document shape of a [`SystemTrayNotifications`].
pub open spec fn enc_notifications(m: NotificationsModel) -> Json {
    Json::Obj(
        seq![
            ("enabled"@, Json::Bool(m.enabled)),
            ("triggers"@, enc_triggers(m.triggers)),
            ("style"@, Json::Str(m.style)),
            ("sound"@, Json::Bool(m.sound)),
        ],
    )
}

/// The decoding of a [`SystemTrayNotifications`] document value.
pub open spec fn dec_notifications(j: Json) -> Option<NotificationsModel> {
    match j {
        Json::Obj(fs) => {
            if fs.len() == 4 && fs[0].0 == "enabled"@ && fs[1].0 == "triggers"@ && fs[2].0
                == "style"@ && fs[3].0 == "sound"@ {
                match (dec_bool(fs[0].1), dec_triggers(fs[1].1), dec_str(fs[2].1), dec_bool(
                    fs[3].1,
                )) {
                    (Some(e), Some(t), Some(s), Some(o)) => Some(
                        NotificationsModel { enabled: e, triggers: t, style: s, sound: o },
                    ),
                    _ => None,
                }
            } else {
                None
            }
        },
        _ => None,
    }
}

fn notifications_to_json(v: &SystemTrayNotifications) -> (r: JsonValue)
    ensures
        r@ == enc_notifications(v@),
{
    let mut fields: Vec<(String, JsonValue)> = Vec::new();
    fields.push((String::from_str("enabled"), JsonValue::Bool(v.enabled)));
    fields.push((String::from_str("triggers"), triggers_to_json(&v.triggers)));
    fields.push((String::from_str("style"), JsonValue::Str(v.style.clone())));
    fields.push((String::from_str("sound"), JsonValue::Bool(v.sound)));
    proof {
        lemma_fields_model(fields@);
        assert(fields_model(fields@) =~= seq![
            ("enabled"@, Json::Bool(v.enabled)),
            ("triggers"@, enc_triggers(v.triggers)),
            ("style"@, Json::Str(v.style@)),
            ("sound"@, Json::Bool(v.sound)),
        ]);
    }
    JsonValue::Obj(fields)
}

fn notifications_from_json(j: &JsonValue) -> (r: Option<SystemTrayNotifications>)
    ensures
        match dec_notifications(j@) {
            Some(m) => r matches Some(v) && v@ == m,
            None => r is None,
        },
{
    match j {
        JsonValue::Obj(fields) => {
            proof {
                lemma_fields_model(fields@);
            }
            if fields.len() == 4 && key_at(fields, 0, "enabled") && key_at(fields, 1, "triggers")
                && key_at(fields, 2, "style") && key_at(fields, 3, "sound") {
                let e = json_as_bool(&fields[0].1);
                let t = triggers_from_json(&fields[1].1);
                let s = json_as_string(&fields[2].1);
                let o = json_as_bool(&fields[3].1);
                match (e, t, s, o) {
                    (Some(e), Some(t), Some(s), Some(o)) => Some(
                        SystemTrayNotifications { enabled: e, triggers: t, style: s, sound: o },
                    ),
                    _ => None,
                }
            } else {
                None
            }
        },
        _ => None,
    }
}

proof fn lemma_notifications_round_trip(m: NotificationsModel)
    ensures
        dec_notifications(enc_notifications(m)) == Some(m),
{
    lemma_triggers_round_trip(m.triggers);
    assert(dec_notifications(enc_notifications(m)).unwrap() =~= m);
}

// ---------------------------------------------------------------------------
// Tray display
// ---------------------------------------------------------------------------
/// The canonical document shape of a [`SystemTrayDisplay`]: the custom
/// format is left out when absent.
pub open spec fn enc_display(m: DisplayModel) -> Json {
    Json::Obj(
        seq![("mode"@, Json::Str(m.mode)), ("showItems"@, enc_show_items(m.show_items))] + (
        match m.custom_format {
            Some(f) => seq![("customFormat"@, Json::Str(f))],
            None => Seq::empty(),
        }) + seq![
            ("numberFormat"@, enc_number_format(m.number_format)),
            ("updateInterval"@, Json::UInt(m.update_interval as u64)),
        ],
    )
}

/// The decoding of a [`SystemTrayDisplay`] document value.
pub open spec fn dec_display(j: Json) -> Option<DisplayModel> {
    match j {
        Json::Obj(fs) => {
            if (fs.len() == 4 || fs.len() == 5) && fs[0].0 == "mode"@ && fs[1].0 == "showItems"@ {
                let cf: Option<Option<Seq<char>>> = if fs.len() == 5 {
                    if fs[2].0 == "customFormat"@ {
                        match dec_str(fs[2].1) {
                            Some(f) => Some(Some(f)),
                            None => None,
                        }
                    } else {
                        None
                    }
                } else {
                    Some(None)
                };
                let base: int = if fs.len() == 5 {
                    3
                } else {
                    2
                };
                if fs[base].0 == "numberFormat"@ && fs[base + 1].0 == "updateInterval"@ {
                    match (dec_str(fs[0].1),
                    dec_show_items(fs[1].1),
                    cf,
                    dec_number_format(fs[base].1),
                    dec_u32(fs[base + 1].1)) {
                        (Some(mo), Some(si), Some(c), Some(nf), Some(ui)) => Some(
                            DisplayModel {
                                mode: mo,
                                show_items: si,
                                custom_format: c,
                                number_format: nf,
                                update_interval: ui,
                            },
                        ),
                        _ => None,
                    }
                } else {
                    None
                }
            } else {
                None
            }
        },
        _ => None,
    }
}

fn display_to_json(v: &SystemTrayDisplay) -> (r: JsonValue)
    ensures
        r@ == enc_display(v@),
{
    let mut fields: Vec<(String, JsonValue)> = Vec::new();
    fields.push((String::from_str("mode"), JsonValue::Str(v.mode.clone())));
    fields.push((String::from_str("showItems"), show_items_to_json(&v.show_items)));
    match &v.custom_format {
        Some(f) => {
            fields.push((String::from_str("customFormat"), JsonValue::Str(f.clone())));
        },
        None => {},
    }
    fields.push((String::from_str("numberFormat"), number_format_to_json(&v.number_format)));
    fields.push((String::from_str("updateInterval"), JsonValue::UInt(v.update_interval as u64)));
    proof {
        lemma_fields_model(fields@);
        let head = seq![
            ("mode"@, Json::Str(v@.mode)),
            ("showItems"@, enc_show_items(v@.show_items)),
        ];
        let mid = match v@.custom_format {
            Some(f) => seq![("customFormat"@, Json::Str(f))],
            None => Seq::empty(),
        };
        let tail = seq![
            ("numberFormat"@, enc_number_format(v@.number_format)),
            ("updateInterval"@, Json::UInt(v@.update_interval as u64)),
        ];
        assert(fields_model(fields@) =~= head + mid + tail);
    }
    JsonValue::Obj(fields)
}

fn display_from_json(j: &JsonValue) -> (r: Option<SystemTrayDisplay>)
    ensures
        match dec_display(j@) {
            Some(m) => r matches Some(v) && v@ == m,
            None => r is None,
        },
{
    match j {
        JsonValue::Obj(fields) => {
            proof {
                lemma_fields_model(fields@);
            }
            if (fields.len() == 4 || fields.len() == 5) && key_at(fields, 0, "mode") && key_at(
                fields,
                1,
                "showItems",
            ) {
                let cf: Option<Option<String>> = if fields.len() == 5 {
                    if key_at(fields, 2, "customFormat") {
                        match json_as_string(&fields[2].1) {
                            Some(f) => Some(Some(f)),
                            None => None,
                        }
                    } else {
                        None
                    }
                } else {
                    Some(None)
                };
                let base: usize = if fields.len() == 5 {
                    3
                } else {
                    2
                };
                if key_at(fields, base, "numberFormat") && key_at(fields, base + 1, "updateInterval")
                {
                    let mo = json_as_string(&fields[0].1);
                    let si = show_items_from_json(&fields[1].1);
                    let nf = number_format_from_json(&fields[base].1);
                    let ui = json_as_u32(&fields[base + 1].1);
                    match (mo, si, cf, nf, ui) {
                        (Some(mo), Some(si), Some(c), Some(nf), Some(ui)) => Some(
                            SystemTrayDisplay {
                                mode: mo,
                                show_items: si,
                                custom_format: c,
                                number_format: nf,
                                update_interval: ui,
                            },
                        ),
                        _ => None,
                    }
                } else {
                    None
                }
            } else {
                None
            }
        },
        _ => None,
    }
}

proof fn lemma_display_round_trip(m: DisplayModel)
    ensures
        dec_display(enc_display(m)) == Some(m),
{
    lemma_show_items_round_trip(m.show_items);
    lemma_number_format_round_trip(m.number_format);
    match m.custom_format {
        Some(f) => {
            assert(dec_display(enc_display(m)).unwrap() =~= m);
        },
        None => {
            assert(dec_display(enc_display(m)).unwrap() =~= m);
        },
    }
}

// ---------------------------------------------------------------------------
// Custom data directories
// ---------------------------------------------------------------------------
/// The canonical document shape of the custom-directory list.
pub open spec fn enc_str_arr(ds: Seq<Seq<char>>) -> Seq<Json>
    decreases ds,
{
    if ds.len() == 0 {
        Seq::empty()
    } else {
        seq![Json::Str(ds[0])] + enc_str_arr(ds.drop_first())
    }
}

/// The decoding of a list of strings; any non-string element rejects the
/// whole list.
pub open spec fn dec_str_arr(items: Seq<Json>) -> Option<Seq<Seq<char>>>
    decreases items,
{
    if items.len() == 0 {
        Some(Seq::empty())
    } else {
        match (dec_str(items[0]), dec_str_arr(items.drop_first())) {
            (Some(s), Some(rest)) => Some(seq![s] + rest),
            _ => None,
        }
    }
}

proof fn lemma_str_arr_round_trip(ds: Seq<Seq<char>>)
    ensures
        dec_str_arr(enc_str_arr(ds)) == Some(ds),
    decreases ds,
{
    if ds.len() == 0 {
        assert(dec_str_arr(enc_str_arr(ds)).unwrap() =~= ds);
    } else {
        lemma_str_arr_round_trip(ds.drop_first());
        assert(enc_str_arr(ds).drop_first() =~= enc_str_arr(ds.drop_first()));
        assert(dec_str_arr(enc_str_arr(ds)).unwrap() =~= ds);
    }
}

fn dirs_to_json(v: &Vec<String>) -> (r: JsonValue)
    ensures
        r@ == Json::Arr(enc_str_arr(v.deep_view())),
{
    let ghost dv = v.deep_view();
    let mut items: Vec<JsonValue> = Vec::new();
    let mut i: usize = 0;
    proof {
        assert(dv.subrange(0, dv.len() as int) =~= dv);
        assert(items_model(items@) + enc_str_arr(dv) =~= enc_str_arr(dv));
    }
    while i < v.len()
        invariant
            0 <= i <= v@.len(),
            dv == v.deep_view(),
            dv.len() == v@.len(),
            enc_str_arr(dv) =~= items_model(items@) + enc_str_arr(
                dv.subrange(i as int, dv.len() as int),
            ),
        decreases v@.len() - i,
    {
        let ghost rest = dv.subrange(i as int, dv.len() as int);
        let ghost prev = items@;
        items.push(JsonValue::Str(v[i].clone()));
        proof {
            lemma_items_model(prev);
            lemma_items_model(items@);
            assert(items_model(items@) =~= items_model(prev).push(Json::Str(dv[i as int])));
            assert(rest.drop_first() =~= dv.subrange(i as int + 1, dv.len() as int));
            assert(items_model(prev).push(Json::Str(dv[i as int])) + enc_str_arr(rest.drop_first())
                =~= items_model(prev) + (seq![Json::Str(rest[0])] + enc_str_arr(
                rest.drop_first(),
            )));
        }
        i = i + 1;
    }
    proof {
        assert(dv.subrange(dv.len() as int, dv.len() as int) =~= Seq::<Seq<char>>::empty());
        assert(items_model(items@) =~= enc_str_arr(dv));
    }
    JsonValue::Arr(items)
}

proof fn lemma_dec_str_arr_elementwise(items: Seq<Json>)
    ensures
        match dec_str_arr(items) {
            Some(ss) => ss.len() == items.len() && forall|j: int|
                0 <= j < items.len() ==> dec_str(#[trigger] items[j]) == Some(ss[j]),
            None => exists|k: int| 0 <= k < items.len() && dec_str(#[trigger] items[k]) is None,
        },
    decreases items,
{
    if items.len() > 0 {
        let rest = items.drop_first();
        lemma_dec_str_arr_elementwise(rest);
        match (dec_str(items[0]), dec_str_arr(rest)) {
            (Some(s), Some(rs)) => {
                let ss = seq![s] + rs;
                assert forall|j: int| 0 <= j < items.len() implies dec_str(#[trigger] items[j])
                    == Some(ss[j]) by {
                    if j > 0 {
                        assert(items[j] == rest[j - 1]);
                        assert(ss[j] == rs[j - 1]);
                    }
                }
            },
            _ => {
                if dec_str(items[0]) is Some {
                    let k = choose|k: int| 0 <= k < rest.len() && dec_str(#[trigger] rest[k]) is None;
                    assert(items[k + 1] == rest[k]);
                    assert(dec_str(items[k + 1]) is None);
                }
            },
        }
    }
}

/// Sequences that decode elementwise decode as a whole.
proof fn lemma_dec_str_arr_total(items: Seq<Json>, ss: Seq<Seq<char>>)
    requires
        ss.len() == items.len(),
        forall|j: int| 0 <= j < items.len() ==> dec_str(#[trigger] items[j]) == Some(ss[j]),
    ensures
        dec_str_arr(items) == Some(ss),
    decreases items,
{
    if items.len() == 0 {
        assert(dec_str_arr(items).unwrap() =~= ss);
    } else {
        lemma_dec_str_arr_total(items.drop_first(), ss.drop_first());
        assert(dec_str_arr(items).unwrap() =~= ss);
    }
}

fn dirs_from_json(items: &Vec<JsonValue>) -> (r: Option<Vec<String>>)
    ensures
        match dec_str_arr(items_model(items@)) {
            Some(ss) => r matches Some(v) && v.deep_view() == ss,
            None => r is None,
        },
{
    let ghost ims = items_model(items@);
    proof {
        lemma_items_model(items@);
    }
    let mut out: Vec<String> = Vec::new();
    let mut i: usize = 0;
    while i < items.len()
        invariant
            0 <= i <= items@.len(),
            ims == items_model(items@),
            ims.len() == items@.len(),
            forall|j: int| 0 <= j < ims.len() ==> ims[j] == json_model(items@[j]),
            out.deep_view().len() == i,
            forall|j: int| 0 <= j < i ==> dec_str(#[trigger] ims[j]) == Some(out.deep_view()[j]),
        decreases items@.len() - i,
    {
        let ghost prev = out.deep_view();
        match json_as_string(&items[i]) {
            Some(s) => {
                out.push(s);
                proof {
                    assert(out.deep_view() =~= prev.push(s@));
                }
            },
            None => {
                proof {
                    lemma_dec_str_arr_elementwise(ims);
                    if dec_str_arr(ims) is Some {
                        assert(dec_str(ims[i as int]) is Some);
                    }
                }
                return None;
            },
        }
        i = i + 1;
    }
    proof {
        lemma_dec_str_arr_total(ims, out.deep_view());
    }
    Some(out)
}

// ---------------------------------------------------------------------------
// The structured tray block
// ---------------------------------------------------------------------------
/// The canonical document shape of a [`SystemTraySettings`].
pub open spec fn enc_tray(m: TrayModel) -> Json {
    Json::Obj(
        seq![
            ("enabled"@, Json::Bool(m.enabled)),
            ("display"@, enc_display(m.display)),
            ("behavior"@, enc_behavior(m.behavior)),
            ("visual"@, enc_visual(m.visual)),
            ("notifications"@, enc_notifications(m.notifications)),
        ],
    )
}

/// The decoding of a [`SystemTraySettings`] document value.
pub open spec fn dec_tray(j: Json) -> Option<TrayModel> {
    match j {
        Json::Obj(fs) => {
            if fs.len() == 5 && fs[0].0 == "enabled"@ && fs[1].0 == "display"@ && fs[2].0
                == "behavior"@ && fs[3].0 == "visual"@ && fs[4].0 == "notifications"@ {
                match (dec_bool(fs[0].1),
                dec_display(fs[1].1),
                dec_behavior(fs[2].1),
                dec_visual(fs[3].1),
                dec_notifications(fs[4].1)) {
                    (Some(e), Some(d), Some(b), Some(v), Some(n)) => Some(
                        TrayModel {
                            enabled: e,
                            display: d,
                            behavior: b,
                            visual: v,
                            notifications: n,
                        },
                    ),
                    _ => None,
                }
            } else {
                None
            }
        },
        _ => None,
    }
}

fn tray_to_json(v: &SystemTraySettings) -> (r: JsonValue)
    ensures
        r@ == enc_tray(v@),
{
    let mut fields: Vec<(String, JsonValue)> = Vec::new();
    fields.push((String::from_str("enabled"), JsonValue::Bool(v.enabled)));
    fields.push((String::from_str("display"), display_to_json(&v.display)));
    fields.push((String::from_str("behavior"), behavior_to_json(&v.behavior)));
    fields.push((String::from_str("visual"), visual_to_json(&v.visual)));
    fields.push((String::from_str("notifications"), notifications_to_json(&v.notifications)));
    proof {
        lemma_fields_model(fields@);
        assert(fields_model(fields@) =~= seq![
            ("enabled"@, Json::Bool(v@.enabled)),
            ("display"@, enc_display(v@.display)),
            ("behavior"@, enc_behavior(v@.behavior)),
            ("visual"@, enc_visual(v@.visual)),
            ("notifications"@, enc_notifications(v@.notifications)),
        ]);
    }
    JsonValue::Obj(fields)
}

fn tray_from_json(j: &JsonValue) -> (r: Option<SystemTraySettings>)
    ensures
        match dec_tray(j@) {
            Some(m) => r matches Some(v) && v@ == m,
            None => r is None,
        },
{
    match j {
        JsonValue::Obj(fields) => {
            proof {
                lemma_fields_model(fields@);
            }
            if fields.len() == 5 && key_at(fields, 0, "enabled") && key_at(fields, 1, "display")
                && key_at(fields, 2, "behavior") && key_at(fields, 3, "visual") && key_at(
                fields,
                4,
                "notifications",
            ) {
                let e = json_as_bool(&fields[0].1);
                let d = display_from_json(&fields[1].1);
                let b = behavior_from_json(&fields[2].1);
                let v = visual_from_json(&fields[3].1);
                let n = notifications_from_json(&fields[4].1);
                match (e, d, b, v, n) {
                    (Some(e), Some(d), Some(b), Some(v), Some(n)) => Some(
                        SystemTraySettings {
                            enabled: e,
                            display: d,
                            behavior: b,
                            visual: v,
                            notifications: n,
                        },
                    ),
                    _ => None,
                }
            } else {
                None
            }
        },
        _ => None,
    }
}

proof fn lemma_tray_round_trip(m: TrayModel)
    ensures
        dec_tray(enc_tray(m)) == Some(m),
{
    lemma_display_round_trip(m.display);
    lemma_behavior_round_trip(m.behavior);
    lemma_visual_round_trip(m.visual);
    lemma_notifications_round_trip(m.notifications);
    assert(dec_tray(enc_tray(m)).unwrap() =~= m);
}

// ---------------------------------------------------------------------------
// The whole settings object
// ---------------------------------------------------------------------------
/// The canonical document shape of an [`AppSettings`]: every field under
/// its document key in schema order, the structured tray block left out
/// when absent.
pub open spec fn enc_settings(m: SettingsModel) -> Json {
    Json::Obj(
        seq![
            ("theme"@, Json::Str(m.theme)),
            ("customDataDirectories"@, Json::Arr(enc_str_arr(m.custom_data_directories))),
            ("notificationLimits"@, enc_limits(m.notification_limits)),
            ("costMode"@, Json::Str(m.cost_mode)),
            ("autoRefresh"@, Json::Bool(m.auto_refresh)),
            ("refreshInterval"@, Json::UInt(m.refresh_interval as u64)),
            ("showInSystemTray"@, Json::Bool(m.show_in_system_tray)),
        ] + (match m.system_tray {
            Some(t) => seq![("systemTray"@, enc_tray(t))],
            None => Seq::empty(),
        }) + seq![
            ("launchAtStartup"@, Json::Bool(m.launch_at_startup)),
            ("defaultExportFormat"@, Json::Str(m.default_export_format)),
            ("compactMode"@, Json::Bool(m.compact_mode)),
        ],
    )
}

/// The decoding of a persisted settings value: the canonical shape,
/// including the older shapes without the tray block or without the
/// compact-mode flag; everything else is rejected.
pub open spec fn dec_settings(j: Json) -> Option<SettingsModel> {
    match j {
        Json::Obj(fs) => {
            if fs.len() >= 7 && fs[0].0 == "theme"@ && fs[1].0 == "customDataDirectories"@
                && fs[2].0 == "notificationLimits"@ && fs[3].0 == "costMode"@ && fs[4].0
                == "autoRefresh"@ && fs[5].0 == "refreshInterval"@ && fs[6].0
                == "showInSystemTray"@ {
                let has_tray = fs.len() >= 8 && fs[7].0 == "systemTray"@;
                let base: int = if has_tray {
                    8
                } else {
                    7
                };
                let tray: Option<Option<TrayModel>> = if has_tray {
                    match dec_tray(fs[7].1) {
                        Some(t) => Some(Some(t)),
                        None => None,
                    }
                } else {
                    Some(None)
                };
                if (fs.len() == base + 2 || fs.len() == base + 3) && fs[base].0
                    == "launchAtStartup"@ && fs[base + 1].0 == "defaultExportFormat"@ {
                    let compact: Option<bool> = if fs.len() == base + 3 {
                        if fs[base + 2].0 == "compactMode"@ {
                            dec_bool(fs[base + 2].1)
                        } else {
                            None
                        }
                    } else {
                        Some(false)
                    };
                    let dirs: Option<Seq<Seq<char>>> = match fs[1].1 {
                        Json::Arr(items) => dec_str_arr(items),
                        _ => None,
                    };
                    match (dec_str(fs[0].1),
                    dirs,
                    dec_limits(fs[2].1),
                    dec_str(fs[3].1),
                    dec_bool(fs[4].1),
                    dec_u32(fs[5].1),
                    dec_bool(fs[6].1),
                    tray,
                    dec_bool(fs[base].1),
                    dec_str(fs[base + 1].1),
                    compact) {
                        (
                            Some(th),
                            Some(cd),
                            Some(nl),
                            Some(cm),
                            Some(ar),
                            Some(ri),
                            Some(st),
                            Some(tr),
                            Some(la),
                            Some(de),
                            Some(co),
                        ) => Some(
                            SettingsModel {
                                theme: th,
                                custom_data_directories: cd,
                                notification_limits: nl,
                                cost_mode: cm,
                                auto_refresh: ar,
                                refresh_interval: ri,
                                show_in_system_tray: st,
                                system_tray: tr,
                                launch_at_startup: la,
                                default_export_format: de,
                                compact_mode: co,
                            },
                        ),
                        _ => None,
                    }
                } else {
                    None
                }
            } else {
                None
            }
        },
        _ => None,
    }
}

impl AppSettings {
    /// The canonical persisted shape of this settings object.
    pub fn to_json(&self) -> (r: JsonValue)
        ensures
            r@ == enc_settings(self@),
    {
        let mut fields: Vec<(String, JsonValue)> = Vec::new();
        fields.push((String::from_str("theme"), JsonValue::Str(self.theme.clone())));
        fields.push(
            (
                String::from_str("customDataDirectories"),
                dirs_to_json(&self.custom_data_directories),
            ),
        );
        fields.push(
            (String::from_str("notificationLimits"), limits_to_json(&self.notification_limits)),
        );
        fields.push((String::from_str("costMode"), JsonValue::Str(self.cost_mode.clone())));
        fields.push((String::from_str("autoRefresh"), JsonValue::Bool(self.auto_refresh)));
        fields.push(
            (String::from_str("refreshInterval"), JsonValue::UInt(self.refresh_interval as u64)),
        );
        fields.push(
            (String::from_str("showInSystemTray"), JsonValue::Bool(self.show_in_system_tray)),
        );
        match &self.system_tray {
            Some(t) => {
                fields.push((String::from_str("systemTray"), tray_to_json(t)));
            },
            None => {},
        }
        fields.push((String::from_str("launchAtStartup"), JsonValue::Bool(self.launch_at_startup)));
        fields.push(
            (
                String::from_str("defaultExportFormat"),
                JsonValue::Str(self.default_export_format.clone()),
            ),
        );
        fields.push((String::from_str("compactMode"), JsonValue::Bool(self.compact_mode)));
        proof {
            lemma_fields_model(fields@);
            let head = seq![
                ("theme"@, Json::Str(self@.theme)),
                (
                    "customDataDirectories"@,
                    Json::Arr(enc_str_arr(self@.custom_data_directories)),
                ),
                ("notificationLimits"@, enc_limits(self@.notification_limits)),
                ("costMode"@, Json::Str(self@.cost_mode)),
                ("autoRefresh"@, Json::Bool(self@.auto_refresh)),
                ("refreshInterval"@, Json::UInt(self@.refresh_interval as u64)),
                ("showInSystemTray"@, Json::Bool(self@.show_in_system_tray)),
            ];
            let mid = match self@.system_tray {
                Some(t) => seq![("systemTray"@, enc_tray(t))],
                None => Seq::empty(),
            };
            let tail = seq![
                ("launchAtStartup"@, Json::Bool(self@.launch_at_startup)),
                ("defaultExportFormat"@, Json::Str(self@.default_export_format)),
                ("compactMode"@, Json::Bool(self@.compact_mode)),
            ];
            assert(fields_model(fields@) =~= head + mid + tail);
        }
        JsonValue::Obj(fields)
    }

    /// Decodes a persisted settings value; a value that does not match the
    /// schema yields nothing, and the loader then falls back to the
    /// default object.
    pub fn from_json(j: &JsonValue) -> (r: Option<AppSettings>)
        ensures
            match dec_settings(j@) {
                Some(m) => r matches Some(s) && s@ == m,
                None => r is None,
            },
    {
        match j {
            JsonValue::Obj(fields) => {
                proof {
                    lemma_fields_model(fields@);
                }
                if fields.len() >= 7 && key_at(fields, 0, "theme") && key_at(
                    fields,
                    1,
                    "customDataDirectories",
                ) && key_at(fields, 2, "notificationLimits") && key_at(fields, 3, "costMode")
                    && key_at(fields, 4, "autoRefresh") && key_at(fields, 5, "refreshInterval")
                    && key_at(fields, 6, "showInSystemTray") {
                    let has_tray = fields.len() >= 8 && key_at(fields, 7, "systemTray");
                    let base: usize = if has_tray {
                        8
                    } else {
                        7
                    };
                    let tray: Option<Option<SystemTraySettings>> = if has_tray {
                        match tray_from_json(&fields[7].1) {
                            Some(t) => Some(Some(t)),
                            None => None,
                        }
                    } else {
                        Some(None)
                    };
                    if (fields.len() == base + 2 || fields.len() == base + 3) && key_at(
                        fields,
                        base,
                        "launchAtStartup",
                    ) && key_at(fields, base + 1, "defaultExportFormat") {
                        let compact: Option<bool> = if fields.len() == base + 3 {
                            if key_at(fields, base + 2, "compactMode") {
                                json_as_bool(&fields[base + 2].1)
                            } else {
                                None
                            }
                        } else {
                            Some(false)
                        };
                        let dirs: Option<Vec<String>> = match &fields[1].1 {
                            JsonValue::Arr(items) => dirs_from_json(items),
                            _ => None,
                        };
                        let th = json_as_string(&fields[0].1);
                        let nl = limits_from_json(&fields[2].1);
                        let cm = json_as_string(&fields[3].1);
                        let ar = json_as_bool(&fields[4].1);
                        let ri = json_as_u32(&fields[5].1);
                        let st = json_as_bool(&fields[6].1);
                        let la = json_as_bool(&fields[base].1);
                        let de = json_as_string(&fields[base + 1].1);
                        match (th, dirs, nl, cm, ar, ri, st, tray, la, de, compact) {
                            (
                                Some(th),
                                Some(cd),
                                Some(nl),
                                Some(cm),
                                Some(ar),
                                Some(ri),
                                Some(st),
                                Some(tr),
                                Some(la),
                                Some(de),
                                Some(co),
                            ) => {
                                let s = AppSettings {
                                    theme: th,
                                    custom_data_directories: cd,
                                    notification_limits: nl,
                                    cost_mode: cm,
                                    auto_refresh: ar,
                                    refresh_interval: ri,
                                    show_in_system_tray: st,
                                    system_tray: tr,
                                    launch_at_startup: la,
                                    default_export_format: de,
                                    compact_mode: co,
                                };
                                proof {
                                    assert(s@ =~= dec_settings(j@).unwrap());
                                }
                                Some(s)
                            },
                            _ => None,
                        }
                    } else {
                        None
                    }
                } else {
                    None
                }
            },
            _ => None,
        }
    }
}

/// Saving and loading invert each other: decoding the canonical shape of
/// any settings object, the optional tray block present or absent, yields
/// exactly that object.
pub proof fn lemma_settings_round_trip(m: SettingsModel)
    ensures
        dec_settings(enc_settings(m)) == Some(m),
{
    reveal_strlit("systemTray");
    reveal_strlit("launchAtStartup");
    lemma_limits_round_trip(m.notification_limits);
    lemma_str_arr_round_trip(m.custom_data_directories);
    match m.system_tray {
        Some(t) => {
            lemma_tray_round_trip(t);
            assert(dec_settings(enc_settings(m)).unwrap() =~= m);
        },
        None => {
            assert("launchAtStartup"@.len() != "systemTray"@.len());
            assert(dec_settings(enc_settings(m)).unwrap() =~= m);
        },
    }
}

// ---------------------------------------------------------------------------
// Persistence
// ---------------------------------------------------------------------------
/// The settings object that loading from a store document yields: the
/// decoded persisted value, or the compiled-in default object when the
/// value is absent or does not match the schema.
pub open spec fn loaded_settings(doc: Seq<(Seq<char>, Json)>) -> SettingsModel {
    match store_get(doc, "settings"@) {
        Some(j) => match dec_settings(j) {
            Some(m) => m,
            None => default_model(),
        },
        None => default_model(),
    }
}

impl AppSettings {
    /// Loads the settings object from the store document, falling back to
    /// the default object when the persisted value is absent or invalid.
    /// Loading never fails observably.
    pub fn from_store(store: &SettingsStore) -> (s: AppSettings)
        ensures
            s@ == loaded_settings(store@),
    {
        match store.get("settings") {
            Some(j) => match AppSettings::from_json(j) {
                Some(s) => s,
                None => AppSettings::default(),
            },
            None => AppSettings::default(),
        }
    }

    /// Persists this whole settings object as the single value under the
    /// `"settings"` key, replacing whatever the document held there. The
    /// object itself is unaffected. Writing the document to durable
    /// storage is the host's business and may still fail there.
    pub fn save_to_store(&self, store: &mut SettingsStore) -> (r: Result<(), String>)
        ensures
            final(store)@ == store_set(old(store)@, "settings"@, enc_settings(self@)),
            r is Ok,
    {
        let value = self.to_json();
        store.set("settings", value);
        Ok(())
    }
}

/// Saving then loading returns the saved object: for every valid settings
/// object, the tray block present or absent, and whatever the document
/// held before, a save followed by a load yields exactly the object that
/// was saved.
pub proof fn lemma_save_then_load(doc: Seq<(Seq<char>, Json)>, m: SettingsModel)
    ensures
        loaded_settings(store_set(doc, "settings"@, enc_settings(m))) == m,
{
    lemma_store_set_get(doc, "settings"@, enc_settings(m));
    lemma_settings_round_trip(m);
}

/// A corrupted or schema-mismatched persisted value, like an absent one,
/// loads as exactly the compiled-in default object.
pub proof fn lemma_invalid_value_loads_default(doc: Seq<(Seq<char>, Json)>)
    requires
        match store_get(doc, "settings"@) {
            Some(j) => dec_settings(j) is None,
            None => true,
        },
    ensures
        loaded_settings(doc) == default_model(),
{
}

} // verus!
