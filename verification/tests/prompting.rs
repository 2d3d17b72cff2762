use lettuce_core::chat::calendar_context::{
    calendar_awareness_enabled, calendar_lookahead_days, contains_prompt_placeholder, easter_date,
    format_chinese_date, prompt_data, render_prompt_variables, upcoming_events, CalendarEvent,
    CalendarPromptData,
};
use lettuce_core::chat::civil_date::{in_lunar_range, lunar_window_ok, CivilDate};
use lettuce_core::chat::response_length::{
    limit_for_settings, render_rules, resolve_from_layers, resolve_limit,
};
use lettuce_core::chat::speech_expression::{parse, remove_protocol, SPEECH_EXPRESSION_ENTRY_ID};
use lettuce_core::chat::types::{AdvancedModelSettings, Model, Session, Settings, SystemPromptEntry};
use lettuce_core::json::{Json, JsonNumber};
use lettuce_core::reasoning::ReasoningMode;

fn advanced(preset: Option<&str>, chars: Option<u32>) -> AdvancedModelSettings {
    AdvancedModelSettings {
        response_length_preset: preset.map(str::to_string),
        response_length_chars: chars,
        ..AdvancedModelSettings::default()
    }
}

fn date(year: i32, month: u32, day: u32) -> CivilDate {
    CivilDate { year, month, day }
}

fn has_event(events: &[CalendarEvent], id: &str, date: &str) -> bool {
    events.iter().any(|event| event.id == id && event.date == date)
}

fn session_with_preferences(members: Vec<(&str, Json)>) -> Session {
    let prefs = Json::Object(members.into_iter().map(|(k, v)| (k.to_string(), v)).collect());
    Session {
        advanced_model_settings: None,
        companion_state: Some(Json::Object(vec![("preferences".to_string(), prefs)])),
    }
}

#[test]
fn explicit_mode_precedes_legacy_boolean() {
    assert_eq!(
        ReasoningMode::from_settings(Some("provider-default"), Some(true)),
        Some(ReasoningMode::ProviderDefault)
    );
    assert_eq!(
        ReasoningMode::from_settings(None, Some(false)),
        Some(ReasoningMode::Disabled)
    );
}

#[test]
fn reasoning_mode_names_read_back() {
    for mode in [
        ReasoningMode::ProviderDefault,
        ReasoningMode::Disabled,
        ReasoningMode::Auto,
        ReasoningMode::Enabled,
    ] {
        assert_eq!(ReasoningMode::parse(mode.as_str()), Some(mode));
    }
    assert_eq!(ReasoningMode::parse("sometimes"), None);
    assert_eq!(ReasoningMode::from_settings(None, None), None);
    assert_eq!(ReasoningMode::from_settings(Some("bogus"), Some(true)), Some(ReasoningMode::Enabled));
}

#[test]
fn resolves_first_explicit_layer() {
    let session = advanced(Some("auto"), None);
    let model = advanced(Some("long"), None);
    assert_eq!(resolve_from_layers(&[Some(&session), Some(&model)]), None);
}

#[test]
fn missing_field_inherits_from_next_layer() {
    let session = advanced(None, None);
    let model = advanced(Some("medium"), None);
    assert_eq!(resolve_from_layers(&[Some(&session), Some(&model)]), Some(150));
}

#[test]
fn custom_value_is_clamped() {
    assert_eq!(limit_for_settings(&advanced(Some("custom"), Some(10))), Some(20));
    assert_eq!(limit_for_settings(&advanced(Some("custom"), Some(3000))), Some(2000));
}

#[test]
fn response_rules_come_from_the_global_layer_last() {
    let session = Session { advanced_model_settings: None, companion_state: None };
    let model = Model {
        name: "m".to_string(),
        advanced_model_settings: Some(advanced(None, Some(500))),
        input_scopes: vec![],
        output_scopes: vec![],
    };
    let settings = Settings { advanced_model_settings: advanced(Some("short"), None) };
    assert_eq!(resolve_limit(&session, &model, &settings), Some(80));
    assert_eq!(render_rules(&session, &model, &settings), "请将本轮回复控制在 80 个汉字以内。");
    let unset = Settings { advanced_model_settings: advanced(None, None) };
    assert_eq!(render_rules(&session, &model, &unset), "");
    assert_eq!(limit_for_settings(&advanced(Some("custom"), None)), Some(80));
    assert_eq!(limit_for_settings(&advanced(Some("huge"), None)), None);
}

#[test]
fn extracts_voice_expression_without_leaking_tag() {
    let parsed = parse(
        "怎么，现在才知道听话呀？\n<voice_exp>请用成熟慵懒、略带戏谑的御姐音，语速稍慢。</voice_exp>",
    );
    assert_eq!(parsed.content, "怎么，现在才知道听话呀？");
    assert_eq!(
        parsed.context_text.as_deref(),
        Some("请用成熟慵懒、略带戏谑的御姐音，语速稍慢。")
    );
}

#[test]
fn preserves_other_output_protocols() {
    let parsed = parse("正文<voice_exp>请用四川话，语气轻快。</voice_exp><img>scene prompt</img>");
    assert_eq!(parsed.content, "正文<img>scene prompt</img>");
}

#[test]
fn removes_unclosed_protocol_tail() {
    let parsed = parse("正文<voice_exp>请用悲伤的语气");
    assert_eq!(parsed.content, "正文");
    assert!(parsed.context_text.is_none());
}

#[test]
fn last_non_blank_voice_block_wins_and_whitespace_collapses() {
    let parsed = parse("  a <voice_exp>  soft \n  voice </voice_exp> b <voice_exp>   </voice_exp>  ");
    assert_eq!(parsed.content, "a  b");
    assert_eq!(parsed.context_text.as_deref(), Some("soft voice"));
    let plain = parse("  nothing to strip ");
    assert_eq!(plain.content, "nothing to strip");
    assert!(plain.context_text.is_none());
}

#[test]
fn remove_protocol_drops_only_the_protocol_entry() {
    let entry = |id: &str| SystemPromptEntry {
        id: id.to_string(),
        name: id.to_string(),
        content: String::new(),
    };
    let kept = remove_protocol(vec![entry("a"), entry(SPEECH_EXPRESSION_ENTRY_ID), entry("b")]);
    let ids: Vec<&str> = kept.iter().map(|e| e.id.as_str()).collect();
    assert_eq!(ids, vec!["a", "b"]);
}

#[test]
fn includes_lunar_festivals_with_gregorian_dates() {
    let events = upcoming_events(date(2026, 2, 15), 5);
    assert!(has_event(&events, "traditional.newYearsEve", "2026-02-16"));
    assert!(has_event(&events, "traditional.springFestival", "2026-02-17"));
    let spring_festival = events
        .iter()
        .find(|event| event.id == "traditional.springFestival")
        .unwrap();
    assert_eq!(spring_festival.weekday, 2);
    assert_eq!(format_chinese_date(spring_festival.date_value), "2026年2月17日 星期二");
}

#[test]
fn includes_exact_solar_terms_in_window() {
    let events = upcoming_events(date(2026, 8, 12), 30);
    assert!(has_event(&events, "solarTerm.endOfHeat", "2026-08-23"));
    assert!(has_event(&events, "solarTerm.whiteDew", "2026-09-07"));
}

#[test]
fn calculates_gregorian_easter() {
    assert_eq!(easter_date(2026), Some(date(2026, 4, 5)));
    assert_eq!(easter_date(2025), Some(date(2025, 4, 20)));
}

#[test]
fn excludes_the_day_after_the_requested_window() {
    let events = upcoming_events(date(2026, 8, 24), 14);
    assert!(!has_event(&events, "solarTerm.whiteDew", "2026-09-07"));
}

#[test]
fn renders_editable_calendar_prompt_variables() {
    let data = CalendarPromptData {
        current_date: "2026年8月12日 星期三".to_string(),
        lookahead_days: 30,
        events: "- 2026年8月23日 星期日：处暑（节气，11天后）".to_string(),
    };
    let template = "日期：{{calendar_date}}\n范围：{{calendar_lookahead_days}}天\n{{calendar_events}}";

    assert_eq!(
        render_prompt_variables(template, Some(&data)),
        "日期：2026年8月12日 星期三\n范围：30天\n- 2026年8月23日 星期日：处暑（节气，11天后）"
    );
    assert_eq!(
        data.render_default_context(),
        "# 日历上下文\n当前日期：2026年8月12日 星期三\n未来30天的节日或节气信息：\n- 2026年8月23日 星期日：处暑（节气，11天后）\n\n这些日期用于建立时间与季节背景，不代表用户一定庆祝。仅在日期临近、当天到来或当前话题自然相关时使用，不要主动反复提及。"
    );
}

#[test]
fn rendering_without_data_clears_placeholders() {
    assert_eq!(render_prompt_variables("a{{calendar_date}}b{{calendar_events}}c", None), "abc");
    assert!(contains_prompt_placeholder("x {{calendar_lookahead_days}} y"));
    assert!(!contains_prompt_placeholder("{{calendar}}"));
}

#[test]
fn western_holidays_and_easter_are_listed() {
    let events = upcoming_events(date(2026, 12, 23), 3);
    assert!(has_event(&events, "western.christmasEve", "2026-12-24"));
    assert!(has_event(&events, "western.christmas", "2026-12-25"));
    let easter = upcoming_events(date(2026, 4, 5), 1);
    assert!(has_event(&easter, "western.easter", "2026-04-05"));
    assert_eq!(easter_date(1583), Some(date(1583, 4, 10)));
}

#[test]
fn calendar_preferences_read_camel_then_snake_case() {
    let off = session_with_preferences(vec![("calendar_awareness_enabled", Json::Bool(false))]);
    assert!(!calendar_awareness_enabled(&off));
    let default = Session { advanced_model_settings: None, companion_state: None };
    assert!(calendar_awareness_enabled(&default));
    assert_eq!(calendar_lookahead_days(&default), 30);
    let long = session_with_preferences(vec![
        ("calendarLookaheadDays", Json::Number(JsonNumber::PosInt(400))),
        ("calendar_lookahead_days", Json::Number(JsonNumber::PosInt(5))),
    ]);
    assert_eq!(calendar_lookahead_days(&long), 90);
    let zero = session_with_preferences(vec![("calendar_lookahead_days", Json::Number(JsonNumber::PosInt(0)))]);
    assert_eq!(calendar_lookahead_days(&zero), 1);
}

#[test]
fn prompt_data_lists_enabled_events_only() {
    let session = session_with_preferences(vec![
        ("calendarLookaheadDays", Json::Number(JsonNumber::PosInt(14))),
        (
            "calendarDisabledEventIds",
            Json::Array(vec![Json::Str("solarTerm.whiteDew".to_string())]),
        ),
    ]);
    let data = prompt_data(&session, date(2026, 8, 12)).unwrap();
    assert_eq!(data.current_date, "2026年8月12日 星期三");
    assert_eq!(data.lookahead_days, 14);
    assert_eq!(data.events, "- 2026年8月19日 星期三：七夕（中国传统节日，7天后）\n- 2026年8月23日 星期日：处暑（节气，11天后）");

    let quiet = session_with_preferences(vec![
        ("calendarLookaheadDays", Json::Number(JsonNumber::PosInt(1))),
    ]);
    assert!(prompt_data(&quiet, date(2026, 8, 13)).is_none());
    let off = session_with_preferences(vec![("calendarAwarenessEnabled", Json::Bool(false))]);
    assert!(prompt_data(&off, date(2026, 8, 12)).is_none());
}

#[test]
fn chinese_date_of_a_negative_year() {
    assert_eq!(format_chinese_date(date(-1, 1, 1)), "-1年1月1日 星期五");
    assert_eq!(format_chinese_date(date(0, 1, 1)), "0年1月1日 星期六");
}

#[test]
fn lunar_window_covers_each_day_looked_up() {
    assert!(lunar_window_ok(date(2026, 2, 15), 5));
    assert!(lunar_window_ok(date(1582, 10, 15), 90));
    assert!(!lunar_window_ok(date(1582, 10, 1), 10));
    assert!(lunar_window_ok(date(1582, 9, 30), 4));
    assert!(!lunar_window_ok(date(1582, 9, 30), 5));
    assert!(lunar_window_ok(date(9998, 12, 25), 6));
    assert!(!lunar_window_ok(date(9998, 12, 25), 7));
    assert!(!lunar_window_ok(date(1, 12, 31), 1));
    assert!(lunar_window_ok(date(1, 12, 31), 0));
    assert!(upcoming_events(date(1, 12, 31), 0).is_empty());
    assert!(in_lunar_range(date(2, 1, 1)));
    assert!(!in_lunar_range(date(1582, 10, 14)));
}

#[test]
fn window_may_start_in_the_reform_year() {
    let events = upcoming_events(date(1582, 11, 1), 3);
    assert!(events.iter().all(|event| event.date_value.year == 1582));
}
