use std::str::FromStr;

use indexmap::IndexMap;
use sparko_embedded_std::color::Rgb8;
use sparko_embedded_std::config::{ConfigSpec, ConfigSpecValue, EnabledState, TypedValue};
use sparko_embedded_std::config_manager::{ConfigManager, FeatureEntry, PAGE_CLOSE};
use sparko_embedded_std::feature::{InnerFeatureConfig, SettingAction};
use sparko_embedded_std::problem::ProblemManager;
use sparko_embedded_std::tz::TimeZone;

fn spec(entries: Vec<(&str, TypedValue, bool)>) -> ConfigSpec {
    let mut b = ConfigSpec::builder();
    for (name, value, required) in entries {
        b.insert(name.to_string(), ConfigSpecValue::new(value, required)).unwrap();
    }
    b.build()
}

fn toggle(name: &str, checked: &str, feature_name: &str) -> String {
    format!(
        r#"
                        <label for="{name}">{name}</label>
                        <input id="{name}" name="{name}" type="checkbox"{checked}>
                        <h2>{feature_name}</h2>
            "#
    )
}

fn other(name: &str, input_type: &str, value: &str) -> String {
    format!(
        r#"
                        <!-- Other field {name}-->
                        <label for="{name}">{name}</label>
                        <input id="{name}" name="{name}" type="{input_type}" autocomplete="off" value="{value}">
            "#
    )
}

fn bool_field(name: &str, checked: &str) -> String {
    format!(
        r#"
                                <label for="{name}">{name}</label>
                                <input id="{name}" name="{name}" type="checkbox" value="true" {checked}>
                    "#
    )
}

#[test]
fn page_of_an_enabled_feature() {
    let inner = InnerFeatureConfig {
        enabled: EnabledState::Enabled,
        config: spec(vec![
            ("HOST", TypedValue::String(64, Some("example.org".to_string())), true),
            ("PORT", TypedValue::Int32(Some(8080)), false),
            ("DEBUG", TypedValue::Bool(Some(true)), false),
            ("QUIET", TypedValue::Bool(None), false),
            ("COLOR", TypedValue::Color(Some(Rgb8 { r: 255, g: 0, b: 16 })), false),
        ]),
    };
    let mut expected = toggle("feature_Net", " checked", "Net");
    expected += &other("HOST", "text\" maxlength=\"64", "example.org");
    expected += &other("PORT", "number", "8080");
    expected += &bool_field("DEBUG", " checked");
    expected += &bool_field("QUIET", "");
    expected += &other("COLOR", "color", "#ff0010");
    assert_eq!(inner.create_config_page("Net"), expected);
}

#[test]
fn page_of_a_required_feature_has_no_switch() {
    let inner = InnerFeatureConfig { enabled: EnabledState::Required, config: spec(vec![]) };
    assert_eq!(inner.create_config_page("core"), "");
    let inner = InnerFeatureConfig { enabled: EnabledState::Disabled, config: spec(vec![]) };
    assert_eq!(inner.create_config_page("x"), toggle("feature_x", "", "x"));
}

#[test]
fn time_zone_setting_lists_every_zone() {
    let inner = InnerFeatureConfig {
        enabled: EnabledState::Required,
        config: spec(vec![("TZ", TypedValue::TimeZone(Some(TimeZone::AsiaTokyo)), true)]),
    };
    let name = "TZ";
    let mut expected = format!(
        r#"
                                <!-- Timezone field {name}-->
                        <label for="{name}">{name}</label>
                        <select id="{name}" name="{name}">"#
    );
    for tz in TimeZone::iter() {
        let selected_attr = if tz == TimeZone::AsiaTokyo { " selected" } else { "" };
        expected += &format!(r#"<option value="{}"{}>{}</option>"#, tz.to_str(), selected_attr, tz.to_str());
    }
    expected += "</select>";
    assert_eq!(inner.create_config_page("core"), expected);
}

#[test]
fn cron_setting_shows_its_description() {
    let cron = TypedValue::Cron(None).from_str("0 0 * * * *").ok().unwrap();
    let inner = InnerFeatureConfig {
        enabled: EnabledState::Required,
        config: spec(vec![("SCHEDULE", cron, true), ("LATER", TypedValue::Cron(None), false)]),
    };
    let page = inner.create_config_page("core");
    assert!(page.contains(r#"<!-- Cron field SCHEDULE-->"#));
    assert!(page.contains(r#"<input id="SCHEDULE" name="SCHEDULE" type="text" value="0 0 * * * *">"#));
    assert!(page.contains(r#"<input id="LATER" name="LATER" type="text" value="">
                                <input type="text" value="None" disabled>"#));
    let description = croner::Cron::from_str("0 0 * * * *").unwrap().describe();
    assert!(page.contains(&format!(r#"<input type="text" value="{}" disabled>"#, description)));
}

#[test]
fn form_changes_switch_and_settings() {
    let inner = InnerFeatureConfig {
        enabled: EnabledState::Disabled,
        config: spec(vec![
            ("HOST", TypedValue::String(64, Some("old".to_string())), true),
            ("PORT", TypedValue::Int32(None), false),
            ("NAME", TypedValue::String(8, Some("x".to_string())), false),
        ]),
    };
    let mut form: IndexMap<String, String> = IndexMap::new();
    form.insert("feature_Net".to_string(), " on ".to_string());
    form.insert("HOST".to_string(), "  new.example  ".to_string());
    form.insert("NAME".to_string(), "   ".to_string());
    let plan = inner.handle_config_form("Net", &form);
    assert_eq!(plan.enabled, Some(EnabledState::Enabled));
    assert_eq!(plan.settings.len(), 3);
    assert!(matches!(&plan.settings[0], SettingAction::Save(s) if s == "new.example"));
    assert!(matches!(&plan.settings[1], SettingAction::Keep));
    assert!(matches!(&plan.settings[2], SettingAction::Remove));
}

#[test]
fn form_leaves_unchanged_switch_and_required_features_alone() {
    let inner = InnerFeatureConfig { enabled: EnabledState::Disabled, config: spec(vec![]) };
    let form: IndexMap<String, String> = IndexMap::new();
    assert_eq!(inner.handle_config_form("Net", &form).enabled, None);
    let inner = InnerFeatureConfig { enabled: EnabledState::Enabled, config: spec(vec![]) };
    assert_eq!(inner.handle_config_form("Net", &form).enabled, Some(EnabledState::Disabled));
    let inner = InnerFeatureConfig { enabled: EnabledState::Required, config: spec(vec![]) };
    assert_eq!(inner.handle_config_form("Net", &form).enabled, None);
}

#[test]
fn feature_validity() {
    let missing = || spec(vec![("HOST", TypedValue::String(64, None), true)]);
    assert!(!InnerFeatureConfig { enabled: EnabledState::Enabled, config: missing() }.is_valid());
    assert!(!InnerFeatureConfig { enabled: EnabledState::Required, config: missing() }.is_valid());
    assert!(InnerFeatureConfig { enabled: EnabledState::Disabled, config: missing() }.is_valid());
}

#[test]
fn settings_page_lists_problems_and_features() {
    let manager = ConfigManager {
        features: vec![
            FeatureEntry {
                name: "core".to_string(),
                config: InnerFeatureConfig { enabled: EnabledState::Required, config: spec(vec![]) },
            },
            FeatureEntry {
                name: "Net".to_string(),
                config: InnerFeatureConfig {
                    enabled: EnabledState::Enabled,
                    config: spec(vec![("HOST", TypedValue::String(64, None), true)]),
                },
            },
        ],
    };
    let mut problems = ProblemManager::new();
    problems.set(None, "no wifi".to_string());
    let page = manager.show_config_page(&problems);
    let mut expected = String::from(
        r#"
                <!DOCTYPE html>
                <html lang="en">
                <head>
                    <meta charset="utf-8" />
                    <meta name="viewport" content="width=device-width, initial-scale=1" />
                    <title>ESP32 Setup</title>
                    <link rel="stylesheet" href="/main.css">
                </head>
                <body>
                    <div class="page">"#,
    );
    expected += r#"
                    <div style="background: #ffdddd; border: 1px solid #ff5c5c; padding: 10px; margin-bottom: 18px; border-radius: 8px;">
                        <strong>Error:</strong> <ul>
                "#;
    expected += "<li>no wifi</li>\n";
    expected += r#"
                    </ul>
                    </div>
                "#;
    expected += r#"
                        <h1>ESP32 Setup</h1>
                        <form method="POST" action="/update_config">"#;
    expected += &toggle("feature_Net", " checked", "Net");
    expected += &other("HOST", "text\" maxlength=\"64", "");
    expected += r#"<button type="submit">Save</button>
                        </form>
                "#;
    assert_eq!(page, expected);
    assert!(!manager.is_valid());
    assert!(PAGE_CLOSE.contains("</html>"));

    let quiet = ProblemManager::new();
    assert!(!manager.show_config_page(&quiet).contains("Error:"));
}

#[test]
fn form_is_handled_feature_by_feature() {
    let manager = ConfigManager {
        features: vec![FeatureEntry {
            name: "Net".to_string(),
            config: InnerFeatureConfig {
                enabled: EnabledState::Enabled,
                config: spec(vec![("HOST", TypedValue::String(64, None), true)]),
            },
        }],
    };
    let mut form: IndexMap<String, String> = IndexMap::new();
    form.insert("feature_Net".to_string(), "on".to_string());
    form.insert("HOST".to_string(), "h".to_string());
    let plans = manager.handle_config_form(&form);
    assert_eq!(plans.len(), 1);
    assert_eq!(plans[0].enabled, None);
    assert!(matches!(&plans[0].settings[0], SettingAction::Save(s) if s == "h"));
}

#[test]
fn feature_config_copies_state_and_settings() {
    let inner = InnerFeatureConfig {
        enabled: EnabledState::Disabled,
        config: spec(vec![
            ("HOST", TypedValue::String(64, Some("example.org".to_string())), true),
            ("PORT", TypedValue::Int32(Some(8080)), false),
        ]),
    };
    let config = inner.to_config();
    assert_eq!(config.enabled, EnabledState::Disabled);
    assert_eq!(config.spec.len(), 2);
    assert_eq!(config.get_valid("HOST").unwrap(), "example.org");
    assert_eq!(config.get_valid("PORT").unwrap(), "8080");
    let (first, _) = config.spec.entry_at(0).unwrap();
    assert_eq!(first, "HOST");
    assert!(config.spec.entry_at(2).is_none());
}

#[test]
fn adding_a_feature_gives_its_config_and_validity() {
    let mut manager = ConfigManager::new();
    let (config, valid) = manager.add_feature(FeatureEntry {
        name: "net".to_string(),
        config: InnerFeatureConfig {
            enabled: EnabledState::Enabled,
            config: spec(vec![("HOST", TypedValue::String(64, None), true)]),
        },
    });
    assert!(!valid);
    assert_eq!(config.enabled, EnabledState::Enabled);
    assert_eq!(config.get_valid("HOST").unwrap(), "");
    assert_eq!(manager.features.len(), 1);

    let (config, valid) = manager.add_feature(FeatureEntry {
        name: "clock".to_string(),
        config: InnerFeatureConfig { enabled: EnabledState::Required, config: spec(vec![]) },
    });
    assert!(valid);
    assert_eq!(config.enabled, EnabledState::Required);
    assert_eq!(manager.features.len(), 2);

    // A feature of a name already present takes its place.
    let (_, valid) = manager.add_feature(FeatureEntry {
        name: "net".to_string(),
        config: InnerFeatureConfig {
            enabled: EnabledState::Enabled,
            config: spec(vec![("HOST", TypedValue::String(64, Some("h".to_string())), true)]),
        },
    });
    assert!(valid);
    assert_eq!(manager.features.len(), 2);
    assert_eq!(manager.features[0].name, "net");
    assert_eq!(manager.features[1].name, "clock");
    assert!(manager.is_valid());
}
