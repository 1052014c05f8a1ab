use sparko_embedded_std::color::{ColorError, Rgb8};
use sparko_embedded_std::config::{Config, ConfigError, ConfigSpec, ConfigSpecValue, EnabledState, TypedValue};
use sparko_embedded_std::tz::TimeZone;

#[test]
fn unset_values() {
    assert!(TypedValue::String(8, None).is_none());
    assert!(TypedValue::Int32(None).is_none());
    assert!(TypedValue::Cron(None).is_none());
    assert!(TypedValue::Color(None).is_none());
    assert!(!TypedValue::Bool(None).is_none());
    assert!(!TypedValue::TimeZone(None).is_none());
    assert!(!TypedValue::Int64(Some(3)).is_none());
}

#[test]
fn value_texts() {
    assert_eq!(TypedValue::String(8, Some("abc".to_string())).to_string(), "abc");
    assert_eq!(TypedValue::Int32(Some(-7)).to_string(), "-7");
    assert_eq!(TypedValue::Int64(Some(1234567890123)).to_string(), "1234567890123");
    assert_eq!(TypedValue::Bool(Some(true)).to_string(), "true");
    assert_eq!(TypedValue::Bool(None).to_string(), "");
    assert_eq!(TypedValue::TimeZone(Some(TimeZone::AsiaTokyo)).to_string(), "Asia/Tokyo");
    assert_eq!(TypedValue::Color(Some(Rgb8 { r: 0, g: 128, b: 255 })).to_string(), "#0080ff");
    assert_eq!(TypedValue::Int32(None).to_string(), "");
}

#[test]
fn values_read_from_text() {
    assert!(matches!(TypedValue::Int32(None).from_str("12"), Ok(TypedValue::Int32(Some(12)))));
    assert!(matches!(TypedValue::Int32(None).from_str("x"), Err(ConfigError::InvalidInteger)));
    assert!(matches!(TypedValue::Int64(None).from_str("-5"), Ok(TypedValue::Int64(Some(-5)))));
    assert!(matches!(TypedValue::Bool(None).from_str("false"), Ok(TypedValue::Bool(Some(false)))));
    assert!(matches!(TypedValue::Bool(None).from_str("yes"), Err(ConfigError::InvalidBool)));
    assert!(matches!(
        TypedValue::TimeZone(None).from_str("Europe/Paris"),
        Ok(TypedValue::TimeZone(Some(TimeZone::EuropeParis)))
    ));
    assert!(matches!(TypedValue::TimeZone(None).from_str("nowhere"), Ok(TypedValue::TimeZone(None))));
    assert!(matches!(
        TypedValue::Color(None).from_str("#102030"),
        Ok(TypedValue::Color(Some(Rgb8 { r: 16, g: 32, b: 48 })))
    ));
    assert!(matches!(
        TypedValue::Color(None).from_str("#1020"),
        Err(ConfigError::InvalidColor(ColorError::InvalidLength))
    ));
    assert!(matches!(TypedValue::Cron(None).from_str("0 * * * * *"), Ok(TypedValue::Cron(Some(_)))));
    assert!(matches!(TypedValue::Cron(None).from_str("every day"), Err(ConfigError::InvalidCron)));
}

#[test]
fn text_values_respect_their_length() {
    match TypedValue::String(4, None).from_str("abcd") {
        Ok(TypedValue::String(4, Some(s))) => assert_eq!(s, "abcd"),
        _ => panic!("expected text"),
    }
    assert!(matches!(TypedValue::String(4, None).from_str("abcde"), Err(ConfigError::StringTooLong(4))));
    assert!(matches!(TypedValue::String(4, None).from_str("ééé"), Err(ConfigError::StringTooLong(4))));
}

#[test]
fn cron_text_reads_back() {
    let v = TypedValue::Cron(None).from_str("0 */5 * * * *").ok().unwrap();
    assert_eq!(v.to_string(), "0 */5 * * * *");
}

#[test]
fn to_none_keeps_the_kind() {
    assert!(matches!(TypedValue::String(9, Some("x".to_string())).to_none(), TypedValue::String(9, None)));
    assert!(matches!(TypedValue::Bool(Some(true)).to_none(), TypedValue::Bool(None)));
    assert!(matches!(TypedValue::Color(Some(Rgb8 { r: 1, g: 2, b: 3 })).to_none(), TypedValue::Color(None)));
}

#[test]
fn schema_keeps_insertion_order_and_refuses_bad_names() {
    let spec = ConfigSpec::builder()
        .with("B".to_string(), ConfigSpecValue::new(TypedValue::Int32(Some(2)), true))
        .ok()
        .unwrap()
        .with("A".to_string(), ConfigSpecValue::new(TypedValue::Int32(None), false))
        .ok()
        .unwrap()
        .build();
    assert_eq!(spec.len(), 2);
    let (k0, _) = spec.entry_at(0).unwrap();
    let (k1, _) = spec.entry_at(1).unwrap();
    assert_eq!(k0, "B");
    assert_eq!(k1, "A");
    assert!(spec.entry_at(2).is_none());
    assert_eq!(spec.get_valid("B"), Ok("2".to_string()));
    assert_eq!(spec.get_valid("A"), Ok("".to_string()));
    assert_eq!(spec.get_valid("C"), Err(ConfigError::Missing("C".to_string())));
    assert!(spec.is_valid());

    let mut b = ConfigSpec::builder();
    assert_eq!(b.insert("X".to_string(), ConfigSpecValue::new(TypedValue::Bool(None), true)), Ok(()));
    assert_eq!(
        b.insert("X".to_string(), ConfigSpecValue::new(TypedValue::Bool(None), true)),
        Err(ConfigError::DuplicateName("X".to_string()))
    );
    assert_eq!(
        b.insert("SIXTEEN_BYTES_XX".to_string(), ConfigSpecValue::new(TypedValue::Bool(None), true)),
        Err(ConfigError::NameTooLong("SIXTEEN_BYTES_XX".to_string()))
    );
    assert_eq!(
        b.insert("_HIDDEN".to_string(), ConfigSpecValue::new(TypedValue::Bool(None), true)),
        Err(ConfigError::InvalidName("_HIDDEN".to_string()))
    );
    assert_eq!(b.build().len(), 1);
}

#[test]
fn missing_required_value_makes_the_schema_invalid() {
    let spec = ConfigSpec::builder()
        .with("NAME".to_string(), ConfigSpecValue::new(TypedValue::String(8, None), true))
        .ok()
        .unwrap()
        .build();
    assert!(!spec.is_valid());
    let config = Config { enabled: EnabledState::Disabled, spec };
    assert_eq!(config.get_valid("NAME"), Ok("".to_string()));
}

#[test]
fn enabled_states() {
    assert!(EnabledState::Enabled.is_enabled());
    assert!(EnabledState::Required.is_enabled());
    assert!(!EnabledState::Disabled.is_enabled());
    assert_eq!(EnabledState::from(true), EnabledState::Enabled);
    assert_eq!(EnabledState::from(false), EnabledState::Disabled);
}

#[test]
fn every_set_value_reads_back_from_its_text() {
    let values = vec![
        TypedValue::String(16, Some("hello world".to_string())),
        TypedValue::Int32(Some(i32::MIN)),
        TypedValue::Int32(Some(417)),
        TypedValue::Int64(Some(i64::MAX)),
        TypedValue::Bool(Some(false)),
        TypedValue::Bool(Some(true)),
        TypedValue::TimeZone(Some(TimeZone::Utc)),
        TypedValue::TimeZone(Some(TimeZone::AmericaLosAngeles)),
        TypedValue::Color(Some(Rgb8 { r: 7, g: 200, b: 99 })),
    ];
    for v in values {
        let text = v.to_string();
        let back = v.to_none().from_str(&text).ok().unwrap();
        assert_eq!(back.to_string(), text);
        match (&v, &back) {
            (TypedValue::Int32(a), TypedValue::Int32(b)) => assert_eq!(a, b),
            (TypedValue::Int64(a), TypedValue::Int64(b)) => assert_eq!(a, b),
            (TypedValue::Bool(a), TypedValue::Bool(b)) => assert_eq!(a, b),
            (TypedValue::TimeZone(a), TypedValue::TimeZone(b)) => assert_eq!(a, b),
            (TypedValue::Color(a), TypedValue::Color(b)) => assert_eq!(a, b),
            (TypedValue::String(l, a), TypedValue::String(m, b)) => {
                assert_eq!(l, m);
                assert_eq!(a, b);
            }
            _ => panic!("kind changed"),
        }
    }
}

#[test]
fn a_setting_reads_back_after_it_was_added() {
    let mut b = ConfigSpec::builder();
    b.insert("PORT".to_string(), ConfigSpecValue::new(TypedValue::Int32(Some(80)), true)).unwrap();
    b.insert("HOST".to_string(), ConfigSpecValue::new(TypedValue::String(9, Some("h".to_string())), true)).unwrap();
    let spec = b.build();
    assert!(matches!(spec.get("PORT").map(|v| &v.value), Some(TypedValue::Int32(Some(80)))));
    assert!(matches!(spec.get("HOST").map(|v| &v.value), Some(TypedValue::String(9, Some(s))) if s == "h"));
    assert!(spec.get("NONE").is_none());
}

#[test]
fn heapless_texts_fit_their_capacity() {
    let v = TypedValue::String(64, Some("my-network".to_string()));
    assert_eq!(v.to_heapless(32), Ok("my-network".to_string()));
    assert_eq!(v.to_heapless(4), Err(ConfigError::StringTooLong(4)));
    assert_eq!(TypedValue::Int32(Some(12345)).to_heapless(5), Ok("12345".to_string()));
    let spec = ConfigSpec::builder()
        .with("SSID".to_string(), ConfigSpecValue::new(v, true))
        .ok()
        .unwrap()
        .build();
    let config = Config { enabled: EnabledState::Required, spec };
    assert_eq!(config.get_required_as_heapless("SSID", 32), Ok("my-network".to_string()));
    assert_eq!(config.get_required_as_heapless("PASS", 32), Err(ConfigError::Missing("PASS".to_string())));
}

#[test]
fn cloned_values_read_the_same() {
    let values = vec![
        TypedValue::String(16, Some("abc".to_string())),
        TypedValue::Int64(Some(-5)),
        TypedValue::Bool(Some(true)),
        TypedValue::TimeZone(Some(TimeZone::EuropeLondon)),
        TypedValue::Cron(None).from_str("0 */5 * * * *").ok().unwrap(),
        TypedValue::Color(Some(Rgb8 { r: 1, g: 2, b: 3 })),
    ];
    for v in &values {
        assert_eq!(v.clone().to_string(), v.to_string());
    }
    let setting = ConfigSpecValue::new(TypedValue::Int32(Some(7)), true);
    let copy = setting.clone();
    assert!(copy.required);
    assert_eq!(copy.value.to_string(), "7");
}

#[test]
fn duplicated_schema_has_the_same_settings() {
    let mut b = ConfigSpec::builder();
    b.insert("A".to_string(), ConfigSpecValue::new(TypedValue::Int32(Some(1)), true)).unwrap();
    b.insert("B".to_string(), ConfigSpecValue::new(TypedValue::String(4, None), false)).unwrap();
    let spec = b.build();
    let copy = spec.duplicate();
    assert_eq!(copy.len(), 2);
    assert_eq!(copy.entry_at(0).unwrap().0, "A");
    assert_eq!(copy.entry_at(1).unwrap().0, "B");
    assert_eq!(copy.get_valid("A").unwrap(), "1");
    assert!(copy.get("B").unwrap().value.is_none());
}
