use sparko_embedded_std::config::{ConfigError, ConfigSpecValue, TypedValue};
use sparko_embedded_std::config_fields::{
    classify_type, config_schema, field_kind, is_copy, parse_string_len_attr, read_field, schema_value,
    unwrap_option, AttrItem, FieldDecl, FieldError, FieldKind, KnownType, ReadError, SchemaError,
    StringKind, TypeArg, TypeClass, TypePath,
};

fn path(segments: &[&str]) -> TypePath {
    TypePath { segments: segments.iter().map(|s| s.to_string()).collect(), arg: None }
}

fn option_of(inner: TypePath) -> TypePath {
    TypePath { segments: vec!["Option".to_string()], arg: Some(TypeArg::Type(Box::new(inner))) }
}

fn heapless(len: usize) -> TypePath {
    TypePath { segments: vec!["heapless".to_string(), "String".to_string()], arg: Some(TypeArg::Const(len)) }
}

fn field(name: &str, ty: TypePath, attrs: Vec<Vec<AttrItem>>) -> FieldDecl {
    FieldDecl { name: name.to_string(), ty, attrs }
}

#[test]
fn copy_types() {
    assert!(is_copy(KnownType::Int32));
    assert!(is_copy(KnownType::Int64));
    assert!(is_copy(KnownType::Bool));
    assert!(is_copy(KnownType::Color));
    assert!(!is_copy(KnownType::TimeZone));
    assert!(!is_copy(KnownType::Cron));
}

#[test]
fn type_classes() {
    assert_eq!(classify_type(&path(&["i32"])), Ok(TypeClass::Known(KnownType::Int32)));
    assert_eq!(classify_type(&path(&["rgb", "RGB8"])), Ok(TypeClass::Known(KnownType::Color)));
    assert_eq!(classify_type(&path(&["croner", "Cron"])), Ok(TypeClass::Known(KnownType::Cron)));
    assert_eq!(classify_type(&path(&["String"])), Ok(TypeClass::StdStr));
    assert_eq!(classify_type(&heapless(64)), Ok(TypeClass::HeaplessStr(64)));
    assert_eq!(classify_type(&path(&["heapless", "String"])), Err(FieldError::HeaplessWithoutLength));
    assert_eq!(classify_type(&path(&["f32"])), Err(FieldError::UnsupportedType("f32".to_string())));
    assert_eq!(classify_type(&path(&[])), Err(FieldError::UnsupportedShape));
}

#[test]
fn options_unwrap_to_their_inner_type() {
    let t = option_of(path(&["bool"]));
    let inner = unwrap_option(&t).unwrap();
    assert_eq!(inner.segments, vec!["bool".to_string()]);
    assert!(unwrap_option(&path(&["bool"])).is_none());
    assert!(unwrap_option(&path(&["Option"])).is_none());
}

#[test]
fn length_attributes() {
    let f = field("ssid", path(&["String"]), vec![vec![AttrItem::Len(32)]]);
    assert_eq!(parse_string_len_attr(&f), Ok(Some(32)));
    let f = field("ssid", path(&["String"]), vec![]);
    assert_eq!(parse_string_len_attr(&f), Ok(None));
    let f = field("ssid", path(&["String"]), vec![vec![AttrItem::Len(1), AttrItem::Len(2)]]);
    assert_eq!(parse_string_len_attr(&f), Ok(Some(2)));
    let f = field("ssid", path(&["String"]), vec![vec![], vec![AttrItem::Len(5)]]);
    assert_eq!(parse_string_len_attr(&f), Ok(Some(5)));
    let f = field("ssid", path(&["String"]), vec![vec![AttrItem::Len(1), AttrItem::Unknown("max".to_string())]]);
    assert_eq!(parse_string_len_attr(&f), Err(FieldError::UnknownAttribute("max".to_string())));
}

#[test]
fn field_kinds() {
    assert_eq!(
        field_kind(&field("ssid", heapless(32), vec![])),
        Ok(FieldKind::Str { len: 32, kind: StringKind::Heapless, optional: false })
    );
    assert_eq!(
        field_kind(&field("host", path(&["String"]), vec![vec![AttrItem::Len(64)]])),
        Ok(FieldKind::Str { len: 64, kind: StringKind::Std, optional: false })
    );
    assert_eq!(
        field_kind(&field("bg_color", option_of(path(&["RGB8"])), vec![])),
        Ok(FieldKind::Known { kt: KnownType::Color, optional: true })
    );
    assert_eq!(
        field_kind(&field("a_field_name_too_long", path(&["bool"]), vec![])),
        Err(FieldError::NameTooLong("a_field_name_too_long".to_string()))
    );
    assert_eq!(field_kind(&field("host", path(&["String"]), vec![])), Err(FieldError::MissingLength));
    assert_eq!(
        field_kind(&field("ssid", heapless(32), vec![vec![AttrItem::Len(32)]])),
        Err(FieldError::RedundantLength)
    );
    assert_eq!(
        field_kind(&field("on", path(&["bool"]), vec![vec![AttrItem::Len(1)]])),
        Err(FieldError::LengthNotAllowed)
    );
}

#[test]
fn schema_entries_of_fields() {
    let v = schema_value(FieldKind::Str { len: 32, kind: StringKind::Std, optional: false });
    assert!(matches!(v.value, TypedValue::String(32, None)));
    assert!(v.required);
    assert!(v.problem_id.is_none());
    let v = schema_value(FieldKind::Known { kt: KnownType::TimeZone, optional: true });
    assert!(matches!(v.value, TypedValue::TimeZone(None)));
    assert!(!v.required);
}

#[test]
fn config_struct_schema() {
    let fields = vec![
        field("ssid", heapless(32), vec![]),
        field("mdns_hostname", path(&["String"]), vec![vec![AttrItem::Len(32)]]),
        field("time_zone", path(&["TimeZone"]), vec![]),
        field("bg_color", option_of(path(&["RGB8"])), vec![]),
    ];
    let spec = config_schema(&fields).ok().unwrap();
    assert_eq!(spec.len(), 4);
    let (k, v) = spec.entry_at(0).unwrap();
    assert_eq!(k, "SSID");
    assert!(matches!(v.value, TypedValue::String(32, None)));
    assert!(v.required);
    let (k, _) = spec.entry_at(1).unwrap();
    assert_eq!(k, "MDNS_HOSTNAME");
    let (k, v) = spec.entry_at(3).unwrap();
    assert_eq!(k, "BG_COLOR");
    assert!(!v.required);
}

#[test]
fn config_struct_schema_errors() {
    let fields = vec![field("ok", path(&["bool"]), vec![]), field("bad", path(&["u8"]), vec![])];
    assert!(matches!(config_schema(&fields), Err(SchemaError::Field(FieldError::UnsupportedType(_)))));
    let fields = vec![field("name", path(&["bool"]), vec![]), field("NAME", path(&["bool"]), vec![])];
    assert!(matches!(
        config_schema(&fields),
        Err(SchemaError::Config(ConfigError::DuplicateName(n))) if n == "NAME"
    ));
    let fields = vec![field("_x", path(&["bool"]), vec![])];
    assert!(matches!(config_schema(&fields), Err(SchemaError::Config(ConfigError::InvalidName(_)))));
}

#[test]
fn reading_field_values() {
    let text = FieldKind::Str { len: 4, kind: StringKind::Heapless, optional: false };
    let entry = ConfigSpecValue::new(TypedValue::String(4, Some("abcd".to_string())), true);
    assert!(matches!(read_field(text, Some(&entry)), Ok(Some(TypedValue::String(4, Some(_))))));
    let long = ConfigSpecValue::new(TypedValue::String(8, Some("abcde".to_string())), true);
    assert_eq!(read_field(text, Some(&long)).err(), Some(ReadError::TooLong(4)));
    assert_eq!(read_field(text, None).err(), Some(ReadError::Missing));
    let unset = ConfigSpecValue::new(TypedValue::String(4, None), true);
    assert_eq!(read_field(text, Some(&unset)).err(), Some(ReadError::WrongType));

    let opt = FieldKind::Known { kt: KnownType::Int32, optional: true };
    assert!(matches!(read_field(opt, None), Ok(None)));
    let unset = ConfigSpecValue::new(TypedValue::Int32(None), false);
    assert!(matches!(read_field(opt, Some(&unset)), Ok(None)));
    let wrong = ConfigSpecValue::new(TypedValue::Bool(Some(true)), false);
    assert_eq!(read_field(opt, Some(&wrong)).err(), Some(ReadError::WrongType));
    let set = ConfigSpecValue::new(TypedValue::Int32(Some(5)), false);
    assert!(matches!(read_field(opt, Some(&set)), Ok(Some(TypedValue::Int32(Some(5))))));
}

#[test]
fn field_names_are_limited_in_characters() {
    // Eight two-byte characters: sixteen bytes, but only eight characters.
    assert_eq!(
        field_kind(&field("éééééééé", path(&["i32"]), vec![])),
        Ok(FieldKind::Known { kt: KnownType::Int32, optional: false })
    );
    assert_eq!(
        field_kind(&field("ééééééééééééééé", path(&["i32"]), vec![])),
        Ok(FieldKind::Known { kt: KnownType::Int32, optional: false })
    );
    assert_eq!(
        field_kind(&field("éééééééééééééééé", path(&["i32"]), vec![])),
        Err(FieldError::NameTooLong("éééééééééééééééé".to_string()))
    );
}
