//! Typed configuration values, the schema of a feature's configuration, and
//! the rules by which the schema is built, checked and read.
use vstd::prelude::*;
use vstd::string::StrSliceExecFns;
use vstd::string::StringSliceAdditionalSpecFns;

use crate::color::{color_from_bytes, color_text, format_rgb8, parse_rgb8, splits_a_character, ColorError, Rgb8};
use crate::number::{bounded_decimal, i32_to_string, i64_to_string, int_text, parse_i32, parse_i64};
use crate::problem::ProblemId;
use crate::text::str_eq;
use crate::tz::{names_zone, tz_name, TimeZone};

verus! {

/// croner's parsed schedule, carried opaquely.
#[verifier::external_type_specification]
#[verifier::external_body]
pub struct ExCron(croner::Cron);

/// croner's parse error, carried opaquely.
#[verifier::external_type_specification]
#[verifier::external_body]
pub struct ExCronError(croner::errors::CronError);

/// indexmap's insertion-ordered map, carried opaquely.
#[verifier::external_type_specification]
#[verifier::external_body]
#[verifier::reject_recursive_types(K)]
#[verifier::reject_recursive_types(V)]
#[verifier::reject_recursive_types(S)]
pub struct ExIndexMap<K, V, S>(indexmap::IndexMap<K, V, S>);

/// The schedule that croner's parser makes of a pattern, or nothing when it
/// refuses the pattern.
pub uninterp spec fn cron_parsed(pattern: Seq<char>) -> Option<croner::Cron>;

/// Whether croner's parser accepts a pattern.
pub open spec fn cron_accepts(pattern: Seq<char>) -> bool {
    cron_parsed(pattern) is Some
}

/// The pattern text that croner keeps in a parsed schedule.
pub uninterp spec fn cron_pattern_text(c: croner::Cron) -> Seq<char>;

/// What a configuration schema holds, in insertion order: each key with its value.
pub uninterp spec fn schema_entries(
    m: indexmap::IndexMap<String, ConfigSpecValue>,
) -> Seq<(Seq<char>, ConfigSpecValue)>;

/// Parses a cron schedule with croner's `Cron::from_str`, whose result depends on
/// the pattern alone: the schedule it makes, named `cron_parsed`, or an error when
/// it makes none. Which error comes back is left unsaid.
#[verifier::external_body]
pub(crate) fn parse_cron(pattern: &str) -> (r: Result<croner::Cron, croner::errors::CronError>)
    ensures
        match r {
            Ok(c) => cron_parsed(pattern@) == Some(c),
            Err(_) => cron_parsed(pattern@) is None,
        },
{
    <croner::Cron as std::str::FromStr>::from_str(pattern)
}

/// The pattern text of a parsed schedule, as croner's `CronPattern` displays it.
#[verifier::external_body]
fn cron_text(c: &croner::Cron) -> (r: String)
    ensures
        r@ == cron_pattern_text(*c),
{
    c.pattern.to_string()
}

/// The first position of a key among the entries.
pub open spec fn key_index(entries: Seq<(Seq<char>, ConfigSpecValue)>, key: Seq<char>) -> Option<int>
    decreases entries.len(),
{
    if entries.len() == 0 {
        None
    } else if entries[0].0 == key {
        Some(0)
    } else {
        match key_index(entries.drop_first(), key) {
            Some(i) => Some(i + 1),
            None => None,
        }
    }
}

/// An empty `IndexMap` (`IndexMap::new`).
#[verifier::external_body]
fn schema_map_new() -> (r: indexmap::IndexMap<String, ConfigSpecValue>)
    ensures
        schema_entries(r) == Seq::<(Seq<char>, ConfigSpecValue)>::empty(),
{
    indexmap::IndexMap::new()
}

/// `IndexMap::contains_key`: whether an entry has an equal key.
#[verifier::external_body]
fn schema_map_contains(m: &indexmap::IndexMap<String, ConfigSpecValue>, key: &str) -> (r: bool)
    ensures
        r == (key_index(schema_entries(*m), key@) is Some),
{
    m.contains_key(key)
}

/// `IndexMap::insert`: an entry with an equal key keeps its place and takes the new
/// value; otherwise the pair goes last.
#[verifier::external_body]
fn schema_map_insert(
    m: &mut indexmap::IndexMap<String, ConfigSpecValue>,
    key: String,
    value: ConfigSpecValue,
) -> (r: Option<ConfigSpecValue>)
    ensures
        match key_index(schema_entries(*old(m)), key@) {
            Some(i) => r == Some(schema_entries(*old(m))[i].1) && schema_entries(*final(m))
                == schema_entries(*old(m)).update(i, (schema_entries(*old(m))[i].0, value)),
            None => r is None && schema_entries(*final(m)) == schema_entries(*old(m)).push(
                (key@, value),
            ),
        },
{
    m.insert(key, value)
}

/// `IndexMap::get`: the value of the entry with an equal key.
#[verifier::external_body]
fn schema_map_get<'a>(
    m: &'a indexmap::IndexMap<String, ConfigSpecValue>,
    key: &str,
) -> (r: Option<&'a ConfigSpecValue>)
    ensures
        match key_index(schema_entries(*m), key@) {
            Some(i) => r == Some(&schema_entries(*m)[i].1),
            None => r is None,
        },
{
    m.get(key)
}

/// `IndexMap::len`: the number of entries.
#[verifier::external_body]
fn schema_map_len(m: &indexmap::IndexMap<String, ConfigSpecValue>) -> (r: usize)
    ensures
        r == schema_entries(*m).len(),
{
    m.len()
}

/// `IndexMap::get_index`: the entry at a position in insertion order.
#[verifier::external_body]
fn schema_map_get_index<'a>(
    m: &'a indexmap::IndexMap<String, ConfigSpecValue>,
    index: usize,
) -> (r: Option<(&'a String, &'a ConfigSpecValue)>)
    ensures
        if index < schema_entries(*m).len() {
            r matches Some((k, v)) && k@ == schema_entries(*m)[index as int].0 && *v
                == schema_entries(*m)[index as int].1
        } else {
            r is None
        },
{
    m.get_index(index)
}

/// `IndexMap::shrink_to_fit`: the entries stay as they are.
#[verifier::external_body]
fn schema_map_shrink(m: &mut indexmap::IndexMap<String, ConfigSpecValue>)
    ensures
        schema_entries(*final(m)) == schema_entries(*old(m)),
{
    m.shrink_to_fit()
}

/// A configuration value, typed by the kind of setting it belongs to; each kind
/// may be unset.
pub enum TypedValue {
    /// Text of at most the given number of bytes.
    String(usize, Option<String>),
    Int32(Option<i32>),
    Int64(Option<i64>),
    Bool(Option<bool>),
    TimeZone(Option<TimeZone>),
    Cron(Option<croner::Cron>),
    Color(Option<Rgb8>),
}

/// croner's `Cron::clone`, which `derive` writes field by field: an equal schedule.
#[verifier::external_body]
fn cron_clone(c: &croner::Cron) -> (r: croner::Cron)
    ensures
        r == *c,
{
    c.clone()
}

impl Clone for TypedValue {
    /// An equal value.
    fn clone(&self) -> (r: Self)
        ensures
            r == *self,
    {
        match self {
            TypedValue::String(len, Some(s)) => TypedValue::String(*len, Some(s.clone())),
            TypedValue::String(len, None) => TypedValue::String(*len, None),
            TypedValue::Int32(v) => TypedValue::Int32(*v),
            TypedValue::Int64(v) => TypedValue::Int64(*v),
            TypedValue::Bool(v) => TypedValue::Bool(*v),
            TypedValue::TimeZone(v) => TypedValue::TimeZone(*v),
            TypedValue::Cron(Some(c)) => TypedValue::Cron(Some(cron_clone(c))),
            TypedValue::Cron(None) => TypedValue::Cron(None),
            TypedValue::Color(v) => TypedValue::Color(*v),
        }
    }
}

/// Why a configuration value or schema entry was refused.
#[derive(Debug, Clone, PartialEq, Eq)]
pub enum ConfigError {
    /// The text is longer than the setting allows (its maximum in bytes).
    StringTooLong(usize),
    /// The text is no decimal integer of the setting's type.
    InvalidInteger,
    /// The text is neither `true` nor `false`.
    InvalidBool,
    /// croner does not accept the text as a schedule.
    InvalidCron,
    /// The text is no colour.
    InvalidColor(ColorError),
    /// The schema has an entry of that name already.
    DuplicateName(String),
    /// The name is longer than 15 bytes.
    NameTooLong(String),
    /// The name starts with `_`.
    InvalidName(String),
    /// The configuration has no value of that name.
    Missing(String),
}

/// Whether a value is unset. A boolean or a time zone always counts as set, since
/// each has a default.
pub open spec fn value_is_none(v: TypedValue) -> bool {
    match v {
        TypedValue::String(_, s) => s is None,
        TypedValue::Int32(i) => i is None,
        TypedValue::Int64(i) => i is None,
        TypedValue::Bool(_) => false,
        TypedValue::TimeZone(_) => false,
        TypedValue::Cron(c) => c is None,
        TypedValue::Color(c) => c is None,
    }
}

/// The text of a value: the setting's text form, or nothing when it is unset.
pub open spec fn value_text(v: TypedValue) -> Seq<char> {
    match v {
        TypedValue::String(_, Some(s)) => s@,
        TypedValue::Int32(Some(i)) => int_text(i as int),
        TypedValue::Int64(Some(i)) => int_text(i as int),
        TypedValue::Bool(Some(b)) => if b {
            "true"@
        } else {
            "false"@
        },
        TypedValue::TimeZone(Some(tz)) => tz_name(tz),
        TypedValue::Cron(Some(c)) => cron_pattern_text(c),
        TypedValue::Color(Some(c)) => color_text(c),
        _ => Seq::empty(),
    }
}

/// Two values are of the same kind (and, for text, of the same maximum length).
pub open spec fn same_kind(a: TypedValue, b: TypedValue) -> bool {
    match (a, b) {
        (TypedValue::String(x, _), TypedValue::String(y, _)) => x == y,
        (TypedValue::Int32(_), TypedValue::Int32(_)) => true,
        (TypedValue::Int64(_), TypedValue::Int64(_)) => true,
        (TypedValue::Bool(_), TypedValue::Bool(_)) => true,
        (TypedValue::TimeZone(_), TypedValue::TimeZone(_)) => true,
        (TypedValue::Cron(_), TypedValue::Cron(_)) => true,
        (TypedValue::Color(_), TypedValue::Color(_)) => true,
        _ => false,
    }
}

/// The texts that `from_str` cannot read without splitting a character: colour
/// texts whose channel boundaries fall inside a character.
pub open spec fn from_str_splits(kind: TypedValue, s: &str) -> bool {
    kind is Color && splits_a_character(s.spec_bytes())
}

/// What reading a text as a value of `kind`'s kind gives: text within its length;
/// a decimal integer within its type's range; `true` or `false`; a time zone name
/// (or none for an unknown name); the schedule that croner makes of it; a colour.
pub open spec fn read_as(kind: TypedValue, text: Seq<char>, r: Result<TypedValue, ConfigError>) -> bool {
    match kind {
        TypedValue::String(len, _) => if vstd::utf8::encode_utf8(text).len() > len {
            r == Err::<TypedValue, ConfigError>(ConfigError::StringTooLong(len))
        } else {
            r matches Ok(TypedValue::String(l, Some(s))) && l == len && s@ == text
        },
        TypedValue::Int32(_) => match bounded_decimal(
            vstd::utf8::encode_utf8(text),
            i32::MIN as int,
            i32::MAX as int,
        ) {
            Some(v) => r == Ok::<TypedValue, ConfigError>(TypedValue::Int32(Some(v as i32))),
            None => r == Err::<TypedValue, ConfigError>(ConfigError::InvalidInteger),
        },
        TypedValue::Int64(_) => match bounded_decimal(
            vstd::utf8::encode_utf8(text),
            i64::MIN as int,
            i64::MAX as int,
        ) {
            Some(v) => r == Ok::<TypedValue, ConfigError>(TypedValue::Int64(Some(v as i64))),
            None => r == Err::<TypedValue, ConfigError>(ConfigError::InvalidInteger),
        },
        TypedValue::Bool(_) => if text == "true"@ {
            r == Ok::<TypedValue, ConfigError>(TypedValue::Bool(Some(true)))
        } else if text == "false"@ {
            r == Ok::<TypedValue, ConfigError>(TypedValue::Bool(Some(false)))
        } else {
            r == Err::<TypedValue, ConfigError>(ConfigError::InvalidBool)
        },
        TypedValue::TimeZone(_) => r matches Ok(TypedValue::TimeZone(z)) && match z {
            Some(tz) => names_zone(text, tz),
            None => forall|tz: TimeZone| !names_zone(text, tz),
        },
        TypedValue::Cron(_) => match cron_parsed(text) {
            Some(c) => r == Ok::<TypedValue, ConfigError>(TypedValue::Cron(Some(c))),
            None => r == Err::<TypedValue, ConfigError>(ConfigError::InvalidCron),
        },
        TypedValue::Color(_) => match color_from_bytes(vstd::utf8::encode_utf8(text)) {
            Ok(c) => r == Ok::<TypedValue, ConfigError>(TypedValue::Color(Some(c))),
            Err(e) => r == Err::<TypedValue, ConfigError>(ConfigError::InvalidColor(e)),
        },
    }
}

impl TypedValue {
    /// Whether the value is unset.
    pub fn is_none(&self) -> (r: bool)
        ensures
            r == value_is_none(*self),
    {
        match self {
            TypedValue::String(_len, val) => val.is_none(),
            TypedValue::Int32(val) => val.is_none(),
            TypedValue::Int64(val) => val.is_none(),
            TypedValue::Bool(_) => false,
            TypedValue::TimeZone(_) => false,
            TypedValue::Cron(val) => val.is_none(),
            TypedValue::Color(val) => val.is_none(),
        }
    }

    /// The text form of the value, or the empty text when it is unset.
    pub fn to_string(&self) -> (r: String)
        ensures
            r@ == value_text(*self),
    {
        match self {
            TypedValue::String(_len, Some(val)) => val.clone(),
            TypedValue::Int32(Some(val)) => i32_to_string(*val),
            TypedValue::Int64(Some(val)) => i64_to_string(*val),
            TypedValue::Bool(Some(val)) => if *val {
                "true".to_owned()
            } else {
                "false".to_owned()
            },
            TypedValue::TimeZone(Some(tz)) => tz.to_str().to_owned(),
            TypedValue::Cron(Some(cron)) => cron_text(cron),
            TypedValue::Color(Some(color)) => format_rgb8(color),
            _ => String::new(),
        }
    }

    /// The value's text, when it fits a fixed-capacity string of `capacity` bytes
    /// (as `heapless::String::try_from` accepts a text of at most its capacity).
    pub fn to_heapless(&self, capacity: usize) -> (r: Result<String, ConfigError>)
        ensures
            if vstd::utf8::encode_utf8(value_text(*self)).len() > capacity {
                r == Err::<String, ConfigError>(ConfigError::StringTooLong(capacity))
            } else {
                r matches Ok(s) && s@ == value_text(*self)
            },
    {
        let text = self.to_string();
        if text.as_str().as_bytes().len() > capacity {
            Err(ConfigError::StringTooLong(capacity))
        } else {
            Ok(text)
        }
    }

    /// The unset value of the same kind.
    pub fn to_none(&self) -> (r: Self)
        ensures
            same_kind(r, *self),
            r matches TypedValue::String(_, None) || r matches TypedValue::Int32(None)
                || r matches TypedValue::Int64(None) || r matches TypedValue::Bool(None)
                || r matches TypedValue::TimeZone(None) || r matches TypedValue::Cron(None)
                || r matches TypedValue::Color(None),
    {
        match self {
            TypedValue::String(len, _) => TypedValue::String(*len, None),
            TypedValue::Int32(_) => TypedValue::Int32(None),
            TypedValue::Int64(_) => TypedValue::Int64(None),
            TypedValue::Bool(_) => TypedValue::Bool(None),
            TypedValue::TimeZone(_) => TypedValue::TimeZone(None),
            TypedValue::Cron(_) => TypedValue::Cron(None),
            TypedValue::Color(_) => TypedValue::Color(None),
        }
    }

    /// Reads a text as a value of the same kind as `self`.
    pub fn from_str(&self, str_val: &str) -> (r: Result<TypedValue, ConfigError>)
        requires
            !from_str_splits(*self, str_val),
        ensures
            read_as(*self, str_val@, r),
    {
        match self {
            TypedValue::String(len, _) => {
                if str_val.as_bytes().len() > *len {
                    Err(ConfigError::StringTooLong(*len))
                } else {
                    Ok(TypedValue::String(*len, Some(str_val.to_owned())))
                }
            },
            TypedValue::Int32(_) => match parse_i32(str_val) {
                Some(v) => Ok(TypedValue::Int32(Some(v))),
                None => Err(ConfigError::InvalidInteger),
            },
            TypedValue::Int64(_) => match parse_i64(str_val) {
                Some(v) => Ok(TypedValue::Int64(Some(v))),
                None => Err(ConfigError::InvalidInteger),
            },
            TypedValue::Bool(_) => {
                if str_eq(str_val, "true") {
                    Ok(TypedValue::Bool(Some(true)))
                } else if str_eq(str_val, "false") {
                    Ok(TypedValue::Bool(Some(false)))
                } else {
                    Err(ConfigError::InvalidBool)
                }
            },
            TypedValue::TimeZone(_) => Ok(TypedValue::TimeZone(TimeZone::from_str(str_val))),
            TypedValue::Cron(_) => match parse_cron(str_val) {
                Ok(c) => Ok(TypedValue::Cron(Some(c))),
                Err(_) => Err(ConfigError::InvalidCron),
            },
            TypedValue::Color(_) => match parse_rgb8(str_val) {
                Ok(c) => Ok(TypedValue::Color(Some(c))),
                Err(e) => Err(ConfigError::InvalidColor(e)),
            },
        }
    }
}

/// A set value's text reads back as the value: whatever reading it gives is that
/// value; a text only when it fits its length. Schedules are left out (what croner
/// makes of a schedule's own pattern text is croner's to say), and an unset value
/// has no text to read.
pub proof fn lemma_value_text_reads_back(v: TypedValue, r: Result<TypedValue, ConfigError>)
    requires
        read_as(v, value_text(v), r),
        !(v is Cron),
        !value_is_none(v),
        !(v matches TypedValue::Bool(None)),
        !(v matches TypedValue::TimeZone(None)),
        v matches TypedValue::String(len, Some(t)) ==> vstd::utf8::encode_utf8(t@).len() <= len,
    ensures
        match v {
            TypedValue::String(len, Some(t)) => r matches Ok(TypedValue::String(l, Some(u))) && l == len
                && u@ == t@,
            _ => r == Ok::<TypedValue, ConfigError>(v),
        },
{
    match v {
        TypedValue::Int32(Some(i)) => {
            crate::number::lemma_int_text_round_trip(i as int);
            assert(bounded_decimal(vstd::utf8::encode_utf8(value_text(v)), i32::MIN as int, i32::MAX as int) == Some(i as int));
        },
        TypedValue::Int64(Some(i)) => {
            crate::number::lemma_int_text_round_trip(i as int);
            assert(bounded_decimal(vstd::utf8::encode_utf8(value_text(v)), i64::MIN as int, i64::MAX as int) == Some(i as int));
        },
        TypedValue::Bool(Some(b)) => {
            reveal_strlit("true");
            reveal_strlit("false");
        },
        TypedValue::TimeZone(z) => {
            match z {
                Some(tz) => {
                    assert(names_zone(tz_name(tz), tz));
                    match r {
                        Ok(TypedValue::TimeZone(Some(w))) => crate::tz::lemma_name_denotes_one_zone(tz_name(tz), tz, w),
                        _ => {},
                    }
                },
                None => {},
            }
        },
        TypedValue::Color(Some(c)) => {
            crate::color::lemma_color_text_round_trip(c);
        },
        _ => {},
    }
}

/// One setting of a schema: its current value, whether the feature needs it, and the
/// problem slot that reports it missing.
pub struct ConfigSpecValue {
    pub value: TypedValue,
    pub required: bool,
    pub problem_id: ProblemId,
}

impl Clone for ConfigSpecValue {
    /// An equal setting.
    fn clone(&self) -> (r: Self)
        ensures
            r == *self,
    {
        ConfigSpecValue { value: self.value.clone(), required: self.required, problem_id: self.problem_id }
    }
}

impl ConfigSpecValue {
    /// A setting with no problem reported for it yet.
    pub fn new(value: TypedValue, required: bool) -> (r: Self)
        ensures
            r == (ConfigSpecValue { value, required, problem_id: None }),
    {
        ConfigSpecValue { value, required, problem_id: None }
    }
}

/// A missing required value makes a setting invalid.
pub open spec fn entry_valid(v: ConfigSpecValue) -> bool {
    !(v.required && value_is_none(v.value))
}

/// Whether a key is among the entries.
pub open spec fn has_key(entries: Seq<(Seq<char>, ConfigSpecValue)>, key: Seq<char>) -> bool {
    exists|i: int| 0 <= i < entries.len() && entries[i].0 == key
}

/// No two entries share a key.
pub open spec fn keys_unique(entries: Seq<(Seq<char>, ConfigSpecValue)>) -> bool {
    forall|i: int, j: int|
        0 <= i < entries.len() && 0 <= j < entries.len() && i != j ==> entries[i].0 != entries[j].0
}

/// The value stored under a key, if any.
pub open spec fn entry_value(entries: Seq<(Seq<char>, ConfigSpecValue)>, key: Seq<char>) -> Option<ConfigSpecValue> {
    match key_index(entries, key) {
        Some(i) => Some(entries[i].1),
        None => None,
    }
}

/// The key index finds a key exactly when the key is present, at an entry with that key.
pub proof fn lemma_key_index(entries: Seq<(Seq<char>, ConfigSpecValue)>, key: Seq<char>)
    ensures
        key_index(entries, key) is Some <==> has_key(entries, key),
        key_index(entries, key) matches Some(i) ==> 0 <= i < entries.len() && entries[i].0 == key
            && forall|j: int| 0 <= j < i ==> entries[j].0 != key,
    decreases entries.len(),
{
    if entries.len() > 0 {
        let rest = entries.drop_first();
        lemma_key_index(rest, key);
        if entries[0].0 != key {
            if has_key(entries, key) {
                let i = choose|i: int| 0 <= i < entries.len() && entries[i].0 == key;
                assert(rest[i - 1].0 == key);
            }
            if has_key(rest, key) {
                let i = choose|i: int| 0 <= i < rest.len() && rest[i].0 == key;
                assert(entries[i + 1].0 == key);
            }
            if let Some(k) = key_index(rest, key) {
                assert forall|j: int| 0 <= j < k + 1 implies entries[j].0 != key by {
                    if j > 0 {
                        assert(entries[j] == rest[j - 1]);
                    }
                }
            }
        }
    }
}

/// Adding an entry under a key that is not present keeps the keys unique, and the
/// new entry is what the key then reads back.
pub proof fn lemma_fresh_insert(
    entries: Seq<(Seq<char>, ConfigSpecValue)>,
    key: Seq<char>,
    value: ConfigSpecValue,
)
    requires
        keys_unique(entries),
        !has_key(entries, key),
    ensures
        keys_unique(entries.push((key, value))),
        entry_value(entries.push((key, value)), key) == Some(value),
        forall|k: Seq<char>| k != key ==> entry_value(entries.push((key, value)), k) == entry_value(entries, k),
{
    let e = entries.push((key, value));
    assert forall|i: int, j: int| 0 <= i < e.len() && 0 <= j < e.len() && i != j implies e[i].0 != e[j].0 by {
        if i == entries.len() {
            assert(e[j] == entries[j]);
        } else if j == entries.len() {
            assert(e[i] == entries[i]);
        } else {
            assert(e[i] == entries[i] && e[j] == entries[j]);
        }
    }
    lemma_key_index(e, key);
    lemma_key_index(entries, key);
    assert(e[entries.len() as int].0 == key);
    assert(has_key(e, key));
    let i = key_index(e, key).unwrap();
    if i < entries.len() {
        assert(e[i] == entries[i]);
        assert(has_key(entries, key));
    }
    assert forall|k: Seq<char>| k != key implies entry_value(e, k) == entry_value(entries, k) by {
        lemma_key_index_push(entries, key, value, k);
        lemma_key_index(entries, k);
        if let Some(j) = key_index(entries, k) {
            assert(e[j] == entries[j]);
        }
    }
}

/// Appending an entry under another key leaves where a key is found unchanged.
proof fn lemma_key_index_push(
    entries: Seq<(Seq<char>, ConfigSpecValue)>,
    key: Seq<char>,
    value: ConfigSpecValue,
    k: Seq<char>,
)
    requires
        k != key,
    ensures
        key_index(entries.push((key, value)), k) == key_index(entries, k),
    decreases entries.len(),
{
    let e = entries.push((key, value));
    if entries.len() == 0 {
        assert(e.drop_first() =~= Seq::<(Seq<char>, ConfigSpecValue)>::empty());
    } else {
        assert(e.drop_first() =~= entries.drop_first().push((key, value)));
        lemma_key_index_push(entries.drop_first(), key, value, k);
    }
}

/// Collects the settings of a feature's schema.
pub struct ConfigSpecBuilder {
    map: indexmap::IndexMap<String, ConfigSpecValue>,
}

impl ConfigSpecBuilder {
    /// The entries collected so far, in insertion order.
    pub closed spec fn entries(&self) -> Seq<(Seq<char>, ConfigSpecValue)> {
        schema_entries(self.map)
    }

    /// No two entries share a name.
    pub open spec fn wf(&self) -> bool {
        keys_unique(self.entries())
    }

    fn new() -> (r: Self)
        ensures
            r.entries() == Seq::<(Seq<char>, ConfigSpecValue)>::empty(),
            r.wf(),
    {
        ConfigSpecBuilder { map: schema_map_new() }
    }

    /// Adds a setting under a new, allowed name.
    pub fn insert(&mut self, name: String, value: ConfigSpecValue) -> (r: Result<(), ConfigError>)
        requires
            old(self).wf(),
        ensures
            final(self).wf(),
            if has_key(old(self).entries(), name@) {
                r == Err::<(), ConfigError>(ConfigError::DuplicateName(name))
                    && final(self).entries() == old(self).entries()
            } else if vstd::utf8::encode_utf8(name@).len() > 15 {
                r == Err::<(), ConfigError>(ConfigError::NameTooLong(name))
                    && final(self).entries() == old(self).entries()
            } else if name@.len() > 0 && name@[0] == '_' {
                r == Err::<(), ConfigError>(ConfigError::InvalidName(name))
                    && final(self).entries() == old(self).entries()
            } else {
                r is Ok && final(self).entries() == old(self).entries().push((name@, value))
            },
    {
        proof {
            lemma_key_index(schema_entries(self.map), name@);
        }
        if schema_map_contains(&self.map, name.as_str()) {
            return Err(ConfigError::DuplicateName(name));
        }
        if name.as_str().as_bytes().len() > 15 {
            return Err(ConfigError::NameTooLong(name));
        }
        if !name.as_str().is_empty() && name.as_str().get_char(0) == '_' {
            return Err(ConfigError::InvalidName(name));
        }
        proof {
            lemma_fresh_insert(schema_entries(self.map), name@, value);
        }
        schema_map_insert(&mut self.map, name, value);
        Ok(())
    }

    /// `insert`, in the chaining style.
    pub fn with(self, name: String, value: ConfigSpecValue) -> (r: Result<Self, ConfigError>)
        requires
            self.wf(),
        ensures
            r matches Ok(b) ==> b.wf(),
            if has_key(self.entries(), name@) {
                r == Err::<Self, ConfigError>(ConfigError::DuplicateName(name))
            } else if vstd::utf8::encode_utf8(name@).len() > 15 {
                r == Err::<Self, ConfigError>(ConfigError::NameTooLong(name))
            } else if name@.len() > 0 && name@[0] == '_' {
                r == Err::<Self, ConfigError>(ConfigError::InvalidName(name))
            } else {
                r matches Ok(b) && b.entries() == self.entries().push((name@, value))
            },
    {
        let mut b = self;
        match b.insert(name, value) {
            Ok(()) => Ok(b),
            Err(e) => Err(e),
        }
    }

    /// The finished schema, with the entries in insertion order.
    pub fn build(self) -> (r: ConfigSpec)
        requires
            self.wf(),
        ensures
            r.entries() == self.entries(),
            r.wf(),
    {
        let mut map = self.map;
        schema_map_shrink(&mut map);
        ConfigSpec { map }
    }
}

/// The schema of a feature's configuration: its settings under unique names, in the
/// order in which they were added.
pub struct ConfigSpec {
    map: indexmap::IndexMap<String, ConfigSpecValue>,
}

impl ConfigSpec {
    /// The entries, in insertion order.
    pub closed spec fn entries(&self) -> Seq<(Seq<char>, ConfigSpecValue)> {
        schema_entries(self.map)
    }

    /// No two entries share a name.
    pub open spec fn wf(&self) -> bool {
        keys_unique(self.entries())
    }

    /// A builder with no entry.
    pub fn builder() -> (r: ConfigSpecBuilder)
        ensures
            r.entries() == Seq::<(Seq<char>, ConfigSpecValue)>::empty(),
            r.wf(),
    {
        ConfigSpecBuilder::new()
    }

    /// A copy of the schema: the same settings, in the same order.
    pub fn duplicate(&self) -> (r: ConfigSpec)
        requires
            self.wf(),
        ensures
            r.entries() == self.entries(),
            r.wf(),
    {
        let n = schema_map_len(&self.map);
        let mut map = schema_map_new();
        let mut i: usize = 0;
        while i < n
            invariant
                n == self.entries().len(),
                i <= n,
                keys_unique(self.entries()),
                schema_entries(map) == self.entries().take(i as int),
            decreases n - i,
        {
            match schema_map_get_index(&self.map, i) {
                Some((name, value)) => {
                    let ghost before = self.entries().take(i as int);
                    proof {
                        if has_key(before, name@) {
                            let j = choose|j: int| 0 <= j < before.len() && before[j].0 == name@;
                            assert(self.entries()[j].0 == self.entries()[i as int].0);
                        }
                        lemma_key_index(before, name@);
                    }
                    schema_map_insert(&mut map, name.clone(), value.clone());
                    assert(schema_entries(map) =~= self.entries().take(i + 1));
                },
                None => {},
            }
            i = i + 1;
        }
        assert(self.entries().take(n as int) =~= self.entries());
        ConfigSpec { map }
    }

    /// The number of settings.
    pub fn len(&self) -> (r: usize)
        ensures
            r == self.entries().len(),
    {
        schema_map_len(&self.map)
    }

    /// The setting at a position in insertion order.
    pub fn entry_at(&self, index: usize) -> (r: Option<(&String, &ConfigSpecValue)>)
        ensures
            if index < self.entries().len() {
                r matches Some((k, v)) && k@ == self.entries()[index as int].0 && *v
                    == self.entries()[index as int].1
            } else {
                r is None
            },
    {
        schema_map_get_index(&self.map, index)
    }

    /// The setting stored under a name.
    pub fn get(&self, key: &str) -> (r: Option<&ConfigSpecValue>)
        ensures
            match entry_value(self.entries(), key@) {
                Some(v) => r == Some(&v),
                None => r is None,
            },
    {
        schema_map_get(&self.map, key)
    }

    /// Whether every required setting has a value.
    pub fn is_valid(&self) -> (r: bool)
        ensures
            r == (forall|i: int| 0 <= i < self.entries().len() ==> entry_valid(#[trigger] self.entries()[i].1)),
    {
        let n = schema_map_len(&self.map);
        let mut i: usize = 0;
        while i < n
            invariant
                n == self.entries().len(),
                i <= n,
                forall|j: int| 0 <= j < i ==> entry_valid(#[trigger] self.entries()[j].1),
            decreases n - i,
        {
            match schema_map_get_index(&self.map, i) {
                Some((_name, config_value)) => {
                    if config_value.required && config_value.value.is_none() {
                        return false;
                    }
                },
                None => {},
            }
            i = i + 1;
        }
        true
    }

    /// The text of the value stored under a name, or which name is missing.
    pub fn get_valid(&self, key: &str) -> (r: Result<String, ConfigError>)
        ensures
            match entry_value(self.entries(), key@) {
                Some(v) => r matches Ok(s) && s@ == value_text(v.value),
                None => r matches Err(ConfigError::Missing(k)) && k@ == key@,
            },
    {
        match schema_map_get(&self.map, key) {
            Some(value) => Ok(value.value.to_string()),
            None => Err(ConfigError::Missing(key.to_owned())),
        }
    }
}

/// Whether a feature is switched on; a required feature cannot be switched off.
#[derive(Clone, Copy, Debug, PartialEq, Eq, Structural)]
pub enum EnabledState {
    Enabled,
    Disabled,
    Required,
}

impl EnabledState {
    /// Enabled and required features are on.
    pub fn is_enabled(&self) -> (r: bool)
        ensures
            r == (*self is Enabled || *self is Required),
    {
        match self {
            EnabledState::Enabled | EnabledState::Required => true,
            EnabledState::Disabled => false,
        }
    }
}

/// The state that a checkbox value gives: enabled when ticked, else disabled.
pub open spec fn checkbox_state(value: bool) -> EnabledState {
    if value {
        EnabledState::Enabled
    } else {
        EnabledState::Disabled
    }
}

impl From<bool> for EnabledState {
    /// The state that a checkbox value gives: enabled when ticked, else disabled.
    fn from(value: bool) -> (r: Self) {
        if value {
            EnabledState::Enabled
        } else {
            EnabledState::Disabled
        }
    }
}

impl vstd::std_specs::convert::FromSpecImpl<bool> for EnabledState {
    open spec fn obeys_from_spec() -> bool {
        true
    }

    open spec fn from_spec(value: bool) -> EnabledState {
        checkbox_state(value)
    }
}

/// A feature's configuration as it was loaded: its state and its settings.
pub struct Config {
    pub enabled: EnabledState,
    pub spec: ConfigSpec,
}

impl Config {
    /// The text of the setting stored under a name, when it fits a fixed-capacity
    /// string of `capacity` bytes; or which name is missing.
    pub fn get_required_as_heapless(&self, key: &str, capacity: usize) -> (r: Result<String, ConfigError>)
        ensures
            match entry_value(self.spec.entries(), key@) {
                Some(v) => if vstd::utf8::encode_utf8(value_text(v.value)).len() > capacity {
                    r == Err::<String, ConfigError>(ConfigError::StringTooLong(capacity))
                } else {
                    r matches Ok(s) && s@ == value_text(v.value)
                },
                None => r matches Err(ConfigError::Missing(k)) && k@ == key@,
            },
    {
        match self.spec.get(key) {
            Some(value) => value.value.to_heapless(capacity),
            None => Err(ConfigError::Missing(key.to_owned())),
        }
    }

    /// The text of the setting stored under a name, or which name is missing.
    pub fn get_valid(&self, key: &str) -> (r: Result<String, ConfigError>)
        ensures
            match entry_value(self.spec.entries(), key@) {
                Some(v) => r matches Ok(s) && s@ == value_text(v.value),
                None => r matches Err(ConfigError::Missing(k)) && k@ == key@,
            },
    {
        self.spec.get_valid(key)
    }
}

} // verus!
