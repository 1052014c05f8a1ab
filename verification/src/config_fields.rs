//! How the fields of a feature's configuration struct map to schema entries and
//! back: which field types are allowed, what each field contributes to the
//! schema, and how a field's value is read out of a loaded schema.
use vstd::prelude::*;
use vstd::string::StrSliceExecFns;

use crate::config::{value_is_none, ConfigError, ConfigSpec, ConfigSpecBuilder, ConfigSpecValue, TypedValue, entry_value, has_key, keys_unique};
use crate::text::str_eq;

verus! {

/// The field types with a fixed kind of value.
#[derive(Clone, Copy, Debug, PartialEq, Eq, Structural)]
pub enum KnownType {
    Int32,
    Int64,
    Bool,
    TimeZone,
    Cron,
    Color,
}

/// Whether a field of this type is read out by copying (rather than cloning).
pub fn is_copy(kt: KnownType) -> (r: bool)
    ensures
        r == (kt is Int32 || kt is Int64 || kt is Bool || kt is Color),
{
    match kt {
        KnownType::Int32 | KnownType::Int64 | KnownType::Bool | KnownType::Color => true,
        KnownType::TimeZone | KnownType::Cron => false,
    }
}

/// The generic argument of a type path's last segment.
pub enum TypeArg {
    /// A type, such as the `T` of `Option<T>`.
    Type(Box<TypePath>),
    /// A constant length, written as a literal or a named constant.
    Const(usize),
}

/// A field's declared type: the segments of its path and the first generic
/// argument of its last segment.
pub struct TypePath {
    pub segments: Vec<String>,
    pub arg: Option<TypeArg>,
}

/// One item of a `#[config(..)]` attribute.
pub enum AttrItem {
    /// `len = N`.
    Len(usize),
    /// Any other item, by its name.
    Unknown(String),
}

/// A named field of a configuration struct: its name, its type, and its
/// `#[config(..)]` attributes, each a list of items.
pub struct FieldDecl {
    pub name: String,
    pub ty: TypePath,
    pub attrs: Vec<Vec<AttrItem>>,
}

/// Why a field cannot be part of a configuration struct.
#[derive(Debug, Clone, PartialEq, Eq)]
pub enum FieldError {
    /// The field's name is longer than 15 characters.
    NameTooLong(String),
    /// A `#[config(..)]` item other than `len = N`.
    UnknownAttribute(String),
    /// A `heapless::String` without a constant length.
    HeaplessWithoutLength,
    /// A type that maps to no kind of value (the name of its last segment).
    UnsupportedType(String),
    /// A type with no path.
    UnsupportedShape,
    /// `len = N` on a `heapless::String`, which carries its length already.
    RedundantLength,
    /// A `String` without `len = N`.
    MissingLength,
    /// `len = N` on a field that is no text.
    LengthNotAllowed,
}

/// How a text field is held.
#[derive(Clone, Copy, Debug, PartialEq, Eq, Structural)]
pub enum StringKind {
    Std,
    Heapless,
}

/// What a field is: text of a maximum length, or a value of a known type; and
/// whether it may be left unset.
#[derive(Clone, Copy, Debug, PartialEq, Eq, Structural)]
pub enum FieldKind {
    Str { len: usize, kind: StringKind, optional: bool },
    Known { kt: KnownType, optional: bool },
}

/// What a type path stands for.
#[derive(Clone, Copy, Debug, PartialEq, Eq, Structural)]
pub enum TypeClass {
    Known(KnownType),
    HeaplessStr(usize),
    StdStr,
}

/// The type inside `Option<..>`, when the path is one.
pub open spec fn option_inner(ty: TypePath) -> Option<TypePath> {
    if ty.segments@.len() > 0 && ty.segments@.last()@ == "Option"@ {
        match ty.arg {
            Some(TypeArg::Type(inner)) => Some(*inner),
            _ => None,
        }
    } else {
        None
    }
}

/// What a (non-optional) type path stands for.
pub open spec fn class_of(ty: TypePath) -> Result<TypeClass, FieldError> {
    let segs = ty.segments@;
    let n = segs.len();
    if n >= 2 && segs[n - 2]@ == "heapless"@ && segs[n - 1]@ == "String"@ {
        match ty.arg {
            Some(TypeArg::Const(len)) => Ok(TypeClass::HeaplessStr(len)),
            _ => Err(FieldError::HeaplessWithoutLength),
        }
    } else if n == 0 {
        Err(FieldError::UnsupportedShape)
    } else {
        let last = segs[n - 1]@;
        if last == "i32"@ {
            Ok(TypeClass::Known(KnownType::Int32))
        } else if last == "i64"@ {
            Ok(TypeClass::Known(KnownType::Int64))
        } else if last == "bool"@ {
            Ok(TypeClass::Known(KnownType::Bool))
        } else if last == "TimeZone"@ {
            Ok(TypeClass::Known(KnownType::TimeZone))
        } else if last == "Cron"@ {
            Ok(TypeClass::Known(KnownType::Cron))
        } else if last == "RGB8"@ {
            Ok(TypeClass::Known(KnownType::Color))
        } else if last == "String"@ {
            Ok(TypeClass::StdStr)
        } else {
            Err(FieldError::UnsupportedType(segs[n - 1]))
        }
    }
}

/// The length that one attribute gives: the last `len = N` of its items, unless an
/// unknown item comes first.
pub open spec fn attr_len(items: Seq<AttrItem>, found: Option<usize>) -> Result<Option<usize>, FieldError>
    decreases items.len(),
{
    if items.len() == 0 {
        Ok(found)
    } else {
        match items[0] {
            AttrItem::Len(n) => attr_len(items.drop_first(), Some(n)),
            AttrItem::Unknown(name) => Err(FieldError::UnknownAttribute(name)),
        }
    }
}

/// The length that a field's attributes give: that of the first attribute that
/// gives one.
pub open spec fn attrs_len(attrs: Seq<Vec<AttrItem>>) -> Result<Option<usize>, FieldError>
    decreases attrs.len(),
{
    if attrs.len() == 0 {
        Ok(None)
    } else {
        match attr_len(attrs[0]@, None) {
            Err(e) => Err(e),
            Ok(Some(n)) => Ok(Some(n)),
            Ok(None) => attrs_len(attrs.drop_first()),
        }
    }
}

/// What a field is, or why it cannot be a configuration field.
pub open spec fn kind_of(field: FieldDecl) -> Result<FieldKind, FieldError> {
    if field.name@.len() > 15 {
        Err(FieldError::NameTooLong(field.name))
    } else {
        let (inner, optional) = match option_inner(field.ty) {
            Some(t) => (t, true),
            None => (field.ty, false),
        };
        match class_of(inner) {
            Err(e) => Err(e),
            Ok(TypeClass::HeaplessStr(len)) => match attrs_len(field.attrs@) {
                Err(e) => Err(e),
                Ok(Some(_)) => Err(FieldError::RedundantLength),
                Ok(None) => Ok(FieldKind::Str { len, kind: StringKind::Heapless, optional }),
            },
            Ok(TypeClass::StdStr) => match attrs_len(field.attrs@) {
                Err(e) => Err(e),
                Ok(Some(len)) => Ok(FieldKind::Str { len, kind: StringKind::Std, optional }),
                Ok(None) => Err(FieldError::MissingLength),
            },
            Ok(TypeClass::Known(kt)) => match attrs_len(field.attrs@) {
                Err(e) => Err(e),
                Ok(Some(_)) => Err(FieldError::LengthNotAllowed),
                Ok(None) => Ok(FieldKind::Known { kt, optional }),
            },
        }
    }
}

/// The unset value of a field's kind, which the schema holds for it.
pub open spec fn unset_value(kind: FieldKind) -> TypedValue {
    match kind {
        FieldKind::Str { len, .. } => TypedValue::String(len, None),
        FieldKind::Known { kt, .. } => match kt {
            KnownType::Int32 => TypedValue::Int32(None),
            KnownType::Int64 => TypedValue::Int64(None),
            KnownType::Bool => TypedValue::Bool(None),
            KnownType::TimeZone => TypedValue::TimeZone(None),
            KnownType::Cron => TypedValue::Cron(None),
            KnownType::Color => TypedValue::Color(None),
        },
    }
}

/// Whether a field must have a value.
pub open spec fn kind_required(kind: FieldKind) -> bool {
    match kind {
        FieldKind::Str { optional, .. } => !optional,
        FieldKind::Known { optional, .. } => !optional,
    }
}

fn segment_is(s: &String, text: &str) -> (r: bool)
    ensures
        r == (s@ == text@),
{
    str_eq(s.as_str(), text)
}

/// The type inside `Option<..>`, when the path is one.
pub fn unwrap_option(ty: &TypePath) -> (r: Option<&TypePath>)
    ensures
        match option_inner(*ty) {
            Some(t) => r == Some(&t),
            None => r is None,
        },
{
    let n = ty.segments.len();
    if n == 0 || !segment_is(&ty.segments[n - 1], "Option") {
        return None;
    }
    match &ty.arg {
        Some(TypeArg::Type(inner)) => Some(&**inner),
        _ => None,
    }
}

/// The values that a setting of an integer kind holds: the range of its Rust type.
pub open spec fn known_int_range(kt: KnownType) -> Option<(int, int)> {
    match kt {
        KnownType::Int32 => Some((i32::MIN as int, i32::MAX as int)),
        KnownType::Int64 => Some((i64::MIN as int, i64::MAX as int)),
        _ => None,
    }
}

/// A field of a primitive integer type gets a setting of that type's width: a path
/// ending in `i32` classifies as a kind holding exactly the `i32` values, one ending
/// in `i64` as a kind holding exactly the `i64` values, whatever module path comes
/// before.
pub proof fn lemma_integer_types_keep_their_width(ty: TypePath)
    requires
        ty.segments@.len() > 0,
    ensures
        ty.segments@.last()@ == "i32"@ ==> (class_of(ty) matches Ok(TypeClass::Known(kt))
            && known_int_range(kt) == Some((i32::MIN as int, i32::MAX as int))),
        ty.segments@.last()@ == "i64"@ ==> (class_of(ty) matches Ok(TypeClass::Known(kt))
            && known_int_range(kt) == Some((i64::MIN as int, i64::MAX as int))),
{
    reveal_strlit("i32");
    reveal_strlit("i64");
    reveal_strlit("String");
    assert("i32"@.len() == 3 && "i64"@.len() == 3 && "String"@.len() == 6);
    assert("i32"@[1] != "i64"@[1]);
    assert("i32"@ != "i64"@);
}

/// What a (non-optional) type path stands for, or why it is refused.
pub fn classify_type(ty: &TypePath) -> (r: Result<TypeClass, FieldError>)
    ensures
        r == class_of(*ty),
{
    let n = ty.segments.len();
    if n >= 2 && segment_is(&ty.segments[n - 2], "heapless") && segment_is(&ty.segments[n - 1], "String") {
        return match &ty.arg {
            Some(TypeArg::Const(len)) => Ok(TypeClass::HeaplessStr(*len)),
            _ => Err(FieldError::HeaplessWithoutLength),
        };
    }
    if n == 0 {
        return Err(FieldError::UnsupportedShape);
    }
    let last = &ty.segments[n - 1];
    if segment_is(last, "i32") {
        Ok(TypeClass::Known(KnownType::Int32))
    } else if segment_is(last, "i64") {
        Ok(TypeClass::Known(KnownType::Int64))
    } else if segment_is(last, "bool") {
        Ok(TypeClass::Known(KnownType::Bool))
    } else if segment_is(last, "TimeZone") {
        Ok(TypeClass::Known(KnownType::TimeZone))
    } else if segment_is(last, "Cron") {
        Ok(TypeClass::Known(KnownType::Cron))
    } else if segment_is(last, "RGB8") {
        Ok(TypeClass::Known(KnownType::Color))
    } else if segment_is(last, "String") {
        Ok(TypeClass::StdStr)
    } else {
        Err(FieldError::UnsupportedType(last.clone()))
    }
}

/// The length that a field's `#[config(len = N)]` attributes give, if any.
pub fn parse_string_len_attr(field: &FieldDecl) -> (r: Result<Option<usize>, FieldError>)
    ensures
        r == attrs_len(field.attrs@),
{
    let mut i: usize = 0;
    assert(field.attrs@.skip(0) =~= field.attrs@);
    while i < field.attrs.len()
        invariant
            i <= field.attrs@.len(),
            attrs_len(field.attrs@) == attrs_len(field.attrs@.skip(i as int)),
        decreases field.attrs@.len() - i,
    {
        let items = &field.attrs[i];
        let mut found: Option<usize> = None;
        let mut j: usize = 0;
        assert(items@.skip(0) =~= items@);
        assert(field.attrs@.skip(i as int)[0] == *items);
        while j < items.len()
            invariant
                i < field.attrs@.len(),
                field.attrs@[i as int] == *items,
                attrs_len(field.attrs@) == attrs_len(field.attrs@.skip(i as int)),
                field.attrs@.skip(i as int)[0] == *items,
                j <= items@.len(),
                attr_len(items@, None) == attr_len(items@.skip(j as int), found),
            decreases items@.len() - j,
        {
            assert(items@.skip(j as int).drop_first() =~= items@.skip(j + 1));
            match &items[j] {
                AttrItem::Len(n) => {
                    found = Some(*n);
                },
                AttrItem::Unknown(name) => {
                    return Err(FieldError::UnknownAttribute(name.clone()));
                },
            }
            j = j + 1;
        }
        assert(field.attrs@.skip(i as int).drop_first() =~= field.attrs@.skip(i + 1));
        if found.is_some() {
            return Ok(found);
        }
        i = i + 1;
    }
    Ok(None)
}

/// What a field is, or why it cannot be a configuration field.
pub fn field_kind(field: &FieldDecl) -> (r: Result<FieldKind, FieldError>)
    ensures
        r == kind_of(*field),
{
    if field.name.as_str().unicode_len() > 15 {
        return Err(FieldError::NameTooLong(field.name.clone()));
    }
    let (inner, optional) = match unwrap_option(&field.ty) {
        Some(t) => (t, true),
        None => (&field.ty, false),
    };
    match classify_type(inner) {
        Err(e) => Err(e),
        Ok(TypeClass::HeaplessStr(len)) => match parse_string_len_attr(field) {
            Err(e) => Err(e),
            Ok(Some(_)) => Err(FieldError::RedundantLength),
            Ok(None) => Ok(FieldKind::Str { len, kind: StringKind::Heapless, optional }),
        },
        Ok(TypeClass::StdStr) => match parse_string_len_attr(field) {
            Err(e) => Err(e),
            Ok(Some(len)) => Ok(FieldKind::Str { len, kind: StringKind::Std, optional }),
            Ok(None) => Err(FieldError::MissingLength),
        },
        Ok(TypeClass::Known(kt)) => match parse_string_len_attr(field) {
            Err(e) => Err(e),
            Ok(Some(_)) => Err(FieldError::LengthNotAllowed),
            Ok(None) => Ok(FieldKind::Known { kt, optional }),
        },
    }
}

/// The schema entry of a field: the unset value of its kind, required unless
/// the field is optional.
pub fn schema_value(kind: FieldKind) -> (r: ConfigSpecValue)
    ensures
        r.value == unset_value(kind),
        r.required == kind_required(kind),
        r.problem_id is None,
{
    let value = match kind {
        FieldKind::Str { len, .. } => TypedValue::String(len, None),
        FieldKind::Known { kt, .. } => match kt {
            KnownType::Int32 => TypedValue::Int32(None),
            KnownType::Int64 => TypedValue::Int64(None),
            KnownType::Bool => TypedValue::Bool(None),
            KnownType::TimeZone => TypedValue::TimeZone(None),
            KnownType::Cron => TypedValue::Cron(None),
            KnownType::Color => TypedValue::Color(None),
        },
    };
    let required = match kind {
        FieldKind::Str { optional, .. } => !optional,
        FieldKind::Known { optional, .. } => !optional,
    };
    ConfigSpecValue::new(value, required)
}

/// The upper-case form of a text, as `str::to_uppercase` gives it.
pub uninterp spec fn uppercase(s: Seq<char>) -> Seq<char>;

/// Whether every character of a text is ASCII.
pub open spec fn all_ascii(s: Seq<char>) -> bool {
    forall|i: int| 0 <= i < s.len() ==> (s[i] as u32) < 128
}

/// An ASCII character in upper case: `a` to `z` become `A` to `Z`, the rest stay.
pub open spec fn ascii_upper_char(c: char) -> char {
    if 'a' <= c <= 'z' {
        ((c as u32) - 32) as char
    } else {
        c
    }
}

/// An ASCII text in upper case, character by character.
pub open spec fn ascii_upper(s: Seq<char>) -> Seq<char> {
    s.map_values(|c: char| ascii_upper_char(c))
}

/// `str::to_uppercase`: the text in upper case (Unicode's mapping, which
/// depends on the text alone). On ASCII text that mapping turns `a` to `z` into
/// `A` to `Z` and leaves every other character as it is.
#[verifier::external_body]
fn to_upper(s: &str) -> (r: String)
    ensures
        r@ == uppercase(s@),
        all_ascii(s@) ==> r@ == ascii_upper(s@),
{
    s.to_uppercase()
}

/// The kind of an accepted field (any kind for a refused one).
pub open spec fn accepted_kind(f: FieldDecl) -> FieldKind {
    match kind_of(f) {
        Ok(k) => k,
        Err(_) => FieldKind::Known { kt: KnownType::Bool, optional: false },
    }
}

/// The schema key of a field: its name in upper case.
pub open spec fn field_key(f: FieldDecl) -> Seq<char> {
    if all_ascii(f.name@) {
        ascii_upper(f.name@)
    } else {
        uppercase(f.name@)
    }
}

/// The schema entry of an accepted field.
pub open spec fn field_entry(f: FieldDecl) -> (Seq<char>, ConfigSpecValue) {
    (
        field_key(f),
        ConfigSpecValue {
            value: unset_value(accepted_kind(f)),
            required: kind_required(accepted_kind(f)),
            problem_id: None,
        },
    )
}

/// The schema entries of the fields, in their order.
pub open spec fn field_entries(fields: Seq<FieldDecl>) -> Seq<(Seq<char>, ConfigSpecValue)> {
    fields.map_values(|f: FieldDecl| field_entry(f))
}

/// The first refused field from position `i` on, with why it was refused.
pub open spec fn first_field_error(fields: Seq<FieldDecl>, i: int) -> Option<FieldError>
    decreases fields.len() - i,
{
    if i < 0 || i >= fields.len() {
        None
    } else {
        match kind_of(fields[i]) {
            Err(e) => Some(e),
            Ok(_) => first_field_error(fields, i + 1),
        }
    }
}

/// Whether a schema refuses a key after the given entries: a repeated key, or a
/// name that the schema's rules refuse.
pub open spec fn key_refused(prior: Seq<(Seq<char>, ConfigSpecValue)>, key: Seq<char>) -> bool {
    has_key(prior, key) || vstd::utf8::encode_utf8(key).len() > 15 || (key.len() > 0 && key[0] == '_')
}

/// The position of the first entry from `i` on that the schema refuses.
pub open spec fn first_refused(entries: Seq<(Seq<char>, ConfigSpecValue)>, i: int) -> Option<int>
    decreases entries.len() - i,
{
    if i < 0 || i >= entries.len() {
        None
    } else if key_refused(entries.take(i), entries[i].0) {
        Some(i)
    } else {
        first_refused(entries, i + 1)
    }
}

/// The error that a schema gives for a refused key after the given entries.
pub open spec fn refusal(e: ConfigError, prior: Seq<(Seq<char>, ConfigSpecValue)>, key: Seq<char>) -> bool {
    if has_key(prior, key) {
        e matches ConfigError::DuplicateName(n) && n@ == key
    } else if vstd::utf8::encode_utf8(key).len() > 15 {
        e matches ConfigError::NameTooLong(n) && n@ == key
    } else {
        e matches ConfigError::InvalidName(n) && n@ == key
    }
}

/// Why a configuration struct has no schema.
#[derive(Debug, Clone, PartialEq, Eq)]
pub enum SchemaError {
    /// A field cannot be a configuration field.
    Field(FieldError),
    /// The schema refuses a field's key.
    Config(ConfigError),
}

/// The schema of a configuration struct: for each field in order, its key (the
/// name in upper case) with the unset value of its kind, required unless the
/// field is optional. The first refused field, or else the first key that the
/// schema refuses, is reported instead.
pub fn config_schema(fields: &Vec<FieldDecl>) -> (r: Result<ConfigSpec, SchemaError>)
    ensures
        match first_field_error(fields@, 0) {
            Some(e) => r == Err::<ConfigSpec, SchemaError>(SchemaError::Field(e)),
            None => match first_refused(field_entries(fields@), 0) {
                Some(i) => r matches Err(SchemaError::Config(e)) && refusal(
                    e,
                    field_entries(fields@).take(i),
                    field_entries(fields@)[i].0,
                ),
                None => r matches Ok(spec) && spec.wf() && spec.entries() == field_entries(fields@),
            },
        },
{
    let n = fields.len();
    let mut kinds: Vec<FieldKind> = Vec::new();
    let mut i: usize = 0;
    while i < n
        invariant
            n == fields@.len(),
            i <= n,
            kinds@.len() == i,
            forall|j: int| 0 <= j < i ==> kind_of(#[trigger] fields@[j]) == Ok::<FieldKind, FieldError>(kinds@[j]),
            first_field_error(fields@, 0) == first_field_error(fields@, i as int),
        decreases n - i,
    {
        match field_kind(&fields[i]) {
            Err(e) => {
                return Err(SchemaError::Field(e));
            },
            Ok(k) => {
                kinds.push(k);
            },
        }
        i = i + 1;
    }
    let ghost entries = field_entries(fields@);
    let mut b = ConfigSpec::builder();
    let mut i: usize = 0;
    assert(entries.take(0) =~= Seq::<(Seq<char>, ConfigSpecValue)>::empty());
    while i < n
        invariant
            n == fields@.len(),
            kinds@.len() == n,
            forall|j: int| 0 <= j < n ==> kind_of(#[trigger] fields@[j]) == Ok::<FieldKind, FieldError>(kinds@[j]),
            first_field_error(fields@, 0) == first_field_error(fields@, n as int),
            entries == field_entries(fields@),
            i <= n,
            b.wf(),
            b.entries() == entries.take(i as int),
            first_refused(entries, 0) == first_refused(entries, i as int),
        decreases n - i,
    {
        let key = to_upper(fields[i].name.as_str());
        let value = schema_value(kinds[i]);
        assert(kind_of(fields@[i as int]) == Ok::<FieldKind, FieldError>(kinds@[i as int]));
        assert(entries[i as int] == (key@, value));
        match b.insert(key, value) {
            Err(e) => {
                return Err(SchemaError::Config(e));
            },
            Ok(()) => {},
        }
        assert(entries.take(i + 1) =~= entries.take(i as int).push(entries[i as int]));
        i = i + 1;
    }
    assert(entries.take(n as int) =~= entries);
    Ok(b.build())
}

/// Why a field's value could not be read out of a loaded schema.
#[derive(Clone, Copy, Debug, PartialEq, Eq, Structural)]
pub enum ReadError {
    /// The entry holds a value of another kind, or none where one is required.
    WrongType,
    /// The schema has no entry for a required field.
    Missing,
    /// The text is longer than the field's fixed capacity (in bytes).
    TooLong(usize),
}

/// Whether a value is set and of the field's kind.
pub open spec fn set_of_kind(kind: FieldKind, v: TypedValue) -> bool {
    match kind {
        FieldKind::Str { .. } => v matches TypedValue::String(_, Some(_)),
        FieldKind::Known { kt, .. } => match kt {
            KnownType::Int32 => v matches TypedValue::Int32(Some(_)),
            KnownType::Int64 => v matches TypedValue::Int64(Some(_)),
            KnownType::Bool => v matches TypedValue::Bool(Some(_)),
            KnownType::TimeZone => v matches TypedValue::TimeZone(Some(_)),
            KnownType::Cron => v matches TypedValue::Cron(Some(_)),
            KnownType::Color => v matches TypedValue::Color(Some(_)),
        },
    }
}

/// Whether the field may be left unset.
pub open spec fn kind_optional(kind: FieldKind) -> bool {
    !kind_required(kind)
}

/// Whether a set text overflows the fixed capacity of a `heapless::String` field
/// (whose `try_from` refuses a text of more bytes than its capacity).
pub open spec fn overflows(kind: FieldKind, v: TypedValue) -> bool {
    match (kind, v) {
        (FieldKind::Str { len, kind: StringKind::Heapless, .. }, TypedValue::String(_, Some(s))) =>
            vstd::utf8::encode_utf8(s@).len() > len,
        _ => false,
    }
}

/// Reads a field's value out of its schema entry: the entry's value when it is set
/// and of the field's kind, nothing for an optional field that is absent or unset,
/// and otherwise why not.
pub fn read_field<'a>(kind: FieldKind, entry: Option<&'a ConfigSpecValue>) -> (r: Result<Option<&'a TypedValue>, ReadError>)
    ensures
        match entry {
            None => if kind_optional(kind) {
                r == Ok::<Option<&TypedValue>, ReadError>(None)
            } else {
                r == Err::<Option<&TypedValue>, ReadError>(ReadError::Missing)
            },
            Some(v) => if set_of_kind(kind, v.value) {
                if overflows(kind, v.value) {
                    r matches Err(ReadError::TooLong(n)) && kind matches FieldKind::Str { len, .. } && n == len
                } else {
                    r == Ok::<Option<&TypedValue>, ReadError>(Some(&v.value))
                }
            } else if kind_optional(kind) && value_is_none(v.value) {
                r == Ok::<Option<&TypedValue>, ReadError>(None)
            } else {
                r == Err::<Option<&TypedValue>, ReadError>(ReadError::WrongType)
            },
        },
{
    let optional = match kind {
        FieldKind::Str { optional, .. } => optional,
        FieldKind::Known { optional, .. } => optional,
    };
    let v = match entry {
        None => {
            return if optional {
                Ok(None)
            } else {
                Err(ReadError::Missing)
            };
        },
        Some(v) => v,
    };
    let matching = match (kind, &v.value) {
        (FieldKind::Str { .. }, TypedValue::String(_, Some(_))) => true,
        (FieldKind::Known { kt: KnownType::Int32, .. }, TypedValue::Int32(Some(_))) => true,
        (FieldKind::Known { kt: KnownType::Int64, .. }, TypedValue::Int64(Some(_))) => true,
        (FieldKind::Known { kt: KnownType::Bool, .. }, TypedValue::Bool(Some(_))) => true,
        (FieldKind::Known { kt: KnownType::TimeZone, .. }, TypedValue::TimeZone(Some(_))) => true,
        (FieldKind::Known { kt: KnownType::Cron, .. }, TypedValue::Cron(Some(_))) => true,
        (FieldKind::Known { kt: KnownType::Color, .. }, TypedValue::Color(Some(_))) => true,
        _ => false,
    };
    if matching {
        match (kind, &v.value) {
            (FieldKind::Str { len, kind: StringKind::Heapless, .. }, TypedValue::String(_, Some(s))) => {
                if s.as_str().as_bytes().len() > len {
                    return Err(ReadError::TooLong(len));
                }
            },
            _ => {},
        }
        Ok(Some(&v.value))
    } else if optional && v.value.is_none() {
        Ok(None)
    } else {
        Err(ReadError::WrongType)
    }
}

} // verus!
