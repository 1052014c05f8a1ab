//! A feature's configuration as the settings page shows it, and what a submitted
//! settings form changes.
use vstd::prelude::*;
use vstd::string::StringExecFns;

use crate::config::{checkbox_state, entry_valid, value_is_none, value_text, Config, ConfigSpec, EnabledState, TypedValue};
use crate::number::{nat_text, usize_to_string};
use crate::template::{fill, filled, views};
use crate::text::{str_chars, str_eq, string_from_chars, trim_chars, trimmed};
use crate::tz::{all_zones, tz_name, TimeZone};

verus! {

/// What croner's `Cron::describe` says of a schedule.
pub uninterp spec fn cron_description(c: croner::Cron) -> Seq<char>;

/// `Cron::describe`: croner's English description of a schedule, a function of
/// the schedule alone.
#[verifier::external_body]
fn describe_cron(c: &croner::Cron) -> (r: String)
    ensures
        r@ == cron_description(*c),
{
    c.describe()
}

/// The switch of a feature that can be turned off: its checkbox and heading.
pub open spec fn feature_toggle_pieces() -> Seq<Seq<char>> {
    seq![
        "\n                        <label for=\""@,
        "\">"@,
        "</label>\n                        <input id=\""@,
        "\" name=\""@,
        "\" type=\"checkbox\""@,
        ">\n                        <h2>"@,
        "</h2>\n            "@,
    ]
}

fn feature_toggle_template() -> (r: Vec<&'static str>)
    ensures
        views(r@) == feature_toggle_pieces(),
        r@.len() == 7,
{
    let r = vec![
        "\n                        <label for=\"",
        "\">",
        "</label>\n                        <input id=\"",
        "\" name=\"",
        "\" type=\"checkbox\"",
        ">\n                        <h2>",
        "</h2>\n            ",
    ];
    assert(views(r@) =~= feature_toggle_pieces());
    r
}

/// A yes/no setting: a checkbox.
pub open spec fn bool_field_pieces() -> Seq<Seq<char>> {
    seq![
        "\n                                <label for=\""@,
        "\">"@,
        "</label>\n                                <input id=\""@,
        "\" name=\""@,
        "\" type=\"checkbox\" value=\"true\" "@,
        ">\n                    "@,
    ]
}

fn bool_field_template() -> (r: Vec<&'static str>)
    ensures
        views(r@) == bool_field_pieces(),
        r@.len() == 6,
{
    let r = vec![
        "\n                                <label for=\"",
        "\">",
        "</label>\n                                <input id=\"",
        "\" name=\"",
        "\" type=\"checkbox\" value=\"true\" ",
        ">\n                    ",
    ];
    assert(views(r@) =~= bool_field_pieces());
    r
}

/// The opening of a time zone setting: its label and the start of its list.
pub open spec fn zone_field_pieces() -> Seq<Seq<char>> {
    seq![
        "\n                                <!-- Timezone field "@,
        "-->\n                        <label for=\""@,
        "\">"@,
        "</label>\n                        <select id=\""@,
        "\" name=\""@,
        "\">"@,
    ]
}

fn zone_field_template() -> (r: Vec<&'static str>)
    ensures
        views(r@) == zone_field_pieces(),
        r@.len() == 6,
{
    let r = vec![
        "\n                                <!-- Timezone field ",
        "-->\n                        <label for=\"",
        "\">",
        "</label>\n                        <select id=\"",
        "\" name=\"",
        "\">",
    ];
    assert(views(r@) =~= zone_field_pieces());
    r
}

/// One time zone of the list.
pub open spec fn zone_option_pieces() -> Seq<Seq<char>> {
    seq![
        "<option value=\""@,
        "\""@,
        ">"@,
        "</option>"@,
    ]
}

fn zone_option_template() -> (r: Vec<&'static str>)
    ensures
        views(r@) == zone_option_pieces(),
        r@.len() == 4,
{
    let r = vec![
        "<option value=\"",
        "\"",
        ">",
        "</option>",
    ];
    assert(views(r@) =~= zone_option_pieces());
    r
}

/// A schedule setting: its pattern, and croner's description beside it.
pub open spec fn cron_field_pieces() -> Seq<Seq<char>> {
    seq![
        "\n                                <!-- Cron field "@,
        "-->\n                                <label for=\""@,
        "\">"@,
        "</label>\n                                <input id=\""@,
        "\" name=\""@,
        "\" type=\"text\" value=\""@,
        "\">\n                                <input type=\"text\" value=\""@,
        "\" disabled>\n                    "@,
    ]
}

fn cron_field_template() -> (r: Vec<&'static str>)
    ensures
        views(r@) == cron_field_pieces(),
        r@.len() == 8,
{
    let r = vec![
        "\n                                <!-- Cron field ",
        "-->\n                                <label for=\"",
        "\">",
        "</label>\n                                <input id=\"",
        "\" name=\"",
        "\" type=\"text\" value=\"",
        "\">\n                                <input type=\"text\" value=\"",
        "\" disabled>\n                    ",
    ];
    assert(views(r@) =~= cron_field_pieces());
    r
}

/// Any other setting: a text or number input.
pub open spec fn other_field_pieces() -> Seq<Seq<char>> {
    seq![
        "\n                        <!-- Other field "@,
        "-->\n                        <label for=\""@,
        "\">"@,
        "</label>\n                        <input id=\""@,
        "\" name=\""@,
        "\" type=\""@,
        "\" autocomplete=\"off\" value=\""@,
        "\">\n            "@,
    ]
}

fn other_field_template() -> (r: Vec<&'static str>)
    ensures
        views(r@) == other_field_pieces(),
        r@.len() == 8,
{
    let r = vec![
        "\n                        <!-- Other field ",
        "-->\n                        <label for=\"",
        "\">",
        "</label>\n                        <input id=\"",
        "\" name=\"",
        "\" type=\"",
        "\" autocomplete=\"off\" value=\"",
        "\">\n            ",
    ];
    assert(views(r@) =~= other_field_pieces());
    r
}


/// What a submitted form holds, in order: each field's name with its text.
pub uninterp spec fn form_entries(m: indexmap::IndexMap<String, String>) -> Seq<(Seq<char>, Seq<char>)>;

/// The text under a name: that of the first entry with the name.
pub open spec fn form_lookup(entries: Seq<(Seq<char>, Seq<char>)>, key: Seq<char>) -> Option<Seq<char>>
    decreases entries.len(),
{
    if entries.len() == 0 {
        None
    } else if entries[0].0 == key {
        Some(entries[0].1)
    } else {
        form_lookup(entries.drop_first(), key)
    }
}

/// `IndexMap::get`: the value stored under a key. An `IndexMap` holds each key at
/// most once, so the first entry with the key is the only one.
#[verifier::external_body]
fn form_get<'a>(m: &'a indexmap::IndexMap<String, String>, key: &str) -> (r: Option<&'a String>)
    ensures
        match form_lookup(form_entries(*m), key@) {
            Some(v) => r matches Some(s) && s@ == v,
            None => r is None,
        },
{
    m.get(key)
}

/// The text of a form field without surrounding white space; empty when the form
/// has no such field.
pub open spec fn form_text(entries: Seq<(Seq<char>, Seq<char>)>, key: Seq<char>) -> Seq<char> {
    trimmed(
        match form_lookup(entries, key) {
            Some(v) => v,
            None => Seq::empty(),
        },
    )
}

fn field_text(form: &indexmap::IndexMap<String, String>, key: &str) -> (r: Vec<char>)
    ensures
        r@ == form_text(form_entries(*form), key@),
{
    let text: &str = match form_get(form, key) {
        Some(v) => v.as_str(),
        None => "",
    };
    proof {
        reveal_strlit("");
    }
    trim_chars(&str_chars(text))
}

/// What submitting the form does to one setting.
pub enum SettingAction {
    /// Nothing: the field is empty and the setting is unset.
    Keep,
    /// Unset the setting: the field is empty.
    Remove,
    /// Store the field's text as the setting's value.
    Save(String),
}

/// What submitting the form does to a feature: its new state, if the switch
/// changed it, and one action for each setting, in schema order.
pub struct FormPlan {
    pub enabled: Option<EnabledState>,
    pub settings: Vec<SettingAction>,
}

/// The state that the form's switch asks for, when it differs from the current one.
pub open spec fn planned_state(
    feature_name: Seq<char>,
    enabled: EnabledState,
    form: Seq<(Seq<char>, Seq<char>)>,
) -> Option<EnabledState> {
    if enabled is Required {
        None
    } else {
        let asked = checkbox_state(form_text(form, toggle_name(feature_name)) == "on"@);
        if asked == enabled {
            None
        } else {
            Some(asked)
        }
    }
}

/// The action for a setting whose field holds `text`.
pub open spec fn action_for(a: SettingAction, text: Seq<char>, v: TypedValue) -> bool {
    if text.len() == 0 {
        if value_is_none(v) {
            a is Keep
        } else {
            a is Remove
        }
    } else {
        a matches SettingAction::Save(s) && s@ == text
    }
}

/// What a feature says of itself: its name and the schema of its configuration.
pub struct FeatureDescriptor {
    pub name: String,
    pub config: ConfigSpec,
}

/// A feature's state and settings.
pub struct InnerFeatureConfig {
    pub enabled: EnabledState,
    pub config: ConfigSpec,
}

/// ` checked` when ticked, else nothing.
pub open spec fn checked_text(on: bool) -> Seq<char> {
    if on {
        " checked"@
    } else {
        ""@
    }
}

/// The form name of a feature's switch.
pub open spec fn toggle_name(feature_name: Seq<char>) -> Seq<char> {
    "feature_"@ + feature_name
}

/// The switch of a feature, unless it is required (and so always on).
pub open spec fn toggle_text(feature_name: Seq<char>, enabled: EnabledState) -> Seq<char> {
    if enabled is Required {
        Seq::empty()
    } else {
        let key = toggle_name(feature_name);
        filled(
            feature_toggle_pieces(),
            seq![key, key, key, key, checked_text(enabled is Enabled), feature_name],
        )
    }
}

/// The options of a time zone list, the current zone selected.
pub open spec fn zone_options(zones: Seq<TimeZone>, current: Option<TimeZone>) -> Seq<char>
    decreases zones.len(),
{
    if zones.len() == 0 {
        Seq::empty()
    } else {
        let z = zones.last();
        let selected = if current == Some(z) {
            " selected"@
        } else {
            ""@
        };
        zone_options(zones.drop_last(), current) + filled(
            zone_option_pieces(),
            seq![tz_name(z), selected, tz_name(z)],
        )
    }
}

/// The input type of a setting shown as a plain input.
pub open spec fn input_type(v: TypedValue) -> Seq<char> {
    match v {
        TypedValue::String(len, _) => "text\" maxlength=\""@ + nat_text(len as nat),
        TypedValue::Int32(_) => "number"@,
        TypedValue::Int64(_) => "number"@,
        TypedValue::Color(_) => "color"@,
        _ => Seq::empty(),
    }
}

/// The inputs of one setting.
pub open spec fn setting_text(name: Seq<char>, v: TypedValue) -> Seq<char> {
    match v {
        TypedValue::Bool(b) => filled(
            bool_field_pieces(),
            seq![name, name, name, name, checked_text(b == Some(true))],
        ),
        TypedValue::TimeZone(current) => filled(zone_field_pieces(), seq![name, name, name, name, name])
            + zone_options(all_zones(), current) + "</select>"@,
        TypedValue::Cron(c) => filled(
            cron_field_pieces(),
            seq![
                name,
                name,
                name,
                name,
                name,
                value_text(v),
                match c {
                    Some(c) => cron_description(c),
                    None => "None"@,
                },
            ],
        ),
        _ => filled(
            other_field_pieces(),
            seq![name, name, name, name, name, input_type(v), value_text(v)],
        ),
    }
}

/// The inputs of the settings, in schema order.
pub open spec fn settings_text(entries: Seq<(Seq<char>, crate::config::ConfigSpecValue)>) -> Seq<char>
    decreases entries.len(),
{
    if entries.len() == 0 {
        Seq::empty()
    } else {
        settings_text(entries.drop_last()) + setting_text(entries.last().0, entries.last().1.value)
    }
}

/// A feature's part of the settings page: its switch, then its settings.
pub open spec fn page_text(
    feature_name: Seq<char>,
    enabled: EnabledState,
    entries: Seq<(Seq<char>, crate::config::ConfigSpecValue)>,
) -> Seq<char> {
    toggle_text(feature_name, enabled) + settings_text(entries)
}

fn zone_list(current: &Option<TimeZone>) -> (r: String)
    ensures
        r@ == zone_options(all_zones(), *current),
{
    let zones = TimeZone::iter();
    let pieces = zone_option_template();
    let mut s = String::new();
    let mut i: usize = 0;
    while i < zones.len()
        invariant
            zones@ == all_zones(),
            views(pieces@) == zone_option_pieces(),
            pieces@.len() == 4,
            i <= zones@.len(),
            s@ == zone_options(zones@.take(i as int), *current),
        decreases zones@.len() - i,
    {
        let z = zones[i];
        let name = z.to_str();
        let selected = match current {
            Some(c) => if *c == z {
                " selected"
            } else {
                ""
            },
            None => "",
        };
        let args = vec![name, selected, name];
        let option = fill(&pieces, &args);
        proof {
            assert(views(args@) =~= seq![tz_name(z), if *current == Some(z) { " selected"@ } else { ""@ }, tz_name(z)]);
            assert(zones@.take(i + 1).drop_last() =~= zones@.take(i as int));
        }
        s.append(option.as_str());
        i = i + 1;
    }
    assert(zones@.take(zones@.len() as int) =~= zones@);
    s
}

fn setting_inputs(name: &str, v: &TypedValue) -> (r: String)
    ensures
        r@ == setting_text(name@, *v),
{
    match v {
        TypedValue::Bool(b) => {
            let checked = match b {
                Some(true) => " checked",
                _ => "",
            };
            let args = vec![name, name, name, name, checked];
            let r = fill(&bool_field_template(), &args);
            assert(views(args@) =~= seq![name@, name@, name@, name@, checked_text(*b == Some(true))]);
            r
        },
        TypedValue::TimeZone(current) => {
            let args = vec![name, name, name, name, name];
            let mut r = fill(&zone_field_template(), &args);
            assert(views(args@) =~= seq![name@, name@, name@, name@, name@]);
            let options = zone_list(current);
            r.append(options.as_str());
            r.append("</select>");
            r
        },
        TypedValue::Cron(c) => {
            let value = v.to_string();
            let description = match c {
                Some(c) => describe_cron(c),
                None => "None".to_owned(),
            };
            let args = vec![name, name, name, name, name, value.as_str(), description.as_str()];
            let r = fill(&cron_field_template(), &args);
            assert(views(args@) =~= seq![
                name@,
                name@,
                name@,
                name@,
                name@,
                value_text(*v),
                match *c {
                    Some(c) => cron_description(c),
                    None => "None"@,
                },
            ]);
            r
        },
        _ => {
            let kind = match v {
                TypedValue::String(len, _) => {
                    let mut t = "text\" maxlength=\"".to_owned();
                    t.append(usize_to_string(*len).as_str());
                    t
                },
                TypedValue::Int32(_) | TypedValue::Int64(_) => "number".to_owned(),
                TypedValue::Color(_) => "color".to_owned(),
                _ => String::new(),
            };
            let value = v.to_string();
            let args = vec![name, name, name, name, name, kind.as_str(), value.as_str()];
            let r = fill(&other_field_template(), &args);
            assert(views(args@) =~= seq![name@, name@, name@, name@, name@, input_type(*v), value_text(*v)]);
            r
        },
    }
}

impl InnerFeatureConfig {
    /// The configuration that the feature is started with: its state and a copy of
    /// its settings.
    pub fn to_config(&self) -> (r: Config)
        requires
            self.config.wf(),
        ensures
            r.enabled == self.enabled,
            r.spec.entries() == self.config.entries(),
            r.spec.wf(),
    {
        Config { enabled: self.enabled, spec: self.config.duplicate() }
    }

    /// A feature's configuration is valid when the feature is off or when every
    /// required setting has a value.
    pub fn is_valid(&self) -> (r: bool)
        ensures
            r == (!(self.enabled is Enabled || self.enabled is Required) || forall|i: int|
                0 <= i < self.config.entries().len() ==> entry_valid(#[trigger] self.config.entries()[i].1)),
    {
        if self.enabled.is_enabled() {
            self.config.is_valid()
        } else {
            true
        }
    }

    /// The feature's part of the settings page.
    pub fn create_config_page(&self, feature_name: &str) -> (r: String)
        ensures
            r@ == page_text(feature_name@, self.enabled, self.config.entries()),
    {
        let mut s = String::new();
        match self.enabled {
            EnabledState::Required => {},
            _ => {
                let mut key = "feature_".to_owned();
                key.append(feature_name);
                let checked = if self.enabled.is_enabled() {
                    " checked"
                } else {
                    ""
                };
                let args = vec![key.as_str(), key.as_str(), key.as_str(), key.as_str(), checked, feature_name];
                let t = fill(&feature_toggle_template(), &args);
                assert(views(args@) =~= seq![
                    toggle_name(feature_name@),
                    toggle_name(feature_name@),
                    toggle_name(feature_name@),
                    toggle_name(feature_name@),
                    checked_text(self.enabled is Enabled),
                    feature_name@,
                ]);
                s.append(t.as_str());
            },
        }
        let n = self.config.len();
        let mut i: usize = 0;
        assert(self.config.entries().take(0) =~= Seq::<(Seq<char>, crate::config::ConfigSpecValue)>::empty());
        while i < n
            invariant
                n == self.config.entries().len(),
                i <= n,
                s@ == toggle_text(feature_name@, self.enabled) + settings_text(self.config.entries().take(i as int)),
            decreases n - i,
        {
            match self.config.entry_at(i) {
                Some((name, value)) => {
                    let t = setting_inputs(name.as_str(), &value.value);
                    s.append(t.as_str());
                },
                None => {},
            }
            assert(self.config.entries().take(i + 1).drop_last() =~= self.config.entries().take(i as int));
            i = i + 1;
        }
        assert(self.config.entries().take(n as int) =~= self.config.entries());
        s
    }

    /// What a submitted settings form changes: the feature's state when its switch
    /// (`on` for ticked) asks for another one, unless the feature is required; and
    /// for each setting, to store the field's trimmed text, or, when that is empty,
    /// to unset the setting if it is set.
    pub fn handle_config_form(&self, feature_name: &str, form: &indexmap::IndexMap<String, String>) -> (r: FormPlan)
        ensures
            r.enabled == planned_state(feature_name@, self.enabled, form_entries(*form)),
            r.settings@.len() == self.config.entries().len(),
            forall|i: int|
                0 <= i < self.config.entries().len() ==> action_for(
                    #[trigger] r.settings@[i],
                    form_text(form_entries(*form), self.config.entries()[i].0),
                    self.config.entries()[i].1.value,
                ),
    {
        let enabled = match self.enabled {
            EnabledState::Required => None,
            _ => {
                let mut key = "feature_".to_owned();
                key.append(feature_name);
                let text = string_from_chars(field_text(form, key.as_str()).as_slice());
                let asked = EnabledState::from(str_eq(text.as_str(), "on"));
                if asked == self.enabled {
                    None
                } else {
                    Some(asked)
                }
            },
        };
        let n = self.config.len();
        let mut settings: Vec<SettingAction> = Vec::new();
        let mut i: usize = 0;
        while i < n
            invariant
                n == self.config.entries().len(),
                i <= n,
                settings@.len() == i,
                forall|j: int|
                    0 <= j < i ==> action_for(
                        #[trigger] settings@[j],
                        form_text(form_entries(*form), self.config.entries()[j].0),
                        self.config.entries()[j].1.value,
                    ),
            decreases n - i,
        {
            match self.config.entry_at(i) {
                Some((name, value)) => {
                    let text = field_text(form, name.as_str());
                    if text.len() == 0 {
                        if value.value.is_none() {
                            settings.push(SettingAction::Keep);
                        } else {
                            settings.push(SettingAction::Remove);
                        }
                    } else {
                        settings.push(SettingAction::Save(string_from_chars(text.as_slice())));
                    }
                },
                None => {
                    settings.push(SettingAction::Keep);
                },
            }
            i = i + 1;
        }
        FormPlan { enabled, settings }
    }
}

} // verus!
