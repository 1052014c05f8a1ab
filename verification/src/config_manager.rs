//! The settings pages of all features together: the page, its validity, and
//! what a submitted form changes.
use vstd::prelude::*;
use vstd::string::StringExecFns;

use crate::config::{entry_valid, Config};
use crate::feature::{action_for, form_entries, form_text, page_text, planned_state, FormPlan, InnerFeatureConfig};
use crate::problem::{active_messages, ProblemManager};

verus! {

/// The start of the settings page.
pub const PAGE_OPEN: &'static str = "\n                <!DOCTYPE html>\n                <html lang=\"en\">\n                <head>\n                    <meta charset=\"utf-8\" />\n                    <meta name=\"viewport\" content=\"width=device-width, initial-scale=1\" />\n                    <title>ESP32 Setup</title>\n                    <link rel=\"stylesheet\" href=\"/main.css\">\n                </head>\n                <body>\n                    <div class=\"page\">";

/// The start of the list of active problems.
pub const PROBLEMS_OPEN: &'static str = "\n                    <div style=\"background: #ffdddd; border: 1px solid #ff5c5c; padding: 10px; margin-bottom: 18px; border-radius: 8px;\">\n                        <strong>Error:</strong> <ul>\n                ";

/// The end of the list of active problems.
pub const PROBLEMS_CLOSE: &'static str = "\n                    </ul>\n                    </div>\n                ";

/// The heading and the start of the settings form.
pub const FORM_OPEN: &'static str = "\n                        <h1>ESP32 Setup</h1>\n                        <form method=\"POST\" action=\"/update_config\">";

/// The save button and the end of the settings form.
pub const FORM_CLOSE: &'static str = "<button type=\"submit\">Save</button>\n                        </form>\n                ";

/// The end of the settings page.
pub const PAGE_CLOSE: &'static str = "\n                    </div>\n                </body>\n                </html>\n                ";

/// One feature's configuration, under the feature's name.
pub struct FeatureEntry {
    pub name: String,
    pub config: InnerFeatureConfig,
}

/// The configuration of all features, in the order in which they were added.
pub struct ConfigManager {
    pub features: Vec<FeatureEntry>,
}

/// The items of the problem list.
pub open spec fn problem_items(messages: Seq<Seq<char>>) -> Seq<char>
    decreases messages.len(),
{
    if messages.len() == 0 {
        Seq::empty()
    } else {
        problem_items(messages.drop_last()) + "<li>"@ + messages.last() + "</li>\n"@
    }
}

/// The parts of the features on the settings page, in order.
pub open spec fn features_text(features: Seq<FeatureEntry>) -> Seq<char>
    decreases features.len(),
{
    if features.len() == 0 {
        Seq::empty()
    } else {
        let f = features.last();
        features_text(features.drop_last()) + page_text(f.name@, f.config.enabled, f.config.config.entries())
    }
}

/// The settings page up to the end of the form: the active problems, if there are
/// any, then each feature's part.
pub open spec fn page_head(messages: Seq<Seq<char>>, features: Seq<FeatureEntry>) -> Seq<char> {
    PAGE_OPEN@ + (if messages.len() > 0 {
        PROBLEMS_OPEN@ + problem_items(messages) + PROBLEMS_CLOSE@
    } else {
        Seq::empty()
    }) + FORM_OPEN@ + features_text(features) + FORM_CLOSE@
}

/// Whether a feature's configuration is valid: the feature is off, or every
/// required setting has a value.
pub open spec fn feature_valid(c: InnerFeatureConfig) -> bool {
    !(c.enabled is Enabled || c.enabled is Required) || forall|i: int|
        0 <= i < c.config.entries().len() ==> entry_valid(#[trigger] c.config.entries()[i].1)
}

/// Whether a plan is what a form asks of a feature.
pub open spec fn plan_for(p: FormPlan, name: Seq<char>, c: InnerFeatureConfig, form: Seq<(Seq<char>, Seq<char>)>) -> bool {
    &&& p.enabled == planned_state(name, c.enabled, form)
    &&& p.settings@.len() == c.config.entries().len()
    &&& forall|i: int|
        0 <= i < c.config.entries().len() ==> action_for(
            #[trigger] p.settings@[i],
            form_text(form, c.config.entries()[i].0),
            c.config.entries()[i].1.value,
        )
}

/// The position of the first feature with a name.
pub open spec fn feature_index(features: Seq<FeatureEntry>, name: Seq<char>) -> Option<int>
    decreases features.len(),
{
    if features.len() == 0 {
        None
    } else if features.last().name@ == name && feature_index(features.drop_last(), name) is None {
        Some(features.len() - 1)
    } else {
        feature_index(features.drop_last(), name)
    }
}

impl ConfigManager {
    /// No feature yet.
    pub fn new() -> (r: Self)
        ensures
            r.features@.len() == 0,
    {
        ConfigManager { features: Vec::new() }
    }

    /// Adds a feature's configuration under its name: in place of the feature of
    /// that name, keeping its position, or else at the end. Returns the
    /// configuration that the feature is started with, and whether it is valid.
    pub fn add_feature(&mut self, entry: FeatureEntry) -> (r: (Config, bool))
        requires
            entry.config.config.wf(),
        ensures
            r.0.enabled == entry.config.enabled,
            r.0.spec.entries() == entry.config.config.entries(),
            r.0.spec.wf(),
            r.1 == feature_valid(entry.config),
            match feature_index(old(self).features@, entry.name@) {
                Some(i) => final(self).features@ == old(self).features@.update(i, entry),
                None => final(self).features@ == old(self).features@.push(entry),
            },
    {
        let config = entry.config.to_config();
        let valid = entry.config.is_valid();
        let n = self.features.len();
        let mut i: usize = 0;
        while i < n
            invariant
                n == self.features@.len(),
                self.features@ == old(self).features@,
                i <= n,
                valid == feature_valid(entry.config),
                config.enabled == entry.config.enabled,
                config.spec.entries() == entry.config.config.entries(),
                config.spec.wf(),
                feature_index(self.features@.take(i as int), entry.name@) is None,
            decreases n - i,
        {
            assert(self.features@.take(i + 1).drop_last() =~= self.features@.take(i as int));
            if self.features[i].name == entry.name {
                proof {
                    lemma_feature_index_prefix(self.features@, entry.name@, i as int);
                }
                let mut e = entry;
                std::mem::swap(&mut self.features[i], &mut e);
                return (config, valid);
            }
            i = i + 1;
        }
        assert(self.features@.take(n as int) =~= self.features@);
        self.features.push(entry);
        (config, valid)
    }

    /// Whether every feature's configuration is valid.
    pub fn is_valid(&self) -> (r: bool)
        ensures
            r == (forall|i: int| 0 <= i < self.features@.len() ==> feature_valid(#[trigger] self.features@[i].config)),
    {
        let mut i: usize = 0;
        while i < self.features.len()
            invariant
                i <= self.features@.len(),
                forall|j: int| 0 <= j < i ==> feature_valid(#[trigger] self.features@[j].config),
            decreases self.features@.len() - i,
        {
            if !self.features[i].config.is_valid() {
                return false;
            }
            i = i + 1;
        }
        true
    }

    /// The settings page up to the end of the form. The page goes on with the
    /// commands' part and ends with `PAGE_CLOSE`.
    pub fn show_config_page(&self, problems: &ProblemManager) -> (r: String)
        requires
            problems.wf(),
        ensures
            r@ == page_head(active_messages(problems@), self.features@),
    {
        let mut s = String::new();
        s.append(PAGE_OPEN);
        let messages = problems.iter().collect();
        let ghost msgs = active_messages(problems@);
        assert(crate::problem::str_views(messages@) == msgs);
        if !problems.is_empty() {
            proof {
                crate::problem::lemma_no_active_messages(problems@);
            }
            s.append(PROBLEMS_OPEN);
            let mut i: usize = 0;
            while i < messages.len()
                invariant
                    i <= messages@.len(),
                    crate::problem::str_views(messages@) == msgs,
                    s@ == PAGE_OPEN@ + PROBLEMS_OPEN@ + problem_items(msgs.take(i as int)),
                decreases messages@.len() - i,
            {
                s.append("<li>");
                s.append(messages[i]);
                s.append("</li>\n");
                proof {
                    assert(msgs.take(i + 1).drop_last() =~= msgs.take(i as int));
                    assert(msgs[i as int] == messages@[i as int]@);
                }
                i = i + 1;
            }
            assert(msgs.take(messages@.len() as int) =~= msgs);
            s.append(PROBLEMS_CLOSE);
        } else {
            proof {
                crate::problem::lemma_no_active_messages(problems@);
            }
        }
        s.append(FORM_OPEN);
        let mut i: usize = 0;
        let ghost before = s@;
        assert(self.features@.take(0) =~= Seq::<FeatureEntry>::empty());
        while i < self.features.len()
            invariant
                i <= self.features@.len(),
                s@ == before + features_text(self.features@.take(i as int)),
            decreases self.features@.len() - i,
        {
            let f = &self.features[i];
            let part = f.config.create_config_page(f.name.as_str());
            s.append(part.as_str());
            assert(self.features@.take(i + 1).drop_last() =~= self.features@.take(i as int));
            i = i + 1;
        }
        assert(self.features@.take(self.features@.len() as int) =~= self.features@);
        s.append(FORM_CLOSE);
        s
    }

    /// What a submitted settings form changes, feature by feature.
    pub fn handle_config_form(&self, form: &indexmap::IndexMap<String, String>) -> (r: Vec<FormPlan>)
        ensures
            r@.len() == self.features@.len(),
            forall|i: int|
                0 <= i < self.features@.len() ==> plan_for(
                    #[trigger] r@[i],
                    self.features@[i].name@,
                    self.features@[i].config,
                    form_entries(*form),
                ),
    {
        let mut plans: Vec<FormPlan> = Vec::new();
        let mut i: usize = 0;
        while i < self.features.len()
            invariant
                i <= self.features@.len(),
                plans@.len() == i,
                forall|j: int|
                    0 <= j < i ==> plan_for(
                        #[trigger] plans@[j],
                        self.features@[j].name@,
                        self.features@[j].config,
                        form_entries(*form),
                    ),
            decreases self.features@.len() - i,
        {
            let f = &self.features[i];
            plans.push(f.config.handle_config_form(f.name.as_str(), form));
            i = i + 1;
        }
        plans
    }
}

/// When the first `i` features lack the name and feature `i` has it, it is the
/// first with the name.
proof fn lemma_feature_index_prefix(features: Seq<FeatureEntry>, name: Seq<char>, i: int)
    requires
        0 <= i < features.len(),
        features[i].name@ == name,
        feature_index(features.take(i), name) is None,
    ensures
        feature_index(features, name) == Some(i),
    decreases features.len(),
{
    if features.len() - 1 > i {
        assert(features.drop_last().take(i) =~= features.take(i));
        assert(features.drop_last()[i] == features[i]);
        lemma_feature_index_prefix(features.drop_last(), name, i);
    } else {
        assert(features.drop_last() =~= features.take(i));
    }
}

} // verus!
