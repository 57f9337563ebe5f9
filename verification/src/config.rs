//! What a run is configured with: the two endpoints and the rule table.

use crate::document::{Doc, Mapping};
use crate::mask::{filter_config, masked};
use vstd::prelude::*;

verus! {

/// Where one namespace of a configuration center is reached, and as whom.
#[derive(Debug, PartialEq)]
pub struct Nacos {
    pub addr: String,
    pub namespace: String,
    pub username: Option<String>,
    pub password: Option<String>,
    pub app_name: Option<String>,
}

/// A rule: the mask for the document with the given identifier.
#[derive(Debug, PartialEq)]
pub struct IgnoreItem {
    pub data_id: String,
    pub fields: Mapping,
}

/// The configuration of a run: source, destination and the rule table.
#[derive(Debug, PartialEq)]
pub struct Config {
    pub from: Nacos,
    pub to: Nacos,
    pub ignore: Option<Vec<IgnoreItem>>,
}

/// What the command line gives.
#[derive(Debug)]
pub struct Args {
    pub config_path: Option<String>,
}

/// An endpoint as a mathematical value.
pub struct NacosView {
    pub addr: Seq<char>,
    pub namespace: Seq<char>,
    pub username: Option<Seq<char>>,
    pub password: Option<Seq<char>>,
    pub app_name: Option<Seq<char>>,
}

/// What an optional text is, as a mathematical value.
pub open spec fn optional_text(text: Option<String>) -> Option<Seq<char>> {
    match text {
        Some(text) => Some(text@),
        None => None,
    }
}

impl View for Nacos {
    type V = NacosView;

    open spec fn view(&self) -> NacosView {
        NacosView {
            addr: self.addr@,
            namespace: self.namespace@,
            username: optional_text(self.username),
            password: optional_text(self.password),
            app_name: optional_text(self.app_name),
        }
    }
}

/// The name and the password of an endpoint, where it has both.
pub open spec fn credentials_of(nacos: NacosView) -> Option<(Seq<char>, Seq<char>)> {
    match (nacos.username, nacos.password) {
        (Some(username), Some(password)) => Some((username, password)),
        _ => None,
    }
}

/// A rule as a mathematical value.
pub struct MaskRule {
    pub data_id: Seq<char>,
    pub mask: Seq<(Seq<char>, Doc)>,
}

impl View for IgnoreItem {
    type V = MaskRule;

    open spec fn view(&self) -> MaskRule {
        MaskRule { data_id: self.data_id@, mask: self.fields@ }
    }
}

impl Clone for IgnoreItem {
    fn clone(&self) -> (copy: IgnoreItem)
        ensures
            copy@ == self@,
    {
        IgnoreItem { data_id: self.data_id.clone(), fields: self.fields.clone() }
    }
}

/// The rules that a table of rules stands for, in the order of declaration.
pub open spec fn rules_view(rules: Seq<IgnoreItem>) -> Seq<MaskRule> {
    Seq::new(rules.len(), |i: int| rules[i]@)
}

/// Whether the table has a rule for the document `data_id`.
pub open spec fn in_scope(rules: Seq<MaskRule>, data_id: Seq<char>) -> bool {
    exists|i: int| 0 <= i < rules.len() && (#[trigger] rules[i]).data_id == data_id
}

/// The rule that is applied to the document `data_id`. A document is masked
/// where any rule of the table names it; the rule is then the one declared
/// first, whichever rule named the document.
pub open spec fn chosen_rule(rules: Seq<MaskRule>, data_id: Seq<char>) -> Option<MaskRule> {
    if in_scope(rules, data_id) {
        Some(rules[0])
    } else {
        None
    }
}

/// What is published of the document `data_id`: what the mask of the chosen
/// rule leaves of it, or the whole of it where no rule names it.
pub open spec fn masked_document(
    rules: Seq<MaskRule>,
    data_id: Seq<char>,
    fields: Seq<(Seq<char>, Doc)>,
) -> Seq<(Seq<char>, Doc)> {
    match chosen_rule(rules, data_id) {
        Some(rule) => masked(fields, rule.mask),
        None => fields,
    }
}

/// A document that no rule names is published whole. A document that any
/// rule names is published under the mask of the rule declared first, also
/// where another rule named it.
pub proof fn first_rule_masks_every_named_document(
    rules: Seq<MaskRule>,
    data_id: Seq<char>,
    fields: Seq<(Seq<char>, Doc)>,
)
    ensures
        !in_scope(rules, data_id) ==> masked_document(rules, data_id, fields) == fields,
        in_scope(rules, data_id) ==> masked_document(rules, data_id, fields) == masked(
            fields,
            rules[0].mask,
        ),
        forall|i: int|
            0 <= i < rules.len() ==> masked_document(
                rules,
                (#[trigger] rules[i]).data_id,
                fields,
            ) == masked(fields, rules[0].mask),
{
}

/// The words of the path at which the configuration is looked for where the
/// command line names none.
pub open spec fn default_config_path() -> Seq<char> {
    "sync-sync_config.yaml"@
}

impl Args {
    /// The path of the configuration file: the one that the command line
    /// names, else the default.
    pub fn config_path(self) -> (path: String)
        ensures
            path@ == match self.config_path {
                Some(given) => given@,
                None => default_config_path(),
            },
    {
        match self.config_path {
            Some(given) => given,
            None => "sync-sync_config.yaml".to_owned(),
        }
    }
}

impl Config {
    /// The rule table: the rules that the configuration names, or none.
    pub fn rules(self) -> (rules: Vec<IgnoreItem>)
        ensures
            rules_view(rules@) == match self.ignore {
                Some(named) => rules_view(named@),
                None => Seq::empty(),
            },
    {
        match self.ignore {
            Some(named) => named,
            None => {
                let rules: Vec<IgnoreItem> = Vec::new();
                assert(rules_view(rules@) =~= Seq::empty());
                rules
            },
        }
    }
}

impl Nacos {
    /// The name and the password to log in with, where the endpoint has both.
    pub fn credentials(&self) -> (pair: Option<(&String, &String)>)
        ensures
            match pair {
                Some((username, password)) => credentials_of(self@) == Some((username@, password@)),
                None => credentials_of(self@) is None,
            },
    {
        match (&self.username, &self.password) {
            (Some(username), Some(password)) => Some((username, password)),
            _ => None,
        }
    }
}

/// Whether a rule of the table names the document `data_id`.
pub fn has_rule(rules: &Vec<IgnoreItem>, data_id: &str) -> (found: bool)
    ensures
        found == in_scope(rules_view(rules@), data_id@),
{
    let wanted = data_id.to_owned();
    let mut index: usize = 0;
    while index < rules.len()
        invariant
            index <= rules.len(),
            wanted@ == data_id@,
            forall|j: int| 0 <= j < index ==> (#[trigger] rules_view(rules@)[j]).data_id != data_id@,
        decreases rules.len() - index,
    {
        if rules[index].data_id == wanted {
            assert(rules_view(rules@)[index as int].data_id == data_id@);
            return true;
        }
        index += 1;
    }
    false
}

/// The rule for the document `data_id`: the rule declared first, where any
/// rule of the table names the document.
pub fn lookup<'a>(rules: &'a Vec<IgnoreItem>, data_id: &str) -> (rule: Option<&'a IgnoreItem>)
    ensures
        match rule {
            Some(chosen) => chosen_rule(rules_view(rules@), data_id@) == Some(chosen@),
            None => chosen_rule(rules_view(rules@), data_id@) is None,
        },
{
    if has_rule(rules, data_id) {
        Some(&rules[0])
    } else {
        None
    }
}

/// Applies the rule table to the document `data_id`.
pub fn mask_document(rules: &Vec<IgnoreItem>, data_id: &str, document: Mapping) -> (published:
    Mapping)
    ensures
        published@ == masked_document(rules_view(rules@), data_id@, document@),
{
    match lookup(rules, data_id) {
        Some(rule) => filter_config(&document, &rule.fields),
        None => document,
    }
}

} // verus!
