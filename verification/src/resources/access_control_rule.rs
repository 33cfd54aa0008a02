//! One access-control rule, as an operator declares it.

use crate::aggregate::{aggregate, derived_entries};
use crate::apply::{plan, planned_update, Update};
use crate::context::Context;
use crate::document::{configuration_text, document, to_yaml, SerializeError};
use crate::sorting::rules_of;
use crate::yaml::{fits, yaml_text};
use vstd::prelude::*;

verus! {

/// What Authelia does with a request that matches a rule.
#[derive(Clone, Copy, Debug, PartialEq, Eq, Hash, Structural)]
pub enum AccessPolicy {
    Deny,
    Bypass,
    OneFactor,
    TwoFactor,
}

/// The word that stands for a policy in the configuration document.
pub open spec fn policy_word(policy: AccessPolicy) -> Seq<char> {
    match policy {
        AccessPolicy::Deny => "deny"@,
        AccessPolicy::Bypass => "bypass"@,
        AccessPolicy::OneFactor => "one_factor"@,
        AccessPolicy::TwoFactor => "two_factor"@,
    }
}

impl AccessPolicy {
    /// The policy's word in the configuration document.
    pub fn as_str(&self) -> (word: &'static str)
        ensures
            word@ == policy_word(*self),
    {
        match self {
            AccessPolicy::Deny => "deny",
            AccessPolicy::Bypass => "bypass",
            AccessPolicy::OneFactor => "one_factor",
            AccessPolicy::TwoFactor => "two_factor",
        }
    }
}

/// One entry of the derived configuration: a rule without its name.
pub struct RuleEntry {
    pub domain: Seq<char>,
    pub policy: AccessPolicy,
    pub subject: Option<Seq<char>>,
}

/// A rule as the cluster knows it: the object's name and what it declares.
pub struct Rule {
    pub name: Seq<char>,
    pub entry: RuleEntry,
}

/// What an `AccessControlRule` object declares.
#[derive(Debug, PartialEq, Eq, Hash)]
pub struct AccessControlRuleSpec {
    domain: String,
    policy: AccessPolicy,
    subject: Option<String>,
}

impl View for AccessControlRuleSpec {
    type V = RuleEntry;

    closed spec fn view(&self) -> RuleEntry {
        RuleEntry {
            domain: self.domain@,
            policy: self.policy,
            subject: match self.subject {
                Some(subject) => Some(subject@),
                None => None,
            },
        }
    }
}

impl Clone for AccessControlRuleSpec {
    fn clone(&self) -> (copy: Self)
        ensures
            copy@ == self@,
    {
        AccessControlRuleSpec {
            domain: self.domain.clone(),
            policy: self.policy,
            subject: match &self.subject {
                Some(subject) => Some(subject.clone()),
                None => None,
            },
        }
    }
}

impl AccessControlRuleSpec {
    /// What a rule declares: the domain it is about, the policy for it, and
    /// whom it holds for; for everyone, where no subject is given.
    pub fn new(domain: String, policy: AccessPolicy, subject: Option<String>) -> (spec: Self)
        ensures
            spec@ == (RuleEntry {
                domain: domain@,
                policy,
                subject: match subject {
                    Some(subject) => Some(subject@),
                    None => None,
                },
            }),
    {
        AccessControlRuleSpec { domain, policy, subject }
    }

    /// The domain that the rule is about.
    pub fn domain(&self) -> (domain: &str)
        ensures
            domain@ == self@.domain,
    {
        self.domain.as_str()
    }

    /// The policy for the domain.
    pub fn policy(&self) -> (policy: AccessPolicy)
        ensures
            policy == self@.policy,
    {
        self.policy
    }

    /// Whom the rule holds for, if it says so.
    pub fn subject(&self) -> (subject: Option<&str>)
        ensures
            match subject {
                Some(subject) => self@.subject == Some(subject@),
                None => self@.subject is None,
            },
    {
        match &self.subject {
            Some(subject) => Some(subject.as_str()),
            None => None,
        }
    }
}

/// An `AccessControlRule` object: its name in the cluster and its spec.
#[derive(Debug, PartialEq, Eq, Hash)]
pub struct AccessControlRule {
    name: String,
    spec: AccessControlRuleSpec,
}

impl View for AccessControlRule {
    type V = Rule;

    closed spec fn view(&self) -> Rule {
        Rule { name: self.name@, entry: self.spec@ }
    }
}

impl Clone for AccessControlRule {
    fn clone(&self) -> (copy: Self)
        ensures
            copy@ == self@,
    {
        AccessControlRule { name: self.name.clone(), spec: self.spec.clone() }
    }
}

impl AccessControlRule {
    /// The object that is called `name` and declares `spec`.
    pub fn new(name: String, spec: AccessControlRuleSpec) -> (rule: Self)
        ensures
            rule@ == (Rule { name: name@, entry: spec@ }),
    {
        AccessControlRule { name, spec }
    }

    /// The object's name in the cluster.
    pub fn name(&self) -> (name: &str)
        ensures
            name@ == self@.name,
    {
        self.name.as_str()
    }

    /// What the object declares.
    pub fn spec(&self) -> (spec: &AccessControlRuleSpec)
        ensures
            spec@ == self@.entry,
    {
        &self.spec
    }

    /// One reconcile pass over a snapshot of the rules: derives the
    /// configuration and plans the writes that bring the cluster to it.
    ///
    /// The rules may come in any order. The pass fails where the document
    /// is too large to be written or the serializer fails on it, and then
    /// nothing is to be written.
    pub fn update_acl(rules: Vec<AccessControlRule>, ctx: &Context) -> (update: Result<
        Update,
        SerializeError,
    >)
        ensures
            match update {
                Ok(update) => {
                    &&& configuration_text(rules_of(rules@)) is Some
                    &&& update@ == planned_update(ctx@, configuration_text(rules_of(rules@))->0)
                },
                Err(SerializeError::TooLarge) => {
                    !fits(document(derived_entries(rules_of(rules@))))
                },
                Err(SerializeError::Serializer(_)) => {
                    &&& fits(document(derived_entries(rules_of(rules@))))
                    &&& yaml_text(document(derived_entries(rules_of(rules@)))) is None
                },
            },
    {
        let config = aggregate(rules);
        match to_yaml(&config) {
            Ok(text) => Ok(plan(ctx, text)),
            Err(error) => Err(error),
        }
    }

    /// Gives up the name and keeps what the object declares.
    pub fn into_spec(self) -> (spec: AccessControlRuleSpec)
        ensures
            spec@ == self@.entry,
    {
        self.spec
    }
}

} // verus!
