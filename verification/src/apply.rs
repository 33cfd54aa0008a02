//! What a reconcile pass writes to the cluster.
//!
//! A pass writes twice. It applies the text of the configuration to one key
//! of the secret, as the owner of that field, so that fields of other owners
//! stay as they are. Then it sets one annotation on the pod template of the
//! deployment to the fingerprint of that text: the pods restart when the
//! annotation changes, and only then.

use crate::context::{Context, ContextView};
use crate::fingerprint::{
    decimal, decimal_text, fingerprint, fingerprint_of, lemma_decimal_text_tells_apart,
};
use vstd::prelude::*;

verus! {

/// The key of the secret under which the configuration is kept.
pub const CONFIG_KEY: &'static str = "configuration.acl.yaml";

/// The annotation of the pod template that carries the fingerprint.
pub const HASH_ANNOTATION: &'static str = "authelia.huizinga.dev/aclHash";

/// Apply `contents` to `key` of the string data of the secret `name`, as the
/// field owner `field_manager`.
#[derive(Debug, PartialEq, Eq)]
pub struct SecretPatch {
    pub namespace: String,
    pub name: String,
    pub field_manager: String,
    pub key: String,
    pub contents: String,
}

/// A `SecretPatch` as plain text.
pub struct SecretPatchView {
    pub namespace: Seq<char>,
    pub name: Seq<char>,
    pub field_manager: Seq<char>,
    pub key: Seq<char>,
    pub contents: Seq<char>,
}

impl View for SecretPatch {
    type V = SecretPatchView;

    open spec fn view(&self) -> SecretPatchView {
        SecretPatchView {
            namespace: self.namespace@,
            name: self.name@,
            field_manager: self.field_manager@,
            key: self.key@,
            contents: self.contents@,
        }
    }
}

/// Set `annotation` on the pod template of the deployment `name` to `value`,
/// and touch nothing else.
#[derive(Debug, PartialEq, Eq)]
pub struct DeploymentPatch {
    pub namespace: String,
    pub name: String,
    pub annotation: String,
    pub value: String,
}

/// A `DeploymentPatch` as plain text.
pub struct DeploymentPatchView {
    pub namespace: Seq<char>,
    pub name: Seq<char>,
    pub annotation: Seq<char>,
    pub value: Seq<char>,
}

impl View for DeploymentPatch {
    type V = DeploymentPatchView;

    open spec fn view(&self) -> DeploymentPatchView {
        DeploymentPatchView {
            namespace: self.namespace@,
            name: self.name@,
            annotation: self.annotation@,
            value: self.value@,
        }
    }
}

/// The two writes of one reconcile pass, in their order: the secret first,
/// the deployment only when the secret was written.
#[derive(Debug, PartialEq, Eq)]
pub struct Update {
    pub secret: SecretPatch,
    pub deployment: DeploymentPatch,
}

/// An `Update` as plain text.
pub struct UpdateView {
    pub secret: SecretPatchView,
    pub deployment: DeploymentPatchView,
}

impl View for Update {
    type V = UpdateView;

    open spec fn view(&self) -> UpdateView {
        UpdateView { secret: self.secret@, deployment: self.deployment@ }
    }
}

/// The writes that bring the cluster to the configuration with this text.
pub open spec fn planned_update(ctx: ContextView, text: Seq<char>) -> UpdateView {
    UpdateView {
        secret: SecretPatchView {
            namespace: ctx.namespace,
            name: ctx.secret_name,
            field_manager: ctx.controller_name,
            key: CONFIG_KEY@,
            contents: text,
        },
        deployment: DeploymentPatchView {
            namespace: ctx.namespace,
            name: ctx.deployment_name,
            annotation: HASH_ANNOTATION@,
            value: decimal_text(fingerprint_of(text) as nat),
        },
    }
}

/// The annotation tells fingerprints apart: where two texts lead to one
/// value of the annotation, they have one fingerprint.
pub proof fn lemma_annotation_tells_fingerprints_apart(
    ctx: ContextView,
    first: Seq<char>,
    second: Seq<char>,
)
    requires
        planned_update(ctx, first).deployment.value == planned_update(
            ctx,
            second,
        ).deployment.value,
    ensures
        fingerprint_of(first) == fingerprint_of(second),
{
    lemma_decimal_text_tells_apart(fingerprint_of(first) as nat, fingerprint_of(second) as nat);
}

/// Plans the writes for a configuration, given its text.
pub fn plan(ctx: &Context, text: String) -> (update: Update)
    ensures
        update@ == planned_update(ctx@, text@),
{
    let hash = fingerprint(text.as_str());
    Update {
        secret: SecretPatch {
            namespace: ctx.namespace.clone(),
            name: ctx.secret_name.clone(),
            field_manager: ctx.controller_name.clone(),
            key: CONFIG_KEY.to_owned(),
            contents: text,
        },
        deployment: DeploymentPatch {
            namespace: ctx.namespace.clone(),
            name: ctx.deployment_name.clone(),
            annotation: HASH_ANNOTATION.to_owned(),
            value: decimal(hash),
        },
    }
}

} // verus!
