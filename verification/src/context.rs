//! What every reconcile pass needs to know about its surroundings.

use vstd::prelude::*;

verus! {

/// The names that the controller works with. Made once at startup and only
/// read after that.
#[derive(Debug, PartialEq, Eq)]
pub struct Context {
    /// The controller's own name: the owner under which it writes fields.
    pub controller_name: String,
    /// The namespace of the secret and the deployment.
    pub namespace: String,
    /// The deployment that runs Authelia.
    pub deployment_name: String,
    /// The secret that holds the access-control section.
    pub secret_name: String,
}

/// A `Context` as plain text.
pub struct ContextView {
    pub controller_name: Seq<char>,
    pub namespace: Seq<char>,
    pub deployment_name: Seq<char>,
    pub secret_name: Seq<char>,
}

impl View for Context {
    type V = ContextView;

    open spec fn view(&self) -> ContextView {
        ContextView {
            controller_name: self.controller_name@,
            namespace: self.namespace@,
            deployment_name: self.deployment_name@,
            secret_name: self.secret_name@,
        }
    }
}

impl Clone for Context {
    fn clone(&self) -> (copy: Self)
        ensures
            copy@ == self@,
    {
        Context {
            controller_name: self.controller_name.clone(),
            namespace: self.namespace.clone(),
            deployment_name: self.deployment_name.clone(),
            secret_name: self.secret_name.clone(),
        }
    }
}

impl Context {
    /// The context of a controller that is called `controller_name` and
    /// looks after the secret and the deployment of these names.
    pub fn new(
        controller_name: &str,
        namespace: String,
        deployment_name: String,
        secret_name: String,
    ) -> (ctx: Self)
        ensures
            ctx@ == (ContextView {
                controller_name: controller_name@,
                namespace: namespace@,
                deployment_name: deployment_name@,
                secret_name: secret_name@,
            }),
    {
        Context {
            controller_name: controller_name.to_owned(),
            namespace,
            deployment_name,
            secret_name,
        }
    }
}

} // verus!
