//! Error taxonomy visible inside the reconciler.

use vstd::prelude::*;

verus! {

/// Rendering the workspace failed: the playbook was not valid YAML or a
/// variable set could not be serialized.  Carries the underlying message.
#[derive(Clone, Debug)]
pub enum RenderError {
    SerializationError(String),
}

/// Everything a reconcile pass can fail with.
#[derive(Clone, Debug)]
pub enum ReconcileError {
    /// A cluster-API call failed; transient, carried through verbatim.
    KubeError(String),
    /// The observed object lacks a field the reconciler needs.
    PreconditionFailed(String),
    /// The workspace could not be rendered from the plan.
    RenderError(RenderError),
    /// A JSON value could not be serialized or deserialized.
    JsonSerializationError(String),
    /// A YAML value could not be serialized or deserialized.
    YamlSerializationError(String),
}

} // verus!
