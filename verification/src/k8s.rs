//! The parts of the Kubernetes objects that the operator reads and writes:
//! object metadata, owner references, secrets and deployments.
use vstd::prelude::*;

use crate::table::NamedTable;

verus! {

/// The metadata of an object.
#[derive(Debug, Clone, PartialEq)]
pub struct ObjectMeta {
    pub name: Option<String>,
    pub namespace: Option<String>,
    pub uid: Option<String>,
    pub labels: Option<NamedTable<String>>,
    pub owner_references: Option<Vec<OwnerReference>>,
}

impl ObjectMeta {
    /// Metadata with every field unset.
    pub fn empty() -> (m: ObjectMeta)
        ensures
            m.name is None,
            m.namespace is None,
            m.uid is None,
            m.labels is None,
            m.owner_references is None,
    {
        ObjectMeta { name: None, namespace: None, uid: None, labels: None, owner_references: None }
    }
}

/// A reference from an object to the object that owns it.
#[derive(Debug, Clone, PartialEq)]
pub struct OwnerReference {
    pub api_version: String,
    pub kind: String,
    pub name: String,
    pub uid: String,
    pub controller: Option<bool>,
    pub block_owner_deletion: Option<bool>,
}

/// A secret: named byte strings.
#[derive(Debug, Clone, PartialEq)]
pub struct Secret {
    pub metadata: ObjectMeta,
    pub data: Option<NamedTable<Vec<u8>>>,
}

/// A deployment.
#[derive(Debug, Clone, PartialEq)]
pub struct Deployment {
    pub metadata: ObjectMeta,
    pub spec: Option<DeploymentSpec>,
}

/// What a deployment runs, and how many of it.
#[derive(Debug, Clone, PartialEq)]
pub struct DeploymentSpec {
    pub replicas: Option<i32>,
    pub selector: LabelSelector,
    pub template: PodTemplateSpec,
    pub strategy: Option<DeploymentStrategy>,
}

/// The rollout strategy of a deployment; the default one leaves its type unset.
#[derive(Debug, Clone, PartialEq)]
pub struct DeploymentStrategy {
    pub strategy_type: Option<String>,
}

/// The labels that the pods of a deployment are found by.
#[derive(Debug, Clone, PartialEq)]
pub struct LabelSelector {
    pub match_labels: Option<NamedTable<String>>,
}

/// The pods that a deployment makes.
#[derive(Debug, Clone, PartialEq)]
pub struct PodTemplateSpec {
    pub metadata: Option<ObjectMeta>,
    pub spec: Option<PodSpec>,
}

/// The volumes and containers of a pod.
#[derive(Debug, Clone, PartialEq)]
pub struct PodSpec {
    pub volumes: Option<Vec<Volume>>,
    pub containers: Vec<Container>,
}

/// A volume of a pod.
#[derive(Debug, Clone, PartialEq)]
pub struct Volume {
    pub name: String,
    pub secret: Option<SecretVolumeSource>,
}

/// A volume made of a secret.
#[derive(Debug, Clone, PartialEq)]
pub struct SecretVolumeSource {
    pub optional: Option<bool>,
    pub secret_name: Option<String>,
}

/// A container of a pod.
#[derive(Debug, Clone, PartialEq)]
pub struct Container {
    pub name: String,
    pub image: Option<String>,
    pub args: Option<Vec<String>>,
    pub volume_mounts: Option<Vec<VolumeMount>>,
    pub ports: Option<Vec<ContainerPort>>,
}

/// Where a volume is mounted in a container.
#[derive(Debug, Clone, PartialEq)]
pub struct VolumeMount {
    pub read_only: Option<bool>,
    pub mount_path: String,
    pub name: String,
}

/// A port that a container listens on.
#[derive(Debug, Clone, PartialEq)]
pub struct ContainerPort {
    pub container_port: i32,
}

/// The controller owner reference to an object of the given kind: `None`
/// where the metadata lacks the name or the uid.
pub open spec fn controller_owner_ref_spec(
    api_version: Seq<char>,
    kind: Seq<char>,
    meta: ObjectMeta,
    r: Option<OwnerReference>,
) -> bool {
    match r {
        None => meta.name is None || meta.uid is None,
        Some(o) => {
            &&& meta.name matches Some(n) && o.name@ == n@
            &&& meta.uid matches Some(u) && o.uid@ == u@
            &&& o.api_version@ == api_version
            &&& o.kind@ == kind
            &&& o.controller == Some(true)
            &&& o.block_owner_deletion is None
        },
    }
}

/// The controller owner reference that points at an object with this
/// metadata, of the given API version and kind.
pub fn controller_owner_ref(api_version: &str, kind: &str, meta: &ObjectMeta) -> (r: Option<
    OwnerReference,
>)
    ensures
        controller_owner_ref_spec(api_version@, kind@, *meta, r),
{
    match (&meta.name, &meta.uid) {
        (Some(name), Some(uid)) => Some(
            OwnerReference {
                api_version: String::from_str(api_version),
                kind: String::from_str(kind),
                name: name.clone(),
                uid: uid.clone(),
                controller: Some(true),
                block_owner_deletion: None,
            },
        ),
        _ => None,
    }
}

} // verus!
