//! What is read of a pod in a watch notification.

use crate::utc_time::UtcTime;
use vstd::prelude::*;

verus! {

/// A pod as one notification shows it: its name, its namespace and, where it
/// is known, the time of its creation.
#[derive(Debug)]
pub struct PodIdentity {
    pub name: String,
    pub namespace: String,
    pub created_at: Option<UtcTime>,
}

/// A pod as contracts speak of it.
pub struct PodModel {
    pub name: Seq<char>,
    pub namespace: Seq<char>,
    pub created_at: Option<UtcTime>,
}

impl View for PodIdentity {
    type V = PodModel;

    open spec fn view(&self) -> PodModel {
        PodModel { name: self.name@, namespace: self.namespace@, created_at: self.created_at }
    }
}

impl PodIdentity {
    /// The pod that the parts of a notification describe. One without a name
    /// describes none; for one without a namespace the empty name stands,
    /// which callers read as the default namespace.
    pub fn from_parts(
        name: Option<String>,
        namespace: Option<String>,
        created_at: Option<UtcTime>,
    ) -> (pod: Option<PodIdentity>)
        ensures
            pod is Some == name is Some,
            name is Some ==> pod->0@ == (PodModel {
                name: name->0@,
                namespace: if namespace is Some {
                    namespace->0@
                } else {
                    Seq::<char>::empty()
                },
                created_at,
            }),
    {
        match name {
            None => None,
            Some(name) => {
                let namespace = match namespace {
                    Some(ns) => ns,
                    None => String::new(),
                };
                Some(PodIdentity { name, namespace, created_at })
            },
        }
    }

    /// A copy of the pod.
    pub fn duplicate(&self) -> (pod: PodIdentity)
        ensures
            pod@ == self@,
    {
        PodIdentity {
            name: self.name.clone(),
            namespace: self.namespace.clone(),
            created_at: self.created_at,
        }
    }
}

} // verus!
