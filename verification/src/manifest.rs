//! The produced side: the manifest of one replicated workload.

use crate::labels::LabelSet;
use crate::service::string_views;
use vstd::prelude::*;

verus! {

/// The one container of a workload's pods.
#[derive(Clone, Debug, PartialEq, Eq)]
pub struct ContainerSpec {
    pub name: String,
    pub image: String,
    pub args: Vec<String>,
    /// The one container port that is exposed.
    pub port: i32,
}

/// A container, with its strings as sequences of characters.
pub struct ContainerSpecView {
    pub name: Seq<char>,
    pub image: Seq<char>,
    pub args: Seq<Seq<char>>,
    pub port: int,
}

impl View for ContainerSpec {
    type V = ContainerSpecView;

    open spec fn view(&self) -> ContainerSpecView {
        ContainerSpecView {
            name: self.name@,
            image: self.image@,
            args: string_views(self.args@),
            port: self.port as int,
        }
    }
}

/// The template from which the pods of a workload are made.
#[derive(Clone, Debug, PartialEq, Eq)]
pub struct PodTemplate {
    pub labels: LabelSet,
    pub container: ContainerSpec,
}

/// A pod template, with its labels as a mapping.
pub struct PodTemplateView {
    pub labels: Map<Seq<char>, Seq<char>>,
    pub container: ContainerSpecView,
}

impl View for PodTemplate {
    type V = PodTemplateView;

    open spec fn view(&self) -> PodTemplateView {
        PodTemplateView { labels: self.labels@, container: self.container@ }
    }
}

/// A replicated workload, as the cluster is asked to run it.
#[derive(Clone, Debug, PartialEq, Eq)]
pub struct WorkloadManifest {
    pub name: String,
    pub labels: LabelSet,
    pub replicas: i32,
    /// The labels by which the workload finds its own pods.
    pub selector: LabelSet,
    pub template: PodTemplate,
}

/// A manifest, with its strings as sequences of characters and its label
/// sets as mappings.
pub struct WorkloadManifestView {
    pub name: Seq<char>,
    pub labels: Map<Seq<char>, Seq<char>>,
    pub replicas: int,
    pub selector: Map<Seq<char>, Seq<char>>,
    pub template: PodTemplateView,
}

impl WorkloadManifestView {
    /// Every pair of the selector is a label of the pod template. The cluster
    /// refuses a workload of which this does not hold.
    pub open spec fn selector_matches_template(self) -> bool {
        self.selector.submap_of(self.template.labels)
    }
}

impl View for WorkloadManifest {
    type V = WorkloadManifestView;

    open spec fn view(&self) -> WorkloadManifestView {
        WorkloadManifestView {
            name: self.name@,
            labels: self.labels@,
            replicas: self.replicas as int,
            selector: self.selector@,
            template: self.template@,
        }
    }
}

impl WorkloadManifest {
    /// Whether the selector picks out the pods that the template makes.
    pub fn selector_matches_template(&self) -> (b: bool)
        ensures
            b == self@.selector_matches_template(),
    {
        self.selector.is_subset_of(&self.template.labels)
    }
}

} // verus!
