//! From one lifecycle event to the gateway calls that it asks for.

use crate::manifest::{WorkloadManifest, WorkloadManifestView};
use crate::service::{ComposeResource, ComposeResourceView, ServiceSpecView};
use crate::translate::{translate, translation, TranslateError};
use vstd::prelude::*;

verus! {

/// A change that was observed on the collection of compose resources.
#[derive(Debug)]
pub enum Event {
    /// The resource has come into being.
    Added(ComposeResource),
    /// The resource has changed.
    Modified(ComposeResource),
    /// The resource is gone.
    Deleted(ComposeResource),
    /// Anything else that the stream delivers: a bookmark, an error, a kind
    /// of event that is not known.
    Other,
}

/// An event, with the resource it is about as a view.
pub enum EventView {
    Added(ComposeResourceView),
    Modified(ComposeResourceView),
    Deleted(ComposeResourceView),
    Other,
}

impl View for Event {
    type V = EventView;

    open spec fn view(&self) -> EventView {
        match self {
            Event::Added(resource) => EventView::Added(resource@),
            Event::Modified(resource) => EventView::Modified(resource@),
            Event::Deleted(resource) => EventView::Deleted(resource@),
            Event::Other => EventView::Other,
        }
    }
}

/// One thing to be done about an event.
#[derive(Clone, Debug, PartialEq, Eq)]
pub enum Action {
    /// Ask the cluster to create this workload.
    Create(WorkloadManifest),
    /// Ask the cluster to delete the workload of this name.
    Delete(String),
    /// Ask nothing of the cluster for this service, and say why: it could not
    /// be translated.
    Skip { service: String, error: TranslateError },
}

/// An action, with what it carries as a view.
pub enum ActionView {
    Create(WorkloadManifestView),
    Delete(Seq<char>),
    Skip { service: Seq<char>, error: TranslateError },
}

impl View for Action {
    type V = ActionView;

    open spec fn view(&self) -> ActionView {
        match self {
            Action::Create(manifest) => ActionView::Create(manifest@),
            Action::Delete(name) => ActionView::Delete(name@),
            Action::Skip { service, error } => ActionView::Skip { service: service@, error: *error },
        }
    }
}

/// The views of a sequence of actions, position by position.
pub open spec fn action_views(actions: Seq<Action>) -> Seq<ActionView> {
    Seq::new(actions.len(), |i: int| actions[i]@)
}

/// What is done for one service of a resource that was added: its workload is
/// created, or, where it has no translation, the service is passed over.
pub open spec fn service_action(name: Seq<char>, service: ServiceSpecView) -> ActionView {
    match translation(name, service) {
        Ok(manifest) => ActionView::Create(manifest),
        Err(error) => ActionView::Skip { service: name, error },
    }
}

/// The name of the one workload that a deletion is about.
pub const DELETE_TARGET: &'static str = "hello-deployment";

/// The name of the workload that is deleted when `resource` is: one fixed
/// name, whichever resource went. Deletion is not scoped to the resource; it
/// looks neither at the resource's name nor at the services it declared.
pub open spec fn delete_target(resource: ComposeResourceView) -> Seq<char> {
    DELETE_TARGET@
}

/// The actions that an event asks for, in the order in which they are taken.
///
/// A resource that was added has each of its services acted on, one action
/// for each and none depending on another. A resource that was deleted has
/// one workload deleted, of a name that is fixed. Nothing is done about a
/// resource that was modified, nor about any other event.
pub open spec fn plan(event: EventView) -> Seq<ActionView> {
    match event {
        EventView::Added(resource) => Seq::new(
            resource.services.len(),
            |i: int| service_action(resource.services[i].0, resource.services[i].1),
        ),
        EventView::Modified(_) => Seq::empty(),
        EventView::Deleted(resource) => seq![ActionView::Delete(delete_target(resource))],
        EventView::Other => Seq::empty(),
    }
}

/// A resource that was added gets one action for each service that it
/// declares, in the order of the declarations: the creation of the workload
/// that bears the service's name, or nothing but a note where the service has
/// no translation. No action depends on how another service fared.
pub proof fn lemma_added_acts_on_each_service(resource: ComposeResourceView, i: int)
    requires
        0 <= i < resource.services.len(),
    ensures
        plan(EventView::Added(resource)).len() == resource.services.len(),
        plan(EventView::Added(resource))[i] == service_action(
            resource.services[i].0,
            resource.services[i].1,
        ),
        match translation(resource.services[i].0, resource.services[i].1) {
            Ok(manifest) => plan(EventView::Added(resource))[i] == ActionView::Create(manifest)
                && manifest.name == resource.services[i].0,
            Err(error) => plan(EventView::Added(resource))[i] == (ActionView::Skip {
                service: resource.services[i].0,
                error,
            }),
        },
{
}

/// A resource that was deleted gets exactly one action: the deletion of the
/// workload of the fixed name, the same for every resource.
pub proof fn lemma_deleted_deletes_once(resource: ComposeResourceView)
    ensures
        plan(EventView::Deleted(resource)) == seq![ActionView::Delete("hello-deployment"@)],
        plan(EventView::Deleted(resource)).len() == 1,
{
}

/// Deleting a resource names the workload that adding it made exactly where
/// the resource declares one service, the service has a translation, and it
/// bears the fixed name.
pub proof fn lemma_deleted_names_what_added_made(resource: ComposeResourceView)
    requires
        resource.services.len() == 1,
        translation(resource.services[0].0, resource.services[0].1) is Ok,
    ensures
        plan(EventView::Added(resource))[0] matches ActionView::Create(manifest) && (
        plan(EventView::Deleted(resource))[0] == ActionView::Delete(manifest.name)
            <==> resource.services[0].0 == DELETE_TARGET@),
{
}

/// Nothing is done about a resource that was modified, nor about an event of
/// any other kind.
pub proof fn lemma_modified_and_other_do_nothing(resource: ComposeResourceView)
    ensures
        plan(EventView::Modified(resource)).len() == 0,
        plan(EventView::Other).len() == 0,
{
}

/// The actions for a resource that was added.
fn plan_added(resource: &ComposeResource) -> (actions: Vec<Action>)
    ensures
        action_views(actions@) == plan(EventView::Added(resource@)),
{
    let services = resource.services();
    let mut actions: Vec<Action> = Vec::new();
    let mut i: usize = 0;
    while i < services.len()
        invariant
            i <= services@.len(),
            actions@.len() == i,
            forall|j: int|
                0 <= j < i ==> (#[trigger] actions@[j])@ == service_action(
                    services@[j].name@,
                    services@[j].spec@,
                ),
        decreases services@.len() - i,
    {
        let entry = &services[i];
        let action = match translate(entry.name.as_str(), &entry.spec) {
            Ok(manifest) => Action::Create(manifest),
            Err(error) => Action::Skip { service: entry.name.clone(), error },
        };
        actions.push(action);
        i += 1;
    }
    assert(action_views(actions@) =~= plan(EventView::Added(resource@)));
    actions
}

/// Decides what is to be done about `event`.
pub fn handle(event: &Event) -> (actions: Vec<Action>)
    ensures
        action_views(actions@) == plan(event@),
        actions@.len() == plan(event@).len(),
        forall|i: int| 0 <= i < actions@.len() ==> (#[trigger] actions@[i])@ == plan(event@)[i],
        event is Deleted ==> actions@.len() == 1 && actions@[0]@ == ActionView::Delete(
            "hello-deployment"@,
        ),
{
    match event {
        Event::Added(resource) => {
            let actions = plan_added(resource);
            assert forall|i: int| 0 <= i < actions@.len() implies (#[trigger] actions@[i])@ == plan(
                event@,
            )[i] by {
                assert(action_views(actions@)[i] == actions@[i]@);
            }
            actions
        },
        Event::Deleted(_) => {
            let mut actions: Vec<Action> = Vec::new();
            actions.push(Action::Delete(DELETE_TARGET.to_owned()));
            assert(action_views(actions@) =~= plan(event@));
            assert(action_views(actions@)[0] == actions@[0]@);
            actions
        },
        Event::Modified(_) => {
            let actions: Vec<Action> = Vec::new();
            assert(action_views(actions@) =~= plan(event@));
            actions
        },
        Event::Other => {
            let actions: Vec<Action> = Vec::new();
            assert(action_views(actions@) =~= plan(event@));
            actions
        },
    }
}

} // verus!
