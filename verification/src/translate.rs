//! From one declared service to the manifest of its workload.

use crate::labels::{service_labels, LabelSet};
use crate::manifest::{
    ContainerSpec, ContainerSpecView, PodTemplate, PodTemplateView, WorkloadManifest,
    WorkloadManifestView,
};
use crate::service::{
    all_resolved, first_port, first_single_port, string_views, Command, CommandView, PortDecl,
    Ports, ServiceSpec, ServiceSpecView,
};
use vstd::prelude::*;

verus! {

/// A part of a service definition that a workload cannot do without.
#[derive(Clone, Copy, Debug, PartialEq, Eq, Structural)]
pub enum Field {
    Image,
    Port,
}

/// Why a service could not be translated.
#[derive(Clone, Copy, Debug, PartialEq, Eq, Structural)]
pub enum TranslateError {
    /// The service leaves out something that its workload needs.
    MissingField(Field),
}

impl TranslateError {
    /// The error in words.
    pub open spec fn text(self) -> Seq<char> {
        match self {
            TranslateError::MissingField(Field::Image) => "missing field: image"@,
            TranslateError::MissingField(Field::Port) => "missing field: ports"@,
        }
    }

    /// The error in words, for a line of output.
    pub fn message(&self) -> (message: String)
        ensures
            message@ == self.text(),
    {
        match self {
            TranslateError::MissingField(Field::Image) => "missing field: image".to_owned(),
            TranslateError::MissingField(Field::Port) => "missing field: ports".to_owned(),
        }
    }
}

/// Every workload runs as a single replica.
pub const REPLICAS: i32 = 1;

/// A service has an image if it names one and the name is not empty.
pub open spec fn has_image(service: ServiceSpecView) -> bool {
    service.image matches Some(image) && image.len() > 0
}

/// The arguments that a command stands for: a line of shell code is one
/// argument, whole and unsplit; a parsed command line is its own arguments;
/// no command is no arguments.
pub open spec fn arguments(command: Option<CommandView>) -> Seq<Seq<char>> {
    match command {
        None => Seq::empty(),
        Some(CommandView::Shell(line)) => seq![line],
        Some(CommandView::Parsed(words)) => words,
    }
}

/// The manifest of the workload that runs `service` under the name `name`, or
/// the reason why there is none.
///
/// The name of the service names the workload and its container, and is the
/// value of the one label that the workload, its selector and its pod template
/// all carry. Of the declared ports the first alone is exposed, and of its
/// mapping only the container side counts.
pub open spec fn translation(name: Seq<char>, service: ServiceSpecView) -> Result<
    WorkloadManifestView,
    TranslateError,
> {
    if !has_image(service) {
        Err(TranslateError::MissingField(Field::Image))
    } else if first_port(service.ports) is None {
        Err(TranslateError::MissingField(Field::Port))
    } else {
        Ok(
            WorkloadManifestView {
                name,
                labels: service_labels(name),
                replicas: REPLICAS as int,
                selector: service_labels(name),
                template: PodTemplateView {
                    labels: service_labels(name),
                    container: ContainerSpecView {
                        name,
                        image: service.image->0,
                        args: arguments(service.command),
                        port: first_port(service.ports)->0 as int,
                    },
                },
            },
        )
    }
}

/// A service with an image and a port has a translation, and the selector of
/// every translation matches its own pod template.
pub proof fn lemma_translation_selector_matches(name: Seq<char>, service: ServiceSpecView)
    ensures
        has_image(service) && first_port(service.ports) is Some ==> translation(name, service) is Ok,
        translation(name, service) matches Ok(manifest) ==> manifest.selector_matches_template(),
{
}

/// A service without an image has no translation, whatever else it declares.
pub proof fn lemma_translation_needs_image(name: Seq<char>, service: ServiceSpecView)
    requires
        service.image is None,
    ensures
        translation(name, service) == Err::<WorkloadManifestView, TranslateError>(
            TranslateError::MissingField(Field::Image),
        ),
{
}

/// Of the ports of a service, the translation sees the first container port
/// and nothing else: not the ports declared after it, not the host side of
/// any declaration, not its protocol.
pub proof fn lemma_translation_first_port_only(
    name: Seq<char>,
    one: ServiceSpecView,
    other: ServiceSpecView,
)
    requires
        one.image == other.image,
        one.command == other.command,
        first_port(one.ports) == first_port(other.ports),
    ensures
        translation(name, one) == translation(name, other),
{
}

/// A copy of `words`, string by string.
fn copy_strings(words: &Vec<String>) -> (copy: Vec<String>)
    ensures
        string_views(copy@) == string_views(words@),
{
    let mut copy: Vec<String> = Vec::new();
    let mut i: usize = 0;
    while i < words.len()
        invariant
            i <= words@.len(),
            copy@ == words@.take(i as int),
        decreases words@.len() - i,
    {
        copy.push(words[i].clone());
        i += 1;
    }
    proof {
        assert(words@.take(words@.len() as int) == words@);
    }
    copy
}

/// Looks for the port of a service among the entries of its list of ports.
fn find_first_port(ports: &Vec<PortDecl>) -> (found: Option<u16>)
    ensures
        found == first_port(ports@),
{
    let mut found: Option<u16> = None;
    let mut i: usize = 0;
    proof {
        assert(ports@.skip(0) == ports@);
    }
    while i < ports.len()
        invariant
            i <= ports@.len(),
            forall|j: int| 0 <= j < i ==> ports@[j] is Mapping,
            first_single_port(ports@) == if found is Some {
                found
            } else {
                first_single_port(ports@.skip(i as int))
            },
        decreases ports@.len() - i,
    {
        proof {
            assert(ports@.skip(i as int).drop_first() == ports@.skip(i as int + 1));
            assert(ports@.skip(i as int)[0] == ports@[i as int]);
        }
        match ports[i] {
            PortDecl::Unresolved => {
                assert(!all_resolved(ports@));
                return None;
            },
            PortDecl::Mapping(mapping) => {
                if found.is_none() {
                    match mapping.container_ports {
                        Ports::Port(port) => {
                            found = Some(port);
                        },
                        Ports::Range(_, _) => {},
                    }
                }
            },
        }
        i += 1;
    }
    found
}

/// The arguments of a command, as owned strings.
fn argument_list(command: &Option<Command>) -> (args: Vec<String>)
    ensures
        string_views(args@) == arguments(
            match command {
                Some(c) => Some(c@),
                None => None,
            },
        ),
{
    match command {
        None => {
            let args: Vec<String> = Vec::new();
            assert(string_views(args@) == Seq::<Seq<char>>::empty());
            args
        },
        Some(Command::Shell(line)) => {
            let mut args: Vec<String> = Vec::new();
            args.push(line.clone());
            assert(string_views(args@) == seq![line@]);
            args
        },
        Some(Command::Parsed(words)) => copy_strings(words),
    }
}

/// Translates the service `service`, declared under the name `name`, into the
/// manifest of its workload.
///
/// Fails, and makes nothing, where the service has no image or has no port:
/// an entry of its list of ports is unresolved, or none names a single
/// container port. A missing image is reported before a missing port.
/// Whatever is made has a selector that matches its own pod template.
pub fn translate(name: &str, service: &ServiceSpec) -> (r: Result<WorkloadManifest, TranslateError>)
    ensures
        match r {
            Ok(manifest) => translation(name@, service@) == Ok::<
                WorkloadManifestView,
                TranslateError,
            >(manifest@),
            Err(error) => translation(name@, service@) == Err::<
                WorkloadManifestView,
                TranslateError,
            >(error),
        },
        r is Ok <==> has_image(service@) && first_port(service@.ports) is Some,
        !has_image(service@) ==> r == Err::<WorkloadManifest, TranslateError>(
            TranslateError::MissingField(Field::Image),
        ),
        r matches Ok(manifest) ==> manifest@.selector_matches_template(),
{
    let image = match &service.image {
        Some(image) => image,
        None => {
            return Err(TranslateError::MissingField(Field::Image));
        },
    };
    if image.as_str().is_empty() {
        return Err(TranslateError::MissingField(Field::Image));
    }
    let port: i32 = match find_first_port(&service.ports) {
        Some(port) => port as i32,
        None => {
            return Err(TranslateError::MissingField(Field::Port));
        },
    };
    let container = ContainerSpec {
        name: name.to_owned(),
        image: image.clone(),
        args: argument_list(&service.command),
        port,
    };
    let manifest = WorkloadManifest {
        name: name.to_owned(),
        labels: LabelSet::for_service(name),
        replicas: REPLICAS,
        selector: LabelSet::for_service(name),
        template: PodTemplate { labels: LabelSet::for_service(name), container },
    };
    Ok(manifest)
}

} // verus!
