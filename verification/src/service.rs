//! The declared side: a compose resource and the services it names.

use vstd::prelude::*;

verus! {

/// The views of a sequence of strings, position by position.
pub open spec fn string_views(s: Seq<String>) -> Seq<Seq<char>> {
    Seq::new(s.len(), |i: int| s[i]@)
}

/// How a service says what to run.
#[derive(Clone, Debug, PartialEq, Eq)]
pub enum Command {
    /// One line of shell code, kept as it was written.
    Shell(String),
    /// A command line that has been split into its arguments already.
    Parsed(Vec<String>),
}

/// A command, with its strings as sequences of characters.
pub enum CommandView {
    Shell(Seq<char>),
    Parsed(Seq<Seq<char>>),
}

impl View for Command {
    type V = CommandView;

    open spec fn view(&self) -> CommandView {
        match self {
            Command::Shell(line) => CommandView::Shell(line@),
            Command::Parsed(words) => CommandView::Parsed(string_views(words@)),
        }
    }
}

/// The transport protocol of a port declaration.
#[derive(Clone, Copy, Debug, PartialEq, Eq, Structural)]
pub enum Protocol {
    Tcp,
    Udp,
}

/// The ports that one side of a port declaration names.
#[derive(Clone, Copy, Debug, PartialEq, Eq, Structural)]
pub enum Ports {
    /// A single port.
    Port(u16),
    /// Every port from the first to the second.
    Range(u16, u16),
}

/// One port mapping of a service: the ports inside the container, and the
/// host side of the mapping where one was given.
#[derive(Clone, Copy, Debug, PartialEq, Eq, Structural)]
pub struct PortSpec {
    pub container_ports: Ports,
    pub host_ports: Option<Ports>,
    pub protocol: Protocol,
}

/// One entry of a service's list of ports.
#[derive(Clone, Copy, Debug, PartialEq, Eq, Structural)]
pub enum PortDecl {
    /// A mapping whose ports are known.
    Mapping(PortSpec),
    /// An entry that still holds a variable to be filled in, so that its
    /// ports are not known.
    Unresolved,
}

/// The container port that an entry names singly, if it names one. A range
/// names no port singly, and an unresolved entry names none at all.
pub open spec fn single_port(entry: PortDecl) -> Option<u16> {
    match entry {
        PortDecl::Mapping(mapping) => match mapping.container_ports {
            Ports::Port(port) => Some(port),
            Ports::Range(_, _) => None,
        },
        PortDecl::Unresolved => None,
    }
}

/// Every entry is a mapping whose ports are known.
pub open spec fn all_resolved(ports: Seq<PortDecl>) -> bool {
    forall|i: int| 0 <= i < ports.len() ==> ports[i] is Mapping
}

/// The first single container port among the entries, if an entry names one.
pub open spec fn first_single_port(ports: Seq<PortDecl>) -> Option<u16>
    decreases ports.len(),
{
    if ports.len() == 0 {
        None
    } else if single_port(ports[0]) is Some {
        single_port(ports[0])
    } else {
        first_single_port(ports.drop_first())
    }
}

/// The port of a service: the first container port that its entries name
/// singly. A service has none if an entry of it is unresolved, wherever in the
/// list it stands, or if no entry names a port singly.
pub open spec fn first_port(ports: Seq<PortDecl>) -> Option<u16> {
    if all_resolved(ports) {
        first_single_port(ports)
    } else {
        None
    }
}

/// The first single port is that of the earliest entry that names one; there
/// is none exactly if no entry names one.
pub proof fn lemma_first_single_port(ports: Seq<PortDecl>)
    ensures
        match first_single_port(ports) {
            Some(port) => exists|i: int|
                0 <= i < ports.len() && single_port(ports[i]) == Some(port) && forall|j: int|
                    0 <= j < i ==> single_port(ports[j]) is None,
            None => forall|j: int| 0 <= j < ports.len() ==> single_port(ports[j]) is None,
        },
    decreases ports.len(),
{
    if ports.len() > 0 {
        let rest = ports.drop_first();
        lemma_first_single_port(rest);
        if single_port(ports[0]) is Some {
            assert(single_port(ports[0]) == first_single_port(ports));
        } else {
            match first_single_port(rest) {
                Some(port) => {
                    let i = choose|i: int|
                        0 <= i < rest.len() && single_port(rest[i]) == Some(port) && forall|j: int|
                            0 <= j < i ==> single_port(rest[j]) is None;
                    assert(ports[i + 1] == rest[i]);
                    assert forall|j: int| 0 <= j < i + 1 implies single_port(ports[j]) is None by {
                        if j > 0 {
                            assert(ports[j] == rest[j - 1]);
                        }
                    }
                },
                None => {
                    assert forall|j: int| 0 <= j < ports.len() implies single_port(ports[j]) is None by {
                        if j > 0 {
                            assert(ports[j] == rest[j - 1]);
                        }
                    }
                },
            }
        }
    }
}

/// A service has a port exactly if all its entries are resolved and one of
/// them names a port singly; an unresolved entry takes the port away even
/// where it stands after such an entry.
pub proof fn lemma_first_port(ports: Seq<PortDecl>)
    ensures
        first_port(ports) is Some <==> all_resolved(ports) && exists|i: int|
            0 <= i < ports.len() && single_port(ports[i]) is Some,
        first_port(ports) is Some ==> first_port(ports) == first_single_port(ports),
{
    lemma_first_single_port(ports);
}

/// One declared service.
#[derive(Clone, Debug, PartialEq, Eq)]
pub struct ServiceSpec {
    /// The image reference; a service without one cannot be run.
    pub image: Option<String>,
    pub command: Option<Command>,
    /// The entries of the list of ports, in the order in which they were
    /// written.
    pub ports: Vec<PortDecl>,
}

/// A service, with its strings as sequences of characters.
pub struct ServiceSpecView {
    pub image: Option<Seq<char>>,
    pub command: Option<CommandView>,
    pub ports: Seq<PortDecl>,
}

impl View for ServiceSpec {
    type V = ServiceSpecView;

    open spec fn view(&self) -> ServiceSpecView {
        ServiceSpecView {
            image: match self.image {
                Some(image) => Some(image@),
                None => None,
            },
            command: match self.command {
                Some(command) => Some(command@),
                None => None,
            },
            ports: self.ports@,
        }
    }
}

/// A service together with the name under which its resource declares it.
#[derive(Clone, Debug, PartialEq, Eq)]
pub struct NamedService {
    pub name: String,
    pub spec: ServiceSpec,
}

/// What a resource declares, as pairs of a service's name and the service.
pub type Declarations = Seq<(Seq<char>, ServiceSpecView)>;

/// The declarations that a sequence of named services stands for.
pub open spec fn declarations(services: Seq<NamedService>) -> Declarations {
    Seq::new(services.len(), |i: int| (services[i].name@, services[i].spec@))
}

/// No two declarations bear the same name.
pub open spec fn names_distinct(services: Declarations) -> bool {
    forall|i: int, j: int| 0 <= i < j < services.len() ==> services[i].0 != services[j].0
}

/// Some declaration bears the name `name`.
pub open spec fn declares(services: Declarations, name: Seq<char>) -> bool {
    exists|i: int| 0 <= i < services.len() && services[i].0 == name
}

/// The declarations after `service` has been declared under `name`: it stands
/// where a service of that name stood before, or comes last if there was none.
pub open spec fn declare(services: Declarations, name: Seq<char>, service: ServiceSpecView) -> Declarations
    decreases services.len(),
{
    if services.len() == 0 {
        seq![(name, service)]
    } else if services[0].0 == name {
        seq![(name, service)] + services.drop_first()
    } else {
        seq![services[0]] + declare(services.drop_first(), name, service)
    }
}

/// Where `name` is first declared at position `at`, declaring it again
/// replaces the service at that position.
pub proof fn lemma_declare_again(
    services: Declarations,
    at: int,
    name: Seq<char>,
    service: ServiceSpecView,
)
    requires
        0 <= at < services.len(),
        services[at].0 == name,
        forall|j: int| 0 <= j < at ==> services[j].0 != name,
    ensures
        declare(services, name, service) == services.update(at, (name, service)),
    decreases services.len(),
{
    if at > 0 {
        let rest = services.drop_first();
        assert forall|j: int| 0 <= j < at - 1 implies rest[j].0 != name by {
            assert(rest[j] == services[j + 1]);
        }
        lemma_declare_again(rest, at - 1, name, service);
        assert(seq![services[0]] + rest.update(at - 1, (name, service)) == services.update(
            at,
            (name, service),
        ));
    } else {
        assert(seq![(name, service)] + services.drop_first() == services.update(0, (name, service)));
    }
}

/// Declaring a name that is not there yet appends the service.
pub proof fn lemma_declare_new(services: Declarations, name: Seq<char>, service: ServiceSpecView)
    requires
        !declares(services, name),
    ensures
        declare(services, name, service) == services.push((name, service)),
    decreases services.len(),
{
    if services.len() > 0 {
        let rest = services.drop_first();
        assert(services[0].0 != name);
        assert forall|j: int| 0 <= j < rest.len() implies rest[j].0 != name by {
            assert(rest[j] == services[j + 1]);
        }
        lemma_declare_new(rest, name, service);
        assert(seq![services[0]] + rest.push((name, service)) == services.push((name, service)));
    }
}

/// Declaring a service keeps every name unique, declares `name`, and leaves
/// every other name declared or not as it was.
pub proof fn lemma_declare_names(services: Declarations, name: Seq<char>, service: ServiceSpecView)
    requires
        names_distinct(services),
    ensures
        names_distinct(declare(services, name, service)),
        declares(declare(services, name, service), name),
        forall|other: Seq<char>|
            other != name ==> (declares(declare(services, name, service), other) <==> declares(
                services,
                other,
            )),
        declare(services, name, service).len() == if declares(services, name) {
            services.len()
        } else {
            services.len() + 1
        },
{
    let after = declare(services, name, service);
    if declares(services, name) {
        let at = choose|i: int| 0 <= i < services.len() && services[i].0 == name;
        lemma_declare_again(services, at, name, service);
        assert(after[at].0 == name);
        assert forall|other: Seq<char>| other != name implies (declares(after, other) <==> declares(
            services,
            other,
        )) by {
            if declares(after, other) {
                let i = choose|i: int| 0 <= i < after.len() && after[i].0 == other;
                assert(services[i].0 == other);
            }
            if declares(services, other) {
                let i = choose|i: int| 0 <= i < services.len() && services[i].0 == other;
                assert(after[i].0 == other);
            }
        }
    } else {
        lemma_declare_new(services, name, service);
        assert(after[services.len() as int].0 == name);
        assert forall|other: Seq<char>| other != name implies (declares(after, other) <==> declares(
            services,
            other,
        )) by {
            if declares(after, other) {
                let i = choose|i: int| 0 <= i < after.len() && after[i].0 == other;
                assert(services[i].0 == other);
            }
            if declares(services, other) {
                let i = choose|i: int| 0 <= i < services.len() && services[i].0 == other;
                assert(after[i].0 == other);
            }
        }
    }
}

/// One compose resource: a named application and the services it declares.
///
/// The services are kept in the order in which their names were first
/// declared, and no name is declared twice.
#[derive(Debug)]
pub struct ComposeResource {
    name: String,
    services: Vec<NamedService>,
}

/// A resource as its name and its declarations.
pub struct ComposeResourceView {
    pub name: Seq<char>,
    pub services: Declarations,
}

impl View for ComposeResource {
    type V = ComposeResourceView;

    closed spec fn view(&self) -> ComposeResourceView {
        ComposeResourceView { name: self.name@, services: declarations(self.services@) }
    }
}

impl ComposeResource {
    #[verifier::type_invariant]
    spec fn well_formed(&self) -> bool {
        names_distinct(declarations(self.services@))
    }

    /// A resource of the given name that declares no service yet.
    pub fn new(name: String) -> (r: Self)
        ensures
            r@ == (ComposeResourceView { name: name@, services: Seq::empty() }),
    {
        let r = ComposeResource { name, services: Vec::new() };
        assert(declarations(r.services@) == Seq::<(Seq<char>, ServiceSpecView)>::empty());
        r
    }

    /// The name of the resource.
    pub fn name(&self) -> (name: &String)
        ensures
            name@ == self@.name,
    {
        &self.name
    }

    /// The declared services, each name once.
    pub fn services(&self) -> (services: &Vec<NamedService>)
        ensures
            declarations(services@) == self@.services,
            names_distinct(self@.services),
    {
        proof {
            use_type_invariant(self);
        }
        &self.services
    }

    /// Declares `service` under `name`, in place of any service that the
    /// resource declared under that name.
    pub fn insert(&mut self, name: String, service: ServiceSpec)
        ensures
            final(self)@.name == old(self)@.name,
            final(self)@.services == declare(old(self)@.services, name@, service@),
    {
        proof {
            use_type_invariant(&*self);
        }
        let mut services: Vec<NamedService> = Vec::new();
        std::mem::swap(&mut services, &mut self.services);
        let ghost before = declarations(services@);
        let mut at: usize = 0;
        while at < services.len() && !(services[at].name == name)
            invariant
                at <= services@.len(),
                forall|j: int| 0 <= j < at ==> services@[j].name@ != name@,
            decreases services@.len() - at,
        {
            at += 1;
        }
        let entry = NamedService { name, spec: service };
        if at < services.len() {
            proof {
                assert(before[at as int].0 == entry.name@);
                assert forall|j: int| 0 <= j < at implies before[j].0 != entry.name@ by {
                    assert(before[j].0 == services@[j].name@);
                }
                lemma_declare_again(before, at as int, entry.name@, entry.spec@);
            }
            services.set(at, entry);
            assert(declarations(services@) == before.update(at as int, (entry.name@, entry.spec@)));
        } else {
            proof {
                assert(!declares(before, entry.name@)) by {
                    if declares(before, entry.name@) {
                        let i = choose|i: int| 0 <= i < before.len() && before[i].0 == entry.name@;
                        assert(services@[i].name@ == entry.name@);
                    }
                }
                lemma_declare_new(before, entry.name@, entry.spec@);
            }
            services.push(entry);
            assert(declarations(services@) == before.push((entry.name@, entry.spec@)));
        }
        self.services = services;
    }
}

} // verus!
