//! The services that a test depends on.

pub mod docker;
pub mod python;

use vstd::prelude::*;
use std::collections::HashMap;
use crate::services::docker::{DockerImage, DockerService, ImageSource, PortMappingError};
use crate::services::python::PythonService;
use crate::text::{
    after_last_from, chars_of, join, part_views, push_char, split_at_first, split_once, str_eq,
    string_of, views,
};

verus! {

broadcast use vstd::std_specs::hash::group_hash_axioms;

/// What a command wrote and whether it ended well.
#[derive(Debug)]
pub struct CommandOutput {
    pub success: bool,
    pub stdout: Vec<u8>,
    pub stderr: Vec<u8>,
}

/// Why a service could not be started, is not ready or cannot tell its
/// ports.
#[allow(inconsistent_fields)]
#[derive(Debug)]
pub enum ServiceError {
    /// What a command wrote is no valid UTF-8.
    NotUtf8,
    /// The engine could not build an image.
    BuildFailed { image: String, status: String, stderr: String },
    /// The engine could not run an image.
    RunFailed { image: String, stderr: String },
    /// The engine could not tell the health of a container.
    HealthCheckFailed { service: String, stderr: String },
    /// A container is unhealthy; `logs` is the log of its health check.
    Unhealthy { service: String, logs: String },
    /// The engine could not list the ports of a container.
    PortsFailed { image: String, stdout: String, stderr: String },
    /// A line of the engine's list of ports is no port mapping.
    PortMapping { image: String, line: String, error: PortMappingError },
    /// The process of a script ended.
    ExitedEarly,
    /// A script declared a port in another form than `PORT=(80,8080)`.
    MalformedPortPair,
    /// A script declared a port that is no port number.
    PortNotANumber,
    /// The service was not seen ready yet.
    NotReady { service: String },
    /// The ports of the service were not asked for yet.
    PortsUnknown { service: String },
    /// Something around the service failed: `context` says what was tried,
    /// `cause` what went wrong.
    Io { context: String, cause: String },
}

/// A `ServiceError`, its texts as sequences of characters.
#[allow(inconsistent_fields)]
pub enum ServiceFailure {
    NotUtf8,
    BuildFailed { image: Seq<char>, status: Seq<char>, stderr: Seq<char> },
    RunFailed { image: Seq<char>, stderr: Seq<char> },
    HealthCheckFailed { service: Seq<char>, stderr: Seq<char> },
    Unhealthy { service: Seq<char>, logs: Seq<char> },
    PortsFailed { image: Seq<char>, stdout: Seq<char>, stderr: Seq<char> },
    PortMapping { image: Seq<char>, line: Seq<char>, error: PortMappingError },
    ExitedEarly,
    MalformedPortPair,
    PortNotANumber,
    NotReady { service: Seq<char> },
    PortsUnknown { service: Seq<char> },
    Io { context: Seq<char>, cause: Seq<char> },
}

impl View for ServiceError {
    type V = ServiceFailure;

    open spec fn view(&self) -> ServiceFailure {
        match *self {
            ServiceError::NotUtf8 => ServiceFailure::NotUtf8,
            ServiceError::BuildFailed { image, status, stderr } => ServiceFailure::BuildFailed {
                image: image@,
                status: status@,
                stderr: stderr@,
            },
            ServiceError::RunFailed { image, stderr } => ServiceFailure::RunFailed {
                image: image@,
                stderr: stderr@,
            },
            ServiceError::HealthCheckFailed { service, stderr } => ServiceFailure::HealthCheckFailed {
                service: service@,
                stderr: stderr@,
            },
            ServiceError::Unhealthy { service, logs } => ServiceFailure::Unhealthy {
                service: service@,
                logs: logs@,
            },
            ServiceError::PortsFailed { image, stdout, stderr } => ServiceFailure::PortsFailed {
                image: image@,
                stdout: stdout@,
                stderr: stderr@,
            },
            ServiceError::PortMapping { image, line, error } => ServiceFailure::PortMapping {
                image: image@,
                line: line@,
                error,
            },
            ServiceError::ExitedEarly => ServiceFailure::ExitedEarly,
            ServiceError::MalformedPortPair => ServiceFailure::MalformedPortPair,
            ServiceError::PortNotANumber => ServiceFailure::PortNotANumber,
            ServiceError::NotReady { service } => ServiceFailure::NotReady { service: service@ },
            ServiceError::PortsUnknown { service } => ServiceFailure::PortsUnknown {
                service: service@,
            },
            ServiceError::Io { context, cause } => ServiceFailure::Io {
                context: context@,
                cause: cause@,
            },
        }
    }
}

/// The name of the directory, in the working directory of a test, that
/// holds the lock files of the services.
pub fn lock_dir_name() -> (r: &'static str)
    ensures
        r@ == ".service-locks"@,
{
    ".service-locks"
}

/// The name of the lock file of the service `name`. The lock is held from
/// before the service is started until it is torn down, so that no two
/// tests run the service of one name at a time.
pub fn lock_file_name(name: &str) -> (r: String)
    ensures
        r@ == name@ + ".lock"@,
{
    let mut r = String::from_str(name);
    r.append(".lock");
    r
}

/// A service that a test may depend on.
pub trait Service {
    /// The name of the service.
    spec fn label(&self) -> Seq<char>;

    /// What the service says when it is asked whether it is ready: that it
    /// is, or what is wrong with it.
    spec fn health(&self) -> Result<(), ServiceFailure>;

    /// What the service says when it is asked for its ports: the table from
    /// the port of the guest to the port of the host, or why it cannot tell.
    spec fn answer(&self) -> Result<Map<u16, u16>, ServiceFailure>;

    /// The name of the service.
    fn name(&self) -> (n: &str)
        ensures
            n@ == self.label(),
    ;

    /// Succeeds where the service is ready, and fails where it is in a bad
    /// state. To ask changes nothing of what the service says.
    fn ready(&mut self) -> (r: Result<(), ServiceError>)
        ensures
            final(self).label() == old(self).label(),
            final(self).health() == old(self).health(),
            final(self).answer() == old(self).answer(),
            match r {
                Ok(()) => old(self).health() is Ok,
                Err(e) => old(self).health() == Err::<(), ServiceFailure>(e@),
            },
    ;

    /// The ports that the service exposes. To ask changes nothing of what
    /// the service says.
    fn ports(&mut self) -> (r: Result<&HashMap<u16, u16>, ServiceError>)
        ensures
            final(self).label() == old(self).label(),
            final(self).health() == old(self).health(),
            final(self).answer() == old(self).answer(),
            match r {
                Ok(table) => old(self).answer() == Ok::<Map<u16, u16>, ServiceFailure>(table@),
                Err(e) => old(self).answer() == Err::<Map<u16, u16>, ServiceFailure>(e@),
            },
    ;
}

/// Why a port of the guest could not be resolved.
#[derive(Debug)]
pub enum PortError {
    /// More than one service exposes the port; `service` is the first that
    /// does.
    Ambiguous { service: String, guest_port: u16 },
    /// A service could not tell its ports.
    Service(ServiceError),
}

/// A `PortError`, its texts as sequences of characters.
pub enum PortFailure {
    Ambiguous { service: Seq<char>, guest_port: u16 },
    Service(ServiceFailure),
}

impl View for PortError {
    type V = PortFailure;

    open spec fn view(&self) -> PortFailure {
        match *self {
            PortError::Ambiguous { service, guest_port } => PortFailure::Ambiguous {
                service: service@,
                guest_port,
            },
            PortError::Service(e) => PortFailure::Service(e@),
        }
    }
}

/// What the services say of one port of the guest: for each service, in
/// order, its name and the port of the host on which it exposes that port,
/// if it does.
pub type Exposures = Seq<(Seq<char>, Option<u16>)>;

/// The first index at or after `i` whose service exposes the port, or the
/// number of services where none does.
pub open spec fn next_exposing(e: Exposures, i: int) -> int
    decreases e.len() - i,
{
    if 0 <= i < e.len() && e[i].1 is None {
        next_exposing(e, i + 1)
    } else {
        i
    }
}

/// The port of the host for the port `guest_port` of the guest, given what
/// the services say of it: none where no service exposes it, the port of the
/// host where one service does, and a failure that names the first of them
/// where more than one does.
pub open spec fn resolved(e: Exposures, guest_port: u16) -> Result<Option<u16>, PortFailure> {
    let first = next_exposing(e, 0);
    if first >= e.len() {
        Ok(None)
    } else if next_exposing(e, first + 1) >= e.len() {
        Ok(e[first].1)
    } else {
        Err(PortFailure::Ambiguous { service: e[first].0, guest_port })
    }
}

pub proof fn lemma_next_exposing(e: Exposures, i: int)
    requires
        0 <= i <= e.len(),
    ensures
        i <= next_exposing(e, i) <= e.len(),
        forall|k: int| i <= k < next_exposing(e, i) ==> (#[trigger] e[k]).1 is None,
        next_exposing(e, i) < e.len() ==> e[next_exposing(e, i)].1 is Some,
    decreases e.len() - i,
{
    if i < e.len() && e[i].1 is None {
        lemma_next_exposing(e, i + 1);
    }
}

/// The resolution of a port by the number of services that expose it: with
/// none it is not exposed, with exactly one it is that service's port of
/// the host, with two or more it fails.
pub proof fn lemma_resolved(e: Exposures, guest_port: u16)
    ensures
        (forall|k: int| 0 <= k < e.len() ==> (#[trigger] e[k]).1 is None) ==> resolved(
            e,
            guest_port,
        ) == Ok::<Option<u16>, PortFailure>(None),
        forall|k: int|
            0 <= k < e.len() && (#[trigger] e[k]).1 is Some && (forall|j: int|
                0 <= j < e.len() && j != k ==> (#[trigger] e[j]).1 is None) ==> resolved(
                e,
                guest_port,
            ) == Ok::<Option<u16>, PortFailure>(e[k].1),
        (exists|j: int, k: int|
            0 <= j < k < e.len() && (#[trigger] e[j]).1 is Some && (#[trigger] e[k]).1 is Some)
            ==> resolved(e, guest_port) is Err,
{
    lemma_next_exposing(e, 0);
    let first = next_exposing(e, 0);
    if first < e.len() {
        lemma_next_exposing(e, first + 1);
    }
    assert forall|k: int|
        0 <= k < e.len() && (#[trigger] e[k]).1 is Some && (forall|j: int|
            0 <= j < e.len() && j != k ==> (#[trigger] e[j]).1 is None) implies resolved(
        e,
        guest_port,
    ) == Ok::<Option<u16>, PortFailure>(e[k].1) by {
        if first < k {
            assert(e[first].1 is None);
        }
        let second = next_exposing(e, first + 1);
        if second < e.len() {
            assert(e[second].1 is None);
        }
    }
}

/// The views of the exposures `v`, in order.
pub open spec fn exposure_views(v: Seq<(String, Option<u16>)>) -> Exposures {
    Seq::new(v.len(), |i: int| (v[i].0@, v[i].1))
}

/// What `pick_port` and `get_port` return, texts as sequences of characters.
pub open spec fn port_view(r: Result<Option<u16>, PortError>) -> Result<Option<u16>, PortFailure> {
    match r {
        Ok(p) => Ok(p),
        Err(e) => Err(e@),
    }
}

/// The first index at or after `from` whose service exposes the port, or
/// the number of services.
pub fn find_exposing(exposures: &Vec<(String, Option<u16>)>, from: usize) -> (i: usize)
    requires
        from <= exposures.len(),
    ensures
        i == next_exposing(exposure_views(exposures@), from as int),
        from <= i <= exposures.len(),
{
    let mut i: usize = from;
    while i < exposures.len() && exposures[i].1.is_none()
        invariant
            from <= i <= exposures.len(),
            next_exposing(exposure_views(exposures@), from as int) == next_exposing(
                exposure_views(exposures@),
                i as int,
            ),
        decreases exposures.len() - i,
    {
        i += 1;
    }
    i
}

/// The port of the host for the port `guest_port` of the guest, given what
/// each service says of it.
pub fn pick_port(exposures: &Vec<(String, Option<u16>)>, guest_port: u16) -> (r: Result<
    Option<u16>,
    PortError,
>)
    ensures
        port_view(r) == resolved(exposure_views(exposures@), guest_port),
{
    let first = find_exposing(exposures, 0);
    if first >= exposures.len() {
        return Ok(None);
    }
    let second = find_exposing(exposures, first + 1);
    if second >= exposures.len() {
        Ok(exposures[first].1)
    } else {
        Err(PortError::Ambiguous { service: exposures[first].0.clone(), guest_port })
    }
}

/// A service as the service set sees it.
pub struct ServiceState {
    pub label: Seq<char>,
    pub health: Result<(), ServiceFailure>,
    pub answer: Result<Map<u16, u16>, ServiceFailure>,
}

/// What the service with the state `state` says of the port `guest_port` of
/// the guest.
pub open spec fn exposure(state: ServiceState, guest_port: u16) -> (Seq<char>, Option<u16>) {
    (
        state.label,
        match state.answer {
            Ok(table) => if table.contains_key(guest_port) {
                Some(table[guest_port])
            } else {
                None
            },
            Err(_) => None,
        },
    )
}

/// What the services with the states `states` say of the port `guest_port`
/// of the guest.
pub open spec fn exposures(states: Seq<ServiceState>, guest_port: u16) -> Exposures {
    Seq::new(states.len(), |i: int| exposure(states[i], guest_port))
}

/// The first index at or after `i` whose service is in a bad state, or the
/// number of services where each of them is ready.
pub open spec fn next_unhealthy(states: Seq<ServiceState>, i: int) -> int
    decreases states.len() - i,
{
    if 0 <= i < states.len() && states[i].health is Ok {
        next_unhealthy(states, i + 1)
    } else {
        i
    }
}

/// The first index at or after `i` whose service cannot tell its ports, or
/// the number of services where each of them can.
pub open spec fn next_failing(states: Seq<ServiceState>, i: int) -> int
    decreases states.len() - i,
{
    if 0 <= i < states.len() && states[i].answer is Ok {
        next_failing(states, i + 1)
    } else {
        i
    }
}

/// The port of the host for the port `guest_port` of the guest, given the
/// services with the states `states`. The first service that cannot tell
/// its ports fails the lookup. Else the port is not exposed where no service
/// exposes it, it is the port of the host where one service does, and the
/// lookup fails and names the first of them where more than one does.
pub open spec fn looked_up(states: Seq<ServiceState>, guest_port: u16) -> Result<
    Option<u16>,
    PortFailure,
> {
    let failing = next_failing(states, 0);
    if 0 <= failing < states.len() {
        Err(PortFailure::Service(states[failing].answer->Err_0))
    } else {
        resolved(exposures(states, guest_port), guest_port)
    }
}

/// The service `s` as the service set sees it.
pub open spec fn state_of<S: Service>(s: S) -> ServiceState {
    ServiceState { label: s.label(), health: s.health(), answer: s.answer() }
}

/// Whether `start_service` may have returned a service with the state
/// `state` for the definition `definition`.
pub open spec fn started_as<S: Service, F: Fn(&ServiceDefinition) -> Result<S, ServiceError>>(
    start_service: F,
    definition: DefinitionView,
    state: ServiceState,
) -> bool {
    exists|d: &ServiceDefinition, service: S|
        d@ == definition && state_of(service) == state && #[trigger] call_ensures(
            start_service,
            (d,),
            Ok::<S, ServiceError>(service),
        )
}

/// Whether the definition `definition` may have been started and found
/// ready: `start_service` may have returned for it a service that is ready.
pub open spec fn accepted<S: Service, F: Fn(&ServiceDefinition) -> Result<S, ServiceError>>(
    start_service: F,
    definition: DefinitionView,
) -> bool {
    exists|state: ServiceState| #[trigger]
        started_as(start_service, definition, state) && state.health is Ok
}

/// Whether the definition `definition` may have been refused with the
/// failure `e`: `start_service` may have failed on it with `e`, or may have
/// returned for it a service that is not ready and says `e`.
pub open spec fn refused<S: Service, F: Fn(&ServiceDefinition) -> Result<S, ServiceError>>(
    start_service: F,
    definition: DefinitionView,
    e: ServiceError,
) -> bool {
    ||| exists|d: &ServiceDefinition|
        d@ == definition && #[trigger] call_ensures(start_service, (d,), Err::<S, ServiceError>(e))
    ||| exists|state: ServiceState| #[trigger]
        started_as(start_service, definition, state) && state.health == Err::<
            (),
            ServiceFailure,
        >(e@)
}

/// The services that run for a test.
pub struct Services<S: Service> {
    services: Vec<S>,
}

impl<S: Service> View for Services<S> {
    type V = Seq<ServiceState>;

    closed spec fn view(&self) -> Seq<ServiceState> {
        Seq::new(
            self.services@.len(),
            |i: int|
                ServiceState {
                    label: self.services@[i].label(),
                    health: self.services@[i].health(),
                    answer: self.services@[i].answer(),
                },
        )
    }
}

impl<S: Service> Services<S> {
    /// No services.
    pub fn none() -> (r: Self)
        ensures
            r@.len() == 0,
    {
        Services { services: Vec::new() }
    }

    /// Starts the services that `config` defines, one after the other and
    /// each only when the one before is ready. `start_service` starts one
    /// service, which is then asked whether it is ready.
    ///
    /// On success the services stand in the order of their definitions, each
    /// as `start_service` returned it, and each is ready. The first
    /// definition that is refused ends the whole with its failure: that of
    /// `start_service`, or that of the started service which is not ready.
    /// The definitions before it were started and ready.
    pub fn start<F: Fn(&ServiceDefinition) -> Result<S, ServiceError>>(
        config: &ServicesConfig,
        start_service: F,
    ) -> (r: Result<Self, ServiceError>)
        requires
            forall|d: &ServiceDefinition| call_requires(start_service, (d,)),
        ensures
            config@.len() == 0 ==> r is Ok,
            match r {
                Ok(s) => s@.len() == config@.len() && forall|k: int|
                    0 <= k < s@.len() ==> (#[trigger] s@[k]).health is Ok && started_as(
                        start_service,
                        config@[k],
                        s@[k],
                    ),
                Err(e) => exists|k: int|
                    0 <= k < config@.len() && #[trigger] refused(start_service, config@[k], e)
                        && forall|j: int|
                        0 <= j < k ==> accepted(start_service, #[trigger] config@[j]),
            },
    {
        let mut services: Vec<S> = Vec::new();
        let mut i: usize = 0;
        while i < config.service_definitions.len()
            invariant
                i <= config.service_definitions.len(),
                services@.len() == i,
                forall|d: &ServiceDefinition| call_requires(start_service, (d,)),
                forall|k: int|
                    0 <= k < i ==> (#[trigger] services@[k]).health() is Ok && started_as(
                        start_service,
                        config@[k],
                        state_of(services@[k]),
                    ),
                forall|j: int| 0 <= j < i ==> accepted(start_service, #[trigger] config@[j]),
            decreases config.service_definitions.len() - i,
        {
            let definition = &config.service_definitions[i];
            assert(definition@ == config@[i as int]);
            let started = start_service(definition);
            let service = match started {
                Ok(service) => service,
                Err(e) => {
                    assert(refused(start_service, config@[i as int], e)) by {
                        assert(call_ensures(start_service, (definition,), Err::<S, ServiceError>(e)));
                    }
                    return Err(e);
                },
            };
            let ghost fresh = service;
            assert(started_as(start_service, config@[i as int], state_of(fresh))) by {
                assert(call_ensures(start_service, (definition,), Ok::<S, ServiceError>(fresh)));
            }
            services.push(service);
            let ghost before = services@;
            let outcome = services[i].ready();
            assert(forall|k: int| 0 <= k < i ==> services@[k] == before[k]);
            assert(state_of(fresh) == state_of(services@[i as int]));
            match outcome {
                Ok(()) => {},
                Err(e) => {
                    assert(refused(start_service, config@[i as int], e)) by {
                        assert(state_of(fresh).health == Err::<(), ServiceFailure>(e@));
                    }
                    return Err(e);
                },
            }
            assert(accepted(start_service, config@[i as int])) by {
                assert(state_of(fresh).health is Ok);
            }
            i += 1;
        }
        let r = Services { services };
        assert forall|k: int| 0 <= k < r@.len() implies (#[trigger] r@[k]).health is Ok
            && started_as(start_service, config@[k], r@[k]) by {
            assert(r@[k] == state_of(r.services@[k]));
        }
        Ok(r)
    }

    /// The service at index `i`, if there is one.
    pub fn get(&self, i: usize) -> (r: Option<&S>)
        ensures
            r is Some <==> i < self@.len(),
            r matches Some(s) ==> state_of(*s) == self@[i as int],
    {
        if i < self.services.len() {
            Some(&self.services[i])
        } else {
            None
        }
    }

    /// The number of services.
    pub fn len(&self) -> (n: usize)
        ensures
            n == self@.len(),
    {
        self.services.len()
    }

    /// The service at index `i`, to hand it what was seen of it.
    pub fn service_mut(&mut self, i: usize) -> (s: &mut S)
        requires
            i < old(self)@.len(),
        ensures
            final(self)@.len() == old(self)@.len(),
            forall|k: int| 0 <= k < old(self)@.len() && k != i ==> final(self)@[k] == old(self)@[k],
            final(self)@[i as int] == (ServiceState {
                label: final(s).label(),
                health: final(s).health(),
                answer: final(s).answer(),
            }),
            old(self)@[i as int] == (ServiceState {
                label: s.label(),
                health: s.health(),
                answer: s.answer(),
            }),
    {
        &mut self.services[i]
    }

    /// Asks every service in order whether it is ready. Fails with the
    /// failure of the first service that is in a bad state.
    pub fn healthy(&mut self) -> (r: Result<(), ServiceError>)
        ensures
            final(self)@ == old(self)@,
            match r {
                Ok(()) => next_unhealthy(old(self)@, 0) >= old(self)@.len(),
                Err(e) => 0 <= next_unhealthy(old(self)@, 0) < old(self)@.len() && old(
                    self,
                )@[next_unhealthy(old(self)@, 0)].health == Err::<(), ServiceFailure>(e@),
            },
    {
        let ghost states = self@;
        let mut i: usize = 0;
        while i < self.services.len()
            invariant
                i <= self.services.len(),
                self@ == states,
                states == old(self)@,
                next_unhealthy(states, 0) == next_unhealthy(states, i as int),
            decreases self.services.len() - i,
        {
            let ghost before = self.services@;
            assert(states[i as int].health == before[i as int].health());
            let outcome = self.services[i].ready();
            assert(self@ =~= states) by {
                assert forall|k: int| 0 <= k < states.len() implies self@[k] == states[k] by {
                    assert(states[k].label == before[k].label());
                    if k != i {
                        assert(self.services@[k] == before[k]);
                    }
                }
            }
            match outcome {
                Ok(()) => {},
                Err(e) => {
                    return Err(e);
                },
            }
            i += 1;
        }
        Ok(())
    }

    /// The port of the host on which one of the services exposes the port
    /// `guest_port` of the guest.
    ///
    /// The services are asked for their ports in order, and the first that
    /// cannot tell them fails the call. Where none exposes the port, the
    /// result is `None`; where one does, it is that service's port of the
    /// host; where more than one does, the call fails and names the first
    /// of them.
    pub fn get_port(&mut self, guest_port: u16) -> (r: Result<Option<u16>, PortError>)
        ensures
            final(self)@ == old(self)@,
            port_view(r) == looked_up(old(self)@, guest_port),
    {
        let mut found: Vec<(String, Option<u16>)> = Vec::new();
        let mut i: usize = 0;
        let ghost states = self@;
        while i < self.services.len()
            invariant
                i <= self.services.len(),
                self@ == states,
                states == old(self)@,
                found@.len() == i,
                next_failing(states, 0) == next_failing(states, i as int),
                forall|k: int|
                    0 <= k < i ==> #[trigger] exposure_views(found@)[k] == exposure(
                        states[k],
                        guest_port,
                    ),
            decreases self.services.len() - i,
        {
            let ghost before = self.services@;
            let ghost gathered = exposure_views(found@);
            assert(states[i as int].answer == before[i as int].answer());
            let answer = self.services[i].ports();
            let host = match answer {
                Ok(table) => match table.get(&guest_port) {
                    Some(port) => Some(*port),
                    None => None,
                },
                Err(e) => {
                    assert(self@ =~= states) by {
                        assert forall|k: int| 0 <= k < states.len() implies self@[k] == states[k] by {
                            assert(states[k].label == before[k].label());
                            if k != i {
                                assert(self.services@[k] == before[k]);
                            }
                        }
                    }
                    return Err(PortError::Service(e));
                },
            };
            assert(self@ =~= states) by {
                assert forall|k: int| 0 <= k < states.len() implies self@[k] == states[k] by {
                    assert(states[k].label == before[k].label());
                    if k != i {
                        assert(self.services@[k] == before[k]);
                    }
                }
            }
            let name = String::from_str(self.services[i].name());
            found.push((name, host));
            assert forall|k: int| 0 <= k < i + 1 implies #[trigger] exposure_views(found@)[k]
                == exposure(states[k], guest_port) by {
                if k < i {
                    assert(exposure_views(found@)[k] == gathered[k]);
                }
            }
            i += 1;
        }
        assert(exposure_views(found@) =~= exposures(states, guest_port));
        pick_port(&found, guest_port)
    }
}

/// The definition of a service.
#[derive(Debug)]
pub struct ServiceDefinition {
    pub name: String,
    pub kind: ServiceKind,
}

/// The kind of a service.
#[derive(Debug)]
pub enum ServiceKind {
    /// A script that an interpreter runs: the path of the script.
    Python { script: String },
    /// A container.
    Docker { image: DockerImage },
}

/// A `ServiceKind`, its texts as sequences of characters.
pub enum KindView {
    Python { script: Seq<char> },
    Docker { image: ImageSource },
}

/// A `ServiceDefinition`, its texts as sequences of characters.
pub struct DefinitionView {
    pub name: Seq<char>,
    pub kind: KindView,
}

impl View for ServiceKind {
    type V = KindView;

    open spec fn view(&self) -> KindView {
        match *self {
            ServiceKind::Python { script } => KindView::Python { script: script@ },
            ServiceKind::Docker { image } => KindView::Docker { image: image@ },
        }
    }
}

impl View for ServiceDefinition {
    type V = DefinitionView;

    open spec fn view(&self) -> DefinitionView {
        DefinitionView { name: self.name@, kind: self.kind@ }
    }
}

/// The views of the definitions `v`, in order.
pub open spec fn definition_views(v: Seq<ServiceDefinition>) -> Seq<DefinitionView> {
    Seq::new(v.len(), |i: int| v[i]@)
}

/// The end of `s[..j]` once every `c` at its end is dropped.
pub open spec fn without_trailing(s: Seq<char>, c: char, j: int) -> int
    decreases j,
{
    if 0 < j <= s.len() && s[j - 1] == c {
        without_trailing(s, c, j - 1)
    } else {
        j
    }
}

/// Where the last part of the path `path` ends: at the end of the path, the
/// `/` at its end aside.
pub open spec fn name_end(path: Seq<char>) -> int {
    without_trailing(path, '/', path.len() as int)
}

/// Where the last part of the path `path` starts: behind the last `/`
/// before its end.
pub open spec fn name_start(path: Seq<char>) -> int {
    after_last_from(path, '/', name_end(path))
}

/// The name of the file with the path `path`: the last part of the path,
/// where the parts are what `/` separates and a `/` at the end counts for
/// nothing. It is empty where the path holds nothing but `/`. The parts `.`
/// and `..` are parts like any other.
pub open spec fn file_name_of(path: Seq<char>) -> Seq<char> {
    path.subrange(name_start(path), name_end(path))
}

/// The directory of the file with the path `path`: what stands before the
/// last part of the path, without the `/` between them. It is `/` for a
/// file directly under the root, and empty where the path has one part or
/// none.
pub open spec fn parent_of(path: Seq<char>) -> Seq<char> {
    let end = without_trailing(path, '/', name_start(path));
    if name_start(path) <= 0 {
        Seq::empty()
    } else if end <= 0 {
        seq!['/']
    } else {
        path.subrange(0, end)
    }
}

/// The bounds of the last part of the path `v`.
pub fn name_bounds(v: &Vec<char>) -> (r: (usize, usize))
    ensures
        r.0 == name_start(v@),
        r.1 == name_end(v@),
        r.0 <= r.1 <= v.len(),
{
    let mut end: usize = v.len();
    while end > 0 && v[end - 1] == '/'
        invariant
            end <= v.len(),
            without_trailing(v@, '/', v.len() as int) == without_trailing(v@, '/', end as int),
        decreases end,
    {
        end -= 1;
    }
    let mut start: usize = end;
    while start > 0 && v[start - 1] != '/'
        invariant
            start <= end <= v.len(),
            after_last_from(v@, '/', end as int) == after_last_from(v@, '/', start as int),
        decreases start,
    {
        start -= 1;
    }
    (start, end)
}

/// The name of the file with the path `path`.
pub fn file_name(path: &str) -> (r: String)
    ensures
        r@ == file_name_of(path@),
{
    let v = chars_of(path);
    let (start, end) = name_bounds(&v);
    string_of(&v, start, end)
}

/// The directory of the file with the path `path`.
pub fn parent(path: &str) -> (r: String)
    ensures
        r@ == parent_of(path@),
{
    let v = chars_of(path);
    let (start, _) = name_bounds(&v);
    if start == 0 {
        return String::new();
    }
    let mut end: usize = start;
    while end > 0 && v[end - 1] == '/'
        invariant
            end <= start <= v.len(),
            without_trailing(v@, '/', start as int) == without_trailing(v@, '/', end as int),
        decreases end,
    {
        end -= 1;
    }
    if end == 0 {
        let r = String::from_str("/");
        proof {
            reveal_strlit("/");
            assert(r@ =~= seq!['/']);
        }
        r
    } else {
        string_of(&v, 0, end)
    }
}

/// The path of the file `file` in the directory `dir`.
pub open spec fn path_in(dir: Seq<char>, file: Seq<char>) -> Seq<char> {
    if dir.len() == 0 {
        file
    } else if dir.last() == '/' {
        dir + file
    } else {
        dir + seq!['/'] + file
    }
}

/// The path of the file `file` in the directory `dir`.
pub fn join_path(dir: &str, file: &str) -> (r: String)
    ensures
        r@ == path_in(dir@, file@),
{
    let d = chars_of(dir);
    let mut r = String::from_str(dir);
    if d.len() > 0 && d[d.len() - 1] != '/' {
        push_char(&mut r, '/');
    }
    r.append(file);
    assert(r@ =~= path_in(dir@, file@));
    r
}


/// The services that a test asks for.
pub struct ServicesConfig {
    service_definitions: Vec<ServiceDefinition>,
}

impl View for ServicesConfig {
    type V = Seq<DefinitionView>;

    closed spec fn view(&self) -> Seq<DefinitionView> {
        definition_views(self.service_definitions@)
    }
}


/// Why the definitions of the services that were asked for could not be
/// had.
#[derive(Debug)]
pub enum DefinitionError {
    /// The file of a service that was asked for has an extension that names
    /// no kind of service.
    Unsupported { extension: String },
    /// No file defines these services.
    NotFound { services: Vec<String> },
}

/// A `DefinitionError`, its texts as sequences of characters.
pub enum DefinitionFailure {
    Unsupported { extension: Seq<char> },
    NotFound { services: Seq<Seq<char>> },
}

impl View for DefinitionError {
    type V = DefinitionFailure;

    open spec fn view(&self) -> DefinitionFailure {
        match *self {
            DefinitionError::Unsupported { extension } => DefinitionFailure::Unsupported {
                extension: extension@,
            },
            DefinitionError::NotFound { services } => DefinitionFailure::NotFound {
                services: views(services@),
            },
        }
    }
}

/// The names `names` without those that are `name`.
pub open spec fn without(names: Seq<Seq<char>>, name: Seq<char>) -> Seq<Seq<char>>
    decreases names.len(),
{
    if names.len() == 0 {
        Seq::empty()
    } else if names.last() == name {
        without(names.drop_last(), name)
    } else {
        without(names.drop_last(), name).push(names.last())
    }
}

/// The kind of service that a file with the extension `extension` defines:
/// a script for `py`, a container for `Dockerfile`, and none for any other.
/// `path` is the path of the file.
pub open spec fn kind_of(extension: Seq<char>, path: Seq<char>) -> Option<KindView> {
    if extension == "py"@ {
        Some(KindView::Python { script: path })
    } else if extension == "Dockerfile"@ {
        Some(KindView::Docker { image: ImageSource::FromDockerfile(path) })
    } else {
        None
    }
}

/// What the files of a directory come to: the definitions found, the names
/// that are still wanted, and the extension on which the search stopped.
pub struct Listing {
    pub definitions: Seq<DefinitionView>,
    pub wanted: Seq<Seq<char>>,
    pub unsupported: Option<Seq<char>>,
}

/// The search of the files `files[i..]` of the directory `dir` for the
/// definitions of the services `wanted`.
///
/// The name of a file is split at its first `.` into the name of a service
/// and an extension. A file without a `.`, a file with the extension `lock`
/// and a file of a service that is not wanted are passed over. The first
/// file of a wanted service defines it, and the service is wanted no more.
/// The search stops at a file of a wanted service whose extension names no
/// kind of service.
pub open spec fn listing(files: Seq<Seq<char>>, i: int, wanted: Seq<Seq<char>>, dir: Seq<char>) -> Listing
    decreases files.len() - i,
{
    if i < 0 || i >= files.len() {
        Listing { definitions: Seq::empty(), wanted, unsupported: None }
    } else {
        match split_at_first(files[i], '.') {
            None => listing(files, i + 1, wanted, dir),
            Some((name, extension)) => if extension == "lock"@ || !wanted.contains(name) {
                listing(files, i + 1, wanted, dir)
            } else {
                match kind_of(extension, path_in(dir, files[i])) {
                    None => Listing {
                        definitions: Seq::empty(),
                        wanted: without(wanted, name),
                        unsupported: Some(extension),
                    },
                    Some(kind) => {
                        let rest = listing(files, i + 1, without(wanted, name), dir);
                        Listing {
                            definitions: seq![DefinitionView { name, kind }] + rest.definitions,
                            wanted: rest.wanted,
                            unsupported: rest.unsupported,
                        }
                    },
                }
            },
        }
    }
}

/// The definitions of the services `builtins`, given the names `files` of
/// the files of the directory `dir` of definitions. Where no service is
/// asked for, there are none, whatever the directory holds. A service that
/// no file defines fails the whole, and so does, where every service was
/// found, an extension that names no kind of service.
pub open spec fn builtin_definitions(
    builtins: Seq<Seq<char>>,
    files: Seq<Seq<char>>,
    dir: Seq<char>,
) -> Result<Seq<DefinitionView>, DefinitionFailure> {
    let found = listing(files, 0, builtins, dir);
    if builtins.len() == 0 {
        Ok(Seq::empty())
    } else if found.wanted.len() > 0 {
        Err(DefinitionFailure::NotFound { services: found.wanted })
    } else if found.unsupported is Some {
        Err(DefinitionFailure::Unsupported { extension: found.unsupported->0 })
    } else {
        Ok(found.definitions)
    }
}

/// Whether `name` is one of `names`.
pub fn is_wanted(names: &Vec<String>, name: &str) -> (r: bool)
    ensures
        r == views(names@).contains(name@),
{
    let mut i: usize = 0;
    while i < names.len()
        invariant
            i <= names.len(),
            forall|k: int| 0 <= k < i ==> views(names@)[k] != name@,
        decreases names.len() - i,
    {
        if str_eq(names[i].as_str(), name) {
            assert(views(names@)[i as int] == name@);
            return true;
        }
        i += 1;
    }
    false
}

/// The names `names` without those that are `name`.
pub fn remove_name(names: &Vec<String>, name: &str) -> (r: Vec<String>)
    ensures
        views(r@) == without(views(names@), name@),
{
    let ghost all = views(names@);
    let mut r: Vec<String> = Vec::new();
    let mut i: usize = 0;
    assert(all.take(0) =~= Seq::empty());
    assert(views(r@) =~= Seq::empty());
    while i < names.len()
        invariant
            i <= names.len(),
            all == views(names@),
            views(r@) == without(all.take(i as int), name@),
        decreases names.len() - i,
    {
        assert(all.take(i + 1).drop_last() =~= all.take(i as int));
        assert(all.take(i + 1).last() == names@[i as int]@);
        let ghost before = views(r@);
        if !str_eq(names[i].as_str(), name) {
            r.push(names[i].clone());
            assert(views(r@) =~= before.push(names@[i as int]@));
        }
        i += 1;
    }
    assert(all.take(i as int) =~= all);
    r
}


/// What `get_builtin_service_definitions` returns, its texts as sequences
/// of characters.
pub open spec fn definitions_view(r: Result<Vec<ServiceDefinition>, DefinitionError>) -> Result<
    Seq<DefinitionView>,
    DefinitionFailure,
> {
    match r {
        Ok(definitions) => Ok(definition_views(definitions@)),
        Err(e) => Err(e@),
    }
}

/// The definitions of the services `builtins`, from the names `files` of
/// the files in the directory `dir` of definitions.
pub fn get_builtin_service_definitions(builtins: Vec<String>, files: &Vec<String>, dir: &str) -> (r:
    Result<Vec<ServiceDefinition>, DefinitionError>)
    ensures
        definitions_view(r) == builtin_definitions(views(builtins@), views(files@), dir@),
{
    if builtins.len() == 0 {
        let none: Vec<ServiceDefinition> = Vec::new();
        assert(definition_views(none@) =~= Seq::empty());
        return Ok(none);
    }
    let ghost names = views(files@);
    let ghost whole = listing(names, 0, views(builtins@), dir@);
    let mut wanted = builtins;
    let mut definitions: Vec<ServiceDefinition> = Vec::new();
    let mut unsupported: Option<String> = None;
    let mut i: usize = 0;
    assert(definition_views(definitions@) =~= Seq::empty());
    while i < files.len() && unsupported.is_none()
        invariant
            i <= files.len(),
            names == views(files@),
            unsupported is None ==> whole.definitions == definition_views(definitions@) + listing(
                names,
                i as int,
                views(wanted@),
                dir@,
            ).definitions,
            unsupported is None ==> whole.wanted == listing(
                names,
                i as int,
                views(wanted@),
                dir@,
            ).wanted,
            unsupported is None ==> whole.unsupported == listing(
                names,
                i as int,
                views(wanted@),
                dir@,
            ).unsupported,
            unsupported matches Some(e) ==> whole.wanted == views(wanted@) && whole.unsupported
                == Some(e@),
        decreases files.len() - i, unsupported.is_none() as int,
    {
        assert(names[i as int] == files@[i as int]@);
        match split_once(files[i].as_str(), '.') {
            None => {},
            Some((name, extension)) => {
                if !str_eq(extension.as_str(), "lock") && is_wanted(&wanted, name.as_str()) {
                    let ghost before = definition_views(definitions@);
                    let ghost rest = listing(
                        names,
                        i + 1,
                        without(views(wanted@), name@),
                        dir@,
                    );
                    wanted = remove_name(&wanted, name.as_str());
                    let path = join_path(dir, files[i].as_str());
                    if str_eq(extension.as_str(), "py") {
                        definitions.push(
                            ServiceDefinition { name, kind: ServiceKind::Python { script: path } },
                        );
                        assert(definition_views(definitions@) =~= before + seq![definitions@.last()@]);
                        assert(whole.definitions =~= definition_views(definitions@)
                            + rest.definitions);
                    } else if str_eq(extension.as_str(), "Dockerfile") {
                        definitions.push(
                            ServiceDefinition {
                                name,
                                kind: ServiceKind::Docker { image: DockerImage::FromDockerfile(path) },
                            },
                        );
                        assert(definition_views(definitions@) =~= before + seq![definitions@.last()@]);
                        assert(whole.definitions =~= definition_views(definitions@)
                            + rest.definitions);
                    } else {
                        unsupported = Some(extension);
                    }
                }
            },
        }
        i += 1;
    }
    if wanted.len() > 0 {
        Err(DefinitionError::NotFound { services: wanted })
    } else {
        match unsupported {
            Some(extension) => Err(DefinitionError::Unsupported { extension }),
            None => {
                assert(definition_views(definitions@) + Seq::<DefinitionView>::empty()
                    =~= definition_views(definitions@));
                Ok(definitions)
            },
        }
    }
}

impl ServicesConfig {
    /// The configuration with the services `builtins`, whose definitions
    /// are the files with the names `files` in the directory `dir`.
    pub fn new(builtins: Vec<String>, files: &Vec<String>, dir: &str) -> (r: Result<
        Self,
        DefinitionError,
    >)
        ensures
            match r {
                Ok(config) => builtin_definitions(views(builtins@), views(files@), dir@) == Ok::<
                    Seq<DefinitionView>,
                    DefinitionFailure,
                >(config@),
                Err(e) => builtin_definitions(views(builtins@), views(files@), dir@) == Err::<
                    Seq<DefinitionView>,
                    DefinitionFailure,
                >(e@),
            },
    {
        match get_builtin_service_definitions(builtins, files, dir) {
            Ok(service_definitions) => Ok(Self { service_definitions }),
            Err(e) => Err(e),
        }
    }

    /// Adds the service `service` behind those that are there.
    pub fn add_service(&mut self, service: ServiceDefinition)
        ensures
            final(self)@ == old(self)@.push(service@),
    {
        self.service_definitions.push(service);
        assert(self@ =~= old(self)@.push(service@));
    }

    /// The configuration without services.
    pub fn none() -> (r: Self)
        ensures
            r@.len() == 0,
    {
        Self { service_definitions: Vec::new() }
    }

    /// The definitions of the services.
    pub fn definitions(&self) -> (r: &Vec<ServiceDefinition>)
        ensures
            definition_views(r@) == self@,
    {
        &self.service_definitions
    }
}


/// The message of a line that is no port mapping.
pub open spec fn mapping_message(e: PortMappingError) -> Seq<char> {
    match e {
        PortMappingError::NoArrow => "failed to parse port mapping"@,
        PortMappingError::NoProtocol => "guest mapping does not contain '/'"@,
        PortMappingError::GuestPort => "port of the guest is not a port number"@,
        PortMappingError::HostPort => "port of the host is not a port number"@,
    }
}

/// The message of a failure of a service.
pub open spec fn service_message(e: ServiceFailure) -> Seq<char> {
    match e {
        ServiceFailure::NotUtf8 => "output of a command is not valid utf-8"@,
        ServiceFailure::BuildFailed { image, status, stderr } => seq![
            "failed to build docker '"@,
            image,
            "' image: status="@,
            status,
            " stderr="@,
            stderr,
        ].flatten(),
        ServiceFailure::RunFailed { image, stderr } => seq![
            "failed to run docker image for image '"@,
            image,
            "': "@,
            stderr,
        ].flatten(),
        ServiceFailure::HealthCheckFailed { service, stderr } => seq![
            "docker health status check failed for service '"@,
            service,
            "': "@,
            stderr,
        ].flatten(),
        ServiceFailure::Unhealthy { service, logs } => seq![
            "docker container for '"@,
            service,
            "' service is unhealthy:\n"@,
            logs,
        ].flatten(),
        ServiceFailure::PortsFailed { image, stdout, stderr } => seq![
            "failed to fetch ports for docker container for image "@,
            image,
            ":\n"@,
            stdout,
            "\n"@,
            stderr,
        ].flatten(),
        ServiceFailure::PortMapping { image, line, error } => seq![
            "failed to parse port mapping for container for image '"@,
            image,
            "' from string '"@,
            line,
            "'"@,
        ].flatten(),
        ServiceFailure::ExitedEarly => "python service process exited early"@,
        ServiceFailure::MalformedPortPair =>
            "malformed service port pair - PORT values should be in the form PORT=(80,8080)"@,
        ServiceFailure::PortNotANumber => "port number was not a number"@,
        ServiceFailure::NotReady { service } => seq![
            "service '"@,
            service,
            "' is not ready"@,
        ].flatten(),
        ServiceFailure::PortsUnknown { service } => seq![
            "the ports of service '"@,
            service,
            "' are not known"@,
        ].flatten(),
        ServiceFailure::Io { context, cause } => context,
    }
}

/// The message of the cause of a failure of a service, where it has one.
pub open spec fn service_cause(e: ServiceFailure) -> Option<Seq<char>> {
    match e {
        ServiceFailure::PortMapping { image, line, error } => Some(mapping_message(error)),
        ServiceFailure::Io { context, cause } => Some(cause),
        _ => None,
    }
}

/// The messages of a failure of a service and of its cause, where it has
/// one.
pub open spec fn service_messages(e: ServiceFailure) -> Seq<Seq<char>> {
    match service_cause(e) {
        Some(cause) => seq![service_message(e), cause],
        None => seq![service_message(e)],
    }
}

/// The message of the failure to resolve a port.
pub open spec fn port_message(e: PortFailure) -> Seq<char> {
    match e {
        PortFailure::Ambiguous { service, guest_port } => seq![
            "service '"@,
            service,
            "' already exposes port "@,
            crate::text::decimal(guest_port as nat),
            " to the host"@,
        ].flatten(),
        PortFailure::Service(e) => service_message(e),
    }
}

impl PortMappingError {
    /// The message of the failure.
    pub fn message(&self) -> (r: &'static str)
        ensures
            r@ == mapping_message(*self),
    {
        match self {
            PortMappingError::NoArrow => "failed to parse port mapping",
            PortMappingError::NoProtocol => "guest mapping does not contain '/'",
            PortMappingError::GuestPort => "port of the guest is not a port number",
            PortMappingError::HostPort => "port of the host is not a port number",
        }
    }
}

impl ServiceError {
    /// The message of the failure.
    pub fn message(&self) -> (r: String)
        ensures
            r@ == service_message(self@),
    {
        let mut parts: Vec<&str> = Vec::new();
        match self {
            ServiceError::NotUtf8 => {
                return String::from_str("output of a command is not valid utf-8");
            },
            ServiceError::BuildFailed { image, status, stderr } => {
                parts.push("failed to build docker '");
                parts.push(image.as_str());
                parts.push("' image: status=");
                parts.push(status.as_str());
                parts.push(" stderr=");
                parts.push(stderr.as_str());
            },
            ServiceError::RunFailed { image, stderr } => {
                parts.push("failed to run docker image for image '");
                parts.push(image.as_str());
                parts.push("': ");
                parts.push(stderr.as_str());
            },
            ServiceError::HealthCheckFailed { service, stderr } => {
                parts.push("docker health status check failed for service '");
                parts.push(service.as_str());
                parts.push("': ");
                parts.push(stderr.as_str());
            },
            ServiceError::Unhealthy { service, logs } => {
                parts.push("docker container for '");
                parts.push(service.as_str());
                parts.push("' service is unhealthy:\n");
                parts.push(logs.as_str());
            },
            ServiceError::PortsFailed { image, stdout, stderr } => {
                parts.push("failed to fetch ports for docker container for image ");
                parts.push(image.as_str());
                parts.push(":\n");
                parts.push(stdout.as_str());
                parts.push("\n");
                parts.push(stderr.as_str());
            },
            ServiceError::PortMapping { image, line, error } => {
                parts.push("failed to parse port mapping for container for image '");
                parts.push(image.as_str());
                parts.push("' from string '");
                parts.push(line.as_str());
                parts.push("'");
            },
            ServiceError::ExitedEarly => {
                return String::from_str("python service process exited early");
            },
            ServiceError::MalformedPortPair => {
                return String::from_str(
                    "malformed service port pair - PORT values should be in the form PORT=(80,8080)",
                );
            },
            ServiceError::PortNotANumber => {
                return String::from_str("port number was not a number");
            },
            ServiceError::NotReady { service } => {
                parts.push("service '");
                parts.push(service.as_str());
                parts.push("' is not ready");
            },
            ServiceError::PortsUnknown { service } => {
                parts.push("the ports of service '");
                parts.push(service.as_str());
                parts.push("' are not known");
            },
            ServiceError::Io { context, cause } => {
                return context.clone();
            },
        }
        let r = join(parts);
        assert(part_views(parts@) =~= match self@ {
            ServiceFailure::BuildFailed { image, status, stderr } => seq![
                "failed to build docker '"@,
                image,
                "' image: status="@,
                status,
                " stderr="@,
                stderr,
            ],
            ServiceFailure::RunFailed { image, stderr } => seq![
                "failed to run docker image for image '"@,
                image,
                "': "@,
                stderr,
            ],
            ServiceFailure::HealthCheckFailed { service, stderr } => seq![
                "docker health status check failed for service '"@,
                service,
                "': "@,
                stderr,
            ],
            ServiceFailure::Unhealthy { service, logs } => seq![
                "docker container for '"@,
                service,
                "' service is unhealthy:\n"@,
                logs,
            ],
            ServiceFailure::PortsFailed { image, stdout, stderr } => seq![
                "failed to fetch ports for docker container for image "@,
                image,
                ":\n"@,
                stdout,
                "\n"@,
                stderr,
            ],
            ServiceFailure::PortMapping { image, line, error } => seq![
                "failed to parse port mapping for container for image '"@,
                image,
                "' from string '"@,
                line,
                "'"@,
            ],
            ServiceFailure::NotReady { service } => seq!["service '"@, service, "' is not ready"@],
            ServiceFailure::PortsUnknown { service } => seq![
                "the ports of service '"@,
                service,
                "' are not known"@,
            ],
            _ => Seq::empty(),
        });
        r
    }

    /// The messages of the failure and of its cause, where it has one.
    pub fn chain(&self) -> (r: Vec<String>)
        ensures
            views(r@) == service_messages(self@),
    {
        let mut r: Vec<String> = Vec::new();
        r.push(self.message());
        match self {
            ServiceError::PortMapping { image, line, error } => {
                r.push(String::from_str(error.message()));
            },
            ServiceError::Io { context, cause } => {
                r.push(cause.clone());
            },
            _ => {},
        }
        assert(views(r@) =~= service_messages(self@));
        r
    }
}

impl PortError {
    /// The message of the failure.
    pub fn message(&self) -> (r: String)
        ensures
            r@ == port_message(self@),
    {
        match self {
            PortError::Ambiguous { service, guest_port } => {
                let number = crate::text::decimal_string(*guest_port as u64);
                let mut parts: Vec<&str> = Vec::new();
                parts.push("service '");
                parts.push(service.as_str());
                parts.push("' already exposes port ");
                parts.push(number.as_str());
                parts.push(" to the host");
                let r = join(parts);
                assert(part_views(parts@) =~= seq![
                    "service '"@,
                    service@,
                    "' already exposes port "@,
                    crate::text::decimal(*guest_port as nat),
                    " to the host"@,
                ]);
                r
            },
            PortError::Service(e) => e.message(),
        }
    }
}


/// The failure of an unhealthy container ends with the log of its health
/// check.
pub proof fn lemma_unhealthy_message_ends_with_log(service: Seq<char>, logs: Seq<char>)
    ensures
        logs.is_suffix_of(service_message(ServiceFailure::Unhealthy { service, logs })),
{
    let parts = seq!["docker container for '"@, service, "' service is unhealthy:\n"@, logs];
    assert(parts.drop_last().push(logs) =~= parts);
    parts.drop_last().lemma_flatten_push(logs);
    let head = parts.drop_last().flatten();
    assert(parts.flatten() == head + logs);
    assert((head + logs).subrange(head.len() as int, (head + logs).len() as int) =~= logs);
}

/// The names `names`, separated by a comma and a space.
pub open spec fn comma_separated(names: Seq<Seq<char>>) -> Seq<char>
    decreases names.len(),
{
    if names.len() == 0 {
        Seq::empty()
    } else if names.len() == 1 {
        names[0]
    } else {
        comma_separated(names.drop_last()) + seq![',', ' '] + names.last()
    }
}

/// The message of a failure to find definitions.
pub open spec fn definition_message(e: DefinitionFailure) -> Seq<char> {
    match e {
        DefinitionFailure::Unsupported { extension } => seq![
            "unsupported service definition extension '"@,
            extension,
            "'"@,
        ].flatten(),
        DefinitionFailure::NotFound { services } => "no service definitions found for: "@
            + comma_separated(services),
    }
}

impl DefinitionError {
    /// The message of the failure.
    pub fn message(&self) -> (r: String)
        ensures
            r@ == definition_message(self@),
    {
        match self {
            DefinitionError::Unsupported { extension } => {
                let mut parts: Vec<&str> = Vec::new();
                parts.push("unsupported service definition extension '");
                parts.push(extension.as_str());
                parts.push("'");
                let r = join(parts);
                assert(part_views(parts@) =~= seq![
                    "unsupported service definition extension '"@,
                    extension@,
                    "'"@,
                ]);
                r
            },
            DefinitionError::NotFound { services } => {
                let ghost all = views(services@);
                let mut r = String::from_str("no service definitions found for: ");
                let ghost head = r@;
                let mut i: usize = 0;
                assert(all.take(0) =~= Seq::empty());
                assert(r@ =~= head + comma_separated(all.take(0)));
                while i < services.len()
                    invariant
                        i <= services.len(),
                        all == views(services@),
                        r@ == head + comma_separated(all.take(i as int)),
                    decreases services.len() - i,
                {
                    assert(all.take(i + 1).drop_last() =~= all.take(i as int));
                    assert(all.take(i + 1).last() == services@[i as int]@);
                    if i > 0 {
                        push_char(&mut r, ',');
                        push_char(&mut r, ' ');
                    }
                    r.append(services[i].as_str());
                    assert(r@ =~= head + comma_separated(all.take(i + 1))) by {
                        if i == 0 {
                            assert(all.take(1)[0] == all[0]);
                        }
                    }
                    i += 1;
                }
                assert(all.take(i as int) =~= all);
                r
            },
        }
    }
}


/// A service of one of the two kinds.
pub enum RunningService {
    Docker(DockerService),
    Python(PythonService),
}

impl Service for RunningService {
    open spec fn label(&self) -> Seq<char> {
        match self {
            RunningService::Docker(s) => s.label(),
            RunningService::Python(s) => s.label(),
        }
    }

    open spec fn health(&self) -> Result<(), ServiceFailure> {
        match self {
            RunningService::Docker(s) => s.health(),
            RunningService::Python(s) => s.health(),
        }
    }

    open spec fn answer(&self) -> Result<Map<u16, u16>, ServiceFailure> {
        match self {
            RunningService::Docker(s) => s.answer(),
            RunningService::Python(s) => s.answer(),
        }
    }

    fn name(&self) -> (n: &str) {
        match self {
            RunningService::Docker(s) => s.name(),
            RunningService::Python(s) => s.name(),
        }
    }

    fn ready(&mut self) -> (r: Result<(), ServiceError>) {
        match self {
            RunningService::Docker(s) => s.ready(),
            RunningService::Python(s) => s.ready(),
        }
    }

    fn ports(&mut self) -> (r: Result<&HashMap<u16, u16>, ServiceError>) {
        match self {
            RunningService::Docker(s) => s.ports(),
            RunningService::Python(s) => s.ports(),
        }
    }
}

} // verus!
