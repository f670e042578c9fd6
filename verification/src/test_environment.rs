//! The environment in which a test runs: a working directory, the services
//! of the test, the runtime under test and the variables handed to it.

use vstd::prelude::*;
use crate::http::{header_views, set_header, with_header, Headers};
use crate::manifest_template::{
    first_placeholder, placeholders, substituted, trimming, Answer, TemplateFailure,
    SUBSTITUTION_LIMIT,
};
use crate::text::{
    decimal, decimal_string, join, parse_u16, parsed_u16, part_views, split_at_first, split_once,
    str_eq, trim, trimmed, views,
};
use crate::services::{
    file_name_of, looked_up, next_unhealthy, port_view, PortError, PortFailure, Service,
    ServiceError, ServiceFailure, ServiceState, Services,
};

verus! {

/// A runtime that can be tested.
pub trait Runtime {
    /// Fails with what went wrong where the runtime has failed.
    fn error(&mut self) -> Result<(), String>;
}

/// Why a test environment is not healthy.
#[derive(Debug)]
pub enum EnvironmentError {
    /// A service is in a bad state.
    Service(ServiceError),
    /// The runtime has failed: what it reported.
    Runtime(String),
}

/// An environment for running tests.
pub struct TestEnvironment<R, S: Service> {
    path: String,
    services: Services<S>,
    runtime: Option<R>,
    env_vars: Vec<(String, String)>,
}

impl<R, S: Service> TestEnvironment<R, S> {
    /// The path of the working directory.
    pub closed spec fn dir(&self) -> Seq<char> {
        self.path@
    }

    /// The services of the environment.
    pub closed spec fn services(&self) -> Seq<ServiceState> {
        self.services@
    }

    /// The runtime that is attached, if one is.
    pub closed spec fn attached(&self) -> Option<R> {
        self.runtime
    }

    /// Whether a runtime is attached.
    pub open spec fn has_runtime(&self) -> bool {
        self.attached() is Some
    }

    /// The variables of the environment, each name once.
    pub closed spec fn variables(&self) -> Headers {
        header_views(self.env_vars@)
    }

    /// The environment with the working directory `path` and the services
    /// `services`, which were started: it has no runtime and no variables
    /// yet. Fails where a service is not healthy.
    pub fn boot(path: String, services: Services<S>) -> (r: Result<Self, ServiceError>)
        ensures
            match r {
                Ok(env) => next_unhealthy(services@, 0) >= services@.len() && env.dir() == path@
                    && !env.has_runtime() && env.variables().len() == 0 && env.services()
                    == services@,
                Err(e) => 0 <= next_unhealthy(services@, 0) < services@.len()
                    && services@[next_unhealthy(services@, 0)].health == Err::<
                    (),
                    ServiceFailure,
                >(e@),
            },
    {
        let mut services = services;
        match services.healthy() {
            Ok(()) => {},
            Err(e) => {
                return Err(e);
            },
        }
        Ok(TestEnvironment { path, services, runtime: None, env_vars: Vec::new() })
    }

    /// Attaches the runtime `runtime` to a healthy environment.
    ///
    /// The services are asked first: the first that is in a bad state fails
    /// the call with its failure, and the runtime is not asked. Else the
    /// runtime is asked: its report fails the call, or the call gives the
    /// environment with the runtime attached and all else as it was.
    pub fn start_runtime<N: Runtime>(self, runtime: N) -> (r: Result<
        TestEnvironment<N, S>,
        EnvironmentError,
    >)
        ensures
            match r {
                Ok(env) => services_healthy(self.services()) && env.has_runtime() && env.dir()
                    == self.dir() && env.variables() == self.variables() && env.services()
                    == self.services(),
                Err(EnvironmentError::Service(e)) => !services_healthy(self.services())
                    && first_unhealthy(self.services()) == Err::<(), ServiceFailure>(e@),
                Err(EnvironmentError::Runtime(_)) => services_healthy(self.services()),
            },
    {
        let mut this = TestEnvironment {
            path: self.path,
            services: self.services,
            runtime: Some(runtime),
            env_vars: self.env_vars,
        };
        match this.error() {
            Ok(()) => Ok(this),
            Err(e) => Err(e),
        }
    }

    /// The port of the host that is mapped to the port `guest_port` of the
    /// guest.
    pub fn get_port(&mut self, guest_port: u16) -> (r: Result<Option<u16>, PortError>)
        ensures
            final(self).dir() == old(self).dir(),
            final(self).has_runtime() == old(self).has_runtime(),
            final(self).variables() == old(self).variables(),
            final(self).services() == old(self).services(),
            port_view(r) == looked_up(old(self).services(), guest_port),
    {
        self.services.get_port(guest_port)
    }

    /// The services that run for the test.
    pub fn services_mut(&mut self) -> (s: &mut Services<S>)
        ensures
            s@ == old(self).services(),
            final(self).services() == final(s)@,
            final(self).dir() == old(self).dir(),
            final(self).has_runtime() == old(self).has_runtime(),
            final(self).variables() == old(self).variables(),
    {
        &mut self.services
    }

    /// The runtime under test, which must be attached: the reference gives
    /// the runtime as it is, and what is done through it is done to the
    /// runtime of the environment. Nothing else of the environment changes.
    pub fn runtime_mut(&mut self) -> (r: &mut R)
        requires
            old(self).has_runtime(),
        ensures
            *r == old(self).attached()->0,
            final(self).attached() == Some(*final(r)),
            final(self).dir() == old(self).dir(),
            final(self).services() == old(self).services(),
            final(self).variables() == old(self).variables(),
    {
        match &mut self.runtime {
            Some(runtime) => runtime,
            None => vstd::pervasive::unreached(),
        }
    }

    /// Whether a runtime is attached.
    pub fn is_running(&self) -> (r: bool)
        ensures
            r == self.has_runtime(),
    {
        self.runtime.is_some()
    }

    /// The path of the working directory.
    pub fn path(&self) -> (p: &str)
        ensures
            p@ == self.dir(),
    {
        self.path.as_str()
    }

    /// Sets the variable `key` to `value`.
    pub fn set_env_var(&mut self, key: String, value: String)
        ensures
            final(self).variables() == with_header(old(self).variables(), key@, value@),
            final(self).dir() == old(self).dir(),
            final(self).has_runtime() == old(self).has_runtime(),
            final(self).services() == old(self).services(),
    {
        set_header(&mut self.env_vars, key, value);
    }

    /// The variables of the environment.
    pub fn env_vars(&self) -> (v: &Vec<(String, String)>)
        ensures
            header_views(v@) == self.variables(),
    {
        &self.env_vars
    }
}

impl<R: Runtime, S: Service> TestEnvironment<R, S> {
    /// Fails where the environment is not healthy.
    ///
    /// The services are asked first: the first that is in a bad state fails
    /// the call with its failure, and the runtime is not asked. Else the
    /// runtime, if one is attached, is asked, and `runtime_verdict` says what
    /// its report means; without a runtime the call succeeds.
    pub fn error(&mut self) -> (r: Result<(), EnvironmentError>)
        ensures
            final(self).dir() == old(self).dir(),
            final(self).has_runtime() == old(self).has_runtime(),
            final(self).variables() == old(self).variables(),
            final(self).services() == old(self).services(),
            match r {
                Ok(()) => services_healthy(old(self).services()),
                Err(EnvironmentError::Service(e)) => !services_healthy(old(self).services())
                    && first_unhealthy(old(self).services()) == Err::<(), ServiceFailure>(e@),
                Err(EnvironmentError::Runtime(_)) => services_healthy(old(self).services()) && old(
                    self,
                ).has_runtime(),
            },
    {
        match self.services.healthy() {
            Ok(()) => {},
            Err(e) => {
                return Err(EnvironmentError::Service(e));
            },
        }
        match &mut self.runtime {
            Some(runtime) => runtime_verdict(runtime.error()),
            None => Ok(()),
        }
    }
}

/// Whether every service with a state in `states` is ready.
pub open spec fn services_healthy(states: Seq<ServiceState>) -> bool {
    next_unhealthy(states, 0) >= states.len()
}

/// What the first service that is in a bad state says is wrong with it;
/// `Ok` where every service is ready.
pub open spec fn first_unhealthy(states: Seq<ServiceState>) -> Result<(), ServiceFailure> {
    if 0 <= next_unhealthy(states, 0) < states.len() {
        states[next_unhealthy(states, 0)].health
    } else {
        Ok(())
    }
}

/// What the report `report` of the runtime means for the environment: a
/// runtime that reports nothing is healthy, and what it reports is the
/// failure of the environment.
pub fn runtime_verdict(report: Result<(), String>) -> (r: Result<(), EnvironmentError>)
    ensures
        match report {
            Ok(()) => r is Ok,
            Err(message) => r matches Err(EnvironmentError::Runtime(m)) && m == message,
        },
{
    match report {
        Ok(()) => Ok(()),
        Err(message) => Err(EnvironmentError::Runtime(message)),
    }
}

/// Why a placeholder could not be replaced by what the environment knows.
#[allow(inconsistent_fields)]
#[derive(Debug)]
pub enum EnvError {
    /// A placeholder whose text holds no `=`.
    Invalid { template: String },
    /// A placeholder with a key that the environment does not know.
    UnknownKey { key: String },
    /// No component has this name.
    NoSuchComponent { name: String },
    /// A component could not be copied into the working directory.
    CopyFailed { from: String, cause: String },
    /// The value of a placeholder for a port is no port number.
    PortNotNumber { value: String },
    /// The port could not be resolved.
    Port(PortError),
    /// No service exposes the port.
    NotExposed { port: String },
    /// More placeholders were replaced than the limit allows.
    Exhausted,
}

/// Why the environment could not answer a placeholder, texts as sequences
/// of characters.
pub enum EnvFailure {
    UnknownKey { key: Seq<char> },
    NoSuchComponent { name: Seq<char> },
    CopyFailed { from: Seq<char>, cause: Seq<char> },
    PortNotNumber { value: Seq<char> },
    Port(PortFailure),
    NotExposed { port: Seq<char> },
}

/// The result of a substitution by the environment, texts as sequences of
/// characters.
pub open spec fn env_outcome(r: Result<(), EnvError>) -> Result<(), TemplateFailure<EnvFailure>> {
    match r {
        Ok(()) => Ok(()),
        Err(EnvError::Invalid { template }) => Err(TemplateFailure::Invalid { template: template@ }),
        Err(EnvError::Exhausted) => Err(TemplateFailure::Exhausted),
        Err(EnvError::UnknownKey { key }) => Err(
            TemplateFailure::Resolver(EnvFailure::UnknownKey { key: key@ }),
        ),
        Err(EnvError::NoSuchComponent { name }) => Err(
            TemplateFailure::Resolver(EnvFailure::NoSuchComponent { name: name@ }),
        ),
        Err(EnvError::CopyFailed { from, cause }) => Err(
            TemplateFailure::Resolver(EnvFailure::CopyFailed { from: from@, cause: cause@ }),
        ),
        Err(EnvError::PortNotNumber { value }) => Err(
            TemplateFailure::Resolver(EnvFailure::PortNotNumber { value: value@ }),
        ),
        Err(EnvError::Port(e)) => Err(TemplateFailure::Resolver(EnvFailure::Port(e@))),
        Err(EnvError::NotExposed { port }) => Err(
            TemplateFailure::Resolver(EnvFailure::NotExposed { port: port@ }),
        ),
    }
}

/// What the services with the states `states` answer to a placeholder, its
/// key and its value trimmed: for the key `port`, the port of the host for
/// the port of the guest that the value names, in decimal digits. They
/// decline nothing: any other key fails.
pub open spec fn port_model(states: Seq<ServiceState>) -> spec_fn(Seq<char>, Seq<char>) -> Answer<
    EnvFailure,
> {
    trimming(
        |key: Seq<char>, value: Seq<char>|
            if key != "port"@ {
                Err(EnvFailure::UnknownKey { key })
            } else {
                match parsed_u16(value) {
                    None => Err(EnvFailure::PortNotNumber { value }),
                    Some(guest) => match looked_up(states, guest) {
                        Err(e) => Err(EnvFailure::Port(e)),
                        Ok(None) => Err(EnvFailure::NotExposed { port: value }),
                        Ok(Some(port)) => Ok(Some(decimal(port as nat))),
                    },
                }
            },
    )
}

/// Whether `model` says what `copy_into` returns, the cause of a failure as
/// a sequence of characters.
pub open spec fn copies<C: Fn(&str, &str) -> Result<(), String>>(
    copy_into: C,
    model: spec_fn(Seq<char>, Seq<char>) -> Result<(), Seq<char>>,
) -> bool {
    forall|from: &str, into: &str, r: Result<(), String>| #[trigger]
        call_ensures(copy_into, (from, into), r) ==> model(from@, into@) == (match r {
            Ok(()) => Ok::<(), Seq<char>>(()),
            Err(cause) => Err::<(), Seq<char>>(cause@),
        })
}

/// What the environment answers to a placeholder of a manifest, its key and
/// its value trimmed.
///
/// For the key `source` the value names a component: `paths` gives the path
/// of its binary, `copied` says how the copy of that file into the working
/// directory, under its file name, ends, and the answer is the file name.
/// For the key `port` the answer is the port of the host for the port of
/// the guest that the value names. Nothing is declined: any other key
/// fails.
pub open spec fn env_model(
    states: Seq<ServiceState>,
    paths: spec_fn(Seq<char>) -> Option<Seq<char>>,
    copied: spec_fn(Seq<char>, Seq<char>) -> Result<(), Seq<char>>,
) -> spec_fn(Seq<char>, Seq<char>) -> Answer<EnvFailure> {
    trimming(
        |key: Seq<char>, value: Seq<char>|
            if key == "source"@ {
                match paths(value) {
                    None => Err(EnvFailure::NoSuchComponent { name: value }),
                    Some(path) => match copied(path, file_name_of(path)) {
                        Err(cause) => Err(EnvFailure::CopyFailed { from: path, cause }),
                        Ok(()) => Ok(Some(file_name_of(path))),
                    },
                }
            } else if key == "port"@ {
                match parsed_u16(value) {
                    None => Err(EnvFailure::PortNotNumber { value }),
                    Some(guest) => match looked_up(states, guest) {
                        Err(e) => Err(EnvFailure::Port(e)),
                        Ok(None) => Err(EnvFailure::NotExposed { port: decimal(guest as nat) }),
                        Ok(Some(port)) => Ok(Some(decimal(port as nat))),
                    },
                }
            } else {
                Err(EnvFailure::UnknownKey { key })
            },
    )
}

/// What a placeholder asks of the environment.
#[derive(Debug)]
pub enum EnvRequest {
    /// The binary of the component `name`.
    Source { name: String },
    /// The port of the host for the port `guest` of the guest; `value` is
    /// the value of the placeholder.
    Port { guest: u16, value: String },
}

/// An `EnvRequest`, or why there is none, its texts as sequences of
/// characters.
pub enum Asked {
    Source { name: Seq<char> },
    Port { guest: u16, value: Seq<char> },
    Invalid { template: Seq<char> },
    UnknownKey { key: Seq<char> },
    PortNotNumber { value: Seq<char> },
}

/// What the placeholder with the text `inner` asks of the environment. The
/// text is split at its first `=` into a key and a value, both of which are
/// trimmed. The key `port` asks for a port, and the key `source`, where
/// `sources` allows it, for a component.
pub open spec fn asked(inner: Seq<char>, sources: bool) -> Asked {
    match split_at_first(inner, '=') {
        None => Asked::Invalid { template: inner },
        Some((key, value)) => {
            if sources && trimmed(key) == "source"@ {
                Asked::Source { name: trimmed(value) }
            } else if trimmed(key) == "port"@ {
                match parsed_u16(trimmed(value)) {
                    Some(guest) => Asked::Port { guest, value: trimmed(value) },
                    None => Asked::PortNotNumber { value: trimmed(value) },
                }
            } else {
                Asked::UnknownKey { key: trimmed(key) }
            }
        },
    }
}

/// The failure that a placeholder of a manifest with the text `inner` meets
/// before any component is asked for, given the services with the states
/// `states`: that of a text without `=`, of an unknown key, of a value that
/// is no port number, of services that cannot tell their ports, and of a
/// port that none of them exposes. `None` where the placeholder names a
/// component or a port that is exposed.
pub open spec fn refusal(states: Seq<ServiceState>, inner: Seq<char>) -> Option<
    TemplateFailure<EnvFailure>,
> {
    match asked(inner, true) {
        Asked::Invalid { template } => Some(TemplateFailure::Invalid { template }),
        Asked::UnknownKey { key } => Some(TemplateFailure::Resolver(EnvFailure::UnknownKey { key })),
        Asked::PortNotNumber { value } => Some(
            TemplateFailure::Resolver(EnvFailure::PortNotNumber { value }),
        ),
        Asked::Port { guest, value } => match looked_up(states, guest) {
            Err(e) => Some(TemplateFailure::Resolver(EnvFailure::Port(e))),
            Ok(None) => Some(
                TemplateFailure::Resolver(EnvFailure::NotExposed { port: decimal(guest as nat) }),
            ),
            Ok(Some(_)) => None,
        },
        Asked::Source { name } => None,
    }
}

/// Whether `r` is what `asked` says.
pub open spec fn is_asked(r: Result<EnvRequest, EnvError>, asked: Asked) -> bool {
    match asked {
        Asked::Source { name } => r matches Ok(EnvRequest::Source { name: n }) && n@ == name,
        Asked::Port { guest, value } => r matches Ok(EnvRequest::Port { guest: g, value: v }) && g
            == guest && v@ == value,
        Asked::Invalid { template } => r matches Err(EnvError::Invalid { template: t }) && t@
            == template,
        Asked::UnknownKey { key } => r matches Err(EnvError::UnknownKey { key: k }) && k@ == key,
        Asked::PortNotNumber { value } => r matches Err(EnvError::PortNotNumber { value: v }) && v@
            == value,
    }
}

/// Reads what the placeholder with the text `inner` asks of the
/// environment.
pub fn env_request(inner: &str, sources: bool) -> (r: Result<EnvRequest, EnvError>)
    ensures
        is_asked(r, asked(inner@, sources)),
{
    let (raw_key, raw_value) = match split_once(inner, '=') {
        None => {
            return Err(EnvError::Invalid { template: String::from_str(inner) });
        },
        Some(pair) => pair,
    };
    let key = trim(raw_key.as_str());
    let value = trim(raw_value.as_str());
    if sources && str_eq(key.as_str(), "source") {
        Ok(EnvRequest::Source { name: value })
    } else if str_eq(key.as_str(), "port") {
        match parse_u16(value.as_str()) {
            Some(guest) => Ok(EnvRequest::Port { guest, value }),
            None => Err(EnvError::PortNotNumber { value }),
        }
    } else {
        Err(EnvError::UnknownKey { key })
    }
}

/// The text that replaces a placeholder for the port `value`, given what
/// the services said of that port: the port of the host in decimal digits.
/// Fails where no service exposes the port and where the services failed.
pub fn port_replacement(value: &str, found: Result<Option<u16>, PortError>) -> (r: Result<
    String,
    EnvError,
>)
    ensures
        match found {
            Ok(Some(port)) => r matches Ok(s) && s@ == decimal(port as nat),
            Ok(None) => r matches Err(EnvError::NotExposed { port }) && port@ == value@,
            Err(e) => r matches Err(EnvError::Port(cause)) && cause == e,
        },
{
    match found {
        Ok(Some(port)) => Ok(decimal_string(port as u64)),
        Ok(None) => Err(EnvError::NotExposed { port: String::from_str(value) }),
        Err(e) => Err(EnvError::Port(e)),
    }
}

impl<R, S: Service> TestEnvironment<R, S> {
    /// Replaces the placeholders of `text`, which must all have the key
    /// `port`, by the ports of the host that the services expose. The key
    /// and the value of a placeholder are trimmed.
    pub fn substitute_ports(&mut self, text: &mut String) -> (r: Result<(), EnvError>)
        ensures
            final(self).dir() == old(self).dir(),
            final(self).has_runtime() == old(self).has_runtime(),
            final(self).variables() == old(self).variables(),
            final(self).services() == old(self).services(),
            (final(text)@, env_outcome(r)) == substituted(
                old(text)@,
                port_model(old(self).services()),
                SUBSTITUTION_LIMIT as nat,
            ),
    {
        let ghost model = port_model(self.services());
        let ghost original = text@;
        let mut rounds: u64 = 0;
        loop
            invariant
                self.dir() == old(self).dir(),
                self.has_runtime() == old(self).has_runtime(),
                self.variables() == old(self).variables(),
                self.services() == old(self).services(),
                model == port_model(old(self).services()),
                original == old(text)@,
                substituted(original, model, SUBSTITUTION_LIMIT as nat) == substituted(
                    text@,
                    model,
                    (SUBSTITUTION_LIMIT - rounds) as nat,
                ),
            decreases SUBSTITUTION_LIMIT - rounds,
        {
            let ghost before = text@;
            let ghost spans = placeholders(before);
            let p = match first_placeholder(text.as_str()) {
                None => {
                    return Ok(());
                },
                Some(p) => p,
            };
            let ghost inner = p.inner@;
            assert(inner == before.subrange(spans[0].0 + 2, spans[0].1 - 1));
            let request = env_request(p.inner.as_str(), false);
            let (guest, value) = match request {
                Ok(EnvRequest::Port { guest, value }) => (guest, value),
                Ok(EnvRequest::Source { name }) => {
                    return Err(EnvError::UnknownKey { key: name });
                },
                Err(e) => {
                    return Err(e);
                },
            };
            let found = self.get_port(guest);
            let replacement = match port_replacement(value.as_str(), found) {
                Ok(s) => s,
                Err(e) => {
                    return Err(e);
                },
            };
            if rounds == SUBSTITUTION_LIMIT {
                return Err(EnvError::Exhausted);
            }
            let mut new = p.before;
            new.append(replacement.as_str());
            new.append(p.after.as_str());
            *text = new;
            rounds += 1;
        }
    }
}


/// The messages of a failure and of its cause, where it has one.
pub open spec fn env_messages(e: EnvError) -> Seq<Seq<char>> {
    match e {
        EnvError::Invalid { template } => seq![
            seq![
                "invalid template '"@,
                template@,
                "'(template should be in the form $KEY=$VALUE)"@,
            ].flatten(),
        ],
        EnvError::UnknownKey { key } => seq![seq!["unknown template key: "@, key@].flatten()],
        EnvError::NoSuchComponent { name } => seq![
            seq!["no such component '"@, name@, "'"@].flatten(),
        ],
        EnvError::CopyFailed { from, cause } => seq![
            seq!["failed to copy file '"@, from@, "' to temporary directory"@].flatten(),
            cause@,
        ],
        EnvError::PortNotNumber { value } => seq![
            seq!["failed to parse '"@, value@, "' as port"@].flatten(),
        ],
        EnvError::Port(e) => seq![crate::services::port_message(e@)],
        EnvError::NotExposed { port } => seq![
            seq!["no port "@, port@, " exposed by any service"@].flatten(),
        ],
        EnvError::Exhausted => seq!["too many placeholders were replaced"@],
    }
}

impl EnvError {
    /// The messages of the failure and of its cause, where it has one.
    pub fn chain(&self) -> (r: Vec<String>)
        ensures
            views(r@) == env_messages(*self),
    {
        let mut parts: Vec<&str> = Vec::new();
        let mut r: Vec<String> = Vec::new();
        match self {
            EnvError::Invalid { template } => {
                parts.push("invalid template '");
                parts.push(template.as_str());
                parts.push("'(template should be in the form $KEY=$VALUE)");
                assert(part_views(parts@) =~= seq![
                    "invalid template '"@,
                    template@,
                    "'(template should be in the form $KEY=$VALUE)"@,
                ]);
                r.push(join(parts));
            },
            EnvError::UnknownKey { key } => {
                parts.push("unknown template key: ");
                parts.push(key.as_str());
                assert(part_views(parts@) =~= seq!["unknown template key: "@, key@]);
                r.push(join(parts));
            },
            EnvError::NoSuchComponent { name } => {
                parts.push("no such component '");
                parts.push(name.as_str());
                parts.push("'");
                assert(part_views(parts@) =~= seq!["no such component '"@, name@, "'"@]);
                r.push(join(parts));
            },
            EnvError::CopyFailed { from, cause } => {
                parts.push("failed to copy file '");
                parts.push(from.as_str());
                parts.push("' to temporary directory");
                assert(part_views(parts@) =~= seq![
                    "failed to copy file '"@,
                    from@,
                    "' to temporary directory"@,
                ]);
                r.push(join(parts));
                r.push(cause.clone());
            },
            EnvError::PortNotNumber { value } => {
                parts.push("failed to parse '");
                parts.push(value.as_str());
                parts.push("' as port");
                assert(part_views(parts@) =~= seq!["failed to parse '"@, value@, "' as port"@]);
                r.push(join(parts));
            },
            EnvError::Port(e) => {
                r.push(e.message());
            },
            EnvError::NotExposed { port } => {
                parts.push("no port ");
                parts.push(port.as_str());
                parts.push(" exposed by any service");
                assert(part_views(parts@) =~= seq![
                    "no port "@,
                    port@,
                    " exposed by any service"@,
                ]);
                r.push(join(parts));
            },
            EnvError::Exhausted => {
                r.push(String::from_str("too many placeholders were replaced"));
            },
        }
        assert(views(r@) =~= env_messages(*self));
        r
    }
}

impl EnvironmentError {
    /// The messages of the failure and of its causes: that the environment
    /// is not healthy, and why.
    pub fn chain(&self) -> (r: Vec<String>)
        ensures
            views(r@) == seq!["testing environment is not healthy"@] + (match *self {
                EnvironmentError::Service(e) => crate::services::service_messages(e@),
                EnvironmentError::Runtime(message) => seq![message@],
            }),
    {
        let mut r: Vec<String> = Vec::new();
        r.push(String::from_str("testing environment is not healthy"));
        match self {
            EnvironmentError::Service(e) => {
                let mut causes = e.chain();
                let ghost rest = views(causes@);
                r.append(&mut causes);
                assert(views(r@) =~= seq!["testing environment is not healthy"@] + rest);
            },
            EnvironmentError::Runtime(message) => {
                r.push(message.clone());
                assert(views(r@) =~= seq!["testing environment is not healthy"@] + seq![message@]);
            },
        }
        r
    }
}

} // verus!
