//! A container as a service: what is asked of the container engine and what
//! its answers mean.

use vstd::prelude::*;
use std::collections::HashMap;
use crate::services::{parent, parent_of, CommandOutput, Service, ServiceError, ServiceFailure};
use crate::text::{
    after_last, decoded_or, last_segment, lines, lines_of, parse_u16, parsed_u16, split_at_first,
    split_at_text, split_once, split_once_text, str_eq, text_of_bytes, text_or, trim, trimmed,
    views,
};

verus! {

broadcast use vstd::std_specs::hash::group_hash_axioms;

/// Where the image of a container comes from.
#[derive(Debug)]
pub enum DockerImage {
    /// The image is built from the file with this path.
    FromDockerfile(String),
    /// The image is taken from a registry under this name.
    FromRegistry(String),
}

/// A `DockerImage`, its text as a sequence of characters.
pub enum ImageSource {
    FromDockerfile(Seq<char>),
    FromRegistry(Seq<char>),
}

impl View for DockerImage {
    type V = ImageSource;

    open spec fn view(&self) -> ImageSource {
        match *self {
            DockerImage::FromDockerfile(path) => ImageSource::FromDockerfile(path@),
            DockerImage::FromRegistry(name) => ImageSource::FromRegistry(name@),
        }
    }
}

/// Why a line of the engine's list of ports is no port mapping.
#[derive(Debug, Clone, Copy, PartialEq, Eq, Structural)]
pub enum PortMappingError {
    /// The line holds no ` -> `.
    NoArrow,
    /// What stands before the arrow holds no `/`.
    NoProtocol,
    /// The port of the guest is no port number.
    GuestPort,
    /// The port of the host is no port number.
    HostPort,
}

/// The port mapping that the line `line` states. A line has the form
/// `<guest port>/<protocol> -> <host address>:<host port>`, with whitespace
/// allowed around it; the port of the host is what follows the last colon.
pub open spec fn port_mapping(line: Seq<char>) -> Result<(u16, u16), PortMappingError> {
    match split_at_text(trimmed(line), " -> "@) {
        None => Err(PortMappingError::NoArrow),
        Some((guest, host)) => match split_at_first(guest, '/') {
            None => Err(PortMappingError::NoProtocol),
            Some((guest_port, _)) => match parsed_u16(guest_port) {
                None => Err(PortMappingError::GuestPort),
                Some(g) => match parsed_u16(after_last(host, ':')) {
                    None => Err(PortMappingError::HostPort),
                    Some(h) => Ok((g, h)),
                },
            },
        },
    }
}

/// Reads one line of the engine's list of ports.
pub fn parse_port_mapping(line: &str) -> (r: Result<(u16, u16), PortMappingError>)
    ensures
        r == port_mapping(line@),
{
    let s = trim(line);
    match split_once_text(s.as_str(), " -> ") {
        None => Err(PortMappingError::NoArrow),
        Some((guest, host)) => match split_once(guest.as_str(), '/') {
            None => Err(PortMappingError::NoProtocol),
            Some((guest_port, _)) => {
                let host_port = last_segment(host.as_str(), ':');
                match parse_u16(guest_port.as_str()) {
                    None => Err(PortMappingError::GuestPort),
                    Some(g) => match parse_u16(host_port.as_str()) {
                        None => Err(PortMappingError::HostPort),
                        Some(h) => Ok((g, h)),
                    },
                }
            },
        },
    }
}

/// A line that is no port mapping, and why.
#[derive(Debug)]
pub struct BadLine {
    pub line: String,
    pub error: PortMappingError,
}

/// The table of ports that the lines `lines` state, from the port of the
/// guest to the port of the host; of two lines for one port of the guest the
/// later counts. The first line that is no port mapping fails the whole.
pub open spec fn port_table(lines: Seq<Seq<char>>) -> Result<Map<u16, u16>, (
    Seq<char>,
    PortMappingError,
)>
    decreases lines.len(),
{
    if lines.len() == 0 {
        Ok(Map::empty())
    } else {
        match port_table(lines.drop_last()) {
            Err(e) => Err(e),
            Ok(table) => match port_mapping(lines.last()) {
                Err(e) => Err((lines.last(), e)),
                Ok((guest, host)) => Ok(table.insert(guest, host)),
            },
        }
    }
}

/// What `parse_port_mappings` returned, tables as maps and texts as
/// sequences of characters.
pub open spec fn port_table_view(r: Result<HashMap<u16, u16>, BadLine>) -> Result<Map<u16, u16>, (
    Seq<char>,
    PortMappingError,
)> {
    match r {
        Ok(table) => Ok(table@),
        Err(bad) => Err((bad.line@, bad.error)),
    }
}

/// Reads the engine's list of the ports of a container.
pub fn parse_port_mappings(output: &str) -> (r: Result<HashMap<u16, u16>, BadLine>)
    ensures
        port_table_view(r) == port_table(lines_of(output@)),
{
    let all = lines(output);
    let ghost texts = views(all@);
    let mut table: HashMap<u16, u16> = HashMap::new();
    let mut i: usize = 0;
    assert(texts.take(0) =~= Seq::empty());
    while i < all.len()
        invariant
            i <= all.len(),
            texts == views(all@),
            texts == lines_of(output@),
            port_table(texts.take(i as int)) == Ok::<Map<u16, u16>, (Seq<char>, PortMappingError)>(
                table@,
            ),
        decreases all.len() - i,
    {
        assert(texts.take(i + 1).drop_last() =~= texts.take(i as int));
        assert(texts.take(i + 1).last() == all@[i as int]@);
        match parse_port_mapping(all[i].as_str()) {
            Err(error) => {
                proof {
                    lemma_port_table_fails(texts, i + 1);
                }
                return Err(BadLine { line: all[i].clone(), error });
            },
            Ok((guest, host)) => {
                table.insert(guest, host);
            },
        }
        i += 1;
    }
    assert(texts.take(i as int) =~= texts);
    Ok(table)
}

/// Where the first `k` lines fail, all the lines fail, and in the same way.
pub proof fn lemma_port_table_fails(lines: Seq<Seq<char>>, k: int)
    requires
        0 <= k <= lines.len(),
        port_table(lines.take(k)) is Err,
    ensures
        port_table(lines) == port_table(lines.take(k)),
    decreases lines.len(),
{
    if k < lines.len() {
        assert(lines.drop_last().take(k) =~= lines.take(k));
        lemma_port_table_fails(lines.drop_last(), k);
    } else {
        assert(lines.take(k) =~= lines);
    }
}


/// The health of a container as the engine reports it.
#[derive(Debug, Clone, Copy, PartialEq, Eq, Structural)]
pub enum Health {
    Healthy,
    Unhealthy,
    /// Neither healthy nor unhealthy: the container is still starting.
    Starting,
}

/// The health that the engine's answer `status` reports, whitespace around
/// it aside.
pub open spec fn health_of(status: Seq<char>) -> Health {
    if trimmed(status) == "healthy"@ {
        Health::Healthy
    } else if trimmed(status) == "unhealthy"@ {
        Health::Unhealthy
    } else {
        Health::Starting
    }
}

/// What the engine answers when it is asked for the health of a container
/// with `health_args`: the status of the health check, or `healthy` where
/// the container defines no health check.
pub open spec fn health_report(check: Option<Seq<char>>) -> Seq<char> {
    match check {
        Some(status) => status,
        None => "healthy"@,
    }
}

/// A container without a health check counts as healthy.
pub proof fn lemma_no_health_check_is_healthy()
    ensures
        health_of(health_report(None)) == Health::Healthy,
{
    reveal_strlit("healthy");
    let s = "healthy"@;
    crate::text::lemma_skip_whitespace(s, 0);
    crate::text::lemma_skip_whitespace_back(s, s.len() as int);
    assert(!crate::text::is_whitespace(s[0]));
    assert(!crate::text::is_whitespace(s[6]));
    assert(trimmed(s) =~= s);
}

/// Reads the engine's answer to the question for the health of a
/// container.
pub fn read_health(status: &str) -> (h: Health)
    ensures
        h == health_of(status@),
{
    let t = trim(status);
    if str_eq(t.as_str(), "healthy") {
        Health::Healthy
    } else if str_eq(t.as_str(), "unhealthy") {
        Health::Unhealthy
    } else {
        Health::Starting
    }
}

/// A running container.
#[derive(Debug)]
pub struct Container {
    pub id: String,
    pub image: String,
}

/// A container as a service.
pub struct DockerService {
    name: String,
    container: Container,
    ports: Option<HashMap<u16, u16>>,
    ready: bool,
}

/// A `DockerService` as what it holds.
pub struct DockerState {
    pub name: Seq<char>,
    pub id: Seq<char>,
    pub image: Seq<char>,
    pub ports: Option<Map<u16, u16>>,
    pub ready: bool,
}

impl View for DockerService {
    type V = DockerState;

    closed spec fn view(&self) -> DockerState {
        DockerState {
            name: self.name@,
            id: self.container.id@,
            image: self.container.image@,
            ports: match self.ports {
                Some(table) => Some(table@),
                None => None,
            },
            ready: self.ready,
        }
    }
}

/// What `DockerService::started` comes to, given what the engine wrote when
/// it was asked to run the image `image`: the service, not ready and its
/// ports unknown, with the identifier that the engine wrote, whitespace
/// around it aside.
pub open spec fn started_state(name: Seq<char>, image: Seq<char>, run: CommandOutput) -> Result<
    DockerState,
    ServiceFailure,
> {
    if !run.success {
        if vstd::utf8::valid_utf8(run.stderr@) {
            Err(ServiceFailure::RunFailed { image, stderr: vstd::utf8::decode_utf8(run.stderr@) })
        } else {
            Err(ServiceFailure::NotUtf8)
        }
    } else if !vstd::utf8::valid_utf8(run.stdout@) {
        Err(ServiceFailure::NotUtf8)
    } else {
        Ok(
            DockerState {
                name,
                id: trimmed(vstd::utf8::decode_utf8(run.stdout@)),
                image,
                ports: None,
                ready: false,
            },
        )
    }
}

/// What becomes of the ports of a container when the engine has listed
/// them: known ports stay; else the list is read.
pub open spec fn observed_ports(state: DockerState, output: CommandOutput) -> Result<
    Map<u16, u16>,
    ServiceFailure,
> {
    if state.ports is Some {
        Ok(state.ports->0)
    } else if !output.success {
        Err(
            ServiceFailure::PortsFailed {
                image: state.image,
                stdout: decoded_or(output.stdout@, "<non-utf8>"@),
                stderr: decoded_or(output.stderr@, "<non-utf8>"@),
            },
        )
    } else if !vstd::utf8::valid_utf8(output.stdout@) {
        Err(ServiceFailure::NotUtf8)
    } else {
        match port_table(lines_of(vstd::utf8::decode_utf8(output.stdout@))) {
            Ok(table) => Ok(table),
            Err((line, error)) => Err(
                ServiceFailure::PortMapping { image: state.image, line, error },
            ),
        }
    }
}

/// What the answer `inspect` of the engine says of the health of the
/// container of the service `name`.
pub open spec fn observed_health(name: Seq<char>, inspect: CommandOutput) -> Result<
    Health,
    ServiceFailure,
> {
    if !inspect.success {
        Err(
            ServiceFailure::HealthCheckFailed {
                service: name,
                stderr: decoded_or(inspect.stderr@, "<non-utf8>"@),
            },
        )
    } else if !vstd::utf8::valid_utf8(inspect.stdout@) {
        Err(ServiceFailure::NotUtf8)
    } else {
        Ok(health_of(vstd::utf8::decode_utf8(inspect.stdout@)))
    }
}

/// What a step of a service returned, its texts as sequences of characters.
pub open spec fn step_view<T>(r: Result<T, ServiceError>) -> Result<T, ServiceFailure> {
    match r {
        Ok(t) => Ok(t),
        Err(e) => Err(e@),
    }
}

impl DockerService {
    /// The service `name` whose container the engine was asked to run from
    /// the image `image`; `run` is what the engine wrote.
    pub fn started(name: String, image: String, run: &CommandOutput) -> (r: Result<
        Self,
        ServiceError,
    >)
        ensures
            match r {
                Ok(service) => started_state(name@, image@, *run) == Ok::<
                    DockerState,
                    ServiceFailure,
                >(service@),
                Err(e) => started_state(name@, image@, *run) == Err::<DockerState, ServiceFailure>(
                    e@,
                ),
            },
    {
        if !run.success {
            return match text_of_bytes(&run.stderr) {
                Some(stderr) => Err(ServiceError::RunFailed { image, stderr }),
                None => Err(ServiceError::NotUtf8),
            };
        }
        match text_of_bytes(&run.stdout) {
            None => Err(ServiceError::NotUtf8),
            Some(stdout) => {
                let id = trim(stdout.as_str());
                Ok(
                    DockerService {
                        name,
                        container: Container { id, image },
                        ports: None,
                        ready: false,
                    },
                )
            },
        }
    }

    /// The identifier of the container.
    pub fn container_id(&self) -> (id: &str)
        ensures
            id@ == self@.id,
    {
        self.container.id.as_str()
    }

    /// Takes in the engine's answer to the question for the health of the
    /// container. A healthy container makes the service ready.
    pub fn observe_health(&mut self, inspect: &CommandOutput) -> (r: Result<Health, ServiceError>)
        ensures
            step_view(r) == observed_health(old(self)@.name, *inspect),
            final(self)@ == (DockerState {
                ready: old(self)@.ready || r == Ok::<Health, ServiceError>(Health::Healthy),
                ..old(self)@
            }),
    {
        if !inspect.success {
            return Err(
                ServiceError::HealthCheckFailed {
                    service: self.name.clone(),
                    stderr: text_or(&inspect.stderr, "<non-utf8>"),
                },
            );
        }
        match text_of_bytes(&inspect.stdout) {
            None => Err(ServiceError::NotUtf8),
            Some(stdout) => {
                let health = read_health(stdout.as_str());
                if health == Health::Healthy {
                    self.ready = true;
                }
                Ok(health)
            },
        }
    }

    /// The failure of the service whose container is unhealthy. `logs` is
    /// the log of the health check, if the engine gave it.
    pub fn unhealthy(&self, logs: Option<String>) -> (e: ServiceError)
        ensures
            e@ == (ServiceFailure::Unhealthy {
                service: self@.name,
                logs: match logs {
                    Some(l) => l@,
                    None => "<failed to get health check logs>"@,
                },
            }),
    {
        let logs = match logs {
            Some(l) => l,
            None => String::from_str("<failed to get health check logs>"),
        };
        ServiceError::Unhealthy { service: self.name.clone(), logs }
    }

    /// Takes in the engine's list of the ports of the container. Ports that
    /// are known stay as they are.
    pub fn observe_ports(&mut self, output: &CommandOutput) -> (r: Result<(), ServiceError>)
        ensures
            match r {
                Ok(()) => observed_ports(old(self)@, *output) == Ok::<Map<u16, u16>, ServiceFailure>(
                    final(self)@.ports->0,
                ) && final(self)@ == (DockerState { ports: final(self)@.ports, ..old(self)@ })
                    && final(self)@.ports is Some,
                Err(e) => observed_ports(old(self)@, *output) == Err::<Map<u16, u16>, ServiceFailure>(
                    e@,
                ) && final(self)@ == old(self)@,
            },
    {
        if self.ports.is_some() {
            return Ok(());
        }
        if !output.success {
            return Err(
                ServiceError::PortsFailed {
                    image: self.container.image.clone(),
                    stdout: text_or(&output.stdout, "<non-utf8>"),
                    stderr: text_or(&output.stderr, "<non-utf8>"),
                },
            );
        }
        match text_of_bytes(&output.stdout) {
            None => Err(ServiceError::NotUtf8),
            Some(stdout) => match parse_port_mappings(stdout.as_str()) {
                Ok(table) => {
                    self.ports = Some(table);
                    Ok(())
                },
                Err(bad) => Err(
                    ServiceError::PortMapping {
                        image: self.container.image.clone(),
                        line: bad.line,
                        error: bad.error,
                    },
                ),
            },
        }
    }
}

impl Service for DockerService {
    open spec fn label(&self) -> Seq<char> {
        self@.name
    }

    open spec fn health(&self) -> Result<(), ServiceFailure> {
        if self@.ready {
            Ok(())
        } else {
            Err(ServiceFailure::NotReady { service: self@.name })
        }
    }

    open spec fn answer(&self) -> Result<Map<u16, u16>, ServiceFailure> {
        match self@.ports {
            Some(table) => Ok(table),
            None => Err(ServiceFailure::PortsUnknown { service: self@.name }),
        }
    }

    fn name(&self) -> (n: &str) {
        self.name.as_str()
    }

    /// Succeeds where the container was seen healthy.
    fn ready(&mut self) -> (r: Result<(), ServiceError>)
        ensures
            final(self)@ == old(self)@,
    {
        if self.ready {
            Ok(())
        } else {
            Err(ServiceError::NotReady { service: self.name.clone() })
        }
    }

    /// The ports as the engine listed them.
    fn ports(&mut self) -> (r: Result<&HashMap<u16, u16>, ServiceError>)
        ensures
            final(self)@ == old(self)@,
    {
        match &self.ports {
            Some(table) => Ok(table),
            None => Err(ServiceError::PortsUnknown { service: self.name.clone() }),
        }
    }
}


/// The time to wait before the engine is asked again for the health of a
/// container that is still starting, in milliseconds.
pub const HEALTH_POLL_MILLIS: u64 = 100;

/// The texts `parts` as strings of their own.
pub fn strings(parts: Vec<&str>) -> (r: Vec<String>)
    ensures
        views(r@) == Seq::new(parts@.len(), |i: int| parts@[i]@),
{
    let mut r: Vec<String> = Vec::new();
    let mut i: usize = 0;
    while i < parts.len()
        invariant
            i <= parts.len(),
            r@.len() == i,
            forall|k: int| 0 <= k < i ==> (#[trigger] r@[k])@ == parts@[k]@,
        decreases parts.len() - i,
    {
        r.push(String::from_str(parts[i]));
        i += 1;
    }
    assert(views(r@) =~= Seq::new(parts@.len(), |i: int| parts@[i]@));
    r
}

/// The name under which the image of the service `name` is built.
pub fn image_tag(name: &str) -> (r: String)
    ensures
        r@ == "test-environment/services/"@ + name@,
{
    let mut r = String::from_str("test-environment/services/");
    r.append(name);
    r
}

/// The directory in which an image is built: that of its Dockerfile.
pub fn build_context(dockerfile: &str) -> (r: String)
    ensures
        r@ == parent_of(dockerfile@),
{
    parent(dockerfile)
}

/// The arguments with which the engine builds the image `tag` from the file
/// `dockerfile`.
pub fn build_args(dockerfile: &str, tag: &str) -> (r: Vec<String>)
    ensures
        views(r@) == seq!["build"@, "-f"@, dockerfile@, "-t"@, tag@, parent_of(dockerfile@)],
{
    let context = build_context(dockerfile);
    let mut parts: Vec<&str> = Vec::new();
    parts.push("build");
    parts.push("-f");
    parts.push(dockerfile);
    parts.push("-t");
    parts.push(tag);
    parts.push(context.as_str());
    let r = strings(parts);
    assert(views(r@) =~= seq![
        "build"@,
        "-f"@,
        dockerfile@,
        "-t"@,
        tag@,
        parent_of(dockerfile@),
    ]);
    r
}

/// The arguments with which the engine runs the image `image` in the
/// background, publishes all its ports and gives its health check a second
/// to start. The engine answers with the identifier of the container.
pub fn run_args(image: &str) -> (r: Vec<String>)
    ensures
        views(r@) == seq!["run"@, "-d"@, "-P"@, "--health-start-period=1s"@, image@],
{
    let mut parts: Vec<&str> = Vec::new();
    parts.push("run");
    parts.push("-d");
    parts.push("-P");
    parts.push("--health-start-period=1s");
    parts.push(image);
    let r = strings(parts);
    assert(views(r@) =~= seq!["run"@, "-d"@, "-P"@, "--health-start-period=1s"@, image@]);
    r
}

/// The arguments with which the engine tells the health of the container
/// `id`: the status of its health check, or `healthy` where it has none.
pub fn health_args(id: &str) -> (r: Vec<String>)
    ensures
        views(r@) == seq![
            "container"@,
            "inspect"@,
            "-f"@,
            "{{with .State.Health}}{{.Status}}{{else}}healthy{{end}}"@,
            id@,
        ],
{
    let mut parts: Vec<&str> = Vec::new();
    parts.push("container");
    parts.push("inspect");
    parts.push("-f");
    parts.push("{{with .State.Health}}{{.Status}}{{else}}healthy{{end}}");
    parts.push(id);
    let r = strings(parts);
    assert(views(r@) =~= seq![
        "container"@,
        "inspect"@,
        "-f"@,
        "{{with .State.Health}}{{.Status}}{{else}}healthy{{end}}"@,
        id@,
    ]);
    r
}

/// The arguments with which the engine gives the log of the health check of
/// the container `id`, or `<NO LOG>` where it has none.
pub fn health_log_args(id: &str) -> (r: Vec<String>)
    ensures
        views(r@) == seq![
            "container"@,
            "inspect"@,
            "-f"@,
            "{{with .State.Health}}{{json .Log}}{{else}}<NO LOG>{{end}}"@,
            id@,
        ],
{
    let mut parts: Vec<&str> = Vec::new();
    parts.push("container");
    parts.push("inspect");
    parts.push("-f");
    parts.push("{{with .State.Health}}{{json .Log}}{{else}}<NO LOG>{{end}}");
    parts.push(id);
    let r = strings(parts);
    assert(views(r@) =~= seq![
        "container"@,
        "inspect"@,
        "-f"@,
        "{{with .State.Health}}{{json .Log}}{{else}}<NO LOG>{{end}}"@,
        id@,
    ]);
    r
}

/// The arguments of the command `command` of the engine that takes the
/// identifier `id` of a container: `port` lists its ports, `stop` stops it,
/// `rm` removes it.
pub fn container_args(command: &str, id: &str) -> (r: Vec<String>)
    ensures
        views(r@) == seq![command@, id@],
{
    let mut parts: Vec<&str> = Vec::new();
    parts.push(command);
    parts.push(id);
    let r = strings(parts);
    assert(views(r@) =~= seq![command@, id@]);
    r
}

/// What the building of the image `tag` came to. `output` is what the engine
/// wrote, `status` how it ended, in words.
pub fn build_outcome(tag: &str, output: &CommandOutput, status: &str) -> (r: Result<
    (),
    ServiceError,
>)
    ensures
        step_view(r) == (if output.success {
            Ok::<(), ServiceFailure>(())
        } else {
            Err::<(), ServiceFailure>(
                ServiceFailure::BuildFailed {
                    image: tag@,
                    status: status@,
                    stderr: decoded_or(output.stderr@, "<non-utf8>"@),
                },
            )
        }),
{
    if output.success {
        Ok(())
    } else {
        Err(
            ServiceError::BuildFailed {
                image: String::from_str(tag),
                status: String::from_str(status),
                stderr: text_or(&output.stderr, "<non-utf8>"),
            },
        )
    }
}

} // verus!
