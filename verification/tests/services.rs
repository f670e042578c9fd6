use conformance_harness::services::docker::{
    parse_port_mapping, parse_port_mappings, read_health, DockerImage, DockerService, Health,
    PortMappingError,
};
use conformance_harness::services::python::{
    parse_port_pair, parse_ports, PortPairError, PythonService,
};
use conformance_harness::services::{
    get_builtin_service_definitions, join_path, pick_port, CommandOutput, DefinitionError,
    PortError, Service, ServiceDefinition, ServiceError, ServiceKind, Services, ServicesConfig,
};

fn names(list: &[&str]) -> Vec<String> {
    list.iter().map(|s| s.to_string()).collect()
}

fn output(success: bool, stdout: &str, stderr: &str) -> CommandOutput {
    CommandOutput {
        success,
        stdout: stdout.as_bytes().to_vec(),
        stderr: stderr.as_bytes().to_vec(),
    }
}

fn script(stdout: &str) -> PythonService {
    named_script("script", stdout)
}

fn named_script(name: &str, stdout: &str) -> PythonService {
    let mut s = PythonService::started(name.to_owned());
    s.observe(stdout.to_owned(), false);
    s
}

fn script_definition(name: &str) -> ServiceDefinition {
    ServiceDefinition {
        name: name.to_owned(),
        kind: ServiceKind::Python { script: format!("services/{name}.py") },
    }
}

fn running(outputs: &[&'static str]) -> Services<PythonService> {
    let mut config = ServicesConfig::none();
    for (i, _) in outputs.iter().enumerate() {
        config.add_service(script_definition(&i.to_string()));
    }
    let outputs: Vec<&'static str> = outputs.to_vec();
    Services::start(&config, |d: &ServiceDefinition| {
        let i: usize = d.name.parse().unwrap();
        Ok(named_script(&d.name, outputs[i]))
    })
    .unwrap()
}

#[test]
fn port_that_no_service_exposes_is_not_exposed() {
    let mut services = running(&["READY\nPORT=(80,8080)\n", "READY\n"]);
    assert!(matches!(services.get_port(5000), Ok(None)));
    let mut none: Services<PythonService> = Services::none();
    assert!(matches!(none.get_port(80), Ok(None)));
}

#[test]
fn port_that_one_service_exposes_is_resolved() {
    let mut services =
        running(&["READY\n", "READY\nPORT=(80,8080)\nPORT=(5000,32768)\n", "READY\nPORT=(81,1)\n"]);
    assert!(matches!(services.get_port(80), Ok(Some(8080))));
    assert!(matches!(services.get_port(5000), Ok(Some(32768))));
    assert!(matches!(services.get_port(81), Ok(Some(1))));
}

#[test]
fn port_that_two_services_expose_is_ambiguous() {
    let mut services =
        running(&["READY\n", "READY\nPORT=(80,8080)\n", "READY\nPORT=(80,8081)\n"]);
    match services.get_port(80) {
        Err(PortError::Ambiguous { service, guest_port }) => {
            assert_eq!(service, "1");
            assert_eq!(guest_port, 80);
        }
        _ => panic!("expected an ambiguous port"),
    }
}

#[test]
fn service_that_cannot_tell_its_ports_fails_the_lookup() {
    let mut services = running(&["READY\nPORT=80,8080\n"]);
    assert!(matches!(
        services.get_port(80),
        Err(PortError::Service(ServiceError::MalformedPortPair))
    ));
}

#[test]
fn ports_are_picked_by_the_number_of_services() {
    let e = |list: &[(&str, Option<u16>)]| -> Vec<(String, Option<u16>)> {
        list.iter().map(|(n, p)| (n.to_string(), *p)).collect()
    };
    assert!(matches!(pick_port(&e(&[]), 80), Ok(None)));
    assert!(matches!(pick_port(&e(&[("a", None), ("b", None)]), 80), Ok(None)));
    assert!(matches!(pick_port(&e(&[("a", None), ("b", Some(9))]), 80), Ok(Some(9))));
    assert!(matches!(pick_port(&e(&[("a", Some(7)), ("b", None)]), 80), Ok(Some(7))));
    match pick_port(&e(&[("a", None), ("b", Some(1)), ("c", None), ("d", Some(1))]), 80) {
        Err(PortError::Ambiguous { service, guest_port }) => {
            assert_eq!(service, "b");
            assert_eq!(guest_port, 80);
        }
        _ => panic!("expected an ambiguous port"),
    }
}

#[test]
fn start_stops_at_the_first_service_that_is_not_ready() {
    let mut config = ServicesConfig::none();
    config.add_service(script_definition("a"));
    config.add_service(script_definition("b"));
    let r: Result<Services<PythonService>, ServiceError> =
        Services::start(&config, |d: &ServiceDefinition| {
            if d.name == "a" {
                Ok(script("READY\n"))
            } else {
                Ok(script("still starting\n"))
            }
        });
    assert!(matches!(r, Err(ServiceError::NotReady { .. })));
    let r: Result<Services<PythonService>, ServiceError> =
        Services::start(&config, |_d: &ServiceDefinition| {
            Err(ServiceError::Io { context: "spawn".to_owned(), cause: "no python".to_owned() })
        });
    assert!(matches!(r, Err(ServiceError::Io { .. })));
    let r: Result<Services<PythonService>, ServiceError> =
        Services::start(&ServicesConfig::none(), |_d: &ServiceDefinition| {
            Err(ServiceError::ExitedEarly)
        });
    assert!(r.is_ok());
}

#[test]
fn healthy_reports_the_first_bad_service() {
    let mut services = running(&["READY\n", "READY\n"]);
    assert!(services.healthy().is_ok());
    let mut none: Services<PythonService> = Services::none();
    assert!(none.healthy().is_ok());
}

#[test]
fn script_is_ready_once_it_says_so() {
    let mut s = PythonService::started("http-echo".to_owned());
    assert_eq!(s.name(), "http-echo");
    assert!(matches!(s.ready(), Err(ServiceError::NotReady { .. })));
    s.observe("booting\n".to_owned(), false);
    assert!(matches!(s.ready(), Err(ServiceError::NotReady { .. })));
    s.observe("booting\nREADY\n".to_owned(), false);
    assert!(s.ready().is_ok());
    s.observe("".to_owned(), false);
    assert!(s.ready().is_ok());
    s.observe("booting\nREADY\n".to_owned(), true);
    assert!(matches!(s.ready(), Err(ServiceError::ExitedEarly)));
    s.observe("NOT READY yet\n".to_owned(), false);
    assert!(s.ready().is_ok());
    let mut other = PythonService::started("tcp-echo".to_owned());
    other.observe("ALREADY\nNOT READY\n".to_owned(), false);
    match other.ready() {
        Err(ServiceError::NotReady { service }) => assert_eq!(service, "tcp-echo"),
        _ => panic!("expected a service that is not ready"),
    }
    let mut early = PythonService::started("early".to_owned());
    early.observe("".to_owned(), true);
    assert!(matches!(early.ready(), Err(ServiceError::ExitedEarly)));
}

#[test]
fn script_ports_are_read_anew() {
    let mut s = script("READY\nPORT=(80,8080)\n");
    assert_eq!(s.ports().unwrap().get(&80), Some(&8080));
    s.observe("READY\nPORT=(80,8080)\nPORT=(81,8081)\n".to_owned(), false);
    assert_eq!(s.ports().unwrap().get(&81), Some(&8081));
    assert_eq!(s.ports().unwrap().len(), 2);
}

#[test]
fn port_pairs_are_read() {
    assert_eq!(parse_port_pair("PORT=(80,8080)"), Ok(Some((80, 8080))));
    assert_eq!(parse_port_pair("  PORT = ( 80 , 8080 ) "), Err(PortPairError::NotANumber));
    assert_eq!(parse_port_pair("  PORT = (80 , 8080)  "), Ok(Some((80, 8080))));
    assert_eq!(parse_port_pair("READY"), Ok(None));
    assert_eq!(parse_port_pair("HOST=localhost"), Ok(None));
    assert_eq!(parse_port_pair("port=(80,8080)"), Ok(None));
    assert_eq!(parse_port_pair("PORT=80,8080"), Err(PortPairError::Malformed));
    assert_eq!(parse_port_pair("PORT=(80,8080"), Err(PortPairError::Malformed));
    assert_eq!(parse_port_pair("PORT=(80)"), Err(PortPairError::Malformed));
    assert_eq!(parse_port_pair("PORT=(,)"), Err(PortPairError::NotANumber));
    assert_eq!(parse_port_pair("PORT=(80,99999)"), Err(PortPairError::NotANumber));
    assert_eq!(parse_port_pair("PORT=(a,1)"), Err(PortPairError::NotANumber));
    assert_eq!(parse_port_pair("PORT=(1,2,3)"), Err(PortPairError::NotANumber));
    assert_eq!(parse_port_pair(""), Ok(None));
}

#[test]
fn declared_ports_are_collected() {
    let table = parse_ports("log\nPORT=(80,8080)\nREADY\nPORT=(80,9090)\nPORT=(1,2)\n").unwrap();
    assert_eq!(table.len(), 2);
    assert_eq!(table.get(&80), Some(&9090));
    assert_eq!(table.get(&1), Some(&2));
    assert!(parse_ports("").unwrap().is_empty());
    assert_eq!(parse_ports("PORT=(1,2)\nPORT=x\nPORT=(a,b)").unwrap_err(), PortPairError::Malformed);
    assert_eq!(parse_ports("PORT=(a,b)\nPORT=x").unwrap_err(), PortPairError::NotANumber);
}

#[test]
fn port_mappings_are_read() {
    assert_eq!(parse_port_mapping("3306/tcp -> 0.0.0.0:32770"), Ok((3306, 32770)));
    assert_eq!(parse_port_mapping("  80/tcp -> [::]:32768\r"), Ok((80, 32768)));
    assert_eq!(parse_port_mapping("80/tcp -> 32768"), Ok((80, 32768)));
    assert_eq!(parse_port_mapping("80/tcp->0.0.0.0:1"), Err(PortMappingError::NoArrow));
    assert_eq!(parse_port_mapping(""), Err(PortMappingError::NoArrow));
    assert_eq!(parse_port_mapping("80 -> 0.0.0.0:1"), Err(PortMappingError::NoProtocol));
    assert_eq!(parse_port_mapping("http/tcp -> 0.0.0.0:1"), Err(PortMappingError::GuestPort));
    assert_eq!(parse_port_mapping("80/tcp -> 0.0.0.0:"), Err(PortMappingError::HostPort));
    assert_eq!(parse_port_mapping("80/tcp -> 0.0.0.0:70000"), Err(PortMappingError::HostPort));
    assert_eq!(parse_port_mapping("x/tcp -> 0.0.0.0:y"), Err(PortMappingError::GuestPort));
}

#[test]
fn lists_of_port_mappings_are_read() {
    let table =
        parse_port_mappings("80/tcp -> 0.0.0.0:32768\n80/tcp -> [::]:32769\n443/tcp -> 0.0.0.0:1\n")
            .ok()
            .unwrap();
    assert_eq!(table.len(), 2);
    assert_eq!(table.get(&80), Some(&32769));
    assert_eq!(table.get(&443), Some(&1));
    assert!(parse_port_mappings("").ok().unwrap().is_empty());
    match parse_port_mappings("80/tcp -> 0.0.0.0:1\n\nbad/udp -> x:2\n") {
        Err(bad) => {
            assert_eq!(bad.line, "");
            assert_eq!(bad.error, PortMappingError::NoArrow);
        }
        Ok(_) => panic!("expected a bad line"),
    }
}

#[test]
fn health_is_read() {
    assert_eq!(read_health("healthy\n"), Health::Healthy);
    assert_eq!(read_health("  unhealthy "), Health::Unhealthy);
    assert_eq!(read_health("starting\n"), Health::Starting);
    assert_eq!(read_health(""), Health::Starting);
    assert_eq!(read_health("Healthy"), Health::Starting);
}

#[test]
fn container_without_health_check_is_ready_at_once() {
    let mut s = DockerService::started(
        "redis".to_owned(),
        "redis:7".to_owned(),
        &output(true, "0123abcd\n", ""),
    )
    .ok()
    .unwrap();
    assert_eq!(s.container_id(), "0123abcd");
    assert_eq!(s.name(), "redis");
    assert!(matches!(s.ready(), Err(ServiceError::NotReady { .. })));
    assert!(matches!(s.observe_health(&output(true, "healthy\n", "")), Ok(Health::Healthy)));
    assert!(s.ready().is_ok());
    assert!(matches!(s.observe_health(&output(true, "starting\n", "")), Ok(Health::Starting)));
    assert!(s.ready().is_ok());
}

#[test]
fn unhealthy_container_fails_with_its_log() {
    let mut s = DockerService::started(
        "db".to_owned(),
        "test-environment/services/db".to_owned(),
        &output(true, "cafe\n", ""),
    )
    .ok()
    .unwrap();
    assert!(matches!(s.observe_health(&output(true, "starting", "")), Ok(Health::Starting)));
    assert!(matches!(s.observe_health(&output(true, "unhealthy\n", "")), Ok(Health::Unhealthy)));
    assert!(s.ready().is_err());
    match s.unhealthy(Some("[{\"ExitCode\":1}]".to_owned())) {
        ServiceError::Unhealthy { service, logs } => {
            assert_eq!(service, "db");
            assert_eq!(logs, "[{\"ExitCode\":1}]");
        }
        _ => panic!("expected an unhealthy service"),
    }
    match s.unhealthy(None) {
        ServiceError::Unhealthy { logs, .. } => {
            assert_eq!(logs, "<failed to get health check logs>")
        }
        _ => panic!("expected an unhealthy service"),
    }
    match s.observe_health(&output(false, "", "no such container")) {
        Err(ServiceError::HealthCheckFailed { service, stderr }) => {
            assert_eq!(service, "db");
            assert_eq!(stderr, "no such container");
        }
        _ => panic!("expected a failed health check"),
    }
    let broken = CommandOutput { success: true, stdout: vec![0xff], stderr: vec![] };
    assert!(matches!(s.observe_health(&broken), Err(ServiceError::NotUtf8)));
}

#[test]
fn container_that_does_not_run_fails() {
    match DockerService::started("a".to_owned(), "img".to_owned(), &output(false, "", "boom")) {
        Err(ServiceError::RunFailed { image, stderr }) => {
            assert_eq!(image, "img");
            assert_eq!(stderr, "boom");
        }
        _ => panic!("expected a failed run"),
    }
    let broken = CommandOutput { success: false, stdout: vec![], stderr: vec![0xff] };
    assert!(matches!(
        DockerService::started("a".to_owned(), "img".to_owned(), &broken),
        Err(ServiceError::NotUtf8)
    ));
}

#[test]
fn container_ports_are_kept_once_known() {
    let mut s =
        DockerService::started("a".to_owned(), "img".to_owned(), &output(true, "id", "")).ok().unwrap();
    assert!(matches!(s.ports(), Err(ServiceError::PortsUnknown { .. })));
    match s.observe_ports(&output(false, "out", "err")) {
        Err(ServiceError::PortsFailed { image, stdout, stderr }) => {
            assert_eq!(image, "img");
            assert_eq!(stdout, "out");
            assert_eq!(stderr, "err");
        }
        _ => panic!("expected a failed list"),
    }
    match s.observe_ports(&output(true, "80/tcp -> 0.0.0.0:1\nnonsense\n", "")) {
        Err(ServiceError::PortMapping { image, line, error }) => {
            assert_eq!(image, "img");
            assert_eq!(line, "nonsense");
            assert_eq!(error, PortMappingError::NoArrow);
        }
        _ => panic!("expected a bad line"),
    }
    assert!(s.observe_ports(&output(true, "80/tcp -> 0.0.0.0:32768\n", "")).is_ok());
    assert_eq!(s.ports().ok().unwrap().get(&80), Some(&32768));
    assert!(s.observe_ports(&output(true, "80/tcp -> 0.0.0.0:1\n", "")).is_ok());
    assert_eq!(s.ports().ok().unwrap().get(&80), Some(&32768));
}

#[test]
fn no_builtins_need_no_definitions() {
    let r = get_builtin_service_definitions(names(&[]), &names(&["weird"]), "services");
    assert!(r.ok().unwrap().is_empty());
    let config = ServicesConfig::new(names(&[]), &names(&[]), "services").ok().unwrap();
    assert!(config.definitions().is_empty());
    assert!(ServicesConfig::none().definitions().is_empty());
}

#[test]
fn definitions_are_found_by_file_name() {
    let files = names(&[
        "README",
        "redis.lock",
        "redis.Dockerfile",
        "http-echo.py",
        "unused.txt",
        "redis.py",
        "tcp-echo.py.bak",
    ]);
    let r = get_builtin_service_definitions(names(&["http-echo", "redis"]), &files, "services")
        .ok()
        .unwrap();
    assert_eq!(r.len(), 2);
    assert_eq!(r[0].name, "redis");
    match &r[0].kind {
        ServiceKind::Docker { image: DockerImage::FromDockerfile(path) } => {
            assert_eq!(path, "services/redis.Dockerfile")
        }
        _ => panic!("expected a container"),
    }
    assert_eq!(r[1].name, "http-echo");
    match &r[1].kind {
        ServiceKind::Python { script } => assert_eq!(script, "services/http-echo.py"),
        _ => panic!("expected a script"),
    }
}

#[test]
fn missing_and_unsupported_definitions_fail() {
    let files = names(&["redis.Dockerfile", "mqtt.toml", "http-echo.py"]);
    match get_builtin_service_definitions(names(&["redis", "postgres"]), &files, "s") {
        Err(DefinitionError::NotFound { services }) => assert_eq!(services, names(&["postgres"])),
        _ => panic!("expected a missing definition"),
    }
    match get_builtin_service_definitions(names(&["mqtt"]), &files, "s") {
        Err(DefinitionError::Unsupported { extension }) => assert_eq!(extension, "toml"),
        _ => panic!("expected an unsupported extension"),
    }
    match get_builtin_service_definitions(names(&["mqtt", "http-echo"]), &files, "s") {
        Err(DefinitionError::NotFound { services }) => assert_eq!(services, names(&["http-echo"])),
        _ => panic!("expected a missing definition"),
    }
}

#[test]
fn paths_are_joined() {
    assert_eq!(join_path("services", "a.py"), "services/a.py");
    assert_eq!(join_path("services/", "a.py"), "services/a.py");
    assert_eq!(join_path("", "a.py"), "a.py");
    assert_eq!(join_path("/", "a.py"), "/a.py");
}

#[test]
fn services_are_read_by_index() {
    let services = running(&["READY\n", "READY\n"]);
    assert_eq!(services.len(), 2);
    assert_eq!(services.get(0).unwrap().name(), "0");
    assert_eq!(services.get(1).unwrap().name(), "1");
    assert!(services.get(2).is_none());
}

#[test]
fn start_fails_with_the_failure_of_the_service_that_is_not_ready() {
    let mut config = ServicesConfig::none();
    config.add_service(script_definition("a"));
    config.add_service(script_definition("b"));
    let r: Result<Services<PythonService>, ServiceError> =
        Services::start(&config, |d: &ServiceDefinition| Ok(named_script(&d.name, "READY\n")));
    assert_eq!(r.ok().unwrap().len(), 2);
    let r: Result<Services<PythonService>, ServiceError> =
        Services::start(&config, |d: &ServiceDefinition| {
            let mut s = named_script(&d.name, "READY\n");
            if d.name == "b" {
                s.observe("READY\n".to_owned(), true);
            }
            Ok(s)
        });
    assert!(matches!(r, Err(ServiceError::ExitedEarly)));
}
