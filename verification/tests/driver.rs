use conformance_harness::config::{
    HttpInvocation, Invocation, Method, Request, Response, RunError, TestConfig,
};
use conformance_harness::conformance::{config_file_name, tests_archive_url, Test};
use conformance_harness::http;
use conformance_harness::http::{after_attempt, Attempt, MAX_RETRIES, RETRY_DELAY_MILLIS};
use conformance_harness::manifest_template::TemplateError;
use conformance_harness::services::docker::{
    build_args, build_context, build_outcome, container_args, health_args, health_log_args,
    image_tag, run_args, PortMappingError,
};
use conformance_harness::services::{
    lock_dir_name, lock_file_name, CommandOutput, DefinitionError, PortError, ServiceError,
};
use conformance_harness::test_environment::{EnvError, EnvironmentError};

fn invocation(path: &str, status: u16) -> Invocation {
    Invocation::Http(HttpInvocation {
        request: Request {
            method: Method::GET,
            path: path.to_owned(),
            headers: vec![],
            body: None,
        },
        response: Response { status, headers: vec![], body: None },
    })
}

fn test(invocations: Vec<Invocation>) -> Test {
    Test::in_directory(
        "/tmp/conformance-tests/kv",
        "kv".to_owned(),
        TestConfig { invocations, preconditions: vec![] },
    )
}

#[test]
fn test_files_are_in_its_directory() {
    let t = test(vec![]);
    assert_eq!(t.name, "kv");
    assert_eq!(t.manifest, "/tmp/conformance-tests/kv/spin.toml");
    assert_eq!(t.component, "/tmp/conformance-tests/kv/component.wasm");
    assert_eq!(config_file_name(), "test.json5");
    assert!(tests_archive_url().ends_with("/tests.tar.gz"));
}

#[test]
fn run_stops_at_the_first_failure() {
    let calls = std::cell::RefCell::new(Vec::new());
    let send = |sent: http::Request<String>| -> Result<http::Response, String> {
        calls.borrow_mut().push(sent.path.to_owned());
        if sent.path == "/down" {
            Err("connection refused".to_owned())
        } else {
            Ok(http::Response::new(200))
        }
    };
    assert!(test(vec![]).run(&send).is_ok());
    assert!(test(vec![invocation("/a", 200), invocation("/b", 200)]).run(&send).is_ok());
    assert_eq!(calls.borrow().clone(), vec!["/a", "/b"]);
    calls.borrow_mut().clear();
    match test(vec![invocation("/a", 200), invocation("/b", 404), invocation("/c", 200)]).run(&send)
    {
        Err((1, RunError::Assertion(e))) => {
            assert_eq!(e.message(), "actual status 200 != expected status 404 - body: ")
        }
        _ => panic!("expected the second invocation to fail"),
    }
    assert_eq!(calls.borrow().clone(), vec!["/a", "/b"]);
    match test(vec![invocation("/down", 200)]).run(&send) {
        Err((0, e)) => assert_eq!(
            e.chain(),
            vec!["failed to send the request to the runtime", "connection refused"]
        ),
        _ => panic!("expected the first invocation to fail"),
    }
}

#[test]
fn retries_are_bounded() {
    assert_eq!(MAX_RETRIES, 5);
    assert_eq!(RETRY_DELAY_MILLIS, 10);
    assert_eq!(after_attempt(true, 0), Attempt::Retry { retries: 1 });
    assert_eq!(after_attempt(true, 4), Attempt::Retry { retries: 5 });
    assert_eq!(after_attempt(true, 5), Attempt::Finish);
    assert_eq!(after_attempt(false, 0), Attempt::Finish);
    assert_eq!(after_attempt(false, 5), Attempt::Finish);
    let mut retries = 0;
    let mut attempts = 1;
    while let Attempt::Retry { retries: next } = after_attempt(true, retries) {
        retries = next;
        attempts += 1;
    }
    assert_eq!(attempts, 6);
}

#[test]
fn addresses_and_methods() {
    assert_eq!(http::base_url("localhost", 3000), "http://localhost:3000");
    assert_eq!(http::base_url("127.0.0.1", 65535), "http://127.0.0.1:65535");
    assert_eq!(http::header_value(Some("v".to_owned())), "v");
    assert_eq!(http::header_value(None), "<non-utf8>");
    assert_eq!(http::Method::Get.name(), "GET");
    assert_eq!(http::Method::Delete.name(), "DELETE");
}

#[test]
fn engine_commands() {
    assert_eq!(run_args("redis:7"), vec!["run", "-d", "-P", "--health-start-period=1s", "redis:7"]);
    assert_eq!(
        health_args("abc"),
        vec![
            "container",
            "inspect",
            "-f",
            "{{with .State.Health}}{{.Status}}{{else}}healthy{{end}}",
            "abc"
        ]
    );
    assert_eq!(
        health_log_args("abc"),
        vec![
            "container",
            "inspect",
            "-f",
            "{{with .State.Health}}{{json .Log}}{{else}}<NO LOG>{{end}}",
            "abc"
        ]
    );
    assert_eq!(container_args("port", "abc"), vec!["port", "abc"]);
    assert_eq!(
        build_args("services/redis.Dockerfile", "test-environment/services/redis"),
        vec![
            "build",
            "-f",
            "services/redis.Dockerfile",
            "-t",
            "test-environment/services/redis",
            "services"
        ]
    );
    assert_eq!(build_context("a/b/c.Dockerfile"), "a/b");
    assert_eq!(build_context("c.Dockerfile"), "");
    assert_eq!(build_context("/c.Dockerfile"), "/");
    for path in ["a/b/c.Dockerfile", "c.Dockerfile", "/c.Dockerfile", "a//c", "/a/b/", "//c"] {
        let std_parent = std::path::Path::new(path).parent().unwrap().to_str().unwrap();
        assert_eq!(build_context(path), std_parent);
    }
    assert_eq!(image_tag("redis"), "test-environment/services/redis");
    assert_eq!(lock_file_name("redis"), "redis.lock");
    assert_eq!(lock_dir_name(), ".service-locks");
}

#[test]
fn build_failure_is_reported() {
    let ok = CommandOutput { success: true, stdout: vec![], stderr: vec![] };
    assert!(build_outcome("img", &ok, "exit status: 0").is_ok());
    let bad = CommandOutput { success: false, stdout: vec![], stderr: b"no space".to_vec() };
    let e = build_outcome("img", &bad, "exit status: 1").err().unwrap();
    assert_eq!(
        e.message(),
        "failed to build docker 'img' image: status=exit status: 1 stderr=no space"
    );
}

#[test]
fn failures_have_messages() {
    let s = |t: &str| t.to_owned();
    assert_eq!(
        ServiceError::Unhealthy { service: s("db"), logs: s("[log]") }.message(),
        "docker container for 'db' service is unhealthy:\n[log]"
    );
    assert_eq!(
        ServiceError::RunFailed { image: s("img"), stderr: s("boom") }.message(),
        "failed to run docker image for image 'img': boom"
    );
    assert_eq!(
        ServiceError::HealthCheckFailed { service: s("db"), stderr: s("gone") }.message(),
        "docker health status check failed for service 'db': gone"
    );
    assert_eq!(
        ServiceError::PortsFailed { image: s("img"), stdout: s("o"), stderr: s("e") }.message(),
        "failed to fetch ports for docker container for image img:\no\ne"
    );
    assert_eq!(
        ServiceError::PortMapping { image: s("img"), line: s("x"), error: PortMappingError::NoProtocol }
            .chain(),
        vec![
            "failed to parse port mapping for container for image 'img' from string 'x'",
            "guest mapping does not contain '/'"
        ]
    );
    assert_eq!(ServiceError::ExitedEarly.chain(), vec!["python service process exited early"]);
    assert_eq!(
        ServiceError::MalformedPortPair.message(),
        "malformed service port pair - PORT values should be in the form PORT=(80,8080)"
    );
    assert_eq!(ServiceError::PortNotANumber.message(), "port number was not a number");
    assert_eq!(
        ServiceError::Io { context: s("service failed to spawn"), cause: s("not found") }.chain(),
        vec!["service failed to spawn", "not found"]
    );
    assert_eq!(
        PortError::Ambiguous { service: s("docker"), guest_port: 80 }.message(),
        "service 'docker' already exposes port 80 to the host"
    );
    assert_eq!(
        DefinitionError::Unsupported { extension: s("toml") }.message(),
        "unsupported service definition extension 'toml'"
    );
    assert_eq!(
        DefinitionError::NotFound { services: vec![s("a"), s("b")] }.message(),
        "no service definitions found for: a, b"
    );
    assert_eq!(
        EnvError::NotExposed { port: s("81") }.chain(),
        vec!["no port 81 exposed by any service"]
    );
    assert_eq!(EnvError::UnknownKey { key: s("k") }.chain(), vec!["unknown template key: k"]);
    assert_eq!(
        EnvError::Invalid { template: s("k") }.chain(),
        vec!["invalid template 'k'(template should be in the form $KEY=$VALUE)"]
    );
    assert_eq!(
        EnvError::CopyFailed { from: s("a.wasm"), cause: s("denied") }.chain(),
        vec!["failed to copy file 'a.wasm' to temporary directory", "denied"]
    );
    assert_eq!(
        EnvError::PortNotNumber { value: s("x") }.chain(),
        vec!["failed to parse 'x' as port"]
    );
    assert_eq!(
        EnvironmentError::Runtime(s("crashed")).chain(),
        vec!["testing environment is not healthy", "crashed"]
    );
    assert_eq!(
        EnvironmentError::Service(ServiceError::ExitedEarly).chain(),
        vec!["testing environment is not healthy", "python service process exited early"]
    );
    assert_eq!(
        TemplateError::Invalid::<String> { template: s("x") }.message(),
        "invalid template 'x'(template should be in the form $KEY=$VALUE)"
    );
    assert_eq!(TemplateError::Resolver(s("why")).message(), "why");
}
