use conformance_harness::assertions::AssertionError;
use conformance_harness::config::{
    default_response_status, HttpInvocation, KeyValueStorePrecondition, Method, Precondition,
    Request, RequestHeader, Response, ResponseHeader, RunError, TestConfig,
};
use conformance_harness::http;
use conformance_harness::manifest_template::{EnvTemplate, TemplateError};
use conformance_harness::services::python::PythonService;
use conformance_harness::services::{
    file_name, ServiceDefinition, ServiceKind, Services, ServicesConfig,
};
use conformance_harness::test_environment::{
    env_request, port_replacement, runtime_verdict, EnvError, EnvRequest, EnvironmentError,
    Runtime, TestEnvironment,
};

fn request(headers: &[(&str, &str)]) -> Request {
    Request {
        method: Method::POST,
        path: "/echo".to_owned(),
        headers: headers
            .iter()
            .map(|(n, v)| RequestHeader { name: n.to_string(), value: v.to_string() })
            .collect(),
        body: Some("ping".to_owned()),
    }
}

fn environment(outputs: &[&'static str]) -> TestEnvironment<(), PythonService> {
    let mut config = ServicesConfig::none();
    for (i, _) in outputs.iter().enumerate() {
        config.add_service(ServiceDefinition {
            name: i.to_string(),
            kind: ServiceKind::Python { script: "s.py".to_owned() },
        });
    }
    let outputs: Vec<&'static str> = outputs.to_vec();
    let services = Services::start(&config, |d: &ServiceDefinition| {
        let i: usize = d.name.parse().unwrap();
        let mut s = PythonService::started(d.name.clone());
        s.observe(outputs[i].to_owned(), false);
        Ok(s)
    })
    .ok()
    .unwrap();
    TestEnvironment::boot("/tmp/sandbox".to_owned(), services).ok().unwrap()
}

#[test]
fn default_status_is_200() {
    assert_eq!(default_response_status(), 200);
}

#[test]
fn request_is_handed_to_send() {
    let r = request(&[("a", "1"), ("b", "2")]).send(|sent: http::Request<String>| {
        assert!(matches!(sent.method, http::Method::Post));
        assert_eq!(sent.path, "/echo");
        assert_eq!(sent.headers, &[("a", "1"), ("b", "2")]);
        assert_eq!(sent.body.as_deref(), Some("ping"));
        Ok::<http::Response, String>(http::Response::new(204))
    });
    assert_eq!(r.ok().unwrap().status(), 204);
    let mut get = request(&[]);
    get.method = Method::GET;
    let r = get.send(|sent: http::Request<String>| {
        assert!(matches!(sent.method, http::Method::Get));
        Err::<http::Response, String>("refused".to_owned())
    });
    assert_eq!(r.err().unwrap(), "refused");
}

#[test]
fn invocation_compares_the_response() {
    let invocation = |status: u16| HttpInvocation {
        request: request(&[]),
        response: Response { status, headers: vec![], body: Some("pong".to_owned()) },
    };
    let send = |_sent: http::Request<String>| -> Result<http::Response, String> {
        Ok(http::Response::new_with_body(200, "pong"))
    };
    assert_eq!(invocation(200).run(send).ok().unwrap().status(), 200);
    match invocation(201).run(send) {
        Err(RunError::Assertion(AssertionError::Status { actual, expected, .. })) => {
            assert_eq!((actual, expected), (200, 201))
        }
        _ => panic!("expected a status failure"),
    }
    let refused =
        |_sent: http::Request<String>| -> Result<http::Response, String> { Err("down".to_owned()) };
    match invocation(200).run(refused) {
        Err(RunError::Send(e)) => assert_eq!(e, "down"),
        _ => panic!("expected a failure to send"),
    }
    assert!(invocation(200).check(http::Response::new_with_body(200, "pong")).is_ok());
    assert!(invocation(200).check(http::Response::new_with_body(200, "pang")).is_err());
}

#[test]
fn header_values_are_substituted() {
    let mut r = request(&[("host", "localhost:%{port=80}"), ("x", "plain"), ("y", "%{port=81}")]);
    let out = r.substitute(|k: &str, v: &str| -> Result<Option<String>, String> {
        if k == "port" && v == "80" {
            Ok(Some("8080".to_owned()))
        } else {
            Err(format!("no port {v}"))
        }
    });
    match out {
        Err(TemplateError::Resolver(m)) => assert_eq!(m, "no port 81"),
        _ => panic!("expected the resolver's failure"),
    }
    assert_eq!(r.headers[0].value, "localhost:8080");
    assert_eq!(r.headers[1].value, "plain");
    assert_eq!(r.headers[2].value, "%{port=81}");
    assert_eq!(r.headers[0].name, "host");
    assert_eq!(r.path, "/echo");
}

#[test]
fn header_values_are_substituted_from_the_environment() {
    let mut env = environment(&["READY\nPORT=(80,8080)\n"]);
    let mut r = request(&[("host", "localhost:%{ port = 80 }"), ("x", "plain")]);
    assert!(r.substitute_from_env(&mut env).is_ok());
    assert_eq!(r.headers[0].value, "localhost:8080");
    assert_eq!(r.headers[1].value, "plain");
    let mut r = request(&[("host", "%{port=81}")]);
    match r.substitute_from_env(&mut env) {
        Err(EnvError::NotExposed { port }) => assert_eq!(port, "81"),
        _ => panic!("expected a port that is not exposed"),
    }
    let mut r = request(&[("host", "%{unknown=x}")]);
    match r.substitute_from_env(&mut env) {
        Err(EnvError::UnknownKey { key }) => assert_eq!(key, "unknown"),
        _ => panic!("expected an unknown key"),
    }
    let mut r = request(&[("host", "%{port=http}")]);
    match r.substitute_from_env(&mut env) {
        Err(EnvError::PortNotNumber { value }) => assert_eq!(value, "http"),
        _ => panic!("expected a value that is no port"),
    }
    let mut r = request(&[("host", "%{port}")]);
    assert!(matches!(r.substitute_from_env(&mut env), Err(EnvError::Invalid { .. })));
}

#[test]
fn test_without_preconditions_needs_no_services() {
    let config = TestConfig { invocations: vec![], preconditions: vec![] };
    assert!(config.required_services().is_empty());
    let mut env = environment(&[]);
    assert!(matches!(env.get_port(80), Ok(None)));
    let mut r = request(&[("x", "no placeholders")]);
    assert!(r.substitute_from_env(&mut env).is_ok());
    assert_eq!(r.headers[0].value, "no placeholders");
}

#[test]
fn preconditions_name_their_services() {
    let config = TestConfig {
        invocations: vec![],
        preconditions: vec![
            Precondition::KeyValueStore(KeyValueStorePrecondition { label: "default".to_owned() }),
            Precondition::HttpEcho,
            Precondition::Sqlite,
            Precondition::TcpEcho,
            Precondition::Redis,
            Precondition::Mqtt,
            Precondition::Postgres,
        ],
    };
    assert_eq!(
        config.required_services(),
        vec!["http-echo", "tcp-echo", "redis", "mqtt", "postgres"]
    );
    assert_eq!(Precondition::Sqlite.required_service(), None);
    assert_eq!(Precondition::HttpEcho.required_service(), Some("http-echo"));
}

#[test]
fn manifest_is_substituted_from_the_environment() {
    let mut env = environment(&["READY\nPORT=(6379,32770)\n"]);
    let mut template = EnvTemplate::new(
        "source = \"%{source=app}\"\nredis = \"redis://localhost:%{port=6379}\"\n".to_owned(),
    )
    .unwrap();
    let copied = std::cell::RefCell::new(Vec::new());
    let r = template.substitute(
        &mut env,
        |name: &str| if name == "app" { Some("target/release/app.wasm".to_owned()) } else { None },
        |from: &str, into: &str| {
            copied.borrow_mut().push((from.to_owned(), into.to_owned()));
            Ok(())
        },
    );
    assert!(r.is_ok());
    assert_eq!(
        template.contents(),
        "source = \"app.wasm\"\nredis = \"redis://localhost:32770\"\n"
    );
    assert_eq!(
        copied.into_inner(),
        vec![("target/release/app.wasm".to_owned(), "app.wasm".to_owned())]
    );
}

#[test]
fn manifest_substitution_fails_on_what_it_does_not_know() {
    let none = |_: &str| -> Option<String> { None };
    let some = |_: &str| -> Option<String> { Some("bin/x.wasm".to_owned()) };
    let ok = |_: &str, _: &str| -> Result<(), String> { Ok(()) };
    let fail = |_: &str, _: &str| -> Result<(), String> { Err("disk full".to_owned()) };
    let mut env = environment(&["READY\nPORT=(80,1)\n", "READY\nPORT=(80,2)\n"]);
    let run = |text: &str, env: &mut TestEnvironment<(), PythonService>| {
        let mut t = EnvTemplate::new(text.to_owned()).unwrap();
        t.substitute(env, none, ok)
    };
    assert!(matches!(run("%{source=app}", &mut env), Err(EnvError::NoSuchComponent { .. })));
    assert!(matches!(run("%{port= 8 0}", &mut env), Err(EnvError::PortNotNumber { .. })));
    assert!(matches!(run("%{ port = 80 }", &mut env), Err(EnvError::Port(_))));
    assert!(matches!(run("%{port=80}", &mut env), Err(EnvError::Port(_))));
    assert!(matches!(run("%{port=81}", &mut env), Err(EnvError::NotExposed { .. })));
    assert!(matches!(run("%{other=1}", &mut env), Err(EnvError::UnknownKey { .. })));
    assert!(matches!(run("%{other}", &mut env), Err(EnvError::Invalid { .. })));
    assert!(run("nothing", &mut env).is_ok());
    let mut t = EnvTemplate::new("%{ source =app}".to_owned()).unwrap();
    match t.substitute(&mut env, some, fail) {
        Err(EnvError::CopyFailed { from, cause }) => {
            assert_eq!(from, "bin/x.wasm");
            assert_eq!(cause, "disk full");
        }
        _ => panic!("expected a failed copy"),
    }
}

#[test]
fn port_helpers() {
    assert_eq!(port_replacement("80", Ok(Some(8080))).ok().unwrap(), "8080");
    assert!(matches!(port_replacement("80", Ok(None)), Err(EnvError::NotExposed { .. })));
    assert_eq!(file_name("a/b/c.wasm"), "c.wasm");
    assert_eq!(file_name("c.wasm"), "c.wasm");
    assert_eq!(file_name("a/b/"), "b");
    assert_eq!(file_name("/"), "");
    assert_eq!(file_name(""), "");
    for path in ["a/b/c.wasm", "c.wasm", "a/b/", "/c", "a//b", "/a/b//"] {
        let std_name = std::path::Path::new(path).file_name().unwrap().to_str().unwrap();
        assert_eq!(file_name(path), std_name);
    }
}

struct Stub {
    failure: Option<String>,
}

impl Runtime for Stub {
    fn error(&mut self) -> Result<(), String> {
        match &self.failure {
            Some(m) => Err(m.clone()),
            None => Ok(()),
        }
    }
}

#[test]
fn runtime_is_attached_to_a_healthy_environment() {
    let mut env = environment(&["READY\n"]);
    assert_eq!(env.path(), "/tmp/sandbox");
    assert!(env.env_vars().is_empty());
    env.set_env_var("A".to_owned(), "1".to_owned());
    env.set_env_var("B".to_owned(), "2".to_owned());
    env.set_env_var("A".to_owned(), "3".to_owned());
    assert_eq!(
        env.env_vars(),
        &vec![("A".to_owned(), "3".to_owned()), ("B".to_owned(), "2".to_owned())]
    );
    let mut env = env.start_runtime(Stub { failure: None }).ok().unwrap();
    assert!(env.error().is_ok());
    assert_eq!(env.env_vars().len(), 2);
    let env = environment(&[]);
    match env.start_runtime(Stub { failure: Some("crashed".to_owned()) }) {
        Err(EnvironmentError::Runtime(m)) => assert_eq!(m, "crashed"),
        _ => panic!("expected the runtime's failure"),
    }
}

#[test]
fn unused_response_header_type() {
    let h = ResponseHeader { name: "a".to_owned(), value: None, optional: false };
    assert!(!h.optional);
}

#[test]
fn placeholders_ask_the_environment() {
    use_env_request();
}

fn use_env_request() {
    match env_request(" port = 80 ", false) {
        Ok(EnvRequest::Port { guest, value }) => {
            assert_eq!(guest, 80);
            assert_eq!(value, "80");
        }
        _ => panic!("expected a port"),
    }
    assert!(matches!(env_request("port=8 0", true), Err(EnvError::PortNotNumber { .. })));
    match env_request(" source = app ", true) {
        Ok(EnvRequest::Source { name }) => assert_eq!(name, "app"),
        _ => panic!("expected a component"),
    }
    match env_request("source=app", false) {
        Err(EnvError::UnknownKey { key }) => assert_eq!(key, "source"),
        _ => panic!("expected an unknown key"),
    }
    match env_request(" other =x", true) {
        Err(EnvError::UnknownKey { key }) => assert_eq!(key, "other"),
        _ => panic!("expected an unknown key"),
    }
    match env_request("nothing", true) {
        Err(EnvError::Invalid { template }) => assert_eq!(template, "nothing"),
        _ => panic!("expected an invalid template"),
    }
}

#[test]
fn manifest_placeholders_are_trimmed() {
    let mut env = environment(&["READY\nPORT=(80,8080)\n"]);
    let mut t = EnvTemplate::new("%{ port = 80 }".to_owned()).unwrap();
    let r = t.substitute(
        &mut env,
        |_: &str| -> Option<String> { panic!("no component is asked for") },
        |_: &str, _: &str| -> Result<(), String> { panic!("nothing is copied") },
    );
    assert!(r.is_ok());
    assert_eq!(t.contents(), "8080");
    let mut t = EnvTemplate::new("%{ source = app }".to_owned()).unwrap();
    let r = t.substitute(
        &mut env,
        |name: &str| if name == "app" { Some("out/app.wasm".to_owned()) } else { None },
        |_: &str, _: &str| -> Result<(), String> { Ok(()) },
    );
    assert!(r.is_ok());
    assert_eq!(t.contents(), "app.wasm");
}

#[test]
fn unknown_key_in_a_manifest_fails_before_anything_is_asked() {
    let mut env = environment(&[]);
    let mut t = EnvTemplate::new("%{unknown=x}".to_owned()).unwrap();
    let r = t.substitute(
        &mut env,
        |_: &str| -> Option<String> { panic!("no component is asked for") },
        |_: &str, _: &str| -> Result<(), String> { panic!("nothing is copied") },
    );
    match r {
        Err(EnvError::UnknownKey { key }) => assert_eq!(key, "unknown"),
        _ => panic!("expected an unknown key"),
    }
    assert_eq!(t.contents(), "%{unknown=x}");
}

#[test]
fn runtime_report_is_the_failure_of_the_environment() {
    assert!(runtime_verdict(Ok(())).is_ok());
    match runtime_verdict(Err("crashed".to_owned())) {
        Err(EnvironmentError::Runtime(m)) => assert_eq!(m, "crashed"),
        _ => panic!("expected the runtime's failure"),
    }
}
