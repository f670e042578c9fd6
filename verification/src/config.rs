//! The configuration of a conformance test: what it needs, the requests it
//! sends and the responses it expects.

use vstd::prelude::*;
use crate::manifest_template::{
    answers, placeholders, replace_template_with, result_view, substituted_all, trimming, Answer,
    TemplateError, SUBSTITUTION_LIMIT,
};
use crate::assertions::{assert_response, response_checked, AssertionError, AssertionFailure};
use crate::services::Service;
use crate::text::views;
use crate::test_environment::{env_outcome, port_model, EnvError, TestEnvironment};

verus! {

/// The configuration of a conformance test.
#[derive(Debug, Clone)]
pub struct TestConfig {
    pub invocations: Vec<Invocation>,
    pub preconditions: Vec<Precondition>,
}

/// One call of the runtime under test.
#[derive(Debug, Clone)]
pub enum Invocation {
    Http(HttpInvocation),
}

/// A request and the response that is expected to it.
#[derive(Debug, Clone)]
pub struct HttpInvocation {
    pub request: Request,
    pub response: Response,
}

/// The request of an invocation.
#[derive(Debug, Clone)]
pub struct Request {
    pub method: Method,
    pub path: String,
    pub headers: Vec<RequestHeader>,
    pub body: Option<String>,
}

/// The response that an invocation expects.
#[derive(Debug, Clone)]
pub struct Response {
    pub status: u16,
    pub headers: Vec<ResponseHeader>,
    pub body: Option<String>,
}

/// A header of a request.
#[derive(Debug, Clone)]
pub struct RequestHeader {
    pub name: String,
    pub value: String,
}

/// A header that a response is expected to have. Without a value any value
/// is accepted; an optional header may be absent.
#[derive(Debug, Clone)]
pub struct ResponseHeader {
    pub name: String,
    pub value: Option<String>,
    pub optional: bool,
}

/// The method of the request of an invocation.
#[derive(Debug, Clone, Copy)]
pub enum Method {
    GET,
    POST,
}

/// What must hold before a test can run.
#[derive(Debug, Clone)]
pub enum Precondition {
    /// A key-value store with the given label exists.
    KeyValueStore(KeyValueStorePrecondition),
    /// Outgoing HTTP requests to port 80 are echoed back.
    HttpEcho,
    /// Outgoing TCP connections to port 5000 are echoed back.
    TcpEcho,
    /// A SQLite database is available.
    Sqlite,
    /// A Redis server is available.
    Redis,
    /// An MQTT broker is available.
    Mqtt,
    /// A PostgreSQL server is available.
    Postgres,
}

/// The key-value store that a test needs.
#[derive(Debug, Clone)]
pub struct KeyValueStorePrecondition {
    pub label: String,
}

/// An expected header, its texts as sequences of characters.
pub struct HeaderExpectation {
    pub name: Seq<char>,
    pub value: Option<Seq<char>>,
    pub optional: bool,
}

/// An expected response, its texts as sequences of characters.
pub struct ResponseExpectation {
    pub status: u16,
    pub headers: Seq<HeaderExpectation>,
    pub body: Option<Seq<char>>,
}

impl View for ResponseHeader {
    type V = HeaderExpectation;

    open spec fn view(&self) -> HeaderExpectation {
        HeaderExpectation {
            name: self.name@,
            value: match self.value {
                Some(v) => Some(v@),
                None => None,
            },
            optional: self.optional,
        }
    }
}

impl View for Response {
    type V = ResponseExpectation;

    open spec fn view(&self) -> ResponseExpectation {
        ResponseExpectation {
            status: self.status,
            headers: Seq::new(self.headers@.len(), |i: int| self.headers@[i]@),
            body: match self.body {
                Some(b) => Some(b@),
                None => None,
            },
        }
    }
}

/// The status that a response is expected to have where the configuration
/// names none.
pub fn default_response_status() -> (s: u16)
    ensures
        s == 200,
{
    200
}


/// The values of the headers `headers`, in order.
pub open spec fn header_values(headers: Seq<RequestHeader>) -> Seq<Seq<char>> {
    Seq::new(headers.len(), |i: int| headers[i].value@)
}

/// The names of the headers `headers`, in order.
pub open spec fn header_names(headers: Seq<RequestHeader>) -> Seq<Seq<char>> {
    Seq::new(headers.len(), |i: int| headers[i].name@)
}

/// Whether none of the texts `values` has a placeholder.
pub open spec fn without_placeholders(values: Seq<Seq<char>>) -> bool {
    forall|k: int| 0 <= k < values.len() ==> placeholders(#[trigger] values[k]).len() == 0
}

impl Request {
    /// Replaces the placeholders in the values of the headers, header by
    /// header, with what `replacement` gives. The first failure ends the
    /// whole; the headers behind it stay untouched.
    pub fn substitute<E, F: Fn(&str, &str) -> Result<Option<String>, E>>(
        &mut self,
        replacement: F,
    ) -> (r: Result<(), TemplateError<E>>)
        requires
            forall|k: &str, v: &str| call_requires(replacement, (k, v)),
        ensures
            final(self).method == old(self).method,
            final(self).path == old(self).path,
            final(self).body == old(self).body,
            header_names(final(self).headers@) == header_names(old(self).headers@),
            without_placeholders(header_values(old(self).headers@)) ==> r is Ok && header_values(
                final(self).headers@,
            ) == header_values(old(self).headers@),
            forall|model: spec_fn(Seq<char>, Seq<char>) -> Answer<E>| #[trigger]
                answers(replacement, model) ==> (header_values(final(self).headers@), result_view(r))
                    == substituted_all(
                    header_values(old(self).headers@),
                    0,
                    trimming(model),
                    SUBSTITUTION_LIMIT as nat,
                ),
    {
        let mut i: usize = 0;
        while i < self.headers.len()
            invariant
                i <= self.headers.len(),
                self.method == old(self).method,
                self.path == old(self).path,
                self.body == old(self).body,
                self.headers@.len() == old(self).headers@.len(),
                header_names(self.headers@) == header_names(old(self).headers@),
                without_placeholders(header_values(old(self).headers@)) ==> header_values(
                    self.headers@,
                ) == header_values(old(self).headers@),
                forall|k: &str, v: &str| call_requires(replacement, (k, v)),
                forall|model: spec_fn(Seq<char>, Seq<char>) -> Answer<E>| #[trigger]
                    answers(replacement, model) ==> substituted_all(
                        header_values(old(self).headers@),
                        0,
                        trimming(model),
                        SUBSTITUTION_LIMIT as nat,
                    ) == substituted_all(
                        header_values(self.headers@),
                        i as int,
                        trimming(model),
                        SUBSTITUTION_LIMIT as nat,
                    ),
            decreases self.headers.len() - i,
        {
            let ghost before = self.headers@;
            let mut value = self.headers[i].value.clone();
            assert(value@ == header_values(before)[i as int]);
            let outcome = replace_template_with(&mut value, &replacement);
            let name = self.headers[i].name.clone();
            self.headers.set(i, RequestHeader { name, value });
            assert(header_names(self.headers@) =~= header_names(before));
            assert(header_values(self.headers@) =~= header_values(before).update(i as int, value@));
            proof {
                if without_placeholders(header_values(old(self).headers@)) {
                    assert(placeholders(header_values(old(self).headers@)[i as int]).len() == 0);
                    assert(header_values(self.headers@) =~= header_values(old(self).headers@));
                }
            }
            match outcome {
                Ok(()) => {},
                Err(e) => {
                    return Err(e);
                },
            }
            i += 1;
        }
        Ok(())
    }
}

impl Request {
    /// Replaces the placeholders in the values of the headers, header by
    /// header, by what the environment `env` knows: a placeholder with the
    /// key `port` by the port of the host that a service exposes for the port
    /// of the guest which its value names. Any other key fails. The first
    /// failure ends the whole; the headers behind it stay untouched.
    pub fn substitute_from_env<R, S: Service>(&mut self, env: &mut TestEnvironment<R, S>) -> (r:
        Result<(), EnvError>)
        ensures
            final(self).method == old(self).method,
            final(self).path == old(self).path,
            final(self).body == old(self).body,
            header_names(final(self).headers@) == header_names(old(self).headers@),
            final(env).dir() == old(env).dir(),
            final(env).has_runtime() == old(env).has_runtime(),
            final(env).variables() == old(env).variables(),
            final(env).services() == old(env).services(),
            (header_values(final(self).headers@), env_outcome(r)) == substituted_all(
                header_values(old(self).headers@),
                0,
                port_model(old(env).services()),
                SUBSTITUTION_LIMIT as nat,
            ),
    {
        let ghost model = port_model(env.services());
        let mut i: usize = 0;
        while i < self.headers.len()
            invariant
                i <= self.headers.len(),
                self.method == old(self).method,
                self.path == old(self).path,
                self.body == old(self).body,
                self.headers@.len() == old(self).headers@.len(),
                header_names(self.headers@) == header_names(old(self).headers@),
                env.dir() == old(env).dir(),
                env.has_runtime() == old(env).has_runtime(),
                env.variables() == old(env).variables(),
                env.services() == old(env).services(),
                model == port_model(old(env).services()),
                substituted_all(
                    header_values(old(self).headers@),
                    0,
                    model,
                    SUBSTITUTION_LIMIT as nat,
                ) == substituted_all(
                    header_values(self.headers@),
                    i as int,
                    model,
                    SUBSTITUTION_LIMIT as nat,
                ),
            decreases self.headers.len() - i,
        {
            let ghost before = self.headers@;
            let mut value = self.headers[i].value.clone();
            assert(value@ == header_values(before)[i as int]);
            let outcome = env.substitute_ports(&mut value);
            let name = self.headers[i].name.clone();
            self.headers.set(i, RequestHeader { name, value });
            assert(header_names(self.headers@) =~= header_names(before));
            assert(header_values(self.headers@) =~= header_values(before).update(i as int, value@));
            match outcome {
                Ok(()) => {},
                Err(e) => {
                    return Err(e);
                },
            }
            i += 1;
        }
        Ok(())
    }
}

/// The method of a request to the runtime that the method `method` of an
/// invocation stands for.
pub open spec fn method_of(method: Method) -> crate::http::Method {
    match method {
        Method::GET => crate::http::Method::Get,
        Method::POST => crate::http::Method::Post,
    }
}

/// Whether `sent` is the request that `request` describes: the same method,
/// path, body, and the headers in order.
pub open spec fn describes(request: Request, sent: crate::http::Request<String>) -> bool {
    &&& sent.method == method_of(request.method)
    &&& sent.path@ == request.path@
    &&& sent.body == request.body
    &&& sent.headers@.len() == request.headers@.len()
    &&& forall|i: int|
        0 <= i < sent.headers@.len() ==> (#[trigger] sent.headers@[i]).0@ == request.headers@[i].name@
            && sent.headers@[i].1@ == request.headers@[i].value@
}

impl Request {
    /// Sends the request: hands it to `send` as a request to the runtime and
    /// returns what `send` returns.
    pub fn send<E, F>(self, send: F) -> (r: Result<crate::http::Response, E>) where
        F: for <'a>FnOnce(crate::http::Request<'a, String>) -> Result<crate::http::Response, E>,

        requires
            forall|sent: crate::http::Request<String>| call_requires(send, (sent,)),
        ensures
            exists|sent: crate::http::Request<String>| #[trigger]
                describes(self, sent) && call_ensures(send, (sent,), r),
    {
        let mut headers: Vec<(&str, &str)> = Vec::new();
        let mut i: usize = 0;
        while i < self.headers.len()
            invariant
                i <= self.headers.len(),
                headers@.len() == i,
                forall|k: int|
                    0 <= k < i ==> (#[trigger] headers@[k]).0@ == self.headers@[k].name@
                        && headers@[k].1@ == self.headers@[k].value@,
            decreases self.headers.len() - i,
        {
            headers.push((self.headers[i].name.as_str(), self.headers[i].value.as_str()));
            i += 1;
        }
        let method = match self.method {
            Method::GET => crate::http::Method::Get,
            Method::POST => crate::http::Method::Post,
        };
        let request = crate::http::Request::full(
            method,
            self.path.as_str(),
            headers.as_slice(),
            self.body.clone(),
        );
        assert(describes(self, request));
        send(request)
    }
}

/// Why an invocation failed.
#[derive(Debug)]
pub enum RunError<E> {
    /// The request could not be sent to the runtime.
    Send(E),
    /// The response is not the expected one.
    Assertion(AssertionError),
}

impl HttpInvocation {
    /// Compares `response` with the response that the invocation expects,
    /// and hands it back where it is the expected one.
    pub fn check(&self, response: crate::http::Response) -> (r: Result<
        crate::http::Response,
        AssertionError,
    >)
        ensures
            match r {
                Ok(same) => same == response && response_checked(self.response@, response@) is Ok,
                Err(e) => response_checked(self.response@, response@) == Err::<(), AssertionFailure>(
                    e@,
                ),
            },
    {
        match assert_response(&self.response, &response) {
            Ok(()) => Ok(response),
            Err(e) => Err(e),
        }
    }

    /// Runs the invocation: sends the request with `send` and compares the
    /// response with the expected one.
    pub fn run<E, F>(self, send: F) -> (r: Result<crate::http::Response, RunError<E>>) where
        F: for <'a>FnOnce(crate::http::Request<'a, String>) -> Result<crate::http::Response, E>,

        requires
            forall|sent: crate::http::Request<String>| call_requires(send, (sent,)),
        ensures
            match r {
                Ok(response) => response_checked(self.response@, response@) is Ok && exists|
                    sent: crate::http::Request<String>,
                | #[trigger]
                    describes(self.request, sent) && call_ensures(
                        send,
                        (sent,),
                        Ok::<crate::http::Response, E>(response),
                    ),
                Err(RunError::Send(e)) => exists|sent: crate::http::Request<String>| #[trigger]
                    describes(self.request, sent) && call_ensures(
                        send,
                        (sent,),
                        Err::<crate::http::Response, E>(e),
                    ),
                Err(RunError::Assertion(e)) => exists|
                    sent: crate::http::Request<String>,
                    response: crate::http::Response,
                | #[trigger]
                    describes(self.request, sent) && #[trigger] call_ensures(
                        send,
                        (sent,),
                        Ok::<crate::http::Response, E>(response),
                    ) && response_checked(self.response@, response@) == Err::<(), AssertionFailure>(
                        e@,
                    ),
            },
    {
        let response = match self.request.send(send) {
            Ok(response) => response,
            Err(e) => {
                return Err(RunError::Send(e));
            },
        };
        match assert_response(&self.response, &response) {
            Ok(()) => Ok(response),
            Err(e) => Err(RunError::Assertion(e)),
        }
    }
}

/// The name of the service that the precondition `precondition` needs to
/// run, if it needs one.
pub open spec fn service_for(precondition: Precondition) -> Option<Seq<char>> {
    match precondition {
        Precondition::HttpEcho => Some("http-echo"@),
        Precondition::TcpEcho => Some("tcp-echo"@),
        Precondition::Redis => Some("redis"@),
        Precondition::Mqtt => Some("mqtt"@),
        Precondition::Postgres => Some("postgres"@),
        Precondition::KeyValueStore(_) => None,
        Precondition::Sqlite => None,
    }
}

/// The names of the services that the preconditions `preconditions` need,
/// in the order of the preconditions.
pub open spec fn services_for(preconditions: Seq<Precondition>) -> Seq<Seq<char>>
    decreases preconditions.len(),
{
    if preconditions.len() == 0 {
        Seq::empty()
    } else {
        match service_for(preconditions.last()) {
            Some(name) => services_for(preconditions.drop_last()).push(name),
            None => services_for(preconditions.drop_last()),
        }
    }
}

impl Precondition {
    /// The name of the service that the precondition needs to run, if it
    /// needs one. A key-value store and a SQLite database are the runtime's
    /// own and need no service.
    pub fn required_service(&self) -> (r: Option<&'static str>)
        ensures
            match r {
                Some(name) => service_for(*self) == Some(name@),
                None => service_for(*self) is None,
            },
    {
        match self {
            Precondition::HttpEcho => Some("http-echo"),
            Precondition::TcpEcho => Some("tcp-echo"),
            Precondition::Redis => Some("redis"),
            Precondition::Mqtt => Some("mqtt"),
            Precondition::Postgres => Some("postgres"),
            Precondition::KeyValueStore(_) => None,
            Precondition::Sqlite => None,
        }
    }
}

impl TestConfig {
    /// The names of the services that the test needs.
    pub fn required_services(&self) -> (r: Vec<String>)
        ensures
            views(r@) == services_for(self.preconditions@),
            self.preconditions@.len() == 0 ==> r@.len() == 0,
    {
        let mut r: Vec<String> = Vec::new();
        let mut i: usize = 0;
        assert(self.preconditions@.take(0) =~= Seq::empty());
        assert(views(r@) =~= Seq::empty());
        while i < self.preconditions.len()
            invariant
                i <= self.preconditions.len(),
                views(r@) == services_for(self.preconditions@.take(i as int)),
            decreases self.preconditions.len() - i,
        {
            assert(self.preconditions@.take(i + 1).drop_last() =~= self.preconditions@.take(
                i as int,
            ));
            let ghost before = views(r@);
            match self.preconditions[i].required_service() {
                Some(name) => {
                    r.push(String::from_str(name));
                    assert(views(r@) =~= before.push(name@));
                },
                None => {},
            }
            i += 1;
        }
        assert(self.preconditions@.take(i as int) =~= self.preconditions@);
        r
    }
}

/// A test with no preconditions needs no services, and no services expose
/// no port: whatever port of the guest is asked for, none is found.
pub proof fn lemma_no_preconditions_no_services(preconditions: Seq<Precondition>, guest_port: u16)
    requires
        preconditions.len() == 0,
    ensures
        services_for(preconditions).len() == 0,
        crate::services::resolved(Seq::empty(), guest_port) == Ok::<
            Option<u16>,
            crate::services::PortFailure,
        >(None),
{
}


impl RunError<String> {
    /// The messages of the failure and of its cause: what failed, the
    /// sending or the comparison, and why.
    pub fn chain(&self) -> (r: Vec<String>)
        ensures
            views(r@) == (match *self {
                RunError::Send(e) => seq!["failed to send the request to the runtime"@, e@],
                RunError::Assertion(e) => seq![
                    "assertion failed"@,
                    crate::assertions::failure_message(e@),
                ],
            }),
    {
        let mut r: Vec<String> = Vec::new();
        match self {
            RunError::Send(e) => {
                r.push(String::from_str("failed to send the request to the runtime"));
                r.push(e.clone());
                assert(views(r@) =~= seq!["failed to send the request to the runtime"@, e@]);
            },
            RunError::Assertion(e) => {
                r.push(String::from_str("assertion failed"));
                r.push(e.message());
                assert(views(r@) =~= seq![
                    "assertion failed"@,
                    crate::assertions::failure_message(e@),
                ]);
            },
        }
        r
    }
}

} // verus!
