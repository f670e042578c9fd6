//! The tests of the conformance suite and how one of them is run.

use vstd::prelude::*;
use crate::config::{describes, HttpInvocation, Invocation, Method, RunError, TestConfig};
use crate::assertions::{assert_response, response_checked, AssertionFailure};
use crate::services::{join_path, path_in};

verus! {

/// A test of the suite.
#[derive(Debug, Clone)]
pub struct Test {
    /// The name of the test: the name of its directory.
    pub name: String,
    pub config: TestConfig,
    /// The path of the manifest of the application under test.
    pub manifest: String,
    /// The path of the component under test.
    pub component: String,
}

/// The address from which the tests of the suite are downloaded.
pub fn tests_archive_url() -> (r: &'static str)
    ensures
        r@ == "https://github.com/fermyon/conformance-tests/releases/download/canary/tests.tar.gz"@,
{
    "https://github.com/fermyon/conformance-tests/releases/download/canary/tests.tar.gz"
}

/// The name of the file, in the directory of a test, that holds its
/// configuration.
pub fn config_file_name() -> (r: &'static str)
    ensures
        r@ == "test.json5"@,
{
    "test.json5"
}

impl Test {
    /// The test `name` with the configuration `config`, whose files are in
    /// the directory `dir`.
    pub fn in_directory(dir: &str, name: String, config: TestConfig) -> (t: Test)
        ensures
            t.name == name,
            t.config == config,
            t.manifest@ == path_in(dir@, "spin.toml"@),
            t.component@ == path_in(dir@, "component.wasm"@),
    {
        Test {
            name,
            config,
            manifest: join_path(dir, "spin.toml"),
            component: join_path(dir, "component.wasm"),
        }
    }

    /// Runs the invocations of the test in order, each request sent with
    /// `send`. The run succeeds where every invocation went through. The
    /// first invocation that fails ends the run: the result is its index and
    /// its failure, and the invocations before it went through.
    pub fn run<E, F>(&self, send: &F) -> (r: Result<(), (usize, RunError<E>)>) where
        F: for <'a>Fn(crate::http::Request<'a, String>) -> Result<crate::http::Response, E>,

        requires
            forall|sent: crate::http::Request<String>| call_requires(*send, (sent,)),
        ensures
            self.config.invocations@.len() == 0 ==> r is Ok,
            match r {
                Ok(()) => forall|k: int|
                    0 <= k < self.config.invocations@.len() ==> passed(
                        *send,
                        #[trigger] self.config.invocations@[k],
                    ),
                Err((i, e)) => i < self.config.invocations@.len() && failed(
                    *send,
                    self.config.invocations@[i as int],
                    e,
                ) && forall|k: int|
                    0 <= k < i ==> passed(*send, #[trigger] self.config.invocations@[k]),
            },
    {
        let mut i: usize = 0;
        while i < self.config.invocations.len()
            invariant
                i <= self.config.invocations.len(),
                forall|sent: crate::http::Request<String>| call_requires(*send, (sent,)),
                forall|k: int| 0 <= k < i ==> passed(*send, #[trigger] self.config.invocations@[k]),
            decreases self.config.invocations.len() - i,
        {
            match &self.config.invocations[i] {
                Invocation::Http(invocation) => {
                    match invocation.invoke(send) {
                        Ok(_) => {},
                        Err(e) => {
                            return Err((i, e));
                        },
                    }
                },
            }
            i += 1;
        }
        Ok(())
    }
}

/// The request and the expected response of the invocation `invocation`.
pub open spec fn http_of(invocation: Invocation) -> HttpInvocation {
    match invocation {
        Invocation::Http(http) => http,
    }
}

/// Whether the invocation `invocation` went through with `send`: for the
/// request that the invocation describes, `send` returned a response that is
/// the expected one.
pub open spec fn passed<E, F>(send: F, invocation: Invocation) -> bool where
    F: for <'a>Fn(crate::http::Request<'a, String>) -> Result<crate::http::Response, E>,
 {
    exists|sent: crate::http::Request<String>, response: crate::http::Response| #[trigger]
        describes(http_of(invocation).request, sent) && #[trigger] call_ensures(
            send,
            (sent,),
            Ok::<crate::http::Response, E>(response),
        ) && response_checked(http_of(invocation).response@, response@) is Ok
}

/// Whether the invocation `invocation` failed with `e` when it was run with
/// `send`: for the request that the invocation describes, `send` failed with
/// the cause that `e` holds, or returned a response whose comparison with the
/// expected one fails as `e` says.
pub open spec fn failed<E, F>(send: F, invocation: Invocation, e: RunError<E>) -> bool where
    F: for <'a>Fn(crate::http::Request<'a, String>) -> Result<crate::http::Response, E>,
 {
    match e {
        RunError::Send(cause) => exists|sent: crate::http::Request<String>| #[trigger]
            describes(http_of(invocation).request, sent) && call_ensures(
                send,
                (sent,),
                Err::<crate::http::Response, E>(cause),
            ),
        RunError::Assertion(failure) => exists|
            sent: crate::http::Request<String>,
            response: crate::http::Response,
        | #[trigger]
            describes(http_of(invocation).request, sent) && #[trigger] call_ensures(
                send,
                (sent,),
                Ok::<crate::http::Response, E>(response),
            ) && response_checked(http_of(invocation).response@, response@) == Err::<
                (),
                AssertionFailure,
            >(failure@),
    }
}

impl HttpInvocation {
    /// Runs the invocation with a `send` that is lent: sends the request and
    /// compares the response with the expected one.
    pub fn invoke<E, F>(&self, send: &F) -> (r: Result<crate::http::Response, RunError<E>>) where
        F: for <'a>Fn(crate::http::Request<'a, String>) -> Result<crate::http::Response, E>,

        requires
            forall|sent: crate::http::Request<String>| call_requires(*send, (sent,)),
        ensures
            match r {
                Ok(response) => response_checked(self.response@, response@) is Ok && exists|
                    sent: crate::http::Request<String>,
                | #[trigger]
                    describes(self.request, sent) && call_ensures(
                        *send,
                        (sent,),
                        Ok::<crate::http::Response, E>(response),
                    ),
                Err(RunError::Send(e)) => exists|sent: crate::http::Request<String>| #[trigger]
                    describes(self.request, sent) && call_ensures(
                        *send,
                        (sent,),
                        Err::<crate::http::Response, E>(e),
                    ),
                Err(RunError::Assertion(e)) => exists|
                    sent: crate::http::Request<String>,
                    response: crate::http::Response,
                | #[trigger]
                    describes(self.request, sent) && #[trigger] call_ensures(
                        *send,
                        (sent,),
                        Ok::<crate::http::Response, E>(response),
                    ) && response_checked(self.response@, response@) == Err::<(), AssertionFailure>(
                        e@,
                    ),
            },
    {
        let mut headers: Vec<(&str, &str)> = Vec::new();
        let mut i: usize = 0;
        while i < self.request.headers.len()
            invariant
                i <= self.request.headers.len(),
                headers@.len() == i,
                forall|k: int|
                    0 <= k < i ==> (#[trigger] headers@[k]).0@ == self.request.headers@[k].name@
                        && headers@[k].1@ == self.request.headers@[k].value@,
            decreases self.request.headers.len() - i,
        {
            headers.push(
                (self.request.headers[i].name.as_str(), self.request.headers[i].value.as_str()),
            );
            i += 1;
        }
        let method = match self.request.method {
            Method::GET => crate::http::Method::Get,
            Method::POST => crate::http::Method::Post,
        };
        let request = crate::http::Request::full(
            method,
            self.request.path.as_str(),
            headers.as_slice(),
            self.request.body.clone(),
        );
        assert(describes(self.request, request));
        let response = match send(request) {
            Ok(response) => response,
            Err(e) => {
                return Err(RunError::Send(e));
            },
        };
        match assert_response(&self.response, &response) {
            Ok(()) => Ok(response),
            Err(e) => Err(RunError::Assertion(e)),
        }
    }
}

} // verus!
