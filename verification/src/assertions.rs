//! The comparison of a response with the response that was expected.

use vstd::prelude::*;
use crate::config::{HeaderExpectation, Response as ExpectedResponse, ResponseExpectation, ResponseHeader};
use crate::http::{
    find_header, header_views, position, set_header, with_header, Headers,
    Response as ActualResponse, ResponseView,
};
use crate::report::{indent_lines, indented};
use crate::text::{
    debug_quote, debug_quoted, decimal, decimal_string, lines_of, lowercase, push_char, str_eq,
    to_lowercase,
};

verus! {

/// Why a response is not the one that was expected.
#[derive(Debug, Clone)]
#[allow(inconsistent_fields)]
pub enum AssertionError {
    /// The status differs; `body` is the body of the response as text.
    Status { actual: u16, expected: u16, body: String },
    /// The body differs.
    Body { actual: String, expected: String },
    /// An expected header that is not optional is absent.
    HeaderNotFound { name: String },
    /// A header has another value than the expected one, both in lowercase.
    HeaderValue { name: String, actual: String, expected: String },
    /// Headers that were not expected, in lowercase.
    UnexpectedHeaders { headers: Vec<(String, String)> },
}

/// An `AssertionError`, its texts as sequences of characters.
#[allow(inconsistent_fields)]
pub enum AssertionFailure {
    Status { actual: u16, expected: u16, body: Seq<char> },
    Body { actual: Seq<char>, expected: Seq<char> },
    HeaderNotFound { name: Seq<char> },
    HeaderValue { name: Seq<char>, actual: Seq<char>, expected: Seq<char> },
    UnexpectedHeaders { headers: Headers },
}

impl View for AssertionError {
    type V = AssertionFailure;

    open spec fn view(&self) -> AssertionFailure {
        match *self {
            AssertionError::Status { actual, expected, body } => AssertionFailure::Status {
                actual,
                expected,
                body: body@,
            },
            AssertionError::Body { actual, expected } => AssertionFailure::Body {
                actual: actual@,
                expected: expected@,
            },
            AssertionError::HeaderNotFound { name } => AssertionFailure::HeaderNotFound {
                name: name@,
            },
            AssertionError::HeaderValue { name, actual, expected } => AssertionFailure::HeaderValue {
                name: name@,
                actual: actual@,
                expected: expected@,
            },
            AssertionError::UnexpectedHeaders { headers } => AssertionFailure::UnexpectedHeaders {
                headers: header_views(headers@),
            },
        }
    }
}

/// The result of a comparison, its texts as sequences of characters.
pub open spec fn verdict(r: Result<(), AssertionError>) -> Result<(), AssertionFailure> {
    match r {
        Ok(()) => Ok(()),
        Err(e) => Err(e@),
    }
}

/// An expected header with its name and its value in lowercase. `name` is
/// the name as it was written.
#[derive(Debug)]
pub struct LoweredHeader {
    pub name: String,
    pub lowered_name: String,
    pub lowered_value: Option<String>,
    pub optional: bool,
}

/// A `LoweredHeader`, its texts as sequences of characters.
pub struct LoweredExpectation {
    pub name: Seq<char>,
    pub lowered_name: Seq<char>,
    pub lowered_value: Option<Seq<char>>,
    pub optional: bool,
}

impl View for LoweredHeader {
    type V = LoweredExpectation;

    open spec fn view(&self) -> LoweredExpectation {
        LoweredExpectation {
            name: self.name@,
            lowered_name: self.lowered_name@,
            lowered_value: match self.lowered_value {
                Some(v) => Some(v@),
                None => None,
            },
            optional: self.optional,
        }
    }
}

/// The views of the expected headers `v`, in order.
pub open spec fn expectation_views(v: Seq<LoweredHeader>) -> Seq<LoweredExpectation> {
    Seq::new(v.len(), |i: int| v[i]@)
}

/// The comparison of the expected headers `expected[i..]` with the headers
/// `remaining` of a response, all in lowercase.
///
/// Each expected header in turn takes the header of its name out of
/// `remaining`. It fails where that header is absent and the expected one is
/// not optional, and where an expected value is given and differs. When all
/// expected headers are through, a header that is left in `remaining` was not
/// expected: the comparison fails with those that are left.
pub open spec fn headers_matched(
    expected: Seq<LoweredExpectation>,
    i: int,
    remaining: Headers,
) -> Result<(), AssertionFailure>
    decreases expected.len() - i,
{
    if i < 0 || i >= expected.len() {
        if remaining.len() == 0 {
            Ok(())
        } else {
            Err(AssertionFailure::UnexpectedHeaders { headers: remaining })
        }
    } else {
        let e = expected[i];
        let p = position(remaining, e.lowered_name, 0);
        if p < remaining.len() {
            if e.lowered_value is Some && e.lowered_value->0 != remaining[p].1 {
                Err(
                    AssertionFailure::HeaderValue {
                        name: e.name,
                        actual: remaining[p].1,
                        expected: e.lowered_value->0,
                    },
                )
            } else {
                headers_matched(expected, i + 1, remaining.remove(p))
            }
        } else if e.optional {
            headers_matched(expected, i + 1, remaining)
        } else {
            Err(AssertionFailure::HeaderNotFound { name: e.name })
        }
    }
}

/// Compares expected headers with the headers of a response, both in
/// lowercase already.
pub fn match_headers(expected: &Vec<LoweredHeader>, actual: Vec<(String, String)>) -> (r: Result<
    (),
    AssertionError,
>)
    ensures
        verdict(r) == headers_matched(expectation_views(expected@), 0, header_views(actual@)),
{
    let ghost all = expectation_views(expected@);
    let ghost start = header_views(actual@);
    let mut remaining = actual;
    let mut i: usize = 0;
    while i < expected.len()
        invariant
            i <= expected.len(),
            all == expectation_views(expected@),
            start == header_views(actual@),
            headers_matched(all, 0, start) == headers_matched(
                all,
                i as int,
                header_views(remaining@),
            ),
        decreases expected.len() - i,
    {
        let e = &expected[i];
        assert(all[i as int] == e@);
        let p = find_header(&remaining, e.lowered_name.as_str());
        if p < remaining.len() {
            let ghost before = header_views(remaining@);
            match &e.lowered_value {
                Some(v) => {
                    if !str_eq(v.as_str(), remaining[p].1.as_str()) {
                        return Err(
                            AssertionError::HeaderValue {
                                name: e.name.clone(),
                                actual: remaining[p].1.clone(),
                                expected: v.clone(),
                            },
                        );
                    }
                },
                None => {},
            }
            remaining.remove(p);
            assert(header_views(remaining@) =~= before.remove(p as int));
        } else if !e.optional {
            return Err(AssertionError::HeaderNotFound { name: e.name.clone() });
        }
        i += 1;
    }
    if remaining.len() == 0 {
        Ok(())
    } else {
        Err(AssertionError::UnexpectedHeaders { headers: remaining })
    }
}

/// The headers `headers` with names and values in lowercase, each set in
/// turn: of two headers whose names are one in lowercase the later gives the
/// value.
pub open spec fn lowered(headers: Headers) -> Headers
    decreases headers.len(),
{
    if headers.len() == 0 {
        Seq::empty()
    } else {
        with_header(
            lowered(headers.drop_last()),
            lowercase(headers.last().0),
            lowercase(headers.last().1),
        )
    }
}

/// The expected header `h` with its name and its value in lowercase.
pub open spec fn lowered_expectation(h: HeaderExpectation) -> LoweredExpectation {
    LoweredExpectation {
        name: h.name,
        lowered_name: lowercase(h.name),
        lowered_value: match h.value {
            Some(v) => Some(lowercase(v)),
            None => None,
        },
        optional: h.optional,
    }
}

/// The expected headers `headers` with names and values in lowercase.
pub open spec fn lowered_expectations(headers: Seq<HeaderExpectation>) -> Seq<LoweredExpectation> {
    Seq::new(headers.len(), |i: int| lowered_expectation(headers[i]))
}

/// The headers of a response with names and values in lowercase.
pub fn lower_headers(headers: &Vec<(String, String)>) -> (r: Vec<(String, String)>)
    ensures
        header_views(r@) == lowered(header_views(headers@)),
{
    let ghost pairs = header_views(headers@);
    let mut r: Vec<(String, String)> = Vec::new();
    let mut i: usize = 0;
    assert(pairs.take(0) =~= Seq::empty());
    while i < headers.len()
        invariant
            i <= headers.len(),
            pairs == header_views(headers@),
            header_views(r@) == lowered(pairs.take(i as int)),
        decreases headers.len() - i,
    {
        assert(pairs.take(i + 1).drop_last() =~= pairs.take(i as int));
        let name = to_lowercase(headers[i].0.as_str());
        let value = to_lowercase(headers[i].1.as_str());
        set_header(&mut r, name, value);
        i += 1;
    }
    assert(pairs.take(i as int) =~= pairs);
    r
}

/// The expected headers with names and values in lowercase.
pub fn lower_expected(headers: &Vec<ResponseHeader>) -> (r: Vec<LoweredHeader>)
    ensures
        expectation_views(r@) == lowered_expectations(Seq::new(headers@.len(), |i: int| headers@[i]@)),
{
    let mut r: Vec<LoweredHeader> = Vec::new();
    let mut i: usize = 0;
    while i < headers.len()
        invariant
            i <= headers.len(),
            r@.len() == i,
            forall|k: int| 0 <= k < i ==> (#[trigger] r@[k])@ == lowered_expectation(headers@[k]@),
        decreases headers.len() - i,
    {
        let h = &headers[i];
        let lowered_value = match &h.value {
            Some(v) => Some(to_lowercase(v.as_str())),
            None => None,
        };
        r.push(
            LoweredHeader {
                name: h.name.clone(),
                lowered_name: to_lowercase(h.name.as_str()),
                lowered_value,
                optional: h.optional,
            },
        );
        i += 1;
    }
    assert(expectation_views(r@) =~= lowered_expectations(
        Seq::new(headers@.len(), |i: int| headers@[i]@),
    ));
    r
}

/// The body `body` as text: the text that it encodes in UTF-8, or
/// `<invalid utf-8>` where it is no valid UTF-8.
pub open spec fn body_text(body: Seq<u8>) -> Seq<char> {
    if vstd::utf8::valid_utf8(body) {
        vstd::utf8::decode_utf8(body)
    } else {
        "<invalid utf-8>"@
    }
}

/// The comparison of the response `actual` with the expected response
/// `expected`: first the status, then the body, then the headers. The first
/// difference decides.
///
/// The body is the expected one where it is valid UTF-8 and the text that
/// it encodes is the expected body, or the empty text where none is
/// expected. A body that is no valid UTF-8 is a difference whatever is
/// expected; the failure shows it as `<invalid utf-8>`. Names and values of
/// headers are compared in lowercase.
pub open spec fn response_checked(expected: ResponseExpectation, actual: ResponseView) -> Result<
    (),
    AssertionFailure,
> {
    let text = body_text(actual.body());
    let expected_body = match expected.body {
        Some(b) => b,
        None => Seq::empty(),
    };
    if actual.status != expected.status {
        Err(AssertionFailure::Status { actual: actual.status, expected: expected.status, body: text })
    } else if !vstd::utf8::valid_utf8(actual.body()) || text != expected_body {
        Err(AssertionFailure::Body { actual: text, expected: expected_body })
    } else {
        headers_matched(lowered_expectations(expected.headers), 0, lowered(actual.headers))
    }
}

/// A response that is the expected one has the expected status, and its body
/// is valid UTF-8 and encodes the expected body, or the empty text where
/// none is expected.
pub proof fn lemma_expected_status_and_body(expected: ResponseExpectation, actual: ResponseView)
    requires
        response_checked(expected, actual) is Ok,
    ensures
        actual.status == expected.status,
        vstd::utf8::valid_utf8(actual.body()),
        vstd::utf8::decode_utf8(actual.body()) == (match expected.body {
            Some(b) => b,
            None => Seq::empty(),
        }),
{
}

/// The body of `actual` as text.
pub fn text_of(actual: &ActualResponse) -> (s: String)
    ensures
        s@ == body_text(actual@.body()),
{
    match actual.text() {
        Ok(s) => s,
        Err(_) => String::from_str("<invalid utf-8>"),
    }
}

/// Compares the response `actual` with the expected response `expected`.
pub fn assert_response(expected: &ExpectedResponse, actual: &ActualResponse) -> (r: Result<
    (),
    AssertionError,
>)
    ensures
        verdict(r) == response_checked(expected@, actual@),
{
    if actual.status() != expected.status {
        return Err(
            AssertionError::Status {
                actual: actual.status(),
                expected: expected.status,
                body: text_of(actual),
            },
        );
    }
    let expected_body = match &expected.body {
        Some(b) => b.clone(),
        None => String::new(),
    };
    match actual.text() {
        Ok(actual_body) => {
            if !str_eq(actual_body.as_str(), expected_body.as_str()) {
                return Err(AssertionError::Body { actual: actual_body, expected: expected_body });
            }
        },
        Err(_) => {
            return Err(
                AssertionError::Body {
                    actual: String::from_str("<invalid utf-8>"),
                    expected: expected_body,
                },
            );
        },
    }
    let actual_headers = lower_headers(actual.headers());
    let expected_headers = lower_expected(&expected.headers);
    match_headers(&expected_headers, actual_headers)
}


/// The pairs `pairs` written as a map: each pair as `name: value`, the
/// pairs separated by a comma and a space, the whole between braces.
pub open spec fn listed(pairs: Headers) -> Seq<char> {
    seq!['{'] + listed_pairs(pairs) + seq!['}']
}

/// The pairs `pairs` as `name: value`, separated by a comma and a space.
pub open spec fn listed_pairs(pairs: Headers) -> Seq<char>
    decreases pairs.len(),
{
    if pairs.len() == 0 {
        Seq::empty()
    } else if pairs.len() == 1 {
        pairs[0].0 + seq![':', ' '] + pairs[0].1
    } else {
        listed_pairs(pairs.drop_last()) + seq![',', ' '] + pairs.last().0 + seq![':', ' ']
            + pairs.last().1
    }
}

/// Writes pairs as a map.
pub fn list_pairs(pairs: &Vec<(String, String)>) -> (r: String)
    ensures
        r@ == listed(header_views(pairs@)),
{
    let ghost all = header_views(pairs@);
    let mut r = String::from_str("{");
    proof {
        reveal_strlit("{");
        assert(r@ =~= seq!['{']);
    }
    let mut i: usize = 0;
    assert(all.take(0) =~= Seq::empty());
    assert(r@ =~= seq!['{'] + listed_pairs(all.take(0)));
    while i < pairs.len()
        invariant
            i <= pairs.len(),
            all == header_views(pairs@),
            r@ == seq!['{'] + listed_pairs(all.take(i as int)),
        decreases pairs.len() - i,
    {
        assert(all.take(i + 1).drop_last() =~= all.take(i as int));
        assert(all.take(i + 1).last() == all[i as int]);
        let ghost before = r@;
        if i > 0 {
            push_char(&mut r, ',');
            push_char(&mut r, ' ');
        }
        r.append(pairs[i].0.as_str());
        push_char(&mut r, ':');
        push_char(&mut r, ' ');
        r.append(pairs[i].1.as_str());
        assert(r@ =~= seq!['{'] + listed_pairs(all.take(i + 1))) by {
            if i == 0 {
                assert(all.take(1)[0] == all[0]);
            }
        }
        i += 1;
    }
    assert(all.take(i as int) =~= all);
    push_char(&mut r, '}');
    r
}

/// The pairs `pairs` with names and values as the debug format writes them.
pub open spec fn quoted_pairs(pairs: Headers) -> Headers {
    Seq::new(pairs.len(), |i: int| (debug_quoted(pairs[i].0), debug_quoted(pairs[i].1)))
}

/// The message of a failure.
pub open spec fn failure_message(e: AssertionFailure) -> Seq<char> {
    match e {
        AssertionFailure::Status { actual, expected, body } => "actual status "@ + decimal(
            actual as nat,
        ) + " != expected status "@ + decimal(expected as nat) + " - body: "@ + indented(
            lines_of(body),
            2,
        ),
        AssertionFailure::Body { actual, expected } => "actual body != expected body\nactual: "@
            + indented(lines_of(actual), 2) + "\nexpected: "@ + indented(lines_of(expected), 2),
        AssertionFailure::HeaderNotFound { name } => "expected header '"@ + name
            + "' not found in response"@,
        AssertionFailure::HeaderValue { name, actual, expected } => "header '"@ + name
            + "' has unexpected value '"@ + actual + "' != '"@ + expected + "'"@,
        AssertionFailure::UnexpectedHeaders { headers } => "unexpected headers: "@ + listed(
            quoted_pairs(headers),
        ),
    }
}

impl AssertionError {
    /// The message of the failure.
    pub fn message(&self) -> (r: String)
        ensures
            r@ == failure_message(self@),
    {
        match self {
            AssertionError::Status { actual, expected, body } => {
                let mut r = String::from_str("actual status ");
                r.append(decimal_string(*actual as u64).as_str());
                r.append(" != expected status ");
                r.append(decimal_string(*expected as u64).as_str());
                r.append(" - body: ");
                r.append(indent_lines(body.as_str(), 2).as_str());
                r
            },
            AssertionError::Body { actual, expected } => {
                let mut r = String::from_str("actual body != expected body\nactual: ");
                r.append(indent_lines(actual.as_str(), 2).as_str());
                r.append("\nexpected: ");
                r.append(indent_lines(expected.as_str(), 2).as_str());
                r
            },
            AssertionError::HeaderNotFound { name } => {
                let mut r = String::from_str("expected header '");
                r.append(name.as_str());
                r.append("' not found in response");
                r
            },
            AssertionError::HeaderValue { name, actual, expected } => {
                let mut r = String::from_str("header '");
                r.append(name.as_str());
                r.append("' has unexpected value '");
                r.append(actual.as_str());
                r.append("' != '");
                r.append(expected.as_str());
                r.append("'");
                r
            },
            AssertionError::UnexpectedHeaders { headers } => {
                let mut quoted: Vec<(String, String)> = Vec::new();
                let mut i: usize = 0;
                while i < headers.len()
                    invariant
                        i <= headers.len(),
                        quoted@.len() == i,
                        forall|k: int|
                            0 <= k < i ==> (#[trigger] quoted@[k]).0@ == debug_quoted(headers@[k].0@)
                                && quoted@[k].1@ == debug_quoted(headers@[k].1@),
                    decreases headers.len() - i,
                {
                    quoted.push(
                        (debug_quote(headers[i].0.as_str()), debug_quote(headers[i].1.as_str())),
                    );
                    i += 1;
                }
                assert(header_views(quoted@) =~= quoted_pairs(header_views(headers@)));
                let mut r = String::from_str("unexpected headers: ");
                r.append(list_pairs(&quoted).as_str());
                r
            },
        }
    }
}

} // verus!
