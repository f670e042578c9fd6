//! Templates: text with placeholders of the form `%{key=value}`, and their
//! substitution.

use vstd::prelude::*;
use crate::services::{file_name, Service};
use crate::test_environment::{
    copies, env_model, env_outcome, env_request, port_replacement, refusal, EnvError,
    EnvFailure, EnvRequest, TestEnvironment,
};
use crate::text::{decimal_string, split_at_first, split_once, str_eq, trim, trimmed};

verus! {

/// The first index at or after `i` that holds `}` or a line feed, or the
/// length of `s` where neither follows.
pub open spec fn closing(s: Seq<char>, i: int) -> int
    decreases s.len() - i,
{
    if 0 <= i < s.len() && s[i] != '}' && s[i] != '\n' {
        closing(s, i + 1)
    } else {
        i
    }
}

/// Whether a placeholder starts at index `i` of `s`: `%{` stands there, and
/// of `}` and the line feed the first that follows is a `}`.
pub open spec fn placeholder_starts(s: Seq<char>, i: int) -> bool {
    &&& 0 <= i
    &&& i + 2 <= s.len()
    &&& s[i] == '%'
    &&& s[i + 1] == '{'
    &&& closing(s, i + 2) < s.len()
    &&& s[closing(s, i + 2)] == '}'
}

/// One past the `}` that ends the placeholder which starts at `i`.
pub open spec fn placeholder_end(s: Seq<char>, i: int) -> int {
    closing(s, i + 2) + 1
}

/// The first index at or after `from` where a placeholder starts, or the
/// length of `s` where none does.
pub open spec fn next_placeholder(s: Seq<char>, from: int) -> int
    decreases s.len() - from,
{
    if from < 0 || from >= s.len() {
        s.len() as int
    } else if placeholder_starts(s, from) {
        from
    } else {
        next_placeholder(s, from + 1)
    }
}

pub proof fn lemma_closing(s: Seq<char>, i: int)
    requires
        0 <= i <= s.len(),
    ensures
        i <= closing(s, i) <= s.len(),
        forall|k: int| i <= k < closing(s, i) ==> #[trigger] s[k] != '}' && s[k] != '\n',
        closing(s, i) < s.len() ==> s[closing(s, i)] == '}' || s[closing(s, i)] == '\n',
    decreases s.len() - i,
{
    if i < s.len() && s[i] != '}' && s[i] != '\n' {
        lemma_closing(s, i + 1);
    }
}

pub proof fn lemma_next_placeholder(s: Seq<char>, from: int)
    requires
        0 <= from,
    ensures
        from <= next_placeholder(s, from) || next_placeholder(s, from) == s.len(),
        next_placeholder(s, from) <= s.len(),
        forall|k: int| from <= k < next_placeholder(s, from) ==> !placeholder_starts(s, k),
        next_placeholder(s, from) < s.len() ==> placeholder_starts(s, next_placeholder(s, from)),
    decreases s.len() - from,
{
    if from < s.len() && !placeholder_starts(s, from) {
        lemma_next_placeholder(s, from + 1);
    }
}

/// Whether `s[start..end]` is a placeholder: `%{`, then characters that are
/// neither `}` nor a line feed, then `}`.
pub open spec fn is_placeholder(s: Seq<char>, start: int, end: int) -> bool {
    &&& 0 <= start
    &&& start + 3 <= end <= s.len()
    &&& s[start] == '%'
    &&& s[start + 1] == '{'
    &&& s[end - 1] == '}'
    &&& forall|k: int| start + 2 <= k < end - 1 ==> #[trigger] s[k] != '}' && s[k] != '\n'
}

/// A placeholder starts at `i` exactly where some `s[i..end]` is a
/// placeholder, and there is one such `end` only.
pub proof fn lemma_placeholder_starts(s: Seq<char>, i: int)
    ensures
        placeholder_starts(s, i) ==> is_placeholder(s, i, placeholder_end(s, i)),
        forall|end: int| is_placeholder(s, i, end) ==> placeholder_starts(s, i) && end
            == placeholder_end(s, i),
{
    if 0 <= i && i + 2 <= s.len() {
        lemma_closing(s, i + 2);
        let c = closing(s, i + 2);
        assert forall|end: int| is_placeholder(s, i, end) implies placeholder_starts(s, i) && end
            == placeholder_end(s, i) by {
            if c < end - 1 {
                assert(s[c] != '}' && s[c] != '\n');
            }
            if c > end - 1 {
                assert(s[end - 1] != '}');
            }
        }
    }
}

/// The placeholders of `s` from index `from` on, each as the index where it
/// starts and the index one past its end: the first that starts at or after
/// `from`, then the first that starts at or after the end of that one, and
/// so on.
pub open spec fn placeholders_from(s: Seq<char>, from: int) -> Seq<(int, int)>
    decreases s.len() - from,
{
    let start = next_placeholder(s, from);
    if 0 <= from && start < s.len() {
        proof {
            lemma_next_placeholder(s, from);
            lemma_closing(s, start + 2);
        }
        seq![(start, placeholder_end(s, start))] + placeholders_from(s, placeholder_end(s, start))
    } else {
        Seq::empty()
    }
}

/// The placeholders of `s`.
pub open spec fn placeholders(s: Seq<char>) -> Seq<(int, int)> {
    placeholders_from(s, 0)
}


/// A placeholder found in a text, with the text around it.
#[derive(Debug)]
pub struct Placeholder {
    /// The text before the `%{`.
    pub before: String,
    /// The text between the `%{` and the `}`.
    pub inner: String,
    /// The text after the `}`.
    pub after: String,
}

/// The regular expression that a placeholder matches.
pub open spec fn placeholder_pattern() -> Seq<char> {
    "%\\{(.*?)\\}"@
}

/// Whether `p` holds the three parts into which the placeholder at `span`
/// cuts `text`.
pub open spec fn cut_at(text: Seq<char>, p: Placeholder, span: (int, int)) -> bool {
    &&& p.before@ == text.subrange(0, span.0)
    &&& p.inner@ == text.subrange(span.0 + 2, span.1 - 1)
    &&& p.after@ == text.subrange(span.1, text.len() as int)
}

/// `Regex::new` on the pattern of a placeholder, then `Regex::captures_iter`
/// on `text`. The matches of that pattern come in the order of the text and
/// do not overlap: each is the leftmost that starts at or after the end of
/// the one before. A match starts at a `%{` and ends at the first `}` after
/// it, and there is none where a line feed comes before that `}`, since the
/// `.` of the pattern matches every character but the line feed. The result
/// holds, for each match, the text before it, the text of its group and the
/// text after it.
#[verifier::external_body]
fn find_placeholders(pattern: &str, text: &str) -> (found: Vec<Placeholder>)
    requires
        pattern@ == placeholder_pattern(),
    ensures
        found@.len() == placeholders(text@).len(),
        forall|k: int|
            0 <= k < found@.len() ==> cut_at(text@, #[trigger] found@[k], placeholders(text@)[k]),
{
    let re = regex::Regex::new(pattern).unwrap();
    re.captures_iter(text).map(
        |c|
            {
                let full = c.get(0).unwrap();
                Placeholder {
                    before: text[..full.start()].to_owned(),
                    inner: c[1].to_owned(),
                    after: text[full.end()..].to_owned(),
                }
            },
    ).collect()
}

/// Why a substitution failed.
#[derive(Debug)]
pub enum TemplateError<E> {
    /// A placeholder whose text holds no `=`.
    Invalid { template: String },
    /// The resolver failed on a placeholder.
    Resolver(E),
    /// More placeholders were replaced than `SUBSTITUTION_LIMIT`.
    Exhausted,
}

/// A `TemplateError`, its text as a sequence of characters.
pub enum TemplateFailure<E> {
    Invalid { template: Seq<char> },
    Resolver(E),
    Exhausted,
}

impl<E> View for TemplateError<E> {
    type V = TemplateFailure<E>;

    open spec fn view(&self) -> TemplateFailure<E> {
        match *self {
            TemplateError::Invalid { template } => TemplateFailure::Invalid { template: template@ },
            TemplateError::Resolver(e) => TemplateFailure::Resolver(e),
            TemplateError::Exhausted => TemplateFailure::Exhausted,
        }
    }
}

/// What a resolver says of a key and a value: a replacement, none, or a
/// failure.
pub type Answer<E> = Result<Option<Seq<char>>, E>;

/// The answer of a resolver, its text as a sequence of characters.
pub open spec fn answer_view<E>(a: Result<Option<String>, E>) -> Answer<E> {
    match a {
        Ok(Some(s)) => Ok(Some(s@)),
        Ok(None) => Ok(None),
        Err(e) => Err(e),
    }
}

/// Whether `model` says what `resolver` returns: whatever a call of
/// `resolver` on a key and a value may return is what `model` gives for them.
pub open spec fn answers<E, F: Fn(&str, &str) -> Result<Option<String>, E>>(
    resolver: F,
    model: spec_fn(Seq<char>, Seq<char>) -> Answer<E>,
) -> bool {
    forall|k: &str, v: &str, a: Result<Option<String>, E>| #[trigger]
        call_ensures(resolver, (k, v), a) ==> answer_view(a) == model(k@, v@)
}

/// What one pass over the placeholders of a text decides.
pub enum Scan<E> {
    /// Every placeholder was declined, or there is none.
    Finished,
    /// A placeholder holds no `=`.
    Invalid(Seq<char>),
    /// The resolver failed.
    Failed(E),
    /// The placeholder from `start` to `end` is to be replaced by `with`.
    Replace { start: int, end: int, with: Seq<char> },
}

/// The pass over the placeholders `spans[i..]` of `s`. The text between `%{`
/// and `}` is split at its first `=` into a key and a value, and `model` is
/// asked. The first placeholder that has no `=`, or on which `model` fails
/// or gives a replacement, decides; one that `model` declines is passed
/// over.
pub open spec fn scan<E>(
    s: Seq<char>,
    spans: Seq<(int, int)>,
    i: int,
    model: spec_fn(Seq<char>, Seq<char>) -> Answer<E>,
) -> Scan<E>
    decreases spans.len() - i,
{
    if i < 0 || i >= spans.len() {
        Scan::Finished
    } else {
        let inner = s.subrange(spans[i].0 + 2, spans[i].1 - 1);
        match split_at_first(inner, '=') {
            None => Scan::Invalid(inner),
            Some((key, value)) => match model(key, value) {
                Err(e) => Scan::Failed(e),
                Ok(Some(with)) => Scan::Replace { start: spans[i].0, end: spans[i].1, with },
                Ok(None) => scan(s, spans, i + 1, model),
            },
        }
    }
}

/// The resolver that asks `model` with the key and the value trimmed.
pub open spec fn trimming<E>(model: spec_fn(Seq<char>, Seq<char>) -> Answer<E>) -> spec_fn(
    Seq<char>,
    Seq<char>,
) -> Answer<E> {
    |key: Seq<char>, value: Seq<char>| model(trimmed(key), trimmed(value))
}

/// `s` with `s[start..end]` replaced by `with`.
pub open spec fn spliced(s: Seq<char>, start: int, end: int, with: Seq<char>) -> Seq<char> {
    s.subrange(0, start) + with + s.subrange(end, s.len() as int)
}

/// The text and the result of a substitution on `s`: passes over the
/// placeholders, each from the start of the text as the replacement before
/// left it, until a pass finishes or fails, or until `limit` placeholders
/// have been replaced and one more is due.
pub open spec fn substituted<E>(
    s: Seq<char>,
    model: spec_fn(Seq<char>, Seq<char>) -> Answer<E>,
    limit: nat,
) -> (Seq<char>, Result<(), TemplateFailure<E>>)
    decreases limit,
{
    match scan(s, placeholders(s), 0, model) {
        Scan::Finished => (s, Ok(())),
        Scan::Invalid(template) => (s, Err(TemplateFailure::Invalid { template })),
        Scan::Failed(e) => (s, Err(TemplateFailure::Resolver(e))),
        Scan::Replace { start, end, with } => if limit == 0 {
            (s, Err(TemplateFailure::Exhausted))
        } else {
            substituted(spliced(s, start, end, with), model, (limit - 1) as nat)
        },
    }
}

/// What one pass over the placeholders of a text came to.
#[derive(Debug)]
pub enum Pass<E> {
    /// Every placeholder was declined, or there is none.
    Finished,
    /// A placeholder holds no `=`: its text.
    Invalid(String),
    /// The resolver failed.
    Failed(E),
    /// A placeholder was replaced: the new text.
    Replaced(String),
}

impl<E> Pass<E> {
    /// Whether this is what the decision `scan` comes to on `text`.
    pub open spec fn is(self, text: Seq<char>, scan: Scan<E>) -> bool {
        match (self, scan) {
            (Pass::Finished, Scan::Finished) => true,
            (Pass::Invalid(t), Scan::Invalid(u)) => t@ == u,
            (Pass::Failed(e), Scan::Failed(f)) => e == f,
            (Pass::Replaced(new), Scan::Replace { start, end, with }) => new@ == spliced(
                text,
                start,
                end,
                with,
            ),
            _ => false,
        }
    }
}

/// The pattern of a placeholder.
pub fn pattern() -> (p: &'static str)
    ensures
        p@ == placeholder_pattern(),
{
    "%\\{(.*?)\\}"
}

/// The text between `%{` and `}` of the first placeholder of `s`.
pub open spec fn first_inner(s: Seq<char>) -> Seq<char> {
    s.subrange(placeholders(s)[0].0 + 2, placeholders(s)[0].1 - 1)
}

/// Whether `s` has a placeholder and the first holds no `=`: a substitution
/// on `s` fails on it before any resolver is asked.
pub open spec fn first_is_invalid(s: Seq<char>) -> bool {
    placeholders(s).len() > 0 && split_at_first(first_inner(s), '=') is None
}

/// One pass over the placeholders of `text`: asks `resolver` about each
/// in turn, up to the first that it does not decline. Where there is no
/// placeholder the pass finishes at once, and where the first placeholder
/// holds no `=` it fails on it; in neither case is `resolver` asked.
pub fn pass<E, F: Fn(&str, &str) -> Result<Option<String>, E>>(text: &str, resolver: &F) -> (r:
    Pass<E>)
    requires
        forall|k: &str, v: &str| call_requires(*resolver, (k, v)),
    ensures
        placeholders(text@).len() == 0 ==> r is Finished,
        first_is_invalid(text@) ==> (r matches Pass::Invalid(t) && t@ == first_inner(text@)),
        forall|model: spec_fn(Seq<char>, Seq<char>) -> Answer<E>| #[trigger]
            answers(*resolver, model) ==> r.is(
                text@,
                scan(text@, placeholders(text@), 0, trimming(model)),
            ),
{
    let found = find_placeholders(pattern(), text);
    let ghost spans = placeholders(text@);
    let mut i: usize = 0;
    while i < found.len()
        invariant
            i <= found.len(),
            spans == placeholders(text@),
            found@.len() == spans.len(),
            forall|k: int| 0 <= k < found@.len() ==> cut_at(text@, #[trigger] found@[k], spans[k]),
            forall|k: &str, v: &str| call_requires(*resolver, (k, v)),
            i > 0 ==> !first_is_invalid(text@),
            forall|model: spec_fn(Seq<char>, Seq<char>) -> Answer<E>| #[trigger]
                answers(*resolver, model) ==> scan(text@, spans, 0, trimming(model)) == scan(
                    text@,
                    spans,
                    i as int,
                    trimming(model),
                ),
        decreases found.len() - i,
    {
        let p = &found[i];
        assert(cut_at(text@, found@[i as int], spans[i as int]));
        match split_once(p.inner.as_str(), '=') {
            None => {
                return Pass::Invalid(p.inner.clone());
            },
            Some((k, v)) => {
                let key = trim(k.as_str());
                let value = trim(v.as_str());
                let answer = resolver(key.as_str(), value.as_str());
                match answer {
                    Err(e) => {
                        return Pass::Failed(e);
                    },
                    Ok(Some(with)) => {
                        let mut new = p.before.clone();
                        new.append(with.as_str());
                        new.append(p.after.as_str());
                        return Pass::Replaced(new);
                    },
                    Ok(None) => {},
                }
            },
        }
        i += 1;
    }
    Pass::Finished
}


/// The number of placeholders that one substitution replaces at most. A
/// resolver whose replacements keep holding placeholders that it replaces
/// again is stopped there.
pub const SUBSTITUTION_LIMIT: u64 = 0xffff_ffff_ffff_ffff;

/// The result of a substitution, its text as a sequence of characters.
pub open spec fn result_view<E>(r: Result<(), TemplateError<E>>) -> Result<(), TemplateFailure<E>> {
    match r {
        Ok(()) => Ok(()),
        Err(e) => Err(e@),
    }
}

/// Replaces the placeholders of `content`.
///
/// Each placeholder `%{key=value}` is handed to `replacement` as its key and
/// its value, both trimmed. Where `replacement` gives a text, the placeholder
/// is replaced by it and the search starts again at the beginning of the
/// text, so a replacement may hold placeholders of its own. A placeholder
/// that `replacement` declines stays. The substitution ends when a pass over
/// the text replaces nothing, and fails on a placeholder without `=`, on the
/// first failure of `replacement`, and when the limit is reached.
pub fn replace_template<E, F: Fn(&str, &str) -> Result<Option<String>, E>>(
    content: &mut String,
    replacement: F,
) -> (r: Result<(), TemplateError<E>>)
    requires
        forall|k: &str, v: &str| call_requires(replacement, (k, v)),
    ensures
        placeholders(old(content)@).len() == 0 ==> r is Ok && final(content)@ == old(content)@,
        first_is_invalid(old(content)@) ==> final(content)@ == old(content)@ && result_view(r)
            == Err::<(), TemplateFailure<E>>(
            TemplateFailure::Invalid { template: first_inner(old(content)@) },
        ),
        forall|model: spec_fn(Seq<char>, Seq<char>) -> Answer<E>| #[trigger]
            answers(replacement, model) ==> (final(content)@, result_view(r)) == substituted(
                old(content)@,
                trimming(model),
                SUBSTITUTION_LIMIT as nat,
            ),
{
    replace_template_with(content, &replacement)
}

/// `replace_template` with a resolver that is lent.
pub fn replace_template_with<E, F: Fn(&str, &str) -> Result<Option<String>, E>>(
    content: &mut String,
    replacement: &F,
) -> (r: Result<(), TemplateError<E>>)
    requires
        forall|k: &str, v: &str| call_requires(*replacement, (k, v)),
    ensures
        placeholders(old(content)@).len() == 0 ==> r is Ok && final(content)@ == old(content)@,
        first_is_invalid(old(content)@) ==> final(content)@ == old(content)@ && result_view(r)
            == Err::<(), TemplateFailure<E>>(
            TemplateFailure::Invalid { template: first_inner(old(content)@) },
        ),
        forall|model: spec_fn(Seq<char>, Seq<char>) -> Answer<E>| #[trigger]
            answers(*replacement, model) ==> (final(content)@, result_view(r)) == substituted(
                old(content)@,
                trimming(model),
                SUBSTITUTION_LIMIT as nat,
            ),
{
    let ghost original = content@;
    let mut rounds: u64 = 0;
    loop
        invariant
            original == old(content)@,
            rounds == 0 ==> content@ == original,
            rounds > 0 ==> placeholders(original).len() > 0 && !first_is_invalid(original),
            forall|k: &str, v: &str| call_requires(*replacement, (k, v)),
            forall|model: spec_fn(Seq<char>, Seq<char>) -> Answer<E>| #[trigger]
                answers(*replacement, model) ==> substituted(
                    original,
                    trimming(model),
                    SUBSTITUTION_LIMIT as nat,
                ) == substituted(content@, trimming(model), (SUBSTITUTION_LIMIT - rounds) as nat),
        decreases SUBSTITUTION_LIMIT - rounds,
    {
        let ghost before = content@;
        let ghost left = (SUBSTITUTION_LIMIT - rounds) as nat;
        let step = pass(content.as_str(), replacement);
        assert forall|model: spec_fn(Seq<char>, Seq<char>) -> Answer<E>| #[trigger]
            answers(*replacement, model) implies step.is(
            before,
            scan(before, placeholders(before), 0, trimming(model)),
        ) && substituted(original, trimming(model), SUBSTITUTION_LIMIT as nat) == substituted(
            before,
            trimming(model),
            left,
        ) by {}
        match step {
            Pass::Finished => {
                return Ok(());
            },
            Pass::Invalid(template) => {
                return Err(TemplateError::Invalid { template });
            },
            Pass::Failed(e) => {
                return Err(TemplateError::Resolver(e));
            },
            Pass::Replaced(new) => {
                if rounds == SUBSTITUTION_LIMIT {
                    return Err(TemplateError::Exhausted);
                }
                *content = new;
                rounds += 1;
            },
        }
    }
}

/// A text with placeholders that are replaced by what the test environment
/// knows.
pub struct EnvTemplate {
    content: String,
}

/// What a function from values to replacements says, its text as a sequence
/// of characters.
pub open spec fn option_view(o: Option<String>) -> Option<Seq<char>> {
    match o {
        Some(s) => Some(s@),
        None => None,
    }
}

/// Whether `model` says what `replacement` returns.
pub open spec fn gives<F: Fn(&str) -> Option<String>>(
    replacement: F,
    model: spec_fn(Seq<char>) -> Option<Seq<char>>,
) -> bool {
    forall|v: &str, o: Option<String>| #[trigger]
        call_ensures(replacement, (v,), o) ==> option_view(o) == model(v@)
}

/// The resolver that answers for the one key `key` with what `model` gives
/// for the value, and declines every other key.
pub open spec fn keyed(key: Seq<char>, model: spec_fn(Seq<char>) -> Option<Seq<char>>) -> spec_fn(
    Seq<char>,
    Seq<char>,
) -> Answer<std::convert::Infallible> {
    |k: Seq<char>, v: Seq<char>|
        if k == key {
            Ok(model(v))
        } else {
            Ok(None)
        }
}

impl EnvTemplate {
    /// The text of the template.
    pub closed spec fn view(&self) -> Seq<char> {
        self.content@
    }

    /// A template with the text `content`.
    pub fn new(content: String) -> (r: Result<Self, std::convert::Infallible>)
        ensures
            r matches Ok(t) && t@ == content@,
    {
        Ok(Self { content })
    }

    /// Replaces the placeholders with the key `key` by what `replacement`
    /// gives for their values. A placeholder with another key stays, and so
    /// does one for whose value `replacement` gives nothing.
    pub fn substitute_value<F: Fn(&str) -> Option<String>>(&mut self, key: &str, replacement: F) -> (r:
        Result<(), TemplateError<std::convert::Infallible>>)
        requires
            forall|v: &str| call_requires(replacement, (v,)),
        ensures
            placeholders(old(self)@).len() == 0 ==> r is Ok && final(self)@ == old(self)@,
            first_is_invalid(old(self)@) ==> final(self)@ == old(self)@ && result_view(r) == Err::<
                (),
                TemplateFailure<std::convert::Infallible>,
            >(TemplateFailure::Invalid { template: first_inner(old(self)@) }),
            forall|model: spec_fn(Seq<char>) -> Option<Seq<char>>| #[trigger]
                gives(replacement, model) ==> (final(self)@, result_view(r)) == substituted(
                    old(self)@,
                    trimming(keyed(key@, model)),
                    SUBSTITUTION_LIMIT as nat,
                ),
    {
        let given = &replacement;
        let resolver = |k: &str, v: &str| -> (a: Result<Option<String>, std::convert::Infallible>)
            ensures
                k@ != key@ ==> a == Ok::<Option<String>, std::convert::Infallible>(None),
                k@ == key@ ==> a is Ok && call_ensures(*given, (v,), a->Ok_0),
            {
                if str_eq(k, key) {
                    Ok(given(v))
                } else {
                    Ok(None)
                }
            };
        assert forall|model: spec_fn(Seq<char>) -> Option<Seq<char>>| #[trigger]
            gives(replacement, model) implies answers(resolver, keyed(key@, model)) by {
            assert forall|k: &str, v: &str, a: Result<Option<String>, std::convert::Infallible>| #[trigger]
                call_ensures(resolver, (k, v), a) implies answer_view(a) == keyed(key@, model)(
                k@,
                v@,
            ) by {
                if k@ == key@ {
                    assert(call_ensures(*given, (v,), a->Ok_0));
                }
            }
        }
        replace_template(&mut self.content, resolver)
    }

    /// Replaces the placeholders of the template by what the environment
    /// `env` knows.
    ///
    /// A placeholder with the key `port` is replaced by the port of the host
    /// that a service exposes for the port of the guest which its value
    /// names. One with the key `source` names a component: `path_for` gives
    /// the path of its binary, `copy_into` copies that file into the working
    /// directory under its file name, and the file name replaces the
    /// placeholder. Key and value are trimmed. Any other key, a placeholder
    /// without `=`, and whatever fails on the way end the substitution.
    ///
    /// A template without placeholders stays as it is. Where the first
    /// placeholder is refused before any component is asked for, the call
    /// fails with that refusal and neither `path_for` nor `copy_into` is
    /// called.
    pub fn substitute<R, S: Service, P: Fn(&str) -> Option<String>, C: Fn(&str, &str) -> Result<
        (),
        String,
    >>(&mut self, env: &mut TestEnvironment<R, S>, path_for: P, copy_into: C) -> (r: Result<
        (),
        EnvError,
    >)
        requires
            forall|name: &str| call_requires(path_for, (name,)),
            forall|from: &str, into: &str| call_requires(copy_into, (from, into)),
        ensures
            final(env).dir() == old(env).dir(),
            final(env).has_runtime() == old(env).has_runtime(),
            final(env).variables() == old(env).variables(),
            final(env).services() == old(env).services(),
            placeholders(old(self)@).len() == 0 ==> r is Ok && final(self)@ == old(self)@,
            placeholders(old(self)@).len() > 0 ==> (refusal(
                old(env).services(),
                first_inner(old(self)@),
            ) matches Some(failure) ==> final(self)@ == old(self)@ && env_outcome(r) == Err::<
                (),
                TemplateFailure<EnvFailure>,
            >(failure)),
            forall|
                paths: spec_fn(Seq<char>) -> Option<Seq<char>>,
                copied: spec_fn(Seq<char>, Seq<char>) -> Result<(), Seq<char>>,
            |
                #![trigger gives(path_for, paths), copies(copy_into, copied)]
                gives(path_for, paths) && copies(copy_into, copied) ==> (
                    final(self)@,
                    env_outcome(r),
                ) == substituted(
                    old(self)@,
                    env_model(old(env).services(), paths, copied),
                    SUBSTITUTION_LIMIT as nat,
                ),
    {
        let ghost original = self@;
        let ghost states = env.services();
        let mut rounds: u64 = 0;
        loop
            invariant
                env.dir() == old(env).dir(),
                env.has_runtime() == old(env).has_runtime(),
                env.variables() == old(env).variables(),
                env.services() == old(env).services(),
                states == old(env).services(),
                original == old(self)@,
                rounds == 0 ==> self@ == original,
                rounds > 0 ==> placeholders(original).len() > 0 && refusal(
                    states,
                    first_inner(original),
                ) is None,
                forall|name: &str| call_requires(path_for, (name,)),
                forall|from: &str, into: &str| call_requires(copy_into, (from, into)),
                forall|
                    paths: spec_fn(Seq<char>) -> Option<Seq<char>>,
                    copied: spec_fn(Seq<char>, Seq<char>) -> Result<(), Seq<char>>,
                |
                    #![trigger gives(path_for, paths), copies(copy_into, copied)]
                    gives(path_for, paths) && copies(copy_into, copied) ==> substituted(
                        original,
                        env_model(states, paths, copied),
                        SUBSTITUTION_LIMIT as nat,
                    ) == substituted(
                        self@,
                        env_model(states, paths, copied),
                        (SUBSTITUTION_LIMIT - rounds) as nat,
                    ),
            decreases SUBSTITUTION_LIMIT - rounds,
        {
            let ghost before = self@;
            let ghost spans = placeholders(before);
            let p = match first_placeholder(self.content.as_str()) {
                None => {
                    return Ok(());
                },
                Some(p) => p,
            };
            assert(p.inner@ == before.subrange(spans[0].0 + 2, spans[0].1 - 1));
            let replacement = match env_request(p.inner.as_str(), true) {
                Err(e) => {
                    return Err(e);
                },
                Ok(EnvRequest::Source { name }) => {
                    let path = match path_for(name.as_str()) {
                        Some(path) => path,
                        None => {
                            return Err(EnvError::NoSuchComponent { name });
                        },
                    };
                    let file = file_name(path.as_str());
                    match copy_into(path.as_str(), file.as_str()) {
                        Ok(()) => {},
                        Err(cause) => {
                            return Err(EnvError::CopyFailed { from: path, cause });
                        },
                    }
                    file
                },
                Ok(EnvRequest::Port { guest, value }) => {
                    let found = env.get_port(guest);
                    let number = decimal_string(guest as u64);
                    match port_replacement(number.as_str(), found) {
                        Ok(s) => s,
                        Err(e) => {
                            return Err(e);
                        },
                    }
                },
            };
            if rounds == SUBSTITUTION_LIMIT {
                return Err(EnvError::Exhausted);
            }
            let mut new = p.before;
            new.append(replacement.as_str());
            new.append(p.after.as_str());
            self.content = new;
            rounds += 1;
        }
    }

    /// The text of the template.
    pub fn contents(&self) -> (s: &str)
        ensures
            s@ == self@,
    {
        self.content.as_str()
    }

    /// The text of the template, which is given up.
    pub fn into_contents(self) -> (s: String)
        ensures
            s@ == self@,
    {
        self.content
    }
}


/// A text in which no placeholder starts has no placeholders.
pub proof fn lemma_placeholders_none(s: Seq<char>)
    requires
        forall|i: int| !placeholder_starts(s, i),
    ensures
        placeholders(s).len() == 0,
{
    lemma_next_placeholder(s, 0);
}

/// Substitution on a text without placeholders changes nothing and does not
/// fail, whatever the resolver and the limit.
pub proof fn lemma_substitution_without_placeholders<E>(
    s: Seq<char>,
    model: spec_fn(Seq<char>, Seq<char>) -> Answer<E>,
    limit: nat,
)
    requires
        forall|i: int| !placeholder_starts(s, i),
    ensures
        substituted(s, model, limit) == (s, Ok::<(), TemplateFailure<E>>(())),
{
    lemma_placeholders_none(s);
}

/// Substitution is idempotent: on the text that a successful substitution
/// left, a second one with the same resolver changes nothing and succeeds.
pub proof fn lemma_substitution_idempotent<E>(
    s: Seq<char>,
    model: spec_fn(Seq<char>, Seq<char>) -> Answer<E>,
    limit: nat,
    again: nat,
)
    requires
        substituted(s, model, limit).1 is Ok,
    ensures
        substituted(substituted(s, model, limit).0, model, again) == (
            substituted(s, model, limit).0,
            Ok::<(), TemplateFailure<E>>(()),
        ),
    decreases limit,
{
    match scan(s, placeholders(s), 0, model) {
        Scan::Replace { start, end, with } => {
            lemma_substitution_idempotent(
                spliced(s, start, end, with),
                model,
                (limit - 1) as nat,
                again,
            );
        },
        _ => {},
    }
}


/// The first placeholder of `text`, if it has one.
pub fn first_placeholder(text: &str) -> (r: Option<Placeholder>)
    ensures
        r is None <==> placeholders(text@).len() == 0,
        r matches Some(p) ==> cut_at(text@, p, placeholders(text@)[0]),
{
    let mut found = find_placeholders(pattern(), text);
    if found.len() == 0 {
        None
    } else {
        let ghost all = found@;
        let p = found.swap_remove(0);
        assert(p == all[0]);
        Some(p)
    }
}

/// The values `values`, each with its placeholders replaced, up to the
/// first on which the substitution fails; those behind it stay untouched.
pub open spec fn substituted_all<E>(
    values: Seq<Seq<char>>,
    i: int,
    model: spec_fn(Seq<char>, Seq<char>) -> Answer<E>,
    limit: nat,
) -> (Seq<Seq<char>>, Result<(), TemplateFailure<E>>)
    decreases values.len() - i,
{
    if i < 0 || i >= values.len() {
        (values, Ok(()))
    } else {
        let (value, result) = substituted(values[i], model, limit);
        if result is Err {
            (values.update(i, value), result)
        } else {
            substituted_all(values.update(i, value), i + 1, model, limit)
        }
    }
}


impl TemplateError<String> {
    /// The message of the failure, where the failure of the resolver is its
    /// message.
    pub fn message(&self) -> (r: String)
        ensures
            r@ == (match self@ {
                TemplateFailure::Invalid { template } => seq![
                    "invalid template '"@,
                    template,
                    "'(template should be in the form $KEY=$VALUE)"@,
                ].flatten(),
                TemplateFailure::Resolver(e) => e@,
                TemplateFailure::Exhausted => "too many placeholders were replaced"@,
            }),
    {
        match self {
            TemplateError::Invalid { template } => {
                let mut parts: Vec<&str> = Vec::new();
                parts.push("invalid template '");
                parts.push(template.as_str());
                parts.push("'(template should be in the form $KEY=$VALUE)");
                let r = crate::text::join(parts);
                assert(crate::text::part_views(parts@) =~= seq![
                    "invalid template '"@,
                    template@,
                    "'(template should be in the form $KEY=$VALUE)"@,
                ]);
                r
            },
            TemplateError::Resolver(e) => e.clone(),
            TemplateError::Exhausted => String::from_str("too many placeholders were replaced"),
        }
    }
}

} // verus!
