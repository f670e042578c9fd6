//! How a failure is written down: its message and the chain of its causes.

use vstd::prelude::*;
use crate::text::{decimal, lines, lines_of, push_char, views};

verus! {

/// `n` spaces.
pub open spec fn spaces(n: nat) -> Seq<char> {
    Seq::new(n, |i: int| ' ')
}

/// The lines `lines` joined by line feeds, each line after the first behind
/// `indent` spaces.
pub open spec fn indented(lines: Seq<Seq<char>>, indent: nat) -> Seq<char>
    decreases lines.len(),
{
    if lines.len() == 0 {
        Seq::empty()
    } else if lines.len() == 1 {
        lines[0]
    } else {
        indented(lines.drop_last(), indent) + seq!['\n'] + spaces(indent) + lines.last()
    }
}

/// Appends `n` spaces to `out`.
pub fn push_spaces(out: &mut String, n: usize)
    ensures
        final(out)@ == old(out)@ + spaces(n as nat),
{
    let mut i: usize = 0;
    assert(out@ =~= old(out)@ + spaces(0));
    while i < n
        invariant
            i <= n,
            out@ == old(out)@ + spaces(i as nat),
        decreases n - i,
    {
        push_char(out, ' ');
        i += 1;
        assert(out@ =~= old(out)@ + spaces(i as nat));
    }
}

/// `s` with every line after the first behind `indent` spaces.
pub fn indent_lines(s: &str, indent: usize) -> (r: String)
    ensures
        r@ == indented(lines_of(s@), indent as nat),
{
    let all = lines(s);
    let ghost texts = views(all@);
    let mut r = String::new();
    let mut i: usize = 0;
    assert(texts.take(0) =~= Seq::empty());
    while i < all.len()
        invariant
            i <= all.len(),
            texts == views(all@),
            r@ == indented(texts.take(i as int), indent as nat),
        decreases all.len() - i,
    {
        assert(texts.take(i + 1).drop_last() =~= texts.take(i as int));
        assert(texts.take(i + 1).last() == all@[i as int]@);
        if i > 0 {
            push_char(&mut r, '\n');
            push_spaces(&mut r, indent);
        }
        r.append(all[i].as_str());
        proof {
            if i == 0 {
                assert(r@ =~= all@[0]@);
            }
        }
        i += 1;
    }
    assert(texts.take(i as int) =~= texts);
    r
}

/// `s` behind as many spaces as it lacks to `width` characters.
pub open spec fn right_aligned(s: Seq<char>, width: nat) -> Seq<char> {
    if s.len() < width {
        spaces((width - s.len()) as nat) + s
    } else {
        s
    }
}

/// The message `message` as one cause in a chain: behind its number, or
/// behind six spaces where the causes are not numbered, with the lines after
/// the first behind six spaces too, and a line feed at the end.
pub open spec fn cause_line(i: nat, message: Seq<char>, numbered: bool) -> Seq<char> {
    (if numbered {
        right_aligned(decimal(i), 4) + seq![':', ' ']
    } else {
        spaces(6)
    }) + indented(lines_of(message), 6) + seq!['\n']
}

/// The causes `causes`, one after the other, numbered from `first` on.
pub open spec fn cause_lines(causes: Seq<Seq<char>>, first: nat, numbered: bool) -> Seq<char>
    decreases causes.len(),
{
    if causes.len() == 0 {
        Seq::empty()
    } else {
        cause_lines(causes.drop_last(), first, numbered) + cause_line(
            (first + causes.len() - 1) as nat,
            causes.last(),
            numbered,
        )
    }
}

/// What is written of the causes of a failure. `chain` holds the message of
/// the failure, then that of its cause, then that of the cause of the cause,
/// and so on. Where there is no cause nothing is written. The causes are
/// numbered from 0 where there are two or more.
pub open spec fn error_chain(chain: Seq<Seq<char>>) -> Seq<char> {
    if chain.len() < 2 {
        Seq::empty()
    } else {
        "\nCaused by:\n"@ + cause_lines(chain.skip(1), 0, chain.len() > 2)
    }
}

/// Appends to `f` what is to be written of the causes of a failure.
pub fn write_error_chain(f: &mut String, chain: &Vec<String>)
    ensures
        final(f)@ == old(f)@ + error_chain(views(chain@)),
{
    let ghost texts = views(chain@);
    if chain.len() < 2 {
        assert(f@ =~= old(f)@ + Seq::empty());
        return ;
    }
    let is_multiple = chain.len() > 2;
    f.append("\nCaused by:\n");
    let ghost head = f@;
    let ghost causes = texts.skip(1);
    let mut i: usize = 1;
    assert(causes.take(0) =~= Seq::empty());
    while i < chain.len()
        invariant
            1 <= i <= chain.len(),
            texts == views(chain@),
            causes == texts.skip(1),
            is_multiple == (chain.len() > 2),
            f@ == head + cause_lines(causes.take(i - 1), 0, is_multiple),
        decreases chain.len() - i,
    {
        let ghost before = f@;
        assert(causes.take(i as int).drop_last() =~= causes.take(i - 1));
        assert(causes.take(i as int).last() == chain@[i as int]@);
        let message = indent_lines(chain[i].as_str(), 6);
        if is_multiple {
            let number = crate::text::decimal_string((i - 1) as u64);
            let width = number.as_str().unicode_len();
            if width < 4 {
                push_spaces(f, 4 - width);
            }
            f.append(number.as_str());
            push_char(f, ':');
            push_char(f, ' ');
        } else {
            push_spaces(f, 6);
        }
        f.append(message.as_str());
        push_char(f, '\n');
        assert(f@ =~= before + cause_line((i - 1) as nat, chain@[i as int]@, is_multiple));
        i += 1;
    }
    assert(causes.take(i - 1) =~= causes);
    assert(f@ =~= old(f)@ + error_chain(texts));
}

/// A failure as the chain of its messages: its own, then that of its cause,
/// and so on down to the first cause.
pub struct FullError {
    pub chain: Vec<String>,
}

/// What is written of a failure with the chain `chain`: its message, the
/// lines after the first behind two spaces, then its causes.
pub open spec fn full_error(chain: Seq<Seq<char>>) -> Seq<char> {
    if chain.len() == 0 {
        Seq::empty()
    } else {
        indented(lines_of(chain[0]), 2) + error_chain(chain)
    }
}

impl FullError {
    /// The failure with the chain `chain`.
    pub fn from(chain: Vec<String>) -> (r: Self)
        ensures
            r.chain == chain,
    {
        Self { chain }
    }

    /// What is written of the failure.
    pub fn to_string(&self) -> (r: String)
        ensures
            r@ == full_error(views(self.chain@)),
    {
        if self.chain.len() == 0 {
            return String::new();
        }
        let mut r = indent_lines(self.chain[0].as_str(), 2);
        write_error_chain(&mut r, &self.chain);
        r
    }
}

} // verus!
