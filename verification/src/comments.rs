//! Removal of `//` and `/* */` comments from template text.
//!
//! The scanner reads the text once, one character at a time. Comment markers
//! count only outside quoted strings; inside quotes every character is kept,
//! and an escaped quote does not close the string.

use crate::text::{chars_of, pair_at};
use vstd::prelude::*;

verus! {

/// Where the scanner stands between two characters.
#[derive(Clone, Copy, Debug, PartialEq, Eq, Structural)]
pub enum Scan {
    /// Outside any string or comment.
    Code,
    /// Inside a quoted string.
    Quoted,
    /// Inside a quoted string, just after a backslash.
    Escaped,
    /// Inside a `//` comment.
    Line,
    /// Inside a `/* */` comment.
    Block,
}

/// What is kept of `s[i..]` when the scanner reaches position `i` in state `scan`.
pub open spec fn stripped_from(s: Seq<char>, i: int, scan: Scan) -> Seq<char>
    decreases s.len() - i,
{
    if i < 0 || i >= s.len() {
        Seq::empty()
    } else {
        match scan {
            Scan::Code => if pair_at(s, i, '/', '/') {
                stripped_from(s, i + 2, Scan::Line)
            } else if pair_at(s, i, '/', '*') {
                stripped_from(s, i + 2, Scan::Block)
            } else if s[i] == '"' {
                seq![s[i]] + stripped_from(s, i + 1, Scan::Quoted)
            } else {
                seq![s[i]] + stripped_from(s, i + 1, Scan::Code)
            },
            Scan::Quoted => if s[i] == '\\' {
                seq![s[i]] + stripped_from(s, i + 1, Scan::Escaped)
            } else if s[i] == '"' {
                seq![s[i]] + stripped_from(s, i + 1, Scan::Code)
            } else {
                seq![s[i]] + stripped_from(s, i + 1, Scan::Quoted)
            },
            Scan::Escaped => seq![s[i]] + stripped_from(s, i + 1, Scan::Quoted),
            Scan::Line => if s[i] == '\n' {
                seq![s[i]] + stripped_from(s, i + 1, Scan::Code)
            } else {
                stripped_from(s, i + 1, Scan::Line)
            },
            Scan::Block => if pair_at(s, i, '*', '/') {
                stripped_from(s, i + 2, Scan::Code)
            } else {
                stripped_from(s, i + 1, Scan::Block)
            },
        }
    }
}

/// The text `s` with its comments removed.
pub open spec fn stripped(s: Seq<char>) -> Seq<char> {
    stripped_from(s, 0, Scan::Code)
}

/// Whether `s[from..to]` holds neither a quote nor a backslash.
pub open spec fn plain_run(s: Seq<char>, from: int, to: int) -> bool {
    forall|k: int| from <= k < to ==> s[k] != '"' && s[k] != '\\'
}

/// Inside quotes nothing is removed: a run of characters without quote or
/// backslash that the scanner enters in state `Quoted` comes out as it went
/// in, comment markers included, and the scanner is still `Quoted` after it.
pub proof fn lemma_quoted_run_is_kept(s: Seq<char>, from: int, to: int)
    requires
        0 <= from <= to <= s.len(),
        plain_run(s, from, to),
    ensures
        stripped_from(s, from, Scan::Quoted) == s.subrange(from, to) + stripped_from(
            s,
            to,
            Scan::Quoted,
        ),
    decreases to - from,
{
    if from == to {
        assert(s.subrange(from, to) + stripped_from(s, to, Scan::Quoted) =~= stripped_from(
            s,
            to,
            Scan::Quoted,
        ));
    } else {
        lemma_quoted_run_is_kept(s, from + 1, to);
        assert(seq![s[from]] + (s.subrange(from + 1, to) + stripped_from(s, to, Scan::Quoted))
            =~= s.subrange(from, to) + stripped_from(s, to, Scan::Quoted));
    }
}

/// A string literal inside a larger text is kept whole: where the scanner
/// meets an opening quote at `open` outside any comment, and the closing
/// quote stands at `close` with neither quote nor backslash between them,
/// everything from quote to quote is kept and the scan goes on after it.
pub proof fn lemma_string_literal_is_kept(s: Seq<char>, open: int, close: int)
    requires
        0 <= open < close < s.len(),
        s[open] == '"',
        s[close] == '"',
        plain_run(s, open + 1, close),
    ensures
        stripped_from(s, open, Scan::Code) == s.subrange(open, close + 1) + stripped_from(
            s,
            close + 1,
            Scan::Code,
        ),
{
    lemma_quoted_run_is_kept(s, open + 1, close);
    let tail = stripped_from(s, close + 1, Scan::Code);
    assert(stripped_from(s, close, Scan::Quoted) == seq![s[close]] + tail);
    assert(stripped_from(s, open, Scan::Code) == seq![s[open]] + stripped_from(
        s,
        open + 1,
        Scan::Quoted,
    ));
    assert(seq![s[open]] + (s.subrange(open + 1, close) + (seq![s[close]] + tail)) =~= s.subrange(
        open,
        close + 1,
    ) + tail);
}

/// A text that holds neither a slash nor a quote has no comment to lose.
pub proof fn lemma_plain_text_unchanged(s: Seq<char>, i: int)
    requires
        0 <= i <= s.len(),
        forall|k: int| i <= k < s.len() ==> s[k] != '/' && s[k] != '"',
    ensures
        stripped_from(s, i, Scan::Code) == s.subrange(i, s.len() as int),
    decreases s.len() - i,
{
    if i < s.len() {
        lemma_plain_text_unchanged(s, i + 1);
        assert(seq![s[i]] + s.subrange(i + 1, s.len() as int) =~= s.subrange(i, s.len() as int));
    } else {
        assert(s.subrange(i, s.len() as int) =~= Seq::<char>::empty());
    }
}

/// A string literal on its own passes through unchanged: for every `body`
/// without quote or backslash, stripping `"body"` gives `"body"` back,
/// whatever comment markers `body` holds.
pub proof fn lemma_string_literal_unchanged(body: Seq<char>)
    requires
        plain_run(body, 0, body.len() as int),
    ensures
        stripped(seq!['"'] + body + seq!['"']) == seq!['"'] + body + seq!['"'],
{
    let s = seq!['"'] + body + seq!['"'];
    let n = body.len() as int;
    assert(s.len() == n + 2);
    assert(s[0] == '"');
    assert(s[n + 1] == '"');
    assert forall|k: int| 1 <= k < n + 1 implies s[k] != '"' && s[k] != '\\' by {
        assert(s[k] == body[k - 1]);
    }
    lemma_quoted_run_is_kept(s, 1, n + 1);
    assert(stripped_from(s, n + 2, Scan::Code) =~= Seq::<char>::empty());
    assert(stripped_from(s, n + 1, Scan::Quoted) =~= seq!['"']);
    assert(stripped_from(s, 0, Scan::Code) == seq![s[0]] + stripped_from(s, 1, Scan::Quoted));
    assert(seq![s[0]] + (s.subrange(1, n + 1) + seq!['"']) =~= s);
}

/// Removes the comments from `input`.
///
/// Outside quotes, `//` starts a comment that runs up to, and not including,
/// the next line feed, and `/*` starts one that runs through the next `*/`,
/// or to the end of the text where none follows. Everything else is kept in
/// order.
pub fn strip_comments(input: &str) -> (out: String)
    ensures
        out@ == stripped(input@),
{
    let v = chars_of(input);
    let n: usize = v.len();
    let mut out = String::new();
    let mut scan = Scan::Code;
    let mut i: usize = 0;
    while i < n
        invariant
            n == v@.len(),
            i <= n,
            out@ + stripped_from(v@, i as int, scan) == stripped(v@),
        decreases n - i,
    {
        let c = v[i];
        let ghost before = out@;
        let ghost rest = stripped_from(v@, i as int, scan);
        let mut step: usize = 1;
        let mut keep = false;
        let mut next = scan;
        match scan {
            Scan::Code => {
                if c == '/' && i + 1 < n && v[i + 1] == '/' {
                    step = 2;
                    next = Scan::Line;
                } else if c == '/' && i + 1 < n && v[i + 1] == '*' {
                    step = 2;
                    next = Scan::Block;
                } else {
                    keep = true;
                    if c == '"' {
                        next = Scan::Quoted;
                    }
                }
            },
            Scan::Quoted => {
                keep = true;
                if c == '\\' {
                    next = Scan::Escaped;
                } else if c == '"' {
                    next = Scan::Code;
                }
            },
            Scan::Escaped => {
                keep = true;
                next = Scan::Quoted;
            },
            Scan::Line => {
                if c == '\n' {
                    keep = true;
                    next = Scan::Code;
                }
            },
            Scan::Block => {
                if c == '*' && i + 1 < n && v[i + 1] == '/' {
                    step = 2;
                    next = Scan::Code;
                }
            },
        }
        proof {
            let tail = stripped_from(v@, i + step, next);
            if keep {
                assert(rest == seq![c] + tail);
                assert(before.push(c) + tail =~= before + rest);
            } else {
                assert(rest == tail);
            }
        }
        if keep {
            out.push(c);
        }
        i = i + step;
        scan = next;
    }
    assert(out@ + stripped_from(v@, n as int, scan) =~= out@);
    out
}

} // verus!
