//! The environment file: lines of `NAME=value` that add to the snapshot.
//!
//! Blank lines and lines that start with `#` are skipped, and so is a line
//! without `=`. Names and values are trimmed, and a value loses the double
//! quotes, then the single quotes, that stand at its ends.

use crate::environment::Env;
use crate::text::{
    chars_of, lemma_offset_to, offset_to, string_of, strip_bounds, stripped_of, trim_bounds,
    trimmed,
};
use vstd::prelude::*;

verus! {

/// A value without the quotes around it.
pub open spec fn unquoted(value: Seq<char>) -> Seq<char> {
    stripped_of(stripped_of(value, '"'), '\'')
}

/// The name and the value that `line` assigns, if it assigns one.
pub open spec fn env_line(line: Seq<char>) -> Option<(Seq<char>, Seq<char>)> {
    let t = trimmed(line);
    let eq = offset_to(t, 0, '=') as int;
    if t.len() == 0 || t[0] == '#' || eq >= t.len() {
        None
    } else {
        Some((trimmed(t.subrange(0, eq)), unquoted(trimmed(t.subrange(eq + 1, t.len() as int)))))
    }
}

/// The snapshot `env` after the lines of `s[from..]` have been read into
/// it, one after the other.
pub open spec fn loaded(s: Seq<char>, from: int, env: Map<Seq<char>, Seq<char>>) -> Map<
    Seq<char>,
    Seq<char>,
>
    decreases s.len() - from,
{
    if from < 0 || from > s.len() {
        env
    } else {
        let end = from + offset_to(s, from, '\n');
        let next = match env_line(s.subrange(from, end)) {
            Some(pair) => env.insert(pair.0, pair.1),
            None => env,
        };
        if end >= s.len() {
            next
        } else {
            loaded(s, end + 1, next)
        }
    }
}

/// Reads the line `v[from..to]`.
pub fn parse_env_slice(v: &Vec<char>, from: usize, to: usize) -> (r: Option<(String, String)>)
    requires
        from <= to <= v@.len(),
    ensures
        match r {
            Some((name, value)) => env_line(v@.subrange(from as int, to as int)) == Some(
                (name@, value@),
            ),
            None => env_line(v@.subrange(from as int, to as int)) is None,
        },
{
    let (lo, hi) = trim_bounds(v, from, to);
    let ghost t = v@.subrange(lo as int, hi as int);
    if lo == hi || v[lo] == '#' {
        return None;
    }
    let mut eq: usize = lo;
    while eq < hi && v[eq] != '='
        invariant
            lo <= eq <= hi <= v@.len(),
            forall|k: int| lo <= k < eq ==> v@[k] != '=',
        decreases hi - eq,
    {
        eq = eq + 1;
    }
    proof {
        assert forall|k: int| 0 <= k < eq - lo implies t[k] != '=' by {
            assert(t[k] == v@[lo + k]);
        }
        lemma_offset_to(t, 0, eq - lo, '=');
    }
    if eq == hi {
        return None;
    }
    let (name_lo, name_hi) = trim_bounds(v, lo, eq);
    let (a, b) = trim_bounds(v, eq + 1, hi);
    let (c, d) = strip_bounds(v, a, b, '"');
    let (e, f) = strip_bounds(v, c, d, '\'');
    proof {
        assert(t.subrange(0, eq - lo) =~= v@.subrange(lo as int, eq as int));
        assert(t.subrange(eq - lo + 1, t.len() as int) =~= v@.subrange(eq + 1, hi as int));
    }
    Some((string_of(v, name_lo, name_hi), string_of(v, e, f)))
}

/// Reads one line of an environment file.
pub fn parse_env_line(line: &str) -> (r: Option<(String, String)>)
    ensures
        match r {
            Some((name, value)) => env_line(line@) == Some((name@, value@)),
            None => env_line(line@) is None,
        },
{
    let v = chars_of(line);
    assert(v@.subrange(0, v@.len() as int) =~= v@);
    parse_env_slice(&v, 0, v.len())
}

/// Reads the text of an environment file into `env`: each line that
/// assigns a value binds its name, replacing what the name was bound to.
pub fn load_env_text(content: &str, env: &mut Env)
    ensures
        final(env)@ == loaded(content@, 0, old(env)@),
{
    let v = chars_of(content);
    let n: usize = v.len();
    let mut from: usize = 0;
    loop
        invariant
            v@ == content@,
            n == v@.len(),
            from <= n,
            loaded(v@, from as int, env@) == loaded(v@, 0, old(env)@),
        decreases n - from,
    {
        let mut end: usize = from;
        while end < n && v[end] != '\n'
            invariant
                n == v@.len(),
                from <= end <= n,
                forall|k: int| from <= k < end ==> v@[k] != '\n',
            decreases n - end,
        {
            end = end + 1;
        }
        proof {
            lemma_offset_to(v@, from as int, end as int, '\n');
        }
        match parse_env_slice(&v, from, end) {
            Some((name, value)) => {
                env.insert(name.as_str(), value.as_str());
            },
            None => {},
        }
        if end >= n {
            return ;
        }
        from = end + 1;
    }
}

} // verus!
