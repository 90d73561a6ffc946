//! The two placeholder forms that a string value may hold.
//!
//! A *structural* placeholder is a whole string that, once trimmed, reads
//! `{{NAME}}`. An *interpolation* placeholder is a `${NAME}` anywhere inside
//! a string: it is replaced by the raw text of the variable, or by nothing
//! where the variable is missing.

use crate::environment::Env;
use crate::text::{
    all_space, alphanumeric, chars_of, is_alphanumeric, is_space, lemma_offset_to,
    lemma_trimmed_padding, offset_to, pair_at, string_of, trim_bounds, trimmed,
};
use crate::warning::{note, warning_views, Warning, WarningView};
use vstd::prelude::*;
use vstd::string::StrSliceExecFns;
use vstd::string::StringExecFns;

verus! {

/// Whether `t` opens with `{{`, closes with `}}`, and the two do not overlap.
pub open spec fn is_braced(t: Seq<char>) -> bool {
    &&& t.len() >= 4
    &&& t[0] == '{'
    &&& t[1] == '{'
    &&& t[t.len() - 2] == '}'
    &&& t[t.len() - 1] == '}'
}

/// The name of the structural placeholder that `s` is, if it is one: `s`
/// trimmed must be braced, and the name is what stands between the braces,
/// trimmed.
pub open spec fn placeholder_name(s: Seq<char>) -> Option<Seq<char>> {
    let t = trimmed(s);
    if is_braced(t) {
        Some(trimmed(t.subrange(2, t.len() - 2)))
    } else {
        None
    }
}

/// White space around a placeholder does not count: a braced text with
/// white space on either side is the same placeholder as the braced text
/// alone.
pub proof fn lemma_padded_placeholder(left: Seq<char>, t: Seq<char>, right: Seq<char>)
    requires
        all_space(left),
        all_space(right),
        is_braced(t),
    ensures
        placeholder_name(left + t + right) == Some(trimmed(t.subrange(2, t.len() - 2))),
        placeholder_name(left + t + right) == placeholder_name(t),
{
    lemma_trimmed_padding(left, t, right);
    assert(Seq::<char>::empty() + t + Seq::<char>::empty() =~= t);
    lemma_trimmed_padding(Seq::empty(), t, Seq::empty());
}

/// A placeholder is a whole value or none: text before the opening braces,
/// or after the closing ones, that is not white space leaves an ordinary
/// string.
pub proof fn lemma_embedded_is_no_placeholder(s: Seq<char>)
    requires
        s.len() > 0,
        !is_space(s[0]),
        !is_space(s.last()),
        s[0] != '{' || s.last() != '}',
    ensures
        placeholder_name(s) is None,
{
    assert(Seq::<char>::empty() + s + Seq::<char>::empty() =~= s);
    lemma_trimmed_padding(Seq::empty(), s, Seq::empty());
}

/// The bounds of the placeholder's name within `v`, if `v` is a structural
/// placeholder.
pub fn placeholder_bounds(v: &Vec<char>) -> (r: Option<(usize, usize)>)
    ensures
        match r {
            Some((from, to)) => from <= to <= v@.len() && placeholder_name(v@) == Some(
                v@.subrange(from as int, to as int),
            ),
            None => placeholder_name(v@) is None,
        },
{
    let (lo, hi) = trim_bounds(v, 0, v.len());
    assert(v@.subrange(0, v@.len() as int) =~= v@);
    let ghost t = v@.subrange(lo as int, hi as int);
    if hi - lo >= 4 && v[lo] == '{' && v[lo + 1] == '{' && v[hi - 2] == '}' && v[hi - 1] == '}' {
        let (from, to) = trim_bounds(v, lo + 2, hi - 2);
        assert(t.subrange(2, t.len() - 2) =~= v@.subrange(lo + 2, hi - 2));
        Some((from, to))
    } else {
        None
    }
}

/// The name of the structural placeholder that `s` is, or `None` where `s`
/// is an ordinary string.
pub fn extract_structural_placeholder(s: &str) -> (name: Option<&str>)
    ensures
        match name {
            Some(n) => placeholder_name(s@) == Some(n@),
            None => placeholder_name(s@) is None,
        },
{
    let v = chars_of(s);
    match placeholder_bounds(&v) {
        Some((from, to)) => Some(s.substring_char(from, to)),
        None => None,
    }
}

/// Whether `c` may stand in a variable's name.
pub open spec fn is_name_char(c: char) -> bool {
    alphanumeric(c) || c == '_'
}

/// Whether `name` is made of name characters only. The empty name is one.
pub open spec fn is_name(name: Seq<char>) -> bool {
    forall|i: int| 0 <= i < name.len() ==> is_name_char(#[trigger] name[i])
}

/// The raw text of `name` in `env`, empty where it has none.
pub open spec fn value_or_empty(env: Map<Seq<char>, Seq<char>>, name: Seq<char>) -> Seq<char> {
    if env.contains_key(name) {
        env[name]
    } else {
        Seq::empty()
    }
}

/// What `s[i..]` becomes under interpolation.
///
/// At a `${` the next `}` is sought. Without one the rest stays as it is.
/// With one, and a name between them, the variable's text takes the place of
/// all three and the scan goes on after the `}`: what was put in is not read
/// again. Where the text between them is no name, the `${` stays and the
/// scan goes on just after it.
pub open spec fn interpolated_from(s: Seq<char>, i: int, env: Map<Seq<char>, Seq<char>>) -> Seq<
    char,
>
    decreases s.len() - i,
{
    if i < 0 || i >= s.len() {
        Seq::empty()
    } else if pair_at(s, i, '$', '{') {
        let close = i + 2 + offset_to(s, i + 2, '}');
        if close >= s.len() {
            s.subrange(i, s.len() as int)
        } else if is_name(s.subrange(i + 2, close)) {
            value_or_empty(env, s.subrange(i + 2, close)) + interpolated_from(s, close + 1, env)
        } else {
            s.subrange(i, i + 2) + interpolated_from(s, i + 2, env)
        }
    } else {
        s.subrange(i, i + 1) + interpolated_from(s, i + 1, env)
    }
}

/// The warnings that interpolating `s[i..]` gives rise to: one for each
/// `${NAME}` whose variable is missing, in the order in which they stand.
pub open spec fn missing_from(s: Seq<char>, i: int, env: Map<Seq<char>, Seq<char>>) -> Seq<
    WarningView,
>
    decreases s.len() - i,
{
    if i < 0 || i >= s.len() {
        Seq::empty()
    } else if pair_at(s, i, '$', '{') {
        let close = i + 2 + offset_to(s, i + 2, '}');
        if close >= s.len() {
            Seq::empty()
        } else if is_name(s.subrange(i + 2, close)) {
            missing_one(env, s.subrange(i + 2, close)) + missing_from(s, close + 1, env)
        } else {
            missing_from(s, i + 2, env)
        }
    } else {
        missing_from(s, i + 1, env)
    }
}

/// The warning for `name`, if `env` lacks it.
pub open spec fn missing_one(env: Map<Seq<char>, Seq<char>>, name: Seq<char>) -> Seq<WarningView> {
    if env.contains_key(name) {
        Seq::empty()
    } else {
        seq![WarningView::MissingVariable(name)]
    }
}

/// The warnings that interpolating `s` gives rise to.
pub open spec fn missing(s: Seq<char>, env: Map<Seq<char>, Seq<char>>) -> Seq<WarningView> {
    missing_from(s, 0, env)
}

/// The string `s` with every `${NAME}` replaced.
pub open spec fn interpolated(s: Seq<char>, env: Map<Seq<char>, Seq<char>>) -> Seq<char> {
    interpolated_from(s, 0, env)
}

/// Whether no `${` starts in `s[from..]`.
pub open spec fn no_opening(s: Seq<char>, from: int) -> bool {
    forall|k: int| from <= k ==> !pair_at(s, k, '$', '{')
}

/// Interpolation touches nothing but `${`: a string without that pair comes
/// out as it went in, whatever the environment holds and whatever braces or
/// dollar signs stand in it.
pub proof fn lemma_without_opening_unchanged(s: Seq<char>, i: int, env: Map<Seq<char>, Seq<char>>)
    requires
        0 <= i <= s.len(),
        no_opening(s, i),
    ensures
        interpolated_from(s, i, env) == s.subrange(i, s.len() as int),
    decreases s.len() - i,
{
    if i < s.len() {
        assert(!pair_at(s, i, '$', '{'));
        lemma_without_opening_unchanged(s, i + 1, env);
        assert(s.subrange(i, i + 1) + s.subrange(i + 1, s.len() as int) =~= s.subrange(
            i,
            s.len() as int,
        ));
    } else {
        assert(s.subrange(i, s.len() as int) =~= Seq::<char>::empty());
    }
}

/// A `${NAME}` whose variable is missing leaves nothing behind: for every
/// name that the environment lacks, `${` + name + `}` renders as the empty
/// string.
pub proof fn lemma_missing_variable_is_empty(name: Seq<char>, env: Map<Seq<char>, Seq<char>>)
    requires
        is_name(name),
        forall|k: int| 0 <= k < name.len() ==> name[k] != '}',
        !env.contains_key(name),
    ensures
        interpolated(seq!['$', '{'] + name + seq!['}'], env) == Seq::<char>::empty(),
{
    let s = seq!['$', '{'] + name + seq!['}'];
    let n = name.len() as int;
    assert(s.len() == n + 3);
    assert(s[0] == '$' && s[1] == '{');
    assert(s[n + 2] == '}');
    lemma_offset_to(s, 2, n + 2, '}');
    assert(s.subrange(2, n + 2) =~= name);
    assert(interpolated_from(s, n + 3, env) =~= Seq::<char>::empty());
    assert(value_or_empty(env, name) + Seq::<char>::empty() =~= Seq::<char>::empty());
}

/// Appends `v[from..to]` to `out`.
pub fn push_chars(out: &mut String, v: &Vec<char>, from: usize, to: usize)
    requires
        from <= to <= v@.len(),
    ensures
        final(out)@ == old(out)@ + v@.subrange(from as int, to as int),
{
    let mut i: usize = from;
    assert(out@ + v@.subrange(from as int, i as int) =~= out@);
    while i < to
        invariant
            from <= i <= to <= v@.len(),
            out@ == old(out)@ + v@.subrange(from as int, i as int),
        decreases to - i,
    {
        out.push(v[i]);
        i = i + 1;
        assert(out@ =~= old(out)@ + v@.subrange(from as int, i as int));
    }
}

/// Replaces every `${NAME}` in `s` by the text of `NAME` in `env`.
pub fn interpolate_string(s: &str, env: &Env) -> (out: String)
    ensures
        out@ == interpolated(s@, env@),
{
    let v = chars_of(s);
    let mut unused: Vec<Warning> = Vec::new();
    interpolate_chars(&v, env, &mut unused)
}

/// Replaces every `${NAME}` in `v` by the text of `NAME` in `env`, and adds
/// to `warnings` one warning for each name that `env` lacks.
pub fn interpolate_chars(v: &Vec<char>, env: &Env, warnings: &mut Vec<Warning>) -> (out: String)
    ensures
        out@ == interpolated(v@, env@),
        warning_views(final(warnings)@) == warning_views(old(warnings)@) + missing(v@, env@),
{
    let n: usize = v.len();
    let mut out = String::new();
    let mut i: usize = 0;
    let ghost told = warning_views(warnings@);
    while i < n
        invariant
            n == v@.len(),
            i <= n,
            out@ + interpolated_from(v@, i as int, env@) == interpolated(v@, env@),
            warning_views(warnings@) + missing_from(v@, i as int, env@) == told + missing(
                v@,
                env@,
            ),
        decreases n - i,
    {
        let ghost before = out@;
        let ghost rest = interpolated_from(v@, i as int, env@);
        let ghost said = warning_views(warnings@);
        if v[i] == '$' && i + 1 < n && v[i + 1] == '{' {
            let mut j: usize = i + 2;
            let mut named = true;
            while j < n && v[j] != '}'
                invariant
                    n == v@.len(),
                    i + 2 <= j <= n,
                    forall|k: int| i + 2 <= k < j ==> v@[k] != '}',
                    named == is_name(v@.subrange(i + 2, j as int)),
                decreases n - j,
            {
                let c = v[j];
                let ghost seen = v@.subrange(i + 2, j as int);
                let ghost more = v@.subrange(i + 2, j + 1);
                let ok = c == '_' || is_alphanumeric(c);
                proof {
                    assert(more.last() == c);
                    assert forall|k: int| 0 <= k < seen.len() implies seen[k] == more[k] by {}
                    if is_name(more) {
                        assert forall|k: int| 0 <= k < seen.len() implies is_name_char(
                            #[trigger] seen[k],
                        ) by {
                            assert(seen[k] == more[k]);
                        }
                    }
                    if is_name(seen) && ok {
                        assert forall|k: int| 0 <= k < more.len() implies is_name_char(
                            #[trigger] more[k],
                        ) by {
                            if k < seen.len() {
                                assert(seen[k] == more[k]);
                            }
                        }
                    }
                    if !ok {
                        assert(more[more.len() - 1] == c);
                    }
                }
                named = named && ok;
                j = j + 1;
            }
            proof {
                lemma_offset_to(v@, i + 2, j as int, '}');
            }
            if j >= n {
                push_chars(&mut out, v, i, n);
                assert(before + rest =~= out@ + interpolated_from(v@, n as int, env@));
                i = n;
            } else if named {
                match env.lookup(v, i + 2, j) {
                    Some(text) => {
                        out.append(text.as_str());
                        assert(said + Seq::<WarningView>::empty() =~= said);
                    },
                    None => {
                        note(warnings, Warning::MissingVariable(string_of(v, i + 2, j)));
                    },
                }
                assert(before + rest =~= out@ + interpolated_from(v@, j + 1, env@));
                assert(warning_views(warnings@) + missing_from(v@, j + 1, env@) =~= said
                    + missing_from(v@, i as int, env@));
                i = j + 1;
            } else {
                push_chars(&mut out, v, i, i + 2);
                assert(before + rest =~= out@ + interpolated_from(v@, i + 2, env@));
                i = i + 2;
            }
        } else {
            push_chars(&mut out, v, i, i + 1);
            assert(before + rest =~= out@ + interpolated_from(v@, i + 1, env@));
            i = i + 1;
        }
    }
    assert(out@ + interpolated_from(v@, n as int, env@) =~= out@);
    assert(warning_views(warnings@) + missing_from(v@, n as int, env@) =~= warning_views(
        warnings@,
    ));
    out
}

} // verus!
