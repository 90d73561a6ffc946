//! Character-level helpers shared by the renderer and the PID record parser.

use vstd::prelude::*;

verus! {

/// Whether `c` carries the Unicode `White_Space` property.
pub open spec fn is_space(c: char) -> bool {
    let n = c as u32;
    ||| 0x09 <= n <= 0x0D
    ||| n == 0x20
    ||| n == 0x85
    ||| n == 0xA0
    ||| n == 0x1680
    ||| 0x2000 <= n <= 0x200A
    ||| n == 0x2028
    ||| n == 0x2029
    ||| n == 0x202F
    ||| n == 0x205F
    ||| n == 0x3000
}

/// Executable form of [`is_space`].
pub fn is_whitespace(c: char) -> (b: bool)
    ensures
        b == is_space(c),
{
    let n: u32 = c as u32;
    (0x09 <= n && n <= 0x0D) || n == 0x20 || n == 0x85 || n == 0xA0 || n == 0x1680 || (0x2000 <= n
        && n <= 0x200A) || n == 0x2028 || n == 0x2029 || n == 0x202F || n == 0x205F || n == 0x3000
}

/// `s` without its leading white space.
pub open spec fn trim_start(s: Seq<char>) -> Seq<char>
    decreases s.len(),
{
    if s.len() > 0 && is_space(s[0]) {
        trim_start(s.drop_first())
    } else {
        s
    }
}

/// `s` without its trailing white space.
pub open spec fn trim_end(s: Seq<char>) -> Seq<char>
    decreases s.len(),
{
    if s.len() > 0 && is_space(s.last()) {
        trim_end(s.drop_last())
    } else {
        s
    }
}

/// `s` without leading and trailing white space.
pub open spec fn trimmed(s: Seq<char>) -> Seq<char> {
    trim_end(trim_start(s))
}

/// Whether the two characters `a`, `b` stand at position `i` of `s`.
pub open spec fn pair_at(s: Seq<char>, i: int, a: char, b: char) -> bool {
    0 <= i && i + 1 < s.len() && s[i] == a && s[i + 1] == b
}

/// The characters of `s`, in order.
pub fn chars_of(s: &str) -> (v: Vec<char>)
    ensures
        v@ == s@,
{
    let n: usize = s.unicode_len();
    let mut v: Vec<char> = Vec::new();
    let mut i: usize = 0;
    while i < n
        invariant
            n == s@.len(),
            i <= n,
            v@ == s@.subrange(0, i as int),
        decreases n - i,
    {
        v.push(s.get_char(i));
        i = i + 1;
        assert(v@ =~= s@.subrange(0, i as int));
    }
    assert(s@.subrange(0, n as int) =~= s@);
    v
}

/// Appending one character to a string: `String::push` adds `c` at the end
/// and leaves what was there untouched.
pub assume_specification[ String::push ](s: &mut String, c: char)
    ensures
        final(s)@ == old(s)@.push(c),
;

/// The string made of `v[from..to]`.
pub fn string_of(v: &Vec<char>, from: usize, to: usize) -> (s: String)
    requires
        from <= to <= v@.len(),
    ensures
        s@ == v@.subrange(from as int, to as int),
{
    let mut s = String::new();
    let mut i: usize = from;
    while i < to
        invariant
            from <= i <= to <= v@.len(),
            s@ == v@.subrange(from as int, i as int),
        decreases to - i,
    {
        s.push(v[i]);
        i = i + 1;
        assert(s@ =~= v@.subrange(from as int, i as int));
    }
    s
}

/// The bounds `(lo, hi)` of `v[from..to]` once trimmed on both sides.
pub fn trim_bounds(v: &Vec<char>, from: usize, to: usize) -> (r: (usize, usize))
    requires
        from <= to <= v@.len(),
    ensures
        from <= r.0 <= r.1 <= to,
        v@.subrange(r.0 as int, r.1 as int) == trimmed(v@.subrange(from as int, to as int)),
{
    let mut lo: usize = from;
    while lo < to && is_whitespace(v[lo])
        invariant
            from <= lo <= to <= v@.len(),
            trim_start(v@.subrange(from as int, to as int)) == trim_start(
                v@.subrange(lo as int, to as int),
            ),
        decreases to - lo,
    {
        assert(v@.subrange(lo as int, to as int).drop_first() =~= v@.subrange(
            lo as int + 1,
            to as int,
        ));
        lo = lo + 1;
    }
    let mut hi: usize = to;
    while lo < hi && is_whitespace(v[hi - 1])
        invariant
            from <= lo <= hi <= to <= v@.len(),
            trim_start(v@.subrange(from as int, to as int)) == v@.subrange(lo as int, to as int),
            trim_end(v@.subrange(lo as int, to as int)) == trim_end(
                v@.subrange(lo as int, hi as int),
            ),
        decreases hi - lo,
    {
        assert(v@.subrange(lo as int, hi as int).drop_last() =~= v@.subrange(
            lo as int,
            hi as int - 1,
        ));
        hi = hi - 1;
    }
    (lo, hi)
}

/// Whether `char::is_alphanumeric` holds of `c`: whether `c` is a letter or a
/// number by the Unicode tables that std carries.
pub uninterp spec fn alphanumeric(c: char) -> bool;

/// Calls `char::is_alphanumeric`. The result depends on `c` alone; the
/// contract gives it its name and says nothing more of it.
#[verifier::external_body]
pub(crate) fn is_alphanumeric(c: char) -> (b: bool)
    ensures
        b == alphanumeric(c),
{
    c.is_alphanumeric()
}

/// Whether `a` and `v[from..to]` hold the same characters.
pub fn same_chars(a: &Vec<char>, v: &Vec<char>, from: usize, to: usize) -> (b: bool)
    requires
        from <= to <= v@.len(),
    ensures
        b == (a@ == v@.subrange(from as int, to as int)),
{
    if a.len() != to - from {
        return false;
    }
    let mut i: usize = 0;
    while i < a.len()
        invariant
            from <= to <= v@.len(),
            a@.len() == to - from,
            i <= a@.len(),
            a@.subrange(0, i as int) == v@.subrange(from as int, from + i),
        decreases a@.len() - i,
    {
        if a[i] != v[from + i] {
            assert(v@.subrange(from as int, to as int)[i as int] == v@[from + i]);
            return false;
        }
        i = i + 1;
        assert(a@.subrange(0, i as int) =~= v@.subrange(from as int, from + i));
    }
    assert(a@.subrange(0, i as int) =~= a@);
    true
}

/// Whether `s` is made of white space only.
pub open spec fn all_space(s: Seq<char>) -> bool {
    forall|i: int| 0 <= i < s.len() ==> is_space(#[trigger] s[i])
}

/// Leading white space does not count: `trim_start(pad + s) == trim_start(s)`.
pub proof fn lemma_trim_start_skips(pad: Seq<char>, s: Seq<char>)
    requires
        all_space(pad),
    ensures
        trim_start(pad + s) == trim_start(s),
    decreases pad.len(),
{
    if pad.len() == 0 {
        assert(pad + s =~= s);
    } else {
        assert(is_space(pad[0]));
        assert((pad + s)[0] == pad[0]);
        assert((pad + s).drop_first() =~= pad.drop_first() + s);
        lemma_trim_start_skips(pad.drop_first(), s);
    }
}

/// Trailing white space does not count: `trim_end(s + pad) == trim_end(s)`.
pub proof fn lemma_trim_end_skips(s: Seq<char>, pad: Seq<char>)
    requires
        all_space(pad),
    ensures
        trim_end(s + pad) == trim_end(s),
    decreases pad.len(),
{
    if pad.len() == 0 {
        assert(s + pad =~= s);
    } else {
        assert(is_space(pad[pad.len() - 1]));
        assert((s + pad).last() == pad.last());
        assert((s + pad).drop_last() =~= s + pad.drop_last());
        lemma_trim_end_skips(s, pad.drop_last());
    }
}

/// White space around a text that neither starts nor ends with white space
/// is all that trimming removes.
pub proof fn lemma_trimmed_padding(left: Seq<char>, s: Seq<char>, right: Seq<char>)
    requires
        all_space(left),
        all_space(right),
        s.len() > 0,
        !is_space(s[0]),
        !is_space(s.last()),
    ensures
        trimmed(left + s + right) == s,
{
    assert(left + s + right =~= left + (s + right));
    lemma_trim_start_skips(left, s + right);
    assert((s + right)[0] == s[0]);
    lemma_trim_end_skips(s, right);
}

/// The character that writes the digit `d`.
pub open spec fn digit_char(d: nat) -> char {
    ((48 + d) as u8) as char
}

/// The decimal writing of `n`, without leading zeros.
pub open spec fn decimal(n: nat) -> Seq<char>
    decreases n,
{
    if n < 10 {
        seq![digit_char(n)]
    } else {
        decimal(n / 10).push(digit_char(n % 10))
    }
}

/// `s` read from its end to its start.
pub open spec fn backwards(s: Seq<char>) -> Seq<char>
    decreases s.len(),
{
    if s.len() == 0 {
        Seq::empty()
    } else {
        seq![s.last()] + backwards(s.drop_last())
    }
}

/// Writes `n` in decimal.
pub fn decimal_text(n: u64) -> (out: String)
    ensures
        out@ == decimal(n as nat),
{
    let mut digits: Vec<char> = Vec::new();
    let first: u8 = 48 + (n % 10) as u8;
    digits.push(first as char);
    let mut rest: u64 = n / 10;
    proof {
        assert(digits@.drop_last() =~= Seq::<char>::empty());
        assert(backwards(digits@.drop_last()) =~= Seq::<char>::empty());
        assert(digits@.last() == digit_char((n % 10) as nat));
        assert(backwards(digits@) =~= seq![digit_char((n % 10) as nat)]);
        if rest > 0 {
            assert(decimal(rest as nat) + backwards(digits@) =~= decimal(n as nat));
        }
    }
    while rest > 0
        invariant
            rest > 0 ==> decimal(n as nat) == decimal(rest as nat) + backwards(digits@),
            rest == 0 ==> decimal(n as nat) == backwards(digits@),
        decreases rest,
    {
        let ghost before = digits@;
        let d: u8 = 48 + (rest % 10) as u8;
        digits.push(d as char);
        proof {
            assert(digits@.drop_last() =~= before);
            assert(backwards(digits@) == seq![digit_char((rest % 10) as nat)] + backwards(before));
            if rest >= 10 {
                assert(decimal((rest / 10) as nat).push(digit_char((rest % 10) as nat))
                    + backwards(before) =~= decimal((rest / 10) as nat) + backwards(digits@));
            } else {
                assert(seq![digit_char(rest as nat)] + backwards(before) =~= backwards(digits@));
            }
        }
        rest = rest / 10;
    }
    let mut out = String::new();
    let mut k: usize = digits.len();
    assert(digits@.subrange(0, k as int) =~= digits@);
    assert(out@ + backwards(digits@) =~= backwards(digits@));
    while k > 0
        invariant
            k <= digits@.len(),
            out@ + backwards(digits@.subrange(0, k as int)) == backwards(digits@),
        decreases k,
    {
        let ghost head = digits@.subrange(0, k as int);
        let ghost before = out@;
        assert(head.drop_last() =~= digits@.subrange(0, k - 1));
        assert(head.last() == digits@[k - 1]);
        k = k - 1;
        out.push(digits[k]);
        assert(out@ + backwards(digits@.subrange(0, k as int)) =~= before + backwards(head));
    }
    assert(out@ + backwards(digits@.subrange(0, 0)) =~= out@);
    out
}

/// Whether `pattern` stands in `s` at position `i`.
pub open spec fn occurs_at(s: Seq<char>, pattern: Seq<char>, i: int) -> bool {
    0 <= i && i + pattern.len() <= s.len() && s.subrange(i, i + pattern.len()) == pattern
}

/// Whether `pattern` stands somewhere in `s`.
pub open spec fn contains(s: Seq<char>, pattern: Seq<char>) -> bool {
    exists|i: int| occurs_at(s, pattern, i)
}

/// Whether `pattern` stands somewhere in `s`.
pub fn contains_text(s: &str, pattern: &str) -> (found: bool)
    ensures
        found == contains(s@, pattern@),
{
    let v = chars_of(s);
    let p = chars_of(pattern);
    if p.len() > v.len() {
        return false;
    }
    let last: usize = v.len() - p.len();
    let mut i: usize = 0;
    loop
        invariant
            v@ == s@,
            p@ == pattern@,
            last + p@.len() == v@.len(),
            v@.len() <= usize::MAX,
            i <= last,
            forall|k: int| 0 <= k < i ==> !occurs_at(v@, p@, k),
        decreases last - i,
    {
        if same_chars(&p, &v, i, i + p.len()) {
            assert(occurs_at(v@, p@, i as int));
            return true;
        }
        if i == last {
            return false;
        }
        i = i + 1;
    }
}

/// How many characters stand between position `i` of `s` and the next `c`,
/// or the end of `s` where none follows.
pub open spec fn offset_to(s: Seq<char>, i: int, c: char) -> nat
    decreases s.len() - i,
{
    if i < 0 || i >= s.len() || s[i] == c {
        0
    } else {
        1 + offset_to(s, i + 1, c)
    }
}

/// Where no `c` stands in `s[from..to]`, and one stands at `to` unless `s`
/// ends there, the next `c` after `from` is `to - from` characters away.
pub proof fn lemma_offset_to(s: Seq<char>, from: int, to: int, c: char)
    requires
        0 <= from <= to <= s.len(),
        forall|k: int| from <= k < to ==> s[k] != c,
        to < s.len() ==> s[to] == c,
    ensures
        offset_to(s, from, c) == to - from,
    decreases to - from,
{
    if from < to {
        lemma_offset_to(s, from + 1, to, c);
    }
}

/// `s` without the `c`s that it starts with.
pub open spec fn strip_start(s: Seq<char>, c: char) -> Seq<char>
    decreases s.len(),
{
    if s.len() > 0 && s[0] == c {
        strip_start(s.drop_first(), c)
    } else {
        s
    }
}

/// `s` without the `c`s that it ends with.
pub open spec fn strip_end(s: Seq<char>, c: char) -> Seq<char>
    decreases s.len(),
{
    if s.len() > 0 && s.last() == c {
        strip_end(s.drop_last(), c)
    } else {
        s
    }
}

/// `s` without the `c`s at either end.
pub open spec fn stripped_of(s: Seq<char>, c: char) -> Seq<char> {
    strip_end(strip_start(s, c), c)
}

/// The bounds `(lo, hi)` of `v[from..to]` once the `c`s at either end are
/// taken off.
pub fn strip_bounds(v: &Vec<char>, from: usize, to: usize, c: char) -> (r: (usize, usize))
    requires
        from <= to <= v@.len(),
    ensures
        from <= r.0 <= r.1 <= to,
        v@.subrange(r.0 as int, r.1 as int) == stripped_of(v@.subrange(from as int, to as int), c),
{
    let mut lo: usize = from;
    while lo < to && v[lo] == c
        invariant
            from <= lo <= to <= v@.len(),
            strip_start(v@.subrange(from as int, to as int), c) == strip_start(
                v@.subrange(lo as int, to as int),
                c,
            ),
        decreases to - lo,
    {
        assert(v@.subrange(lo as int, to as int).drop_first() =~= v@.subrange(
            lo as int + 1,
            to as int,
        ));
        lo = lo + 1;
    }
    let mut hi: usize = to;
    while lo < hi && v[hi - 1] == c
        invariant
            from <= lo <= hi <= to <= v@.len(),
            strip_start(v@.subrange(from as int, to as int), c) == v@.subrange(
                lo as int,
                to as int,
            ),
            strip_end(v@.subrange(lo as int, to as int), c) == strip_end(
                v@.subrange(lo as int, hi as int),
                c,
            ),
        decreases hi - lo,
    {
        assert(v@.subrange(lo as int, hi as int).drop_last() =~= v@.subrange(
            lo as int,
            hi as int - 1,
        ));
        hi = hi - 1;
    }
    (lo, hi)
}

} // verus!
