//! The template renderer: from template text and an environment snapshot to
//! a configuration document.
//!
//! Comments are stripped, the text is parsed, and the document is rewritten
//! bottom-up: a string that is a structural placeholder gives way to the
//! value parsed from its variable, inside an array an array so obtained is
//! spliced in, and every other string is interpolated. A variable's value
//! may itself hold placeholders; how deep such references may nest is
//! bounded, so that a variable that refers to itself ends in an error rather
//! than in an endless walk.

use crate::comments::{strip_comments, stripped};
use crate::document::{
    canonical, clone_number, json_parse, json_pretty, lemma_array_view, lemma_object_view,
    member_views, parse_document, views, write_document, Document, DocumentView, Member,
    MemberView,
};
use crate::environment::Env;
use crate::placeholder::{
    interpolate_chars, interpolated, lemma_without_opening_unchanged, missing, no_opening,
    placeholder_bounds, placeholder_name,
};
use crate::text::{chars_of, string_of, trim_bounds, trimmed};
use crate::warning::{note, warning_views, Warning, WarningView};
use vstd::prelude::*;

verus! {

/// How many structural references may nest: a variable whose value holds a
/// placeholder whose variable's value holds a placeholder, and so on.
pub const MAX_NESTING: usize = 32;

/// Why rendering failed.
#[derive(Debug)]
pub enum RenderError {
    /// The template, once stripped of comments, is not valid JSON.
    Template(serde_json::Error),
    /// The value of the variable `name` is not valid JSON.
    Variable { name: String, cause: serde_json::Error },
    /// Structural references nest deeper than [`MAX_NESTING`].
    TooDeep,
    /// The rendered document could not be written out as text.
    Output(serde_json::Error),
}

/// The mathematical model of a [`RenderError`].
pub enum Fault {
    Template,
    Variable(Seq<char>),
    TooDeep,
    Output,
}

impl View for RenderError {
    type V = Fault;

    open spec fn view(&self) -> Fault {
        match self {
            RenderError::Template(_) => Fault::Template,
            RenderError::Variable { name, .. } => Fault::Variable(name@),
            RenderError::TooDeep => Fault::TooDeep,
            RenderError::Output(_) => Fault::Output,
        }
    }
}

/// What the variable `name` resolves to: nothing where it is missing or
/// blank, else the document that its trimmed text parses to, and a fault
/// where that text does not parse.
pub open spec fn resolved(name: Seq<char>, env: Map<Seq<char>, Seq<char>>) -> Result<
    Option<DocumentView>,
    Fault,
> {
    if !env.contains_key(name) || trimmed(env[name]).len() == 0 {
        Ok(None)
    } else {
        match json_parse(trimmed(env[name])) {
            Some(d) => Ok(Some(d)),
            None => Err(Fault::Variable(name)),
        }
    }
}

/// The name of the structural placeholder that `d` is, if it is one.
pub open spec fn reference(d: DocumentView) -> Option<Seq<char>> {
    match d {
        DocumentView::Text(s) => placeholder_name(s),
        _ => None,
    }
}

/// The document that `d` renders to when `depth` more levels of structural
/// references may be followed.
pub open spec fn transformed(
    d: DocumentView,
    env: Map<Seq<char>, Seq<char>>,
    depth: nat,
) -> Result<DocumentView, Fault>
    decreases depth, d, 0nat,
{
    match d {
        DocumentView::Text(s) => match placeholder_name(s) {
            Some(name) => match resolved(name, env) {
                Err(e) => Err(e),
                Ok(None) => Ok(d),
                Ok(Some(found)) => if depth == 0 {
                    Err(Fault::TooDeep)
                } else {
                    transformed(found, env, (depth - 1) as nat)
                },
            },
            None => Ok(DocumentView::Text(interpolated(s, env))),
        },
        DocumentView::Array(items) => match spliced(items, items.len(), env, depth) {
            Ok(out) => Ok(DocumentView::Array(out)),
            Err(e) => Err(e),
        },
        DocumentView::Object(members) => match mapped(members, members.len(), env, depth) {
            Ok(out) => Ok(DocumentView::Object(out)),
            Err(e) => Err(e),
        },
        _ => Ok(d),
    }
}

/// What the first `n` items of an array render to, in order: each item
/// gives way to its expansion.
pub open spec fn spliced(
    items: Seq<DocumentView>,
    n: nat,
    env: Map<Seq<char>, Seq<char>>,
    depth: nat,
) -> Result<Seq<DocumentView>, Fault>
    decreases depth, items, n,
{
    if n == 0 || n > items.len() {
        Ok(Seq::empty())
    } else {
        match spliced(items, (n - 1) as nat, env, depth) {
            Err(e) => Err(e),
            Ok(head) => match expanded(items[n - 1], env, depth) {
                Err(e) => Err(e),
                Ok(more) => Ok(head + more),
            },
        }
    }
}

/// What one item of an array gives way to. A structural placeholder whose
/// variable is missing or blank gives way to nothing; one whose variable
/// holds an array, to that array's items, each rendered; one whose variable
/// holds anything else, to that value rendered. Any other item is rendered
/// in place.
pub open spec fn expanded(
    item: DocumentView,
    env: Map<Seq<char>, Seq<char>>,
    depth: nat,
) -> Result<Seq<DocumentView>, Fault>
    decreases depth, item, 1nat,
{
    match reference(item) {
        Some(name) => match resolved(name, env) {
            Err(e) => Err(e),
            Ok(None) => Ok(Seq::empty()),
            Ok(Some(found)) => if depth == 0 {
                Err(Fault::TooDeep)
            } else {
                match found {
                    DocumentView::Array(inner) => each(
                        inner,
                        inner.len(),
                        env,
                        (depth - 1) as nat,
                    ),
                    _ => match transformed(found, env, (depth - 1) as nat) {
                        Ok(one) => Ok(seq![one]),
                        Err(e) => Err(e),
                    },
                }
            },
        },
        None => match transformed(item, env, depth) {
            Ok(one) => Ok(seq![one]),
            Err(e) => Err(e),
        },
    }
}

/// The first `n` items, each rendered on its own.
pub open spec fn each(
    items: Seq<DocumentView>,
    n: nat,
    env: Map<Seq<char>, Seq<char>>,
    depth: nat,
) -> Result<Seq<DocumentView>, Fault>
    decreases depth, items, n,
{
    if n == 0 || n > items.len() {
        Ok(Seq::empty())
    } else {
        match each(items, (n - 1) as nat, env, depth) {
            Err(e) => Err(e),
            Ok(head) => match transformed(items[n - 1], env, depth) {
                Err(e) => Err(e),
                Ok(one) => Ok(head.push(one)),
            },
        }
    }
}

/// The first `n` members of an object with their values rendered and their
/// keys as they were.
pub open spec fn mapped(
    members: Seq<MemberView>,
    n: nat,
    env: Map<Seq<char>, Seq<char>>,
    depth: nat,
) -> Result<Seq<MemberView>, Fault>
    decreases depth, members, n,
{
    if n == 0 || n > members.len() {
        Ok(Seq::empty())
    } else {
        match mapped(members, (n - 1) as nat, env, depth) {
            Err(e) => Err(e),
            Ok(head) => match transformed(members[n - 1].value, env, depth) {
                Err(e) => Err(e),
                Ok(one) => Ok(head.push(MemberView { key: members[n - 1].key, value: one })),
            },
        }
    }
}

/// The warnings that rendering `d` gives rise to where it succeeds, in the
/// order in which the references stand.
pub open spec fn noted(d: DocumentView, env: Map<Seq<char>, Seq<char>>, depth: nat) -> Seq<
    WarningView,
>
    decreases depth, d, 0nat,
{
    match d {
        DocumentView::Text(s) => match placeholder_name(s) {
            Some(name) => match resolved(name, env) {
                Err(_) => Seq::empty(),
                Ok(None) => seq![WarningView::KeptPlaceholder(name)],
                Ok(Some(found)) => if depth == 0 {
                    Seq::empty()
                } else {
                    noted(found, env, (depth - 1) as nat)
                },
            },
            None => missing(s, env),
        },
        DocumentView::Array(items) => noted_spliced(items, items.len(), env, depth),
        DocumentView::Object(members) => noted_mapped(members, members.len(), env, depth),
        _ => Seq::empty(),
    }
}

/// The warnings from the first `n` items of an array.
pub open spec fn noted_spliced(
    items: Seq<DocumentView>,
    n: nat,
    env: Map<Seq<char>, Seq<char>>,
    depth: nat,
) -> Seq<WarningView>
    decreases depth, items, n,
{
    if n == 0 || n > items.len() {
        Seq::empty()
    } else {
        noted_spliced(items, (n - 1) as nat, env, depth) + noted_expanded(
            items[n - 1],
            env,
            depth,
        )
    }
}

/// The warnings from expanding one item of an array.
pub open spec fn noted_expanded(
    item: DocumentView,
    env: Map<Seq<char>, Seq<char>>,
    depth: nat,
) -> Seq<WarningView>
    decreases depth, item, 1nat,
{
    match reference(item) {
        Some(name) => match resolved(name, env) {
            Err(_) => Seq::empty(),
            Ok(None) => seq![WarningView::DroppedItem(name)],
            Ok(Some(found)) => if depth == 0 {
                Seq::empty()
            } else {
                match found {
                    DocumentView::Array(inner) => noted_each(
                        inner,
                        inner.len(),
                        env,
                        (depth - 1) as nat,
                    ),
                    _ => noted(found, env, (depth - 1) as nat),
                }
            },
        },
        None => noted(item, env, depth),
    }
}

/// The warnings from the first `n` items, each rendered on its own.
pub open spec fn noted_each(
    items: Seq<DocumentView>,
    n: nat,
    env: Map<Seq<char>, Seq<char>>,
    depth: nat,
) -> Seq<WarningView>
    decreases depth, items, n,
{
    if n == 0 || n > items.len() {
        Seq::empty()
    } else {
        noted_each(items, (n - 1) as nat, env, depth) + noted(items[n - 1], env, depth)
    }
}

/// The warnings from the values of the first `n` members of an object.
pub open spec fn noted_mapped(
    members: Seq<MemberView>,
    n: nat,
    env: Map<Seq<char>, Seq<char>>,
    depth: nat,
) -> Seq<WarningView>
    decreases depth, members, n,
{
    if n == 0 || n > members.len() {
        Seq::empty()
    } else {
        noted_mapped(members, (n - 1) as nat, env, depth) + noted(
            members[n - 1].value,
            env,
            depth,
        )
    }
}

/// The warnings that rendering the template `text` gives rise to where it
/// succeeds.
pub open spec fn rendered_warnings(text: Seq<char>, env: Map<Seq<char>, Seq<char>>) -> Seq<
    WarningView,
> {
    match json_parse(stripped(text)) {
        None => Seq::empty(),
        Some(root) => noted(root, env, MAX_NESTING as nat),
    }
}

/// The template `text` rendered under `env`: the text written for the
/// document that the stripped template parses and renders to.
pub open spec fn rendered(text: Seq<char>, env: Map<Seq<char>, Seq<char>>) -> Result<
    Seq<char>,
    Fault,
> {
    match json_parse(stripped(text)) {
        None => Err(Fault::Template),
        Some(root) => match transformed(root, env, MAX_NESTING as nat) {
            Err(e) => Err(e),
            Ok(out) => match json_pretty(canonical(out)) {
                Some(written) => Ok(written),
                None => Err(Fault::Output),
            },
        },
    }
}

/// The model of what [`render`] returns.
pub open spec fn rendition(r: Result<String, RenderError>) -> Result<Seq<char>, Fault> {
    match r {
        Ok(text) => Ok(text@),
        Err(e) => Err(e@),
    }
}

/// Rendering is deterministic: whatever two calls of [`render`] return for
/// one template under one snapshot, they return the same text, character
/// for character, or fail for the same reason.
pub proof fn lemma_render_is_deterministic(
    first: Result<String, RenderError>,
    second: Result<String, RenderError>,
    template: Seq<char>,
    env: Map<Seq<char>, Seq<char>>,
)
    requires
        rendition(first) == rendered(template, env),
        rendition(second) == rendered(template, env),
    ensures
        rendition(first) == rendition(second),
        first is Ok ==> second is Ok && first->Ok_0@ == second->Ok_0@,
{
}

/// The model of what [`process_value`] returns.
pub open spec fn outcome(r: Result<Document, RenderError>) -> Result<DocumentView, Fault> {
    match r {
        Ok(d) => Ok(d@),
        Err(e) => Err(e@),
    }
}

/// Once an item has failed, the array has failed, with the same fault.
pub proof fn lemma_spliced_fault_stays(
    items: Seq<DocumentView>,
    n: nat,
    m: nat,
    env: Map<Seq<char>, Seq<char>>,
    depth: nat,
)
    requires
        n <= m <= items.len(),
        spliced(items, n, env, depth) is Err,
    ensures
        spliced(items, m, env, depth) == spliced(items, n, env, depth),
    decreases m - n,
{
    if n < m {
        lemma_spliced_fault_stays(items, n, (m - 1) as nat, env, depth);
    }
}

/// Once an item has failed, the whole sequence has failed, with the same
/// fault.
pub proof fn lemma_each_fault_stays(
    items: Seq<DocumentView>,
    n: nat,
    m: nat,
    env: Map<Seq<char>, Seq<char>>,
    depth: nat,
)
    requires
        n <= m <= items.len(),
        each(items, n, env, depth) is Err,
    ensures
        each(items, m, env, depth) == each(items, n, env, depth),
    decreases m - n,
{
    if n < m {
        lemma_each_fault_stays(items, n, (m - 1) as nat, env, depth);
    }
}

/// Once a member has failed, the object has failed, with the same fault.
pub proof fn lemma_mapped_fault_stays(
    members: Seq<MemberView>,
    n: nat,
    m: nat,
    env: Map<Seq<char>, Seq<char>>,
    depth: nat,
)
    requires
        n <= m <= members.len(),
        mapped(members, n, env, depth) is Err,
    ensures
        mapped(members, m, env, depth) == mapped(members, n, env, depth),
    decreases m - n,
{
    if n < m {
        lemma_mapped_fault_stays(members, n, (m - 1) as nat, env, depth);
    }
}

/// Looks `name` up in `env` and parses its trimmed text as a document.
///
/// A missing or blank variable is no error: it resolves to nothing.
pub fn resolve_env_var(name: &str, env: &Env) -> (r: Result<Option<Document>, RenderError>)
    ensures
        match r {
            Ok(Some(d)) => resolved(name@, env@) == Ok::<Option<DocumentView>, Fault>(Some(d@)),
            Ok(None) => resolved(name@, env@) == Ok::<Option<DocumentView>, Fault>(None),
            Err(e) => resolved(name@, env@) == Err::<Option<DocumentView>, Fault>(e@),
        },
{
    match env.get(name) {
        None => Ok(None),
        Some(text) => {
            let v = chars_of(text.as_str());
            let (lo, hi) = trim_bounds(&v, 0, v.len());
            assert(v@.subrange(0, v@.len() as int) =~= v@);
            if lo == hi {
                return Ok(None);
            }
            let kept = string_of(&v, lo, hi);
            match parse_document(kept.as_str()) {
                Ok(d) => Ok(Some(d)),
                Err(cause) => Err(RenderError::Variable { name: String::from_str(name), cause }),
            }
        },
    }
}

/// Renders `d` with `depth` levels of structural references to spare.
#[verifier::loop_isolation(false)]
fn process_at(d: &Document, env: &Env, depth: usize, warnings: &mut Vec<Warning>) -> (r: Result<
    Document,
    RenderError,
>)
    ensures
        outcome(r) == transformed(d@, env@, depth as nat),
        r is Ok ==> warning_views(final(warnings)@) == warning_views(old(warnings)@) + noted(
            d@,
            env@,
            depth as nat,
        ),
    decreases depth, d, 0nat,
{
    let ghost told = warning_views(warnings@);
    assert(told + Seq::<WarningView>::empty() =~= told);
    match d {
        Document::Null => Ok(Document::Null),
        Document::Bool(b) => Ok(Document::Bool(*b)),
        Document::Number(n) => Ok(Document::Number(clone_number(n))),
        Document::Text(s) => {
            let v = chars_of(s.as_str());
            match placeholder_bounds(&v) {
                Some((from, to)) => {
                    let name = string_of(&v, from, to);
                    match resolve_env_var(name.as_str(), env) {
                        Err(e) => Err(e),
                        Ok(None) => {
                            note(warnings, Warning::KeptPlaceholder(name));
                            assert(told.push(WarningView::KeptPlaceholder(name@)) =~= told
                                + seq![WarningView::KeptPlaceholder(name@)]);
                            Ok(Document::Text(s.clone()))
                        },
                        Ok(Some(found)) => {
                            if depth == 0 {
                                Err(RenderError::TooDeep)
                            } else {
                                process_at(&found, env, depth - 1, warnings)
                            }
                        },
                    }
                },
                None => Ok(Document::Text(interpolate_chars(&v, env, warnings))),
            }
        },
        Document::Array(items) => {
            proof {
                lemma_array_view(*items);
            }
            let ghost source = views(items@);
            let mut out: Vec<Document> = Vec::new();
            let mut i: usize = 0;
            assert(views(out@) =~= Seq::<DocumentView>::empty());
            while i < items.len()
                invariant
                    i <= items@.len(),
                    spliced(source, i as nat, env@, depth as nat) == Ok::<Seq<DocumentView>, Fault>(
                        views(out@),
                    ),
                    warning_views(warnings@) == told + noted_spliced(
                        source,
                        i as nat,
                        env@,
                        depth as nat,
                    ),
                decreases items@.len() - i,
            {
                assert(source[i as int] == items@[i as int]@);
                let ghost said = noted_spliced(source, i as nat, env@, depth as nat);
                match expand_into(&items[i], env, depth, &mut out, warnings) {
                    Ok(_) => {
                        assert(warning_views(warnings@) =~= told + (said + noted_expanded(
                            source[i as int],
                            env@,
                            depth as nat,
                        )));
                    },
                    Err(e) => {
                        proof {
                            lemma_spliced_fault_stays(
                                source,
                                (i + 1) as nat,
                                source.len(),
                                env@,
                                depth as nat,
                            );
                        }
                        return Err(e);
                    },
                }
                i = i + 1;
            }
            proof {
                lemma_array_view(out);
            }
            Ok(Document::Array(out))
        },
        Document::Object(members) => {
            proof {
                lemma_object_view(*members);
            }
            let ghost source = member_views(members@);
            let mut out: Vec<Member> = Vec::new();
            let mut i: usize = 0;
            assert(member_views(out@) =~= Seq::<MemberView>::empty());
            while i < members.len()
                invariant
                    i <= members@.len(),
                    mapped(source, i as nat, env@, depth as nat) == Ok::<Seq<MemberView>, Fault>(
                        member_views(out@),
                    ),
                    warning_views(warnings@) == told + noted_mapped(
                        source,
                        i as nat,
                        env@,
                        depth as nat,
                    ),
                decreases members@.len() - i,
            {
                assert(source[i as int] == (MemberView {
                    key: members@[i as int].key@,
                    value: members@[i as int].value@,
                }));
                let ghost before = out@;
                let ghost said = noted_mapped(source, i as nat, env@, depth as nat);
                match process_at(&members[i].value, env, depth, warnings) {
                    Ok(value) => {
                        let member = Member { key: members[i].key.clone(), value };
                        out.push(member);
                        assert(member_views(out@) =~= member_views(before).push(
                            MemberView { key: member.key@, value: member.value@ },
                        ));
                        assert(warning_views(warnings@) =~= told + (said + noted(
                            source[i as int].value,
                            env@,
                            depth as nat,
                        )));
                    },
                    Err(e) => {
                        proof {
                            lemma_mapped_fault_stays(
                                source,
                                (i + 1) as nat,
                                source.len(),
                                env@,
                                depth as nat,
                            );
                        }
                        return Err(e);
                    },
                }
                i = i + 1;
            }
            proof {
                lemma_object_view(out);
            }
            Ok(Document::Object(out))
        },
    }
}

/// Appends to `out` what the array item `item` gives way to.
#[verifier::loop_isolation(false)]
fn expand_into(
    item: &Document,
    env: &Env,
    depth: usize,
    out: &mut Vec<Document>,
    warnings: &mut Vec<Warning>,
) -> (r: Result<(), RenderError>)
    ensures
        match r {
            Ok(_) => {
                &&& expanded(item@, env@, depth as nat) is Ok
                &&& views(final(out)@) == views(old(out)@) + expanded(
                    item@,
                    env@,
                    depth as nat,
                )->Ok_0
                &&& warning_views(final(warnings)@) == warning_views(old(warnings)@)
                    + noted_expanded(item@, env@, depth as nat)
            },
            Err(e) => expanded(item@, env@, depth as nat) == Err::<Seq<DocumentView>, Fault>(e@),
        },
    decreases depth, item, 1nat,
{
    let ghost start = out@;
    let ghost told = warning_views(warnings@);
    match item {
        Document::Text(s) => {
            let v = chars_of(s.as_str());
            match placeholder_bounds(&v) {
                Some((from, to)) => {
                    let name = string_of(&v, from, to);
                    match resolve_env_var(name.as_str(), env) {
                        Err(e) => {
                            return Err(e);
                        },
                        Ok(None) => {
                            note(warnings, Warning::DroppedItem(name));
                            assert(told.push(WarningView::DroppedItem(name@)) =~= told
                                + seq![WarningView::DroppedItem(name@)]);
                            assert(views(start) + Seq::<DocumentView>::empty() =~= views(start));
                            return Ok(());
                        },
                        Ok(Some(found)) => {
                            if depth == 0 {
                                return Err(RenderError::TooDeep);
                            }
                            match &found {
                                Document::Array(inner) => {
                                    proof {
                                        lemma_array_view(*inner);
                                    }
                                    let ghost source = views(inner@);
                                    let mut j: usize = 0;
                                    assert(views(start) + Seq::<DocumentView>::empty() =~= views(
                                        start,
                                    ));
                                    assert(told + Seq::<WarningView>::empty() =~= told);
                                    while j < inner.len()
                                        invariant
                                            j <= inner@.len(),
                                            each(source, j as nat, env@, (depth - 1) as nat) is Ok,
                                            views(out@) == views(start) + each(
                                                source,
                                                j as nat,
                                                env@,
                                                (depth - 1) as nat,
                                            )->Ok_0,
                                            warning_views(warnings@) == told + noted_each(
                                                source,
                                                j as nat,
                                                env@,
                                                (depth - 1) as nat,
                                            ),
                                        decreases inner@.len() - j,
                                    {
                                        assert(source[j as int] == inner@[j as int]@);
                                        let ghost before = out@;
                                        let ghost said = noted_each(
                                            source,
                                            j as nat,
                                            env@,
                                            (depth - 1) as nat,
                                        );
                                        match process_at(&inner[j], env, depth - 1, warnings) {
                                            Ok(one) => {
                                                out.push(one);
                                                assert(views(out@) =~= views(before).push(one@));
                                                assert(views(out@) =~= views(start) + each(
                                                    source,
                                                    (j + 1) as nat,
                                                    env@,
                                                    (depth - 1) as nat,
                                                )->Ok_0);
                                                assert(warning_views(warnings@) =~= told + (said
                                                    + noted(
                                                    source[j as int],
                                                    env@,
                                                    (depth - 1) as nat,
                                                )));
                                            },
                                            Err(e) => {
                                                proof {
                                                    lemma_each_fault_stays(
                                                        source,
                                                        (j + 1) as nat,
                                                        source.len(),
                                                        env@,
                                                        (depth - 1) as nat,
                                                    );
                                                }
                                                return Err(e);
                                            },
                                        }
                                        j = j + 1;
                                    }
                                    return Ok(());
                                },
                                _ => {
                                    match process_at(&found, env, depth - 1, warnings) {
                                        Ok(one) => {
                                            out.push(one);
                                            assert(views(out@) =~= views(start) + seq![one@]);
                                            return Ok(());
                                        },
                                        Err(e) => {
                                            return Err(e);
                                        },
                                    }
                                },
                            }
                        },
                    }
                },
                None => {},
            }
        },
        _ => {},
    }
    match process_at(item, env, depth, warnings) {
        Ok(one) => {
            out.push(one);
            assert(views(out@) =~= views(start) + seq![one@]);
            Ok(())
        },
        Err(e) => Err(e),
    }
}

/// Renders the document `d` under `env`.
///
/// Objects keep their keys and have their values rendered. Arrays have each
/// item expanded in place. A string that is a structural placeholder gives
/// way to its variable's value, itself rendered, or stays as it is where the
/// variable is missing or blank; any other string is interpolated. Numbers,
/// booleans and null are returned as they are. It fails where a variable's
/// text is not valid JSON, and where references nest deeper than
/// [`MAX_NESTING`]. Where it succeeds, `warnings` has grown by one warning
/// for each reference that could not be resolved.
pub fn process_value(d: &Document, env: &Env, warnings: &mut Vec<Warning>) -> (r: Result<
    Document,
    RenderError,
>)
    ensures
        outcome(r) == transformed(d@, env@, MAX_NESTING as nat),
        r is Ok ==> warning_views(final(warnings)@) == warning_views(old(warnings)@) + noted(
            d@,
            env@,
            MAX_NESTING as nat,
        ),
{
    process_at(d, env, MAX_NESTING, warnings)
}

/// Renders the template `template` under `env` into configuration text.
///
/// The result is a function of the two arguments alone, and so are the
/// warnings that a successful rendering adds to `warnings`.
pub fn render(template: &str, env: &Env, warnings: &mut Vec<Warning>) -> (r: Result<
    String,
    RenderError,
>)
    ensures
        rendition(r) == rendered(template@, env@),
        r is Ok ==> warning_views(final(warnings)@) == warning_views(old(warnings)@)
            + rendered_warnings(template@, env@),
{
    let bare = strip_comments(template);
    let root = match parse_document(bare.as_str()) {
        Ok(root) => root,
        Err(e) => {
            return Err(RenderError::Template(e));
        },
    };
    let out = match process_value(&root, env, warnings) {
        Ok(out) => out,
        Err(e) => {
            return Err(e);
        },
    };
    match write_document(&out) {
        Ok(text) => Ok(text),
        Err(e) => Err(RenderError::Output(e)),
    }
}

/// Whether `env` has nothing to offer for `name`: no binding, or a blank one.
pub open spec fn unresolved(name: Seq<char>, env: Map<Seq<char>, Seq<char>>) -> bool {
    !env.contains_key(name) || trimmed(env[name]).len() == 0
}

/// A structural placeholder whose variable is missing or blank is no error:
/// as a value of its own it stays the string that it was, and as an item of
/// an array it is dropped, leaving the items around it as they would be
/// without it. Either way one warning names the variable.
pub proof fn lemma_unresolved_reference(
    s: Seq<char>,
    items: Seq<DocumentView>,
    k: nat,
    env: Map<Seq<char>, Seq<char>>,
    depth: nat,
)
    requires
        placeholder_name(s) is Some,
        unresolved(placeholder_name(s)->0, env),
        k < items.len(),
        items[k as int] == DocumentView::Text(s),
    ensures
        transformed(DocumentView::Text(s), env, depth) == Ok::<DocumentView, Fault>(
            DocumentView::Text(s),
        ),
        expanded(DocumentView::Text(s), env, depth) == Ok::<Seq<DocumentView>, Fault>(
            Seq::empty(),
        ),
        spliced(items, k + 1, env, depth) == spliced(items, k, env, depth),
        noted(DocumentView::Text(s), env, depth) == seq![
            WarningView::KeptPlaceholder(placeholder_name(s)->0),
        ],
        noted_expanded(DocumentView::Text(s), env, depth) == seq![
            WarningView::DroppedItem(placeholder_name(s)->0),
        ],
{
    match spliced(items, k, env, depth) {
        Ok(head) => {
            assert(head + Seq::<DocumentView>::empty() =~= head);
        },
        Err(_) => {},
    }
}

/// A string that is no structural placeholder stays a string: it renders to
/// its interpolation, whatever braces it holds, and where it holds no `${`
/// it renders to itself.
pub proof fn lemma_ordinary_string(s: Seq<char>, env: Map<Seq<char>, Seq<char>>, depth: nat)
    requires
        placeholder_name(s) is None,
    ensures
        transformed(DocumentView::Text(s), env, depth) == Ok::<DocumentView, Fault>(
            DocumentView::Text(interpolated(s, env)),
        ),
        no_opening(s, 0) ==> transformed(DocumentView::Text(s), env, depth) == Ok::<
            DocumentView,
            Fault,
        >(DocumentView::Text(s)),
{
    if no_opening(s, 0) {
        lemma_without_opening_unchanged(s, 0, env);
        assert(s.subrange(0, s.len() as int) =~= s);
    }
}

/// Numbers, booleans and null render to themselves.
pub proof fn lemma_scalars_unchanged(d: DocumentView, env: Map<Seq<char>, Seq<char>>, depth: nat)
    requires
        d is Null || d is Bool || d is Number,
    ensures
        transformed(d, env, depth) == Ok::<DocumentView, Fault>(d),
{
}

} // verus!
