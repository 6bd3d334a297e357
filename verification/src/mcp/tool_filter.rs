//! Tool namespacing: upstream tools are exposed as `upstream__tool`.

use vstd::prelude::*;
use crate::error::AppError;
use crate::text::{chars_of, find_text, join3, contains_text, first_occurrence, occurs_at};

verus! {

/// The delimiter between upstream name and tool name: two underscores.
pub open spec fn delimiter() -> Seq<char> {
    seq!['_', '_']
}

/// Whether a name holds the reserved delimiter.
pub open spec fn has_delimiter(s: Seq<char>) -> bool {
    contains_text(s, delimiter())
}

/// Whether a name ends with an underscore.
pub open spec fn ends_with_underscore(s: Seq<char>) -> bool {
    s.len() > 0 && s.last() == '_'
}

/// The exposed name of tool `tool` of upstream `upstream`.
pub open spec fn prefixed_name(upstream: Seq<char>, tool: Seq<char>) -> Seq<char> {
    upstream + delimiter() + tool
}

/// The message for an upstream name that holds the delimiter.
pub open spec fn upstream_delimiter_message(upstream: Seq<char>) -> Seq<char> {
    "upstream name '"@ + upstream + "' contains reserved delimiter '__'"@
}

/// The message for a tool name that holds the delimiter.
pub open spec fn tool_delimiter_message(tool: Seq<char>) -> Seq<char> {
    "tool name '"@ + tool + "' contains reserved delimiter '__'"@
}

/// What `prefix_tool_name` returns: the prefixed name, or the message of
/// the configuration error.
pub open spec fn prefix_result(upstream: Seq<char>, tool: Seq<char>) -> Result<Seq<char>, Seq<char>> {
    if has_delimiter(upstream) {
        Err(upstream_delimiter_message(upstream))
    } else if has_delimiter(tool) {
        Err(tool_delimiter_message(tool))
    } else {
        Ok(prefixed_name(upstream, tool))
    }
}

/// Splits a name at the first occurrence of the delimiter (as
/// `str::split_once`).
pub open spec fn split_at_delimiter(s: Seq<char>) -> Option<(Seq<char>, Seq<char>)> {
    match first_occurrence(s, delimiter()) {
        Some(i) => Some((s.subrange(0, i), s.subrange(i + 2, s.len() as int))),
        None => None,
    }
}

pub fn delimiter_chars() -> (r: Vec<char>)
    ensures
        r@ == delimiter(),
{
    let mut r: Vec<char> = Vec::new();
    r.push('_');
    r.push('_');
    assert(r@ =~= delimiter());
    r
}


/// Prefixes a tool name with its upstream name: `upstream__tool`.
/// Fails when either name already holds the delimiter, since the result
/// could not be split back unambiguously.
pub fn prefix_tool_name(upstream_name: &str, tool_name: &str) -> (r: Result<String, AppError>)
    ensures
        match (r, prefix_result(upstream_name@, tool_name@)) {
            (Ok(s), Ok(t)) => s@ == t,
            (Err(AppError::Config(m)), Err(t)) => m@ == t,
            _ => false,
        },
{
    let delim = delimiter_chars();
    let up = chars_of(upstream_name);
    let up_has = find_text(&up, &delim).is_some();
    assert(up_has == has_delimiter(upstream_name@));
    if up_has {
        let m = join3("upstream name '", upstream_name, "' contains reserved delimiter '__'");
        return Err(AppError::Config(m));
    }
    let tl = chars_of(tool_name);
    let tl_has = find_text(&tl, &delim).is_some();
    assert(tl_has == has_delimiter(tool_name@));
    if tl_has {
        let m = join3("tool name '", tool_name, "' contains reserved delimiter '__'");
        return Err(AppError::Config(m));
    }
    let sep = "__";
    proof {
        reveal_strlit("__");
        assert(sep@ =~= delimiter());
    }
    Ok(join3(upstream_name, sep, tool_name))
}

/// Splits a prefixed tool name into `(upstream_name, tool_name)` at the
/// first delimiter; `None` when there is none.
pub fn parse_tool_name(prefixed: &str) -> (r: Option<(&str, &str)>)
    ensures
        match (r, split_at_delimiter(prefixed@)) {
            (Some((a, b)), Some((x, y))) => a@ == x && b@ == y,
            (None, None) => true,
            _ => false,
        },
{
    let delim = delimiter_chars();
    let cs = chars_of(prefixed);
    match find_text(&cs, &delim) {
        Some(i) => {
            assert(occurs_at(cs@, delim@, i as int));
            let n = prefixed.unicode_len();
            let a = prefixed.substring_char(0, i);
            let b = prefixed.substring_char(i + 2, n);
            Some((a, b))
        },
        None => None,
    }
}

/// The delimiter occurs at `j` exactly when two underscores stand there.
pub proof fn lemma_delimiter_at(x: Seq<char>, j: int)
    ensures
        occurs_at(x, delimiter(), j) <==> (0 <= j && j + 1 < x.len() && x[j] == '_' && x[j + 1] == '_'),
{
    if 0 <= j && j + 1 < x.len() {
        let w = x.subrange(j, j + 2);
        if x[j] == '_' && x[j + 1] == '_' {
            assert(w =~= delimiter());
        }
        if w == delimiter() {
            assert(w[0] == x[j]);
            assert(w[1] == x[j + 1]);
        }
    }
}

/// Round trip: splitting the prefixed name of an upstream and a tool gives
/// them back, provided the upstream name holds no delimiter and does not
/// end with an underscore (the tool name may be anything).
pub proof fn lemma_split_prefixed_name(upstream: Seq<char>, tool: Seq<char>)
    requires
        !has_delimiter(upstream),
        !ends_with_underscore(upstream),
    ensures
        split_at_delimiter(prefixed_name(upstream, tool)) == Some((upstream, tool)),
{
    let s = prefixed_name(upstream, tool);
    let k = upstream.len() as int;
    assert(s[k] == '_' && s[k + 1] == '_');
    lemma_delimiter_at(s, k);
    assert forall|j: int| 0 <= j < k implies !occurs_at(s, delimiter(), j) by {
        lemma_delimiter_at(s, j);
        lemma_delimiter_at(upstream, j);
        if j + 1 < k {
            assert(s[j] == upstream[j] && s[j + 1] == upstream[j + 1]);
        } else {
            assert(s[j] == upstream[j]);
        }
    }
    crate::text::lemma_first_occurrence_is(s, delimiter(), k);
    assert(s.subrange(0, k) =~= upstream);
    assert(s.subrange(k + 2, s.len() as int) =~= tool);
}

/// Namespace isolation: two upstream/tool pairs whose upstream names hold
/// no delimiter and do not end with an underscore get different exposed
/// names unless they are the same pair.
pub proof fn lemma_prefixed_names_distinct(u1: Seq<char>, t1: Seq<char>, u2: Seq<char>, t2: Seq<char>)
    requires
        !has_delimiter(u1),
        !ends_with_underscore(u1),
        !has_delimiter(u2),
        !ends_with_underscore(u2),
        prefixed_name(u1, t1) == prefixed_name(u2, t2),
    ensures
        u1 == u2,
        t1 == t2,
{
    lemma_split_prefixed_name(u1, t1);
    lemma_split_prefixed_name(u2, t2);
}

/// What `prefix_tool_name` returns, `parse_tool_name` splits back into the
/// same upstream and tool, unless the upstream name ends with an
/// underscore.
pub proof fn lemma_prefix_then_parse(upstream: Seq<char>, tool: Seq<char>)
    requires
        !ends_with_underscore(upstream),
    ensures
        prefix_result(upstream, tool) matches Ok(s) ==> split_at_delimiter(s) == Some((upstream, tool)),
{
    if !has_delimiter(upstream) {
        lemma_split_prefixed_name(upstream, tool);
    }
}

/// What a split gives back recombines into the original name, and its
/// upstream part holds no delimiter.
pub proof fn lemma_split_recombines(s: Seq<char>)
    requires
        split_at_delimiter(s) is Some,
    ensures
        ({
            let (a, b) = split_at_delimiter(s).unwrap();
            &&& prefixed_name(a, b) == s
            &&& !has_delimiter(a)
        }),
{
    crate::text::lemma_first_occurrence(s, delimiter());
    let i = first_occurrence(s, delimiter()).unwrap();
    let a = s.subrange(0, i);
    let b = s.subrange(i + 2, s.len() as int);
    lemma_delimiter_at(s, i);
    assert(prefixed_name(a, b) =~= s);
    assert forall|j: int| !occurs_at(a, delimiter(), j) by {
        lemma_delimiter_at(a, j);
        lemma_delimiter_at(s, j);
        if 0 <= j && j + 1 < a.len() {
            assert(a[j] == s[j] && a[j + 1] == s[j + 1]);
        }
    }
}

} // verus!
