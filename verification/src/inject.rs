//! Marker-anchored injection engine.
//!
//! A generated route-aggregation file carries two literal anchor comments:
//! one for import declarations and one for route registrations.  Injection
//! locates each anchor and inserts generated text immediately after the
//! anchor's end.  The import insertion is applied first; the registration
//! anchor is then located afresh in the already-mutated text, since the
//! first insertion shifts every later offset.
//!
//! A sibling operation maintains a flat module-list file: one declaration
//! line per registered module, appended only when not already present.

use vstd::prelude::*;

use crate::subst::{contains_exec, contains_sub, find_from, first_index, lemma_first_index,
    match_at};
use crate::text::{chars_of, push_all, push_range};

verus! {

/// The anchor after which import declarations are inserted.
pub open spec fn import_marker() -> Seq<char> {
    "// <prustbowo:imports>"@
}

/// The anchor after which route registrations are inserted.
pub open spec fn routes_marker() -> Seq<char> {
    "// <prustbowo:routes>"@
}

/// The import declaration generated for a domain `name`.
pub open spec fn import_line(name: Seq<char>) -> Seq<char> {
    "\nuse crate::app::domain::"@ + name + "::handler::register_"@ + name + "_routes;\n"@
}

/// The route registration generated for a domain `name`.
pub open spec fn route_line(name: Seq<char>) -> Seq<char> {
    "\n    router = register_"@ + name + "_routes(router);\n"@
}

/// The module declaration line kept in the module-list file.
pub open spec fn mod_decl_line(name: Seq<char>) -> Seq<char> {
    "pub mod "@ + name + ";"@
}

/// A target file is a valid route file when both anchors occur in it.
pub open spec fn route_file_valid(c: Seq<char>) -> bool {
    contains_sub(c, import_marker()) && contains_sub(c, routes_marker())
}

/// `c` with `ins` inserted at offset `e`.
pub open spec fn insert_at(c: Seq<char>, e: int, ins: Seq<char>) -> Seq<char> {
    c.take(e) + ins + c.skip(e)
}

/// The end offset of the leftmost occurrence of marker `m` in `c`.
pub open spec fn marker_end(c: Seq<char>, m: Seq<char>) -> int {
    first_index(c, m) + m.len()
}

/// `c` with `ins` inserted immediately after the leftmost occurrence of `m`.
pub open spec fn inserted_after_marker(c: Seq<char>, m: Seq<char>, ins: Seq<char>) -> Seq<char> {
    insert_at(c, marker_end(c, m), ins)
}

/// The full injection for a domain `name`: the import line lands after the
/// import anchor, then the route line lands after the route anchor as
/// located in the already-mutated text.
pub open spec fn injected(c: Seq<char>, name: Seq<char>) -> Seq<char> {
    inserted_after_marker(
        inserted_after_marker(c, import_marker(), import_line(name)),
        routes_marker(),
        route_line(name),
    )
}

/// Structural failure of the injection engine.
#[derive(Clone, Copy, Debug, PartialEq, Eq, Structural)]
pub enum InjectError {
    /// The target file does not contain both anchor markers.
    MissingMarkers,
}

/// Shape of the two anchors: each ends with `'>'`, and `'>'` occurs nowhere
/// else in either anchor.
pub proof fn lemma_marker_chars()
    ensures
        import_marker().len() == 22,
        routes_marker().len() == 21,
        import_marker()[21] == '>',
        routes_marker()[20] == '>',
        forall|i: int| 0 <= i < 21 ==> import_marker()[i] != '>',
        forall|i: int| 0 <= i < 20 ==> routes_marker()[i] != '>',
{
    reveal_strlit("// <prustbowo:imports>");
    reveal_strlit("// <prustbowo:routes>");
}

/// Inserting text at `e` creates an occurrence of that text at `e`.
pub proof fn lemma_insert_creates_match(c: Seq<char>, e: int, ins: Seq<char>)
    requires
        0 <= e <= c.len(),
    ensures
        match_at(insert_at(c, e, ins), ins, e),
{
    let r = insert_at(c, e, ins);
    assert(r.subrange(e, e + ins.len() as int) =~= ins);
}

/// An occurrence of `pat` survives an insertion whose point sits right
/// after a `'>'`, provided `'>'` occurs in `pat` at most as its last
/// character: the insertion point can then never fall strictly inside the
/// occurrence, so the occurrence stays, shifted when it lies at or after
/// the insertion point.
pub proof fn lemma_insert_preserves_match(
    c: Seq<char>,
    ins: Seq<char>,
    e: int,
    pat: Seq<char>,
    p: int,
)
    requires
        0 < e <= c.len(),
        c[e - 1] == '>',
        forall|i: int| 0 <= i < pat.len() - 1 ==> pat[i] != '>',
        match_at(c, pat, p),
    ensures
        p + pat.len() <= e ==> match_at(insert_at(c, e, ins), pat, p),
        p + pat.len() > e ==> p >= e && match_at(insert_at(c, e, ins), pat, p + ins.len()),
{
    let r = insert_at(c, e, ins);
    if p + pat.len() <= e {
        assert(r.subrange(p, p + pat.len() as int) =~= c.subrange(p, p + pat.len() as int));
    } else {
        if p < e {
            assert(c.subrange(p, p + pat.len() as int)[e - 1 - p] == pat[e - 1 - p]);
            assert(pat[e - 1 - p] == '>');
            assert(false);
        }
        assert(r.subrange(p + ins.len(), p + ins.len() + pat.len() as int) =~= c.subrange(
            p,
            p + pat.len() as int,
        ));
    }
}

/// An insertion immediately after the leftmost occurrence of marker `m`
/// keeps every occurrence of `pat` when `'>'` occurs in `pat` at most as
/// its last character.
pub proof fn lemma_insert_after_marker_preserves(
    c: Seq<char>,
    m: Seq<char>,
    ins: Seq<char>,
    pat: Seq<char>,
)
    requires
        contains_sub(c, m),
        m.len() > 0,
        m[m.len() - 1] == '>',
        forall|i: int| 0 <= i < pat.len() - 1 ==> pat[i] != '>',
        contains_sub(c, pat),
    ensures
        contains_sub(inserted_after_marker(c, m, ins), pat),
{
    lemma_first_index(c, m);
    let fi = first_index(c, m);
    let e = fi + m.len();
    assert(c.subrange(fi, fi + m.len() as int)[m.len() - 1] == m[m.len() - 1]);
    assert(c[e - 1] == '>');
    let p = choose|i: int| match_at(c, pat, i);
    lemma_insert_preserves_match(c, ins, e, pat, p);
}

/// Builds the import anchor as a character vector.
pub fn import_marker_vec() -> (r: Vec<char>)
    ensures
        r@ == import_marker(),
        r@.len() > 0,
{
    proof {
        reveal_strlit("// <prustbowo:imports>");
    }
    chars_of("// <prustbowo:imports>")
}

/// Builds the route anchor as a character vector.
pub fn routes_marker_vec() -> (r: Vec<char>)
    ensures
        r@ == routes_marker(),
        r@.len() > 0,
{
    proof {
        reveal_strlit("// <prustbowo:routes>");
    }
    chars_of("// <prustbowo:routes>")
}

/// Builds the import declaration for a domain `name`.
pub fn import_line_vec(name: &Vec<char>) -> (r: Vec<char>)
    ensures
        r@ == import_line(name@),
{
    let mut r = chars_of("\nuse crate::app::domain::");
    push_all(&mut r, name);
    let mid = chars_of("::handler::register_");
    push_all(&mut r, &mid);
    push_all(&mut r, name);
    let tail = chars_of("_routes;\n");
    push_all(&mut r, &tail);
    r
}

/// Builds the route registration for a domain `name`.
pub fn route_line_vec(name: &Vec<char>) -> (r: Vec<char>)
    ensures
        r@ == route_line(name@),
{
    let mut r = chars_of("\n    router = register_");
    push_all(&mut r, name);
    let tail = chars_of("_routes(router);\n");
    push_all(&mut r, &tail);
    r
}

/// Builds the module declaration line for a domain `name`.
pub fn mod_decl_line_vec(name: &Vec<char>) -> (r: Vec<char>)
    ensures
        r@ == mod_decl_line(name@),
        r@.len() > 0,
{
    proof {
        reveal_strlit("pub mod ");
    }
    let mut r = chars_of("pub mod ");
    push_all(&mut r, name);
    let tail = chars_of(";");
    push_all(&mut r, &tail);
    r
}

/// `c` with `ins` spliced in at offset `e`.
pub fn splice(c: &Vec<char>, e: usize, ins: &Vec<char>) -> (r: Vec<char>)
    requires
        e <= c@.len(),
    ensures
        r@ == insert_at(c@, e as int, ins@),
{
    let mut r: Vec<char> = Vec::new();
    push_range(&mut r, c, 0, e);
    push_all(&mut r, ins);
    push_range(&mut r, c, e, c.len());
    proof {
        assert(c@.subrange(0, e as int) =~= c@.take(e as int));
        assert(c@.subrange(e as int, c@.len() as int) =~= c@.skip(e as int));
        assert(r@ =~= insert_at(c@, e as int, ins@));
    }
    r
}

/// Injects the import and route registration for `name` into the route
/// file content `c`.
///
/// Succeeds exactly when both anchors occur in `c`; the result is then the
/// doubly-inserted text.  When an anchor is missing the content is handed
/// back untouched by the caller, so a failed injection never mutates the
/// target.
pub fn register_route_and_docs(c: &Vec<char>, name: &Vec<char>) -> (r: Result<
    Vec<char>,
    InjectError,
>)
    ensures
        r is Ok <==> route_file_valid(c@),
        r is Ok ==> r->Ok_0@ == injected(c@, name@),
        r is Err ==> r->Err_0 == InjectError::MissingMarkers,
{
    let m_imp = import_marker_vec();
    let m_rts = routes_marker_vec();
    let has_imp = contains_exec(c, &m_imp);
    let has_rts = contains_exec(c, &m_rts);
    if !has_imp || !has_rts {
        return Err(InjectError::MissingMarkers);
    }
    let idx1 = match find_from(c, &m_imp, 0) {
        Some(i) => i,
        None => {
            proof {
                let w = choose|i: int| match_at(c@, import_marker(), i);
                assert(false);
            }
            return Err(InjectError::MissingMarkers);
        },
    };
    proof {
        lemma_first_index(c@, import_marker());
        assert(idx1 == first_index(c@, import_marker()));
    }
    let clen = c.len();
    proof {
        assert(idx1 + m_imp@.len() <= clen);
    }
    let e1 = idx1 + m_imp.len();
    let line1 = import_line_vec(name);
    let c1 = splice(c, e1, &line1);
    proof {
        lemma_marker_chars();
        lemma_insert_after_marker_preserves(c@, import_marker(), line1@, routes_marker());
        assert(c1@ == inserted_after_marker(c@, import_marker(), import_line(name@)));
    }
    let idx2 = match find_from(&c1, &m_rts, 0) {
        Some(i) => i,
        None => {
            proof {
                let w = choose|i: int| match_at(c1@, routes_marker(), i);
                assert(false);
            }
            return Err(InjectError::MissingMarkers);
        },
    };
    proof {
        lemma_first_index(c1@, routes_marker());
        assert(idx2 == first_index(c1@, routes_marker()));
    }
    let c1len = c1.len();
    proof {
        assert(idx2 + m_rts@.len() <= c1len);
    }
    let e2 = idx2 + m_rts.len();
    let line2 = route_line_vec(name);
    let out = splice(&c1, e2, &line2);
    Ok(out)
}

/// The module-list content after registering `name`: unchanged when the
/// declaration line is already present, otherwise the line is appended on
/// a fresh, newline-terminated tail.
pub open spec fn registered_mods(c: Seq<char>, name: Seq<char>) -> Seq<char> {
    let decl = mod_decl_line(name);
    if contains_sub(c, decl) {
        c
    } else {
        let base = if c.len() == 0 || c[c.len() - 1] != '\n' {
            c + seq!['\n']
        } else {
            c
        };
        base + decl + seq!['\n']
    }
}

/// Registers `name` in the module-list content `c`.
///
/// Returns the new content and whether anything changed; registering a
/// name that is already declared is a no-op.
pub fn register_domain_mod(c: &Vec<char>, name: &Vec<char>) -> (r: (Vec<char>, bool))
    ensures
        r.0@ == registered_mods(c@, name@),
        r.1 == !contains_sub(c@, mod_decl_line(name@)),
{
    let decl = mod_decl_line_vec(name);
    if contains_exec(c, &decl) {
        return (c.clone(), false);
    }
    let mut out = c.clone();
    if out.len() == 0 || out[out.len() - 1] != '\n' {
        out.push('\n');
    }
    push_all(&mut out, &decl);
    out.push('\n');
    proof {
        assert(out@ =~= registered_mods(c@, name@));
    }
    (out, true)
}

/// The name holds no `'>'`; every name that is a plausible module
/// identifier satisfies this.
pub open spec fn plain_name(name: Seq<char>) -> bool {
    forall|i: int| 0 <= i < name.len() ==> name[i] != '>'
}

/// Neither generated line contains `'>'` when the name does not.
proof fn lemma_line_chars(name: Seq<char>)
    requires
        plain_name(name),
    ensures
        forall|i: int| 0 <= i < import_line(name).len() ==> import_line(name)[i] != '>',
        forall|i: int| 0 <= i < route_line(name).len() ==> route_line(name)[i] != '>',
{
    reveal_strlit("\nuse crate::app::domain::");
    reveal_strlit("::handler::register_");
    reveal_strlit("_routes;\n");
    reveal_strlit("\n    router = register_");
    reveal_strlit("_routes(router);\n");
    assert forall|i: int| 0 <= i < import_line(name).len() implies import_line(name)[i]
        != '>' by {
        assert(import_line(name)[i] == ("\nuse crate::app::domain::"@ + name
            + "::handler::register_"@ + name + "_routes;\n"@)[i]);
    }
    assert forall|i: int| 0 <= i < route_line(name).len() implies route_line(name)[i] != '>' by {
        assert(route_line(name)[i] == ("\n    router = register_"@ + name
            + "_routes(router);\n"@)[i]);
    }
}

/// Injection never consumes the anchors: a valid route file stays valid,
/// so a later run can inject again at the same anchors.
pub proof fn lemma_injection_preserves_anchors(c: Seq<char>, name: Seq<char>)
    requires
        route_file_valid(c),
    ensures
        route_file_valid(injected(c, name)),
{
    lemma_marker_chars();
    let c1 = inserted_after_marker(c, import_marker(), import_line(name));
    lemma_insert_after_marker_preserves(c, import_marker(), import_line(name), import_marker());
    lemma_insert_after_marker_preserves(c, import_marker(), import_line(name), routes_marker());
    lemma_insert_after_marker_preserves(c1, routes_marker(), route_line(name), import_marker());
    lemma_insert_after_marker_preserves(c1, routes_marker(), route_line(name), routes_marker());
}

/// Injecting two names in turn leaves all four generated lines present in
/// the final text.  Where each line stands follows from `injected` itself:
/// every insertion lands immediately after its anchor's end.
pub proof fn lemma_injections_accumulate(c: Seq<char>, first: Seq<char>, second: Seq<char>)
    requires
        route_file_valid(c),
        plain_name(first),
        plain_name(second),
    ensures
        contains_sub(injected(injected(c, first), second), import_line(first)),
        contains_sub(injected(injected(c, first), second), route_line(first)),
        contains_sub(injected(injected(c, first), second), import_line(second)),
        contains_sub(injected(injected(c, first), second), route_line(second)),
{
    lemma_marker_chars();
    lemma_line_chars(first);
    lemma_line_chars(second);
    let imp_m = import_marker();
    let rts_m = routes_marker();
    let c1a = inserted_after_marker(c, imp_m, import_line(first));
    lemma_first_index(c, imp_m);
    lemma_insert_creates_match(c, marker_end(c, imp_m), import_line(first));
    assert(contains_sub(c1a, import_line(first)));
    lemma_insert_after_marker_preserves(c, imp_m, import_line(first), imp_m);
    lemma_insert_after_marker_preserves(c, imp_m, import_line(first), rts_m);
    let c1 = inserted_after_marker(c1a, rts_m, route_line(first));
    assert(c1 == injected(c, first));
    lemma_first_index(c1a, rts_m);
    lemma_insert_creates_match(c1a, marker_end(c1a, rts_m), route_line(first));
    assert(contains_sub(c1, route_line(first)));
    lemma_insert_after_marker_preserves(c1a, rts_m, route_line(first), import_line(first));
    lemma_insert_after_marker_preserves(c1a, rts_m, route_line(first), imp_m);
    lemma_insert_after_marker_preserves(c1a, rts_m, route_line(first), rts_m);
    let c2a = inserted_after_marker(c1, imp_m, import_line(second));
    lemma_first_index(c1, imp_m);
    lemma_insert_creates_match(c1, marker_end(c1, imp_m), import_line(second));
    assert(contains_sub(c2a, import_line(second)));
    lemma_insert_after_marker_preserves(c1, imp_m, import_line(second), import_line(first));
    lemma_insert_after_marker_preserves(c1, imp_m, import_line(second), route_line(first));
    lemma_insert_after_marker_preserves(c1, imp_m, import_line(second), rts_m);
    let c2 = inserted_after_marker(c2a, rts_m, route_line(second));
    assert(c2 == injected(injected(c, first), second));
    lemma_first_index(c2a, rts_m);
    lemma_insert_creates_match(c2a, marker_end(c2a, rts_m), route_line(second));
    assert(contains_sub(c2, route_line(second)));
    lemma_insert_after_marker_preserves(c2a, rts_m, route_line(second), import_line(first));
    lemma_insert_after_marker_preserves(c2a, rts_m, route_line(second), route_line(first));
    lemma_insert_after_marker_preserves(c2a, rts_m, route_line(second), import_line(second));
}

/// Module-list registration is idempotent: registering a name a second
/// time changes nothing.
pub proof fn lemma_register_domain_mod_idempotent(c: Seq<char>, name: Seq<char>)
    ensures
        registered_mods(registered_mods(c, name), name) == registered_mods(c, name),
{
    let decl = mod_decl_line(name);
    if !contains_sub(c, decl) {
        let base = if c.len() == 0 || c[c.len() - 1] != '\n' {
            c + seq!['\n']
        } else {
            c
        };
        let r = base + decl + seq!['\n'];
        assert(r.subrange(base.len() as int, base.len() + decl.len() as int) =~= decl);
        assert(match_at(r, decl, base.len() as int));
        assert(contains_sub(r, decl));
    }
}

} // verus!
