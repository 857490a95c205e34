//! Template tree instantiation.
//!
//! A template tree is an in-memory list of (relative path, contents)
//! entries.  Instantiation stamps caller-supplied values over the
//! placeholder tokens in every entry's contents; paths are taken verbatim
//! from the template.

use vstd::prelude::*;

use crate::subst::{contains_sub, lemma_replaced_no_token, no_partial_rebuild, no_suffix_prefix,
    replace_all, replaced};
use crate::text::chars_of;

verus! {

/// One file of a template tree: a relative path and its contents.
pub struct TemplateEntry {
    /// Path of the file relative to the tree root.
    pub path: Vec<char>,
    /// Full textual contents of the file.
    pub contents: Vec<char>,
}

/// The placeholder standing for the human-facing project name.
pub open spec fn project_name_token() -> Seq<char> {
    "__PROJECT_NAME__"@
}

/// The placeholder standing for the identifier-safe crate name.
pub open spec fn crate_ident_token() -> Seq<char> {
    "__CRATE_IDENT__"@
}

/// The placeholder standing for the domain module name.
pub open spec fn domain_name_token() -> Seq<char> {
    "__DOMAIN_NAME__"@
}

/// The identifier-safe form of a project name: hyphens become
/// underscores.
pub open spec fn crate_ident_of(name: Seq<char>) -> Seq<char> {
    replaced(name, seq!['-'], seq!['_'])
}

/// Builds the placeholder for the human-facing project name.
pub fn project_name_token_vec() -> (r: Vec<char>)
    ensures
        r@ == project_name_token(),
        r@.len() > 0,
{
    proof {
        reveal_strlit("__PROJECT_NAME__");
    }
    chars_of("__PROJECT_NAME__")
}

/// Builds the placeholder for the identifier-safe crate name.
pub fn crate_ident_token_vec() -> (r: Vec<char>)
    ensures
        r@ == crate_ident_token(),
        r@.len() > 0,
{
    proof {
        reveal_strlit("__CRATE_IDENT__");
    }
    chars_of("__CRATE_IDENT__")
}

/// Builds the placeholder for the domain module name.
pub fn domain_name_token_vec() -> (r: Vec<char>)
    ensures
        r@ == domain_name_token(),
        r@.len() > 0,
{
    proof {
        reveal_strlit("__DOMAIN_NAME__");
    }
    chars_of("__DOMAIN_NAME__")
}

/// Derives the identifier-safe crate name from a project name.
pub fn crate_ident(name: &Vec<char>) -> (r: Vec<char>)
    ensures
        r@ == crate_ident_of(name@),
{
    let pat: Vec<char> = vec!['-'];
    let val: Vec<char> = vec!['_'];
    let r = replace_all(name, &pat, &val);
    proof {
        assert(pat@ =~= seq!['-']);
        assert(val@ =~= seq!['_']);
    }
    r
}

/// Substitutes one (token, value) pair over the contents of every entry.
///
/// Paths are kept verbatim; each entry's contents undergo one full
/// leftmost replacement pass, exactly as the engine applies to files on
/// disk.  Entries free of the token come back unchanged
/// (`crate::subst::lemma_replaced_absent`).
pub fn substitute_tree(tree: Vec<TemplateEntry>, token: &Vec<char>, value: &Vec<char>) -> (r: Vec<
    TemplateEntry,
>)
    requires
        token@.len() > 0,
    ensures
        r@.len() == tree@.len(),
        forall|i: int|
            0 <= i < r@.len() ==> r@[i].path@ == tree@[i].path@ && r@[i].contents@ == replaced(
                tree@[i].contents@,
                token@,
                value@,
            ),
{
    let mut out: Vec<TemplateEntry> = Vec::new();
    let mut i: usize = 0;
    while i < tree.len()
        invariant
            token@.len() > 0,
            i <= tree@.len(),
            out@.len() == i,
            forall|j: int|
                0 <= j < i ==> out@[j].path@ == tree@[j].path@ && out@[j].contents@ == replaced(
                    tree@[j].contents@,
                    token@,
                    value@,
                ),
        decreases tree@.len() - i,
    {
        let entry = &tree[i];
        let new_contents = replace_all(&entry.contents, token, value);
        out.push(TemplateEntry { path: entry.path.clone(), contents: new_contents });
        i += 1;
    }
    out
}

/// Instantiates the project tree for `name`: the project-name token takes
/// the name itself, then the crate-ident token takes its identifier-safe
/// form.
pub fn instantiate_project(tree: Vec<TemplateEntry>, name: &Vec<char>) -> (r: Vec<TemplateEntry>)
    ensures
        r@.len() == tree@.len(),
        forall|i: int|
            0 <= i < r@.len() ==> r@[i].path@ == tree@[i].path@ && r@[i].contents@ == replaced(
                replaced(tree@[i].contents@, project_name_token(), name@),
                crate_ident_token(),
                crate_ident_of(name@),
            ),
{
    let token1 = project_name_token_vec();
    let pass1 = substitute_tree(tree, &token1, name);
    let token2 = crate_ident_token_vec();
    let ident = crate_ident(name);
    substitute_tree(pass1, &token2, &ident)
}

/// Instantiates the domain tree for `name`: the domain-name token takes
/// the name.
pub fn instantiate_domain(tree: Vec<TemplateEntry>, name: &Vec<char>) -> (r: Vec<TemplateEntry>)
    ensures
        r@.len() == tree@.len(),
        forall|i: int|
            0 <= i < r@.len() ==> r@[i].path@ == tree@[i].path@ && r@[i].contents@ == replaced(
                tree@[i].contents@,
                domain_name_token(),
                name@,
            ),
{
    let token = domain_name_token_vec();
    substitute_tree(tree, &token, name)
}

/// After one substitution pass over a tree, no entry's contents hold the
/// token any more, provided the value cannot rebuild the token at a
/// replacement boundary.
pub proof fn lemma_tree_token_free(tree: Seq<Seq<char>>, token: Seq<char>, value: Seq<char>)
    requires
        token.len() > 0,
        !contains_sub(value, token),
        no_suffix_prefix(token, value),
        no_partial_rebuild(token, value),
    ensures
        forall|i: int|
            0 <= i < tree.len() ==> !contains_sub(
                #[trigger] replaced(tree[i], token, value),
                token,
            ),
{
    assert forall|i: int| 0 <= i < tree.len() implies !contains_sub(
        #[trigger] replaced(tree[i], token, value),
        token,
    ) by {
        lemma_replaced_no_token(tree[i], token, value);
    }
}

} // verus!
