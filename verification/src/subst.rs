//! Placeholder substitution engine.
//!
//! Template content carries literal placeholder tokens; instantiation
//! replaces every occurrence of a token with a caller-supplied value.
//! Replacement is literal, leftmost, non-overlapping substring substitution
//! over character sequences, exactly as `str::replace` behaves.

use vstd::prelude::*;

verus! {

/// `pat` occurs in `hay` starting at index `i`.
pub open spec fn match_at(hay: Seq<char>, pat: Seq<char>, i: int) -> bool {
    &&& 0 <= i
    &&& i + pat.len() <= hay.len()
    &&& hay.subrange(i, i + pat.len() as int) == pat
}

/// `pat` occurs somewhere in `hay`.
pub open spec fn contains_sub(hay: Seq<char>, pat: Seq<char>) -> bool {
    exists|i: int| match_at(hay, pat, i)
}

/// Index of the leftmost occurrence of `pat` in `hay`.
///
/// Meaningful only when `contains_sub(hay, pat)` holds; see
/// `lemma_first_index`.
pub open spec fn first_index(hay: Seq<char>, pat: Seq<char>) -> int
    decreases hay.len(),
{
    if match_at(hay, pat, 0) {
        0
    } else if hay.len() == 0 {
        0
    } else {
        1 + first_index(hay.skip(1), pat)
    }
}

/// Occurrences in a suffix correspond to shifted occurrences in the whole.
pub proof fn lemma_match_at_skip(hay: Seq<char>, pat: Seq<char>, k: int, i: int)
    requires
        0 <= k <= hay.len(),
        0 <= i,
    ensures
        match_at(hay.skip(k), pat, i) == match_at(hay, pat, k + i),
{
    if i + pat.len() <= hay.skip(k).len() {
        assert(hay.skip(k).subrange(i, i + pat.len() as int) =~= hay.subrange(
            k + i,
            k + i + pat.len() as int,
        ));
    }
}

/// When `pat` occurs in `hay`, `first_index` names its leftmost occurrence.
pub proof fn lemma_first_index(hay: Seq<char>, pat: Seq<char>)
    requires
        contains_sub(hay, pat),
    ensures
        0 <= first_index(hay, pat),
        match_at(hay, pat, first_index(hay, pat)),
        forall|j: int| 0 <= j < first_index(hay, pat) ==> !match_at(hay, pat, j),
    decreases hay.len(),
{
    if match_at(hay, pat, 0) {
    } else {
        let w = choose|i: int| match_at(hay, pat, i);
        assert(w >= 1);
        lemma_match_at_skip(hay, pat, 1, w - 1);
        assert(match_at(hay.skip(1), pat, w - 1));
        lemma_first_index(hay.skip(1), pat);
        let f = first_index(hay.skip(1), pat);
        lemma_match_at_skip(hay, pat, 1, f);
        assert forall|j: int| 0 <= j < 1 + f implies !match_at(hay, pat, j) by {
            if j >= 1 {
                lemma_match_at_skip(hay, pat, 1, j - 1);
            }
        }
    }
}

/// Decides whether `pat` occurs in `hay` at index `i`.
pub fn match_at_exec(hay: &Vec<char>, pat: &Vec<char>, i: usize) -> (b: bool)
    requires
        i + pat@.len() <= hay@.len(),
    ensures
        b == match_at(hay@, pat@, i as int),
{
    let hlen = hay.len();
    let mut j: usize = 0;
    while j < pat.len()
        invariant
            i + pat@.len() <= hay@.len(),
            hlen == hay@.len(),
            j <= pat@.len(),
            forall|k: int| 0 <= k < j ==> hay@[i + k] == pat@[k],
        decreases pat@.len() - j,
    {
        if hay[i + j] != pat[j] {
            proof {
                if match_at(hay@, pat@, i as int) {
                    assert(hay@.subrange(i as int, i + pat@.len() as int)[j as int] == pat@[
                        j as int
                    ]);
                }
            }
            return false;
        }
        j += 1;
    }
    proof {
        assert(hay@.subrange(i as int, i + pat@.len() as int) =~= pat@);
    }
    true
}

/// Finds the leftmost occurrence of `pat` in `hay` at or after `from`.
pub fn find_from(hay: &Vec<char>, pat: &Vec<char>, from: usize) -> (r: Option<usize>)
    requires
        from <= hay@.len(),
        pat@.len() > 0,
    ensures
        match r {
            Some(i) => {
                &&& from <= i
                &&& match_at(hay@, pat@, i as int)
                &&& forall|j: int| from <= j < i ==> !match_at(hay@, pat@, j)
            },
            None => forall|j: int| from <= j ==> !match_at(hay@, pat@, j),
        },
{
    if pat.len() > hay.len() {
        return None;
    }
    let mut i: usize = from;
    while i <= hay.len() - pat.len()
        invariant
            0 < pat@.len() <= hay@.len(),
            from <= i,
            i <= hay@.len(),
            forall|j: int| from <= j < i ==> !match_at(hay@, pat@, j),
        decreases hay@.len() - i,
    {
        if match_at_exec(hay, pat, i) {
            return Some(i);
        }
        i += 1;
    }
    None
}

/// Whether `pat` occurs anywhere in `hay`.
pub fn contains_exec(hay: &Vec<char>, pat: &Vec<char>) -> (b: bool)
    requires
        pat@.len() > 0,
    ensures
        b == contains_sub(hay@, pat@),
{
    match find_from(hay, pat, 0) {
        Some(_) => true,
        None => false,
    }
}

/// The result of replacing every leftmost, non-overlapping occurrence of
/// `pat` in `hay` with `val`.
pub open spec fn replaced(hay: Seq<char>, pat: Seq<char>, val: Seq<char>) -> Seq<char>
    decreases hay.len(),
{
    if pat.len() == 0 {
        hay
    } else if hay.len() < pat.len() {
        hay
    } else if hay.subrange(0, pat.len() as int) == pat {
        val + replaced(hay.skip(pat.len() as int), pat, val)
    } else {
        seq![hay[0]] + replaced(hay.skip(1), pat, val)
    }
}

/// Unfolding step: no occurrence at the front, keep one character.
proof fn lemma_replaced_step_char(hay: Seq<char>, pat: Seq<char>, val: Seq<char>)
    requires
        pat.len() > 0,
        hay.len() > 0,
        !match_at(hay, pat, 0),
    ensures
        replaced(hay, pat, val) == seq![hay[0]] + replaced(hay.skip(1), pat, val),
{
    if hay.len() < pat.len() {
        assert(replaced(hay.skip(1), pat, val) == hay.skip(1));
        assert(hay =~= seq![hay[0]] + hay.skip(1));
    } else {
        assert(hay.subrange(0, pat.len() as int) != pat);
    }
}

/// Replaces every leftmost, non-overlapping occurrence of `pat` in `hay`
/// with `val`.
pub fn replace_all(hay: &Vec<char>, pat: &Vec<char>, val: &Vec<char>) -> (r: Vec<char>)
    requires
        pat@.len() > 0,
    ensures
        r@ == replaced(hay@, pat@, val@),
{
    let mut out: Vec<char> = Vec::new();
    let mut i: usize = 0;
    proof {
        assert(hay@.skip(0) =~= hay@);
        assert(Seq::<char>::empty() + replaced(hay@, pat@, val@) =~= replaced(hay@, pat@, val@));
    }
    while i < hay.len()
        invariant
            pat@.len() > 0,
            i <= hay@.len(),
            out@ + replaced(hay@.skip(i as int), pat@, val@) == replaced(hay@, pat@, val@),
        decreases hay@.len() - i,
    {
        let ghost rest = hay@.skip(i as int);
        if pat.len() <= hay.len() - i && match_at_exec(hay, pat, i) {
            proof {
                lemma_match_at_skip(hay@, pat@, i as int, 0);
                assert(match_at(rest, pat@, 0));
                assert(rest.subrange(0, pat@.len() as int) == pat@);
                assert(rest.skip(pat@.len() as int) =~= hay@.skip(i + pat@.len() as int));
            }
            crate::text::push_all(&mut out, val);
            i += pat.len();
        } else {
            proof {
                if pat@.len() <= hay@.len() - i {
                    lemma_match_at_skip(hay@, pat@, i as int, 0);
                }
                assert(!match_at(rest, pat@, 0));
                lemma_replaced_step_char(rest, pat@, val@);
                assert(rest.skip(1) =~= hay@.skip(i + 1));
                assert(rest[0] == hay@[i as int]);
            }
            out.push(hay[i]);
            i += 1;
        }
        proof {
            assert(out@ + replaced(hay@.skip(i as int), pat@, val@) =~= replaced(
                hay@,
                pat@,
                val@,
            ));
        }
    }
    proof {
        assert(hay@.skip(i as int) =~= Seq::<char>::empty());
        assert(replaced(Seq::<char>::empty(), pat@, val@) =~= Seq::<char>::empty());
        assert(out@ =~= replaced(hay@, pat@, val@));
    }
    out
}

/// Substitution leaves token-free text untouched.
pub proof fn lemma_replaced_absent(hay: Seq<char>, pat: Seq<char>, val: Seq<char>)
    requires
        pat.len() > 0,
        !contains_sub(hay, pat),
    ensures
        replaced(hay, pat, val) == hay,
    decreases hay.len(),
{
    if hay.len() < pat.len() {
    } else if match_at(hay, pat, 0) {
        assert(contains_sub(hay, pat));
    } else {
        lemma_replaced_step_char(hay, pat, val);
        assert forall|i: int| !match_at(hay.skip(1), pat, i) by {
            if 0 <= i {
                lemma_match_at_skip(hay, pat, 1, i);
            }
        }
        lemma_replaced_absent(hay.skip(1), pat, val);
        assert(seq![hay[0]] + hay.skip(1) =~= hay);
    }
}

/// `p` is a prefix of `s`.
pub open spec fn is_prefix_of(p: Seq<char>, s: Seq<char>) -> bool {
    p.len() <= s.len() && s.subrange(0, p.len() as int) == p
}

/// No nonempty suffix of `val` is a prefix of `pat`.  Rules out an
/// occurrence of the token that begins inside a pasted-in value and ends
/// in the text that follows it.
pub open spec fn no_suffix_prefix(pat: Seq<char>, val: Seq<char>) -> bool {
    forall|k: int| 0 <= k < val.len() ==> !is_prefix_of(#[trigger] val.skip(k), pat)
}

/// For every split of the token into a nonempty head and tail, the tail
/// and the value do not prefix one another.  Rules out an occurrence of
/// the token whose head is untouched text and whose tail begins with a
/// pasted-in value.
pub open spec fn no_partial_rebuild(pat: Seq<char>, val: Seq<char>) -> bool {
    forall|j: int|
        1 <= j < pat.len() ==> !is_prefix_of(#[trigger] pat.skip(j), val) && !is_prefix_of(
            val,
            pat.skip(j),
        )
}

/// When a proper tail of the token prefixes the replaced text, it already
/// prefixed the original text: under `no_partial_rebuild`, replacement
/// cannot manufacture such a tail at the front.
proof fn lemma_replaced_prefix_literal(hay: Seq<char>, pat: Seq<char>, val: Seq<char>, j: int)
    requires
        pat.len() > 0,
        no_partial_rebuild(pat, val),
        1 <= j < pat.len(),
        is_prefix_of(pat.skip(j), replaced(hay, pat, val)),
    ensures
        is_prefix_of(pat.skip(j), hay),
    decreases hay.len(),
{
    let q = pat.skip(j);
    let qlen = pat.len() - j;
    let r = replaced(hay, pat, val);
    if hay.len() < pat.len() {
    } else if match_at(hay, pat, 0) {
        let rr = replaced(hay.skip(pat.len() as int), pat, val);
        assert(r == val + rr);
        if qlen <= val.len() {
            assert(val.subrange(0, qlen as int) =~= r.subrange(0, qlen as int));
            assert(is_prefix_of(q, val));
            assert(false);
        } else {
            assert forall|i: int| 0 <= i < val.len() implies q[i] == val[i] by {
                assert(r.subrange(0, qlen as int)[i] == q[i]);
            }
            assert(q.subrange(0, val.len() as int) =~= val);
            assert(is_prefix_of(val, q));
            assert(false);
        }
    } else {
        lemma_replaced_step_char(hay, pat, val);
        let rr = replaced(hay.skip(1), pat, val);
        assert(r == seq![hay[0]] + rr);
        assert(q[0] == r[0]);
        assert(q[0] == hay[0]);
        if qlen == 1 {
            assert(hay.subrange(0, 1) =~= q);
        } else {
            let q1 = pat.skip(j + 1);
            assert(q1 =~= q.skip(1));
            assert forall|i: int| 0 <= i < q1.len() implies q1[i] == rr[i] by {
                assert(q[i + 1] == r[i + 1]);
            }
            assert(q1.subrange(0, q1.len() as int) =~= q1);
            assert(rr.subrange(0, q1.len() as int) =~= q1);
            assert(is_prefix_of(q1, rr));
            lemma_replaced_prefix_literal(hay.skip(1), pat, val, j + 1);
            assert(hay.subrange(0, qlen as int) =~= q);
        }
    }
}

/// After substitution no occurrence of the token remains, provided the
/// value cannot conspire with its surroundings to rebuild the token: the
/// value does not contain the token, no suffix of the value starts the
/// token, and no proper tail of the token and the value prefix one
/// another.  Without those provisos a fresh occurrence can straddle a
/// replacement boundary.
pub proof fn lemma_replaced_no_token(hay: Seq<char>, pat: Seq<char>, val: Seq<char>)
    requires
        pat.len() > 0,
        !contains_sub(val, pat),
        no_suffix_prefix(pat, val),
        no_partial_rebuild(pat, val),
    ensures
        !contains_sub(replaced(hay, pat, val), pat),
    decreases hay.len(),
{
    let r = replaced(hay, pat, val);
    if contains_sub(r, pat) {
        let p = choose|i: int| match_at(r, pat, i);
        if hay.len() < pat.len() {
            assert(false);
        } else if match_at(hay, pat, 0) {
            let rest = hay.skip(pat.len() as int);
            let rr = replaced(rest, pat, val);
            assert(r == val + rr);
            if p + pat.len() <= val.len() {
                assert(val.subrange(p, p + pat.len() as int) =~= r.subrange(
                    p,
                    p + pat.len() as int,
                ));
                assert(match_at(val, pat, p));
                assert(false);
            } else if p >= val.len() {
                assert(rr.subrange(p - val.len(), p - val.len() + pat.len() as int) =~= r
                    .subrange(p, p + pat.len() as int));
                assert(match_at(rr, pat, p - val.len()));
                lemma_replaced_no_token(rest, pat, val);
                assert(false);
            } else {
                let k = p;
                assert(0 <= k < val.len());
                assert forall|i: int| 0 <= i < val.len() - k implies val.skip(k)[i] == pat[i] by {
                    assert(r.subrange(p, p + pat.len() as int)[i] == pat[i]);
                    assert(r[p + i] == val[k + i]);
                }
                assert(pat.subrange(0, val.len() - k) =~= val.skip(k));
                assert(is_prefix_of(val.skip(k), pat));
                assert(false);
            }
        } else {
            lemma_replaced_step_char(hay, pat, val);
            let rr = replaced(hay.skip(1), pat, val);
            assert(r == seq![hay[0]] + rr);
            if p >= 1 {
                assert(rr.subrange(p - 1, p - 1 + pat.len() as int) =~= r.subrange(
                    p,
                    p + pat.len() as int,
                ));
                assert(match_at(rr, pat, p - 1));
                lemma_replaced_no_token(hay.skip(1), pat, val);
                assert(false);
            } else {
                assert(pat[0] == r[0]);
                assert(pat[0] == hay[0]);
                if pat.len() == 1 {
                    assert(hay.subrange(0, 1) =~= pat);
                    assert(match_at(hay, pat, 0));
                    assert(false);
                } else {
                    let q1 = pat.skip(1);
                    assert forall|i: int| 0 <= i < q1.len() implies q1[i] == rr[i] by {
                        assert(r.subrange(0, pat.len() as int)[i + 1] == pat[i + 1]);
                    }
                    assert(rr.subrange(0, q1.len() as int) =~= q1);
                    assert(is_prefix_of(q1, rr));
                    lemma_replaced_prefix_literal(hay.skip(1), pat, val, 1);
                    assert(hay.skip(1).subrange(0, q1.len() as int) =~= q1);
                    assert(hay.subrange(0, pat.len() as int) =~= pat);
                    assert(match_at(hay, pat, 0));
                    assert(false);
                }
            }
        }
    }
}

} // verus!
