//! Artifact-name validation and deterministic listing.
//!
//! A firmware binary is served by name from a controlled root directory.
//! A name is admitted only if it is a relative path made of normal
//! components, so no request can ever reach a file outside the root.

use vstd::prelude::*;
use vstd::multiset::Multiset;
use crate::strutil::{is_ws, is_ws_char, lex_le, str_le, lemma_lex_le_total, lemma_lex_le_trans};

verus! {

/// Why an artifact name was rejected, before any file-system access.
#[derive(Clone, Copy, PartialEq, Eq, Structural, Debug)]
pub enum ArtifactNameError {
    /// The name is empty or only white space.
    Empty,
    /// The name is an absolute path.
    Absolute,
    /// The name holds a parent-directory or other non-normal component.
    NonNormal,
}

impl ArtifactNameError {
    /// The reason string reported to the caller.
    pub fn reason(&self) -> (r: &'static str)
        ensures
            r@ == self.spec_reason(),
    {
        match self {
            ArtifactNameError::Empty => "artifact name is required",
            ArtifactNameError::Absolute => "artifact name must be relative",
            ArtifactNameError::NonNormal => "artifact name must not contain parent directories",
        }
    }

    pub open spec fn spec_reason(&self) -> Seq<char> {
        match self {
            ArtifactNameError::Empty => "artifact name is required"@,
            ArtifactNameError::Absolute => "artifact name must be relative"@,
            ArtifactNameError::NonNormal => "artifact name must not contain parent directories"@,
        }
    }
}

/// Every character is white space (so the trimmed name is empty).
pub open spec fn all_ws(s: Seq<char>) -> bool {
    forall|j: int| 0 <= j < s.len() ==> is_ws_char(s[j])
}

/// A `..` path component stands at position `i`: it fills the span
/// between two separators (or the ends of the name).
pub open spec fn dotdot_at(s: Seq<char>, i: int) -> bool {
    &&& 0 <= i
    &&& i + 2 <= s.len()
    &&& s[i] == '.'
    &&& s[i + 1] == '.'
    &&& (i == 0 || s[i - 1] == '/')
    &&& (i + 2 == s.len() || s[i + 2] == '/')
}

/// The name holds a parent-directory component somewhere.
pub open spec fn has_dotdot(s: Seq<char>) -> bool {
    exists|i: int| dotdot_at(s, i)
}

/// The name begins with a lone `.` component.
pub open spec fn starts_with_curdir(s: Seq<char>) -> bool {
    s.len() >= 1 && s[0] == '.' && (s.len() == 1 || s[1] == '/')
}

/// The name has some non-normal path component: a leading `.` or a `..`
/// anywhere. (A `.` after the first component and empty components are
/// normalized away and are harmless.)
pub open spec fn has_non_normal_component(s: Seq<char>) -> bool {
    starts_with_curdir(s) || has_dotdot(s)
}

/// A safe artifact name: not blank, relative, and normal throughout.
pub open spec fn valid_artifact_name(s: Seq<char>) -> bool {
    &&& !all_ws(s)
    &&& s[0] != '/'
    &&& !has_non_normal_component(s)
}

/// Admits exactly the safe artifact names, and reports why a name was
/// refused: blank names first, then absolute paths, then non-normal
/// components. No file system is touched either way.
pub fn ensure_safe_artifact_name(name: &str) -> (r: Result<(), ArtifactNameError>)
    ensures
        r is Ok <==> valid_artifact_name(name@),
        r == Err::<(), ArtifactNameError>(ArtifactNameError::Empty) <==> all_ws(name@),
        r == Err::<(), ArtifactNameError>(ArtifactNameError::Absolute) <==> !all_ws(name@)
            && name@[0] == '/',
        r == Err::<(), ArtifactNameError>(ArtifactNameError::NonNormal) <==> !all_ws(name@)
            && name@[0] != '/' && has_non_normal_component(name@),
{
    let n = name.unicode_len();
    let mut i: usize = 0;
    while i < n && is_ws(name.get_char(i))
        invariant
            i <= n,
            n == name@.len(),
            forall|j: int| 0 <= j < i ==> is_ws_char(name@[j]),
        decreases n - i,
    {
        i += 1;
    }
    if i == n {
        return Err(ArtifactNameError::Empty);
    }
    assert(!all_ws(name@));
    if name.get_char(0) == '/' {
        return Err(ArtifactNameError::Absolute);
    }
    if name.get_char(0) == '.' && (n == 1 || name.get_char(1) == '/') {
        return Err(ArtifactNameError::NonNormal);
    }
    let mut k: usize = 0;
    while k < n
        invariant
            k <= n,
            n == name@.len(),
            !all_ws(name@),
            name@[0] != '/',
            forall|j: int| 0 <= j < k ==> !dotdot_at(name@, j),
        decreases n - k,
    {
        if n - k >= 2 && name.get_char(k) == '.' && name.get_char(k + 1) == '.' && (k == 0
            || name.get_char(k - 1) == '/') && (n - k == 2 || name.get_char(k + 2) == '/') {
            assert(dotdot_at(name@, k as int));
            return Err(ArtifactNameError::NonNormal);
        }
        assert(!dotdot_at(name@, k as int));
        k += 1;
    }
    assert(forall|j: int| !dotdot_at(name@, j)) by {
        assert(forall|j: int| j < 0 || j >= n ==> !dotdot_at(name@, j));
    }
    Ok(())
}

/// The mapped views of a vector of strings.
pub open spec fn views_of(s: Seq<String>) -> Seq<Seq<char>> {
    s.map_values(|x: String| x@)
}

/// Removing an element commutes with taking views.
proof fn lemma_views_of_remove(s: Seq<String>, i: int)
    requires
        0 <= i < s.len(),
    ensures
        views_of(s.remove(i)) =~= views_of(s).remove(i),
{
}

/// Pushing an element commutes with taking views.
proof fn lemma_views_of_push(s: Seq<String>, x: String)
    ensures
        views_of(s.push(x)) =~= views_of(s).push(x@),
{
}

/// Sorts file names lexicographically by Unicode scalar value, so a
/// directory listing is deterministic. The result is a permutation of
/// the input.
pub fn sort_names(names: Vec<String>) -> (r: Vec<String>)
    ensures
        views_of(r@).to_multiset() == views_of(names@).to_multiset(),
        forall|p: int, q: int|
            0 <= p < q < r@.len() ==> lex_le(r@[p]@, r@[q]@),
{
    let mut work = names;
    let mut out: Vec<String> = Vec::new();
    proof {
        vstd::seq_lib::lemma_multiset_commutative(views_of(out@), views_of(work@));
        assert(views_of(out@) + views_of(work@) =~= views_of(work@));
    }
    while work.len() > 0
        invariant
            views_of(out@).to_multiset().add(views_of(work@).to_multiset()) == views_of(
                names@,
            ).to_multiset(),
            forall|p: int, q: int| 0 <= p < q < out@.len() ==> lex_le(out@[p]@, out@[q]@),
            forall|p: int, q: int|
                0 <= p < out@.len() && 0 <= q < work@.len() ==> lex_le(out@[p]@, work@[q]@),
        decreases work@.len(),
    {
        let mut m: usize = 0;
        let mut c: usize = 1;
        proof {
            lemma_lex_le_total(work@[0]@, work@[0]@);
        }
        while c < work.len()
            invariant
                m < c <= work@.len(),
                forall|j: int| 0 <= j < c ==> lex_le(work@[m as int]@, work@[j]@),
            decreases work@.len() - c,
        {
            proof {
                lemma_lex_le_total(work@[m as int]@, work@[c as int]@);
            }
            if !str_le(&work[m], &work[c]) {
                proof {
                    assert forall|j: int| 0 <= j < c + 1 implies lex_le(
                        work@[c as int]@,
                        work@[j]@,
                    ) by {
                        if j < c {
                            lemma_lex_le_trans(work@[c as int]@, work@[m as int]@, work@[j]@);
                        } else {
                            lemma_lex_le_total(work@[c as int]@, work@[c as int]@);
                        }
                    }
                }
                m = c;
            }
            c += 1;
        }
        proof {
            lemma_lex_le_total(work@[m as int]@, work@[m as int]@);
        }
        let ghost old_out = out@;
        let ghost old_work = work@;
        let x = work.remove(m);
        out.push(x);
        proof {
            lemma_views_of_remove(old_work, m as int);
            lemma_views_of_push(old_out, x);
            broadcast use vstd::seq_lib::group_to_multiset_ensures;

            assert(views_of(out@).to_multiset() =~= views_of(old_out).to_multiset().insert(x@));
            assert(views_of(work@).to_multiset() =~= views_of(old_work).to_multiset().remove(x@));
            assert(views_of(old_work).to_multiset().count(x@) > 0);
            assert(views_of(out@).to_multiset().add(views_of(work@).to_multiset()) =~= views_of(
                old_out,
            ).to_multiset().add(views_of(old_work).to_multiset()));
        }
    }
    proof {
        broadcast use vstd::seq_lib::group_to_multiset_ensures;

        assert(views_of(work@).to_multiset().len() == 0);
        assert(views_of(work@).to_multiset() =~= Multiset::empty());
        assert(views_of(out@).to_multiset().add(Multiset::empty()) =~= views_of(
            out@,
        ).to_multiset());
    }
    out
}

} // verus!
