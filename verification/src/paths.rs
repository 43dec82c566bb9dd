//! Path strings and the operations the deployment engine needs on them.
//!
//! Paths are modelled as plain strings whose components are separated by
//! `'/'`. Joining appends a separator and a component; a path lies under a
//! base when it is the base, a separator, and a remainder.

use vstd::prelude::*;
use vstd::string::StrSliceExecFns;
use vstd::string::StringExecFns;

verus! {

/// The join of a base path and a relative path: `a`, a separator, `b`.
pub open spec fn join_paths(a: Seq<char>, b: Seq<char>) -> Seq<char> {
    a + seq!['/'] + b
}

/// `p` is a prefix of `s`.
pub open spec fn is_prefix_of(p: Seq<char>, s: Seq<char>) -> bool {
    p.len() <= s.len() && s.subrange(0, p.len() as int) == p
}

/// `path` lies strictly under the directory `base`.
pub open spec fn is_under(base: Seq<char>, path: Seq<char>) -> bool {
    is_prefix_of(base + seq!['/'], path)
}

/// What tilde expansion produces: a leading `~` that is the whole string or
/// is followed by `/` is replaced by `home`; anything else is unchanged.
pub open spec fn tilde_expanded(s: Seq<char>, home: Seq<char>) -> Seq<char> {
    if s.len() > 0 && s[0] == '~' && (s.len() == 1 || s[1] == '/') {
        home + s.skip(1)
    } else {
        s
    }
}

/// Concatenation of two string slices.
pub fn concat_str(a: &str, b: &str) -> (r: String)
    ensures
        r@ == a@ + b@,
{
    let mut s = a.to_owned();
    s.append(b);
    s
}

/// Joins a base path and a relative path with a separator.
pub fn path_join(a: &str, b: &str) -> (r: String)
    ensures
        r@ == join_paths(a@, b@),
{
    let mut s = a.to_owned();
    s.append("/");
    proof {
        reveal_strlit("/");
        assert(s@ =~= a@ + seq!['/']);
    }
    s.append(b);
    proof {
        assert(s@ =~= join_paths(a@, b@));
    }
    s
}

/// Whether `p` is a prefix of `s`, by characters.
pub fn str_has_prefix(s: &str, p: &str) -> (r: bool)
    ensures
        r == is_prefix_of(p@, s@),
{
    let sl: usize = s.unicode_len();
    let pl: usize = p.unicode_len();
    if pl > sl {
        return false;
    }
    let mut i: usize = 0;
    while i < pl
        invariant
            i <= pl,
            pl <= sl,
            pl == p@.len(),
            sl == s@.len(),
            forall|j: int| 0 <= j < i ==> s@[j] == p@[j],
        decreases pl - i,
    {
        if s.get_char(i) != p.get_char(i) {
            proof {
                assert(s@.subrange(0, p@.len() as int)[i as int] != p@[i as int]);
            }
            return false;
        }
        i = i + 1;
    }
    proof {
        assert(s@.subrange(0, p@.len() as int) =~= p@);
    }
    true
}

/// Character-for-character equality of two string slices.
pub fn str_eq(a: &str, b: &str) -> (r: bool)
    ensures
        r == (a@ == b@),
{
    let al: usize = a.unicode_len();
    let bl: usize = b.unicode_len();
    if al != bl {
        return false;
    }
    let mut i: usize = 0;
    while i < al
        invariant
            i <= al,
            al == a@.len(),
            al == b@.len(),
            forall|j: int| 0 <= j < i ==> a@[j] == b@[j],
        decreases al - i,
    {
        if a.get_char(i) != b.get_char(i) {
            return false;
        }
        i = i + 1;
    }
    proof {
        assert(a@ =~= b@);
    }
    true
}

/// If `path` lies under `base`, the remainder after the base and its
/// separator; otherwise nothing.
pub fn strip_prefix_dir(path: &str, base: &str) -> (r: Option<String>)
    ensures
        r is Some <==> is_under(base@, path@),
        r matches Some(rest) ==> path@ == join_paths(base@, rest@),
{
    let pre = concat_str(base, "/");
    proof {
        reveal_strlit("/");
        assert(pre@ =~= base@ + seq!['/']);
    }
    if !str_has_prefix(path, pre.as_str()) {
        return None;
    }
    let pl: usize = path.unicode_len();
    let bl: usize = pre.as_str().unicode_len();
    let rest = path.substring_char(bl, pl);
    proof {
        assert(path@ =~= join_paths(base@, rest@));
    }
    Some(rest.to_owned())
}

/// Relies on shellexpand::tilde_with_context: a leading `~` that stands
/// alone or is followed by `/` is replaced by the home directory the given
/// closure supplies; any other input comes back unchanged.
#[verifier::external_body]
pub(crate) fn expand_tilde(s: &str, home: &str) -> (r: String)
    ensures
        r@ == tilde_expanded(s@, home@),
{
    shellexpand::tilde_with_context(s, || Some(home)).into_owned()
}

} // verus!
