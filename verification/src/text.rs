//! Username normalization: a verified whitespace trim.
//!
//! Usernames are compared and stored after stripping leading and trailing
//! whitespace, and a username that is empty after the strip is rejected.

use vstd::prelude::*;
use vstd::string::StrSliceExecFns;
use vstd::string::StringExecFns;

verus! {

/// The whitespace characters stripped from the ends of a username.
pub open spec fn is_space_char(c: char) -> bool {
    c == ' ' || c == '\t' || c == '\n' || c == '\r'
}

/// The sequence with its leading whitespace removed.
pub open spec fn trim_front(s: Seq<char>) -> Seq<char>
    decreases s.len(),
{
    if s.len() == 0 {
        s
    } else if is_space_char(s[0]) {
        trim_front(s.drop_first())
    } else {
        s
    }
}

/// The sequence with its trailing whitespace removed.
pub open spec fn trim_back(s: Seq<char>) -> Seq<char>
    decreases s.len(),
{
    if s.len() == 0 {
        s
    } else if is_space_char(s.last()) {
        trim_back(s.drop_last())
    } else {
        s
    }
}

/// The sequence with whitespace removed from both ends: the normal form of a
/// username.
pub open spec fn trimmed(s: Seq<char>) -> Seq<char> {
    trim_back(trim_front(s))
}

/// When the first `i` characters are whitespace and the next one (if any) is
/// not, trimming the front keeps exactly the characters from `i` on.
proof fn lemma_trim_front_skip(s: Seq<char>, i: int)
    requires
        0 <= i <= s.len(),
        forall|k: int| 0 <= k < i ==> is_space_char(s[k]),
        i == s.len() || !is_space_char(s[i]),
    ensures
        trim_front(s) == s.skip(i),
    decreases i,
{
    if i == 0 {
        assert(trim_front(s) == s.skip(0)) by {
            assert(s.skip(0) =~= s);
        }
    } else {
        lemma_trim_front_skip(s.drop_first(), i - 1);
        assert(s.drop_first().skip(i - 1) =~= s.skip(i));
    }
}

/// When the characters from `j` on are whitespace and the one before `j`
/// (if any) is not, trimming the back keeps exactly the first `j` characters.
proof fn lemma_trim_back_take(s: Seq<char>, j: int)
    requires
        0 <= j <= s.len(),
        forall|k: int| j <= k < s.len() ==> is_space_char(s[k]),
        j == 0 || !is_space_char(s[j - 1]),
    ensures
        trim_back(s) == s.take(j),
    decreases s.len() - j,
{
    if j == s.len() {
        assert(trim_back(s) == s.take(j)) by {
            assert(s.take(s.len() as int) =~= s);
        }
    } else {
        lemma_trim_back_take(s.drop_last(), j);
        assert(s.drop_last().take(j) =~= s.take(j));
    }
}

/// Strip leading and trailing whitespace from a username.
pub fn trim_spaces(s: &str) -> (r: String)
    ensures
        r@ == trimmed(s@),
{
    let n = s.unicode_len();
    let mut i: usize = 0;
    while i < n && is_space(s.get_char(i))
        invariant
            0 <= i <= n,
            n == s@.len(),
            forall|k: int| 0 <= k < i ==> is_space_char(s@[k]),
        decreases n - i,
    {
        i = i + 1;
    }
    let mut j: usize = n;
    while j > i && is_space(s.get_char(j - 1))
        invariant
            i <= j <= n,
            n == s@.len(),
            forall|k: int| 0 <= k < i ==> is_space_char(s@[k]),
            i == n || !is_space_char(s@[i as int]),
            forall|k: int| j <= k < n ==> is_space_char(s@[k]),
        decreases j,
    {
        j = j - 1;
    }
    let part = s.substring_char(i, j);
    proof {
        lemma_trim_front_skip(s@, i as int);
        if i == j {
            assert(trim_back(s@.skip(i as int)) == s@.skip(i as int).take(0)) by {
                lemma_trim_back_take(s@.skip(i as int), 0);
            }
            assert(part@ =~= s@.skip(i as int).take(0));
        } else {
            // j > i, so s@[j - 1] is not whitespace and everything past it is.
            assert(trim_back(s@.skip(i as int)) == s@.skip(i as int).take(j - i)) by {
                lemma_trim_back_take(s@.skip(i as int), j - i);
            }
            assert(part@ =~= s@.skip(i as int).take(j - i));
        }
    }
    part.to_owned()
}

/// Whether a character counts as whitespace for username trimming.
pub fn is_space(c: char) -> (b: bool)
    ensures
        b == is_space_char(c),
{
    c == ' ' || c == '\t' || c == '\n' || c == '\r'
}

} // verus!
