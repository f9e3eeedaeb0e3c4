//! Ignore-list matching.
//!
//! Each pattern of a [`NoWalkList`] is a regular expression over the
//! full path string.  A scan prunes an entry when some pattern matches
//! the entry's own path or the path of any enclosing directory below
//! the scanned root, so nothing under a matched directory is ever
//! reported.  Matching itself is done by the `regex` crate; its result
//! is named here and everything around it is verified against the name.

use vstd::prelude::*;

use crate::data::NoWalkList;

verus! {

pub uninterp spec fn re_valid(pattern: Seq<char>) -> bool;

pub uninterp spec fn re_match(pattern: Seq<char>, text: Seq<char>) -> bool;

/// Relies on regex::Regex::new: whether a pattern compiles is a function
/// of the pattern text alone.
#[verifier::external_body]
fn regex_is_valid(pattern: &str) -> (r: bool)
    ensures
        r == re_valid(pattern@),
{
    regex::Regex::new(pattern).is_ok()
}

/// Relies on regex::Regex::new and regex::Regex::is_match: whether the
/// compiled pattern matches the text is a function of pattern and text
/// alone; a pattern that does not compile matches nothing.
#[verifier::external_body]
fn regex_is_match(pattern: &str, text: &str) -> (r: bool)
    ensures
        r == (re_valid(pattern@) && re_match(pattern@, text@)),
{
    match regex::Regex::new(pattern) {
        Ok(re) => re.is_match(text),
        Err(_) => false,
    }
}

/// Some pattern of the list compiles and matches the text.
pub open spec fn list_matches(patterns: Seq<Seq<char>>, text: Seq<char>) -> bool {
    exists|i: int|
        0 <= i < patterns.len() && re_valid(patterns[i]) && re_match(patterns[i], text)
}

/// Every pattern of the list compiles.
pub open spec fn all_valid(patterns: Seq<Seq<char>>) -> bool {
    forall|i: int| 0 <= i < patterns.len() ==> re_valid(patterns[i])
}

/// `m` ends a path component of `path`: it sits on a `/` or at the end.
pub open spec fn is_boundary(path: Seq<char>, m: int) -> bool {
    0 < m <= path.len() && (m == path.len() || path[m] == '/')
}

/// The walk prunes `path` under a root of length `root_len` when the
/// list matches the path itself or any enclosing directory strictly
/// below the root.
pub open spec fn spec_pruned(root_len: int, patterns: Seq<Seq<char>>, path: Seq<char>) -> bool {
    exists|m: int|
        is_boundary(path, m) && root_len < m && list_matches(patterns, path.take(m))
}

impl NoWalkList {
    /// Whether some ignore pattern matches the text.
    pub fn is_ignored(&self, text: &str) -> (r: bool)
        ensures
            r == list_matches(self.patterns(), text@),
    {
        let n = self.ignores.len();
        let mut i: usize = 0;
        while i < n
            invariant
                i <= n,
                n == self.ignores.len(),
                forall|k: int|
                    0 <= k < i ==> !(re_valid(self.patterns()[k]) && re_match(
                        self.patterns()[k],
                        text@,
                    )),
            decreases n - i,
        {
            if regex_is_match(self.ignores[i].as_str(), text) {
                proof {
                    assert(re_valid(self.patterns()[i as int]) && re_match(
                        self.patterns()[i as int],
                        text@,
                    ));
                }
                return true;
            }
            i = i + 1;
        }
        false
    }

    /// Whether every ignore pattern is a valid regular expression.
    pub fn all_patterns_valid(&self) -> (r: bool)
        ensures
            r == all_valid(self.patterns()),
    {
        let n = self.ignores.len();
        let mut i: usize = 0;
        while i < n
            invariant
                i <= n,
                n == self.ignores.len(),
                forall|k: int| 0 <= k < i ==> re_valid(self.patterns()[k]),
            decreases n - i,
        {
            if !regex_is_valid(self.ignores[i].as_str()) {
                proof {
                    assert(!re_valid(self.patterns()[i as int]));
                }
                return false;
            }
            i = i + 1;
        }
        true
    }

    /// Whether a walk honoring this list prunes `path` when scanning a
    /// root of length `root_len`: some pattern matches the path or an
    /// enclosing directory strictly below the root.
    pub fn prunes(&self, root_len: usize, path: &str) -> (r: bool)
        ensures
            r == spec_pruned(root_len as int, self.patterns(), path@),
    {
        let n = path.unicode_len();
        if root_len >= n {
            return false;
        }
        if self.is_ignored(path) {
            proof {
                assert(path@.take(n as int) =~= path@);
                assert(is_boundary(path@, n as int) && root_len < n as int && list_matches(
                    self.patterns(),
                    path@.take(n as int),
                ));
            }
            return true;
        }
        let mut m: usize = root_len + 1;
        proof {
            assert(path@.take(n as int) =~= path@);
        }
        while m < n
            invariant
                root_len < m <= n,
                n == path@.len(),
                !list_matches(self.patterns(), path@.take(n as int)),
                forall|j: int|
                    root_len < j < m && is_boundary(path@, j) ==> !list_matches(
                        self.patterns(),
                        path@.take(j),
                    ),
            decreases n - m,
        {
            if path.get_char(m) == '/' {
                let prefix = path.substring_char(0, m);
                proof {
                    assert(prefix@ =~= path@.take(m as int));
                }
                if self.is_ignored(prefix) {
                    proof {
                        assert(is_boundary(path@, m as int) && root_len < m as int
                            && list_matches(self.patterns(), path@.take(m as int)));
                    }
                    return true;
                }
            }
            m = m + 1;
        }
        proof {
            assert forall|j: int|
                is_boundary(path@, j) && root_len < j implies !list_matches(
                self.patterns(),
                path@.take(j),
            ) by {
                if j == n as int {
                    assert(path@.take(n as int) =~= path@);
                }
            }
        }
        false
    }
}

} // verus!
