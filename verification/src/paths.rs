//! A string model of file-system paths.
//!
//! A path is a sequence of characters whose components are separated by
//! `/`.  File name and parent are read as std-style path inspection
//! reads them: trailing separators and trailing bare `.` components are
//! ignored, the file name is the last remaining component, and a last
//! component of `..` means the path has no file name.  Joining appends a
//! separator only when one is needed, and stripping a prefix removes a
//! leading root component-wise, as the orchestrator needs when it
//! mirrors a discovered archive's position under the output root.

use vstd::prelude::*;

verus! {

/// Index of the first character of the last component: one past the
/// last `/`, or `0` when the path holds no separator.
pub open spec fn name_start(s: Seq<char>) -> int
    decreases s.len(),
{
    if s.len() == 0 {
        0
    } else if s[s.len() - 1] == '/' {
        s.len() as int
    } else {
        name_start(s.drop_last())
    }
}

pub proof fn lemma_name_start(s: Seq<char>)
    ensures
        0 <= name_start(s) <= s.len(),
        forall|k: int| name_start(s) <= k < s.len() ==> s[k] != '/',
        name_start(s) > 0 ==> s[name_start(s) - 1] == '/',
    decreases s.len(),
{
    if s.len() == 0 {
    } else if s[s.len() - 1] == '/' {
    } else {
        lemma_name_start(s.drop_last());
        assert forall|k: int| name_start(s) <= k < s.len() implies s[k] != '/' by {
            if k < s.len() - 1 {
                assert(s.drop_last()[k] == s[k]);
            }
        }
    }
}

pub proof fn lemma_name_start_unique(s: Seq<char>, j: int)
    requires
        0 <= j <= s.len(),
        forall|k: int| j <= k < s.len() ==> s[k] != '/',
        j > 0 ==> s[j - 1] == '/',
    ensures
        name_start(s) == j,
    decreases s.len(),
{
    if s.len() == 0 {
    } else if s[s.len() - 1] == '/' {
        assert(j == s.len());
    } else {
        assert(j < s.len());
        lemma_name_start_unique(s.drop_last(), j);
    }
}

/// The sequence with its trailing separators removed.
pub open spec fn trim_end(s: Seq<char>) -> Seq<char>
    decreases s.len(),
{
    if s.len() > 0 && s[s.len() - 1] == '/' {
        trim_end(s.drop_last())
    } else {
        s
    }
}

pub proof fn lemma_trim_end_unique(s: Seq<char>, e: int)
    requires
        0 <= e <= s.len(),
        forall|k: int| e <= k < s.len() ==> s[k] == '/',
        e > 0 ==> s[e - 1] != '/',
    ensures
        trim_end(s) == s.take(e),
    decreases s.len(),
{
    if s.len() == 0 {
        assert(s.take(0) =~= s);
    } else if s[s.len() - 1] == '/' {
        assert(e < s.len());
        lemma_trim_end_unique(s.drop_last(), e);
        assert(s.drop_last().take(e) =~= s.take(e));
    } else {
        assert(e == s.len());
        assert(s.take(e) =~= s);
    }
}

/// The path with its tail normalized, as std-style path inspection
/// normalizes it: trailing separators and trailing bare `.` components
/// are dropped, one character at a time.
pub open spec fn norm_tail(s: Seq<char>) -> Seq<char>
    decreases s.len(),
{
    if s.len() == 0 {
        s
    } else if s[s.len() - 1] == '/' || (s[s.len() - 1] == '.' && (s.len() == 1 || s[s.len()
        - 2] == '/')) {
        norm_tail(s.drop_last())
    } else {
        s
    }
}

/// The file-name component: the last component of the normalized path.
/// Empty when the path is empty or all separators and `.` components.
pub open spec fn spec_file_name(s: Seq<char>) -> Seq<char> {
    let t = norm_tail(s);
    t.subrange(name_start(t), t.len() as int)
}

/// The parent reference, as a component.
pub open spec fn dot_dot() -> Seq<char> {
    seq!['.', '.']
}

/// Whether the path carries a usable file name: its last component is
/// neither missing nor the parent reference `..`.
pub open spec fn spec_has_file_name(s: Seq<char>) -> bool {
    spec_file_name(s).len() > 0 && spec_file_name(s) != dot_dot()
}

/// The parent: what precedes the file-name component of the normalized
/// path, with its own trailing separators trimmed; a parent that was
/// nothing but separators is the root `/`.
pub open spec fn spec_parent(s: Seq<char>) -> Seq<char> {
    let t = norm_tail(s);
    let raw = t.subrange(0, name_start(t));
    let p = trim_end(raw);
    if p.len() == 0 && raw.len() > 0 {
        seq!['/']
    } else {
        p
    }
}

/// One past the last character of the normalized tail.
fn norm_tail_end(path: &str) -> (m: usize)
    ensures
        m <= path@.len(),
        path@.take(m as int) == norm_tail(path@),
{
    let n = path.unicode_len();
    let mut m: usize = n;
    let mut more = true;
    proof {
        assert(path@.take(n as int) =~= path@);
    }
    while more
        invariant
            m <= n,
            n == path@.len(),
            norm_tail(path@) == norm_tail(path@.take(m as int)),
            !more ==> path@.take(m as int) == norm_tail(path@),
        decreases m + (if more {
            1int
        } else {
            0int
        }),
    {
        if m == 0 {
            more = false;
        } else {
            let c = path.get_char(m - 1);
            let strip = c == '/' || (c == '.' && (m == 1 || path.get_char(m - 2) == '/'));
            if strip {
                proof {
                    assert(path@.take(m as int).drop_last() =~= path@.take(m as int - 1));
                }
                m = m - 1;
            } else {
                more = false;
            }
        }
    }
    m
}

/// Position where the last component starts, as executable code.
pub fn find_name_start(path: &str) -> (j: usize)
    ensures
        j == name_start(path@),
{
    let n = path.unicode_len();
    let mut j: usize = n;
    while j > 0 && path.get_char(j - 1) != '/'
        invariant
            j <= n,
            n == path@.len(),
            forall|k: int| j <= k < path@.len() ==> path@[k] != '/',
        decreases j,
    {
        j = j - 1;
    }
    proof {
        lemma_name_start_unique(path@, j as int);
    }
    j
}

/// The file-name component of a path.
pub fn file_name_of(path: &str) -> (r: String)
    ensures
        r@ == spec_file_name(path@),
{
    let m = norm_tail_end(path);
    let t = path.substring_char(0, m);
    let j = find_name_start(t);
    proof {
        lemma_name_start(t@);
    }
    t.substring_char(j, m).to_owned()
}

/// The parent of a path.
pub fn parent_of(path: &str) -> (r: String)
    ensures
        r@ == spec_parent(path@),
{
    let m = norm_tail_end(path);
    let t = path.substring_char(0, m);
    let j = find_name_start(t);
    proof {
        lemma_name_start(t@);
    }
    let mut e: usize = j;
    while e > 0 && t.get_char(e - 1) == '/'
        invariant
            e <= j,
            j <= t@.len(),
            forall|k: int| e <= k < j ==> t@[k] == '/',
        decreases e,
    {
        e = e - 1;
    }
    proof {
        let raw = t@.subrange(0, j as int);
        assert(forall|k: int| e <= k < j ==> raw[k] == t@[k]);
        lemma_trim_end_unique(raw, e as int);
        assert(raw.take(e as int) =~= t@.subrange(0, e as int));
    }
    if e == 0 && j > 0 {
        proof {
            reveal_strlit("/");
            assert(("/")@ =~= seq!['/']);
        }
        let root = String::from_str("/");
        root
    } else {
        t.substring_char(0, e).to_owned()
    }
}

/// Error of a path that cannot be decomposed into file name and parent.
#[derive(Debug, Clone, Copy, PartialEq, Eq)]
pub enum PathError {
    NoFileName,
}

/// Splits a path into its file name and its parent, read as std-style
/// path inspection reads them.  Fails exactly when the path has no
/// usable file name: it is empty or nothing but separators and `.`
/// components, or its last component is `..`.
pub fn split_file_by_name(path: &str) -> (r: Result<(String, String), PathError>)
    ensures
        (r is Ok) <==> spec_has_file_name(path@),
        r is Ok ==> r.unwrap().0@ == spec_file_name(path@) && r.unwrap().1@ == spec_parent(path@),
        r is Err ==> r == Err::<(String, String), PathError>(PathError::NoFileName),
{
    let name = file_name_of(path);
    let nn = name.as_str().unicode_len();
    if nn == 0 {
        return Err(PathError::NoFileName);
    }
    if nn == 2 && name.as_str().get_char(0) == '.' && name.as_str().get_char(1) == '.' {
        proof {
            assert(name@ =~= dot_dot());
        }
        return Err(PathError::NoFileName);
    }
    proof {
        if name@ == dot_dot() {
            assert(name@.len() == 2 && name@[0] == '.' && name@[1] == '.');
        }
    }
    let parent = parent_of(path);
    Ok((name, parent))
}

/// `p` is a prefix of `s`.
pub open spec fn is_prefix(p: Seq<char>, s: Seq<char>) -> bool {
    p.len() <= s.len() && s.subrange(0, p.len() as int) == p
}

/// Joining a path and a relative part: a separator is inserted unless the
/// left side is empty or already ends in one.
pub open spec fn spec_join(a: Seq<char>, b: Seq<char>) -> Seq<char> {
    if a.len() == 0 {
        b
    } else if a[a.len() - 1] == '/' {
        a + b
    } else {
        a + seq!['/'] + b
    }
}

pub fn join_path(a: &str, b: &str) -> (r: String)
    ensures
        r@ == spec_join(a@, b@),
{
    let n = a.unicode_len();
    if n == 0 {
        return b.to_owned();
    }
    let mut s = a.to_owned();
    if a.get_char(n - 1) != '/' {
        s.append("/");
        proof {
            reveal_strlit("/");
            assert(("/")@ =~= seq!['/']);
        }
    }
    s.append(b);
    s
}

/// Stripping a root from a path, component-wise: the root must be a
/// prefix of the path and must end at a component boundary.  An empty
/// root strips nothing.
pub open spec fn spec_strip_prefix(p: Seq<char>, r: Seq<char>) -> Option<Seq<char>> {
    if r.len() == 0 {
        Some(p)
    } else if !is_prefix(r, p) {
        None
    } else if p.len() == r.len() {
        Some(Seq::<char>::empty())
    } else if r[r.len() - 1] == '/' {
        Some(p.skip(r.len() as int))
    } else if p[r.len() as int] == '/' {
        Some(p.skip(r.len() as int + 1))
    } else {
        None
    }
}

pub fn strip_prefix(path: &str, root: &str) -> (r: Option<String>)
    ensures
        r is Some <==> spec_strip_prefix(path@, root@) is Some,
        r is Some ==> r.unwrap()@ == spec_strip_prefix(path@, root@).unwrap(),
{
    let np = path.unicode_len();
    let nr = root.unicode_len();
    if nr == 0 {
        return Some(path.to_owned());
    }
    if np < nr {
        assert(!is_prefix(root@, path@));
        return None;
    }
    let mut i: usize = 0;
    while i < nr
        invariant
            i <= nr <= np,
            np == path@.len(),
            nr == root@.len(),
            forall|k: int| 0 <= k < i ==> path@[k] == root@[k],
        decreases nr - i,
    {
        if path.get_char(i) != root.get_char(i) {
            proof {
                assert(path@.subrange(0, nr as int)[i as int] != root@[i as int]);
            }
            return None;
        }
        i = i + 1;
    }
    proof {
        assert(path@.subrange(0, nr as int) =~= root@);
    }
    if np == nr {
        proof {
            assert(spec_strip_prefix(path@, root@) == Some(Seq::<char>::empty()));
        }
        let e = String::new();
        return Some(e);
    }
    if root.get_char(nr - 1) == '/' {
        let s = path.substring_char(nr, np);
        proof {
            assert(s@ =~= path@.skip(nr as int));
        }
        return Some(s.to_owned());
    }
    if path.get_char(nr) == '/' {
        let s = path.substring_char(nr + 1, np);
        proof {
            assert(s@ =~= path@.skip(nr as int + 1));
        }
        return Some(s.to_owned());
    }
    None
}

/// The placeholder that a naming template carries where the archive's
/// file name is substituted.
pub open spec fn placeholder() -> Seq<char> {
    seq!['{', 'F', 'I', 'L', 'E', 'N', 'A', 'M', 'E', '}']
}

/// Template substitution: every occurrence of the placeholder, scanned
/// left to right without overlap, is replaced by `name`.
pub open spec fn spec_apply_template(t: Seq<char>, name: Seq<char>) -> Seq<char>
    decreases t.len(),
{
    if t.len() == 0 {
        Seq::<char>::empty()
    } else if is_prefix(placeholder(), t) {
        name + spec_apply_template(t.skip(placeholder().len() as int), name)
    } else {
        seq![t[0]] + spec_apply_template(t.skip(1), name)
    }
}

fn matches_placeholder_at(t: &str, i: usize) -> (r: bool)
    requires
        i <= t@.len(),
    ensures
        r == is_prefix(placeholder(), t@.skip(i as int)),
{
    let n = t.unicode_len();
    if n - i < 10 {
        return false;
    }
    let r = t.get_char(i) == '{' && t.get_char(i + 1) == 'F' && t.get_char(i + 2) == 'I'
        && t.get_char(i + 3) == 'L' && t.get_char(i + 4) == 'E' && t.get_char(i + 5) == 'N'
        && t.get_char(i + 6) == 'A' && t.get_char(i + 7) == 'M' && t.get_char(i + 8) == 'E'
        && t.get_char(i + 9) == '}';
    proof {
        let s = t@.skip(i as int);
        if r {
            assert(s.subrange(0, 10) =~= placeholder());
        }
        if is_prefix(placeholder(), s) {
            assert forall|k: int| 0 <= k < 10 implies s[k] == placeholder()[k] by {
                assert(s.subrange(0, 10)[k] == s[k]);
            }
            assert(r);
        }
    }
    r
}

/// Builds the destination directory name from the configured template:
/// each `{FILENAME}` in the template is replaced by the given file name.
pub fn apply_template(template: &str, name: &str) -> (r: String)
    ensures
        r@ == spec_apply_template(template@, name@),
{
    let n = template.unicode_len();
    let mut out = String::new();
    let mut i: usize = 0;
    proof {
        assert(template@.skip(0) =~= template@);
        assert(out@ + spec_apply_template(template@, name@) =~= spec_apply_template(
            template@,
            name@,
        ));
    }
    while i < n
        invariant
            i <= n,
            n == template@.len(),
            out@ + spec_apply_template(template@.skip(i as int), name@) == spec_apply_template(
                template@,
                name@,
            ),
        decreases n - i,
    {
        let ghost pre = out@;
        let ghost s = template@.skip(i as int);
        if matches_placeholder_at(template, i) {
            out.append(name);
            proof {
                assert(s.skip(10) =~= template@.skip(i as int + 10));
                assert(pre + (name@ + spec_apply_template(s.skip(10), name@)) =~= (pre + name@)
                    + spec_apply_template(s.skip(10), name@));
            }
            i = i + 10;
        } else {
            let piece = template.substring_char(i, i + 1);
            out.append(piece);
            proof {
                assert(s[0] == template@[i as int]);
                assert(piece@ =~= seq![s[0]]);
                assert(s.skip(1) =~= template@.skip(i as int + 1));
                assert(pre + (piece@ + spec_apply_template(s.skip(1), name@)) =~= (pre + piece@)
                    + spec_apply_template(s.skip(1), name@));
            }
            i = i + 1;
        }
    }
    proof {
        assert(template@.skip(n as int) =~= Seq::<char>::empty());
        assert(out@ + Seq::<char>::empty() =~= out@);
    }
    out
}

/// Case-insensitive equality against a reference character that is a
/// lower-case ASCII letter or another fixed character.
pub open spec fn eq_ci(a: char, b: char) -> bool {
    a == b || (65 <= a as int && a as int <= 90 && a as int + 32 == b as int)
}

/// `s` ends with `suf`, compared case-insensitively; `suf` is spelt in
/// lower case.
pub open spec fn has_suffix_ci(s: Seq<char>, suf: Seq<char>) -> bool {
    s.len() >= suf.len() && forall|k: int|
        0 <= k < suf.len() ==> eq_ci(s[s.len() - suf.len() + k], suf[k])
}

/// Case-insensitive comparison of one character pair, as executable code.
pub fn eq_ci_exec(a: char, b: char) -> (r: bool)
    ensures
        r == eq_ci(a, b),
{
    let x = a as u32;
    let y = b as u32;
    a == b || (65 <= x && x <= 90 && x + 32 == y)
}

} // verus!
