//! Absolute paths in their string form.
//!
//! A path is a sequence of characters in which `/` separates the pieces.
//! Empty pieces and pieces that are a single `.` carry no meaning and are
//! skipped wherever a path is cut.

use vstd::prelude::*;
use vstd::std_specs::cmp::PartialEqSpecImpl;
use vstd::string::*;
use crate::apperror::PathError;

verus! {

/// A path is rooted when it begins with the separator.
pub open spec fn has_root(p: Seq<char>) -> bool {
    p.len() > 0 && p[0] == '/'
}

/// The first piece of `p` is `c` written `n` times (once or twice), and `p`
/// does not begin with the separator.
pub open spec fn leads_with(p: Seq<char>, c: char, n: int) -> bool {
    &&& p.len() >= n
    &&& p[0] == c
    &&& (n == 2 ==> p[1] == c)
    &&& (p.len() == n || p[n] == '/')
}

/// `p` with every occurrence of `/./` from index `i` on replaced by `/`,
/// scanning from the left and never looking back into a replaced part.
pub open spec fn squeeze_from(p: Seq<char>, i: int) -> Seq<char>
    decreases p.len() - i,
{
    if i < 0 || i >= p.len() {
        Seq::empty()
    } else if i + 2 < p.len() && p[i] == '/' && p[i + 1] == '.' && p[i + 2] == '/' {
        seq!['/'] + squeeze_from(p, i + 3)
    } else {
        seq![p[i]] + squeeze_from(p, i + 1)
    }
}

/// The index at which the first meaningful piece at or after `i` begins.
pub open spec fn trim_left_at(p: Seq<char>, i: int) -> int
    decreases p.len() - i,
{
    if i < 0 || i >= p.len() {
        i
    } else if p[i] == '/' {
        trim_left_at(p, i + 1)
    } else if p[i] == '.' && (i + 1 == p.len() || p[i + 1] == '/') {
        trim_left_at(p, i + 1)
    } else {
        i
    }
}

/// The index just behind the last meaningful piece of `p[lo..j]`, never
/// below `lo`.
pub open spec fn trim_right_at(p: Seq<char>, lo: int, j: int) -> int
    decreases j,
{
    if j <= lo || j > p.len() || lo < 0 {
        j
    } else if p[j - 1] == '/' {
        trim_right_at(p, lo, j - 1)
    } else if p[j - 1] == '.' && (j - 1 == lo || p[j - 2] == '/') {
        trim_right_at(p, lo, j - 1)
    } else {
        j
    }
}

/// What is left of `p` behind its first `n` characters, without the
/// meaningless pieces at either end.
pub open spec fn rest_after(p: Seq<char>, n: int) -> Seq<char> {
    let lo = trim_left_at(p, n);
    let hi = trim_right_at(p, lo, p.len() as int);
    p.subrange(lo, hi)
}

/// `seg` appended to `base`: a rooted `seg` replaces `base`; otherwise one
/// separator is put between them unless `base` is empty or ends in one.
pub open spec fn pushed(base: Seq<char>, seg: Seq<char>) -> Seq<char> {
    if has_root(seg) {
        seg
    } else if base.len() > 0 && base.last() != '/' {
        base + seq!['/'] + seg
    } else {
        base + seg
    }
}

/// The index of the separator in front of the last piece of `p[..j]`, or 0.
pub open spec fn piece_start(p: Seq<char>, j: int) -> int
    decreases j,
{
    if j <= 0 || j > p.len() {
        0
    } else if p[j - 1] == '/' {
        j
    } else {
        piece_start(p, j - 1)
    }
}

/// The parent of a rooted path: the path without its last meaningful piece,
/// or `None` where it has none.
pub open spec fn parent_of(p: Seq<char>) -> Option<Seq<char>> {
    let end = trim_right_at(p, 1, p.len() as int);
    if !has_root(p) || end <= 1 {
        None
    } else {
        Some(p.subrange(0, trim_right_at(p, 1, piece_start(p, end))))
    }
}

/// A directory taken from the environment counts only when it is rooted.
pub open spec fn known_dir(d: Option<Seq<char>>) -> Option<Seq<char>> {
    match d {
        Some(s) if has_root(s) => Some(s),
        _ => None,
    }
}

/// The home directory put in place of a leading `~`.
pub open spec fn tilde_expanded(p: Seq<char>, home: Option<Seq<char>>) -> Option<Seq<char>> {
    if leads_with(p, '~', 1) {
        match known_dir(home) {
            Some(h) => Some(pushed(h, rest_after(p, 1))),
            None => None,
        }
    } else {
        Some(p)
    }
}

/// A leading `..` resolved against the parent of the working directory and
/// a leading `.` against the working directory itself.
pub open spec fn dots_expanded(p: Seq<char>, cwd: Option<Seq<char>>) -> Option<Seq<char>> {
    if leads_with(p, '.', 2) {
        match known_dir(cwd) {
            Some(c) => match parent_of(c) {
                Some(up) => Some(pushed(up, rest_after(p, 2))),
                None => None,
            },
            None => None,
        }
    } else if leads_with(p, '.', 1) {
        match known_dir(cwd) {
            Some(c) => Some(pushed(c, rest_after(p, 1))),
            None => None,
        }
    } else {
        Some(p)
    }
}

/// The expansion of `p`: `/./` squeezed out, then a leading `~`, `..` or `.`
/// resolved. `None` where a directory that is needed is not known.
pub open spec fn expanded(p: Seq<char>, home: Option<Seq<char>>, cwd: Option<Seq<char>>) -> Option<
    Seq<char>,
> {
    match tilde_expanded(squeeze_from(p, 0), home) {
        Some(q) => dots_expanded(q, cwd),
        None => None,
    }
}

/// The absolute form of `p`: its expansion, put under the working
/// directory where it is not rooted.
pub open spec fn resolved(p: Seq<char>, home: Option<Seq<char>>, cwd: Option<Seq<char>>) -> Option<
    Seq<char>,
> {
    match expanded(p, home, cwd) {
        Some(q) => if has_root(q) {
            Some(q)
        } else {
            match known_dir(cwd) {
                Some(c) => Some(pushed(c, q)),
                None => None,
            }
        },
        None => None,
    }
}

/// `seg` put under `base`, a rooted `seg` first losing its root.
pub open spec fn joined(base: Seq<char>, seg: Seq<char>) -> Seq<char> {
    if has_root(seg) {
        pushed(base, rest_after(seg, 1))
    } else {
        pushed(base, seg)
    }
}

/// What the process knows of its surroundings.
#[derive(Debug)]
pub struct PathEnv {
    /// The user's home directory.
    pub home: Option<String>,
    /// The working directory.
    pub cwd: Option<String>,
}

impl PathEnv {
    /// The home directory as a sequence of characters.
    pub open spec fn home_dir(&self) -> Option<Seq<char>> {
        match self.home {
            Some(h) => Some(h@),
            None => None,
        }
    }

    /// The working directory as a sequence of characters.
    pub open spec fn work_dir(&self) -> Option<Seq<char>> {
        match self.cwd {
            Some(c) => Some(c@),
            None => None,
        }
    }
}

fn rooted(p: &str) -> (b: bool)
    ensures
        b == has_root(p@),
{
    p.unicode_len() > 0 && p.get_char(0) == '/'
}

fn leads(p: &str, c: char, n: usize) -> (b: bool)
    requires
        1 <= n <= 2,
    ensures
        b == leads_with(p@, c, n as int),
{
    let len: usize = p.unicode_len();
    if len < n {
        return false;
    }
    if p.get_char(0) != c {
        return false;
    }
    if n == 2 && p.get_char(1) != c {
        return false;
    }
    len == n || p.get_char(n) == '/'
}

fn squeeze(p: &str) -> (out: String)
    ensures
        out@ == squeeze_from(p@, 0),
{
    let len: usize = p.unicode_len();
    let mut out = String::new();
    let mut i: usize = 0;
    proof {
        reveal_strlit("/");
        assert("/"@ =~= seq!['/']);
    }
    while i < len
        invariant
            len == p@.len(),
            "/"@ == seq!['/'],
            i <= len,
            out@ + squeeze_from(p@, i as int) == squeeze_from(p@, 0),
        decreases len - i,
    {
        let ghost before = out@;
        if len - i > 2 && p.get_char(i) == '/' && p.get_char(i + 1) == '.' && p.get_char(i + 2)
            == '/' {
            out.append("/");
            assert(out@ == before + seq!['/']);
            assert(out@ + squeeze_from(p@, i + 3) == before + (seq!['/'] + squeeze_from(
                p@,
                i + 3,
            )));
            i += 3;
        } else {
            out.append(p.substring_char(i, i + 1));
            assert(p@.subrange(i as int, i + 1) == seq![p@[i as int]]);
            assert(out@ + squeeze_from(p@, i + 1) == before + (seq![p@[i as int]] + squeeze_from(
                p@,
                i + 1,
            )));
            i += 1;
        }
    }
    assert(squeeze_from(p@, i as int) == Seq::<char>::empty());
    assert(out@ + Seq::<char>::empty() == out@);
    out
}

fn trim_left(p: &str, start: usize) -> (lo: usize)
    requires
        start <= p@.len(),
    ensures
        lo == trim_left_at(p@, start as int),
        start <= lo <= p@.len(),
{
    let len: usize = p.unicode_len();
    let mut i: usize = start;
    let mut done = false;
    while i < len && !done
        invariant
            len == p@.len(),
            start <= i <= len,
            trim_left_at(p@, i as int) == trim_left_at(p@, start as int),
            done ==> trim_left_at(p@, i as int) == i,
        decreases len - i + if done { 0int } else { 1int },
    {
        let c = p.get_char(i);
        if c == '/' || (c == '.' && (i + 1 == len || p.get_char(i + 1) == '/')) {
            i += 1;
        } else {
            done = true;
        }
    }
    i
}

fn trim_right(p: &str, lo: usize, end: usize) -> (hi: usize)
    requires
        lo <= end <= p@.len(),
    ensures
        hi == trim_right_at(p@, lo as int, end as int),
        lo <= hi <= end,
{
    let mut j: usize = end;
    let mut done = false;
    while j > lo && !done
        invariant
            lo <= j <= end <= p@.len(),
            trim_right_at(p@, lo as int, j as int) == trim_right_at(p@, lo as int, end as int),
            done ==> trim_right_at(p@, lo as int, j as int) == j,
        decreases j + if done { 0int } else { 1int },
    {
        let c = p.get_char(j - 1);
        if c == '/' || (c == '.' && (j - 1 == lo || p.get_char(j - 2) == '/')) {
            j -= 1;
        } else {
            done = true;
        }
    }
    j
}

fn rest(p: &str, n: usize) -> (r: &str)
    requires
        n <= p@.len(),
    ensures
        r@ == rest_after(p@, n as int),
{
    let lo: usize = trim_left(p, n);
    let hi: usize = trim_right(p, lo, p.unicode_len());
    p.substring_char(lo, hi)
}

fn push(base: &str, seg: &str) -> (out: String)
    ensures
        out@ == pushed(base@, seg@),
{
    if rooted(seg) {
        return String::from_str(seg);
    }
    let len: usize = base.unicode_len();
    let mut out = String::from_str(base);
    if len > 0 && base.get_char(len - 1) != '/' {
        proof {
            reveal_strlit("/");
            assert("/"@ =~= seq!['/']);
        }
        out.append("/");
    }
    out.append(seg);
    out
}

fn last_piece(p: &str, end: usize) -> (at: usize)
    requires
        end <= p@.len(),
    ensures
        at == piece_start(p@, end as int),
        at <= end,
{
    let mut j: usize = end;
    let mut done = false;
    while j > 0 && !done
        invariant
            j <= end <= p@.len(),
            piece_start(p@, j as int) == piece_start(p@, end as int),
            done ==> piece_start(p@, j as int) == j,
        decreases j + if done { 0int } else { 1int },
    {
        if p.get_char(j - 1) == '/' {
            done = true;
        } else {
            j -= 1;
        }
    }
    j
}

fn parent_str(p: &str) -> (r: Option<String>)
    ensures
        match parent_of(p@) {
            Some(q) => r.is_some() && r.unwrap()@ == q,
            None => r.is_none(),
        },
{
    if !rooted(p) {
        return None;
    }
    let end: usize = trim_right(p, 1, p.unicode_len());
    if end <= 1 {
        return None;
    }
    let cut: usize = last_piece(p, end);
    proof {
        lemma_piece_start_rooted(p@, end as int);
    }
    let hi: usize = trim_right(p, 1, cut);
    Some(String::from_str(p.substring_char(0, hi)))
}

fn known(d: &Option<String>) -> (r: Option<&str>)
    ensures
        match known_dir(
            match *d {
                Some(s) => Some(s@),
                None => None,
            },
        ) {
            Some(q) => r matches Some(s) && s@ == q,
            None => r is None,
        },
{
    match d {
        Some(s) => if rooted(s.as_str()) {
            Some(s.as_str())
        } else {
            None
        },
        None => None,
    }
}

/// An absolute path, held in its string form. It always begins with the
/// separator.
#[derive(Debug)]
pub struct AbsPath {
    path: String,
}

impl View for AbsPath {
    type V = Seq<char>;

    closed spec fn view(&self) -> Seq<char> {
        self.path@
    }
}

impl PartialEq for AbsPath {
    fn eq(&self, other: &AbsPath) -> (r: bool) {
        self.path == other.path
    }
}

impl PartialEqSpecImpl for AbsPath {
    open spec fn obeys_eq_spec() -> bool {
        true
    }

    open spec fn eq_spec(&self, other: &AbsPath) -> bool {
        self@ == other@
    }
}

impl Eq for AbsPath {

}

impl Clone for AbsPath {
    fn clone(&self) -> (r: Self)
        ensures
            r@ == self@,
    {
        proof {
            use_type_invariant(self);
        }
        AbsPath { path: self.path.clone() }
    }
}

impl AbsPath {
    #[verifier::type_invariant]
    spec fn rooted_inv(self) -> bool {
        has_root(self.path@)
    }

    /// Expands `p` without making it absolute: `/./` is squeezed out and a
    /// leading `~`, `..` or `.` is resolved against `env`. Any other path
    /// comes back as it is after the squeeze.
    pub fn expand(p: &str, env: &PathEnv) -> (r: Result<String, PathError>)
        ensures
            match expanded(p@, env.home_dir(), env.work_dir()) {
                Some(q) => r matches Ok(s) && s@ == q,
                None => r matches Err(e) && e == PathError::InvalidPath,
            },
    {
        let squeezed = squeeze(p);
        let homed: String = if leads(squeezed.as_str(), '~', 1) {
            match known(&env.home) {
                Some(h) => push(h, rest(squeezed.as_str(), 1)),
                None => {
                    return Err(PathError::InvalidPath);
                },
            }
        } else {
            squeezed
        };
        if leads(homed.as_str(), '.', 2) {
            match known(&env.cwd) {
                Some(c) => match parent_str(c) {
                    Some(up) => Ok(push(up.as_str(), rest(homed.as_str(), 2))),
                    None => Err(PathError::InvalidPath),
                },
                None => Err(PathError::InvalidPath),
            }
        } else if leads(homed.as_str(), '.', 1) {
            match known(&env.cwd) {
                Some(c) => Ok(push(c, rest(homed.as_str(), 1))),
                None => Err(PathError::InvalidPath),
            }
        } else {
            Ok(homed)
        }
    }

    /// Makes `p` absolute: its expansion, put under the working directory
    /// where it is not rooted. Fails exactly where a directory that is
    /// needed is not known as an absolute path.
    pub fn new(p: &str, env: &PathEnv) -> (r: Result<AbsPath, PathError>)
        ensures
            match resolved(p@, env.home_dir(), env.work_dir()) {
                Some(q) => r matches Ok(a) && a@ == q,
                None => r matches Err(e) && e == PathError::InvalidPath,
            },
    {
        let q = match AbsPath::expand(p, env) {
            Ok(q) => q,
            Err(e) => {
                return Err(e);
            },
        };
        if rooted(q.as_str()) {
            Ok(AbsPath { path: q })
        } else {
            match known(&env.cwd) {
                Some(c) => Ok(AbsPath { path: push(c, q.as_str()) }),
                None => Err(PathError::InvalidPath),
            }
        }
    }

    /// The path without its last meaningful piece; fails on a root.
    pub fn parent(&self) -> (r: Result<AbsPath, PathError>)
        ensures
            has_root(self@),
            match parent_of(self@) {
                Some(q) => r matches Ok(a) && a@ == q,
                None => r matches Err(e) && e == PathError::NoParent,
            },
    {
        proof {
            use_type_invariant(self);
            lemma_parent_rooted(self.path@);
        }
        match parent_str(self.path.as_str()) {
            Some(q) => Ok(AbsPath { path: q }),
            None => Err(PathError::NoParent),
        }
    }

    /// Puts `segment` under this path. A rooted segment loses its root
    /// first, so the result always lies under this path.
    pub fn join(&self, segment: &str) -> (r: AbsPath)
        ensures
            has_root(self@),
            r@ == joined(self@, segment@),
    {
        proof {
            use_type_invariant(self);
        }
        if rooted(segment) {
            proof {
                lemma_rest_not_rooted(segment@, 1);
            }
            AbsPath { path: push(self.path.as_str(), rest(segment, 1)) }
        } else {
            AbsPath { path: push(self.path.as_str(), segment) }
        }
    }

    /// The path as text.
    pub fn as_str(&self) -> (s: &str)
        ensures
            s@ == self@,
            has_root(self@),
    {
        proof {
            use_type_invariant(self);
        }
        self.path.as_str()
    }

    /// The path as an owned string.
    pub fn to_string(&self) -> (s: String)
        ensures
            s@ == self@,
            has_root(self@),
    {
        proof {
            use_type_invariant(self);
        }
        self.path.clone()
    }
}

/// The parent of a rooted path is rooted.
pub proof fn lemma_parent_rooted(p: Seq<char>)
    ensures
        parent_of(p) matches Some(q) ==> has_root(q),
{
    if has_root(p) {
        lemma_trim_right_bounds(p, 1, p.len() as int);
        let end = trim_right_at(p, 1, p.len() as int);
        if end > 1 {
            lemma_piece_start_rooted(p, end);
            lemma_trim_right_bounds(p, 1, piece_start(p, end));
        }
    }
}

/// A path that was made absolute is rooted.
pub proof fn lemma_resolved_rooted(p: Seq<char>, home: Option<Seq<char>>, cwd: Option<Seq<char>>)
    ensures
        resolved(p, home, cwd) matches Some(q) ==> has_root(q),
{
}

/// Trimming on the left stops at a character that is not the separator.
pub proof fn lemma_trim_left_stops(p: Seq<char>, i: int)
    requires
        0 <= i <= p.len(),
    ensures
        i <= trim_left_at(p, i) <= p.len(),
        trim_left_at(p, i) < p.len() ==> p[trim_left_at(p, i)] != '/',
    decreases p.len() - i,
{
    if i < p.len() && (p[i] == '/' || (p[i] == '.' && (i + 1 == p.len() || p[i + 1] == '/'))) {
        lemma_trim_left_stops(p, i + 1);
    }
}

/// Trimming on the right stays between its two bounds.
pub proof fn lemma_trim_right_bounds(p: Seq<char>, lo: int, j: int)
    requires
        0 <= lo <= j <= p.len(),
    ensures
        lo <= trim_right_at(p, lo, j) <= j,
    decreases j,
{
    if j > lo && (p[j - 1] == '/' || (p[j - 1] == '.' && (j - 1 == lo || p[j - 2] == '/'))) {
        lemma_trim_right_bounds(p, lo, j - 1);
    }
}

/// What is left behind the first `n` characters of a path is never rooted.
pub proof fn lemma_rest_not_rooted(p: Seq<char>, n: int)
    requires
        0 <= n <= p.len(),
    ensures
        !has_root(rest_after(p, n)),
{
    lemma_trim_left_stops(p, n);
    let lo = trim_left_at(p, n);
    lemma_trim_right_bounds(p, lo, p.len() as int);
}

/// Joining appends and never replaces: the base is a prefix of the result,
/// whether or not the segment is rooted.
pub proof fn lemma_join_appends(base: Seq<char>, seg: Seq<char>)
    ensures
        joined(base, seg).len() >= base.len(),
        joined(base, seg).subrange(0, base.len() as int) == base,
{
    if has_root(seg) {
        lemma_rest_not_rooted(seg, 1);
    }
    let r = joined(base, seg);
    assert(r.subrange(0, base.len() as int) =~= base);
}

/// A segment is plain when it has no meaningless piece at either end.
pub open spec fn plain(t: Seq<char>) -> bool {
    trim_left_at(t, 0) == 0 && trim_right_at(t, 0, t.len() as int) == t.len()
}

/// Joining a plain segment written with a leading separator gives what
/// joining it without the separator gives: the base, one separator where the
/// base does not end in one, and the segment.
pub proof fn lemma_join_strips_root(base: Seq<char>, t: Seq<char>)
    requires
        plain(t),
    ensures
        joined(base, seq!['/'] + t) == joined(base, t),
        joined(base, t) == pushed(base, t),
        !has_root(t),
{
    let s = seq!['/'] + t;
    assert(forall|i: int| 0 <= i < t.len() ==> s[i + 1] == t[i]);
    assert(s.len() == t.len() + 1);
    if t.len() > 0 {
        assert(s[1] == t[0]);
        assert(s[t.len() as int] == t[t.len() - 1]);
        if t.len() > 1 {
            assert(s[2] == t[1]);
            assert(s[t.len() - 1] == t[t.len() - 2]);
        }
    }
    if t.len() > 0 {
        lemma_trim_left_stops(t, 1);
        lemma_trim_right_bounds(t, 0, t.len() - 1);
    }
    assert(trim_left_at(s, 1) == 1);
    assert(trim_right_at(s, 1, s.len() as int) == s.len());
    assert(s.subrange(1, s.len() as int) =~= t);
}

/// In a rooted path the last piece begins behind some separator.
pub proof fn lemma_piece_start_rooted(p: Seq<char>, j: int)
    requires
        has_root(p),
        1 <= j <= p.len(),
    ensures
        1 <= piece_start(p, j) <= j,
    decreases j,
{
    if p[j - 1] != '/' {
        lemma_piece_start_rooted(p, j - 1);
    }
}

} // verus!
