//! Slash-separated paths of the virtual filesystem.

use vstd::prelude::*;
use vstd::string::*;

verus! {

/// `s` without its trailing slashes.
pub open spec fn trim_end_slashes(s: Seq<char>) -> Seq<char>
    decreases s.len(),
{
    if s.len() > 0 && s.last() == '/' {
        trim_end_slashes(s.drop_last())
    } else {
        s
    }
}

/// The root path `/`.
pub open spec fn is_root_path(s: Seq<char>) -> bool {
    s == seq!['/']
}

/// The path without trailing slashes, except for the root itself.
pub open spec fn spec_normalized(s: Seq<char>) -> Seq<char> {
    if is_root_path(s) {
        s
    } else {
        trim_end_slashes(s)
    }
}

/// Index of the last slash among the first `n` characters.
pub open spec fn last_slash(s: Seq<char>, n: int) -> Option<int>
    decreases n,
{
    if n <= 0 {
        None
    } else if s[n - 1] == '/' {
        Some(n - 1)
    } else {
        last_slash(s, n - 1)
    }
}

/// Index of the first slash at or after `i`, or the length when none.
pub open spec fn slash_from(s: Seq<char>, i: int) -> int
    decreases s.len() - i,
{
    if i >= s.len() {
        s.len() as int
    } else if s[i] == '/' {
        i
    } else {
        slash_from(s, i + 1)
    }
}

/// The path's parent: none for the root and for a path without a slash;
/// the root for a path whose only slash leads it.
pub open spec fn spec_parent(s: Seq<char>) -> Option<Seq<char>> {
    if is_root_path(s) {
        None
    } else {
        match last_slash(spec_normalized(s), spec_normalized(s).len() as int) {
            Some(i) => if i == 0 {
                Some(seq!['/'])
            } else {
                Some(s.take(i))
            },
            None => None,
        }
    }
}

/// Everything after the last slash of the path without trailing slashes.
pub open spec fn spec_file_name(s: Seq<char>) -> Option<Seq<char>> {
    if is_root_path(s) {
        None
    } else {
        let t = spec_normalized(s);
        match last_slash(t, t.len() as int) {
            Some(i) => Some(t.skip(i + 1)),
            None => Some(t),
        }
    }
}

/// Where the components of `s` start: after a leading slash.
pub open spec fn components_start(s: Seq<char>) -> int {
    if s.len() > 0 && s[0] == '/' {
        1
    } else {
        0
    }
}

/// The components of `p` from index `i` on.
pub open spec fn components_from(p: Seq<char>, i: int) -> Seq<Seq<char>>
    decreases p.len() - i,
{
    if i >= p.len() || i < 0 {
        Seq::empty()
    } else {
        let end = slash_from(p, i);
        proof {
            lemma_slash_from_bounds(p, i);
        }
        if end <= i {
            Seq::empty()
        } else {
            seq![p.subrange(i, end)] + components_from(p, after_component(p, end))
        }
    }
}

/// Where the component ending at `end` is followed by the next one.
pub open spec fn after_component(p: Seq<char>, end: int) -> int {
    if end < p.len() {
        end + 1
    } else {
        p.len() as int
    }
}

/// No component from `i` on is empty: no two slashes in a row.
pub open spec fn components_ok(p: Seq<char>, i: int) -> bool
    decreases p.len() - i,
{
    if i >= p.len() || i < 0 {
        true
    } else {
        let end = slash_from(p, i);
        proof {
            lemma_slash_from_bounds(p, i);
        }
        end > i && components_ok(p, after_component(p, end))
    }
}

/// The components of a path, after normalizing it and skipping a leading
/// slash.
pub open spec fn spec_components(s: Seq<char>) -> Seq<Seq<char>> {
    components_from(spec_normalized(s), components_start(s))
}

/// The path's components can all be taken.
pub open spec fn path_components_ok(s: Seq<char>) -> bool {
    components_ok(spec_normalized(s), components_start(s))
}

/// Each of `cs` preceded by a slash.
pub open spec fn join_slashed(cs: Seq<Seq<char>>) -> Seq<char>
    decreases cs.len(),
{
    if cs.len() == 0 {
        Seq::empty()
    } else {
        join_slashed(cs.drop_last()) + seq!['/'] + cs.last()
    }
}

/// `s` with the components of `o` appended, separated by slashes; on the
/// root the first component follows the root's slash.
pub open spec fn spec_add(s: Seq<char>, o: Seq<char>) -> Seq<char> {
    let base = spec_normalized(s);
    let cs = spec_components(o);
    if is_root_path(s) && cs.len() > 0 {
        base + cs[0] + join_slashed(cs.skip(1))
    } else {
        base + join_slashed(cs)
    }
}

pub proof fn lemma_slash_from_bounds(s: Seq<char>, i: int)
    requires
        0 <= i,
    ensures
        i <= slash_from(s, i) <= s.len() || (i > s.len() && slash_from(s, i) == s.len()),
        slash_from(s, i) < s.len() ==> s[slash_from(s, i)] == '/',
        forall|k: int| i <= k < slash_from(s, i) ==> s[k] != '/',
    decreases s.len() - i,
{
    if i < s.len() && s[i] != '/' {
        lemma_slash_from_bounds(s, i + 1);
    }
}

proof fn lemma_trim_take(s: Seq<char>, n: int)
    requires
        0 <= n <= s.len(),
        forall|k: int| n <= k < s.len() ==> s[k] == '/',
    ensures
        trim_end_slashes(s) == trim_end_slashes(s.take(n)),
    decreases s.len() - n,
{
    if n < s.len() {
        assert(s.last() == '/');
        assert(s.drop_last().take(n) =~= s.take(n));
        lemma_trim_take(s.drop_last(), n);
    } else {
        assert(s.take(n) =~= s);
    }
}

fn char_at(s: &str, i: usize) -> (c: char)
    requires
        i < s@.len(),
    ensures
        c == s@[i as int],
{
    s.get_char(i)
}

/// The string `/`.
fn root_string() -> (r: String)
    ensures
        r@ == seq!['/'],
{
    proof {
        reveal_strlit("/");
    }
    String::from_str("/")
}

fn is_root_str(s: &str) -> (r: bool)
    ensures
        r == is_root_path(s@),
{
    let n = s.unicode_len();
    if n == 1 {
        let c = char_at(s, 0);
        if c == '/' {
            assert(s@ =~= seq!['/']);
            true
        } else {
            false
        }
    } else {
        false
    }
}

fn trimmed_len(s: &str) -> (n: usize)
    ensures
        n <= s@.len(),
        trim_end_slashes(s@) == s@.take(n as int),
{
    let mut n = s.unicode_len();
    proof {
        assert(s@.take(n as int) =~= s@);
    }
    while n > 0 && char_at(s, n - 1) == '/'
        invariant
            n <= s@.len(),
            forall|k: int| n <= k < s@.len() ==> s@[k] == '/',
        decreases n,
    {
        n = n - 1;
    }
    proof {
        lemma_trim_take(s@, n as int);
        let t = s@.take(n as int);
        if t.len() > 0 {
            assert(t.last() == s@[n - 1]);
        }
    }
    n
}

fn normalized_len(s: &str) -> (n: usize)
    ensures
        n <= s@.len(),
        spec_normalized(s@) == s@.take(n as int),
{
    if is_root_str(s) {
        let n = s.unicode_len();
        proof {
            assert(s@.take(n as int) =~= s@);
        }
        n
    } else {
        trimmed_len(s)
    }
}

fn find_last_slash(s: &str, n: usize) -> (r: Option<usize>)
    requires
        n <= s@.len(),
    ensures
        match last_slash(s@, n as int) {
            Some(i) => r == Some(i as usize),
            None => r is None,
        },
{
    let mut k = n;
    while k > 0
        invariant
            k <= n <= s@.len(),
            last_slash(s@, n as int) == last_slash(s@, k as int),
        decreases k,
    {
        if char_at(s, k - 1) == '/' {
            return Some(k - 1);
        }
        k = k - 1;
    }
    None
}

proof fn lemma_last_slash_bounds(s: Seq<char>, n: int)
    ensures
        last_slash(s, n) matches Some(i) ==> 0 <= i < n && s[i] == '/',
    decreases n,
{
    if n > 0 && s[n - 1] != '/' {
        lemma_last_slash_bounds(s, n - 1);
    }
}

proof fn lemma_last_slash_prefix(s: Seq<char>, t: Seq<char>, n: int)
    requires
        0 <= n <= t.len(),
        t.len() <= s.len(),
        t == s.take(t.len() as int),
    ensures
        last_slash(t, n) == last_slash(s, n),
    decreases n,
{
    if n > 0 {
        lemma_last_slash_prefix(s, t, n - 1);
    }
}

pub(crate) fn find_slash_from(s: &str, i: usize) -> (r: usize)
    requires
        i <= s@.len(),
    ensures
        r == slash_from(s@, i as int),
{
    let n = s.unicode_len();
    let mut k = i;
    while k < n && char_at(s, k) != '/'
        invariant
            i <= k <= n,
            n == s@.len(),
            slash_from(s@, i as int) == slash_from(s@, k as int),
        decreases n - k,
    {
        k = k + 1;
    }
    k
}

/// A slash-separated path.
#[derive(Debug, Clone, PartialEq, Eq, Hash)]
pub struct Path {
    inner: String,
}

impl View for Path {
    type V = Seq<char>;

    closed spec fn view(&self) -> Seq<char> {
        self.inner@
    }
}

impl Path {
    /// The path spelled by `s`.
    pub fn new(s: &str) -> (p: Path)
        ensures
            p@ == s@,
    {
        Path { inner: String::from_str(s) }
    }

    pub fn as_str(&self) -> (r: &str)
        ensures
            r@ == self@,
    {
        self.inner.as_str()
    }

    pub fn to_path_buf(&self) -> (r: PathBuf)
        ensures
            r@ == self@,
    {
        PathBuf { path: Path { inner: String::from_str(self.inner.as_str()) } }
    }

    /// The path without trailing slashes, the root excepted.
    pub fn normalized(&self) -> (r: Path)
        ensures
            r@ == spec_normalized(self@),
    {
        let s = self.inner.as_str();
        let n = normalized_len(s);
        Path { inner: String::from_str(s.substring_char(0, n)) }
    }

    pub fn is_root(&self) -> (r: bool)
        ensures
            r == is_root_path(self@),
    {
        is_root_str(self.inner.as_str())
    }

    pub fn is_absolute(&self) -> (r: bool)
        ensures
            r == (self@.len() > 0 && self@[0] == '/'),
    {
        let s = self.inner.as_str();
        s.unicode_len() > 0 && char_at(s, 0) == '/'
    }

    pub fn is_relative(&self) -> (r: bool)
        ensures
            r == !(self@.len() > 0 && self@[0] == '/'),
    {
        !self.is_absolute()
    }

    pub fn parent(&self) -> (r: Option<Path>)
        ensures
            match spec_parent(self@) {
                Some(p) => r is Some && r->0@ == p,
                None => r is None,
            },
    {
        if self.is_root() {
            return None;
        }
        let s = self.inner.as_str();
        let n = normalized_len(s);
        proof {
            lemma_last_slash_prefix(s@, s@.take(n as int), n as int);
            lemma_last_slash_bounds(s@, n as int);
        }
        match find_last_slash(s, n) {
            Some(i) => {
                if i == 0 {
                    Some(Path { inner: root_string() })
                } else {
                    Some(Path { inner: String::from_str(s.substring_char(0, i)) })
                }
            },
            None => None,
        }
    }

    /// Everything after the last slash, trailing slashes left out
    pub fn file_name(&self) -> (r: Option<String>)
        ensures
            match spec_file_name(self@) {
                Some(p) => r is Some && r->0@ == p,
                None => r is None,
            },
    {
        if self.is_root() {
            return None;
        }
        let s = self.inner.as_str();
        let n = normalized_len(s);
        let len = s.unicode_len();
        proof {
            lemma_last_slash_prefix(s@, s@.take(n as int), n as int);
            lemma_last_slash_bounds(s@, n as int);
        }
        match find_last_slash(s, n) {
            Some(i) => {
                proof {
                    assert(s@.subrange(i + 1, n as int) =~= s@.take(n as int).skip(i + 1));
                }
                Some(String::from_str(s.substring_char(i + 1, n)))
            },
            None => {
                proof {
                    assert(s@.subrange(0, n as int) =~= s@.take(n as int));
                }
                Some(String::from_str(s.substring_char(0, n)))
            },
        }
    }

    /// Iterate over components of a path, discarding absoluteness
    pub fn components(&self) -> (r: Components)
        ensures
            r.path()@ == spec_normalized(self@),
            r.index() == components_start(self@),
    {
        let index: usize = if self.is_absolute() { 1 } else { 0 };
        Components { path: self.normalized(), index }
    }

    /// Add a component to path
    pub fn add(&self, other: &str) -> (r: PathBuf)
        requires
            path_components_ok(other@),
        ensures
            r@ == spec_add(self@, other@),
    {
        let mut result = String::from_str(self.normalized().inner.as_str());
        let mut it = Path::new(other).components();
        let ghost cs = spec_components(other@);
        let ghost base = spec_normalized(self@);
        let ghost p = it.path()@;
        let ghost start = it.index();
        let mut first_done = false;
        proof {
            lemma_components_step(p, start);
            assert(p == spec_normalized(other@));
            assert(cs == components_from(p, start));
        }
        if self.is_root() {
            match it.next() {
                Some(first) => {
                    proof {
                        assert(cs.skip(1) =~= components_from(p, it.index()));
                        assert(cs[0] == first@);
                    }
                    result.append(first.as_str());
                    first_done = true;
                },
                None => {},
            }
        }
        let ghost taken: int = if first_done { 1 } else { 0 };
        proof {
            if first_done {
                assert(result@ =~= base + cs[0] + join_slashed(cs.skip(1).take(0)));
            } else {
                assert(cs.skip(0) =~= cs);
                assert(result@ =~= base + join_slashed(cs.take(0)));
            }
        }
        let ghost rest = cs.skip(taken);
        let ghost prefix = if first_done { base + cs[0] } else { base };
        let ghost k: int = 0;
        proof {
            assert(rest.skip(0) =~= rest);
            assert(rest.take(0) =~= cs.skip(taken).take(0));
        }
        while it.has_next()
            invariant
                it.path()@ == p,
                components_ok(p, it.index() as int),
                0 <= k <= rest.len(),
                rest.skip(k) == components_from(p, it.index() as int),
                result@ == prefix + join_slashed(rest.take(k)),
            decreases p.len() - it.index(),
        {
            let ghost idx = it.index();
            proof {
                lemma_components_step(p, idx);
                lemma_slash_from_bounds(p, idx);
                assert(components_from(p, idx).len() >= 1);
            }
            let c = it.next();
            match c {
                Some(c) => {
                    proof {
                        assert(rest.skip(k)[0] == c@);
                        assert(k + 1 <= rest.len());
                        assert(rest.take(k + 1).drop_last() =~= rest.take(k));
                        assert(rest.take(k + 1).last() == c@);
                        assert(rest.skip(k + 1) =~= rest.skip(k).skip(1));
                        assert(components_from(p, it.index()) =~= components_from(p, idx).skip(1));
                    }
                    proof {
                        reveal_strlit("/");
                    }
                    result.append("/");
                    result.append(c.as_str());
                    proof {
                        k = k + 1;
                    }
                },
                None => {},
            }
        }
        proof {
            assert(rest.skip(k).len() == 0);
            assert(rest.take(k) =~= rest);
            if first_done {
                assert(result@ =~= base + cs[0] + join_slashed(cs.skip(1)));
            } else {
                assert(rest =~= cs);
            }
        }
        PathBuf { path: Path { inner: result } }
    }
}

proof fn lemma_components_step(p: Seq<char>, i: int)
    requires
        0 <= i,
    ensures
        i < p.len() && components_ok(p, i) ==> components_from(p, i) == seq![
            p.subrange(i, slash_from(p, i)),
        ] + components_from(p, after_component(p, slash_from(p, i))),
        i >= p.len() ==> components_from(p, i).len() == 0,
{
    lemma_slash_from_bounds(p, i);
}

/// Iteration over the components of a normalized path.
pub struct Components {
    path: Path,
    index: usize,
}

impl Components {
    pub closed spec fn path(&self) -> Path {
        self.path
    }

    pub closed spec fn index(&self) -> int {
        self.index as int
    }

    /// The components still to come.
    pub open spec fn remaining(&self) -> Seq<Seq<char>> {
        components_from(self.path()@, self.index())
    }

    /// Whether a component is left.
    pub fn has_next(&self) -> (r: bool)
        ensures
            r == (self.index() < self.path()@.len()),
    {
        self.index < self.path.inner.as_str().unicode_len()
    }

    /// The next component, up to the next slash.
    pub fn next(&mut self) -> (r: Option<String>)
        requires
            old(self).index() < old(self).path()@.len() ==> slash_from(
                old(self).path()@,
                old(self).index(),
            ) > old(self).index(),
        ensures
            final(self).path() == old(self).path(),
            old(self).index() >= old(self).path()@.len() ==> r is None && final(self).index()
                == old(self).index(),
            old(self).index() < old(self).path()@.len() ==> {
                let end = slash_from(old(self).path()@, old(self).index());
                &&& r is Some
                &&& r->0@ == old(self).path()@.subrange(old(self).index(), end)
                &&& final(self).index() == after_component(old(self).path()@, end)
            },
    {
        let s = self.path.inner.as_str();
        let n = s.unicode_len();
        if self.index >= n {
            return None;
        }
        let end_index = find_slash_from(s, self.index);
        proof {
            lemma_slash_from_bounds(s@, self.index as int);
        }
        let result = String::from_str(s.substring_char(self.index, end_index));
        self.index = if end_index < n { end_index + 1 } else { n };
        Some(result)
    }
}

/// An owned path.
#[derive(Debug, Clone, PartialEq, Eq, Hash)]
pub struct PathBuf {
    path: Path,
}

impl View for PathBuf {
    type V = Seq<char>;

    closed spec fn view(&self) -> Seq<char> {
        self.path@
    }
}

impl PathBuf {
    /// The empty path.
    pub fn new() -> (r: Self)
        ensures
            r@ == Seq::<char>::empty(),
    {
        PathBuf { path: Path { inner: String::new() } }
    }

    /// The path as a `Path`.
    pub fn as_path(&self) -> (r: &Path)
        ensures
            r@ == self@,
    {
        &self.path
    }

    /// Appends the components of `other`.
    pub fn push(&mut self, other: &str)
        requires
            path_components_ok(other@),
        ensures
            final(self)@ == spec_add(old(self)@, other@),
    {
        let added = self.path.add(other);
        self.path = added.path;
    }
}

} // verus!
