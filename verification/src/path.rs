//! Filesystem path values: slash-separated components, absolute and owned
//! variants, with parent and file-name navigation.

use vstd::prelude::*;
use vstd::string::StrSliceExecFns;

verus! {

/// The path separator.
pub const FILEPATH_SEPARATOR: char = '/';

/// The given string is not an absolute path.
#[derive(Debug, Clone, Copy, PartialEq, Eq, Structural)]
pub struct PathNotAbsoluteError;

/// Whether a path string is absolute: non-empty and starting with the
/// separator.
pub open spec fn spec_is_absolute(s: Seq<char>) -> bool {
    s.len() > 0 && s[0] == '/'
}

/// The largest index at or below `i` holding a non-separator, if any.
pub open spec fn spec_rfind_non_sep(s: Seq<char>, i: int) -> Option<int>
    decreases i + 1,
{
    if i < 0 || i >= s.len() {
        None
    } else if s[i] != '/' {
        Some(i)
    } else {
        spec_rfind_non_sep(s, i - 1)
    }
}

/// The largest index at or below `i` holding a separator, if any.
pub open spec fn spec_rfind_sep(s: Seq<char>, i: int) -> Option<int>
    decreases i + 1,
{
    if i < 0 || i >= s.len() {
        None
    } else if s[i] == '/' {
        Some(i)
    } else {
        spec_rfind_sep(s, i - 1)
    }
}

/// The final component of a path: the characters between the last
/// separator (if any) and the trailing separators; `None` when the path
/// holds no component at all.
pub open spec fn spec_file_name(s: Seq<char>) -> Option<Seq<char>> {
    match spec_rfind_non_sep(s, s.len() - 1) {
        None => None,
        Some(e) => {
            let st = match spec_rfind_sep(s, e) {
                Some(k) => k + 1,
                None => 0,
            };
            Some(s.subrange(st, e + 1))
        },
    }
}

/// The parent of a path: everything before the last component, with its
/// own trailing separators dropped. The root and single components have no
/// parent; the dot paths are their own parent.
pub open spec fn spec_parent(s: Seq<char>) -> Option<Seq<char>> {
    if s.len() == 0 {
        None
    } else {
        match spec_rfind_non_sep(s, s.len() - 1) {
            None => None,
            Some(lns) => match spec_rfind_sep(s, lns) {
                Some(sep) => match spec_rfind_non_sep(s, sep - 1) {
                    Some(pe) => Some(s.subrange(0, pe + 1)),
                    None => None,
                },
                None => if s == seq!['.'] || s == seq!['.', '.'] {
                    Some(s)
                } else {
                    None
                },
            },
        }
    }
}

/// The absolute form of a path: itself when already absolute, the root for
/// the empty path, and a separator prefixed otherwise.
pub open spec fn spec_make_absolute(s: Seq<char>) -> Seq<char> {
    if spec_is_absolute(s) {
        s
    } else if s.len() == 0 {
        seq!['/']
    } else {
        seq!['/'] + s
    }
}

/// Finds the largest non-separator index at or below `i`.
fn rfind_non_sep(s: &str, i: usize) -> (r: Option<usize>)
    requires
        s@.len() <= 0x10000,
        i < s@.len() || i == 0,
    ensures
        i < s@.len() ==> r == (match spec_rfind_non_sep(s@, i as int) {
            Some(k) => Some(k as usize),
            None => None::<usize>,
        }),
    decreases i,
{
    if i >= s.unicode_len() {
        return None;
    }
    if s.get_char(i) != '/' {
        return Some(i);
    }
    if i == 0 {
        proof {
            assert(spec_rfind_non_sep(s@, 0) == spec_rfind_non_sep(s@, -1));
        }
        return None;
    }
    let r2 = rfind_non_sep(s, i - 1);
    proof {
        assert(spec_rfind_non_sep(s@, i as int) == spec_rfind_non_sep(s@, i - 1));
    }
    r2
}

/// Finds the largest separator index at or below `i`.
fn rfind_sep(s: &str, i: usize) -> (r: Option<usize>)
    requires
        s@.len() <= 0x10000,
        i < s@.len() || i == 0,
    ensures
        i < s@.len() ==> r == (match spec_rfind_sep(s@, i as int) {
            Some(k) => Some(k as usize),
            None => None::<usize>,
        }),
        i >= s@.len() ==> r is None,
    decreases i,
{
    if i >= s.unicode_len() {
        return None;
    }
    if s.get_char(i) == '/' {
        return Some(i);
    }
    if i == 0 {
        proof {
            assert(spec_rfind_sep(s@, 0) == spec_rfind_sep(s@, -1));
        }
        return None;
    }
    let r2 = rfind_sep(s, i - 1);
    proof {
        assert(spec_rfind_sep(s@, i as int) == spec_rfind_sep(s@, i - 1));
    }
    r2
}

/// Computes the final component of the path string.
fn file_name_of(s: &str) -> (r: Option<String>)
    requires
        s@.len() <= 0x10000,
    ensures
        match spec_file_name(s@) {
            Some(nm) => r is Some && r->Some_0@ == nm,
            None => r is None,
        },
{
    let n = s.unicode_len();
    if n == 0 {
        return None;
    }
    let e = match rfind_non_sep(s, n - 1) {
        Some(e) => e,
        None => {
            return None;
        },
    };
    proof {
        spec_rfind_lemmas(s@, n - 1);
        spec_rfind_lemmas(s@, e as int);
    }
    let st = match rfind_sep(s, e) {
        Some(k) => k + 1,
        None => 0,
    };
    Some(String::from_str(s.substring_char(st, e + 1)))
}

/// Bounds of the two scans: a found index is in range, a found separator
/// index is a separator, and so on.
proof fn spec_rfind_lemmas(s: Seq<char>, i: int)
    ensures
        match spec_rfind_non_sep(s, i) {
            Some(k) => 0 <= k <= i && k < s.len(),
            None => true,
        },
        match spec_rfind_sep(s, i) {
            Some(k) => 0 <= k <= i && k < s.len(),
            None => true,
        },
    decreases i + 1,
{
    if 0 <= i < s.len() {
        spec_rfind_lemmas(s, i - 1);
    }
}

/// Computes the parent of the path string.
fn parent_of(s: &str) -> (r: Option<String>)
    requires
        s@.len() <= 0x10000,
    ensures
        match spec_parent(s@) {
            Some(p) => r is Some && r->Some_0@ == p,
            None => r is None,
        },
{
    let n = s.unicode_len();
    if n == 0 {
        return None;
    }
    let lns = match rfind_non_sep(s, n - 1) {
        Some(e) => e,
        None => {
            return None;
        },
    };
    proof {
        spec_rfind_lemmas(s@, n - 1);
    }
    match rfind_sep(s, lns) {
        Some(sep) => {
            proof {
                spec_rfind_lemmas(s@, lns as int);
            }
            if sep == 0 {
                proof {
                    assert(spec_rfind_non_sep(s@, -1) is None);
                }
                return None;
            }
            match rfind_non_sep(s, sep - 1) {
                Some(pe) => {
                    proof {
                        spec_rfind_lemmas(s@, sep - 1);
                    }
                    Some(String::from_str(s.substring_char(0, pe + 1)))
                },
                None => None,
            }
        },
        None => {
            proof {
                reveal_strlit(".");
                reveal_strlit("..");
            }
            let nm = String::from_str(s);
            if nm == String::from_str(".") || nm == String::from_str("..") {
                proof {
                    assert("."@ =~= seq!['.']);
                    assert(".."@ =~= seq!['.', '.']);
                }
                Some(nm)
            } else {
                proof {
                    assert(s@ != seq!['.'] && s@ != seq!['.', '.']) by {
                        assert("."@ =~= seq!['.']);
                        assert(".."@ =~= seq!['.', '.']);
                    }
                }
                None
            }
        },
    }
}

/// A path string, holding any mix of components and separators.
#[derive(Debug, Clone, PartialEq, Eq)]
pub struct Path {
    inner: String,
}

impl Path {
    /// The path characters.
    pub closed spec fn view_chars(&self) -> Seq<char> {
        self.inner@
    }

    /// Wraps a string as a path.
    pub fn new(s: &str) -> (r: Path)
        ensures
            r.view_chars() == s@,
    {
        Path { inner: String::from_str(s) }
    }

    /// The path as a string.
    pub fn as_str(&self) -> (r: &str)
        ensures
            r@ == self.view_chars(),
    {
        self.inner.as_str()
    }

    /// Whether the path is absolute.
    pub fn is_absolute(&self) -> (r: bool)
        requires
            self.view_chars().len() <= 0x10000,
        ensures
            r == spec_is_absolute(self.view_chars()),
    {
        if self.inner.as_str().unicode_len() == 0 {
            return false;
        }
        self.inner.as_str().get_char(0) == '/'
    }

    /// Whether the path is relative.
    pub fn is_relative(&self) -> (r: bool)
        requires
            self.view_chars().len() <= 0x10000,
        ensures
            r == !spec_is_absolute(self.view_chars()),
    {
        !self.is_absolute()
    }

    /// The final component, when there is one.
    pub fn file_name(&self) -> (r: Option<String>)
        requires
            self.view_chars().len() <= 0x10000,
        ensures
            match spec_file_name(self.view_chars()) {
                Some(nm) => r is Some && r->Some_0@ == nm,
                None => r is None,
            },
    {
        file_name_of(self.inner.as_str())
    }

    /// The parent path, when there is one.
    pub fn parent(&self) -> (r: Option<Path>)
        requires
            self.view_chars().len() <= 0x10000,
        ensures
            match spec_parent(self.view_chars()) {
                Some(p) => r is Some && r->Some_0.view_chars() == p,
                None => r is None,
            },
    {
        match parent_of(self.inner.as_str()) {
            Some(p) => Some(Path { inner: p }),
            None => None,
        }
    }

    /// The absolute form of the path.
    pub fn make_absolute(&self) -> (r: AbsoluteOwnedPath)
        requires
            self.view_chars().len() <= 0x10000,
        ensures
            r.view_chars() == spec_make_absolute(self.view_chars()),
    {
        proof {
            reveal_strlit("/");
        }
        if self.is_absolute() {
            AbsoluteOwnedPath { inner: OwnedPath { inner: self.inner.clone() } }
        } else if self.inner.as_str().unicode_len() == 0 {
            proof {
                assert("/"@ =~= seq!['/']);
            }
            AbsoluteOwnedPath { inner: OwnedPath { inner: String::from_str("/") } }
        } else {
            let mut s = String::from_str("/");
            s.append(self.inner.as_str());
            proof {
                assert("/"@ =~= seq!['/']);
            }
            AbsoluteOwnedPath { inner: OwnedPath { inner: s } }
        }
    }

    /// Copies the path into an owned path.
    pub fn to_owned(&self) -> (r: OwnedPath)
        ensures
            r.view_chars() == self.view_chars(),
    {
        OwnedPath { inner: self.inner.clone() }
    }
}

/// An owned, growable path string.
#[derive(Debug, Clone, PartialEq, Eq)]
pub struct OwnedPath {
    inner: String,
}

impl OwnedPath {
    /// The path characters.
    pub closed spec fn view_chars(&self) -> Seq<char> {
        self.inner@
    }

    /// Wraps a string as an owned path.
    pub fn new(s: &str) -> (r: OwnedPath)
        ensures
            r.view_chars() == s@,
    {
        OwnedPath { inner: String::from_str(s) }
    }

    /// The path as a string.
    pub fn as_str(&self) -> (r: &str)
        ensures
            r@ == self.view_chars(),
    {
        self.inner.as_str()
    }

    /// Whether the path is absolute.
    pub fn is_absolute(&self) -> (r: bool)
        requires
            self.view_chars().len() <= 0x10000,
        ensures
            r == spec_is_absolute(self.view_chars()),
    {
        if self.inner.as_str().unicode_len() == 0 {
            return false;
        }
        self.inner.as_str().get_char(0) == '/'
    }

    /// Appends a component: a separator is added first unless the path
    /// already ends in one.
    pub fn push(&mut self, s: &str)
        requires
            old(self).view_chars().len() <= 0x10000,
        ensures
            old(self).view_chars().len() > 0 && old(self).view_chars()[old(
                self,
            ).view_chars().len() - 1] == '/' ==> final(self).view_chars() == old(
                self,
            ).view_chars() + s@,
            !(old(self).view_chars().len() > 0 && old(self).view_chars()[old(
                self,
            ).view_chars().len() - 1] == '/') ==> final(self).view_chars() == old(
                self,
            ).view_chars() + seq!['/'] + s@,
    {
        proof {
            reveal_strlit("/");
            assert("/"@ =~= seq!['/']);
        }
        let n = self.inner.as_str().unicode_len();
        if n > 0 && self.inner.as_str().get_char(n - 1) == '/' {
            self.inner.append(s);
        } else {
            self.inner.append("/");
            self.inner.append(s);
            proof {
                assert(self.inner@ =~= old(self).view_chars() + seq!['/'] + s@);
            }
        }
    }

    /// Appends characters with no separator.
    pub fn append_str(&mut self, s: &str)
        ensures
            final(self).view_chars() == old(self).view_chars() + s@,
    {
        self.inner.append(s);
    }

    /// The final component, when there is one.
    pub fn file_name(&self) -> (r: Option<String>)
        requires
            self.view_chars().len() <= 0x10000,
        ensures
            match spec_file_name(self.view_chars()) {
                Some(nm) => r is Some && r->Some_0@ == nm,
                None => r is None,
            },
    {
        file_name_of(self.inner.as_str())
    }

    /// The parent path, when there is one.
    pub fn parent(&self) -> (r: Option<Path>)
        requires
            self.view_chars().len() <= 0x10000,
        ensures
            match spec_parent(self.view_chars()) {
                Some(p) => r is Some && r->Some_0.view_chars() == p,
                None => r is None,
            },
    {
        match parent_of(self.inner.as_str()) {
            Some(p) => Some(Path { inner: p }),
            None => None,
        }
    }
}

/// A path checked to be absolute.
#[derive(Debug, Clone, PartialEq, Eq)]
pub struct AbsolutePath {
    inner: Path,
}

impl AbsolutePath {
    /// The path characters.
    pub closed spec fn view_chars(&self) -> Seq<char> {
        self.inner.view_chars()
    }

    /// Accepts exactly the absolute path strings.
    pub fn try_new(path: &str) -> (r: Result<AbsolutePath, PathNotAbsoluteError>)
        requires
            path@.len() <= 0x10000,
        ensures
            spec_is_absolute(path@) <==> r is Ok,
            r is Ok ==> r->Ok_0.view_chars() == path@,
    {
        let p = Path::new(path);
        if p.is_absolute() {
            Ok(AbsolutePath { inner: p })
        } else {
            Err(PathNotAbsoluteError)
        }
    }

    /// The path as a string.
    pub fn as_str(&self) -> (r: &str)
        ensures
            r@ == self.view_chars(),
    {
        self.inner.as_str()
    }

    /// The parent, which is itself absolute, when there is one.
    pub fn parent(&self) -> (r: Option<AbsolutePath>)
        requires
            self.view_chars().len() <= 0x10000,
        ensures
            match spec_parent(self.view_chars()) {
                Some(p) => r is Some && r->Some_0.view_chars() == p,
                None => r is None,
            },
    {
        match self.inner.parent() {
            Some(p) => Some(AbsolutePath { inner: p }),
            None => None,
        }
    }
}

/// An owned path that is always absolute.
#[derive(Debug, Clone, PartialEq, Eq)]
pub struct AbsoluteOwnedPath {
    inner: OwnedPath,
}

impl AbsoluteOwnedPath {
    /// The path characters.
    pub closed spec fn view_chars(&self) -> Seq<char> {
        self.inner.view_chars()
    }

    /// The root path.
    pub fn new() -> (r: AbsoluteOwnedPath)
        ensures
            r.view_chars() == seq!['/'],
    {
        proof {
            reveal_strlit("/");
            assert("/"@ =~= seq!['/']);
        }
        AbsoluteOwnedPath { inner: OwnedPath::new("/") }
    }

    /// Accepts exactly the absolute path strings.
    pub fn try_new(path: &str) -> (r: Result<AbsoluteOwnedPath, PathNotAbsoluteError>)
        requires
            path@.len() <= 0x10000,
        ensures
            spec_is_absolute(path@) <==> r is Ok,
            r is Ok ==> r->Ok_0.view_chars() == path@,
    {
        let p = OwnedPath::new(path);
        if p.is_absolute() {
            Ok(AbsoluteOwnedPath { inner: p })
        } else {
            Err(PathNotAbsoluteError)
        }
    }

    /// Accepts exactly the absolute owned paths.
    pub fn try_from_owned(path: OwnedPath) -> (r: Result<AbsoluteOwnedPath, PathNotAbsoluteError>)
        requires
            path.view_chars().len() <= 0x10000,
        ensures
            spec_is_absolute(path.view_chars()) <==> r is Ok,
            r is Ok ==> r->Ok_0.view_chars() == path.view_chars(),
    {
        if path.is_absolute() {
            Ok(AbsoluteOwnedPath { inner: path })
        } else {
            Err(PathNotAbsoluteError)
        }
    }

    /// The path as a string.
    pub fn as_str(&self) -> (r: &str)
        ensures
            r@ == self.view_chars(),
    {
        self.inner.as_str()
    }

    /// Whether the path is absolute (it always is).
    pub fn is_absolute(&self) -> (r: bool)
        requires
            self.view_chars().len() <= 0x10000,
        ensures
            r == spec_is_absolute(self.view_chars()),
    {
        self.inner.is_absolute()
    }

    /// Appends a component.
    pub fn push(&mut self, s: &str)
        requires
            old(self).view_chars().len() <= 0x10000,
        ensures
            old(self).view_chars().len() > 0 && old(self).view_chars()[old(
                self,
            ).view_chars().len() - 1] == '/' ==> final(self).view_chars() == old(
                self,
            ).view_chars() + s@,
            !(old(self).view_chars().len() > 0 && old(self).view_chars()[old(
                self,
            ).view_chars().len() - 1] == '/') ==> final(self).view_chars() == old(
                self,
            ).view_chars() + seq!['/'] + s@,
    {
        self.inner.push(s);
    }

    /// Appends characters with no separator.
    pub fn append_str(&mut self, s: &str)
        ensures
            final(self).view_chars() == old(self).view_chars() + s@,
    {
        self.inner.append_str(s);
    }

    /// The final component, when there is one.
    pub fn file_name(&self) -> (r: Option<String>)
        requires
            self.view_chars().len() <= 0x10000,
        ensures
            match spec_file_name(self.view_chars()) {
                Some(nm) => r is Some && r->Some_0@ == nm,
                None => r is None,
            },
    {
        self.inner.file_name()
    }

    /// The parent path, when there is one.
    pub fn parent(&self) -> (r: Option<Path>)
        requires
            self.view_chars().len() <= 0x10000,
        ensures
            match spec_parent(self.view_chars()) {
                Some(p) => r is Some && r->Some_0.view_chars() == p,
                None => r is None,
            },
    {
        self.inner.parent()
    }
}

} // verus!
