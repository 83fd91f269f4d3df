//! Validated request paths.
//!
//! A [`UrlPath`] wraps a path string that is known to be well-formed: it
//! starts with `/`, has no empty component, and no component that begins
//! with `.` or `_` -- so it can never name a hidden or internal file.

use vstd::prelude::*;
use vstd::string::StrSliceExecFns;

verus! {

/// Index `i` begins a component of the stripped path body `u`.
pub open spec fn component_start(u: Seq<char>, i: int) -> bool {
    0 <= i < u.len() && (i == 0 || u[i - 1] == '/')
}

/// A stripped path body (no leading `/`, at most the components themselves)
/// is well formed: non-empty, no empty component, and no component that
/// begins with `.` or `_`.
pub open spec fn body_valid(u: Seq<char>) -> bool {
    &&& u.len() > 0
    &&& u[0] != '/'
    &&& u[u.len() - 1] != '/'
    &&& forall|i: int| 0 < i < u.len() && u[i - 1] == '/' ==> #[trigger] u[i] != '/'
    &&& forall|i: int| #[trigger] component_start(u, i) ==> u[i] != '.' && u[i] != '_'
}

/// The path body: everything after the leading `/`, with one trailing `/`
/// removed if there is one.
pub open spec fn strip_body(s: Seq<char>) -> Seq<char> {
    let t = s.skip(1);
    if t.len() > 0 && t[t.len() - 1] == '/' {
        t.take(t.len() - 1)
    } else {
        t
    }
}

/// A well-formed request path: `/`, or `/` followed by non-empty components
/// none of which begins with `.` or `_`, with at most one trailing `/`.
pub open spec fn valid_url(s: Seq<char>) -> bool {
    &&& s.len() >= 1
    &&& s[0] == '/'
    &&& (s.len() == 1 || body_valid(strip_body(s)))
}

/// Whether `url` is a path this server is willing to resolve.
pub fn valid(url: &str) -> (r: bool)
    ensures
        r == valid_url(url@),
{
    let ghost s = url@;
    let n = url.unicode_len();
    if n == 0 || url.get_char(0) != '/' {
        return false;
    }
    if n == 1 {
        return true;
    }
    // The body is s[1..m]: drop the leading slash and one trailing slash.
    let m = if url.get_char(n - 1) == '/' {
        n - 1
    } else {
        n
    };
    let ghost u = strip_body(s);
    proof {
        assert(u =~= s.subrange(1, m as int));
    }
    if m == 1 {
        // "//": the body is empty.
        return false;
    }
    let c0 = url.get_char(1);
    if c0 == '/' || c0 == '.' || c0 == '_' {
        proof {
            if c0 == '.' || c0 == '_' {
                assert(component_start(u, 0));
            }
        }
        return false;
    }
    if url.get_char(m - 1) == '/' {
        return false;
    }
    let mut j: usize = 2;
    while j < m
        invariant
            2 <= j <= m,
            m <= n,
            s == url@,
            n == s.len(),
            u == strip_body(s),
            u =~= s.subrange(1, m as int),
            forall|k: int|
                2 <= k < j && s[k - 1] == '/' ==> #[trigger] s[k] != '/' && s[k] != '.' && s[k]
                    != '_',
        decreases m - j,
    {
        let prev = url.get_char(j - 1);
        if prev == '/' {
            let c = url.get_char(j);
            if c == '/' || c == '.' || c == '_' {
                proof {
                    assert(u[j - 2] == s[j - 1]);
                    assert(u[j - 1] == s[j as int]);
                    if c == '.' || c == '_' {
                        assert(component_start(u, j - 1));
                    }
                }
                return false;
            }
        }
        j += 1;
    }
    proof {
        assert forall|i: int| #[trigger] component_start(u, i) implies u[i] != '.' && u[i]
            != '_' by {
            if i == 0 {
                assert(u[0] == s[1]);
            } else {
                assert(u[i] == s[i + 1]);
                assert(u[i - 1] == s[i]);
            }
        }
        assert forall|i: int| 0 < i < u.len() && u[i - 1] == '/' implies #[trigger] u[i]
            != '/' by {
            assert(u[i] == s[i + 1]);
            assert(u[i - 1] == s[i]);
        }
    }
    true
}

/// The position of the last occurrence of `c` in `s`, scanned from the end.
fn rfind_char(s: &str, c: char) -> (r: Option<usize>)
    ensures
        match r {
            Some(i) => s@.index_of_last(c) == Some(i as int),
            None => s@.index_of_last(c) is None,
        },
{
    let n = s.unicode_len();
    let mut i = n;
    while i > 0
        invariant
            i <= n,
            n == s@.len(),
            forall|j: int| i <= j < n ==> s@[j] != c,
        decreases i,
    {
        i = i - 1;
        if s.get_char(i) == c {
            proof {
                s@.index_of_last_ensures(c);
                assert(s@.contains(c));
            }
            return Some(i);
        }
    }
    proof {
        s@.index_of_last_ensures(c);
        if s@.contains(c) {
            let w = choose|w: int| 0 <= w < s@.len() && s@[w] == c;
            assert(s@[w] != c);
        }
    }
    None
}

/// A request path that passed [`valid`].
#[derive(Debug, Clone, Copy, PartialEq, Eq)]
pub struct UrlPath<'a>(&'a str);

impl<'a> View for UrlPath<'a> {
    type V = Seq<char>;

    closed spec fn view(&self) -> Seq<char> {
        self.0@
    }
}

impl<'a> UrlPath<'a> {
    /// The wrapped path is well formed.
    pub open spec fn wf(self) -> bool {
        valid_url(self@)
    }

    /// Wrap `src` if it is a well-formed path; reject it otherwise.
    pub fn new(src: &'a str) -> (r: Option<Self>)
        ensures
            r is Some <==> valid_url(src@),
            r matches Some(p) ==> p@ == src@ && p.wf(),
    {
        if valid(src) {
            Some(UrlPath(src))
        } else {
            None
        }
    }

    /// The whole path.
    pub fn path(self) -> (r: &'a str)
        ensures
            r@ == self@,
    {
        self.0
    }

    /// The path without its leading slash.
    pub fn relative_path(self) -> (r: &'a str)
        requires
            self.wf(),
        ensures
            r@ == self@.skip(1),
    {
        let n = self.0.unicode_len();
        self.0.substring_char(1, n)
    }

    /// Whether the path ends in a slash, naming a directory.
    pub fn has_final_slash(self) -> (r: bool)
        requires
            self.wf(),
        ensures
            r == (self@.last() == '/'),
    {
        let n = self.0.unicode_len();
        self.0.get_char(n - 1) == '/'
    }

    /// The final component: everything after the last slash (empty for a
    /// path that ends in one).
    pub fn last(self) -> (r: &'a str)
        requires
            self.wf(),
        ensures
            self@.index_of_last('/') matches Some(i) && r@ == self@.skip(i + 1),
    {
        proof {
            self@.index_of_last_ensures('/');
            assert(self@.contains('/')) by {
                assert(self@[0] == '/');
            }
        }
        let i = rfind_char(self.0, '/').unwrap();
        let n = self.0.unicode_len();
        self.0.substring_char(i + 1, n)
    }

    /// The extension of the final component: what follows its last dot, if
    /// it has one.
    pub fn extension(self) -> (r: Option<&'a str>)
        requires
            self.wf(),
        ensures
            ({
                let name = self@.skip(self@.index_of_last('/').unwrap() + 1);
                match r {
                    Some(e) => name.index_of_last('.') matches Some(i) && e@ == name.skip(i + 1),
                    None => name.index_of_last('.') is None,
                }
            }),
    {
        let name = self.last();
        match rfind_char(name, '.') {
            Some(i) => {
                proof {
                    name@.index_of_last_ensures('.');
                }
                let k = name.unicode_len();
                Some(name.substring_char(i + 1, k))
            },
            None => None,
        }
    }

    /// The parent path: the path up to its last slash, a trailing slash
    /// stripped first -- so the parent of a directory path is the same
    /// directory without its slash. The root has no parent.
    pub fn parent(self) -> (r: Option<UrlPath<'a>>)
        requires
            self.wf(),
        ensures
            ({
                let i = self@.index_of_last('/').unwrap();
                let stripped = if self@.last() == '/' {
                    self@.drop_last()
                } else {
                    self@
                };
                &&& r is Some <==> i > 0
                &&& r matches Some(q) ==> q@ == stripped.take(i) && q.wf()
            }),
    {
        proof {
            self@.index_of_last_ensures('/');
            assert(self@.contains('/')) by {
                assert(self@[0] == '/');
            }
        }
        let n = self.0.unicode_len();
        let path = if self.0.get_char(n - 1) == '/' {
            self.0.substring_char(0, n - 1)
        } else {
            self.0
        };
        let i = rfind_char(self.0, '/').unwrap();
        if i > 0 {
            proof {
                if self@.last() == '/' {
                    assert(i == n - 1);
                }
                lemma_parent_valid(self@, i as int);
                assert(path@.take(i as int) =~= (if self@.last() == '/' {
                    self@.drop_last()
                } else {
                    self@
                }).take(i as int));
            }
            Some(UrlPath(path.substring_char(0, i)))
        } else {
            None
        }
    }
}

/// Cutting a well-formed path at its last slash (after stripping a trailing
/// slash) yields a well-formed path again.
proof fn lemma_parent_valid(s: Seq<char>, i: int)
    requires
        valid_url(s),
        s.index_of_last('/') == Some(i),
        i > 0,
    ensures
        valid_url(
            (if s.last() == '/' {
                s.drop_last()
            } else {
                s
            }).take(i),
        ),
{
    s.index_of_last_ensures('/');
    let stripped = if s.last() == '/' {
        s.drop_last()
    } else {
        s
    };
    let p = stripped.take(i);
    let u = strip_body(s);
    assert(s.len() >= 2);
    assert(body_valid(u));
    if s.last() == '/' {
        assert(i == s.len() - 1);
        assert(u =~= s.subrange(1, s.len() - 1));
        assert(p =~= s.take(s.len() - 1));
        assert(u.len() > 0);
        assert(p.len() >= 2);
        assert(strip_body(p) =~= u);
        assert(valid_url(p));
    } else {
        assert(u =~= s.skip(1));
        assert(u[i - 1] == '/');
        assert(i != 1) by {
            if i == 1 {
                assert(u[0] == '/');
            }
        }
        assert(i >= 2);
        assert(i <= s.len() - 2);
        let v = u.take(i - 1);
        assert(u[i - 2] != '/');
        assert(p[p.len() - 1] == u[i - 2]);
        assert(strip_body(p) =~= v);
        assert(v[v.len() - 1] == u[i - 2]);
        assert forall|k: int| 0 < k < v.len() && v[k - 1] == '/' implies #[trigger] v[k] != '/' by {
            assert(v[k] == u[k]);
            assert(v[k - 1] == u[k - 1]);
        }
        assert forall|k: int| #[trigger] component_start(v, k) implies v[k] != '.' && v[k]
            != '_' by {
            assert(component_start(u, k));
        }
        assert(body_valid(v));
        assert(valid_url(p));
    }
}

} // verus!
