//! The request-handling rules: which resource a request path names, and how
//! a page is rendered once its sources are read.
//!
//! Reading files and speaking HTTP stay outside; this module only decides
//! and computes.

use vstd::prelude::*;
use vstd::string::StrSliceExecFns;
use vstd::string::StringExecFns;

use crate::markdown::Page;
use crate::markdown::markdown;
use crate::markdown::markdown_spec;
use crate::markdown::str_eq;

verus! {

/// A request, reduced to what the rules need.
#[derive(Debug)]
pub enum MyRequest<'a> {
    Get(&'a str),
}

/// What the server answers with.
#[derive(Debug)]
pub enum MyResponse {
    Html(String),
    Css(String),
    File(String),
    Redirect(String),
}

/// Why a request is not answered with a resource.
#[derive(Debug)]
pub enum MyError {
    NotFound,
    InvalidScss,
    CannotRead(String),
    Internal(String),
}

pub type MyResult = Result<MyResponse, MyError>;

/// Somewhere in the text a slash follows a slash.
pub open spec fn has_double_slash(s: Seq<char>) -> bool {
    exists|i: int| 0 <= i && i + 1 < s.len() && s[i] == '/' && #[trigger] s[i + 1] == '/'
}

/// The position of the first slash, or -1 if there is none.
pub open spec fn first_slash(s: Seq<char>) -> int
    decreases s.len(),
{
    if s.len() == 0 {
        -1
    } else if s[0] == '/' {
        0
    } else {
        let m = first_slash(s.skip(1));
        if m < 0 {
            -1
        } else {
            m + 1
        }
    }
}

/// The text cut at every slash; the slashes themselves are dropped.
pub open spec fn split_slashes(s: Seq<char>) -> Seq<Seq<char>>
    decreases s.len(),
{
    let i = first_slash(s);
    if 0 <= i < s.len() {
        seq![s.take(i)] + split_slashes(s.skip(i + 1))
    } else {
        seq![s]
    }
}

proof fn lemma_first_slash_found(s: Seq<char>, i: int)
    requires
        0 <= i < s.len(),
        s[i] == '/',
        forall|j: int| 0 <= j < i ==> s[j] != '/',
    ensures
        first_slash(s) == i,
    decreases i,
{
    if i > 0 {
        assert(s.skip(1)[i - 1] == s[i]);
        assert(forall|j: int| 0 <= j < i - 1 ==> #[trigger] s.skip(1)[j] == s[j + 1]);
        lemma_first_slash_found(s.skip(1), i - 1);
    }
}

proof fn lemma_first_slash_none(s: Seq<char>)
    requires
        forall|j: int| 0 <= j < s.len() ==> s[j] != '/',
    ensures
        first_slash(s) == -1,
    decreases s.len(),
{
    if s.len() > 0 {
        assert(forall|j: int| 0 <= j < s.len() - 1 ==> #[trigger] s.skip(1)[j] == s[j + 1]);
        lemma_first_slash_none(s.skip(1));
    }
}

/// The views of a list of component slices.
pub open spec fn components_view(v: Seq<&str>) -> Seq<Seq<char>> {
    v.map_values(|c: &str| c@)
}

/// The request path's body: everything after the leading slash, with one
/// trailing slash removed.
pub open spec fn path_body(s: Seq<char>) -> Seq<char> {
    let t = s.skip(1);
    if t.len() > 0 && t.last() == '/' {
        t.drop_last()
    } else {
        t
    }
}

/// Cut a request path into its components: it must start with a slash and
/// contain no double slash; one trailing slash is allowed and dropped.
pub fn to_components<'a>(url: &'a str) -> (r: Option<Vec<&'a str>>)
    ensures
        match r {
            Some(v) => {
                &&& url@.len() >= 1
                &&& url@[0] == '/'
                &&& !has_double_slash(url@)
                &&& (if path_body(url@).len() == 0 {
                    v@.len() == 0
                } else {
                    components_view(v@) == split_slashes(path_body(url@))
                })
            },
            None => url@.len() == 0 || url@[0] != '/' || has_double_slash(url@),
        },
{
    let ghost s = url@;
    let n = url.unicode_len();
    if n == 0 || url.get_char(0) != '/' {
        return None;
    }
    // Reject any double slash.
    let mut p: usize = 0;
    while p < n - 1
        invariant
            n == s.len(),
            n >= 1,
            s == url@,
            p <= n,
            forall|j: int| 0 <= j < p ==> !(s[j] == '/' && #[trigger] s[j + 1] == '/'),
        decreases n - p,
    {
        if url.get_char(p) == '/' && url.get_char(p + 1) == '/' {
            return None;
        }
        p += 1;
    }
    if n == 1 {
        let v: Vec<&str> = Vec::new();
        return Some(v);
    }
    // The body is s[1..m]: the leading slash and one trailing slash dropped.
    let m = if url.get_char(n - 1) == '/' {
        n - 1
    } else {
        n
    };
    let ghost body = path_body(s);
    proof {
        assert(body =~= s.subrange(1, m as int));
        if m == 1 {
            assert(s[0] == '/' && s[1] == '/');
            assert(false);
        }
    }
    let mut v: Vec<&'a str> = Vec::new();
    let mut start: usize = 1;
    let mut i: usize = 1;
    proof {
        assert(body.skip(0) =~= body);
        assert(components_view(v@) + split_slashes(body) =~= split_slashes(body));
    }
    while i < m
        invariant
            1 <= start,
            start <= i <= m,
            m <= n,
            n == s.len(),
            s == url@,
            body == path_body(s),
            body =~= s.subrange(1, m as int),
            split_slashes(body) == components_view(v@) + split_slashes(body.skip(start - 1)),
            forall|j: int| start <= j < i ==> s[j] != '/',
        decreases m - i,
    {
        if url.get_char(i) == '/' {
            let comp = url.substring_char(start, i);
            proof {
                let t = body.skip(start - 1);
                assert(forall|k: int| 0 <= k < t.len() ==> t[k] == s[start + k]);
                assert(t[i - start] == '/');
                lemma_first_slash_found(t, i - start);
                assert(t.take(i - start) =~= comp@);
                assert(t.skip(i - start + 1) =~= body.skip(i + 1 - 1));
                assert(split_slashes(t) == seq![comp@] + split_slashes(body.skip(i as int)));
                assert(components_view(v@.push(comp)) =~= components_view(v@) + seq![comp@]);
                assert((components_view(v@) + seq![comp@]) + split_slashes(body.skip(i as int))
                    =~= components_view(v@) + (seq![comp@] + split_slashes(body.skip(i as int))));
            }
            v.push(comp);
            start = i + 1;
        }
        i += 1;
    }
    let comp = url.substring_char(start, m);
    proof {
        let t = body.skip(start - 1);
        assert(forall|k: int| 0 <= k < t.len() ==> t[k] == s[start + k]);
        lemma_first_slash_none(t);
        assert(t =~= comp@);
        assert(split_slashes(t) == seq![comp@]);
        assert(components_view(v@.push(comp)) =~= components_view(v@) + seq![comp@]);
    }
    v.push(comp);
    Some(v)
}

/// Every component is non-empty and begins with neither `.` nor `_` -- so
/// no hidden or internal file can be named.
pub open spec fn components_pass(cs: Seq<Seq<char>>) -> bool {
    forall|k: int|
        0 <= k < cs.len() ==> (#[trigger] cs[k]).len() > 0 && cs[k][0] != '.' && cs[k][0] != '_'
}

/// Whether every component passes the filter.
fn check_components(v: &Vec<&str>) -> (r: bool)
    ensures
        r == components_pass(components_view(v@)),
{
    let mut k: usize = 0;
    while k < v.len()
        invariant
            k <= v@.len(),
            forall|j: int|
                0 <= j < k ==> (#[trigger] components_view(v@)[j]).len() > 0 && components_view(
                    v@,
                )[j][0] != '.' && components_view(v@)[j][0] != '_',
        decreases v@.len() - k,
    {
        let c = v[k];
        proof {
            assert(components_view(v@)[k as int] == v@[k as int]@);
        }
        if c.unicode_len() == 0 {
            return false;
        }
        let c0 = c.get_char(0);
        if c0 == '.' || c0 == '_' {
            return false;
        }
        k += 1;
    }
    true
}

/// The request path is one the server will resolve: it parses into
/// components, and every component passes the filter.
pub open spec fn route_ok(u: Seq<char>) -> bool {
    &&& u.len() >= 1
    &&& u[0] == '/'
    &&& !has_double_slash(u)
    &&& (path_body(u).len() == 0 || components_pass(split_slashes(path_body(u))))
}

/// Which resource a request path names.
#[derive(Debug)]
pub enum Route {
    /// Compile this stylesheet source and serve the CSS.
    Stylesheet { source: String },
    /// Serve this file from disk as it is.
    Static { file: String },
    /// Read the page source and the template, render, and serve HTML.
    Page { source: String, template: String },
    /// Send the client elsewhere.
    Redirect { location: String },
    /// Nothing is served here.
    NotFound,
}

/// Decide which resource the request path names. Paths that do not parse
/// or name hidden files find nothing; a directory path names its page
/// source and the default template.
pub fn route(uri: &str) -> (r: Route)
    ensures
        !route_ok(uri@) ==> r is NotFound,
        route_ok(uri@) ==> ({
            if uri@ == ("/default.css")@ {
                r matches Route::Stylesheet { source } && source@ == ("_style/default.scss")@
            } else if uri@ == ("/heart.svg")@ {
                r matches Route::Static { file } && file@ == ("heart.svg")@
            } else if uri@ == ("/zero")@ {
                r matches Route::Static { file } && file@ == ("zero")@
            } else if uri@.last() == '/' {
                r matches Route::Page { source, template } && source@ == uri@.skip(1) + (
                "page.md")@ && template@ == ("_style/default.html")@
            } else if uri@ == ("/page1")@ {
                r matches Route::Redirect { location } && location@ == ("/page1/")@
            } else {
                r is NotFound
            }
        }),
{
    let comps = match to_components(uri) {
        Some(c) => c,
        None => {
            return Route::NotFound;
        },
    };
    if !check_components(&comps) {
        return Route::NotFound;
    }
    if str_eq(uri, "/default.css") {
        return Route::Stylesheet { source: "_style/default.scss".to_owned() };
    }
    if str_eq(uri, "/heart.svg") {
        return Route::Static { file: "heart.svg".to_owned() };
    }
    if str_eq(uri, "/zero") {
        return Route::Static { file: "zero".to_owned() };
    }
    let n = uri.unicode_len();
    if uri.get_char(n - 1) == '/' {
        let source = String::from_str(uri.substring_char(1, n)).concat("page.md");
        return Route::Page { source, template: "_style/default.html".to_owned() };
    }
    if str_eq(uri, "/page1") {
        return Route::Redirect { location: "/page1/".to_owned() };
    }
    Route::NotFound
}

/// The text the template engine produces for a template and the variables,
/// or nothing when it rejects the template.
pub uninterp spec fn template_rendered(tpl: Seq<char>, vars: Seq<(Seq<char>, Seq<char>)>) -> Option<
    Seq<char>,
>;

/// Relies on handlebars::Handlebars::render_template with a fresh registry:
/// the result depends on the template text and the variables alone (the
/// engine looks variables up by name; a later entry overrides an earlier
/// one, as the map is filled in order).
#[verifier::external_body]
fn render_template_vars(tpl: &str, page: &Page) -> (r: Option<String>)
    ensures
        match r {
            Some(html) => template_rendered(tpl@, page@) == Some(html@),
            None => template_rendered(tpl@, page@) is None,
        },
{
    let mut data = std::collections::HashMap::new();
    for (k, v) in page.entries().iter() {
        data.insert(k.clone(), v.clone());
    }
    let hbs = handlebars::Handlebars::new();
    hbs.render_template(tpl, &data).ok()
}

/// Render a page's source with a template: the front matter and the body
/// become the variables, and the template is filled from them. A rejected
/// front matter finds nothing; a rejected template is an internal fault.
pub fn render_page(doc: &str, template: &str) -> (r: Result<String, MyError>)
    ensures
        r matches Ok(html) ==> markdown_spec(doc@) matches Some(vars) && template_rendered(
            template@,
            vars,
        ) == Some(html@),
        r matches Err(e) ==> match e {
            MyError::NotFound => markdown_spec(doc@) is None,
            MyError::Internal(msg) => msg@ == ("invalid template")@ && (markdown_spec(
                doc@,
            ) matches Some(vars) && template_rendered(template@, vars) is None),
            MyError::InvalidScss => false,
            MyError::CannotRead(_) => false,
        },
{
    let page = match markdown(doc) {
        Ok(p) => p,
        Err(_) => {
            return Err(MyError::NotFound);
        },
    };
    match render_template_vars(template, &page) {
        Some(html) => Ok(html),
        None => Err(MyError::Internal("invalid template".to_owned())),
    }
}

} // verus!
