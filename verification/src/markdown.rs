//! Markdown pages with an optional TOML front matter.
//!
//! A page is text, optionally preceded by a header between `---` lines. The
//! header's string-valued entries become page variables; the rest of the
//! text is rendered to HTML and stored under the `contents` variable.

use vstd::prelude::*;
use vstd::string::StrSliceExecFns;

verus! {

/// Why a page could not be processed.
#[derive(Debug)]
pub enum MarkdownError {
    /// The front matter is not a TOML table of strings.
    InvalidHeader,
}

/// The characters `str::trim_start` removes: Unicode white space.
pub open spec fn is_space(c: char) -> bool {
    ||| c == ' '
    ||| c == '\t'
    ||| c == '\n'
    ||| c == '\u{b}'
    ||| c == '\u{c}'
    ||| c == '\r'
    ||| c == '\u{85}'
    ||| c == '\u{a0}'
    ||| c == '\u{1680}'
    ||| c == '\u{2000}'
    ||| c == '\u{2001}'
    ||| c == '\u{2002}'
    ||| c == '\u{2003}'
    ||| c == '\u{2004}'
    ||| c == '\u{2005}'
    ||| c == '\u{2006}'
    ||| c == '\u{2007}'
    ||| c == '\u{2008}'
    ||| c == '\u{2009}'
    ||| c == '\u{200a}'
    ||| c == '\u{2028}'
    ||| c == '\u{2029}'
    ||| c == '\u{202f}'
    ||| c == '\u{205f}'
    ||| c == '\u{3000}'
}

/// Whether `c` is Unicode white space.
fn is_space_char(c: char) -> (r: bool)
    ensures
        r == is_space(c),
{
    c == ' ' || c == '\t' || c == '\n' || c == '\u{b}' || c == '\u{c}' || c == '\r' || c == '\u{85}'
        || c == '\u{a0}' || c == '\u{1680}' || c == '\u{2000}' || c == '\u{2001}' || c == '\u{2002}'
        || c == '\u{2003}' || c == '\u{2004}' || c == '\u{2005}' || c == '\u{2006}' || c
        == '\u{2007}' || c == '\u{2008}' || c == '\u{2009}' || c == '\u{200a}' || c == '\u{2028}'
        || c == '\u{2029}' || c == '\u{202f}' || c == '\u{205f}' || c == '\u{3000}'
}

/// The text without its leading white space.
pub open spec fn trim_start_spec(s: Seq<char>) -> Seq<char>
    decreases s.len(),
{
    if s.len() == 0 {
        s
    } else if is_space(s[0]) {
        trim_start_spec(s.skip(1))
    } else {
        s
    }
}

/// Trimming removes exactly the leading run of white space.
proof fn lemma_trim_start(s: Seq<char>, k: int)
    requires
        0 <= k <= s.len(),
        forall|j: int| 0 <= j < k ==> is_space(#[trigger] s[j]),
        k < s.len() ==> !is_space(s[k]),
    ensures
        trim_start_spec(s) == s.skip(k),
    decreases k,
{
    if k == 0 {
        assert(s.skip(0) =~= s);
    } else {
        assert(is_space(s[0]));
        assert(forall|j: int| 0 <= j < k - 1 ==> is_space(#[trigger] s.skip(1)[j]));
        lemma_trim_start(s.skip(1), k - 1);
        assert(s.skip(1).skip(k - 1) =~= s.skip(k));
    }
}

/// A front-matter end marker (a `---` line) begins at `i`.
pub open spec fn marker_at(s: Seq<char>, i: int) -> bool {
    &&& 0 <= i
    &&& i + 5 <= s.len()
    &&& s[i] == '\n'
    &&& s[i + 1] == '-'
    &&& s[i + 2] == '-'
    &&& s[i + 3] == '-'
    &&& s[i + 4] == '\n'
}

/// The position of the first front-matter end marker, or -1 if there is
/// none.
pub open spec fn first_marker(s: Seq<char>) -> int
    decreases s.len(),
{
    if s.len() < 5 {
        -1
    } else if marker_at(s, 0) {
        0
    } else {
        let m = first_marker(s.skip(1));
        if m < 0 {
            -1
        } else {
            m + 1
        }
    }
}

proof fn lemma_first_marker_found(s: Seq<char>, i: int)
    requires
        marker_at(s, i),
        forall|j: int| 0 <= j < i ==> !marker_at(s, j),
    ensures
        first_marker(s) == i,
    decreases i,
{
    if i > 0 {
        assert(marker_at(s.skip(1), i - 1)) by {
            assert(s.skip(1)[i - 1] == s[i]);
            assert(s.skip(1)[i] == s[i + 1]);
            assert(s.skip(1)[i + 1] == s[i + 2]);
            assert(s.skip(1)[i + 2] == s[i + 3]);
            assert(s.skip(1)[i + 3] == s[i + 4]);
        }
        assert forall|j: int| 0 <= j < i - 1 implies !marker_at(s.skip(1), j) by {
            assert(!marker_at(s, j + 1));
            if marker_at(s.skip(1), j) {
                assert(s.skip(1)[j] == s[j + 1]);
                assert(s.skip(1)[j + 1] == s[j + 2]);
                assert(s.skip(1)[j + 2] == s[j + 3]);
                assert(s.skip(1)[j + 3] == s[j + 4]);
                assert(s.skip(1)[j + 4] == s[j + 5]);
            }
        }
        lemma_first_marker_found(s.skip(1), i - 1);
    }
}

proof fn lemma_first_marker_none(s: Seq<char>)
    requires
        forall|j: int| !marker_at(s, j),
    ensures
        first_marker(s) == -1,
    decreases s.len(),
{
    if s.len() >= 5 {
        assert forall|j: int| !marker_at(s.skip(1), j) by {
            assert(!marker_at(s, j + 1));
            if 0 <= j && marker_at(s.skip(1), j) {
                assert(s.skip(1)[j] == s[j + 1]);
                assert(s.skip(1)[j + 1] == s[j + 2]);
                assert(s.skip(1)[j + 2] == s[j + 3]);
                assert(s.skip(1)[j + 3] == s[j + 4]);
                assert(s.skip(1)[j + 4] == s[j + 5]);
            }
        }
        lemma_first_marker_none(s.skip(1));
    }
}

/// The text opens, after leading white space, with a `---` front-matter
/// block that is closed by a `---` line.
pub open spec fn has_front_matter(s: Seq<char>) -> bool {
    let t = trim_start_spec(s);
    &&& t.len() >= 4
    &&& t[0] == '-'
    &&& t[1] == '-'
    &&& t[2] == '-'
    &&& t[3] == '\n'
    &&& first_marker(t.skip(4)) >= 0
}

/// The front-matter header: what stands between the `---` lines.
pub open spec fn front_matter_header(s: Seq<char>) -> Seq<char> {
    let t = trim_start_spec(s).skip(4);
    t.take(first_marker(t))
}

/// The page body: what follows the closing `---` line.
pub open spec fn front_matter_body(s: Seq<char>) -> Seq<char> {
    let t = trim_start_spec(s).skip(4);
    t.skip(first_marker(t) + 5)
}

/// Split a page into its front-matter header and its body, if the page has
/// a front matter: leading white space, a `---` line, the header, and a
/// closing `---` line.
pub fn split(data: &str) -> (r: Option<(&str, &str)>)
    ensures
        match r {
            Some((h, b)) => has_front_matter(data@) && h@ == front_matter_header(data@) && b@
                == front_matter_body(data@),
            None => !has_front_matter(data@),
        },
{
    let ghost s = data@;
    let n = data.unicode_len();
    let mut k: usize = 0;
    while k < n && is_space_char(data.get_char(k))
        invariant
            0 <= k <= n,
            n == s.len(),
            s == data@,
            forall|j: int| 0 <= j < k ==> is_space(#[trigger] s[j]),
        decreases n - k,
    {
        k += 1;
    }
    proof {
        lemma_trim_start(s, k as int);
    }
    let ghost t = trim_start_spec(s);
    if n - k < 4 {
        return None;
    }
    proof {
        assert(t.len() == n - k);
        assert(t[0] == s[k as int] && t[1] == s[k + 1] && t[2] == s[k + 2] && t[3] == s[k + 3]);
    }
    if data.get_char(k) != '-' || data.get_char(k + 1) != '-' || data.get_char(k + 2) != '-'
        || data.get_char(k + 3) != '\n' {
        return None;
    }
    let ghost t4 = t.skip(4);
    proof {
        assert(t4 =~= s.subrange(k + 4, n as int));
        assert(t[0] == s[k as int] && t[1] == s[k + 1] && t[2] == s[k + 2] && t[3] == s[k + 3]);
    }
    // Look for the first `\n---\n` in the rest of the text.
    let mut i: usize = 0;
    loop
        invariant
            i + k + 4 <= n,
            n == s.len(),
            s == data@,
            t == trim_start_spec(s),
            t.len() >= 4,
            t[0] == '-' && t[1] == '-' && t[2] == '-' && t[3] == '\n',
            t4 == t.skip(4),
            t4 =~= s.subrange(k + 4, n as int),
            k + 4 <= n,
            forall|j: int| 0 <= j < i ==> !marker_at(t4, j),
        decreases n - i - k - 4,
    {
        if n - k - 4 - i < 5 {
            proof {
                assert forall|j: int| !marker_at(t4, j) by {
                    if 0 <= j < i {
                    } else if j >= i {
                        assert(j + 5 > t4.len());
                    }
                }
                lemma_first_marker_none(t4);
            }
            return None;
        }
        let p = k + 4 + i;
        if data.get_char(p) == '\n' && data.get_char(p + 1) == '-' && data.get_char(p + 2) == '-'
            && data.get_char(p + 3) == '-' && data.get_char(p + 4) == '\n' {
            proof {
                assert(marker_at(t4, i as int)) by {
                    assert(t4[i as int] == s[p as int]);
                    assert(t4[i + 1] == s[p + 1]);
                    assert(t4[i + 2] == s[p + 2]);
                    assert(t4[i + 3] == s[p + 3]);
                    assert(t4[i + 4] == s[p + 4]);
                }
                lemma_first_marker_found(t4, i as int);
            }
            let h = data.substring_char(k + 4, p);
            let b = data.substring_char(p + 5, n);
            proof {
                assert(h@ =~= t4.take(i as int));
                assert(b@ =~= t4.skip(i + 5));
            }
            return Some((h, b));
        }
        i += 1;
        proof {
            assert forall|j: int| 0 <= j < i implies !marker_at(t4, j) by {
                if j == i - 1 {
                    assert(t4[j] == s[k + 4 + j]);
                    if marker_at(t4, j) {
                        assert(t4[j + 1] == s[k + 4 + j + 1]);
                        assert(t4[j + 2] == s[k + 4 + j + 2]);
                        assert(t4[j + 3] == s[k + 4 + j + 3]);
                        assert(t4[j + 4] == s[k + 4 + j + 4]);
                    }
                }
            }
        }
    }
}

/// Whether two strings hold the same characters.
pub fn str_eq(a: &str, b: &str) -> (r: bool)
    ensures
        r == (a@ == b@),
{
    let n = a.unicode_len();
    if n != b.unicode_len() {
        return false;
    }
    let mut i: usize = 0;
    while i < n
        invariant
            i <= n,
            n == a@.len(),
            n == b@.len(),
            forall|j: int| 0 <= j < i ==> a@[j] == b@[j],
        decreases n - i,
    {
        if a.get_char(i) != b.get_char(i) {
            return false;
        }
        i += 1;
    }
    proof {
        assert(a@ =~= b@);
    }
    true
}

/// The view of a list of string pairs.
pub open spec fn pairs_view(v: Seq<(String, String)>) -> Seq<(Seq<char>, Seq<char>)> {
    v.map_values(|p: (String, String)| (p.0@, p.1@))
}

/// The string-valued entries of a TOML header, in the order the parser
/// yields them; nothing when the text is not a TOML table of strings.
pub uninterp spec fn header_pairs(s: Seq<char>) -> Option<Seq<(Seq<char>, Seq<char>)>>;

/// Relies on toml::Table's `FromStr` and toml::Value: parses the text as a
/// TOML table and keeps its string-valued entries; a parse failure or any
/// non-string value yields nothing.
#[verifier::external_body]
fn toml_string_table(src: &str) -> (r: Option<Vec<(String, String)>>)
    ensures
        match r {
            Some(v) => header_pairs(src@) == Some(pairs_view(v@)),
            None => header_pairs(src@) is None,
        },
{
    let table: toml::Table = match src.parse() {
        Ok(t) => t,
        Err(_) => return None,
    };
    let mut pairs = Vec::new();
    for (k, v) in table {
        match v {
            toml::Value::String(s) => pairs.push((k, s)),
            _ => return None,
        }
    }
    Some(pairs)
}

/// The HTML that the markdown renderer produces for a text.
pub uninterp spec fn markdown_html(s: Seq<char>) -> Seq<char>;

/// Relies on pulldown_cmark::Parser and pulldown_cmark::html::push_html:
/// the rendered HTML depends on the markdown text alone.
#[verifier::external_body]
fn render_markdown(doc: &str) -> (r: String)
    ensures
        r@ == markdown_html(doc@),
{
    let mut buf = String::new();
    pulldown_cmark::html::push_html(&mut buf, pulldown_cmark::Parser::new(doc));
    buf
}

/// The value bound to `key` among the page variables: the latest entry with
/// that key, which overrides any earlier one.
pub open spec fn lookup(ps: Seq<(Seq<char>, Seq<char>)>, key: Seq<char>) -> Option<Seq<char>>
    decreases ps.len(),
{
    if ps.len() == 0 {
        None
    } else if ps.last().0 == key {
        Some(ps.last().1)
    } else {
        lookup(ps.drop_last(), key)
    }
}

/// The variables of a rendered page: the front-matter entries followed by
/// the rendered body under `contents`. A later entry overrides an earlier
/// one of the same key.
pub struct Page {
    vars: Vec<(String, String)>,
}

impl View for Page {
    type V = Seq<(Seq<char>, Seq<char>)>;

    closed spec fn view(&self) -> Seq<(Seq<char>, Seq<char>)> {
        pairs_view(self.vars@)
    }
}

impl Page {
    /// A page with no variables.
    pub fn new() -> (r: Page)
        ensures
            r@ == Seq::<(Seq<char>, Seq<char>)>::empty(),
    {
        let r = Page { vars: Vec::new() };
        proof {
            assert(r@ =~= Seq::<(Seq<char>, Seq<char>)>::empty());
        }
        r
    }

    /// Append a variable, overriding any earlier entry of the same key.
    pub fn push(&mut self, key: String, value: String)
        ensures
            final(self)@ == old(self)@.push((key@, value@)),
    {
        let ghost pre = self.vars@;
        self.vars.push((key, value));
        proof {
            assert(self@ =~= pairs_view(pre).push((key@, value@)));
        }
    }

    /// How many variables the page has.
    pub fn len(&self) -> (r: usize)
        ensures
            r == self@.len(),
    {
        self.vars.len()
    }

    /// The variables as entered, earliest first.
    pub fn entries(&self) -> (r: &Vec<(String, String)>)
        ensures
            pairs_view(r@) == self@,
    {
        &self.vars
    }

    /// The value bound to `key`, if the page has one.
    pub fn get(&self, key: &str) -> (r: Option<&String>)
        ensures
            match r {
                Some(v) => lookup(self@, key@) == Some(v@),
                None => lookup(self@, key@) is None,
            },
    {
        let mut i = self.vars.len();
        proof {
            assert(self@.take(i as int) =~= self@);
        }
        while i > 0
            invariant
                i <= self.vars.len(),
                lookup(self@, key@) == lookup(self@.take(i as int), key@),
        decreases i,
        {
            i -= 1;
            if str_eq(self.vars[i].0.as_str(), key) {
                proof {
                    assert(self@.take(i + 1).last() == (self.vars@[i as int].0@, self.vars@[
                        i as int].1@));
                }
                return Some(&self.vars[i].1);
            }
            proof {
                assert(self@.take(i + 1).last() == (self.vars@[i as int].0@, self.vars@[
                    i as int].1@));
                assert(self@.take(i + 1).drop_last() =~= self@.take(i as int));
            }
        }
        proof {
            assert(self@.take(0) =~= Seq::<(Seq<char>, Seq<char>)>::empty());
        }
        None
    }
}

/// Parse a page's front matter into its string-valued variables and hand
/// back the body that follows it. A page with no front matter has no
/// variables and is all body; a front matter that is not a TOML table of
/// strings is rejected.
pub fn parse_header(src: &str) -> (r: Result<(Page, &str), MarkdownError>)
    ensures
        match r {
            Ok(p) => {
                &&& has_front_matter(src@) ==> header_pairs(front_matter_header(src@)) == Some(
                    p.0@,
                ) && p.1@ == front_matter_body(src@)
                &&& !has_front_matter(src@) ==> p.0@ == Seq::<(Seq<char>, Seq<char>)>::empty()
                    && p.1@ == src@
            },
            Err(_) => has_front_matter(src@) && header_pairs(front_matter_header(src@)) is None,
        },
{
    match split(src) {
        Some((header, body)) => match toml_string_table(header) {
            Some(vars) => Ok((Page { vars }, body)),
            None => Err(MarkdownError::InvalidHeader),
        },
        None => Ok((Page::new(), src)),
    }
}

/// What rendering a page yields: the front-matter variables plus the body
/// rendered to HTML under `contents`; nothing when the front matter is
/// rejected.
pub open spec fn markdown_spec(doc: Seq<char>) -> Option<Seq<(Seq<char>, Seq<char>)>> {
    if has_front_matter(doc) {
        match header_pairs(front_matter_header(doc)) {
            None => None,
            Some(ps) => Some(ps.push((("contents")@, markdown_html(front_matter_body(doc))))),
        }
    } else {
        Some(seq![(("contents")@, markdown_html(doc))])
    }
}

/// Render a page: parse its front matter, render the body to HTML, and
/// store the HTML as the `contents` variable after the header's entries.
pub fn markdown(doc: &str) -> (r: Result<Page, MarkdownError>)
    ensures
        match r {
            Ok(page) => markdown_spec(doc@) == Some(page@),
            Err(_) => markdown_spec(doc@) is None,
        },
{
    let parsed = match parse_header(doc) {
        Ok(p) => p,
        Err(e) => {
            return Err(e);
        },
    };
    let (mut page, body) = parsed;
    let html = render_markdown(body);
    page.push("contents".to_owned(), html);
    proof {
        if !has_front_matter(doc@) {
            assert(Seq::<(Seq<char>, Seq<char>)>::empty().push(
                (("contents")@, markdown_html(doc@)),
            ) =~= seq![(("contents")@, markdown_html(doc@))]);
        }
    }
    Ok(page)
}

} // verus!
