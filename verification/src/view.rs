//! Pages: a builder for the document head and body, and its rendering to HTML.
use vstd::prelude::*;
use crate::text::{chars_of, extend_chars, string_of};

verus! {

/// A page to be rendered: its title, metadata, extra head markup, inline
/// styles and scripts, and its content (already rendered markup).
pub struct Page {
    title: String,
    description: Option<String>,
    keywords: Vec<String>,
    canonical_url: Option<String>,
    og_image: Option<String>,
    head_tags: Vec<String>,
    inline_css: Vec<String>,
    inline_js: Vec<String>,
    content: Option<String>,
}

/// A page as plain values.
pub struct PageView {
    pub title: Seq<char>,
    pub description: Option<Seq<char>>,
    pub keywords: Seq<Seq<char>>,
    pub canonical_url: Option<Seq<char>>,
    pub og_image: Option<Seq<char>>,
    pub head_tags: Seq<Seq<char>>,
    pub inline_css: Seq<Seq<char>>,
    pub inline_js: Seq<Seq<char>>,
    pub content: Option<Seq<char>>,
}

/// The text of an optional string.
pub open spec fn opt_view(o: Option<String>) -> Option<Seq<char>> {
    match o {
        Some(s) => Some(s@),
        None => None,
    }
}

/// The texts of a list of strings.
pub open spec fn strings_view(v: Seq<String>) -> Seq<Seq<char>> {
    Seq::new(v.len(), |i: int| v[i]@)
}

impl View for Page {
    type V = PageView;

    closed spec fn view(&self) -> PageView {
        PageView {
            title: self.title@,
            description: opt_view(self.description),
            keywords: strings_view(self.keywords@),
            canonical_url: opt_view(self.canonical_url),
            og_image: opt_view(self.og_image),
            head_tags: strings_view(self.head_tags@),
            inline_css: strings_view(self.inline_css@),
            inline_js: strings_view(self.inline_js@),
            content: opt_view(self.content),
        }
    }
}

/// How a character appears in HTML text or an attribute value: `&`, `<`, `>`
/// and `"` become entities.
pub open spec fn escaped_html_char(c: char) -> Seq<char> {
    if c == '&' {
        seq!['&', 'a', 'm', 'p', ';']
    } else if c == '<' {
        seq!['&', 'l', 't', ';']
    } else if c == '>' {
        seq!['&', 'g', 't', ';']
    } else if c == '"' {
        seq!['&', 'q', 'u', 'o', 't', ';']
    } else {
        seq![c]
    }
}

/// `s` escaped for HTML.
pub open spec fn html_escape(s: Seq<char>) -> Seq<char>
    decreases s.len(),
{
    if s.len() == 0 {
        seq![]
    } else {
        html_escape(s.drop_last()) + escaped_html_char(s.last())
    }
}

/// Escaped text cannot open or close markup: it holds no `<`, `>` or `"`.
pub proof fn lemma_escaped_text_is_inert(s: Seq<char>)
    ensures
        forall|i: int|
            0 <= i < html_escape(s).len() ==> {
                let c = #[trigger] html_escape(s)[i];
                c != '<' && c != '>' && c != '"'
            },
    decreases s.len(),
{
    if s.len() > 0 {
        lemma_escaped_text_is_inert(s.drop_last());
        let a = html_escape(s.drop_last());
        let b = escaped_html_char(s.last());
        assert forall|i: int| 0 <= i < html_escape(s).len() implies {
            let c = #[trigger] html_escape(s)[i];
            c != '<' && c != '>' && c != '"'
        } by {
            if i < a.len() {
                assert(html_escape(s)[i] == a[i]);
            } else {
                assert(html_escape(s)[i] == b[i - a.len()]);
            }
        }
    }
}

/// Text without `&`, `<`, `>` or `"` is its own escape.
pub proof fn lemma_plain_text_unescaped(s: Seq<char>)
    requires
        forall|i: int|
            0 <= i < s.len() ==> {
                let c = #[trigger] s[i];
                c != '&' && c != '<' && c != '>' && c != '"'
            },
    ensures
        html_escape(s) == s,
    decreases s.len(),
{
    if s.len() > 0 {
        let t = s.drop_last();
        assert forall|i: int| 0 <= i < t.len() implies {
            let c = #[trigger] t[i];
            c != '&' && c != '<' && c != '>' && c != '"'
        } by {
            assert(t[i] == s[i]);
        }
        lemma_plain_text_unescaped(t);
        let c = s[s.len() - 1];
        assert(c != '&' && c != '<' && c != '>' && c != '"');
        assert(t.push(s.last()) =~= s);
    }
}

/// Escapes text for HTML (`maud::Render` on `str`, which replaces `&`, `<`,
/// `>` and `"` by entities and keeps every other character).
#[verifier::external_body]
pub(crate) fn escape_html(s: &str) -> (r: String)
    ensures
        r@ == html_escape(s@),
{
    maud::Render::render(s).into_string()
}

/// The texts of `parts`, with `sep` between each two.
pub open spec fn joined(parts: Seq<Seq<char>>, sep: Seq<char>) -> Seq<char>
    decreases parts.len(),
{
    if parts.len() == 0 {
        seq![]
    } else if parts.len() == 1 {
        parts[0]
    } else {
        joined(parts.drop_last(), sep) + sep + parts.last()
    }
}

/// Each text of `parts` between `open` and `close`, one after another.
pub open spec fn wrapped(parts: Seq<Seq<char>>, open: Seq<char>, close: Seq<char>) -> Seq<char>
    decreases parts.len(),
{
    if parts.len() == 0 {
        seq![]
    } else {
        wrapped(parts.drop_last(), open, close) + open + parts.last() + close
    }
}

/// The `description` meta element, if the page has a description.
pub open spec fn description_html(p: PageView) -> Seq<char> {
    match p.description {
        Some(d) => "<meta name=\"description\" content=\""@ + html_escape(d) + "\">"@,
        None => Seq::empty(),
    }
}

/// The `keywords` meta element, if the page has keywords.
pub open spec fn keywords_html(p: PageView) -> Seq<char> {
    if p.keywords.len() > 0 {
        "<meta name=\"keywords\" content=\""@ + html_escape(joined(p.keywords, ", "@)) + "\">"@
    } else {
        Seq::empty()
    }
}

/// The canonical link, if the page has a canonical URL.
pub open spec fn canonical_html(p: PageView) -> Seq<char> {
    match p.canonical_url {
        Some(u) => "<link rel=\"canonical\" href=\""@ + html_escape(u) + "\">"@,
        None => Seq::empty(),
    }
}

/// The Open Graph image and Twitter card meta elements, if the page has an image.
pub open spec fn og_image_html(p: PageView) -> Seq<char> {
    match p.og_image {
        Some(i) => "<meta property=\"og:image\" content=\""@ + html_escape(i)
            + "\"><meta name=\"twitter:card\" content=\"summary_large_image\">"@,
        None => Seq::empty(),
    }
}

/// The content, if the page has any.
pub open spec fn content_html(p: PageView) -> Seq<char> {
    match p.content {
        Some(c) => c,
        None => Seq::empty(),
    }
}

/// The HTML document of a page.
pub open spec fn page_html(p: PageView) -> Seq<char> {
    "<!DOCTYPE html><html><head><meta charset=\"utf-8\"><meta name=\"viewport\" content=\"width=device-width, initial-scale=1.0\"><title>"@
        + html_escape(p.title) + "</title>"@ + description_html(p) + keywords_html(p) + canonical_html(p)
        + og_image_html(p)
        + "<link rel=\"stylesheet\" href=\"/static/app.css\"><script src=\"/static/router.js\"></script>"@
        + wrapped(p.head_tags, ""@, ""@) + wrapped(p.inline_css, "<style>"@, "</style>"@)
        + wrapped(p.inline_js, "<script data-page>"@, "</script>"@) + "</head><body><div id=\"app\">"@
        + content_html(p) + "</div></body></html>"@
}

/// Adding a head tag puts exactly that tag into the document, after the tags
/// added before it: the document of the page with one more head tag is the
/// old document with the tag inserted at one place, and every later head tag
/// lands at the end of what the earlier ones left.
pub proof fn lemma_head_tag_inserted(p: PageView, tag: Seq<char>)
    ensures
        exists|k: int|
            0 <= k <= page_html(p).len() && page_html(PageView { head_tags: p.head_tags.push(tag), ..p })
                == page_html(p).take(k) + tag + page_html(p).skip(k),
        page_html(PageView { head_tags: p.head_tags.push(tag), ..p }).len() == page_html(p).len()
            + tag.len(),
{
    let q = PageView { head_tags: p.head_tags.push(tag), ..p };
    assert(q.head_tags.drop_last() =~= p.head_tags);
    assert(wrapped(q.head_tags, ""@, ""@) =~= wrapped(p.head_tags, ""@, ""@) + tag) by {
        assert(""@ =~= Seq::<char>::empty()) by {
            reveal_strlit("");
        }
    }
    let pre = "<!DOCTYPE html><html><head><meta charset=\"utf-8\"><meta name=\"viewport\" content=\"width=device-width, initial-scale=1.0\"><title>"@
        + html_escape(p.title) + "</title>"@ + description_html(p) + keywords_html(p) + canonical_html(p)
        + og_image_html(p)
        + "<link rel=\"stylesheet\" href=\"/static/app.css\"><script src=\"/static/router.js\"></script>"@
        + wrapped(p.head_tags, ""@, ""@);
    let post = wrapped(p.inline_css, "<style>"@, "</style>"@)
        + wrapped(p.inline_js, "<script data-page>"@, "</script>"@) + "</head><body><div id=\"app\">"@
        + content_html(p) + "</div></body></html>"@;
    assert(description_html(q) == description_html(p));
    assert(keywords_html(q) == keywords_html(p));
    assert(canonical_html(q) == canonical_html(p));
    assert(og_image_html(q) == og_image_html(p));
    assert(content_html(q) == content_html(p));
    assert(page_html(p) =~= pre + post);
    assert(page_html(q) =~= pre + tag + post);
    let k = pre.len() as int;
    assert(page_html(p).take(k) =~= pre);
    assert(page_html(p).skip(k) =~= post);
}

pub(crate) fn push_str(out: &mut Vec<char>, s: &str)
    ensures
        final(out)@ == old(out)@ + s@,
{
    extend_chars(out, &chars_of(s));
}

fn push_wrapped(out: &mut Vec<char>, parts: &Vec<String>, open: &str, close: &str)
    ensures
        final(out)@ == old(out)@ + wrapped(strings_view(parts@), open@, close@),
{
    let ghost ps = strings_view(parts@);
    let mut i: usize = 0;
    assert(ps.take(0) =~= Seq::<Seq<char>>::empty());
    while i < parts.len()
        invariant
            i <= parts@.len(),
            ps == strings_view(parts@),
            out@ == old(out)@ + wrapped(ps.take(i as int), open@, close@),
        decreases parts@.len() - i,
    {
        push_str(out, open);
        push_str(out, parts[i].as_str());
        push_str(out, close);
        assert(ps.take(i + 1).drop_last() =~= ps.take(i as int));
        assert(ps.take(i + 1).last() == parts@[i as int]@);
        i = i + 1;
    }
    assert(ps.take(parts@.len() as int) =~= ps);
}

fn join_strings(parts: &Vec<String>, sep: &str) -> (r: String)
    ensures
        r@ == joined(strings_view(parts@), sep@),
{
    let ghost ps = strings_view(parts@);
    let mut out: Vec<char> = Vec::new();
    let mut i: usize = 0;
    while i < parts.len()
        invariant
            i <= parts@.len(),
            ps == strings_view(parts@),
            out@ == joined(ps.take(i as int), sep@),
        decreases parts@.len() - i,
    {
        if i > 0 {
            push_str(&mut out, sep);
        }
        push_str(&mut out, parts[i].as_str());
        assert(ps.take(i + 1).drop_last() =~= ps.take(i as int));
        assert(ps.take(i + 1).last() == parts@[i as int]@);
        i = i + 1;
    }
    assert(ps.take(parts@.len() as int) =~= ps);
    string_of(&out)
}

fn strings_of(items: &[&str]) -> (r: Vec<String>)
    ensures
        strings_view(r@) == Seq::new(items@.len(), |i: int| items@[i]@),
{
    let mut r: Vec<String> = Vec::new();
    let mut i: usize = 0;
    while i < items.len()
        invariant
            i <= items@.len(),
            r@.len() == i,
            forall|k: int| 0 <= k < i ==> #[trigger] r@[k]@ == items@[k]@,
        decreases items@.len() - i,
    {
        r.push(items[i].to_owned());
        i = i + 1;
    }
    assert(strings_view(r@) =~= Seq::new(items@.len(), |i: int| items@[i]@));
    r
}

impl Page {
    /// A page with the given title and nothing else.
    pub fn new(title: String) -> (p: Self)
        ensures
            p@ == (PageView {
                title: title@,
                description: None,
                keywords: Seq::empty(),
                canonical_url: None,
                og_image: None,
                head_tags: Seq::empty(),
                inline_css: Seq::empty(),
                inline_js: Seq::empty(),
                content: None,
            }),
    {
        let p = Page {
            title,
            description: None,
            keywords: Vec::new(),
            canonical_url: None,
            og_image: None,
            head_tags: Vec::new(),
            inline_css: Vec::new(),
            inline_js: Vec::new(),
            content: None,
        };
        assert(p@.keywords =~= Seq::empty());
        assert(p@.head_tags =~= Seq::empty());
        assert(p@.inline_css =~= Seq::empty());
        assert(p@.inline_js =~= Seq::empty());
        p
    }

    /// Sets the description.
    pub fn description(self, desc: String) -> (p: Self)
        ensures
            p@ == (PageView { description: Some(desc@), ..self@ }),
    {
        Page { description: Some(desc), ..self }
    }

    /// Sets the keywords.
    pub fn keywords(self, keywords: &[&str]) -> (p: Self)
        ensures
            p@ == (PageView { keywords: Seq::new(keywords@.len(), |i: int| keywords@[i]@), ..self@ }),
    {
        Page { keywords: strings_of(keywords), ..self }
    }

    /// Sets the canonical URL.
    pub fn canonical_url(self, url: String) -> (p: Self)
        ensures
            p@ == (PageView { canonical_url: Some(url@), ..self@ }),
    {
        Page { canonical_url: Some(url), ..self }
    }

    /// Sets the Open Graph image.
    pub fn og_image(self, img: String) -> (p: Self)
        ensures
            p@ == (PageView { og_image: Some(img@), ..self@ }),
    {
        Page { og_image: Some(img), ..self }
    }

    /// Adds rendered markup to the head.
    pub fn head(self, tag: String) -> (p: Self)
        ensures
            p@ == (PageView { head_tags: self@.head_tags.push(tag@), ..self@ }),
    {
        let mut p = self;
        let ghost before = p.head_tags@;
        p.head_tags.push(tag);
        assert(strings_view(p.head_tags@) =~= strings_view(before).push(tag@));
        p
    }

    /// Adds an inline style sheet.
    pub fn inline_css(self, css: String) -> (p: Self)
        ensures
            p@ == (PageView { inline_css: self@.inline_css.push(css@), ..self@ }),
    {
        let mut p = self;
        let ghost before = p.inline_css@;
        p.inline_css.push(css);
        assert(strings_view(p.inline_css@) =~= strings_view(before).push(css@));
        p
    }

    /// Adds an inline page script.
    pub fn inline_js(self, js: String) -> (p: Self)
        ensures
            p@ == (PageView { inline_js: self@.inline_js.push(js@), ..self@ }),
    {
        let mut p = self;
        let ghost before = p.inline_js@;
        p.inline_js.push(js);
        assert(strings_view(p.inline_js@) =~= strings_view(before).push(js@));
        p
    }

    /// Sets the content (rendered markup).
    pub fn content(self, content: String) -> (p: Self)
        ensures
            p@ == (PageView { content: Some(content@), ..self@ }),
    {
        Page { content: Some(content), ..self }
    }

    /// The HTML document of the page.
    pub fn render(self) -> (r: String)
        ensures
            r@ == page_html(self@),
    {
        let mut out: Vec<char> = Vec::new();
        push_str(
            &mut out,
            "<!DOCTYPE html><html><head><meta charset=\"utf-8\"><meta name=\"viewport\" content=\"width=device-width, initial-scale=1.0\"><title>",
        );
        push_str(&mut out, escape_html(self.title.as_str()).as_str());
        push_str(&mut out, "</title>");
        let ghost a = out@;
        match &self.description {
            Some(d) => {
                push_str(&mut out, "<meta name=\"description\" content=\"");
                push_str(&mut out, escape_html(d.as_str()).as_str());
                push_str(&mut out, "\">");
            },
            None => {},
        }
        assert(out@ =~= a + description_html(self@));
        let ghost b = out@;
        if self.keywords.len() > 0 {
            push_str(&mut out, "<meta name=\"keywords\" content=\"");
            let joined_keywords = join_strings(&self.keywords, ", ");
            push_str(&mut out, escape_html(joined_keywords.as_str()).as_str());
            push_str(&mut out, "\">");
        }
        assert(out@ =~= b + keywords_html(self@));
        let ghost c = out@;
        match &self.canonical_url {
            Some(u) => {
                push_str(&mut out, "<link rel=\"canonical\" href=\"");
                push_str(&mut out, escape_html(u.as_str()).as_str());
                push_str(&mut out, "\">");
            },
            None => {},
        }
        assert(out@ =~= c + canonical_html(self@));
        let ghost d = out@;
        match &self.og_image {
            Some(i) => {
                push_str(&mut out, "<meta property=\"og:image\" content=\"");
                push_str(&mut out, escape_html(i.as_str()).as_str());
                push_str(&mut out, "\"><meta name=\"twitter:card\" content=\"summary_large_image\">");
            },
            None => {},
        }
        assert(out@ =~= d + og_image_html(self@));
        push_str(
            &mut out,
            "<link rel=\"stylesheet\" href=\"/static/app.css\"><script src=\"/static/router.js\"></script>",
        );
        push_wrapped(&mut out, &self.head_tags, "", "");
        push_wrapped(&mut out, &self.inline_css, "<style>", "</style>");
        push_wrapped(&mut out, &self.inline_js, "<script data-page>", "</script>");
        push_str(&mut out, "</head><body><div id=\"app\">");
        let ghost e = out@;
        match &self.content {
            Some(c) => {
                push_str(&mut out, c.as_str());
            },
            None => {},
        }
        assert(out@ =~= e + content_html(self@));
        push_str(&mut out, "</div></body></html>");
        assert(out@ =~= page_html(self@));
        string_of(&out)
    }
}

} // verus!
