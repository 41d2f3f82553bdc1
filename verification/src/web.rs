//! Web pages: the links of a search, the text of a page, and summaries.
use vstd::prelude::*;
use crate::address::{Url, parsed_url};
use crate::text;

verus! {

/// A summary of a web page.
#[derive(Debug)]
pub struct Summary {
    pub url: Url,
    pub content: String,
}

/// The mathematical form of a [`Summary`].
pub struct SummaryView {
    pub url: Seq<char>,
    pub content: Seq<char>,
}

impl View for Summary {
    type V = SummaryView;

    open spec fn view(&self) -> SummaryView {
        SummaryView { url: self.url@, content: self.content@ }
    }
}

impl DeepView for Summary {
    type V = SummaryView;

    open spec fn deep_view(&self) -> SummaryView {
        self@
    }
}

impl Clone for Summary {
    fn clone(&self) -> (r: Self)
        ensures
            r@ == self@,
    {
        Summary { url: self.url.clone(), content: self.content.clone() }
    }
}

impl Summary {
    /// The text of the summary.
    pub fn content(&self) -> (s: &str)
        ensures
            s@ == self.content@,
    {
        self.content.as_str()
    }
}

/// The values of `attribute` on the elements of the HTML document `html`
/// that the CSS `selector` selects, in document order, as `scraper` finds
/// them; nothing if `selector` does not parse.
pub uninterp spec fn selected_attributes(
    html: Seq<char>,
    selector: Seq<char>,
    attribute: Seq<char>,
) -> Option<Seq<Option<Seq<char>>>>;

/// The text nodes under the elements of the HTML document `html` that the
/// CSS `selector` selects, in document order, as `scraper` finds them;
/// nothing if `selector` does not parse.
pub uninterp spec fn selected_text(html: Seq<char>, selector: Seq<char>) -> Option<Seq<Seq<char>>>;

/// The decoded value of the first pair of the `application/x-www-form-urlencoded`
/// text `input`, as `url::form_urlencoded::parse` reads it; nothing if it has no pair.
pub uninterp spec fn first_form_value(input: Seq<char>) -> Option<Seq<char>>;

/// Parses `html` with `scraper::Html::parse_document`, selects with
/// `scraper::Selector::parse(selector)` and reads `ElementRef::attr(attribute)`
/// of each selected element. The contract names the result and says nothing more of it.
#[verifier::external_body]
fn select_attributes(html: &str, selector: &str, attribute: &str) -> (r: Option<
    Vec<Option<String>>,
>)
    ensures
        r.deep_view() == selected_attributes(html@, selector@, attribute@),
{
    let selector = scraper::Selector::parse(selector).ok()?;
    let document = scraper::Html::parse_document(html);
    let mut values = Vec::new();
    for element in document.select(&selector) {
        values.push(element.attr(attribute).map(String::from));
    }
    Some(values)
}

/// Parses `html` with `scraper::Html::parse_document`, selects with
/// `scraper::Selector::parse(selector)` and reads `ElementRef::text` of each
/// selected element. The contract names the result and says nothing more of it.
#[verifier::external_body]
fn select_text(html: &str, selector: &str) -> (r: Option<Vec<String>>)
    ensures
        r.deep_view() == selected_text(html@, selector@),
{
    let selector = scraper::Selector::parse(selector).ok()?;
    let document = scraper::Html::parse_document(html);
    let mut pieces = Vec::new();
    for element in document.select(&selector) {
        for piece in element.text() {
            pieces.push(piece.to_owned());
        }
    }
    Some(pieces)
}

/// Reads the first pair of `input` with `url::form_urlencoded::parse` and
/// keeps its value. The contract names the result and says nothing more of it.
#[verifier::external_body]
fn form_value(input: &str) -> (r: Option<String>)
    ensures
        r.deep_view() == first_form_value(input@),
{
    url::form_urlencoded::parse(input.as_bytes()).next().map(|(_name, value)| value.into_owned())
}

/// The most links a search keeps.
pub const MAX_RESULTS: usize = 5;

/// The page that a search result's `href` leads to: the URL in the value of
/// its first query pair; nothing for ads, or when there is no such URL.
pub open spec fn result_link(href: Option<Seq<char>>) -> Option<Seq<char>> {
    match href {
        None => None,
        Some(h) => if text::contains(h, "ad_domain"@) {
            None
        } else {
            match first_form_value(h) {
                None => None,
                Some(value) => parsed_url(value),
            }
        },
    }
}

/// The pages that all the results lead to, in order.
pub open spec fn result_pages(hrefs: Seq<Option<Seq<char>>>) -> Seq<Seq<char>>
    decreases hrefs.len(),
{
    if hrefs.len() == 0 {
        Seq::empty()
    } else {
        let rest = result_pages(hrefs.drop_last());
        match result_link(hrefs.last()) {
            Some(url) => rest.push(url),
            None => rest,
        }
    }
}

/// The first pages that the results lead to, at most [`MAX_RESULTS`].
pub open spec fn result_links_of(hrefs: Seq<Option<Seq<char>>>) -> Seq<Seq<char>> {
    let all = result_pages(hrefs);
    if all.len() <= MAX_RESULTS {
        all
    } else {
        all.take(MAX_RESULTS as int)
    }
}

/// The pages of a list of results are those of its first part followed by
/// those of the rest, in order.
pub proof fn lemma_result_pages_concat(a: Seq<Option<Seq<char>>>, b: Seq<Option<Seq<char>>>)
    ensures
        result_pages(a + b) == result_pages(a) + result_pages(b),
    decreases b.len(),
{
    if b.len() == 0 {
        assert(a + b =~= a);
        assert(result_pages(a) + result_pages(b) =~= result_pages(a));
    } else {
        lemma_result_pages_concat(a, b.drop_last());
        assert((a + b).drop_last() =~= a + b.drop_last());
        assert((a + b).last() == b.last());
        match result_link(b.last()) {
            Some(url) => {
                assert(result_pages(a) + result_pages(b) =~= (result_pages(a) + result_pages(
                    b.drop_last(),
                )).push(url));
            },
            None => {},
        }
    }
}

/// One result leads to its page, if it has one: a result without `href`, or
/// an ad (its `href` mentions `ad_domain`), leads nowhere.
pub proof fn lemma_result_page_of_one(href: Option<Seq<char>>)
    ensures
        result_pages(seq![href]) == match result_link(href) {
            Some(url) => seq![url],
            None => Seq::<Seq<char>>::empty(),
        },
        href is None ==> result_link(href) is None,
        href matches Some(h) && text::contains(h, "ad_domain"@) ==> result_link(href) is None,
{
    let one = seq![href];
    assert(one.drop_last() =~= Seq::<Option<Seq<char>>>::empty());
    assert(result_pages(Seq::<Option<Seq<char>>>::empty()) == Seq::<Seq<char>>::empty());
    assert(one.last() == href);
    match result_link(href) {
        Some(url) => {
            assert(Seq::<Seq<char>>::empty().push(url) =~= seq![url]);
        },
        None => {},
    }
}

/// A search keeps the first pages that its results lead to, in order, and at
/// most five of them.
pub proof fn lemma_result_links_first_five(hrefs: Seq<Option<Seq<char>>>)
    ensures
        result_links_of(hrefs).len() == if result_pages(hrefs).len() <= 5 {
            result_pages(hrefs).len()
        } else {
            5
        },
        forall|i: int| 0 <= i < result_links_of(hrefs).len() ==> #[trigger] result_links_of(hrefs)[i]
            == result_pages(hrefs)[i],
{
}

/// The lines of a list of pieces are those of its first part followed by
/// those of the rest; every line kept is its piece trimmed, never empty.
pub proof fn lemma_kept_lines_concat(a: Seq<Seq<char>>, b: Seq<Seq<char>>)
    ensures
        kept_lines(a + b) == kept_lines(a) + kept_lines(b),
    decreases b.len(),
{
    if b.len() == 0 {
        assert(a + b =~= a);
        assert(kept_lines(a) + kept_lines(b) =~= kept_lines(a));
    } else {
        lemma_kept_lines_concat(a, b.drop_last());
        assert((a + b).drop_last() =~= a + b.drop_last());
        assert((a + b).last() == b.last());
        let line = text::trimmed(b.last());
        if line.len() > 0 {
            assert(kept_lines(a) + kept_lines(b) =~= (kept_lines(a) + kept_lines(b.drop_last())).push(
                line,
            ));
        }
    }
}

/// One piece is kept, trimmed, exactly when it is not blank.
pub proof fn lemma_kept_line_of_one(piece: Seq<char>)
    ensures
        kept_lines(seq![piece]) == if text::trimmed(piece).len() == 0 {
            Seq::<Seq<char>>::empty()
        } else {
            seq![text::trimmed(piece)]
        },
{
    let one = seq![piece];
    assert(one.drop_last() =~= Seq::<Seq<char>>::empty());
    assert(kept_lines(Seq::<Seq<char>>::empty()) == Seq::<Seq<char>>::empty());
    assert(one.last() == piece);
    assert(Seq::<Seq<char>>::empty().push(text::trimmed(piece)) =~= seq![text::trimmed(piece)]);
}

/// The links of a search results page: those that the `.result__a`
/// anchors lead to.
pub open spec fn search_results_of(html: Seq<char>) -> Seq<Seq<char>> {
    match selected_attributes(html, ".result__a"@, "href"@) {
        Some(hrefs) => result_links_of(hrefs),
        None => Seq::empty(),
    }
}

proof fn lemma_result_pages_prefix(hrefs: Seq<Option<Seq<char>>>, i: int)
    requires
        0 <= i <= hrefs.len(),
    ensures
        result_pages(hrefs.take(i)).len() <= result_pages(hrefs).len(),
        result_pages(hrefs).take(result_pages(hrefs.take(i)).len() as int) == result_pages(
            hrefs.take(i),
        ),
    decreases hrefs.len(),
{
    if i == hrefs.len() {
        assert(hrefs.take(i) =~= hrefs);
    } else {
        lemma_result_pages_prefix(hrefs.drop_last(), i);
        assert(hrefs.drop_last().take(i) =~= hrefs.take(i));
        let k = result_pages(hrefs.take(i)).len() as int;
        assert(result_pages(hrefs).take(k) =~= result_pages(hrefs.drop_last()).take(k));
    }
}

/// The page that one search result leads to.
fn result_link_of(href: &Option<String>) -> (r: Option<Url>)
    ensures
        r.deep_view() == result_link(href.deep_view()),
{
    match href {
        None => None,
        Some(h) => {
            if text::contains_str(h.as_str(), "ad_domain") {
                None
            } else {
                match form_value(h.as_str()) {
                    None => None,
                    Some(value) => Url::parse(value.as_str()),
                }
            }
        },
    }
}

/// The first pages, at most [`MAX_RESULTS`], that the hrefs of search
/// results lead to.
pub fn result_links(hrefs: &Vec<Option<String>>) -> (links: Vec<Url>)
    ensures
        links.deep_view() == result_links_of(hrefs.deep_view()),
        links.len() <= MAX_RESULTS,
{
    let ghost all = hrefs.deep_view();
    let mut links: Vec<Url> = Vec::new();
    let mut i: usize = 0;
    assert(links.deep_view() =~= result_pages(all.take(0)));
    while i < hrefs.len() && links.len() < MAX_RESULTS
        invariant
            i <= hrefs.len(),
            all == hrefs.deep_view(),
            links.len() <= MAX_RESULTS,
            links.deep_view() == result_pages(all.take(i as int)),
        decreases hrefs.len() - i,
    {
        assert(all.take(i + 1).drop_last() =~= all.take(i as int));
        let ghost before = links.deep_view();
        match result_link_of(&hrefs[i]) {
            Some(url) => {
                let ghost u = url@;
                links.push(url);
                assert(links.deep_view() =~= before.push(u));
            },
            None => {},
        }
        i += 1;
    }
    proof {
        lemma_result_pages_prefix(all, i as int);
        if i == hrefs.len() {
            assert(all.take(i as int) =~= all);
        }
    }
    links
}

/// The links that a search results page lists, at most [`MAX_RESULTS`].
pub fn search_results(html: &str) -> (links: Vec<Url>)
    ensures
        links.deep_view() == search_results_of(html@),
        links.len() <= MAX_RESULTS,
{
    match select_attributes(html, ".result__a", "href") {
        Some(hrefs) => result_links(&hrefs),
        None => {
            let links: Vec<Url> = Vec::new();
            assert(links.deep_view() =~= Seq::<Seq<char>>::empty());
            links
        },
    }
}

/// The trimmed pieces of text that are not empty, in order.
pub open spec fn kept_lines(pieces: Seq<Seq<char>>) -> Seq<Seq<char>>
    decreases pieces.len(),
{
    if pieces.len() == 0 {
        Seq::empty()
    } else {
        let rest = kept_lines(pieces.drop_last());
        let line = text::trimmed(pieces.last());
        if line.len() == 0 {
            rest
        } else {
            rest.push(line)
        }
    }
}

/// The text of a page: the non-empty trimmed text pieces of its paragraphs
/// and links, one per line.
pub open spec fn page_text_of(html: Seq<char>) -> Seq<char> {
    match selected_text(html, "p, a"@) {
        Some(pieces) => text::joined(kept_lines(pieces), "\n"@),
        None => Seq::empty(),
    }
}

/// The non-empty trimmed pieces, one per line.
pub fn lines_of(pieces: &Vec<String>) -> (s: String)
    ensures
        s@ == text::joined(kept_lines(pieces.deep_view()), "\n"@),
{
    let ghost all = pieces.deep_view();
    let mut lines: Vec<String> = Vec::new();
    let mut i: usize = 0;
    while i < pieces.len()
        invariant
            i <= pieces.len(),
            all == pieces.deep_view(),
            lines.deep_view() == kept_lines(all.take(i as int)),
        decreases pieces.len() - i,
    {
        assert(all.take(i + 1).drop_last() =~= all.take(i as int));
        let line = text::trim(pieces[i].as_str());
        if !line.as_str().is_empty() {
            let ghost before = lines.deep_view();
            lines.push(line);
            assert(lines.deep_view() =~= before.push(line@));
        }
        i += 1;
    }
    assert(all.take(i as int) =~= all);
    text::join(&lines, "\n")
}

/// The text of a web page.
pub fn page_text(html: &str) -> (s: String)
    ensures
        s@ == page_text_of(html@),
{
    match select_text(html, "p, a") {
        Some(pieces) => lines_of(&pieces),
        None => String::new(),
    }
}

/// The request that asks the assistant to summarize a page's `text` for `query`.
pub open spec fn summary_request_of(text: Seq<char>, query: Seq<char>) -> Seq<char> {
    "```\n"@ + text
        + "\n```\n\nPlease, summarize the parts of the previous text that are relevant to the query: \""@
        + query + "\"."@
}

/// Builds the request that asks for a summary of a page's `text` for `query`.
pub fn summary_request(text: &str, query: &str) -> (s: String)
    ensures
        s@ == summary_request_of(text@, query@),
{
    let mut s = "```\n".to_owned();
    s.append(text);
    s.append(
        "\n```\n\nPlease, summarize the parts of the previous text that are relevant to the query: \"",
    );
    s.append(query);
    s.append("\".");
    s
}

} // verus!
