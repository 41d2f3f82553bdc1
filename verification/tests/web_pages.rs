use icebreaker::address::Url;
use icebreaker::web::{page_text, result_links, search_results, summary_request, Summary};

fn result(href: &str, title: &str) -> String {
    format!("<div class=\"result\"><a class=\"result__a\" href=\"{href}\">{title}</a></div>")
}

#[test]
fn url_parse_normalizes_and_rejects() {
    assert_eq!(Url::parse("https://iced.rs").unwrap().as_str(), "https://iced.rs/");
    assert_eq!(Url::parse("HTTPS://Example.COM/a/../b").unwrap().as_str(), "https://example.com/b");
    assert!(Url::parse("not a url").is_none());
    assert!(Url::parse("/relative/path").is_none());
    assert_eq!(Url::unknown_site().as_str(), "https://unknown.com/");
}

#[test]
fn search_results_follow_the_redirect_links() {
    let html = format!(
        "<html><body>{}{}{}<a class=\"other\" href=\"//duckduckgo.com/l/?uddg=https%3A%2F%2Fskip.example%2F\">x</a></body></html>",
        result("//duckduckgo.com/l/?uddg=https%3A%2F%2Fwww.rust-lang.org%2Flearn&amp;rut=abc", "Learn"),
        result("//duckduckgo.com/y.js?ad_domain=ads.example&amp;u3=https%3A%2F%2Fads.example", "Ad"),
        result("https://plain.example/?q=https%3A%2F%2Fdoc.rust-lang.org%2Fbook%2F", "Book"),
    );
    let links: Vec<String> = search_results(&html).iter().map(|u| u.as_str().to_owned()).collect();
    assert_eq!(
        links,
        vec!["https://www.rust-lang.org/learn".to_owned(), "https://doc.rust-lang.org/book/".to_owned()]
    );
}

#[test]
fn search_results_keep_at_most_five() {
    let mut body = String::new();
    for i in 0..8 {
        body.push_str(&result(&format!("//ddg/l/?uddg=https%3A%2F%2Fsite{i}.example%2F"), "r"));
    }
    let links = search_results(&format!("<html><body>{body}</body></html>"));
    assert_eq!(links.len(), 5);
    assert_eq!(links[0].as_str(), "https://site0.example/");
    assert_eq!(links[4].as_str(), "https://site4.example/");
}

#[test]
fn result_links_skip_missing_hrefs_and_bad_values() {
    let hrefs = vec![
        None,
        Some("?x=not%20a%20url".to_owned()),
        Some("".to_owned()),
        Some("?u=https%3A%2F%2Fok.example".to_owned()),
    ];
    let links = result_links(&hrefs);
    assert_eq!(links.len(), 1);
    assert_eq!(links[0].as_str(), "https://ok.example/");
}

#[test]
fn page_text_keeps_the_text_of_paragraphs_and_links() {
    let html = "<html><head><title>T</title></head><body>\
        <h1>Heading</h1><p>  First paragraph. </p><div>skipped</div>\
        <p>Second <b>bold</b> end</p><a href=\"/x\"> Link </a><p>   </p></body></html>";
    assert_eq!(page_text(html), "First paragraph.\nSecond\nbold\nend\nLink");
    assert_eq!(page_text("<html><body><div>none</div></body></html>"), "");
}

#[test]
fn summary_request_quotes_the_query() {
    assert_eq!(
        summary_request("Some text", "what?"),
        "```\nSome text\n```\n\nPlease, summarize the parts of the previous text that are relevant to the query: \"what?\"."
    );
}

#[test]
fn summary_content() {
    let s = Summary { url: Url::parse("https://a.example").unwrap(), content: "c".to_owned() };
    assert_eq!(s.content(), "c");
    assert_eq!(s.clone().url.as_str(), "https://a.example/");
}
