//! A project as a page of HTML.

use vstd::prelude::*;
use vstd::string::StringExecFns;

verus! {

/// The HTML that the Markdown renderer makes of a Markdown text.
pub uninterp spec fn html_of_markdown(markdown: Seq<char>) -> Seq<char>;

/// `pulldown_cmark::html::push_html` over the events of
/// `pulldown_cmark::Parser::new`, written into an empty string. The claim is
/// only that the same text always gives the same HTML.
#[verifier::external_body]
fn markdown_html(markdown: &str) -> (r: String)
    ensures
        r@ == html_of_markdown(markdown@),
{
    let mut html = String::new();
    pulldown_cmark::html::push_html(&mut html, pulldown_cmark::Parser::new(markdown));
    html
}

/// What stands in a page before its title.
pub open spec fn page_top() -> Seq<char> {
    "<!DOCTYPE html>\n<html lang=\"en\">\n<head>\n    <meta charset=\"UTF-8\">\n    <meta name=\"viewport\" content=\"width=device-width, initial-scale=1.0\">\n    <title>"@
}

/// What stands in a page between its title and its body: the style sheet.
pub open spec fn page_style() -> Seq<char> {
    "</title>\n    <style>\n        body {\n            font-family: 'Georgia', serif;\n            max-width: 800px;\n            margin: 40px auto;\n            padding: 20px;\n            line-height: 1.8;\n            color: #333;\n        }\n        h1 { font-size: 2.5em; margin-bottom: 0.5em; }\n        h2 { font-size: 1.8em; margin-top: 2em; border-bottom: 1px solid #ddd; padding-bottom: 0.3em; }\n        hr { border: none; border-top: 1px solid #ddd; margin: 2em 0; }\n        p { margin: 1em 0; }\n    </style>\n</head>\n<body>\n"@
}

/// What stands in a page behind its body.
pub open spec fn page_bottom() -> Seq<char> {
    "\n</body>\n</html>"@
}

/// The page with the given title round the given body.
pub open spec fn page_of(title: Seq<char>, body: Seq<char>) -> Seq<char> {
    page_top() + title + page_style() + body + page_bottom()
}

/// Puts the page with the title `title` round the HTML `body`.
pub fn html_page_around(title: &str, body: &str) -> (r: String)
    ensures
        r@ == page_of(title@, body@),
{
    let mut out = String::new();
    out.append(
        "<!DOCTYPE html>\n<html lang=\"en\">\n<head>\n    <meta charset=\"UTF-8\">\n    <meta name=\"viewport\" content=\"width=device-width, initial-scale=1.0\">\n    <title>",
    );
    out.append(title);
    out.append(
        "</title>\n    <style>\n        body {\n            font-family: 'Georgia', serif;\n            max-width: 800px;\n            margin: 40px auto;\n            padding: 20px;\n            line-height: 1.8;\n            color: #333;\n        }\n        h1 { font-size: 2.5em; margin-bottom: 0.5em; }\n        h2 { font-size: 1.8em; margin-top: 2em; border-bottom: 1px solid #ddd; padding-bottom: 0.3em; }\n        hr { border: none; border-top: 1px solid #ddd; margin: 2em 0; }\n        p { margin: 1em 0; }\n    </style>\n</head>\n<body>\n",
    );
    out.append(body);
    out.append("\n</body>\n</html>");
    out
}

/// The page of HTML for a Markdown text: the page with the title `title`
/// round what the renderer makes of `markdown`.
pub fn html_page(title: &str, markdown: &str) -> (r: String)
    ensures
        r@ == page_of(title@, html_of_markdown(markdown@)),
{
    let body = markdown_html(markdown);
    html_page_around(title, body.as_str())
}

/// The name of the file that an export of `title` is saved under.
pub fn export_name(title: &str, extension: &str) -> (r: String)
    ensures
        r@ == title@ + "."@ + extension@,
{
    let mut out = title.to_owned();
    out.append(".");
    out.append(extension);
    out
}

} // verus!
