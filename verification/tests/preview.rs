use abbey::choices::parse_picker_choice;
use abbey::export::{export_name, html_page, html_page_around};
use abbey::preview::{render_inline_markdown, render_line, render_preview, Run, Style};

fn run(text: &str, style: Style) -> Run {
    Run { text: text.to_string(), style }
}

fn plain(text: &str) -> Vec<Run> {
    text.chars().map(|c| run(&c.to_string(), Style::Plain)).collect()
}

fn inline(line: &str) -> Vec<Run> {
    let mut out = Vec::new();
    render_inline_markdown(&mut out, &line.chars().collect());
    out
}

fn line(text: &str) -> Vec<Run> {
    let mut out = Vec::new();
    render_line(&mut out, &text.chars().collect());
    out
}

#[test]
fn lines_are_styled_by_their_start() {
    assert_eq!(line("# Title"), vec![run("Title", Style::Heading1)]);
    assert_eq!(line("## Part"), vec![run("Part", Style::Heading2)]);
    assert_eq!(line("### Bit"), vec![run("Bit", Style::Heading3)]);
    assert_eq!(line("> said"), vec![run("said", Style::Quote)]);
    assert_eq!(line("- item"), vec![run("• item", Style::Bullet)]);
    assert_eq!(line("* item"), vec![run("• item", Style::Bullet)]);
    assert_eq!(line("# "), vec![run("", Style::Heading1)]);
    assert_eq!(line("#no"), plain("#no"));
    assert_eq!(line(""), Vec::new());
}

#[test]
fn spans_are_bold_italic_or_code() {
    let mut expected = plain("a ");
    expected.push(run("bold", Style::Bold));
    expected.extend(plain(" b "));
    expected.push(run("it", Style::Italic));
    expected.extend(plain(" c "));
    expected.push(run("x_y", Style::Code));
    expected.extend(plain(" d "));
    expected.push(run("u", Style::Italic));
    assert_eq!(inline("a **bold** b *it* c `x_y` d _u_"), expected);
}

#[test]
fn an_opener_that_is_never_closed_stays_plain() {
    assert_eq!(inline("a `b"), plain("a `b"));
    assert_eq!(inline("a _b"), plain("a _b"));
    assert_eq!(inline("*"), plain("*"));
    assert_eq!(inline("**a"), vec![run("", Style::Italic), run("a", Style::Plain)]);
    assert_eq!(
        inline("**a*b"),
        vec![
            run("", Style::Italic),
            run("a", Style::Plain),
            run("*", Style::Plain),
            run("b", Style::Plain),
        ]
    );
}

#[test]
fn a_preview_ends_every_line_with_a_line_feed() {
    assert_eq!(render_preview(""), Vec::new());
    assert_eq!(
        render_preview("# T\r\n\nhi\n"),
        vec![
            run("T", Style::Heading1),
            run("\n", Style::Plain),
            run("\n", Style::Plain),
            run("h", Style::Plain),
            run("i", Style::Plain),
            run("\n", Style::Plain),
        ]
    );
    assert_eq!(
        render_preview("- a\n> **b**"),
        vec![
            run("• a", Style::Bullet),
            run("\n", Style::Plain),
            run("**b**", Style::Quote),
            run("\n", Style::Plain),
        ]
    );
}

#[test]
fn the_picker_names_a_composition_by_its_place() {
    assert_eq!(parse_picker_choice("comp_0", 3), Some(0));
    assert_eq!(parse_picker_choice("comp_2", 3), Some(2));
    assert_eq!(parse_picker_choice("comp_3", 3), None);
    assert_eq!(parse_picker_choice("comp_+1", 3), Some(1));
    assert_eq!(parse_picker_choice("comp_007", 10), Some(7));
    assert_eq!(parse_picker_choice("comp_", 3), None);
    assert_eq!(parse_picker_choice("comp_+", 3), None);
    assert_eq!(parse_picker_choice("comp_-1", 3), None);
    assert_eq!(parse_picker_choice("comp_1x", 3), None);
    assert_eq!(parse_picker_choice("comp_99999999999999999999999999", 3), None);
    assert_eq!(parse_picker_choice("cancel", 3), None);
    assert_eq!(parse_picker_choice("comp_0", 0), None);
    assert_eq!(parse_picker_choice("comp_12", usize::MAX), Some(12));
}

#[test]
fn a_page_is_put_round_the_rendered_text() {
    let page = html_page("Book", "# Hi\n\nsome *text*");
    assert!(page.starts_with("<!DOCTYPE html>\n<html lang=\"en\">\n<head>\n"));
    assert!(page.contains("<title>Book</title>"));
    assert!(page.contains("<h1>Hi</h1>"));
    assert!(page.contains("<p>some <em>text</em></p>"));
    assert!(page.contains("h1 { font-size: 2.5em; margin-bottom: 0.5em; }"));
    assert!(page.ends_with("\n</body>\n</html>"));
    assert!(!page.contains("# Hi"));
    assert_eq!(html_page("Book", "plain"), html_page_around("Book", "<p>plain</p>\n"));
}

#[test]
fn a_page_round_a_given_body() {
    let page = html_page_around("T", "<p>b</p>");
    assert!(page.contains("    <title>T</title>\n    <style>\n        body {\n"));
    assert!(page.contains("    </style>\n</head>\n<body>\n<p>b</p>\n</body>\n</html>"));
    assert_eq!(export_name("Book", "md"), "Book.md");
    assert_eq!(export_name("Book", "html"), "Book.html");
}
