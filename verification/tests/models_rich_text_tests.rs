use ttyms::models::RichSegment;
use ttyms::models::parse_rich_text;

#[test]
fn plain_text_returns_plain_segment() {
    let segments = parse_rich_text("Hello world");
    assert_eq!(segments, vec![RichSegment::Plain("Hello world".to_string())]);
}

#[test]
fn bold_tag_returns_bold_segment() {
    let segments = parse_rich_text("before <b>bold</b> after");
    assert!(segments.contains(&RichSegment::Bold("bold".to_string())));
}

#[test]
fn strong_tag_returns_bold_segment() {
    let segments = parse_rich_text("<strong>strong</strong>");
    assert_eq!(segments, vec![RichSegment::Bold("strong".to_string())]);
}

#[test]
fn italic_tag_returns_italic_segment() {
    let segments = parse_rich_text("<i>italic</i>");
    assert_eq!(segments, vec![RichSegment::Italic("italic".to_string())]);
}

#[test]
fn em_tag_returns_italic_segment() {
    let segments = parse_rich_text("<em>emphasis</em>");
    assert_eq!(segments, vec![RichSegment::Italic("emphasis".to_string())]);
}

#[test]
fn code_tag_returns_code_segment() {
    let segments = parse_rich_text("<code>let x = 1</code>");
    assert_eq!(segments, vec![RichSegment::Code("let x = 1".to_string())]);
}

#[test]
fn br_tag_returns_newline() {
    let segments = parse_rich_text("line1<br>line2");
    assert!(segments.contains(&RichSegment::Newline));
}

#[test]
fn link_tag_returns_link_segment() {
    let segments = parse_rich_text(r#"<a href="http://example.com">click</a>"#);
    assert!(segments.contains(&RichSegment::Link {
        text: "click".to_string(),
        url: "http://example.com".to_string(),
    }));
}

#[test]
fn mixed_content_produces_multiple_segments() {
    let segments = parse_rich_text("Hello <b>bold</b> world");
    assert_eq!(segments.len(), 3);
    assert_eq!(segments[0], RichSegment::Plain("Hello ".to_string()));
    assert_eq!(segments[1], RichSegment::Bold("bold".to_string()));
    assert_eq!(segments[2], RichSegment::Plain(" world".to_string()));
}

#[test]
fn entities_decoded_in_rich_text() {
    let segments = parse_rich_text("A &amp; B");
    assert_eq!(segments, vec![RichSegment::Plain("A & B".to_string())]);
}

#[test]
fn empty_input_returns_plain_empty() {
    let segments = parse_rich_text("");
    assert_eq!(segments.len(), 1);
}
