use rust_browser::{decode_entity, parse_entity, show};

#[test]
fn lt_entity_decoded() {
    assert_eq!(show("<p>A&lt;B</p>"), "A<B");
}

#[test]
fn unknown_entity_echoed() {
    assert_eq!(show("<p>A&nbsp;B</p>"), "A&nbsp;B");
}

#[test]
fn gt_entity_decoded() {
    assert_eq!(show("a&gt;b"), "a>b");
}

#[test]
fn plain_text_unchanged() {
    let t = "Just some text; with punctuation!\n\tand lines";
    assert_eq!(show(t), t);
    assert_eq!(show(""), "");
}

#[test]
fn tags_are_dropped() {
    let body = "<html>\n<body>\n<div>This is a simple</div>\n</body>\n</html>";
    assert_eq!(show(body), "\n\nThis is a simple\n\n");
}

#[test]
fn unterminated_entity_is_literal_ampersand() {
    assert_eq!(show("a & b"), "a & b");
    assert_eq!(show("x&amp y"), "x&amp y");
    assert_eq!(show("end&"), "end&");
}

#[test]
fn empty_entity_is_ampersand() {
    assert_eq!(show("a&;b"), "a&b");
}

#[test]
fn entity_inside_tag_is_dropped() {
    assert_eq!(show("<a title=\"&lt;\">x</a>"), "x");
}

#[test]
fn entity_helpers() {
    let s: Vec<char> = "&lt;rest".chars().collect();
    assert_eq!(parse_entity(&s, 1), 3);
    assert_eq!(decode_entity(&vec!['l', 't']), vec!['<']);
    assert_eq!(decode_entity(&vec!['g', 't']), vec!['>']);
    assert_eq!(decode_entity(&vec![]), vec!['&']);
    assert_eq!(decode_entity(&vec!['x']), vec!['&', 'x', ';']);
}
