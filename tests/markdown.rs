use jotting_pal::markdown::{escape_markdown, escaped_for_tg, parse_markdown, ParseError};

fn esc(s: &str) -> Result<String, ParseError> {
    escape_markdown(s)
}

#[test]
fn letters_digits_spaces_unchanged() {
    assert_eq!(esc("Hello World 42").unwrap(), "Hello World 42");
    assert_eq!(esc("abc   def").unwrap(), "abc   def");
    assert_eq!(esc("x").unwrap(), "x");
}

#[test]
fn each_reserved_char_alone_is_escaped() {
    for c in "_*[]()~`>#+-=|{}.!\\".chars() {
        let input = c.to_string();
        assert_eq!(esc(&input).unwrap(), format!("\\{}", c), "for {:?}", c);
    }
}

#[test]
fn bold_span_kept() {
    assert_eq!(esc("*hello*").unwrap(), "*hello*");
}

#[test]
fn reserved_inside_bold_escaped() {
    assert_eq!(esc("*a.b*").unwrap(), "*a\\.b*");
}

#[test]
fn link_text_and_url_escaped_apart() {
    assert_eq!(esc("[text](http://a.b)").unwrap(), "[text](http://a\\.b)");
}

#[test]
fn header_rendered_as_code_and_underline() {
    assert_eq!(esc("# Title").unwrap(), "`\\#` __Title__");
    assert_eq!(esc("## Sub title").unwrap(), "`\\#\\#` __Sub title__");
}

#[test]
fn unterminated_bold_degrades() {
    assert_eq!(esc("*bold").unwrap(), "\\*bold");
}

#[test]
fn empty_input_fails() {
    assert_eq!(esc(""), Err(ParseError));
}

#[test]
fn blank_input_fails() {
    assert_eq!(esc("  \n\t "), Err(ParseError));
}

#[test]
fn escaping_text_without_reserved_is_identity() {
    let v: Vec<char> = "plain text 123 日本".chars().collect();
    assert_eq!(escaped_for_tg(&v), v);
    let w: Vec<char> = escaped_for_tg(&v);
    assert_eq!(escaped_for_tg(&w), v);
}

#[test]
fn escaping_prefixes_each_reserved_char() {
    let v: Vec<char> = "a.b(c)".chars().collect();
    let want: Vec<char> = "a\\.b\\(c\\)".chars().collect();
    assert_eq!(escaped_for_tg(&v), want);
}

#[test]
fn double_markers_normalised() {
    assert_eq!(esc("**x**").unwrap(), "*x*");
    assert_eq!(esc("__a__").unwrap(), "_a_");
    assert_eq!(esc("_a_").unwrap(), "_a_");
}

#[test]
fn inline_code_escaped() {
    assert_eq!(esc("`a.b`").unwrap(), "`a\\.b`");
}

#[test]
fn code_block_escaped() {
    assert_eq!(esc("```let x = 1;```").unwrap(), "```let x \\= 1;```");
    assert_eq!(esc("```a\\`b```").unwrap(), "```a\\`b```");
    assert_eq!(esc("```a\\nb```").unwrap(), "```a\\\\nb```");
}

#[test]
fn escape_inside_span_decoded_then_escaped() {
    assert_eq!(esc("*a\\*b*").unwrap(), "*a\\*b*");
}

#[test]
fn blocks_joined_by_blank_line() {
    assert_eq!(esc("a\nb").unwrap(), "a\n\nb");
    assert_eq!(esc("a\n\n\nb").unwrap(), "a\n\nb");
    assert_eq!(esc("abc\n").unwrap(), "abc");
    assert_eq!(esc("# T\ntext.").unwrap(), "`\\#` __T__\n\ntext\\.");
}

#[test]
fn leading_white_space_skipped() {
    assert_eq!(esc("  hi").unwrap(), "hi");
}

#[test]
fn unicode_passes_through() {
    assert_eq!(esc("日本語です").unwrap(), "日本語です");
}

#[test]
fn lone_markers_escaped() {
    assert_eq!(esc("** *a*").unwrap(), "\\*\\* *a*");
    assert_eq!(esc("[x]").unwrap(), "\\[x\\]");
}

#[test]
fn parse_markdown_on_chars() {
    let v: Vec<char> = "1. item".chars().collect();
    let want: Vec<char> = "1\\. item".chars().collect();
    assert_eq!(parse_markdown(&v), Some(want));
    assert_eq!(parse_markdown(&Vec::new()), None);
}

#[test]
fn span_output_is_stable() {
    let once = esc("*a.b*").unwrap();
    assert_eq!(esc(&once).unwrap(), once);
    let link = esc("[x.y](a(b)c)").unwrap();
    assert_eq!(link, "[x\\.y](a\\(b)c\\)");
    let good = esc("[x.y](a\\(b\\)c)").unwrap();
    assert_eq!(good, "[x\\.y](a\\(b\\)c)");
    assert_eq!(esc(&good).unwrap(), good);
}
