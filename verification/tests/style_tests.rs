use jinxcore::style::{color_from_code, parse_colored_text, NamedColor, Segment, StyledText};

fn seg(text: &str, color: Option<NamedColor>) -> Segment {
    Segment { text: text.to_string(), color }
}

#[test]
fn two_coloured_runs() {
    let parsed = parse_colored_text("&aHello &cWorld");
    assert_eq!(
        parsed,
        StyledText {
            segments: vec![
                seg("Hello ", Some(NamedColor::Green)),
                seg("World", Some(NamedColor::Red)),
            ],
        }
    );
}

#[test]
fn uncoloured_text_is_one_segment() {
    for s in ["Status", "a & b", "50% &", "&z&", "&", "&&", "& a"] {
        let parsed = parse_colored_text(s);
        assert_eq!(parsed.segments, vec![seg(s, None)]);
    }
}

#[test]
fn empty_text_has_no_segment() {
    assert_eq!(parse_colored_text("").segments, vec![]);
}

#[test]
fn text_before_the_first_code_has_no_colour() {
    let parsed = parse_colored_text("Online: &e3");
    assert_eq!(
        parsed.segments,
        vec![seg("Online: ", None), seg("3", Some(NamedColor::Yellow))]
    );
}

#[test]
fn codes_without_text_leave_no_segment() {
    assert_eq!(parse_colored_text("&a&b").segments, vec![]);
    assert_eq!(parse_colored_text("&a&bx").segments, vec![seg("x", Some(NamedColor::Aqua))]);
    assert_eq!(parse_colored_text("x&a").segments, vec![seg("x", None)]);
}

#[test]
fn ampersand_before_a_code_is_text() {
    assert_eq!(
        parse_colored_text("&&ax").segments,
        vec![seg("&", None), seg("x", Some(NamedColor::Green))]
    );
}

#[test]
fn codes_ignore_case() {
    assert_eq!(
        parse_colored_text("&Ax&Fy").segments,
        vec![seg("x", Some(NamedColor::Green)), seg("y", Some(NamedColor::White))]
    );
}

#[test]
fn same_colour_twice_gives_two_segments() {
    assert_eq!(
        parse_colored_text("&ca&cb").segments,
        vec![seg("a", Some(NamedColor::Red)), seg("b", Some(NamedColor::Red))]
    );
}

#[test]
fn all_sixteen_codes() {
    let table = [
        ('0', NamedColor::Black),
        ('1', NamedColor::DarkBlue),
        ('2', NamedColor::DarkGreen),
        ('3', NamedColor::DarkAqua),
        ('4', NamedColor::DarkRed),
        ('5', NamedColor::DarkPurple),
        ('6', NamedColor::Gold),
        ('7', NamedColor::Gray),
        ('8', NamedColor::DarkGray),
        ('9', NamedColor::Blue),
        ('a', NamedColor::Green),
        ('b', NamedColor::Aqua),
        ('c', NamedColor::Red),
        ('d', NamedColor::LightPurple),
        ('e', NamedColor::Yellow),
        ('f', NamedColor::White),
    ];
    for (code, color) in table {
        assert_eq!(color_from_code(code), Some(color));
        assert_eq!(color_from_code(code.to_ascii_uppercase()), Some(color));
    }
}

#[test]
fn other_characters_are_no_codes() {
    for c in ['g', 'G', 'z', '&', ' ', 'é', '١', '/', ':', '`', '@'] {
        assert_eq!(color_from_code(c), None);
    }
}

#[test]
fn plain_joins_the_runs() {
    assert_eq!(parse_colored_text("&aHello &cWorld").plain(), "Hello World");
    assert_eq!(parse_colored_text("").plain(), "");
    assert_eq!(parse_colored_text("a&zb").plain(), "a&zb");
}
