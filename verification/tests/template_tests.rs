use jinxcore::template::{
    built_in_template, default_template_text, load_template, parse_template, Template, MAX_LINES,
};

fn strings(items: &[&str]) -> Vec<String> {
    items.iter().map(|s| s.to_string()).collect()
}

#[test]
fn default_text_holds_title_and_three_lines() {
    assert_eq!(
        default_template_text("Status"),
        "Status\nOnline: %online%\nTPS: %tps%\nUptime: %uptime%\n"
    );
}

#[test]
fn default_text_parses_back() {
    let t = parse_template(&default_template_text("Status"), "Other");
    assert_eq!(
        t,
        Template {
            title: "Status".to_string(),
            lines: strings(&["Online: %online%", "TPS: %tps%", "Uptime: %uptime%"]),
        }
    );
}

#[test]
fn empty_content_falls_back() {
    for content in ["", "\n", "  \n\t\n", "\r\n\r\n"] {
        let t = parse_template(content, "Fallback");
        assert_eq!(t.title, "Fallback");
        assert_eq!(t.lines, Vec::<String>::new());
    }
}

#[test]
fn blank_lines_are_dropped_not_separators() {
    let t = parse_template("\n\nTitle\n\n  \nA\n\nB\n", "F");
    assert_eq!(t.title, "Title");
    assert_eq!(t.lines, strings(&["A", "B"]));
}

#[test]
fn trailing_white_space_goes_leading_stays() {
    let t = parse_template("  Title \t\r\n  A  \r\nB\u{a0}", "F");
    assert_eq!(t.title, "  Title");
    assert_eq!(t.lines, strings(&["  A", "B"]));
}

#[test]
fn title_only() {
    let t = parse_template("Only", "F");
    assert_eq!(t.title, "Only");
    assert_eq!(t.lines, Vec::<String>::new());
}

#[test]
fn lines_beyond_the_cap_are_discarded() {
    let mut content = String::from("T\n");
    for i in 0..20 {
        content.push_str(&format!("line {i}\n"));
    }
    let t = parse_template(&content, "F");
    assert_eq!(t.title, "T");
    assert_eq!(t.lines.len(), MAX_LINES);
    assert_eq!(t.lines[0], "line 0");
    assert_eq!(t.lines[14], "line 14");
}

#[test]
fn exactly_fifteen_lines_are_kept() {
    let mut content = String::from("T");
    for i in 0..15 {
        content.push_str(&format!("\n{i}"));
    }
    let t = parse_template(&content, "F");
    assert_eq!(t.lines.len(), 15);
    assert_eq!(t.lines[14], "14");
}

#[test]
fn matches_the_line_reading_of_std() {
    let content = "A \r\n\r\n b\t\n\u{3000}\nc\r";
    let expected: Vec<String> = content
        .lines()
        .map(|l| l.trim_end().to_string())
        .filter(|l| !l.is_empty())
        .collect();
    let t = parse_template(content, "F");
    let mut got = vec![t.title.clone()];
    got.extend(t.lines.iter().cloned());
    assert_eq!(got, expected);
}

#[test]
fn unreadable_resource_gives_the_built_in_template() {
    let t = load_template(None, "Status");
    assert_eq!(t.title, "Status");
    assert_eq!(t.lines, strings(&["Online: %online%", "TPS: %tps%", "Uptime: %uptime%"]));
}

#[test]
fn readable_resource_is_parsed() {
    let t = load_template(Some("My title\nrow"), "Status");
    assert_eq!(t.title, "My title");
    assert_eq!(t.lines, strings(&["row"]));
    let empty = load_template(Some(""), "Status");
    assert_eq!(empty.title, "Status");
    assert_eq!(empty.lines, Vec::<String>::new());
}

#[test]
fn unreadable_resource_keeps_the_fallback_title_as_it_stands() {
    for title in ["", " ", "Hub ", "  Hub", "Two\nlines", "\n", "%online%"] {
        let t = load_template(None, title);
        assert_eq!(t.title, title);
        assert_eq!(t.lines, strings(&["Online: %online%", "TPS: %tps%", "Uptime: %uptime%"]));
    }
}

#[test]
fn built_in_template_has_the_three_lines() {
    let t = built_in_template("");
    assert_eq!(t.title, "");
    assert_eq!(t.lines, strings(&["Online: %online%", "TPS: %tps%", "Uptime: %uptime%"]));
    assert_eq!(built_in_template("Status"), load_template(None, "Status"));
}
