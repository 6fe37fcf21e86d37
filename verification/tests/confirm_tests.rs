use mrpack_install::confirm::parse_answer;

#[test]
fn yes_answers() {
    assert_eq!(parse_answer("y"), Some(true));
    assert_eq!(parse_answer("yes"), Some(true));
    assert_eq!(parse_answer("Y"), Some(true));
    assert_eq!(parse_answer("YES"), Some(true));
    assert_eq!(parse_answer("yEs"), Some(true));
}

#[test]
fn no_answers() {
    assert_eq!(parse_answer("n"), Some(false));
    assert_eq!(parse_answer("no"), Some(false));
    assert_eq!(parse_answer("N"), Some(false));
    assert_eq!(parse_answer("No"), Some(false));
    assert_eq!(parse_answer("nO"), Some(false));
}

#[test]
fn answers_are_trimmed() {
    assert_eq!(parse_answer("y\n"), Some(true));
    assert_eq!(parse_answer("  yes \r\n"), Some(true));
    assert_eq!(parse_answer("\tno\n"), Some(false));
    assert_eq!(parse_answer("\u{a0}n\u{3000}"), Some(false));
    assert_eq!(parse_answer("\u{2003}Y\u{85}"), Some(true));
}

#[test]
fn other_answers_are_invalid() {
    assert_eq!(parse_answer(""), None);
    assert_eq!(parse_answer("\n"), None);
    assert_eq!(parse_answer("maybe"), None);
    assert_eq!(parse_answer("ye"), None);
    assert_eq!(parse_answer("yess"), None);
    assert_eq!(parse_answer("nope"), None);
    assert_eq!(parse_answer("y es"), None);
    assert_eq!(parse_answer("on"), None);
    assert_eq!(parse_answer("ja"), None);
    assert_eq!(parse_answer("ÿ"), None);
    assert_eq!(parse_answer("\u{200b}y"), None);
}

#[test]
fn answers_agree_with_trim_and_lowercase_of_the_standard_library() {
    let inputs = [
        "y", "Y", "yes", "YES", "n", "N", "no", "NO", " y ", "yes\n", "\u{a0}no", "x", "", "yes!",
        "\u{212a}", "\u{130}", "ye\u{17f}",
    ];
    for input in inputs {
        let expected = match input.trim().to_lowercase().as_str() {
            "y" | "yes" => Some(true),
            "n" | "no" => Some(false),
            _ => None,
        };
        assert_eq!(parse_answer(input), expected);
    }
}
