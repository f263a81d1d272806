use mudgame::action::{command_to_enum, Command};
use mudgame::text::{
    chars_of, copy_strings, is_whitespace, lowercase_equals, split_whitespace, to_ascii_lowercase,
    to_decimal,
};

fn parse(line: &str) -> Command {
    command_to_enum(String::from(line))
}

fn words(list: &[&str]) -> Vec<String> {
    list.iter().map(|word| String::from(*word)).collect()
}

#[test]
fn an_empty_line_is_the_empty_command() {
    assert_eq!(parse(""), Command::Empty);
    assert_eq!(parse("\n"), Command::Empty);
    assert_eq!(parse("   \t \r\n"), Command::Empty);
}

#[test]
fn each_verb_is_understood() {
    assert_eq!(parse("quit"), Command::Quit);
    assert_eq!(parse("north"), Command::MoveNorth);
    assert_eq!(parse("south"), Command::MoveSouth);
    assert_eq!(parse("west"), Command::MoveWest);
    assert_eq!(parse("east"), Command::MoveEast);
    assert_eq!(parse("up"), Command::MoveUp);
    assert_eq!(parse("down"), Command::MoveDown);
    assert_eq!(parse("say"), Command::Say(Vec::new()));
}

#[test]
fn a_line_as_it_is_read_ends_in_a_line_break() {
    assert_eq!(parse("north\n"), Command::MoveNorth);
    assert_eq!(parse("  quit \r\n"), Command::Quit);
}

#[test]
fn the_verb_is_read_without_regard_to_case() {
    assert_eq!(parse("NORTH"), Command::MoveNorth);
    assert_eq!(parse("SoUtH"), Command::MoveSouth);
    assert_eq!(parse("Quit"), Command::Quit);
    assert_eq!(parse("SAY Hi"), Command::Say(words(&["Hi"])));
}

#[test]
fn only_ascii_capitals_are_lowered() {
    // U+212A, the Kelvin sign, is lowered to `k` by Unicode but not by ASCII rules.
    assert_eq!(parse("quit\u{212A}"), Command::UnknownCommand);
    assert_eq!(parse("\u{C9}ast"), Command::UnknownCommand);
}

#[test]
fn say_keeps_its_parameters_as_they_are() {
    assert_eq!(parse("say hello world"), Command::Say(words(&["hello", "world"])));
    assert_eq!(
        parse("  say   Hello,\tWORLD  \u{e9}t\u{e9}! \n"),
        Command::Say(words(&["Hello,", "WORLD", "\u{e9}t\u{e9}!"]))
    );
    assert_eq!(parse("say say"), Command::Say(words(&["say"])));
}

#[test]
fn parameters_of_other_verbs_are_dropped() {
    assert_eq!(parse("north quickly"), Command::MoveNorth);
    assert_eq!(parse("quit now please"), Command::Quit);
}

#[test]
fn an_unknown_verb_is_the_unknown_command() {
    assert_eq!(parse("fly"), Command::UnknownCommand);
    assert_eq!(parse("fly north"), Command::UnknownCommand);
    assert_eq!(parse("norths"), Command::UnknownCommand);
    assert_eq!(parse("nort"), Command::UnknownCommand);
    assert_eq!(parse("n"), Command::UnknownCommand);
    assert_eq!(parse("42"), Command::UnknownCommand);
}

#[test]
fn white_space_of_every_kind_separates_words() {
    assert_eq!(
        parse("say\u{a0}a\u{2003}b\u{3000}c\u{85}d\u{1680}e\u{2028}f\u{2029}g\u{202f}h\u{205f}i\u{b}j\u{c}k"),
        Command::Say(words(&["a", "b", "c", "d", "e", "f", "g", "h", "i", "j", "k"]))
    );
    // U+200B, the zero width space, is no white space.
    assert_eq!(parse("say a\u{200b}b"), Command::Say(words(&["a\u{200b}b"])));
}

#[test]
fn white_space_is_what_the_standard_library_calls_so() {
    let mut code: u32 = 0;
    while code <= 0x10FFFF {
        if let Some(c) = char::from_u32(code) {
            assert_eq!(is_whitespace(c), c.is_whitespace(), "code point {:#x}", code);
        }
        code += 1;
    }
}

#[test]
fn lower_case_is_what_the_standard_library_calls_so() {
    let mut code: u32 = 0;
    while code <= 0x10FFFF {
        if let Some(c) = char::from_u32(code) {
            assert_eq!(to_ascii_lowercase(c), c.to_ascii_lowercase(), "code point {:#x}", code);
        }
        code += 1;
    }
    assert_eq!(to_ascii_lowercase('A'), 'a');
    assert_eq!(to_ascii_lowercase('Z'), 'z');
    assert_eq!(to_ascii_lowercase('@'), '@');
    assert_eq!(to_ascii_lowercase('['), '[');
    assert_eq!(to_ascii_lowercase('q'), 'q');
}

#[test]
fn a_line_is_split_like_the_standard_library_splits_it() {
    let lines = [
        "",
        " ",
        "a",
        " a",
        "a ",
        "say hello world",
        "  two  spaces\tand\ttabs \n",
        "\u{a0}no\u{a0}break\u{a0}",
        "x\u{3000}y",
        "Mixed CASE stays",
        "\u{1F600} smile \u{1F600}",
    ];
    for line in lines {
        let expected: Vec<String> = line.split_whitespace().map(String::from).collect();
        assert_eq!(split_whitespace(line), expected, "line {:?}", line);
    }
}

#[test]
fn a_line_is_split_into_exactly_its_words() {
    assert_eq!(split_whitespace(""), Vec::<String>::new());
    assert_eq!(split_whitespace(" \t\n"), Vec::<String>::new());
    assert_eq!(split_whitespace("one"), words(&["one"]));
    assert_eq!(split_whitespace("  one   two "), words(&["one", "two"]));
}

#[test]
fn the_characters_of_a_text_are_listed_in_order() {
    assert_eq!(chars_of(""), Vec::<char>::new());
    assert_eq!(chars_of("a\u{e9}\u{1F600}"), vec!['a', '\u{e9}', '\u{1F600}']);
}

#[test]
fn strings_are_copied_text_by_text() {
    assert_eq!(copy_strings(&Vec::new()), Vec::<String>::new());
    assert_eq!(copy_strings(&words(&["a", "", "bc"])), words(&["a", "", "bc"]));
}

#[test]
fn a_word_is_compared_in_lower_case() {
    assert!(lowercase_equals("north", "north"));
    assert!(lowercase_equals("NoRtH", "north"));
    assert!(lowercase_equals("", ""));
    assert!(!lowercase_equals("north", "nort"));
    assert!(!lowercase_equals("nort", "north"));
    assert!(!lowercase_equals("south", "north"));
    // Only the word is lowered, not the verb it is compared with.
    assert!(!lowercase_equals("north", "NORTH"));
}

#[test]
fn numbers_are_written_like_the_standard_library_writes_them() {
    let numbers = [
        0u32, 1, 9, 10, 11, 99, 100, 101, 999, 1000, 65535, 65536, 1000000, 999999999,
        1000000000, 4294967294, 4294967295,
    ];
    for n in numbers {
        assert_eq!(to_decimal(n), format!("{}", n));
    }
    assert_eq!(to_decimal(0), "0");
    assert_eq!(to_decimal(4294967295), "4294967295");
    assert_eq!(to_decimal(1020), "1020");
}

#[test]
fn each_command_has_its_short_name() {
    assert_eq!(Command::UnknownCommand.code(), "u");
    assert_eq!(Command::Empty.code(), "");
    assert_eq!(Command::Quit.code(), "q");
    assert_eq!(Command::MoveNorth.code(), "mn");
    assert_eq!(Command::MoveSouth.code(), "ms");
    assert_eq!(Command::MoveWest.code(), "mw");
    assert_eq!(Command::MoveEast.code(), "me");
    assert_eq!(Command::MoveUp.code(), "mu");
    assert_eq!(Command::MoveDown.code(), "md");
    assert_eq!(Command::Say(words(&["hi"])).code(), "s");
}
