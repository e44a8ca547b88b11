use chat_relay::command::{parse, read, trim, Command};
use chat_relay::text::{same_text, split_word};

#[test]
fn list_is_read_with_or_without_an_argument() {
    assert_eq!(parse("/list"), Command::List);
    assert_eq!(parse("/list all"), Command::List);
}

#[test]
fn join_takes_what_follows_the_first_space() {
    assert_eq!(parse("/join lobby"), Command::Join("lobby".to_owned()));
    assert_eq!(parse("/join a b"), Command::Join("a b".to_owned()));
    assert_eq!(parse("/join  x"), Command::Join(" x".to_owned()));
}

#[test]
fn join_without_a_room_is_reported() {
    assert_eq!(parse("/join"), Command::JoinWithoutRoom);
    assert_eq!(parse("/join   "), Command::JoinWithoutRoom);
}

#[test]
fn name_takes_what_follows_the_first_space() {
    assert_eq!(parse("/name Ann"), Command::Name("Ann".to_owned()));
    assert_eq!(parse("/name"), Command::NameWithoutName);
}

#[test]
fn other_commands_are_unknown_and_keep_the_line() {
    assert_eq!(parse("/quit now"), Command::Unknown("/quit now".to_owned()));
    assert_eq!(parse("/"), Command::Unknown("/".to_owned()));
    assert_eq!(parse("/joinx a"), Command::Unknown("/joinx a".to_owned()));
    assert_eq!(parse("/LIST"), Command::Unknown("/LIST".to_owned()));
}

#[test]
fn other_lines_are_chat() {
    assert_eq!(parse("hello there"), Command::Say("hello there".to_owned()));
    assert_eq!(parse("a /join b"), Command::Say("a /join b".to_owned()));
    assert_eq!(parse(""), Command::Say(String::new()));
}

#[test]
fn whitespace_around_a_line_is_dropped() {
    assert_eq!(parse("  /join lobby \r\n"), Command::Join("lobby".to_owned()));
    assert_eq!(parse("\t hi \n"), Command::Say("hi".to_owned()));
    assert_eq!(parse(" \u{a0}/list\u{2003}"), Command::List);
    assert_eq!(parse("   "), Command::Say(String::new()));
}

#[test]
fn read_does_not_trim() {
    assert_eq!(read(" /list"), Command::Say(" /list".to_owned()));
    assert_eq!(read("/join "), Command::Join(String::new()));
}

#[test]
fn words_are_split_by_characters_not_bytes() {
    assert_eq!(parse("/join caf\u{e9} \u{4e2d}"), Command::Join("caf\u{e9} \u{4e2d}".to_owned()));
    assert_eq!(split_word("\u{e9}t\u{e9} ici"), ("\u{e9}t\u{e9}", Some("ici")));
    assert_eq!(split_word("none"), ("none", None));
    assert_eq!(split_word(" x"), ("", Some("x")));
    assert_eq!(split_word(""), ("", None));
}

#[test]
fn same_text_compares_whole_texts() {
    assert!(same_text("", ""));
    assert!(same_text("main", "main"));
    assert!(!same_text("main", "mai"));
    assert!(!same_text("mai", "main"));
    assert!(!same_text("main", "maim"));
    assert!(same_text("\u{e9}", "\u{e9}"));
}

#[test]
fn trim_drops_whitespace_at_both_ends_only() {
    assert_eq!(trim(""), "");
    assert_eq!(trim(" \t\r\n"), "");
    assert_eq!(trim("a"), "a");
    assert_eq!(trim("  a b  "), "a b");
    assert_eq!(trim("a  "), "a");
    assert_eq!(trim("\n a"), "a");
    assert_eq!(trim("\u{3000}\u{e9} \u{4e2d}\u{2028}"), "\u{e9} \u{4e2d}");
    assert_eq!(trim("\u{200b}x\u{200b}"), "\u{200b}x\u{200b}");
}

#[test]
fn trim_agrees_with_the_standard_library() {
    let lines = [
        "",
        " ",
        "x",
        " x",
        "x ",
        "  /join  lobby  ",
        "\t\u{a0}\u{1680}mid dle\u{2000}\u{202f}\u{205f}\u{3000}",
        "\u{85}\u{b}\u{c}a\u{1c}b\u{1d}",
        "\u{feff}a\u{feff}",
    ];
    for line in lines {
        assert_eq!(trim(line), line.trim());
    }
}

#[test]
fn whitespace_is_the_white_space_code_points() {
    let listed = |n: u32| {
        (0x0009..=0x000D).contains(&n)
            || n == 0x0020
            || n == 0x0085
            || n == 0x00A0
            || n == 0x1680
            || (0x2000..=0x200A).contains(&n)
            || n == 0x2028
            || n == 0x2029
            || n == 0x202F
            || n == 0x205F
            || n == 0x3000
    };
    let mut count = 0;
    for n in 0..=0x10FFFFu32 {
        if let Some(c) = char::from_u32(n) {
            let mut line = String::new();
            line.push(c);
            let dropped = trim(&line).is_empty();
            assert_eq!(dropped, listed(n), "U+{n:04X}");
            if dropped {
                count += 1;
            }
        }
    }
    assert_eq!(count, 25);
}
