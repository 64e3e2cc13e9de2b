use discord_rec::scan::{find, split_lines, split_words, to_lower};
use discord_rec::text::{chars_of, parse_u32, parse_u64, string_of, trim, with_number};

fn chars(s: &str) -> Vec<char> {
    s.chars().collect()
}

#[test]
fn numbers_are_written_and_read() {
    for n in [0, 7, 10, 1_000_000, u64::MAX] {
        let text = with_number("", n);
        assert_eq!(text, n.to_string());
        assert_eq!(parse_u64(&chars(&text)), Some(n));
    }
    assert_eq!(with_number("bitrate=", 128_000), "bitrate=128000");
}

#[test]
fn numbers_are_read_as_the_standard_library_does() {
    for text in ["", "+", "-1", "+5", "007", "4294967295", "4294967296", "1 ", "１"] {
        assert_eq!(parse_u32(&chars(text)), text.parse::<u32>().ok(), "{text:?}");
        assert_eq!(parse_u64(&chars(text)), text.parse::<u64>().ok(), "{text:?}");
    }
}

#[test]
fn white_space_is_trimmed_as_the_standard_library_does() {
    for text in ["", " \t\r\n", " a b ", "\u{a0}x\u{2003}", "\u{200b}x", "x\u{85}\u{3000}"] {
        assert_eq!(string_of(trim(&chars(text))), text.trim(), "{text:?}");
        let own: Vec<String> = split_words(&chars(text)).iter().map(|w| string_of(w)).collect();
        let std: Vec<String> = text.split_whitespace().map(|w| w.to_owned()).collect();
        assert_eq!(own, std, "{text:?}");
    }
}

#[test]
fn lines_are_split_as_the_standard_library_does() {
    for text in ["", "\n", "a", "a\n", "a\r\nb\r", "\r\n\r\n", "a\n\nb"] {
        let own: Vec<String> = split_lines(&chars(text)).iter().map(|l| string_of(l)).collect();
        let std: Vec<String> = text.lines().map(|l| l.to_owned()).collect();
        assert_eq!(own, std, "{text:?}");
    }
}

#[test]
fn texts_are_searched() {
    assert_eq!(find(&chars("abcabc"), &chars("ca")), Some(2));
    assert_eq!(find(&chars("abc"), &chars("")), Some(0));
    assert_eq!(find(&chars("abc"), &chars("abcd")), None);
    assert_eq!(string_of(&to_lower(&chars("DiscordÉ"))), "discordÉ");
    assert_eq!(chars_of("é—a"), vec!['é', '—', 'a']);
}
