use speediso::display::{progress_bar, raw_device_path, truncate};
use speediso::text::{chars_of, lines_of, parse_u64_chars, replace_all_chars, trim_chars, words_of};

fn s(v: &Vec<char>) -> String {
    v.iter().collect()
}

#[test]
fn trim_removes_unicode_whitespace() {
    assert_eq!(s(&trim_chars(&chars_of("\u{a0} \tabc d\u{3000}\n"))), "abc d");
    assert_eq!(s(&trim_chars(&chars_of("   "))), "");
}

#[test]
fn parse_u64_follows_std() {
    for t in ["0", "42", "+7", "", "+", "-1", "1a", "18446744073709551615", "18446744073709551616", "007"] {
        assert_eq!(parse_u64_chars(&chars_of(t)), t.parse::<u64>().ok(), "input {:?}", t);
    }
}

#[test]
fn lines_and_words_follow_std() {
    for t in ["a\nb", "a\r\nb\n", "\n\n", "", "x\r", "one two\tthree\n four  "] {
        let got: Vec<String> = lines_of(&chars_of(t)).iter().map(s).collect();
        let want: Vec<String> = t.lines().map(|l| l.to_string()).collect();
        assert_eq!(got, want, "lines of {:?}", t);
        let got: Vec<String> = words_of(&chars_of(t)).iter().map(s).collect();
        let want: Vec<String> = t.split_whitespace().map(|l| l.to_string()).collect();
        assert_eq!(got, want, "words of {:?}", t);
    }
}

#[test]
fn replace_all_follows_std() {
    let r = replace_all_chars(&chars_of("aaaa"), &chars_of("aa"), &chars_of("b"));
    assert_eq!(s(&r), "aaaa".replace("aa", "b"));
}

#[test]
fn truncate_shortens_long_cells() {
    assert_eq!(truncate("short", 21), "short");
    assert_eq!(truncate("Samsung SSD 980 PRO 1TB with extras", 12), "Samsung SSD…");
    assert_eq!(truncate("exactly", 7), "exactly");
}

#[test]
fn progress_bar_draws_head_and_blanks() {
    assert_eq!(progress_bar(0, 5), "     ");
    assert_eq!(progress_bar(1, 5), ">    ");
    assert_eq!(progress_bar(3, 5), "==>  ");
    assert_eq!(progress_bar(5, 5), "====>");
}

#[test]
fn raw_device_paths_on_macos() {
    assert_eq!(raw_device_path("/dev/disk2"), "/dev/rdisk2");
    assert_eq!(raw_device_path("/dev/rdisk2"), "/dev/rdisk2");
    assert_eq!(raw_device_path("/dev/sdb"), "/dev/sdb");
}
