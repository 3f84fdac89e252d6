use split_audio::text::{
    chars_eq, contains, ends_with, find_first, find_last, lines, same_text, space, spells, split, sub_vec, trim,
};

fn chars(s: &str) -> Vec<char> {
    s.chars().collect()
}

fn strings(v: Vec<Vec<char>>) -> Vec<String> {
    v.into_iter().map(|p| p.into_iter().collect()).collect()
}

#[test]
fn splitting_keeps_empty_pieces() {
    assert_eq!(strings(split(&chars("1,aac,audio"), ',')), vec!["1", "aac", "audio"]);
    assert_eq!(strings(split(&chars(""), ',')), vec![""]);
    assert_eq!(strings(split(&chars(","), ',')), vec!["", ""]);
    assert_eq!(strings(split(&chars("a,,b,"), ',')), vec!["a", "", "b", ""]);
    assert_eq!(strings(split(&chars("no separator"), ':')), vec!["no separator"]);
}

#[test]
fn splitting_agrees_with_std() {
    for s in ["", "a", ",", "a,b", ",a,,b,", "1:2:3", ",,,"] {
        let want: Vec<String> = s.split(',').map(|p| p.to_string()).collect();
        assert_eq!(strings(split(&chars(s), ',')), want, "{:?}", s);
    }
}

#[test]
fn lines_agree_with_std() {
    for s in ["", "a", "a\n", "a\nb", "a\r\nb\r\n", "\n", "\n\n", "a\n\nb", "a\r", "a\r\n", "\r\n", "a\rb\n", "x\n\r\ny"] {
        let want: Vec<String> = s.lines().map(|p| p.to_string()).collect();
        assert_eq!(strings(lines(&chars(s))), want, "{:?}", s);
    }
}

#[test]
fn trimming_agrees_with_std() {
    for s in ["", " ", "  y \n", "10.5\n", "\t a b \r\n", "\u{a0}x\u{3000}", "\u{85}\u{2003}", "a", "\u{200b}a"] {
        let got: String = trim(&chars(s)).into_iter().collect();
        assert_eq!(got, s.trim(), "{:?}", s);
    }
}

#[test]
fn white_space_agrees_with_std() {
    for code in 0u32..0x3100 {
        if let Some(c) = char::from_u32(code) {
            assert_eq!(space(c), c.is_whitespace(), "{:?}", c);
        }
    }
    assert!(!space('\u{feff}'));
}

#[test]
fn searching() {
    assert_eq!(find_first(&chars("a:b:c"), ':'), 1);
    assert_eq!(find_first(&chars("abc"), ':'), 3);
    assert_eq!(find_first(&chars(""), ':'), 0);
    assert_eq!(find_last(&chars("a:b:c"), ':'), Some(3));
    assert_eq!(find_last(&chars("abc"), ':'), None);
    assert_eq!(find_last(&chars(":"), ':'), Some(0));
    assert_eq!(sub_vec(&chars("abcdef"), 2, 4), chars("cd"));
    assert_eq!(sub_vec(&chars("abcdef"), 3, 3), chars(""));
}

#[test]
fn comparing() {
    assert!(chars_eq(&chars("audio"), &chars("audio")));
    assert!(!chars_eq(&chars("audio"), &chars("audi")));
    assert!(!chars_eq(&chars("audio"), &chars("audio ")));
    assert!(spells(&chars("audio"), "audio"));
    assert!(!spells(&chars("Audio"), "audio"));
    assert!(same_text("in.mkv", "in.mkv"));
    assert!(!same_text("in.mkv", "out.mkv"));
}

#[test]
fn affixes_and_words() {
    assert!(ends_with(&chars("128 kbps"), &chars(" kbps")));
    assert!(!ends_with(&chars("kbps"), &chars(" kbps")));
    assert!(ends_with(&chars("x"), &chars("")));
    assert!(contains(&chars(" T.. ebur128  A->N  EBU R128 scanner."), &chars("ebur128")));
    assert!(contains(&chars("ebur128"), &chars("ebur128")));
    assert!(!contains(&chars("ebur12"), &chars("ebur128")));
    assert!(!contains(&chars("ebur12 8"), &chars("ebur128")));
    assert!(contains(&chars("abc"), &chars("")));
    assert!(contains(&chars(""), &chars("")));
    for (s, w) in [("aaab", "aab"), ("abcabd", "abd"), ("abc", "abcd"), ("xyz", "z"), ("xyz", "x")] {
        assert_eq!(contains(&chars(s), &chars(w)), s.contains(w), "{:?} {:?}", s, w);
    }
}
