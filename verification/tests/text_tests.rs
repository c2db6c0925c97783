// The string helpers against the standard library operations they stand for.
use repolens::text::{
    chars_of, copy_string, is_whitespace, join_strings, lines_of, parse_i64, sorted_unique, str_eq,
    str_less, trim_string,
};

fn samples() -> Vec<String> {
    let mut v: Vec<String> = vec![
        "",
        " ",
        "a",
        "abc",
        "  padded\t",
        "\u{3000}wide space\u{2029}",
        "\u{85}next line\u{A0}",
        "line1\nline2",
        "line1\r\nline2\r\n",
        "\n\n",
        "\r\n",
        "a\rb\n",
        "trailing\n",
        "é ü ß",
        "Zebra",
        "apple",
        "Apple",
        "apples",
        "\u{1F600}",
        "-17",
        "+42",
        "0042",
        "9223372036854775807",
        "9223372036854775808",
        "-9223372036854775808",
        "-9223372036854775809",
        "--1",
        "+",
        "-",
        "1_000",
        " 5",
        "5 ",
        "١٢٣",
    ]
    .into_iter()
    .map(|s| s.to_string())
    .collect();
    let mut x: u64 = 99;
    for _ in 0..300 {
        x = x.wrapping_mul(6364136223846793005).wrapping_add(1442695040888963407);
        let alphabet = [' ', '\n', '\r', 'a', 'b', '-', '+', '0', '7', '9', '\t', 'é', '\u{2003}'];
        let len = (x >> 60) as usize;
        let s: String = (0..len).map(|k| alphabet[((x >> (k * 4)) % 13) as usize]).collect();
        v.push(s);
    }
    v
}

#[test]
fn trimming_and_lines_agree_with_str() {
    for s in samples() {
        assert_eq!(trim_string(&s), s.trim(), "text = {:?}", s);
        let lines: Vec<String> = s.lines().map(|l| l.to_string()).collect();
        assert_eq!(lines_of(&s), lines, "text = {:?}", s);
        assert_eq!(chars_of(&s), s.chars().collect::<Vec<char>>());
        assert_eq!(copy_string(&s), s);
    }
    for c in ['\t', '\n', '\u{b}', '\u{c}', '\r', ' ', '\u{85}', '\u{a0}', '\u{1680}', '\u{2000}', '\u{200a}', '\u{200b}', '\u{2028}', '\u{2029}', '\u{202f}', '\u{205f}', '\u{3000}', 'x', '\u{feff}'] {
        assert_eq!(is_whitespace(c), c.is_whitespace(), "char = {:?}", c);
    }
}

#[test]
fn integers_parse_as_str_parse() {
    for s in samples() {
        assert_eq!(parse_i64(&s), s.parse::<i64>().ok(), "text = {:?}", s);
    }
}

#[test]
fn ordering_and_sorting_agree_with_string() {
    let all = samples();
    for a in all.iter().take(40) {
        for b in all.iter().take(40) {
            assert_eq!(str_less(a, b), a < b, "{:?} < {:?}", a, b);
            assert_eq!(str_eq(a, b), a == b);
        }
    }
    let mut expected = all.clone();
    expected.sort();
    expected.dedup();
    assert_eq!(sorted_unique(&all), expected);
    assert_eq!(join_strings(&vec!["a".to_string(), "b".to_string(), "c".to_string()], ", "), "a, b, c");
    assert_eq!(join_strings(&Vec::new(), ", "), "");
}

#[test]
fn decimal_text_parses_back() {
    for n in [i64::MIN, -1_000_000, -1, 0, 7, 10, 99, 100, i64::MAX] {
        assert_eq!(parse_i64(&n.to_string()), Some(n));
        assert_eq!(
            repolens::search::size_condition_of(&format!("+{}", n)),
            Some(format!("r.size_bytes >= {}", n))
        );
        assert_eq!(
            repolens::search::size_condition_of(&format!("-{}", n)),
            Some(format!("r.size_bytes <= {}", n))
        );
    }
}

#[test]
fn parent_and_name_rebuild_the_path() {
    for p in ["/a/b", "/home/user/projects/repo", "rel/dir/x.rs", "/x/.git"] {
        let parent = repolens::paths::parent(p).unwrap();
        let name = repolens::paths::file_name(p).unwrap();
        assert_eq!(format!("{}/{}", parent, name), p);
    }
}
