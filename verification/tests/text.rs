use json_filter::text::{decimal_string, ends_with, find_from, read_index, starts_with};

#[test]
fn read_index_agrees_with_the_standard_parser() {
    let max = usize::MAX.to_string();
    let over = format!("{}0", usize::MAX);
    let next = {
        // the decimal text of usize::MAX + 1
        let mut digits: Vec<u8> = max.bytes().collect();
        let mut i = digits.len();
        loop {
            i -= 1;
            if digits[i] == b'9' {
                digits[i] = b'0';
            } else {
                digits[i] += 1;
                break;
            }
        }
        String::from_utf8(digits).unwrap()
    };
    let cases: Vec<String> = [
        "0", "1", "7", "10", "42", "007", "000", "+0", "+5", "+005", "", "+", "-", "-0", "-1",
        "++1", "+-1", "1+", " 1", "1 ", "1_000", "1,000", "1.0", "1e3", "0x10", "a", "12a", "a12",
        "٣", "１２", "²", "1\n", "\t1", "4294967295", "4294967296", "18446744073709551615",
        "18446744073709551616", "99999999999999999999", "00000000000000000000000000000000001",
    ]
    .iter()
    .map(|s| s.to_string())
    .chain([max.clone(), over, next, format!("+{}", max), format!("000{}", max)])
    .collect();
    for case in cases {
        assert_eq!(
            read_index(&case),
            case.parse::<usize>().ok(),
            "on {:?}",
            case
        );
    }
}

#[test]
fn read_index_exact_values() {
    assert_eq!(read_index("0"), Some(0));
    assert_eq!(read_index("+17"), Some(17));
    assert_eq!(read_index("0123"), Some(123));
    assert_eq!(read_index(&usize::MAX.to_string()), Some(usize::MAX));
    assert_eq!(read_index(""), None);
    assert_eq!(read_index("+"), None);
    assert_eq!(read_index("-3"), None);
    assert_eq!(read_index("3x"), None);
}

#[test]
fn decimal_string_agrees_with_display() {
    let mut cases: Vec<usize> = vec![0, 1, 9, 10, 11, 99, 100, 101, 12345, 1_000_000, usize::MAX, usize::MAX - 1, usize::MAX / 10];
    let mut p: usize = 1;
    while let Some(next) = p.checked_mul(10) {
        cases.push(p - 1);
        cases.push(p);
        cases.push(p + 1);
        p = next;
    }
    for n in cases {
        assert_eq!(decimal_string(n), n.to_string());
    }
    assert_eq!(decimal_string(0), "0");
    assert_eq!(decimal_string(907), "907");
}

#[test]
fn decimal_string_and_read_index_round_trip() {
    for n in [0usize, 5, 10, 255, 65536, usize::MAX] {
        assert_eq!(read_index(&decimal_string(n)), Some(n));
    }
}

#[test]
fn find_from_gives_the_first_position_or_the_length() {
    assert_eq!(find_from("a.b.c", '.', 0), 1);
    assert_eq!(find_from("a.b.c", '.', 1), 1);
    assert_eq!(find_from("a.b.c", '.', 2), 3);
    assert_eq!(find_from("a.b.c", '.', 4), 5);
    assert_eq!(find_from("a.b.c", '.', 5), 5);
    assert_eq!(find_from("abc", '.', 0), 3);
    assert_eq!(find_from("", '.', 0), 0);
    assert_eq!(find_from("...", '.', 0), 0);
    // positions count characters
    assert_eq!(find_from("日本.語", '.', 0), 2);
    assert_eq!(find_from("é[1]", '[', 0), 1);
}

#[test]
fn starts_with_and_ends_with_agree_with_the_standard_ones() {
    let texts = [
        "", "a", "ab", "abc", "abcabc", "John Doe", "john@example.com", " ", "aaa", "aab",
        "日本語", "日本", "本語", "наука и жизнь", "é", "e\u{301}", "\u{1F600}x\u{1F600}",
    ];
    for s in texts {
        for p in texts {
            let pattern = p.to_string();
            assert_eq!(starts_with(s, &pattern), s.starts_with(p), "{:?} starts with {:?}", s, p);
            assert_eq!(ends_with(s, &pattern), s.ends_with(p), "{:?} ends with {:?}", s, p);
        }
    }
    assert!(starts_with("John Doe", &"John".to_string()));
    assert!(!starts_with("John Doe", &"Doe".to_string()));
    assert!(ends_with("John Doe", &"Doe".to_string()));
    assert!(!ends_with("John Doe", &"John".to_string()));
    assert!(starts_with("", &String::new()));
    assert!(ends_with("", &String::new()));
    assert!(!starts_with("", &"a".to_string()));
    assert!(!ends_with("ab", &"abc".to_string()));
}
