use serverbot::text::{
    chars_of, eq_ignore_ascii_case, i64_to_string, join_args, lowercase_chars, normalize,
    parse_i32_chars, parse_i64_chars, parse_u64_chars, split_chars, string_of, trim_chars,
    u64_to_string,
};

fn v(s: &str) -> Vec<char> {
    s.chars().collect()
}

#[test]
fn trimming_and_case() {
    assert_eq!(string_of(&trim_chars(&v("\t a b \n"))), "a b");
    assert_eq!(string_of(&lowercase_chars(&v("ÉTÉ Ok"))), "été ok");
    assert_eq!(string_of(&normalize("  HeLLo ")), "hello");
    assert!(eq_ignore_ascii_case("GiveAway", "giveaway"));
    assert!(!eq_ignore_ascii_case("É", "é"));
    assert_eq!(chars_of("ab"), vec!['a', 'b']);
}

#[test]
fn number_parsing_follows_the_standard_parsers() {
    for s in ["0", "+7", "18446744073709551615", "18446744073709551616", "-1", "", "1 ", "12a"] {
        assert_eq!(parse_u64_chars(&v(s)), s.parse::<u64>().ok(), "{}", s);
    }
    for s in ["-9223372036854775808", "9223372036854775807", "9223372036854775808", "-", "+", "-0", "42"] {
        assert_eq!(parse_i64_chars(&v(s)), s.parse::<i64>().ok(), "{}", s);
    }
    for s in ["2147483647", "2147483648", "-2147483648", "-2147483649", "07"] {
        assert_eq!(parse_i32_chars(&v(s)), s.parse::<i32>().ok(), "{}", s);
    }
}

#[test]
fn numbers_written_and_read_back() {
    for n in [0u64, 9, 10, 12345, u64::MAX] {
        assert_eq!(u64_to_string(n), n.to_string());
        assert_eq!(parse_u64_chars(&v(&u64_to_string(n))), Some(n));
    }
    for n in [0i64, -1, 77, i64::MIN, i64::MAX] {
        assert_eq!(i64_to_string(n), n.to_string());
        assert_eq!(parse_i64_chars(&v(&i64_to_string(n))), Some(n));
    }
}

#[test]
fn joining_and_splitting() {
    assert_eq!(join_args(&["a", "b", "c"], 1, " "), "b c");
    assert_eq!(join_args(&["a"], 1, " "), "");
    let parts: Vec<String> = split_chars(&v("a||b"), '|').iter().map(|p| string_of(p)).collect();
    assert_eq!(parts, vec!["a", "", "b"]);
    let single: Vec<String> = split_chars(&v(""), '|').iter().map(|p| string_of(p)).collect();
    assert_eq!(single, vec![""]);
}
