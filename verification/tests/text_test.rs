use table_engine::basic_elements::names::find;
use table_engine::text::{
    chars_of, push_decimal, push_digits, push_repeated, push_str, rank, string_of, Rank,
};

fn chars(s: &str) -> Vec<char> {
    s.chars().collect()
}

#[test]
fn characters_and_back() {
    assert_eq!(chars_of("héllo"), vec!['h', 'é', 'l', 'l', 'o']);
    assert_eq!(chars_of(""), Vec::<char>::new());
    assert_eq!(string_of(&vec!['a', 'ż', 'b']), "ażb");
    assert_eq!(string_of(&Vec::new()), "");
    assert_eq!(string_of(&chars_of("round trip")), "round trip");
}

#[test]
fn appending() {
    let mut out = chars("ab");
    push_str(&mut out, "cd");
    assert_eq!(out, chars("abcd"));
    push_repeated(&mut out, '-', 3);
    assert_eq!(out, chars("abcd---"));
    push_repeated(&mut out, '-', 0);
    assert_eq!(out, chars("abcd---"));
}

#[test]
fn numerals() {
    let mut out = Vec::new();
    push_digits(&mut out, 0);
    assert_eq!(out, chars("0"));
    push_digits(&mut out, 9);
    push_digits(&mut out, 10);
    push_digits(&mut out, 1234567890);
    assert_eq!(out, chars("09101234567890"));
    let mut out = Vec::new();
    push_digits(&mut out, u128::MAX);
    assert_eq!(string_of(&out), format!("{}", u128::MAX));
    let mut out = chars("x");
    push_decimal(&mut out, -305);
    assert_eq!(out, chars("x-305"));
    let mut out = Vec::new();
    push_decimal(&mut out, i128::MIN);
    assert_eq!(string_of(&out), format!("{}", i128::MIN));
    let mut out = Vec::new();
    push_decimal(&mut out, i128::MAX);
    assert_eq!(string_of(&out), format!("{}", i128::MAX));
}

#[test]
fn dictionary_order() {
    assert_eq!(rank(&chars(""), &chars("")), Rank::Same);
    assert_eq!(rank(&chars("abc"), &chars("abc")), Rank::Same);
    assert_eq!(rank(&chars(""), &chars("a")), Rank::Before);
    assert_eq!(rank(&chars("a"), &chars("")), Rank::After);
    assert_eq!(rank(&chars("ab"), &chars("abc")), Rank::Before);
    assert_eq!(rank(&chars("abd"), &chars("abc")), Rank::After);
    assert_eq!(rank(&chars("B"), &chars("a")), Rank::Before);
    assert_eq!(rank(&chars("z"), &chars("é")), Rank::Before);
    for (a, b) in [("35", "25"), ("9", "25"), ("100", "25"), ("\"a\"", "1"), ("ż", "z")] {
        let expected = match a.cmp(b) {
            std::cmp::Ordering::Less => Rank::Before,
            std::cmp::Ordering::Equal => Rank::Same,
            std::cmp::Ordering::Greater => Rank::After,
        };
        assert_eq!(rank(&chars(a), &chars(b)), expected);
    }
}

#[test]
fn finding_a_name() {
    let names = vec!["a".to_string(), "b".to_string(), "a".to_string()];
    assert_eq!(find(&names, &"a".to_string()), Some(0));
    assert_eq!(find(&names, &"b".to_string()), Some(1));
    assert_eq!(find(&names, &"c".to_string()), None);
    assert_eq!(find(&Vec::new(), &"a".to_string()), None);
}
