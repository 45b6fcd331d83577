use boundary::calls::{hi, time, try_add};
use boundary::digest::digest;
use boundary::text::try_produce_owned_text;

#[test]
fn add_is_the_sum() {
    assert_eq!(boundary::calls::add(2, 3), 5);
    assert_eq!(boundary::calls::add(1, 2), 3);
    assert_eq!(boundary::calls::add(20, 22), 42);
    assert_eq!(boundary::calls::add(-7, 7), 0);
    assert_eq!(boundary::calls::add(-5, -6), -11);
    assert_eq!(boundary::calls::add(1_000_000, 2_000_000), 3_000_000);
}

#[test]
fn add_at_the_ends_of_the_range() {
    assert_eq!(boundary::calls::add(i32::MAX, i32::MIN), -1);
    assert_eq!(boundary::calls::add(i32::MIN, i32::MAX), -1);
    assert_eq!(boundary::calls::add(i32::MAX, 0), i32::MAX);
    assert_eq!(boundary::calls::add(i32::MIN, 0), i32::MIN);
    assert_eq!(boundary::calls::add(i32::MAX - 1, 1), i32::MAX);
    assert_eq!(boundary::calls::add(i32::MIN + 1, -1), i32::MIN);
}

#[test]
fn add_zero_changes_nothing() {
    for x in [0, 1, -1, 42, -42, i32::MAX, i32::MIN] {
        assert_eq!(boundary::calls::add(x, 0), x);
        assert_eq!(boundary::calls::add(0, x), x);
    }
}

#[test]
fn add_does_not_depend_on_order_or_grouping() {
    for (x, y, z) in [(1, 2, 3), (-4, 9, 17), (100, -250, 75), (0, 0, 0), (i32::MAX, -1, -2)] {
        assert_eq!(boundary::calls::add(x, y), boundary::calls::add(y, x));
        let left = boundary::calls::add(boundary::calls::add(x, y), z);
        let right = boundary::calls::add(x, boundary::calls::add(y, z));
        assert_eq!(left, right);
    }
}

#[test]
fn add_the_negation_leads_back() {
    for (x, y) in [(0, 1), (42, 8), (-3, -9), (i32::MAX, -5), (i32::MIN, 7), (5, i32::MAX - 5)] {
        assert_eq!(boundary::calls::add(boundary::calls::add(x, y), -y), x);
    }
}

#[test]
fn add_keeps_the_order() {
    for (x1, x2, y) in [(1, 2, 10), (-5, 5, -100), (i32::MIN, 0, 3), (0, i32::MAX - 9, 9)] {
        let low = boundary::calls::add(x1, y);
        let high = boundary::calls::add(x2, y);
        assert!(low < high);
        assert_eq!(i64::from(high) - i64::from(low), i64::from(x2) - i64::from(x1));
    }
}

#[test]
fn try_add_gives_the_sum_where_it_fits() {
    assert_eq!(try_add(2, 3), Some(5));
    assert_eq!(try_add(0, 0), Some(0));
    assert_eq!(try_add(i32::MAX, i32::MIN), Some(-1));
    assert_eq!(try_add(i32::MAX, 0), Some(i32::MAX));
    assert_eq!(try_add(i32::MIN, 0), Some(i32::MIN));
    assert_eq!(try_add(i32::MAX - 1, 1), Some(i32::MAX));
    assert_eq!(try_add(i32::MIN + 1, -1), Some(i32::MIN));
    assert_eq!(try_add(-1, i32::MIN + 1), Some(i32::MIN));
}

#[test]
fn try_add_gives_nothing_where_the_sum_does_not_fit() {
    assert_eq!(try_add(i32::MAX, 1), None);
    assert_eq!(try_add(1, i32::MAX), None);
    assert_eq!(try_add(i32::MAX, i32::MAX), None);
    assert_eq!(try_add(i32::MIN, -1), None);
    assert_eq!(try_add(-1, i32::MIN), None);
    assert_eq!(try_add(i32::MIN, i32::MIN), None);
    assert_eq!(try_add(1_500_000_000, 1_500_000_000), None);
    assert_eq!(try_add(-1_500_000_000, -1_500_000_000), None);
}

#[test]
fn time_is_the_fixed_greeting() {
    assert_eq!(time(), "Es ist fünf vor Zwölf!!");
    assert_eq!(time().chars().count(), 23);
    assert_eq!(time(), time());
}

#[test]
fn time_can_be_handed_over_as_owned_text() {
    let text = try_produce_owned_text(time()).unwrap();
    assert_eq!(text.as_str(), "Es ist fünf vor Zwölf!!");
    assert_eq!(text.as_bytes_with_nul().len(), 26);
    assert_eq!(*text.as_bytes_with_nul().last().unwrap(), 0);
}

#[test]
fn hi_greets_by_name() {
    assert_eq!(hi("World"), "Hello, World");
    assert_eq!(hi(""), "Hello, ");
    assert_eq!(hi("Zwölf"), "Hello, Zwölf");
    assert_eq!(hi("a b  c"), "Hello, a b  c");
}

#[test]
fn digest_of_hello_world() {
    let text = digest(b"Hello World!\0");
    assert_eq!(text.as_str(), "2ef7bde608ce5404e97d5f042f95f89f1c232871");
    assert_eq!(text.as_bytes_with_nul().len(), 41);
    assert_eq!(text.as_bytes_with_nul()[40], 0);
}

#[test]
fn digest_of_the_empty_text() {
    assert_eq!(digest(b"\0").as_str(), "da39a3ee5e6b4b0d3255bfef95601890afd80709");
    assert_eq!(digest(b"").as_str(), "da39a3ee5e6b4b0d3255bfef95601890afd80709");
}

#[test]
fn digest_of_abc() {
    assert_eq!(digest(b"abc\0").as_str(), "a9993e364706816aba3e25717850c26c9cd0d89d");
}

#[test]
fn digest_stops_at_the_terminator() {
    let whole = digest(b"Hello World!\0");
    let with_rest = digest(b"Hello World!\0and more\0");
    assert_eq!(whole.as_str(), with_rest.as_str());
    assert_eq!(digest(b"abc\0def").as_str(), "a9993e364706816aba3e25717850c26c9cd0d89d");
}

#[test]
fn digest_of_unterminated_bytes_takes_them_all() {
    assert_eq!(digest(b"Hello World!").as_str(), "2ef7bde608ce5404e97d5f042f95f89f1c232871");
    assert_eq!(digest(b"abc").as_str(), "a9993e364706816aba3e25717850c26c9cd0d89d");
}

#[test]
fn digest_is_forty_lower_case_hex_digits() {
    for data in [&b"\0"[..], b"a\0", b"The quick brown fox jumps over the lazy dog\0", &[1, 2, 3, 255, 0]] {
        let text = digest(data);
        let hex = text.as_str();
        assert_eq!(hex.len(), 40);
        assert!(hex.bytes().all(|b| b.is_ascii_digit() || (b'a'..=b'f').contains(&b)));
    }
    assert_eq!(
        digest(b"The quick brown fox jumps over the lazy dog\0").as_str(),
        "2fd4e1c67a2d28fced849ee1bb76e7391b93eb12"
    );
}

#[test]
fn digest_differs_from_its_input() {
    let text = digest(b"2ef7bde608ce5404e97d5f042f95f89f1c232871\0");
    assert_ne!(text.as_str(), "2ef7bde608ce5404e97d5f042f95f89f1c232871");
}
