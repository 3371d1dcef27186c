use vk_multitool::text::{i64_to_string, join_i64, join_strings, split_char, u64_to_string};

#[test]
fn decimal_of_unsigned() {
    assert_eq!(u64_to_string(0), "0");
    assert_eq!(u64_to_string(7), "7");
    assert_eq!(u64_to_string(1020), "1020");
    assert_eq!(u64_to_string(u64::MAX), u64::MAX.to_string());
}

#[test]
fn decimal_of_signed() {
    assert_eq!(i64_to_string(0), "0");
    assert_eq!(i64_to_string(-5), "-5");
    assert_eq!(i64_to_string(123456789), "123456789");
    assert_eq!(i64_to_string(i64::MIN), i64::MIN.to_string());
    assert_eq!(i64_to_string(i64::MAX), i64::MAX.to_string());
}

#[test]
fn split_like_std() {
    for s in ["", "a", "a:b", ":", "::x:", "-1:2:3:en", "ä:ö"] {
        let expected: Vec<String> = s.split(':').map(String::from).collect();
        assert_eq!(split_char(s, ':'), expected);
    }
}

#[test]
fn join_like_std() {
    let items = vec![String::from("first_name"), String::from("last_name")];
    assert_eq!(join_strings(&items, ","), "first_name,last_name");
    assert_eq!(join_strings(&vec![], ","), "");
    assert_eq!(join_i64(&vec![1, -2, 30], ","), "1,-2,30");
    assert_eq!(join_i64(&vec![], ","), "");
}
