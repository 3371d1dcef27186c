use vk_multitool::args_parser::{new_settings, parse, parse_matches, parse_yaml, Convert, Settings, Value};
use vk_multitool::cli::{call, token, Command};
use vk_multitool::text::{i64_to_string, u64_to_string};
use vk_multitool::tools::voter;

fn get_str(map: &Settings, k: &str) -> Option<String> {
    map.get(k).map(|v| v.as_str().unwrap())
}

#[test]
fn convert_matching_kinds() {
    assert_eq!(Value::UInt(5).as_u64(), Ok(5));
    assert_eq!(Value::Int(-5).as_i64(), Ok(-5));
    assert_eq!(Value::Str(String::from("ru")).as_str(), Ok(String::from("ru")));
    assert_eq!(Value::Bool(true).as_bool(), Ok(true));
}

#[test]
fn convert_errors_name_the_value() {
    assert_eq!(Value::Int(5).as_u64(), Err(String::from("Value \"Int(5)\" is not an u64.")));
    assert_eq!(Value::UInt(5).as_i64(), Err(String::from("Value \"UInt(5)\" is not an i64.")));
    assert_eq!(Value::Bool(false).as_str(), Err(String::from("Value \"Bool(false)\" is not a String.")));
    assert_eq!(
        Value::Str(String::from("x")).as_bool(),
        Err(String::from("Value \"Str(\"x\")\" is not a bool."))
    );
}

#[test]
fn debug_string_is_debug() {
    for v in [
        Value::UInt(0),
        Value::UInt(u64::MAX),
        Value::Int(i64::MIN),
        Value::Int(42),
        Value::Str(String::from("a \"quoted\"\n\tline ü")),
        Value::Bool(true),
        Value::Bool(false),
    ] {
        assert_eq!(v.debug_string(), format!("{:?}", v));
    }
}

#[test]
fn voter_argument_read() {
    let mut map = new_settings();
    assert_eq!(voter::parse(&mut map, "-12:34:56:ru"), Some(Ok(())));
    assert_eq!(map.get("voter::owner_id").unwrap().as_i64(), Ok(-12));
    assert_eq!(map.get("voter::poll_id").unwrap().as_u64(), Ok(34));
    assert_eq!(map.get("voter::chat_id").unwrap().as_u64(), Ok(56));
    assert_eq!(get_str(&map, "voter::lang"), Some(String::from("ru")));
    assert_eq!(map.get("voter").unwrap().as_bool(), Ok(true));
    assert_eq!(map.len(), 5);
}

#[test]
fn voter_argument_with_plus_sign() {
    let mut map = new_settings();
    assert_eq!(voter::parse(&mut map, "+7:1:2:en"), Some(Ok(())));
    assert_eq!(map.get("voter::owner_id").unwrap().as_i64(), Ok(7));
}

#[test]
fn voter_argument_wrong_format() {
    let mut map = new_settings();
    for bad in ["1:2:3", "a:1:2:en", "1:2:3:EN", "1:2:3:en ", ":1:2:en", "1:-2:3:en"] {
        assert_eq!(
            voter::parse(&mut map, bad),
            Some(Err(format!("Can't check \"{}\" as OwnerID:PollID:ChatID:lang.", bad)))
        );
    }
    assert_eq!(map.len(), 0);
    assert_eq!(voter::check("1:2:3:en"), Some(Ok(())));
    assert_eq!(
        voter::check("x"),
        Some(Err(String::from("Can't check \"x\" as OwnerID:PollID:ChatID:lang.")))
    );
}

#[test]
fn voter_argument_owner_out_of_range() {
    let mut map = new_settings();
    assert_eq!(
        voter::parse(&mut map, "99999999999999999999:1:2:en"),
        Some(Err(String::from("Can't parse i64 from \"99999999999999999999\".")))
    );
    assert_eq!(map.len(), 0);
}

#[test]
fn voter_argument_poll_out_of_range_keeps_owner() {
    let mut map = new_settings();
    assert_eq!(
        voter::parse(&mut map, "1:99999999999999999999:2:en"),
        Some(Err(String::from("Can't parse u64 from \"99999999999999999999\".")))
    );
    assert_eq!(map.get("voter::owner_id").unwrap().as_i64(), Ok(1));
    assert_eq!(map.len(), 1);
}

#[test]
fn voter_argument_chat_out_of_range() {
    let mut map = new_settings();
    assert_eq!(
        voter::parse(&mut map, "1:2:18446744073709551616:en"),
        Some(Err(String::from("Can't parse u64 from \"18446744073709551616\".")))
    );
    assert_eq!(map.len(), 2);
}

#[test]
fn voter_argument_unicode_digits() {
    // `\d` matches any Unicode decimal digit, but integers are read from ASCII digits only.
    let mut map = new_settings();
    assert_eq!(
        voter::parse(&mut map, "\u{0661}:2:3:en"),
        Some(Err(String::from("Can't parse i64 from \"\u{0661}\".")))
    );
}

#[test]
fn config_file_read() {
    let mut map = new_settings();
    let text = "token: abc\nvoter: \"5:6:7:de\"\n";
    assert_eq!(parse_yaml(&mut map, "config.yml", Some(text)), Some(Ok(())));
    assert_eq!(get_str(&map, "token"), Some(String::from("abc")));
    assert_eq!(map.get("voter::owner_id").unwrap().as_i64(), Ok(5));
    assert_eq!(get_str(&map, "voter::lang"), Some(String::from("de")));
}

#[test]
fn config_file_without_voter() {
    let mut map = new_settings();
    assert_eq!(parse_yaml(&mut map, "c.yml", Some("token: t\nvoter: 5\n")), Some(Ok(())));
    assert_eq!(get_str(&map, "token"), Some(String::from("t")));
    assert!(!map.contains_key("voter"));
    assert_eq!(map.len(), 1);
}

#[test]
fn config_file_errors() {
    let mut map = new_settings();
    assert_eq!(
        parse_yaml(&mut map, "c.yml", None),
        Some(Err(String::from("Can't open file \"c.yml\".")))
    );
    assert_eq!(
        parse_yaml(&mut map, "c.yml", Some("key: [unclosed")),
        Some(Err(String::from("Can't load config \"c.yml\"")))
    );
    assert_eq!(
        parse_yaml(&mut map, "c.yml", Some("token: 12\n")),
        Some(Err(String::from("Token in config file required!")))
    );
    assert_eq!(
        parse_yaml(&mut map, "c.yml", Some("other: x\n")),
        Some(Err(String::from("Token in config file required!")))
    );
    assert_eq!(map.len(), 0);
    // A text without any document: there is no first document to read.
    assert_eq!(parse_yaml(&mut map, "c.yml", Some("")), None);
}

#[test]
fn config_file_with_bad_voter() {
    let mut map = new_settings();
    assert_eq!(
        parse_yaml(&mut map, "c.yml", Some("token: t\nvoter: nope\n")),
        Some(Err(String::from("Can't check \"nope\" as OwnerID:PollID:ChatID:lang.")))
    );
    assert_eq!(get_str(&map, "token"), Some(String::from("t")));
}

#[test]
fn command_line_options() {
    let mut map = new_settings();
    assert_eq!(parse_matches(&mut map, Some("1:2:3:en"), Some("out.yml")), Some(Ok(())));
    assert_eq!(get_str(&map, "out"), Some(String::from("out.yml")));
    assert_eq!(map.get("voter::chat_id").unwrap().as_u64(), Ok(3));
    let mut map2 = new_settings();
    assert_eq!(
        parse_matches(&mut map2, Some("bad"), Some("out.yml")),
        Some(Err(String::from("Can't check \"bad\" as OwnerID:PollID:ChatID:lang.")))
    );
    assert!(!map2.contains_key("out"));
    let mut map3 = new_settings();
    assert_eq!(parse_matches(&mut map3, None, None), Some(Ok(())));
    assert_eq!(map3.len(), 0);
}

#[test]
fn command_line_overrides_config() {
    let mut map = new_settings();
    let text = "token: abc\nvoter: \"5:6:7:de\"\n";
    assert_eq!(parse(&mut map, "config.yml", Some(text), Some("8:9:10:en"), None), Some(Ok(())));
    assert_eq!(map.get("voter::owner_id").unwrap().as_i64(), Ok(8));
    assert_eq!(get_str(&map, "voter::lang"), Some(String::from("en")));
    let mut map2 = new_settings();
    assert_eq!(
        parse(&mut map2, "config.yml", None, Some("8:9:10:en"), None),
        Some(Err(String::from("Can't open file \"config.yml\".")))
    );
    assert!(!map2.contains_key("voter"));
}

#[test]
fn run_dispatch() {
    let mut map = new_settings();
    assert_eq!(parse(&mut map, "c.yml", Some("token: tk\n"), None, None), Some(Ok(())));
    assert_eq!(token(&map), Some(String::from("tk")));
    assert!(matches!(call(&map), Some(Command::Nothing)));
    assert_eq!(parse_matches(&mut map, Some("-1:2:3:en"), Some("report.txt")), Some(Ok(())));
    match call(&map) {
        Some(Command::Voter(job)) => {
            assert_eq!(job.owner_id, -1);
            assert_eq!(job.poll_id, 2);
            assert_eq!(job.chat_id, 3);
            assert_eq!(job.lang, "en");
            assert_eq!(job.out, Some(String::from("report.txt")));
        }
        _ => panic!("expected the voter tool"),
    }
}

#[test]
fn run_dispatch_missing_entries() {
    let map = new_settings();
    assert_eq!(token(&map), None);
    let mut map2 = new_settings();
    map2.insert(String::from("voter"), Value::Bool(true));
    assert!(call(&map2).is_none());
}

#[test]
fn written_ids_read_back() {
    for (o, p) in [(i64::MIN, u64::MAX), (0, 0), (-1, 1), (i64::MAX, 12345)] {
        let arg = format!("{}:{}:{}:en", i64_to_string(o), u64_to_string(p), u64_to_string(p));
        let mut map = new_settings();
        assert_eq!(voter::parse(&mut map, &arg), Some(Ok(())));
        assert_eq!(map.get("voter::owner_id").unwrap().as_i64(), Ok(o));
        assert_eq!(map.get("voter::poll_id").unwrap().as_u64(), Ok(p));
    }
}
