use favetto::ids::new_password;
use favetto::json::{
    copied, find_str, is_true, owned, parse, parse_bytes, read_count, read_double, read_str,
    read_text, read_texts, Json,
};
use favetto::lines::{holds_line, split_line, take_line};
use favetto::model::Moment;
use favetto::paths::{extension, is_absolute, join, parts, same_path};
use favetto::table::Table;
use favetto::text::{
    chomp, contains, contains_any, ends_with, lines, link, replace, starts_with, text_before,
    texts, to_ascii_lower, to_decimal, trim, trim_end,
};

#[test]
fn values_are_read_as_they_are_written() {
    let value = parse(r#"{"b":[1,-2,0.5,true,null,"é"],"a":{"k":"v"}}"#).unwrap();
    assert_eq!(value.get2("a", "k").and_then(Json::as_str), Some("v"));
    let items = value.get("b").and_then(Json::as_array).unwrap();
    assert_eq!(items[0].as_u64(), Some(1));
    assert_eq!(items[1].as_u64(), None);
    assert_eq!(items[1].as_i64(), Some(-2));
    assert_eq!(items[2].as_double_bits(), Some(0.5f64.to_bits()));
    assert_eq!(items[3].as_bool(), Some(true));
    assert_eq!(items[4], Json::Null);
    assert_eq!(items[5].as_str(), Some("é"));
    assert!(value.is_object());
    assert_eq!(parse_bytes(br#"{"a":1}"#).unwrap().count("a"), 1);
    assert!(parse("{").is_none());
    assert!(!parse_bytes(b"{").unwrap_err().is_empty());
}

#[test]
fn absent_fields_have_their_defaults() {
    let value = parse(r#"{"s":"x","n":7,"t":true,"l":["a",1,"b"]}"#).unwrap();
    assert_eq!(read_text(value.get("s")), "x");
    assert_eq!(read_text(value.get("none")), "");
    assert_eq!(read_str(value.get("n")), None);
    assert_eq!(read_count(value.get("n")), 7);
    assert_eq!(read_count(value.get("s")), 0);
    assert!(is_true(value.get("t")));
    assert!(!is_true(value.get("none")));
    assert_eq!(read_double(value.get("n")), Some(7.0f64.to_bits()));
    assert_eq!(read_texts(value.get("l")), vec!["a", "b"]);
    assert_eq!(find_str(&value, &["none", "s"]), Some("x"));
    assert_eq!(copied(value.get("t")), Some(Json::Bool(true)));
    assert_eq!(owned(Some("x")).as_deref(), Some("x"));
    assert_eq!(value.clone(), value);
}

#[test]
fn texts_are_cut_and_joined() {
    assert_eq!(trim(" \t a b \n"), "a b");
    assert_eq!(trim_end(" a "), " a");
    assert_eq!(chomp("line\r\n"), "line");
    assert!(contains("abc", "bc"));
    assert!(!contains("abc", "cb"));
    assert!(starts_with("abc", "ab"));
    assert!(ends_with("abc", "bc"));
    assert_eq!(replace("a-b-a", "a", "xy"), "xy-b-xy");
    assert_eq!(replace("ab", "", "-"), "-a-b-");
    assert_eq!(to_decimal(0), "0");
    assert_eq!(to_decimal(u64::MAX), "18446744073709551615");
    assert_eq!(to_ascii_lower("AbÉ"), "abÉ");
    assert_eq!(lines("a\r\nb\n\nc"), vec!["a", "b", "", "c"]);
    assert_eq!(link(&texts(&["a", "b"]), ", "), "a, b");
    assert!(contains_any("abc", &["x", "c"]));
    assert!(text_before("a", "b"));
    assert!(text_before("a", "ab"));
    assert!(!text_before("b", "ab"));
}

#[test]
fn lines_are_taken_one_by_one() {
    let mut buffer = b"one\ntwo\nrest".to_vec();
    assert!(holds_line(&buffer));
    assert_eq!(take_line(&mut buffer).as_deref(), Some("one\n"));
    assert_eq!(split_line(&mut buffer), Some(b"two".to_vec()));
    assert_eq!(take_line(&mut buffer), None);
    assert_eq!(buffer, b"rest");
    let mut broken = vec![0xff, b'\n'];
    assert_eq!(take_line(&mut broken).as_deref(), Some("\u{fffd}\n"));
}

#[test]
fn paths_are_compared_by_their_parts() {
    assert!(is_absolute("/a"));
    assert!(!is_absolute("a"));
    assert_eq!(parts("/a//b/./c/"), vec!["a", "b", "c"]);
    assert!(same_path("/a//b", "/a/b/"));
    assert!(!same_path("/a", "a"));
    assert_eq!(join("/a", "b"), "/a/b");
    assert_eq!(join("/a/", "b"), "/a/b");
    assert_eq!(join("/a", "/b"), "/b");
    assert_eq!(extension("/a/b.tar.gz").as_deref(), Some("gz"));
    assert_eq!(extension("/a/.hidden"), None);
    assert_eq!(extension("/a/b"), None);
}

#[test]
fn tables_keep_one_value_per_key() {
    let mut table: Table<String> = Table::new();
    assert!(table.is_empty());
    table.insert("b".to_string(), "1".to_string());
    table.insert("a".to_string(), "2".to_string());
    table.insert("b".to_string(), "3".to_string());
    assert_eq!(table.entries().len(), 2);
    assert_eq!(table.get("b").map(String::as_str), Some("3"));
    assert_eq!(table.sorted_keys(), vec!["a", "b"]);
    assert_eq!(table.clone(), table);
    let mut other: Table<String> = Table::new();
    other.insert("a".to_string(), "2".to_string());
    other.insert("b".to_string(), "3".to_string());
    assert_eq!(other, table);
    assert_eq!(table.remove("b").as_deref(), Some("3"));
    assert!(!table.contains_key("b"));
    assert!(table.remove("b").is_none());
}

#[test]
fn passwords_are_random_digits() {
    let password = new_password();
    assert_eq!(password.len(), 64);
    assert!(password.chars().all(|c| c.is_ascii_hexdigit()));
    assert_ne!(password, new_password());
}

#[test]
fn moments_are_ordered() {
    let early = Moment { seconds: 1, nanos: 5 };
    let late = Moment { seconds: 1, nanos: 6 };
    assert!(late.is_at_or_after(&early));
    assert!(early.is_at_or_after(&early));
    assert!(!early.is_at_or_after(&late));
}
