use client::util::{
    append_query_to_url, fields_from_pairs, fields_of_query, parse_section, process_redirect_url,
    text_to_map,
};
use client::text::{chars_of, is_whitespace, strip_escape, strip_quotes, trim};
use client::{FieldMap, LoginError};
use std::collections::HashMap;

fn same(expected: &HashMap<String, String>, found: &FieldMap) -> bool {
    expected.len() == found.len()
        && expected.iter().all(|(key, value)| found.get(key) == Some(value))
}

fn field(fields: &FieldMap, key: &str) -> Option<String> {
    fields.get(key).cloned()
}

fn serialize(pairs: &[(&str, &str)]) -> String {
    let mut text = String::new();
    for (key, value) in pairs {
        text.push_str(key);
        text.push_str(" = ");
        text.push_str(value);
        text.push(';');
    }
    text
}

#[test]
fn test_process_redirect_url() {
    let redirect_url = String::from("https://wx.qq.com/cgi-bin/mmwebwx-bin/webwxnewloginpage?ticket=ARD37_ikx-Kakd2i0W-f-E7q@qrticket_0&uuid=4f6yOkV4AA==&lang=zh_CN&scan=1548300672");
    let result = process_redirect_url(&redirect_url).unwrap();
    println!("result is {:?}", result.len());
    assert_eq!(result.len(), 4);
    assert_eq!(field(&result, "ticket"), Some("ARD37_ikx-Kakd2i0W-f-E7q@qrticket_0".to_string()));
    assert_eq!(field(&result, "uuid"), Some("4f6yOkV4AA==".to_string()));
    assert_eq!(field(&result, "lang"), Some("zh_CN".to_string()));
    assert_eq!(field(&result, "scan"), Some("1548300672".to_string()));
}

#[test]
fn test_text_to_map() {
    let result = text_to_map("window.QRLogin.code = 200; window.QRLogin.uuid = \"oeZfYakK6g==\";");
    let mut expected: HashMap<String, String> = HashMap::new();
    expected.insert("window.QRLogin.code".to_string(), "200".to_string());
    expected.insert("window.QRLogin.uuid".to_string(), "oeZfYakK6g==".to_string());
    assert!(same(&expected, &result));

    let result = text_to_map("window.code=201;");
    let mut expected: HashMap<String, String> = HashMap::new();
    expected.insert("window.code".to_string(), "201".to_string());
    assert!(same(&expected, &result));

    let result = text_to_map("window.code=200;\nwindow.redirect_uri=\"https://wx.qq.com/cgi-bin/mmwebwx-bin/webwxnewloginpage?ticket=AVTK4m8A8ThyfrYZKuoHiY6i@qrticket_0&uuid=YZeXOrjTMw==&lang=zh_CN&scan=1648884679\";");
    expected.insert("window.code".to_string(), "200".to_string());
    expected.insert("window.redirect_uri".to_string(), "https://wx.qq.com/cgi-bin/mmwebwx-bin/webwxnewloginpage?ticket=AVTK4m8A8ThyfrYZKuoHiY6i@qrticket_0&uuid=YZeXOrjTMw==&lang=zh_CN&scan=1648884679".to_string());
    assert!(same(&expected, &result));
}

#[test]
fn qr_issuance_reply_gives_code_and_uuid() {
    let result =
        text_to_map("window.QRLogin.code = 200; window.QRLogin.uuid = \"AZJIzIcS5g==\";");
    assert_eq!(result.len(), 2);
    assert_eq!(field(&result, "window.QRLogin.code"), Some("200".to_string()));
    assert_eq!(field(&result, "window.QRLogin.uuid"), Some("AZJIzIcS5g==".to_string()));
}

#[test]
fn scanned_reply_gives_code() {
    let result = text_to_map("window.code=201;");
    assert_eq!(result.len(), 1);
    assert_eq!(field(&result, "window.code"), Some("201".to_string()));
    assert!(!result.contains_key("window.redirect_uri"));
}

#[test]
fn empty_text_gives_no_field() {
    assert!(text_to_map("").is_empty());
    assert_eq!(text_to_map("").len(), 0);
    assert!(text_to_map("   ").is_empty());
    assert!(text_to_map(";").is_empty());
}

#[test]
fn missing_final_semicolon_is_accepted() {
    let result = text_to_map("a=1;b=2");
    assert_eq!(result.len(), 2);
    assert_eq!(field(&result, "a"), Some("1".to_string()));
    assert_eq!(field(&result, "b"), Some("2".to_string()));
}

#[test]
fn section_without_equals_stops_reading() {
    let result = text_to_map("a=1;junk;b=2;");
    assert_eq!(result.len(), 1);
    assert_eq!(field(&result, "a"), Some("1".to_string()));
    assert!(!result.contains_key("b"));

    let result = text_to_map("a=1;;b=2;");
    assert_eq!(result.len(), 1);
    assert!(!result.contains_key("b"));
}

#[test]
fn later_duplicate_key_wins() {
    let result = text_to_map("a=1;b=2;a=3;");
    assert_eq!(result.len(), 2);
    assert_eq!(field(&result, "a"), Some("3".to_string()));
    assert_eq!(field(&result, "b"), Some("2".to_string()));
}

#[test]
fn value_keeps_later_equals_signs() {
    let result = text_to_map("uuid = AZJIzIcS5g==;k=a = b;");
    assert_eq!(field(&result, "uuid"), Some("AZJIzIcS5g==".to_string()));
    assert_eq!(field(&result, "k"), Some("a = b".to_string()));
}

#[test]
fn empty_key_and_empty_value_are_entries() {
    let result = text_to_map("=x; y = ;");
    assert_eq!(result.len(), 2);
    assert_eq!(field(&result, ""), Some("x".to_string()));
    assert_eq!(field(&result, "y"), Some("".to_string()));
}

#[test]
fn separator_takes_all_whitespace_around_equals() {
    let result = text_to_map("  a \t =\n  1  ;\r\n b\u{3000}=\u{a0}\u{85}2\u{2003};");
    assert_eq!(result.len(), 2);
    assert_eq!(field(&result, "a"), Some("1".to_string()));
    assert_eq!(field(&result, "b"), Some("2".to_string()));
}

#[test]
fn characters_that_are_no_whitespace_stay() {
    let result = text_to_map("a\u{200b}=\u{200b}1;\u{feff}b=2;");
    assert_eq!(field(&result, "a\u{200b}"), Some("\u{200b}1".to_string()));
    assert_eq!(field(&result, "\u{feff}b"), Some("2".to_string()));
}

#[test]
fn interior_whitespace_of_key_and_value_stays() {
    let result = text_to_map("first key = some value;");
    assert_eq!(field(&result, "first key"), Some("some value".to_string()));
}

#[test]
fn quoted_value_loses_its_quotes() {
    let result = text_to_map("a = \"inner text\";");
    assert_eq!(field(&result, "a"), Some("inner text".to_string()));
    assert_eq!(strip_quotes("\"inner text\""), "inner text");
    assert_eq!(strip_quotes("\"\""), "");
    assert_eq!(strip_quotes("\"a\"b\""), "a\"b");
    assert_eq!(strip_quotes("\"\"x\"\""), "\"x\"");
}

#[test]
fn unquoted_value_passes_unchanged() {
    let result = text_to_map("a = plain;b = \"open;c = close\";d = mid\"dle;");
    assert_eq!(field(&result, "a"), Some("plain".to_string()));
    assert_eq!(field(&result, "b"), Some("\"open".to_string()));
    assert_eq!(field(&result, "c"), Some("close\"".to_string()));
    assert_eq!(field(&result, "d"), Some("mid\"dle".to_string()));
    assert_eq!(strip_quotes("plain"), "plain");
    assert_eq!(strip_quotes(""), "");
    assert_eq!(strip_quotes("'a'"), "'a'");
}

#[test]
fn lone_quote_is_no_pair() {
    assert_eq!(strip_quotes("\""), "\"");
    let result = text_to_map("a = \";");
    assert_eq!(field(&result, "a"), Some("\"".to_string()));
}

#[test]
fn leading_escape_is_dropped() {
    let result = text_to_map("window.code=200;\\nwindow.redirect_uri=\"https://host/p?ticket=T\";");
    assert_eq!(result.len(), 2);
    assert_eq!(field(&result, "window.code"), Some("200".to_string()));
    assert_eq!(field(&result, "window.redirect_uri"), Some("https://host/p?ticket=T".to_string()));
    assert!(!result.contains_key("nwindow.redirect_uri"));
    assert_eq!(strip_escape("\\nkey=1"), "key=1");
    assert_eq!(strip_escape("\\n"), "");
}

#[test]
fn escape_is_dropped_once_and_only_at_the_start() {
    assert_eq!(strip_escape("\\n\\nkey"), "\\nkey");
    assert_eq!(strip_escape("key\\n"), "key\\n");
    assert_eq!(strip_escape("\\"), "\\");
    assert_eq!(strip_escape("\\m"), "\\m");
    assert_eq!(strip_escape("n\\"), "n\\");
    assert_eq!(strip_escape("\nkey"), "\nkey");
    assert_eq!(strip_escape(""), "");
    let result = text_to_map("  \\nkey = 1;");
    assert_eq!(field(&result, "key"), Some("1".to_string()));
}

#[test]
fn trim_drops_whitespace_at_both_ends() {
    assert_eq!(trim("  a b \t\n"), "a b");
    assert_eq!(trim("\u{3000}x\u{2028}"), "x");
    assert_eq!(trim("   "), "");
    assert_eq!(trim(""), "");
    assert_eq!(trim("x"), "x");
    assert_eq!(trim("\u{200b} x"), "\u{200b} x");
}

#[test]
fn whitespace_is_what_std_calls_whitespace() {
    let mut code: u32 = 0;
    while code <= 0x11_0000 {
        if let Some(c) = char::from_u32(code) {
            assert_eq!(is_whitespace(c), c.is_whitespace(), "U+{:04X}", code);
        }
        code += 1;
    }
}

#[test]
fn chars_of_gives_every_character() {
    assert_eq!(chars_of("a=é;"), vec!['a', '=', 'é', ';']);
    assert_eq!(chars_of(""), Vec::<char>::new());
}

#[test]
fn parse_section_gives_key_and_value() {
    assert_eq!(
        parse_section(" window.QRLogin.uuid = \"AZJIzIcS5g==\" "),
        Some(("window.QRLogin.uuid".to_string(), "AZJIzIcS5g==".to_string()))
    );
    assert_eq!(parse_section("\\na=b"), Some(("a".to_string(), "b".to_string())));
    assert_eq!(parse_section("no separator"), None);
    assert_eq!(parse_section(""), None);
    assert_eq!(parse_section("="), Some(("".to_string(), "".to_string())));
    assert_eq!(parse_section(" a  =  = b "), Some(("a".to_string(), "= b".to_string())));
}

#[test]
fn round_trip_reproduces_the_mapping() {
    let pairs = [
        ("window.code", "200"),
        ("name", "value with spaces"),
        ("k-3", ""),
        ("", "empty key"),
        ("a.b.c", "x\"y"),
    ];
    let result = text_to_map(&serialize(&pairs));
    assert_eq!(result.len(), pairs.len());
    for (key, value) in pairs {
        assert_eq!(field(&result, key), Some(value.to_string()));
    }
}

#[test]
fn parsing_twice_gives_the_same_mapping() {
    let text = "window.code=200;window.redirect_uri=\"https://host/path?ticket=T1\";";
    let first = text_to_map(text);
    let second = text_to_map(text);
    assert_eq!(first.len(), second.len());
    for key in ["window.code", "window.redirect_uri", "absent"] {
        assert_eq!(first.get(key), second.get(key));
    }
}

#[test]
fn redirect_url_gives_its_query_fields() {
    let url = String::from("https://host/path?ticket=T1&uuid=U1&lang=zh_CN&scan=S1");
    let result = process_redirect_url(&url).unwrap();
    assert_eq!(result.len(), 4);
    assert_eq!(field(&result, "ticket"), Some("T1".to_string()));
    assert_eq!(field(&result, "uuid"), Some("U1".to_string()));
    assert_eq!(field(&result, "lang"), Some("zh_CN".to_string()));
    assert_eq!(field(&result, "scan"), Some("S1".to_string()));
}

#[test]
fn malformed_url_is_refused() {
    let result = process_redirect_url(&String::from("not a url"));
    assert!(matches!(result, Err(LoginError::MalformedUrl)));
    let result = process_redirect_url(&String::new());
    assert!(matches!(result, Err(LoginError::MalformedUrl)));
    let result = process_redirect_url(&String::from("ticket=T1&uuid=U1"));
    assert!(matches!(result, Err(LoginError::MalformedUrl)));
}

#[test]
fn url_without_query_gives_no_field() {
    let result = process_redirect_url(&String::from("https://host/path")).unwrap();
    assert!(result.is_empty());
    let result = process_redirect_url(&String::from("https://host/path?")).unwrap();
    assert!(result.is_empty());
    let result = process_redirect_url(&String::from("https://host/path?#ticket=T1")).unwrap();
    assert!(result.is_empty());
}

#[test]
fn redirect_query_is_decoded() {
    let url = String::from("https://host/path?name=a%20b+c&ticket=x%3Dy&k=1&k=2#frag=1");
    let result = process_redirect_url(&url).unwrap();
    assert_eq!(result.len(), 3);
    assert_eq!(field(&result, "name"), Some("a b c".to_string()));
    assert_eq!(field(&result, "ticket"), Some("x=y".to_string()));
    assert_eq!(field(&result, "k"), Some("2".to_string()));
    assert!(!result.contains_key("frag"));
}

#[test]
fn fields_from_pairs_lets_the_later_pair_win() {
    let pairs = vec![
        ("a".to_string(), "1".to_string()),
        ("b".to_string(), "2".to_string()),
        ("a".to_string(), "3".to_string()),
    ];
    let result = fields_from_pairs(&pairs);
    assert_eq!(result.len(), 2);
    assert_eq!(field(&result, "a"), Some("3".to_string()));
    assert_eq!(field(&result, "b"), Some("2".to_string()));
    assert!(fields_from_pairs(&Vec::new()).is_empty());
}

#[test]
fn fields_of_query_reads_a_form() {
    assert!(fields_of_query(None).unwrap().is_empty());
    assert!(fields_of_query(Some(String::new())).unwrap().is_empty());
    let result = fields_of_query(Some("ticket=T1&scan=S1".to_string())).unwrap();
    assert_eq!(result.len(), 2);
    assert_eq!(field(&result, "ticket"), Some("T1".to_string()));
    assert_eq!(field(&result, "scan"), Some("S1".to_string()));
}

#[test]
fn query_is_appended_behind_a_question_mark() {
    let query = serde_urlencoded::to_string([("tip", "1"), ("uuid", "AZJIzIcS5g==")]);
    assert_eq!(
        append_query_to_url("https://wx.qq.com/cgi-bin/mmwebwx-bin/login", query),
        "https://wx.qq.com/cgi-bin/mmwebwx-bin/login?tip=1&uuid=AZJIzIcS5g%3D%3D"
    );
    assert_eq!(append_query_to_url("http://h/p", Ok("a=1".to_string())), "http://h/p?a=1");
}

#[test]
fn empty_or_failed_query_leaves_the_url() {
    assert_eq!(append_query_to_url("http://h/p", Ok(String::new())), "http://h/p");
    let empty: [(&str, &str); 0] = [];
    assert_eq!(append_query_to_url("http://h/p", serde_urlencoded::to_string(empty)), "http://h/p");
    let failed = serde_urlencoded::to_string("no pairs");
    assert!(failed.is_err());
    assert_eq!(append_query_to_url("http://h/p", failed), "http://h/p");
}

#[test]
fn field_map_holds_what_was_inserted() {
    let mut fields = FieldMap::new();
    assert!(fields.is_empty());
    assert_eq!(fields.get("a"), None);
    fields.insert("a".to_string(), "1".to_string());
    fields.insert("b".to_string(), "2".to_string());
    fields.insert("a".to_string(), "3".to_string());
    assert_eq!(fields.len(), 2);
    assert!(!fields.is_empty());
    assert!(fields.contains_key("a"));
    assert!(!fields.contains_key("c"));
    assert_eq!(fields.get("a"), Some(&"3".to_string()));
    assert_eq!(fields.get("b"), Some(&"2".to_string()));
}

#[test]
fn leading_empty_section_stops_reading() {
    assert!(text_to_map(";a=1;").is_empty());
    assert!(text_to_map(" ;a=1;").is_empty());
}

#[test]
fn separator_and_trim_agree_on_every_whitespace_character() {
    let mut code: u32 = 0;
    let mut spaces = 0;
    while code <= 0x11_0000 {
        if let Some(c) = char::from_u32(code) {
            if is_whitespace(c) {
                spaces += 1;
                let section = format!("{}k{}={}v{}", c, c, c, c);
                assert_eq!(
                    parse_section(&section),
                    Some(("k".to_string(), "v".to_string())),
                    "U+{:04X}",
                    code
                );
            }
        }
        code += 1;
    }
    assert_eq!(spaces, 25);
}

#[test]
fn separator_leaves_characters_that_are_no_whitespace() {
    for c in ['\u{8}', '\u{e}', '\u{1f}', '!', '\u{84}', '\u{86}', '\u{9f}', '\u{a1}', '\u{180e}', '\u{1fff}', '\u{200b}', '\u{200c}', '\u{2027}', '\u{202a}', '\u{2060}', '\u{3001}', '\u{feff}'] {
        let section = format!("k{}={}v", c, c);
        assert_eq!(
            parse_section(&section),
            Some((format!("k{}", c), format!("{}v", c))),
            "U+{:04X}",
            c as u32
        );
    }
}
