use std::collections::HashSet;

use vm_pool::clock::{
    now_ms, now_us, reading_to_micros, reading_to_millis, to_micros, to_millis,
};
use vm_pool::path::FilePath;
use vm_pool::protocol::{decode_json_line, encode_json_line, Priority, VmConfig, VmId};
use vm_pool::text::{is_white_space, push_decimal, push_hex, push_hex_fixed, same_text, trim};

#[test]
fn vm_id_display() {
    let id = VmId::new("vm-abc123");
    assert_eq!(id.to_string(), "vm-abc123");
    assert_eq!(id.as_str(), "vm-abc123");
}

#[test]
fn vm_id_equality_and_hash() {
    let a = VmId::new("vm-1");
    let b = VmId::from("vm-1".to_string());
    let c: VmId = "vm-1".into();
    assert_eq!(a, b);
    assert_eq!(b, c);
    assert_ne!(a, VmId::new("vm-2"));
    let mut set = HashSet::new();
    set.insert(a);
    assert!(set.contains(&b));
}

#[test]
fn vm_config_defaults() {
    let config = VmConfig::default();
    assert_eq!(config.cpus, None);
    assert_eq!(config.memory_mb, None);
    assert_eq!(config.priority, Priority::Normal);
    assert!(config.env.is_empty());
}

#[test]
fn encode_decode_json_line() {
    let mut ping = serde_json::Map::new();
    ping.insert("type".to_string(), serde_json::Value::from("ping"));
    let cmd = serde_json::Value::Object(ping);
    let line = encode_json_line(serde_json::to_string(&cmd).unwrap());
    assert!(line.ends_with('\n'));
    assert!(!line[..line.len() - 1].contains('\n'));
    let parsed: serde_json::Value = serde_json::from_str(decode_json_line(&line)).unwrap();
    assert_eq!(parsed, cmd);
}

#[test]
fn line_feeds_in_strings_stay_inside_the_line() {
    let mut map = serde_json::Map::new();
    map.insert("data".to_string(), serde_json::Value::from("a\nb\r\n"));
    let value = serde_json::Value::Object(map);
    let line = encode_json_line(serde_json::to_string(&value).unwrap());
    assert_eq!(line.find('\n'), Some(line.len() - 1));
    let padded = format!(" \t{}\r\n ", line);
    let parsed: serde_json::Value = serde_json::from_str(decode_json_line(&padded)).unwrap();
    assert_eq!(parsed, value);
}

#[test]
fn white_space_is_what_unicode_says() {
    let white: Vec<char> = ('\0'..='\u{ffff}').filter(|c| trim(&c.to_string()).is_empty()).collect();
    assert_eq!(white.len(), 25);
    assert!(('\0'..='\u{10ffff}').all(|c| is_white_space(c) == c.is_whitespace()));
    assert_eq!(white[..6], ['\t', '\n', '\u{b}', '\u{c}', '\r', ' ']);
    assert_eq!(white[24], '\u{3000}');
}

#[test]
fn decoding_cuts_white_space() {
    assert_eq!(decode_json_line(" \t{\"a\": 1}\r\n"), "{\"a\": 1}");
    assert_eq!(decode_json_line("\u{2003}x y\u{a0}\n"), "x y");
    assert_eq!(decode_json_line("\n"), "");
    assert_eq!(trim(""), "");
}

#[test]
fn priorities_are_ranked() {
    let levels = [Priority::Low, Priority::Normal, Priority::High, Priority::Critical];
    let names: Vec<String> = levels.iter().map(|p| p.to_string()).collect();
    assert_eq!(names, vec!["low", "normal", "high", "critical"]);
    for (i, level) in levels.iter().enumerate() {
        assert_eq!(level.rank() as usize, i);
    }
    assert!(Priority::Low < Priority::Critical);
    assert_eq!(Priority::default(), Priority::Normal);
}

#[test]
fn numerals() {
    for n in [0, 9, 10, 255, 4096, u64::MAX] {
        let mut out = "n=".to_string();
        push_decimal(&mut out, n);
        assert_eq!(out, format!("n={}", n));
        let mut out = String::new();
        push_hex(&mut out, n);
        assert_eq!(out, format!("{:x}", n));
        let mut out = String::new();
        push_hex_fixed(&mut out, n, 16);
        assert_eq!(out, format!("{:016x}", n));
    }
}

#[test]
fn paths_are_joined() {
    let join = |base: &str, name: &str| FilePath::new(base).join(name).to_text().unwrap();
    for (base, name) in
        [("/a", "b"), ("/a/", "b"), ("", "b"), ("/a", "/b"), ("/a", ""), ("\u{e4}", "\u{fc}")]
    {
        assert_eq!(join(base, name), std::path::Path::new(base).join(name).to_str().unwrap());
    }
    assert_eq!(join("/a", "b"), "/a/b");
    let odd = FilePath::from_bytes(vec![b'/', 0xff]);
    assert_eq!(odd.to_text(), None);
    assert_eq!(odd.display(), "/\u{fffd}");
    assert_eq!(odd.clone().join("b").as_bytes(), b"/\xff/b");
}

#[test]
fn texts_are_compared() {
    assert!(same_text("", ""));
    assert!(same_text("\u{e4}b", "\u{e4}b"));
    assert!(!same_text("ab", "ac"));
    assert!(!same_text("ab", "abc"));
}

#[test]
fn clock_readings() {
    assert_eq!(to_millis(1, 999_999_999), 1_999);
    assert_eq!(to_micros(1, 999_999_999), 1_999_999);
    assert_eq!(to_millis(u64::MAX, 0), 0u64.wrapping_sub(1_000));
    assert_eq!(reading_to_millis(Some((2, 3_999_999))), Some(2_003));
    assert_eq!(reading_to_micros(Some((2, 3_999_999))), Some(2_003_999));
    assert_eq!(reading_to_millis(None), None);
    assert_eq!(reading_to_micros(None), None);
    let ms = now_ms().unwrap();
    let us = now_us().unwrap();
    assert!(us / 1_000 >= ms);
    assert!(us / 1_000 - ms < 60_000);
}
