use serial_manager::alias::AliasRule;
use serial_manager::names::NameSet;
use serial_manager::text::{chars_of, contains_chars, ends_with_chars, matches_at, name_precedes,
    push_decimal, push_hex4, replace_name, same_name, starts_with_chars};

fn strings(names: &[&str]) -> Vec<String> {
    names.iter().map(|n| n.to_string()).collect()
}

fn letters(s: &str) -> Vec<char> {
    s.chars().collect()
}

#[test]
fn characters_of_a_string() {
    assert_eq!(chars_of("aé/"), vec!['a', 'é', '/']);
    assert!(chars_of("").is_empty());
}

#[test]
fn order_of_names_is_that_of_strings() {
    let samples = ["", "a", "A", "ab", "aa", "b", "B", "é", "e", "z", "~", "/dev/cu.1", "/dev/tty.1",
        "COM10", "COM2", "日本", "a日", "\u{10000}", "\u{ffff}"];
    for a in samples.iter() {
        for b in samples.iter() {
            assert_eq!(name_precedes(a, b), a < b);
            assert_eq!(same_name(a, b), a == b);
        }
    }
}

#[test]
fn search_in_names() {
    let s = letters("/dev/tty.usb.tty.");
    assert!(matches_at(&s, &letters("/dev"), 0));
    assert!(!matches_at(&s, &letters("/dev"), 1));
    assert!(matches_at(&s, &letters("tty."), 13));
    assert!(!matches_at(&s, &letters("tty."), 14));
    assert!(!matches_at(&s, &letters("x"), 40));
    assert!(matches_at(&s, &letters(""), 17));
    assert!(!matches_at(&s, &letters(""), 18));
    assert!(contains_chars(&s, &letters("usb")));
    assert!(contains_chars(&s, &letters("")));
    assert!(contains_chars(&s, &letters("tty.")));
    assert!(!contains_chars(&s, &letters("usb1")));
    assert!(!contains_chars(&letters("ab"), &letters("abc")));
    assert!(starts_with_chars(&s, &letters("/dev/tty.")));
    assert!(!starts_with_chars(&s, &letters("dev")));
    assert!(ends_with_chars(&s, &letters("tty.")));
    assert!(!ends_with_chars(&s, &letters("tty")));
    assert!(!ends_with_chars(&letters("y."), &letters("tty.")));
}

#[test]
fn replacing_as_strings_do() {
    let cases = [
        ("/dev/tty.usb1", "/dev/tty.", "/dev/cu."),
        ("/dev/tty./dev/tty.x", "/dev/tty.", "/dev/cu."),
        ("aaaa", "aa", "b"),
        ("aaa", "aa", "b"),
        ("abcabc", "bc", ""),
        ("abc", "abcd", "x"),
        ("", "a", "b"),
        ("xay", "a", "aa"),
        ("ééé", "é", "e"),
        ("no match here", "zz", "y"),
    ];
    for (name, from, to) in cases.iter() {
        assert_eq!(replace_name(name, &letters(from), to), name.replace(from, to));
    }
    assert_eq!(replace_name("/dev/tty.usb1", &letters("/dev/tty."), "/dev/cu."), "/dev/cu.usb1");
    assert_eq!(replace_name("abc", &letters(""), "x"), "abc");
}

#[test]
fn numbers_as_text() {
    let mut out = String::from("n=");
    push_decimal(&mut out, 0);
    assert_eq!(out, "n=0");
    for n in [1u64, 9, 10, 11, 99, 100, 12345, 4294967295, u64::MAX] {
        let mut out = String::new();
        push_decimal(&mut out, n);
        assert_eq!(out, format!("{}", n));
    }
    for v in [0u16, 1, 15, 16, 255, 256, 0x0403, 0xabcd, 0xffff] {
        let mut out = String::from("0x");
        push_hex4(&mut out, v);
        assert_eq!(out, format!("0x{:04x}", v));
    }
}

#[test]
fn name_set_holds_each_name_once_in_order() {
    let mut set = NameSet::new();
    assert_eq!(set.len(), 0);
    assert!(set.insert("m".to_string()));
    assert!(set.insert("a".to_string()));
    assert!(set.insert("z".to_string()));
    assert!(!set.insert("m".to_string()));
    assert!(set.insert("ma".to_string()));
    assert_eq!(set.len(), 4);
    assert_eq!(set.to_vec(), strings(&["a", "m", "ma", "z"]));
    assert!(set.contains("ma"));
    assert!(!set.contains("mb"));
    let other = NameSet::from_names(&strings(&["z", "b", "a", "b"]));
    assert_eq!(other.to_vec(), strings(&["a", "b", "z"]));
    assert_eq!(set.difference(&other), strings(&["m", "ma"]));
    assert_eq!(other.difference(&set), strings(&["b"]));
    assert!(set.difference(&set).is_empty());
    assert_eq!(set.difference(&NameSet::new()), strings(&["a", "m", "ma", "z"]));
    assert!(NameSet::new().difference(&set).is_empty());
}

#[test]
fn canonical_form_of_a_snapshot() {
    let rule = AliasRule::serial_devices();
    let raw = strings(&[
        "/dev/tty.usb1",
        "/dev/cu.usb1",
        "/dev/tty.usb2",
        "/dev/cu.usb3",
        "COM1",
        "/dev/cu.usb1",
    ]);
    assert_eq!(
        rule.canonicalize(&raw).to_vec(),
        strings(&["/dev/cu.usb1", "/dev/cu.usb3", "/dev/tty.usb2", "COM1"])
    );
    let all = NameSet::from_names(&raw);
    assert!(rule.shadows(&all, "/dev/tty.usb1"));
    assert!(!rule.shadows(&all, "/dev/tty.usb2"));
    assert!(!rule.shadows(&all, "/dev/cu.usb1"));
    assert!(!rule.shadows(&all, "COM1"));
    assert!(rule.canonicalize(&Vec::new()).to_vec().is_empty());
}

#[test]
fn marker_inside_a_name_counts() {
    let rule = AliasRule::new("in", "out").unwrap();
    let raw = strings(&["xinyin", "xoutyout", "xinyout", "in", "yin"]);
    assert_eq!(rule.canonicalize(&raw).to_vec(), strings(&["in", "xoutyout", "yin"]));
}
