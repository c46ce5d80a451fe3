use kozutsumi::text::{has_prefix, join_with, split_lines, str_eq, trim};

fn strings(v: &[&str]) -> Vec<String> {
    v.iter().map(|s| s.to_string()).collect()
}

#[test]
fn trim_strips_surrounding_blanks() {
    assert_eq!(trim("  work \t\n"), "work".to_string());
    assert_eq!(trim("work"), "work".to_string());
    assert_eq!(trim(" \n\t "), String::new());
    assert_eq!(trim(""), String::new());
    assert_eq!(trim(" a b "), "a b".to_string());
}

#[test]
fn split_lines_one_part_per_line() {
    assert_eq!(split_lines("work\nhome"), strings(&["work", "home"]));
    assert_eq!(split_lines("solo"), strings(&["solo"]));
    assert_eq!(split_lines(""), strings(&[""]));
    assert_eq!(split_lines("a\n\nb"), strings(&["a", "", "b"]));
}

#[test]
fn join_with_separator() {
    assert_eq!(join_with(&strings(&["a", "b", "c"]), ", "), "a, b, c".to_string());
    assert_eq!(join_with(&strings(&["a"]), ", "), "a".to_string());
    assert_eq!(join_with(&Vec::new(), ", "), String::new());
}

#[test]
fn prefix_and_equality_checks() {
    assert!(has_prefix("sh:echo", "sh:"));
    assert!(!has_prefix("shell", "sh:"));
    assert!(!has_prefix("s", "sh:"));
    assert!(str_eq("work", "work"));
    assert!(!str_eq("work", "home"));
}
