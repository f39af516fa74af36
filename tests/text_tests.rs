use lothaire::text::{
    contains_text, find_record, join_texts, record_fields, sort_texts, split_text, text_eq,
    text_le_exec, texts_eq,
};

fn strings(v: &[&str]) -> Vec<String> {
    v.iter().map(|s| s.to_string()).collect()
}

#[test]
fn split_text_single_and_multi_char() {
    assert_eq!(split_text("a:b::c", ":"), strings(&["a", "b", "", "c"]));
    assert_eq!(split_text("", ","), strings(&[""]));
    assert_eq!(split_text("a---b---", "---"), strings(&["a", "b", ""]));
    assert_eq!(split_text("-----", "---"), strings(&["", "--"]));
    assert_eq!(split_text("x\ny\n", "\n"), strings(&["x", "y", ""]));
}

#[test]
fn record_fields_trims_the_line() {
    assert_eq!(record_fields("  root:x:0:  \r"), strings(&["root", "x", "0", ""]));
    assert_eq!(record_fields("\tgroup1:x:2001:a,b\n"), strings(&["group1", "x", "2001", "a,b"]));
}

#[test]
fn find_record_takes_the_first_match() {
    let lines = strings(&["a:1", "b:2", "a:3"]);
    assert_eq!(find_record(&lines, "a"), Some(strings(&["a", "1"])));
    assert_eq!(find_record(&lines, "c"), None);
}

#[test]
fn text_comparisons() {
    assert!(text_eq("abc", "abc"));
    assert!(!text_eq("abc", "abd"));
    assert!(!text_eq("ab", "abc"));
    assert!(text_le_exec("ab", "abc"));
    assert!(!text_le_exec("b", "abc"));
    assert!(text_le_exec("", ""));
    assert!(contains_text(&strings(&["x", "y"]), "y"));
    assert!(!contains_text(&strings(&["x", "y"]), "z"));
    assert!(texts_eq(&strings(&["x", "y"]), &strings(&["x", "y"])));
    assert!(!texts_eq(&strings(&["x", "y"]), &strings(&["y", "x"])));
}

#[test]
fn sort_and_join() {
    let sorted = sort_texts(&strings(&["floppy", "cdrom", "audio", "cdrom"]));
    assert_eq!(sorted, strings(&["audio", "cdrom", "cdrom", "floppy"]));
    assert_eq!(sort_texts(&strings(&["b", "B", "a"])), strings(&["B", "a", "b"]));
    assert_eq!(join_texts(&strings(&["cdrom", "floppy"]), ","), "cdrom,floppy");
    assert_eq!(join_texts(&strings(&[]), ","), "");
}
