use adventure_script::text::{split_name, str_eq};

#[test]
fn str_eq_compares_text() {
    assert!(str_eq("", ""));
    assert!(str_eq("goto", "goto"));
    assert!(!str_eq("goto", "gotO"));
    assert!(!str_eq("goto", "got"));
    assert!(!str_eq("got", "goto"));
    assert!(!str_eq("", "a"));
    assert!(str_eq("héllo wörld", "héllo wörld"));
    assert!(!str_eq("héllo", "hello"));
}

#[test]
fn split_name_without_dot() {
    assert_eq!(split_name("goto"), ("", "goto"));
    assert_eq!(split_name(""), ("", ""));
}

#[test]
fn split_name_at_first_dot() {
    assert_eq!(split_name("mod.cmd"), ("mod", "cmd"));
    assert_eq!(split_name("a.b.c"), ("a", "b.c"));
    assert_eq!(split_name(".cmd"), ("", "cmd"));
    assert_eq!(split_name("mod."), ("mod", ""));
    assert_eq!(split_name("."), ("", ""));
    assert_eq!(split_name(".."), ("", "."));
}

#[test]
fn split_name_counts_characters() {
    assert_eq!(split_name("módulo.orden"), ("módulo", "orden"));
    assert_eq!(split_name("日本.語.x"), ("日本", "語.x"));
}
