use argvus_storage::i18n::{detect, locale_rule, tr, Lang};

#[test]
fn tr_defaults_to_english_before_init() {
    assert_eq!(tr(Lang::default(), "available", "disponível"), "available");
}

#[test]
fn detect_reads_language_list_and_encoding_suffix() {
    assert_eq!(locale_rule("pt_BR.UTF-8"), Some(Lang::Pt));
    assert_eq!(locale_rule("pt_PT"), Some(Lang::Pt));
    assert_eq!(locale_rule("en_US.UTF-8"), Some(Lang::En));
    assert_eq!(locale_rule("es_ES.UTF-8"), Some(Lang::En));
    assert_eq!(locale_rule("C.UTF-8"), None);
    assert_eq!(locale_rule("POSIX"), None);
    assert_eq!(locale_rule("pt_BR:C"), Some(Lang::Pt));
}

#[test]
fn tr_portuguese() {
    assert_eq!(tr(Lang::Pt, "available", "disponível"), "disponível");
}

#[test]
fn locale_rule_uppercase_and_empty() {
    assert_eq!(locale_rule("PT_br"), Some(Lang::Pt));
    assert_eq!(locale_rule(""), None);
    assert_eq!(locale_rule(":pt"), None);
}

#[test]
fn detect_first_deciding_variable_wins() {
    let v = vec![None, Some("C".to_string()), Some("pt_BR.UTF-8".to_string()), Some("en_US".to_string())];
    assert_eq!(detect(&v), Lang::Pt);
    let v = vec![Some("en_GB.UTF-8".to_string()), None, Some("pt_BR".to_string()), None];
    assert_eq!(detect(&v), Lang::En);
    let v: Vec<Option<String>> = vec![None, None, None, None];
    assert_eq!(detect(&v), Lang::En);
    let v = vec![Some("POSIX".to_string()), Some("C".to_string()), None, None];
    assert_eq!(detect(&v), Lang::En);
}
