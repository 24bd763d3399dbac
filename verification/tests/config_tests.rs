use argvus_storage::config::{
    apply_json, config_paths, parse_config_text, strip_comments, user_config_dir, Config,
    JsonValue,
};

fn obj(members: Vec<(&str, JsonValue)>) -> JsonValue {
    JsonValue::Object(members.into_iter().map(|(k, v)| (k.to_string(), v)).collect())
}

fn s(v: &str) -> JsonValue {
    JsonValue::Str(v.to_string())
}

#[test]
fn strip_line_comments() {
    let s = "{\n  // a comment\n  \"key\": \"value\" /* block */\n}";
    let out = strip_comments(s);
    let v: serde_json::Value = serde_json::from_str(&out).unwrap();
    assert_eq!(v["key"], "value");
}

#[test]
fn comments_inside_strings_preserved() {
    let s = "{\"url\": \"https:////example\", \"path\": \"/a/*b*/c\"}";
    let out = strip_comments(s);
    let v: serde_json::Value = serde_json::from_str(&out).unwrap();
    assert_eq!(v["url"], "https:////example");
    assert_eq!(v["path"], "/a/*b*/c");
}

#[test]
fn utf8_preserved() {
    let s = "{\"glyph\": \"\u{f053}\"}";
    let out = strip_comments(s);
    let v: serde_json::Value = serde_json::from_str(&out).unwrap();
    assert_eq!(v["glyph"], "\u{f053}");
}

#[test]
fn defaults_apply() {
    let cfg = Config::default();
    assert_eq!(cfg.sort, "mount_time");
    assert_eq!(cfg.format, "{icon}");
    assert_eq!(cfg.file_manager_command, "xdg-open");
    assert_eq!(cfg.icons_mounted, "\u{f0a0}");
}

#[test]
fn mode_parsed_from_json() {
    let mut cfg = Config::default();
    let v = obj(vec![("mode", s("gui"))]);
    apply_json(&mut cfg, &v);
    assert_eq!(cfg.mode, "gui");
    assert_eq!(Config::default().mode, "rofi");
}

#[test]
fn strip_comments_exact_output() {
    assert_eq!(strip_comments("a // c\nb"), "a \nb");
    assert_eq!(strip_comments("a /* c */b"), "a b");
    assert_eq!(strip_comments("a /* open"), "a ");
    assert_eq!(strip_comments("\"//\" // x"), "\"//\" ");
    assert_eq!(strip_comments("\"a\\\"//b\" /**/"), "\"a\\\"//b\" ");
    assert_eq!(strip_comments("/*/ x */y"), "y");
    assert_eq!(strip_comments("/"), "/");
}

#[test]
fn later_documents_override_earlier() {
    let docs = vec![
        obj(vec![("mode", s("gui")), ("sort", s("name"))]),
        obj(vec![("mode", s("rofi-x"))]),
        JsonValue::Array(vec![]),
    ];
    let cfg = Config::load(&docs);
    assert_eq!(cfg.mode, "rofi-x");
    assert_eq!(cfg.sort, "name");
    assert_eq!(cfg.menu, "rofi");
}

#[test]
fn wrong_types_are_ignored() {
    let mut cfg = Config::default();
    apply_json(
        &mut cfg,
        &obj(vec![
            ("show_name", s("yes")),
            ("mode", JsonValue::Bool(true)),
            ("max_devices", JsonValue::Number(None)),
            ("hide_when_empty", JsonValue::Bool(false)),
        ]),
    );
    assert!(!cfg.show_name);
    assert_eq!(cfg.mode, "rofi");
    assert_eq!(cfg.max_devices, 0);
    assert!(!cfg.hide_when_empty);
}

#[test]
fn max_devices_truncates_to_i32() {
    let mut cfg = Config::default();
    apply_json(&mut cfg, &obj(vec![("max_devices", JsonValue::Number(Some(3)))]));
    assert_eq!(cfg.max_devices, 3);
    apply_json(&mut cfg, &obj(vec![("max_devices", JsonValue::Number(Some(4_294_967_298)))]));
    assert_eq!(cfg.max_devices, 2);
}

#[test]
fn open_command_sets_file_manager_unless_given() {
    let mut cfg = Config::default();
    apply_json(&mut cfg, &obj(vec![("open_command", s("nautilus"))]));
    assert_eq!(cfg.open_command, "nautilus");
    assert_eq!(cfg.file_manager_command, "nautilus");
    let mut cfg = Config::default();
    apply_json(
        &mut cfg,
        &obj(vec![("open_command", s("nautilus")), ("file_manager_command", s("thunar"))]),
    );
    assert_eq!(cfg.file_manager_command, "thunar");
}

#[test]
fn icons_from_nested_object() {
    let mut cfg = Config::default();
    apply_json(
        &mut cfg,
        &obj(vec![("icons", obj(vec![("mounted", s("M")), ("read_only", s("R"))]))]),
    );
    assert_eq!(cfg.icons_mounted, "M");
    assert_eq!(cfg.icons_read_only, "R");
    assert_eq!(cfg.icons_unmounted, "\u{f0a0}");
}

#[test]
fn user_dir_prefers_xdg() {
    let x = Some("/x".to_string());
    let h = Some("/home/u".to_string());
    assert_eq!(user_config_dir(&x, &h), Some("/x/argvus-storage".to_string()));
    assert_eq!(
        user_config_dir(&Some(String::new()), &h),
        Some("/home/u/.config/argvus-storage".to_string())
    );
    assert_eq!(user_config_dir(&None, &Some(String::new())), None);
}

#[test]
fn config_paths_in_precedence_order() {
    let dir = Some("/home/u/.config/argvus-storage".to_string());
    assert_eq!(
        config_paths(&dir, "/tmp/c.json"),
        vec![
            "/etc/argvus-storage/config.json".to_string(),
            "/home/u/.config/argvus-storage/config.json".to_string(),
            "/tmp/c.json".to_string()
        ]
    );
    assert_eq!(config_paths(&None, ""), vec!["/etc/argvus-storage/config.json".to_string()]);
}

#[test]
fn theme_paths_next_to_explicit_config() {
    let dir = Some("/u".to_string());
    assert_eq!(
        Config::theme_css_paths(&dir, "/home/u/conf/config.json"),
        vec![
            "/etc/argvus-storage/theme.css".to_string(),
            "/u/theme.css".to_string(),
            "/home/u/conf/theme.css".to_string()
        ]
    );
    assert_eq!(
        Config::theme_css_paths(&None, "config.json"),
        vec!["/etc/argvus-storage/theme.css".to_string()]
    );
    assert_eq!(
        Config::theme_css_paths(&None, ""),
        vec!["/etc/argvus-storage/theme.css".to_string()]
    );
}

#[test]
fn config_texts_load_in_order_and_report_invalid_ones() {
    let texts = vec![
        Some("{\"mode\": \"gui\", \"sort\": \"name\"} // system".to_string()),
        None,
        Some("{ not json".to_string()),
        Some("{\"sort\": \"size\", /* explicit */ \"max_devices\": 3}".to_string()),
    ];
    let (cfg, errors) = Config::load_texts(&texts);
    assert_eq!(cfg.mode, "gui");
    assert_eq!(cfg.sort, "size");
    assert_eq!(cfg.max_devices, 3);
    assert_eq!(errors.len(), 1);
    assert_eq!(errors[0].0, 2);
    assert!(!errors[0].1.is_empty());
}

#[test]
fn config_text_parsing() {
    match parse_config_text("{\"icons\": {\"mounted\": \"M\"}, \"n\": 1.5, \"k\": [null, true]} // end") {
        Ok(JsonValue::Object(members)) => {
            assert_eq!(members.len(), 3);
            let n = members.iter().find(|(k, _)| k == "n").unwrap();
            assert!(matches!(n.1, JsonValue::Number(None)));
            let k = members.iter().find(|(k, _)| k == "k").unwrap();
            assert!(matches!(&k.1, JsonValue::Array(items) if items.len() == 2));
        }
        _ => panic!("expected an object"),
    }
    assert!(parse_config_text("[1, 2").is_err());
    let (cfg, _) = Config::load_texts(&vec![Some("{\"icons\": {\"mounted\": \"M\"}}".to_string())]);
    assert_eq!(cfg.icons_mounted, "M");
}

#[test]
fn stripping_twice_is_stripping_once() {
    for s in [
        "a /* x */ b // y\nc",
        "/\"/*not*/\"/",
        "\"esc \\\" // kept\" // gone",
        "/*a*//*b*/x",
        "a*/*x*//b",
        "no slashes \"at all\"",
    ] {
        let once = strip_comments(s);
        assert_eq!(strip_comments(&once), once);
        assert!(once.chars().count() <= s.chars().count());
    }
    assert_eq!(strip_comments("no slashes \"at all\""), "no slashes \"at all\"");
}
