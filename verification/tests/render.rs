use fs_librarian::template::{render_text, Template};

fn vars(pairs: &[(&str, &str)]) -> Vec<(String, String)> {
    let mut v: Vec<(String, String)> = Vec::new();
    for (key, val) in pairs {
        v.push((key.to_string(), val.to_string()));
    }
    v
}

#[test]
fn test_render() {
    let ok_test_cases: Vec<(&str, Vec<(String, String)>, &str)> = vec![
        (
            "Test {{ var_1 }} before {{ var_2 }}.",
            vars(&[("var_1", "hello"), ("var_2", "world")]),
            "Test hello before world.",
        ),
        (
            "Just {{ var_1 }}.",
            vars(&[("var_1", "hello"), ("var_2", "world")]),
            "Just hello.",
        ),
    ];

    for cur_test_case in ok_test_cases.iter() {
        let cur_template = Template::new(cur_test_case.0.to_string()).unwrap();
        assert_eq!(
            cur_template.render(&cur_test_case.1).unwrap(),
            cur_test_case.2
        );
    }

    let err_test_cases: Vec<(&str, Vec<(String, String)>, &str)> = vec![(
        "Test {{ var_1 }} before {{ var_2 }}.",
        vars(&[("var_1", "hello")]),
        "templating error occurred",
    )];

    for cur_test_case in err_test_cases.iter() {
        let cur_template = Template::new(cur_test_case.0.to_string()).unwrap();
        assert!(cur_template
            .render(&cur_test_case.1)
            .unwrap_err()
            .to_message()
            .contains(cur_test_case.2));
    }
}

#[test]
fn test_render_is_idempotent() {
    let data = vars(&[("file_path", "/tmp/a.flac"), ("mime_type", "audio/flac")]);
    let template = Template::new("cp {{ file_path }} /dest # {{ mime_type }}".to_string()).unwrap();
    let first = template.render(&data).unwrap();
    let second = template.render(&data).unwrap();
    assert_eq!(first, second);
    assert_eq!(first, "cp /tmp/a.flac /dest # audio/flac");
}

#[test]
fn test_render_trims_reference_spaces() {
    let data = vars(&[("x", "1")]);
    assert_eq!(render_text("a{{x}}b", &data).unwrap(), "a1b");
    assert_eq!(render_text("a{{   x   }}b", &data).unwrap(), "a1b");
}

#[test]
fn test_render_unclosed_reference_fails() {
    let data = vars(&[("x", "1")]);
    assert!(render_text("a{{x", &data).is_err());
    assert!(render_text("{{", &data).is_err());
}

#[test]
fn test_render_bad_name_fails() {
    let data = vars(&[("x", "1"), ("a b", "2")]);
    assert!(render_text("{{ a b }}", &data).is_err());
    assert!(render_text("{{ }}", &data).is_err());
    assert!(render_text("{{}}", &data).is_err());
}

#[test]
fn test_render_missing_variable_fails() {
    let data = vars(&[("x", "1")]);
    assert!(render_text("{{ y }}", &data).is_err());
}

#[test]
fn test_render_literal_braces_pass_through() {
    let data = vars(&[("x", "1")]);
    assert_eq!(render_text("{ x }", &data).unwrap(), "{ x }");
    assert_eq!(render_text("a } } b", &data).unwrap(), "a } } b");
    assert_eq!(render_text("", &data).unwrap(), "");
}

#[test]
fn test_render_empty_value() {
    let data = vars(&[("x", "")]);
    assert_eq!(render_text("[{{ x }}]", &data).unwrap(), "[]");
}
