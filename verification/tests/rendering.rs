use haxonite::utils::{render_response_body, template_renders_in_memory, AUTHORS, VERSION};

#[test]
fn templates_show_version_and_authors() {
    let template = "{\n  \"version\": \"{{ haxonite_version }}\",\n  \"authors\": \"{{{ haxonite_authors }}}\"\n}\n";
    let expected = format!("{{\n  \"version\": \"{}\",\n  \"authors\": \"{}\"\n}}\n", VERSION, AUTHORS);
    assert_eq!(render_response_body(template), Some(expected));
}

#[test]
fn plain_text_is_left_as_it_is() {
    assert_eq!(render_response_body("{\"ok\": true}"), Some("{\"ok\": true}".to_string()));
    assert_eq!(render_response_body("{\"a\": {\"b\": 1}}"), Some("{\"a\": {\"b\": 1}}".to_string()));
    assert_eq!(render_response_body(""), Some(String::new()));
    assert_eq!(render_response_body("zażółć"), Some("zażółć".to_string()));
}

#[test]
fn unknown_keys_render_empty() {
    assert_eq!(render_response_body("a{{ nothing }}b"), Some("ab".to_string()));
}

#[test]
fn templates_that_rustache_cannot_take_are_not_rendered() {
    for template in [
        "{{}}",
        "{{{}}}",
        "{{!comment}}",
        "text {{!comment}}",
        "{{> partial}}",
        "{{ä}}",
        "{{{ é}}}",
        "x{{}}y",
    ] {
        assert!(!template_renders_in_memory(template), "{}", template);
        assert_eq!(render_response_body(template), None, "{}", template);
    }
}

#[test]
fn ordinary_templates_render_in_memory() {
    for template in ["", "plain", "{{ a }}", "{{{ a }}}", "{{& a }}", "{{#s}}x{{/s}}", "{{^s}}x{{/s}}", "{{", "}}"] {
        assert!(template_renders_in_memory(template), "{}", template);
        assert!(render_response_body(template).is_some(), "{}", template);
    }
}
