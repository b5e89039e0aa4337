use genai::condition::evaluate_if;
use genai::context::ExecutionContext;
use genai::templating::render_template;

fn ctx(pairs: &[(&str, &str)]) -> ExecutionContext {
    let mut c = ExecutionContext::new();
    for (k, v) in pairs {
        c.set(k, v);
    }
    c
}

#[test]
fn renders_known_and_unknown_keys() {
    let c = ctx(&[("name", "world")]);
    assert_eq!(render_template("hello {{name}}!", &c), "hello world!");
    assert_eq!(render_template("hello {{ name }}!", &c), "hello world!");
    assert_eq!(render_template("[{{missing}}]", &c), "[]");
}

#[test]
fn plain_text_renders_unchanged() {
    let c = ExecutionContext::new();
    let s = "no placeholders { here } {{ }} {{a b}} {x}";
    assert_eq!(render_template(s, &c), s);
}

#[test]
fn rendering_plain_text_twice_is_stable() {
    let c = ctx(&[("a", "1")]);
    let t = "just text";
    let once = render_template(t, &c);
    assert_eq!(render_template(&once, &c), once);
}

#[test]
fn substituted_text_is_not_expanded_again() {
    let c = ctx(&[("a", "{{b}}"), ("b", "deep")]);
    assert_eq!(render_template("{{a}}", &c), "{{b}}");
}

#[test]
fn keys_allow_dash_underscore_digits() {
    let c = ctx(&[("my-key_1", "v")]);
    assert_eq!(render_template("{{my-key_1}}", &c), "v");
    assert_eq!(render_template("{{{my-key_1}}}", &c), "{v}");
}

#[test]
fn empty_guard_follows_the_variable() {
    let empty = ctx(&[("x", "")]);
    let absent = ExecutionContext::new();
    let set = ctx(&[("x", "value")]);
    assert!(evaluate_if("{{x}} == ''", &empty));
    assert!(evaluate_if("{{x}} == ''", &absent));
    assert!(!evaluate_if("{{x}} == ''", &set));
}

#[test]
fn nonempty_guard_and_equality() {
    let c = ctx(&[("x", "yes"), ("mode", "fast")]);
    assert!(evaluate_if("{{x}} != ''", &c));
    assert!(!evaluate_if("{{y}} != ''", &c));
    assert!(evaluate_if("{{mode}} == 'fast'", &c));
    assert!(evaluate_if("  {{mode}}   ==   fast  ", &c));
    assert!(!evaluate_if("{{mode}} == 'slow'", &c));
}

#[test]
fn unrecognised_guard_is_false() {
    let c = ctx(&[("x", "1")]);
    assert!(!evaluate_if("{{x}} > 0", &c));
    assert!(!evaluate_if("", &c));
}

#[test]
fn context_last_write_wins() {
    let mut c = ExecutionContext::new();
    assert_eq!(c.get("k"), None);
    c.set("k", "one");
    c.set("other", "x");
    c.set("k", "two");
    assert_eq!(c.get("k").map(|s| s.as_str()), Some("two"));
    assert_eq!(c.as_map().len(), 2);
}
