use colorctl::registry::Registry;
use colorctl::render::render;
use colorctl::utility::Vars;

fn vars_of(pairs: &[(&str, &str)]) -> Vars {
    let mut vars: Vars = Registry::new();
    for (k, v) in pairs {
        vars.set(k.to_string(), v.to_string());
    }
    vars
}

#[test]
fn renders_known_and_reports_unknown() {
    let vars = vars_of(&[("color", "ff0000")]);
    let out = render("background: $[color]; border: $[missing]", &vars);
    assert_eq!(out.text, "background: ff0000; border: ");
    assert_eq!(out.resolved, vec!["color".to_string()]);
    assert_eq!(out.unknown, vec!["missing".to_string()]);
}

#[test]
fn single_placeholder_defined() {
    let vars = vars_of(&[("x", "value")]);
    let out = render("$[x]", &vars);
    assert_eq!(out.text, "value");
    assert_eq!(out.resolved, vec!["x".to_string()]);
    assert!(out.unknown.is_empty());
}

#[test]
fn single_placeholder_undefined() {
    let vars = vars_of(&[]);
    let out = render("$[x]", &vars);
    assert_eq!(out.text, "");
    assert!(out.resolved.is_empty());
    assert_eq!(out.unknown, vec!["x".to_string()]);
}

#[test]
fn plain_text_is_copied() {
    let vars = vars_of(&[("x", "value")]);
    let text = "no placeholders here: $ [x] $x [x] ]$[\n\tline two\n";
    let out = render(text, &vars);
    assert_eq!(out.text, text);
    assert!(out.resolved.is_empty());
    assert!(out.unknown.is_empty());
}

#[test]
fn empty_template_renders_empty() {
    let out = render("", &vars_of(&[("x", "1")]));
    assert_eq!(out.text, "");
}

#[test]
fn rendering_twice_gives_the_same() {
    let vars = vars_of(&[("a", "1"), ("b", "two")]);
    let template = "x=$[a] y=$[b] z=$[c] $[a]";
    let first = render(template, &vars);
    let second = render(template, &vars);
    assert_eq!(first.text, "x=1 y=two z= 1");
    assert_eq!(first.text, second.text);
    assert_eq!(first.resolved, second.resolved);
    assert_eq!(first.unknown, second.unknown);
}

#[test]
fn unknown_names_are_reported_per_occurrence() {
    let out = render("$[u] $[u] $[k] $[u]", &vars_of(&[("k", "K")]));
    assert_eq!(out.text, "  K ");
    assert_eq!(out.unknown, vec!["u".to_string(), "u".to_string(), "u".to_string()]);
    assert_eq!(out.resolved, vec!["k".to_string()]);
}

#[test]
fn empty_name_is_no_placeholder() {
    let out = render("a $[] b", &vars_of(&[("", "never")]));
    assert_eq!(out.text, "a $[] b");
    assert!(out.unknown.is_empty());
}

#[test]
fn unclosed_placeholder_stays() {
    let out = render("a $[name b", &vars_of(&[("name", "v")]));
    assert_eq!(out.text, "a $[name b");
}

#[test]
fn first_closing_bracket_ends_the_name() {
    let vars = vars_of(&[("a", "A"), ("a$[b", "nested")]);
    let out = render("$[a$[b]]", &vars);
    assert_eq!(out.text, "nested]");
    let out = render("$[a]]", &vars);
    assert_eq!(out.text, "A]");
}

#[test]
fn values_are_not_scanned_again() {
    let vars = vars_of(&[("outer", "$[inner]"), ("inner", "deep")]);
    let out = render("<$[outer]>", &vars);
    assert_eq!(out.text, "<$[inner]>");
    assert_eq!(out.resolved, vec!["outer".to_string()]);
}

#[test]
fn names_may_hold_spaces_and_newlines() {
    let vars = vars_of(&[("two words", "ok"), ("a\nb", "nl")]);
    let out = render("$[two words]/$[a\nb]", &vars);
    assert_eq!(out.text, "ok/nl");
}

#[test]
fn text_beyond_ascii_is_kept() {
    let vars = vars_of(&[("farbe", "grün"), ("ключ", "значение")]);
    let out = render("é$[farbe]→$[ключ]✓", &vars);
    assert_eq!(out.text, "égrün→значение✓");
}

#[test]
fn dollar_before_placeholder_stays() {
    let out = render("$$[x]$[", &vars_of(&[("x", "1")]));
    assert_eq!(out.text, "$1$[");
}

fn by_pattern(template: &str, vars: &Vars) -> String {
    let re = regex::Regex::new(r"\$\[([^\]]+)\]").unwrap();
    re.replace_all(template, |caps: &regex::Captures| match vars.get(&caps[1]) {
        Some(v) => v.clone(),
        None => String::new(),
    })
    .to_string()
}

#[test]
fn agrees_with_the_pattern() {
    let vars = vars_of(&[("a", "1"), ("b c", "22"), ("$[", "x"), ("[", "y")]);
    let templates = [
        "",
        "$",
        "$[",
        "$[]",
        "$[]]",
        "$[a]",
        "$[a]$[a]$[b c]",
        "$[$[]",
        "$[[]",
        "$[a$[a]]",
        "]$[a]$[",
        "$[zz] $[a",
        "$a] [a] $ [a] $[\n]",
        "€$[a]€$[€]€",
    ];
    for t in templates {
        assert_eq!(render(t, &vars).text, by_pattern(t, &vars), "template {:?}", t);
    }
}
