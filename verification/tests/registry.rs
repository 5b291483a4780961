use colorctl::handlers::{apps_ctl, selection, vars_ctl, Change, OpError};
use colorctl::text::{chars_of, find_from, join, string_of, trim};
use colorctl::registry::Registry;
use colorctl::utility::{AppEntry, Apps, Vars};

#[test]
fn set_then_get_gives_the_value() {
    let mut vars: Vars = Registry::new();
    vars.set("n".to_string(), "v".to_string());
    assert_eq!(vars.get("n"), Some(&"v".to_string()));
    vars.set("n".to_string(), "v2".to_string());
    assert_eq!(vars.get("n"), Some(&"v2".to_string()));
    assert_eq!(vars.len(), 1);
}

#[test]
fn get_of_absent_name_is_none() {
    let vars: Vars = Registry::new();
    assert_eq!(vars.len(), 0);
    assert!(vars.get("n").is_none());
    assert!(vars.position("n").is_none());
}

#[test]
fn listing_keeps_the_order_of_first_setting() {
    let mut vars: Vars = Registry::new();
    vars.set("b".to_string(), "1".to_string());
    vars.set("a".to_string(), "2".to_string());
    vars.set("b".to_string(), "3".to_string());
    assert_eq!(vars.len(), 2);
    assert_eq!(vars.name_at(0), "b");
    assert_eq!(vars.value_at(0), "3");
    assert_eq!(vars.name_at(1), "a");
    assert_eq!(vars.value_at(1), "2");
    assert_eq!(vars.position("a"), Some(1));
}

#[test]
fn remove_hands_out_the_value() {
    let mut vars: Vars = Registry::new();
    vars.set("a".to_string(), "1".to_string());
    vars.set("b".to_string(), "2".to_string());
    vars.set("c".to_string(), "3".to_string());
    assert_eq!(vars.remove("b"), Some("2".to_string()));
    assert_eq!(vars.len(), 2);
    assert_eq!(vars.name_at(0), "a");
    assert_eq!(vars.name_at(1), "c");
    assert!(vars.get("b").is_none());
}

#[test]
fn remove_of_absent_name_changes_nothing() {
    let mut vars: Vars = Registry::new();
    vars.set("a".to_string(), "1".to_string());
    assert_eq!(vars.remove("zz"), None);
    assert_eq!(vars.len(), 1);
    assert_eq!(vars.get("a"), Some(&"1".to_string()));
}

#[test]
fn vars_add_sets_name_and_value() {
    let mut vars: Vars = Registry::new();
    let r = vars_ctl("+color=ff0000", &mut vars);
    assert!(matches!(r, Ok(Change::Put { ref name }) if name == "color"));
    assert_eq!(vars.get("color"), Some(&"ff0000".to_string()));
    let r = vars_ctl("+color=00ff00", &mut vars);
    assert!(matches!(r, Ok(Change::Put { .. })));
    assert_eq!(vars.get("color"), Some(&"00ff00".to_string()));
    assert_eq!(vars.len(), 1);
}

#[test]
fn vars_value_starts_behind_the_first_equals_sign() {
    let mut vars: Vars = Registry::new();
    assert!(vars_ctl("+a=b=c", &mut vars).is_ok());
    assert_eq!(vars.get("a"), Some(&"b=c".to_string()));
    assert!(vars_ctl("+empty=", &mut vars).is_ok());
    assert_eq!(vars.get("empty"), Some(&String::new()));
}

#[test]
fn vars_add_without_equals_sign_is_a_usage_error() {
    let mut vars: Vars = Registry::new();
    vars.set("a".to_string(), "1".to_string());
    assert!(matches!(vars_ctl("+a", &mut vars), Err(OpError::Usage)));
    assert!(matches!(vars_ctl("+", &mut vars), Err(OpError::Usage)));
    assert_eq!(vars.len(), 1);
    assert_eq!(vars.get("a"), Some(&"1".to_string()));
}

#[test]
fn vars_remove_reports_what_it_did() {
    let mut vars: Vars = Registry::new();
    vars.set("a".to_string(), "1".to_string());
    let r = vars_ctl("-b", &mut vars);
    assert!(matches!(r, Err(OpError::NotFound { ref name }) if name == "b"));
    assert_eq!(vars.len(), 1);
    let r = vars_ctl("-a", &mut vars);
    assert!(matches!(r, Ok(Change::Removed { ref name }) if name == "a"));
    assert_eq!(vars.len(), 0);
}

#[test]
fn vars_operation_without_sign_is_unknown() {
    let mut vars: Vars = Registry::new();
    assert!(matches!(vars_ctl("a=1", &mut vars), Err(OpError::UnknownOperation)));
    assert!(matches!(vars_ctl("", &mut vars), Err(OpError::UnknownOperation)));
    assert_eq!(vars.len(), 0);
}

#[test]
fn apps_add_sets_template_and_target() {
    let mut apps: Apps = Registry::new();
    let r = apps_ctl("+term=~/.t.tmpl,~/.t", &mut apps);
    assert!(matches!(r, Ok(Change::Put { ref name }) if name == "term"));
    let entry = apps.get("term").unwrap();
    assert_eq!(entry.template, "~/.t.tmpl");
    assert_eq!(entry.target, "~/.t");
}

#[test]
fn apps_target_starts_behind_the_first_comma() {
    let mut apps: Apps = Registry::new();
    assert!(apps_ctl("+a=t,g,h=i", &mut apps).is_ok());
    let entry = apps.get("a").unwrap();
    assert_eq!(entry.template, "t");
    assert_eq!(entry.target, "g,h=i");
}

#[test]
fn apps_add_without_target_creates_nothing() {
    let mut apps: Apps = Registry::new();
    assert!(matches!(apps_ctl("+app=template", &mut apps), Err(OpError::Usage)));
    assert!(matches!(apps_ctl("+app", &mut apps), Err(OpError::Usage)));
    assert!(matches!(apps_ctl("+app,x", &mut apps), Err(OpError::Usage)));
    assert_eq!(apps.len(), 0);
    assert!(apps.get("app").is_none());
}

#[test]
fn apps_add_without_target_overwrites_nothing() {
    let mut apps: Apps = Registry::new();
    apps.set("app".to_string(), AppEntry { template: "t".to_string(), target: "g".to_string() });
    assert!(matches!(apps_ctl("+app=other", &mut apps), Err(OpError::Usage)));
    assert_eq!(apps.len(), 1);
    assert_eq!(apps.get("app").unwrap().template, "t");
    assert_eq!(apps.get("app").unwrap().target, "g");
}

#[test]
fn apps_remove_reports_what_it_did() {
    let mut apps: Apps = Registry::new();
    assert!(apps_ctl("+a=t,g", &mut apps).is_ok());
    let r = apps_ctl("-b", &mut apps);
    assert!(matches!(r, Err(OpError::NotFound { ref name }) if name == "b"));
    assert_eq!(apps.len(), 1);
    assert!(matches!(apps_ctl("-a", &mut apps), Ok(Change::Removed { .. })));
    assert_eq!(apps.len(), 0);
    assert!(matches!(apps_ctl("a", &mut apps), Err(OpError::UnknownOperation)));
}

#[test]
fn selection_is_the_trimmed_output_of_a_run_that_ended_well() {
    assert_eq!(selection(true, "term\n"), Some("term".to_string()));
    assert_eq!(selection(true, "  two words \t\n"), Some("two words".to_string()));
    assert_eq!(selection(true, ""), Some(String::new()));
    assert_eq!(selection(true, " \n "), Some(String::new()));
    assert_eq!(selection(false, "term\n"), None);
}

#[test]
fn trim_agrees_with_std() {
    for s in ["", " ", "a", " a", "a ", "\u{a0}a b\u{2003}\n", "\t\n x \r\n", "   "] {
        assert_eq!(trim(s), s.trim());
    }
}

#[test]
fn join_puts_the_separator_between_parts() {
    let parts = vec!["a".to_string(), "bc".to_string(), String::new(), "d".to_string()];
    assert_eq!(join(&parts, "\n"), "a\nbc\n\nd");
    assert_eq!(join(&parts, ""), "abcd");
    assert_eq!(join(&parts, ", "), "a, bc, , d");
    assert_eq!(join(&Vec::new(), "\n"), "");
    assert_eq!(join(&vec!["only".to_string()], "\n"), "only");
}

#[test]
fn joined_words_make_one_operation() {
    let mut vars: Vars = Registry::new();
    let words = vec!["+na".to_string(), "me=va".to_string(), "lue".to_string()];
    assert!(vars_ctl(&join(&words, ""), &mut vars).is_ok());
    assert_eq!(vars.get("name"), Some(&"value".to_string()));
}

#[test]
fn text_helpers_split_and_find() {
    let t = chars_of("ab=cd");
    assert_eq!(t, vec!['a', 'b', '=', 'c', 'd']);
    assert_eq!(find_from(&t, 0, '='), 2);
    assert_eq!(find_from(&t, 3, '='), 5);
    assert_eq!(find_from(&t, 2, '='), 2);
    assert_eq!(string_of(&t, 3, 5), "cd");
    assert_eq!(string_of(&t, 1, 1), "");
}

#[test]
fn vars_add_without_a_name_is_a_usage_error() {
    let mut vars: Vars = Registry::new();
    assert!(matches!(vars_ctl("+=v", &mut vars), Err(OpError::Usage)));
    assert!(matches!(vars_ctl("+=", &mut vars), Err(OpError::Usage)));
    assert_eq!(vars.len(), 0);
    assert!(vars.get("").is_none());
    vars.set("a".to_string(), "1".to_string());
    assert!(matches!(vars_ctl("+=a=2", &mut vars), Err(OpError::Usage)));
    assert_eq!(vars.len(), 1);
    assert_eq!(vars.get("a"), Some(&"1".to_string()));
}

#[test]
fn apps_add_with_a_comma_only_in_the_name_is_a_usage_error() {
    let mut apps: Apps = Registry::new();
    assert!(matches!(apps_ctl("+a,b=template", &mut apps), Err(OpError::Usage)));
    assert_eq!(apps.len(), 0);
}
