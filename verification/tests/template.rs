use conformance_harness::manifest_template::{
    first_placeholder, pass, replace_template, EnvTemplate, Pass, TemplateError,
};

fn ports(key: &str, value: &str) -> Result<Option<String>, String> {
    if key != "port" {
        return Err(format!("unknown template key: {key}"));
    }
    match value {
        "80" => Ok(Some("8080".to_owned())),
        "5000" => Ok(Some("32768".to_owned())),
        _ => Err(format!("no port {value} exposed by any service")),
    }
}

#[test]
fn port_placeholder_is_replaced() {
    let mut text = "%{port=80}".to_owned();
    assert!(replace_template(&mut text, ports).is_ok());
    assert_eq!(text, "8080");
}

#[test]
fn unknown_key_is_an_error() {
    let mut text = "%{unknown=x}".to_owned();
    match replace_template(&mut text, ports) {
        Err(TemplateError::Resolver(message)) => {
            assert_eq!(message, "unknown template key: unknown")
        }
        _ => panic!("expected the resolver's failure"),
    }
    assert_eq!(text, "%{unknown=x}");
}

#[test]
fn text_without_placeholders_is_untouched() {
    let mut text = "address = \"127.0.0.1:3000\" # 100% {plain}".to_owned();
    let before = text.clone();
    assert!(replace_template(&mut text, ports).is_ok());
    assert_eq!(text, before);
    assert!(first_placeholder(&text).is_none());
}

#[test]
fn substitution_is_idempotent() {
    let mut text = "a=%{port=80}, b=%{port=5000}".to_owned();
    assert!(replace_template(&mut text, ports).is_ok());
    assert_eq!(text, "a=8080, b=32768");
    let once = text.clone();
    assert!(replace_template(&mut text, ports).is_ok());
    assert_eq!(text, once);
}

#[test]
fn key_and_value_are_trimmed() {
    let mut text = "x %{  port =  80 } y".to_owned();
    assert!(replace_template(&mut text, ports).is_ok());
    assert_eq!(text, "x 8080 y");
}

#[test]
fn value_is_split_at_the_first_equals_sign() {
    let mut text = "%{k=a=b}".to_owned();
    let r = replace_template(&mut text, |k: &str, v: &str| -> Result<Option<String>, String> {
        Ok(Some(format!("[{k}|{v}]")))
    });
    assert!(r.is_ok());
    assert_eq!(text, "[k|a=b]");
}

#[test]
fn placeholder_without_equals_sign_is_invalid() {
    let mut text = "before %{port} after".to_owned();
    match replace_template(&mut text, ports) {
        Err(TemplateError::Invalid { template }) => assert_eq!(template, "port"),
        _ => panic!("expected an invalid template"),
    }
    assert_eq!(text, "before %{port} after");
}

#[test]
fn empty_placeholder_is_invalid() {
    let mut text = "%{}".to_owned();
    match replace_template(&mut text, ports) {
        Err(TemplateError::Invalid { template }) => assert_eq!(template, ""),
        _ => panic!("expected an invalid template"),
    }
}

#[test]
fn declined_placeholder_stays() {
    let mut text = "%{source=app} on %{port=80}".to_owned();
    let r = replace_template(&mut text, |k: &str, v: &str| -> Result<Option<String>, String> {
        if k == "port" {
            ports(k, v)
        } else {
            Ok(None)
        }
    });
    assert!(r.is_ok());
    assert_eq!(text, "%{source=app} on 8080");
}

#[test]
fn placeholders_do_not_overlap() {
    let mut text = "%{a=%{port=80}}".to_owned();
    let r = replace_template(&mut text, |k: &str, v: &str| -> Result<Option<String>, String> {
        if k == "port" {
            ports(k, v)
        } else {
            Ok(None)
        }
    });
    assert!(r.is_ok());
    assert_eq!(text, "%{a=%{port=80}}");
    let p = first_placeholder(&text).unwrap();
    assert_eq!(p.before, "");
    assert_eq!(p.inner, "a=%{port=80");
    assert_eq!(p.after, "}");
}

#[test]
fn line_feed_ends_the_search_for_the_closing_brace() {
    let mut text = "%{port=\n80} %{port=80}".to_owned();
    assert!(replace_template(&mut text, ports).is_ok());
    assert_eq!(text, "%{port=\n80} 8080");
}

#[test]
fn carriage_return_is_part_of_a_placeholder() {
    let p = first_placeholder("a%{k=v\r}b").unwrap();
    assert_eq!(p.inner, "k=v\r");
}

#[test]
fn replacement_may_hold_a_placeholder() {
    let mut text = "%{outer=1}".to_owned();
    let r = replace_template(&mut text, |k: &str, v: &str| -> Result<Option<String>, String> {
        match k {
            "outer" => Ok(Some("<%{port=80}>".to_owned())),
            _ => ports(k, v),
        }
    });
    assert!(r.is_ok());
    assert_eq!(text, "<8080>");
}

#[test]
fn parts_are_cut_by_characters() {
    let p = first_placeholder("äöü € %{port=80} ñ").unwrap();
    assert_eq!(p.before, "äöü € ");
    assert_eq!(p.inner, "port=80");
    assert_eq!(p.after, " ñ");
    let mut text = "äöü € %{port=80} ñ".to_owned();
    assert!(replace_template(&mut text, ports).is_ok());
    assert_eq!(text, "äöü € 8080 ñ");
}

#[test]
fn percent_before_the_placeholder() {
    let p = first_placeholder("%%{a=b}").unwrap();
    assert_eq!(p.before, "%");
    assert_eq!(p.inner, "a=b");
    assert_eq!(p.after, "");
}

#[test]
fn one_pass_reports_the_first_decision() {
    match pass("x%{port=80}y%{port=5000}", &ports) {
        Pass::Replaced(new) => assert_eq!(new, "x8080y%{port=5000}"),
        _ => panic!("expected a replacement"),
    }
    match pass("nothing here", &ports) {
        Pass::Finished => {}
        _ => panic!("expected the pass to finish"),
    }
    match pass("%{oops}", &ports) {
        Pass::Invalid(t) => assert_eq!(t, "oops"),
        _ => panic!("expected an invalid template"),
    }
    match pass("%{port=1}", &ports) {
        Pass::Failed(m) => assert_eq!(m, "no port 1 exposed by any service"),
        _ => panic!("expected a failure"),
    }
}

#[test]
fn env_template_keeps_its_text() {
    let template = EnvTemplate::new("hello %{port=80}".to_owned()).unwrap();
    assert_eq!(template.contents(), "hello %{port=80}");
    assert_eq!(template.into_contents(), "hello %{port=80}");
}

#[test]
fn substitute_value_replaces_one_key() {
    let mut template =
        EnvTemplate::new("%{source=app} %{port=80} %{source=other}".to_owned()).unwrap();
    let r = template.substitute_value("source", |v: &str| {
        if v == "app" {
            Some("app.wasm".to_owned())
        } else {
            None
        }
    });
    assert!(r.is_ok());
    assert_eq!(template.contents(), "app.wasm %{port=80} %{source=other}");
}

#[test]
fn resolver_is_not_asked_without_placeholders() {
    let mut text = "plain { text } 50%".to_owned();
    let r = replace_template(&mut text, |_: &str, _: &str| -> Result<Option<String>, String> {
        panic!("the resolver is not asked")
    });
    assert!(r.is_ok());
    assert_eq!(text, "plain { text } 50%");
    let mut text = "%{first} %{port=80}".to_owned();
    let r = replace_template(&mut text, |_: &str, _: &str| -> Result<Option<String>, String> {
        panic!("the resolver is not asked")
    });
    assert!(matches!(r, Err(TemplateError::Invalid { .. })));
    assert_eq!(text, "%{first} %{port=80}");
}
