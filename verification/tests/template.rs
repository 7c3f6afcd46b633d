use filetest::classifier::{Arg, Param};
use filetest::reporter::{Anchor, Diagnostic, Reporter};
use filetest::template::{declare, Declaration, Signature};

fn at(anchor: Anchor, message: &str) -> Diagnostic {
    Diagnostic { anchor, message: message.to_string() }
}

fn signature(names: &[&str], output: Option<&str>) -> Signature {
    Signature {
        name: "check".to_string(),
        params: names.iter().map(|name| Param::Named(name.to_string())).collect(),
        output: output.map(|text| text.to_string()),
    }
}

#[test]
fn a_pattern_and_a_signature_make_a_declaration() {
    let mut reporter = Reporter::new();
    let declared = declare(Ok("files/*".to_string()), Ok(signature(&["path", "text"], Some("bool"))), &mut reporter);
    assert!(reporter.is_empty());
    assert_eq!(
        declared,
        Some(Declaration {
            name: "check".to_string(),
            args: vec![Arg::Path, Arg::Text],
            output: Some("bool".to_string()),
            pattern: "files/*".to_string(),
        })
    );
}

#[test]
fn no_parameters_are_reported_and_still_declared() {
    let mut reporter = Reporter::new();
    let declared = declare(Ok("*".to_string()), Ok(signature(&[], None)), &mut reporter);
    assert_eq!(reporter.emitted, vec![at(Anchor::Annotation, "no arguments declared")]);
    assert_eq!(
        declared,
        Some(Declaration { name: "check".to_string(), args: Vec::new(), output: None, pattern: "*".to_string() })
    );
}

#[test]
fn a_bad_annotation_is_reported_at_its_argument() {
    let mut reporter = Reporter::new();
    let declared = declare(Err("expected string literal".to_string()), Ok(signature(&["path"], None)), &mut reporter);
    assert_eq!(declared, None);
    assert_eq!(reporter.emitted, vec![at(Anchor::Pattern, "expected string literal")]);
}

#[test]
fn a_bad_item_is_reported_at_the_item() {
    let mut reporter = Reporter::new();
    let declared = declare(Ok("*".to_string()), Err("expected `fn`".to_string()), &mut reporter);
    assert_eq!(declared, None);
    assert_eq!(reporter.emitted, vec![at(Anchor::Template, "expected `fn`")]);
}

#[test]
fn both_faults_are_reported_the_annotation_first() {
    let mut reporter = Reporter::new();
    let declared = declare(Err("bad literal".to_string()), Err("bad item".to_string()), &mut reporter);
    assert_eq!(declared, None);
    assert_eq!(reporter.emitted, vec![at(Anchor::Pattern, "bad literal"), at(Anchor::Template, "bad item")]);
}

#[test]
fn a_bad_annotation_does_not_hide_missing_parameters() {
    let mut reporter = Reporter::new();
    let declared = declare(Err("bad literal".to_string()), Ok(signature(&[], None)), &mut reporter);
    assert_eq!(declared, None);
    assert_eq!(reporter.emitted, vec![at(Anchor::Pattern, "bad literal"), at(Anchor::Annotation, "no arguments declared")]);
}

#[test]
fn an_unknown_parameter_is_no_fault_of_the_declaration() {
    let mut reporter = Reporter::new();
    let declared = declare(Ok("*".to_string()), Ok(signature(&["input"], None)), &mut reporter).unwrap();
    assert!(reporter.is_empty());
    assert_eq!(declared.args, vec![Arg::Illegal(at(Anchor::Parameter(0), "invalid argument for filetest"))]);
}

#[test]
fn contents_are_read_for_bytes_and_for_text() {
    let declaration =
        |args: Vec<Arg>| Declaration { name: "t".to_string(), args, output: None, pattern: "*".to_string() };
    assert!(declaration(vec![Arg::Bytes]).reads_contents());
    assert!(declaration(vec![Arg::Text]).reads_contents());
    assert!(declaration(vec![Arg::Path, Arg::Path, Arg::Text]).reads_contents());
    assert!(declaration(vec![Arg::Illegal(at(Anchor::Parameter(0), "x")), Arg::Bytes]).reads_contents());
}

#[test]
fn contents_are_not_read_for_a_path_alone() {
    let declaration =
        |args: Vec<Arg>| Declaration { name: "t".to_string(), args, output: None, pattern: "*".to_string() };
    assert!(!declaration(Vec::new()).reads_contents());
    assert!(!declaration(vec![Arg::Path]).reads_contents());
    assert!(!declaration(vec![Arg::Path, Arg::Illegal(at(Anchor::Parameter(1), "x"))]).reads_contents());
}

#[test]
fn a_repeated_name_is_illegal_in_the_declaration() {
    let mut reporter = Reporter::new();
    let declared = declare(Ok("*".to_string()), Ok(signature(&["path", "path"], None)), &mut reporter).unwrap();
    assert!(reporter.is_empty());
    assert_eq!(
        declared.args,
        vec![Arg::Path, Arg::Illegal(at(Anchor::Parameter(1), "duplicate argument for filetest"))]
    );
}

#[test]
fn a_repeated_name_asks_for_no_contents() {
    let mut reporter = Reporter::new();
    let declared = declare(Ok("*".to_string()), Ok(signature(&["path", "path"], None)), &mut reporter).unwrap();
    assert!(!declared.reads_contents());
}
