use filetest::classifier::{classify, Arg, Param};
use filetest::reporter::{Anchor, Diagnostic};

fn named(name: &str) -> Param {
    Param::Named(name.to_string())
}

fn illegal(index: usize) -> Arg {
    Arg::Illegal(Diagnostic {
        anchor: Anchor::Parameter(index),
        message: "invalid argument for filetest".to_string(),
    })
}

#[test]
fn the_three_names_have_a_role() {
    assert_eq!(Arg::from_fnarg(0, &named("path")), Arg::Path);
    assert_eq!(Arg::from_fnarg(0, &named("bytes")), Arg::Bytes);
    assert_eq!(Arg::from_fnarg(0, &named("text")), Arg::Text);
}

#[test]
fn any_other_name_is_illegal() {
    assert_eq!(Arg::from_fnarg(0, &named("file")), illegal(0));
    assert_eq!(Arg::from_fnarg(1, &named("Path")), illegal(1));
    assert_eq!(Arg::from_fnarg(2, &named("path ")), illegal(2));
    assert_eq!(Arg::from_fnarg(3, &named("")), illegal(3));
    assert_eq!(Arg::from_fnarg(4, &named("r#path")), illegal(4));
    assert_eq!(Arg::from_fnarg(5, &named("texts")), illegal(5));
}

#[test]
fn a_parameter_without_a_name_is_illegal() {
    assert_eq!(Arg::from_fnarg(7, &Param::Unnamed), illegal(7));
}

#[test]
fn the_diagnostic_points_at_the_parameter() {
    match Arg::from_fnarg(2, &named("contents")) {
        Arg::Illegal(diagnostic) => {
            assert_eq!(diagnostic.anchor, Anchor::Parameter(2));
            assert_eq!(diagnostic.message, "invalid argument for filetest");
        }
        other => panic!("expected an illegal role, got {:?}", other),
    }
}

#[test]
fn classify_keeps_the_declared_order() {
    let params = vec![named("text"), named("path"), named("bytes")];
    assert_eq!(classify(&params), vec![Arg::Text, Arg::Path, Arg::Bytes]);
}

#[test]
fn classify_goes_by_the_name_and_not_by_the_place() {
    let params = vec![named("bytes"), named("oops"), Param::Unnamed, named("path")];
    assert_eq!(classify(&params), vec![Arg::Bytes, illegal(1), illegal(2), Arg::Path]);
}

#[test]
fn classify_of_no_parameters_is_empty() {
    assert_eq!(classify(&Vec::new()), Vec::new());
}

fn duplicate(index: usize) -> Arg {
    Arg::Illegal(Diagnostic {
        anchor: Anchor::Parameter(index),
        message: "duplicate argument for filetest".to_string(),
    })
}

#[test]
fn a_name_declared_twice_is_illegal_the_second_time() {
    let params = vec![named("path"), named("path")];
    assert_eq!(classify(&params), vec![Arg::Path, duplicate(1)]);
}

#[test]
fn every_later_declaration_of_a_name_is_illegal() {
    let params = vec![named("text"), named("bytes"), named("text"), named("path"), named("text"), named("bytes")];
    assert_eq!(
        classify(&params),
        vec![Arg::Text, Arg::Bytes, duplicate(2), Arg::Path, duplicate(4), duplicate(5)]
    );
}

#[test]
fn an_unknown_name_declared_twice_stays_an_invalid_argument() {
    let params = vec![named("file"), named("file"), Param::Unnamed, Param::Unnamed];
    assert_eq!(classify(&params), vec![illegal(0), illegal(1), illegal(2), illegal(3)]);
}

#[test]
fn names_that_differ_are_no_duplicates() {
    let params = vec![named("path"), named("Path"), named("bytes"), named("text")];
    assert_eq!(classify(&params), vec![Arg::Path, illegal(1), Arg::Bytes, Arg::Text]);
}

#[test]
fn a_parameter_alone_is_classified_by_its_name() {
    assert_eq!(Arg::from_fnarg(1, &named("path")), Arg::Path);
}

#[test]
fn parameters_are_alike_by_their_names() {
    assert!(named("path").same_as(&named("path")));
    assert!(!named("path").same_as(&named("text")));
    assert!(!named("path").same_as(&Param::Unnamed));
    assert!(!Param::Unnamed.same_as(&named("path")));
    assert!(Param::Unnamed.same_as(&Param::Unnamed));
}

#[test]
fn a_role_can_be_cloned() {
    assert_eq!(Arg::Bytes.clone(), Arg::Bytes);
    assert_eq!(illegal(3).clone(), illegal(3));
}
