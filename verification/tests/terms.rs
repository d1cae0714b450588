use rifimporter::entailment_map::Entailment;
use rifimporter::error::GenTermError;
use rifimporter::export_functions::replace_vars;
use rifimporter::extern_c_structs::{
    c2rust_rifterm, c2rust_riftermlist, CTermParts, RIF_TERM_TYPE_IRI, RIF_TERM_TYPE_LANGLITERAL,
    RIF_TERM_TYPE_LIST, RIF_TERM_TYPE_LOCAL, RIF_TERM_TYPE_TYPEDLITERAL,
};
use rifimporter::rifidata::{list_equal_or_valid_for_rifterm, RIFTerm};
use rifimporter::text::decimal;

fn iri(s: &str) -> RIFTerm {
    RIFTerm::IRI(s.to_string())
}

fn parts(t: u8, value: Option<&str>, suffix: Option<&str>) -> Option<CTermParts> {
    Some(CTermParts {
        term_type: t,
        value: value.map(|x| x.to_string()),
        suffix: suffix.map(|x| x.to_string()),
        items: None,
    })
}

#[test]
fn entailment_from_known_iris() {
    let ns = "http://www.w3.org/ns/entailment/";
    let cases = [
        ("Simple", Entailment::Simple),
        ("RDF", Entailment::RDF),
        ("RDFS", Entailment::RDFS),
        ("D", Entailment::D),
        ("OWL-RDF-Based", Entailment::OWLRDFBased),
        ("RIF", Entailment::RIF),
        ("OWL-Direct", Entailment::OWLDirect),
    ];
    for (name, e) in cases {
        assert_eq!(Entailment::from(&format!("{}{}", ns, name)), Some(e));
    }
}

#[test]
fn entailment_from_unknown_iri() {
    assert_eq!(Entailment::from("http://www.w3.org/ns/entailment/OWL"), None);
    assert_eq!(Entailment::from(""), None);
    assert_eq!(Entailment::from("http://www.w3.org/ns/entailment/rif"), None);
}

#[test]
fn var_accepts_any_term() {
    let targets = vec![
        iri("http://ex/a"),
        RIFTerm::TypedLiteral("1".to_string(), None),
        RIFTerm::LangLiteral("a".to_string(), "en".to_string()),
        RIFTerm::List(vec![iri("http://ex/a")]),
        RIFTerm::Local("x".to_string()),
        RIFTerm::Variable("x".to_string()),
        RIFTerm::Var,
    ];
    for t in &targets {
        assert!(RIFTerm::Var.equal_or_valid_for(t));
    }
}

#[test]
fn variable_matches_nothing() {
    let v = RIFTerm::Variable("x".to_string());
    assert!(!v.equal_or_valid_for(&RIFTerm::Variable("x".to_string())));
    assert!(!v.equal_or_valid_for(&iri("http://ex/a")));
    assert!(!v.equal_or_valid_for(&RIFTerm::Var));
}

#[test]
fn terms_valid_for_themselves() {
    let terms = vec![
        iri("http://ex/a"),
        RIFTerm::TypedLiteral("1".to_string(), Some("http://ex/int".to_string())),
        RIFTerm::LangLiteral("a".to_string(), "en".to_string()),
        RIFTerm::List(vec![iri("http://ex/a"), RIFTerm::Local("y".to_string())]),
        RIFTerm::Local("x".to_string()),
    ];
    for t in &terms {
        assert!(t.equal_or_valid_for(t));
    }
}

#[test]
fn terms_of_different_kind_or_value_do_not_match() {
    assert!(!iri("http://ex/a").equal_or_valid_for(&iri("http://ex/b")));
    assert!(!iri("http://ex/a").equal_or_valid_for(&RIFTerm::Local("http://ex/a".to_string())));
    assert!(!RIFTerm::TypedLiteral("1".to_string(), None)
        .equal_or_valid_for(&RIFTerm::TypedLiteral("1".to_string(), Some("http://ex/int".to_string()))));
    assert!(!RIFTerm::LangLiteral("a".to_string(), "en".to_string())
        .equal_or_valid_for(&RIFTerm::LangLiteral("a".to_string(), "de".to_string())));
    assert!(!iri("http://ex/a").equal_or_valid_for(&RIFTerm::Var));
}

#[test]
fn lists_match_item_by_item() {
    let q = vec![RIFTerm::Var, iri("http://ex/b")];
    let t = vec![iri("http://ex/a"), iri("http://ex/b")];
    assert!(list_equal_or_valid_for_rifterm(&q, &t));
    let t2 = vec![iri("http://ex/a"), iri("http://ex/c")];
    assert!(!list_equal_or_valid_for_rifterm(&q, &t2));
    let t3 = vec![iri("http://ex/a")];
    assert!(!list_equal_or_valid_for_rifterm(&q, &t3));
    assert!(RIFTerm::List(q).equal_or_valid_for(&RIFTerm::List(t)));
    assert!(RIFTerm::empty_list().equal_or_valid_for(&RIFTerm::List(Vec::new())));
}

#[test]
fn same_as_compares_everything() {
    assert!(RIFTerm::Var.same_as(&RIFTerm::Var));
    assert!(!RIFTerm::Var.same_as(&iri("http://ex/a")));
    assert!(RIFTerm::Variable("x".to_string()).same_as(&RIFTerm::Variable("x".to_string())));
    assert!(RIFTerm::List(vec![RIFTerm::Var]).same_as(&RIFTerm::List(vec![RIFTerm::Var])));
    assert!(!RIFTerm::List(vec![RIFTerm::Var]).same_as(&RIFTerm::List(vec![])));
    assert!(RIFTerm::Var.is_var());
    assert!(!RIFTerm::Variable("v".to_string()).is_var());
}

#[test]
fn get_local_prefixes_name() {
    match RIFTerm::get_local("abc") {
        Ok(t) => assert!(t.same_as(&RIFTerm::Local("l0_abc".to_string()))),
        Err(_) => panic!("get_local failed"),
    }
}

#[test]
fn get_local_rejects_nul() {
    assert!(matches!(RIFTerm::get_local("a\0b"), Err(GenTermError::NulError)));
}

#[test]
fn gentermerror_other_keeps_message() {
    match GenTermError::other("boom") {
        GenTermError::Error(m) => assert_eq!(m, "boom"),
        _ => panic!("wrong variant"),
    }
}

#[test]
fn c_term_missing_is_var() {
    assert!(c2rust_rifterm(None).is_var());
}

#[test]
fn c_term_iri() {
    let t = c2rust_rifterm(parts(RIF_TERM_TYPE_IRI, Some("http://ex/a"), None));
    assert!(t.same_as(&iri("http://ex/a")));
    assert!(c2rust_rifterm(parts(RIF_TERM_TYPE_IRI, None, None)).is_var());
}

#[test]
fn c_term_typed_literal() {
    let t = c2rust_rifterm(parts(RIF_TERM_TYPE_TYPEDLITERAL, Some("1"), Some("http://ex/int")));
    assert!(t.same_as(&RIFTerm::TypedLiteral("1".to_string(), Some("http://ex/int".to_string()))));
    let t = c2rust_rifterm(parts(RIF_TERM_TYPE_TYPEDLITERAL, Some("1"), None));
    assert!(t.same_as(&RIFTerm::TypedLiteral("1".to_string(), None)));
}

#[test]
fn c_term_lang_literal_needs_both() {
    let t = c2rust_rifterm(parts(RIF_TERM_TYPE_LANGLITERAL, Some("hi"), Some("en")));
    assert!(t.same_as(&RIFTerm::LangLiteral("hi".to_string(), "en".to_string())));
    assert!(c2rust_rifterm(parts(RIF_TERM_TYPE_LANGLITERAL, Some("hi"), None)).is_var());
    assert!(c2rust_rifterm(parts(RIF_TERM_TYPE_LANGLITERAL, None, Some("en"))).is_var());
}

#[test]
fn c_term_list_local_and_unknown() {
    let l = c2rust_rifterm(Some(CTermParts {
        term_type: RIF_TERM_TYPE_LIST,
        value: None,
        suffix: None,
        items: Some(vec![iri("http://ex/a")]),
    }));
    assert!(l.same_as(&RIFTerm::List(vec![iri("http://ex/a")])));
    assert!(c2rust_rifterm(parts(RIF_TERM_TYPE_LIST, Some("x"), None)).is_var());
    assert!(c2rust_rifterm(parts(RIF_TERM_TYPE_LOCAL, Some("x"), None)).is_var());
    assert!(c2rust_rifterm(parts(9, Some("x"), None)).is_var());
}

#[test]
fn c_term_list_in_order() {
    let v = c2rust_riftermlist(vec![
        parts(RIF_TERM_TYPE_IRI, Some("http://ex/a"), None),
        None,
        parts(RIF_TERM_TYPE_IRI, Some("http://ex/b"), None),
    ]);
    assert_eq!(v.len(), 3);
    assert!(v[0].same_as(&iri("http://ex/a")));
    assert!(v[1].is_var());
    assert!(v[2].same_as(&iri("http://ex/b")));
}

#[test]
fn replace_vars_turns_named_variables_into_var() {
    let v = replace_vars(vec![
        RIFTerm::Variable("x".to_string()),
        iri("http://ex/a"),
        RIFTerm::Var,
        RIFTerm::List(vec![RIFTerm::Variable("y".to_string())]),
    ]);
    assert_eq!(v.len(), 4);
    assert!(v[0].is_var());
    assert!(v[1].same_as(&iri("http://ex/a")));
    assert!(v[2].is_var());
    assert!(v[3].same_as(&RIFTerm::List(vec![RIFTerm::Variable("y".to_string())])));
}

#[test]
fn decimal_matches_format() {
    for n in [0usize, 7, 9, 10, 42, 100, 1234567, usize::MAX] {
        assert_eq!(decimal(n), format!("{}", n));
    }
}
