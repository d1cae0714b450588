use rifimporter::formula_call_rdf_hook::{
    document_triples, formula_node_id, HookError, HookTriple, MyContext, BNODE, LANGLITERAL,
    TYPEDLITERAL, URI,
};
use rifimporter::rifidata::{Atom, Equal, Formula, Frame, Member, RIFTerm, Subclass};

const RDF: &str = "http://www.w3.org/1999/02/22-rdf-syntax-ns#";
const RIF: &str = "http://www.w3.org/2007/rif#";
const ANY_URI: &str = "http://www.w3.org/2001/XMLSchema#anyURI";

type T = (String, u8, String, String, Option<String>, u8);

fn t(s: &str, st: u8, p: &str, o: &str, suf: Option<&str>, ot: u8) -> T {
    (s.to_string(), st, p.to_string(), o.to_string(), suf.map(|x| x.to_string()), ot)
}

fn tuples(v: &[HookTriple]) -> Vec<T> {
    v.iter()
        .map(|x| (x.subject.clone(), x.subject_type, x.predicate.clone(), x.object.clone(), x.object_suffix.clone(), x.object_type))
        .collect()
}

fn rdf(l: &str) -> String {
    format!("{}{}", RDF, l)
}

fn rif(l: &str) -> String {
    format!("{}{}", RIF, l)
}

fn iri(s: &str) -> RIFTerm {
    RIFTerm::IRI(s.to_string())
}

fn const_iri(id: &str, v: &str) -> Vec<T> {
    vec![
        t(id, BNODE, &rdf("type"), &rif("Const"), None, URI),
        t(id, BNODE, &rif("constIRI"), v, Some(ANY_URI), TYPEDLITERAL),
    ]
}

#[test]
fn formula_node_ids() {
    assert_eq!(formula_node_id(0), "b0");
    assert_eq!(formula_node_id(12), "b12");
}

#[test]
fn subclass_as_rdf() {
    let f = Formula::Subclass(Subclass { sub: iri("http://ex/A"), super_: iri("http://ex/B") });
    let mut out = Vec::new();
    let r = f.send_rdf("b0".to_string(), BNODE, &mut out);
    assert!(matches!(r, Ok((ref id, BNODE)) if id == "b0"));
    let mut expected = vec![t("b0", BNODE, &rdf("type"), &rif("Subclass"), None, URI)];
    expected.extend(const_iri("b0_sub", "http://ex/A"));
    expected.push(t("b0", BNODE, &rif("sub"), "b0_sub", None, BNODE));
    expected.extend(const_iri("b0_super", "http://ex/B"));
    expected.push(t("b0", BNODE, &rif("super"), "b0_super", None, BNODE));
    assert_eq!(tuples(&out), expected);
}

#[test]
fn member_and_equal_as_rdf() {
    let mut out = Vec::new();
    let f = Formula::Member(Member { instance: iri("http://ex/x"), class: iri("http://ex/A") });
    assert!(f.send_rdf("b1".to_string(), BNODE, &mut out).is_ok());
    let v = tuples(&out);
    assert_eq!(v.len(), 7);
    assert_eq!(v[0], t("b1", BNODE, &rdf("type"), &rif("Member"), None, URI));
    assert_eq!(v[3], t("b1", BNODE, &rif("instance"), "b1_inst", None, BNODE));
    assert_eq!(v[6], t("b1", BNODE, &rif("class"), "b1_class", None, BNODE));

    let mut out = Vec::new();
    let f = Formula::Equal(Equal { left: iri("http://ex/x"), right: iri("http://ex/y") });
    assert!(f.send_rdf("b2".to_string(), BNODE, &mut out).is_ok());
    let v = tuples(&out);
    assert_eq!(v[0], t("b2", BNODE, &rdf("type"), &rif("Equal"), None, URI));
    assert_eq!(v[3], t("b2", BNODE, &rif("left"), "b2_left", None, BNODE));
    assert_eq!(v[6], t("b2", BNODE, &rif("right"), "b2_right", None, BNODE));
}

#[test]
fn atom_with_argument_list_as_rdf() {
    let f = Formula::Atom(Atom { op: iri("http://ex/p"), args: vec![iri("http://ex/a"), iri("http://ex/b")] });
    let mut out = Vec::new();
    assert!(f.send_rdf("b0".to_string(), BNODE, &mut out).is_ok());
    let mut e = vec![t("b0", BNODE, &rdf("type"), &rif("Atom"), None, URI)];
    e.extend(const_iri("b0_op", "http://ex/p"));
    e.push(t("b0", BNODE, &rif("op"), "b0_op", None, BNODE));
    e.extend(const_iri("b0_args_first", "http://ex/a"));
    e.push(t("b0_args", BNODE, &rdf("first"), "b0_args_first", None, BNODE));
    e.extend(const_iri("b0_args_0_first", "http://ex/b"));
    e.push(t("b0_args_0", BNODE, &rdf("first"), "b0_args_0_first", None, BNODE));
    e.push(t("b0_args", BNODE, &rdf("rest"), "b0_args_0", None, BNODE));
    e.push(t("b0_args_0", BNODE, &rdf("rest"), &rdf("nil"), None, URI));
    e.push(t("b0", BNODE, &rif("args"), "b0_args", None, BNODE));
    assert_eq!(tuples(&out), e);
}

#[test]
fn atom_without_arguments_has_no_args_triple() {
    let f = Formula::Atom(Atom { op: iri("http://ex/p"), args: vec![] });
    let mut out = Vec::new();
    assert!(f.send_rdf("b0".to_string(), BNODE, &mut out).is_ok());
    assert_eq!(out.len(), 4);
}

#[test]
fn frame_as_rdf() {
    let f = Formula::Frame(Frame {
        object: iri("http://ex/o"),
        slotkey: iri("http://ex/k"),
        slotvalue: RIFTerm::LangLiteral("hi".to_string(), "en".to_string()),
    });
    let mut out = Vec::new();
    assert!(f.send_rdf("b3".to_string(), BNODE, &mut out).is_ok());
    let mut e = vec![t("b3", BNODE, &rdf("type"), &rif("Frame"), None, URI)];
    e.extend(const_iri("b3_obj", "http://ex/o"));
    e.push(t("b3", BNODE, &rif("object"), "b3_obj", None, BNODE));
    e.push(t("b3_slot_val", BNODE, &rdf("type"), &rif("Const"), None, URI));
    e.push(t("b3_slot_val", BNODE, &rif("value"), "hi", Some("en"), LANGLITERAL));
    e.push(t("b3_slot", BNODE, &rif("slotvalue"), "b3_slot_val", None, BNODE));
    e.extend(const_iri("b3_slot_key", "http://ex/k"));
    e.push(t("b3_slot", BNODE, &rif("slotkey"), "b3_slot_key", None, BNODE));
    e.push(t("b3", BNODE, &rif("slots"), "b3_slot", None, BNODE));
    e.push(t("b3_slot", BNODE, &rdf("first"), "b3_slot", None, BNODE));
    e.push(t("b3_slot", BNODE, &rdf("rest"), &rdf("nil"), None, URI));
    assert_eq!(tuples(&out), e);
}

#[test]
fn terms_of_every_kind_as_rdf() {
    let f = Formula::Equal(Equal {
        left: RIFTerm::TypedLiteral("5".to_string(), None),
        right: RIFTerm::Variable("x".to_string()),
    });
    let mut out = Vec::new();
    assert!(f.send_rdf("b0".to_string(), BNODE, &mut out).is_ok());
    let v = tuples(&out);
    assert_eq!(v[2], t("b0_left", BNODE, &rif("value"), "5", None, TYPEDLITERAL));
    assert_eq!(v[4], t("b0_right", BNODE, &rdf("type"), &rif("Var"), None, URI));
    assert_eq!(v[5], t("b0_right", BNODE, &rif("varname"), "x", Some(ANY_URI), TYPEDLITERAL));

    let f = Formula::Member(Member { instance: RIFTerm::Local("l".to_string()), class: RIFTerm::List(vec![]) });
    let mut out = Vec::new();
    assert!(f.send_rdf("b0".to_string(), BNODE, &mut out).is_ok());
    let v = tuples(&out);
    assert_eq!(v[1], t("b0_inst", BNODE, &rdf("type"), &rif("Const"), None, URI));
    assert_eq!(v[2], t("b0", BNODE, &rif("instance"), "b0_inst", None, BNODE));
    assert_eq!(v[3], t("b0_class", BNODE, &rdf("type"), &rif("List"), None, URI));
    assert_eq!(v[4], t("b0_class", BNODE, &rif("items"), &rdf("nil"), None, URI));
    assert_eq!(v.len(), 6);
}

#[test]
fn var_ends_sending_with_an_error() {
    let f = Formula::Frame(Frame { object: RIFTerm::Var, slotkey: iri("http://ex/k"), slotvalue: iri("http://ex/v") });
    let mut out = Vec::new();
    match f.send_rdf("b0".to_string(), BNODE, &mut out) {
        Err(HookError::Error(m)) => assert_eq!(m, "send var not implemented"),
        _ => panic!("expected the error for a variable without a name"),
    }
    assert_eq!(tuples(&out), vec![
        t("b0", BNODE, &rdf("type"), &rif("Frame"), None, URI),
        t("b0_obj", BNODE, &rdf("type"), &rif("Var"), None, URI),
    ]);
}

#[test]
fn var_inside_a_list_stops_the_list() {
    let f = Formula::Atom(Atom { op: iri("http://ex/p"), args: vec![iri("http://ex/a"), RIFTerm::Var, iri("http://ex/c")] });
    let mut out = Vec::new();
    assert!(f.send_rdf("b0".to_string(), BNODE, &mut out).is_err());
    let v = tuples(&out);
    assert_eq!(v.last().unwrap(), &t("b0_args_0_first", BNODE, &rdf("type"), &rif("Var"), None, URI));
    assert_eq!(v.len(), 8);
}

#[test]
fn document_of_two_sentences() {
    let v = tuples(&document_triples(&vec![("b0".to_string(), BNODE), ("b1".to_string(), BNODE)]));
    assert_eq!(v, vec![
        t("bnode_0", BNODE, &rdf("type"), &rif("Group"), None, URI),
        t("bnode_1", BNODE, &rdf("first"), "b0", None, BNODE),
        t("bnode_2", BNODE, &rdf("first"), "b1", None, BNODE),
        t("bnode_1", BNODE, &rdf("rest"), "bnode_2", None, BNODE),
        t("bnode_2", BNODE, &rdf("rest"), &rdf("nil"), None, URI),
        t("bnode_0", BNODE, &rif("sentences"), "bnode_1", None, BNODE),
        t("bnode_3", BNODE, &rdf("type"), &rif("Document"), None, URI),
        t("bnode_3", BNODE, &rif("payload"), "bnode_0", None, BNODE),
    ]);
}

#[test]
fn document_of_no_sentence() {
    let v = tuples(&document_triples(&vec![]));
    assert_eq!(v, vec![
        t("bnode_0", BNODE, &rdf("type"), &rif("Group"), None, URI),
        t("bnode_0", BNODE, &rif("sentences"), &rdf("nil"), None, URI),
        t("bnode_2", BNODE, &rdf("type"), &rif("Document"), None, URI),
        t("bnode_2", BNODE, &rif("payload"), "bnode_0", None, BNODE),
    ]);
}

#[test]
fn context_counts_blank_nodes() {
    let mut c = MyContext::new();
    assert_eq!(c.new_bnode(), "bnode_0");
    assert_eq!(c.new_bnode(), "bnode_1");
    let r = c.send_rifdocument("d".to_string(), BNODE, "p".to_string(), URI);
    assert_eq!(r, ("d".to_string(), BNODE));
    assert_eq!(tuples(&c.into_calls()), vec![
        t("d", BNODE, &rdf("type"), &rif("Document"), None, URI),
        t("d", BNODE, &rif("payload"), "p", None, URI),
    ]);
}

#[test]
fn hook_return_values() {
    assert!(rifimporter::formula_call_rdf_hook::hook_returned(0).is_ok());
    assert!(matches!(rifimporter::formula_call_rdf_hook::hook_returned(-1), Err(HookError::HookReturn(-1))));
}

#[test]
fn hook_error_constructors() {
    assert!(matches!(HookError::retval(-3), HookError::HookReturn(-3)));
    assert!(matches!(HookError::internal(5), HookError::InternalError(5)));
    assert!(matches!(HookError::other("x"), HookError::Error(ref m) if m == "x"));
}
