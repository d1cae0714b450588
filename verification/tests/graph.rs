use rifimporter::genterms::{
    generate_Graph, generate_IRI, generate_IdentifiedNode, generate_Term, BNodeMap, CStrArg,
    GraphName,
};
use rifimporter::rdf::RdfTerm;
use rifimporter::rifidata::{Formula, RIFIData, RIFTerm};
use rifimporter::rifigraph::{BlankNodeMap, RIFIGraph, RIFIGraph_add};

const XSD: &str = "http://www.w3.org/2001/XMLSchema#";
const RDF: &str = "http://www.w3.org/1999/02/22-rdf-syntax-ns#";
const RIF: &str = "http://www.w3.org/2007/rif#";
const ENT: &str = "http://www.w3.org/ns/entailment/";

fn text(s: &str) -> CStrArg {
    CStrArg::Text(s.to_string())
}

fn nn(s: &str) -> RdfTerm {
    RdfTerm::NamedNode(s.to_string())
}

fn blank(s: &str) -> RdfTerm {
    RdfTerm::BlankNode(s.to_string())
}

fn lit(v: &str, d: &str) -> RdfTerm {
    RdfTerm::Literal(v.to_string(), d.to_string(), None)
}

fn rdf(local: &str) -> String {
    format!("{}{}", RDF, local)
}

fn rif(local: &str) -> String {
    format!("{}{}", RIF, local)
}

fn iri(s: &str) -> RIFTerm {
    RIFTerm::IRI(s.to_string())
}

fn any_uri(s: &str) -> RdfTerm {
    lit(s, &format!("{}anyURI", XSD))
}

fn expect_node(r: Result<RdfTerm, ()>) -> RdfTerm {
    match r {
        Ok(t) => t,
        Err(()) => panic!("expected a term"),
    }
}

#[test]
fn generate_named_node() {
    let mut m = BlankNodeMap::new();
    let t = expect_node(generate_IdentifiedNode(&text("http://ex/a"), 0, &mut m));
    assert!(t.same_as(&nn("http://ex/a")));
}

#[test]
fn generate_rejects_bad_iri_null_and_bad_kind() {
    let mut m = BlankNodeMap::new();
    assert!(generate_IdentifiedNode(&text("not an iri"), 0, &mut m).is_err());
    assert!(generate_IdentifiedNode(&CStrArg::Null, 0, &mut m).is_err());
    assert!(generate_IdentifiedNode(&CStrArg::NotUtf8, 1, &mut m).is_err());
    assert!(generate_IdentifiedNode(&text("x"), 2, &mut m).is_err());
}

#[test]
fn same_key_same_blank_node() {
    let mut m = BlankNodeMap::new();
    let a = m.get_bnode("x");
    let b = m.get_bnode("x");
    let c = m.get_bnode("y");
    assert_eq!(a, b);
    assert_ne!(a, c);
    let first = a.chars().next().unwrap();
    assert!(('a'..='f').contains(&first));
    let t1 = expect_node(generate_IdentifiedNode(&text("x"), 1, &mut m));
    assert!(t1.same_as(&blank(&a)));
}

#[test]
fn generate_term_literals() {
    let mut m = BlankNodeMap::new();
    let t = expect_node(generate_Term(&text("5"), &text("http://ex/int"), 2, &mut m));
    assert!(t.same_as(&lit("5", "http://ex/int")));
    let t = expect_node(generate_Term(&text("5"), &CStrArg::Null, 2, &mut m));
    assert!(t.same_as(&lit("5", &format!("{}string", XSD))));
    let t = expect_node(generate_Term(&text("hi"), &text("en"), 3, &mut m));
    assert!(t.same_as(&RdfTerm::Literal("hi".to_string(), rdf("langString"), Some("en".to_string()))));
    let t = expect_node(generate_Term(&text("hi"), &CStrArg::Null, 3, &mut m));
    assert!(t.same_as(&RdfTerm::Literal("hi".to_string(), rdf("langString"), Some(String::new()))));
}

#[test]
fn generate_term_failures() {
    let mut m = BlankNodeMap::new();
    assert!(generate_Term(&text("5"), &text("no iri"), 2, &mut m).is_err());
    assert!(generate_Term(&text("5"), &CStrArg::NotUtf8, 2, &mut m).is_err());
    assert!(generate_Term(&text("5"), &CStrArg::NotUtf8, 3, &mut m).is_err());
    assert!(generate_Term(&CStrArg::Null, &text("en"), 3, &mut m).is_err());
    assert!(generate_Term(&text("5"), &CStrArg::Null, 4, &mut m).is_err());
}

#[test]
fn generate_iri_and_graph() {
    match generate_IRI(&text("http://ex/p")) {
        Ok(s) => assert_eq!(s, "http://ex/p"),
        Err(()) => panic!("expected an IRI"),
    }
    assert!(generate_IRI(&text("p")).is_err());
    assert!(generate_IRI(&CStrArg::Null).is_err());
    let mut m = BlankNodeMap::new();
    assert!(matches!(generate_Graph(&CStrArg::Null, 0, &mut m), Ok(GraphName::DefaultGraph)));
    assert!(matches!(generate_Graph(&text("http://ex/g"), 0, &mut m), Ok(GraphName::NamedNode(ref s)) if s == "http://ex/g"));
    assert!(matches!(generate_Graph(&text("g"), 1, &mut m), Ok(GraphName::BlankNode(_))));
    assert!(generate_Graph(&text("g"), 7, &mut m).is_err());
}

#[test]
fn rifigraph_add_codes() {
    let mut g = RIFIGraph::new();
    assert_eq!(RIFIGraph_add(&mut g, &text("http://ex/s"), 0, &text("http://ex/p"), &text("http://ex/o"), &CStrArg::Null, 0), 0);
    assert_eq!(RIFIGraph_add(&mut g, &CStrArg::Null, 0, &text("http://ex/p"), &text("http://ex/o"), &CStrArg::Null, 0), -2);
    assert_eq!(RIFIGraph_add(&mut g, &text("s"), 1, &text("p"), &text("http://ex/o"), &CStrArg::Null, 0), -3);
    assert_eq!(RIFIGraph_add(&mut g, &text("s"), 1, &text("http://ex/p"), &text("o"), &text("bad"), 2), -4);
    assert_eq!(RIFIGraph_add(&mut g, &text("s"), 1, &text("http://ex/p"), &text("o"), &CStrArg::Null, 1), 0);
}

#[test]
fn d_reading_answers_each_triple_once() {
    let mut g = RIFIGraph::new();
    assert_eq!(RIFIGraph_add(&mut g, &text("http://ex/s"), 0, &text("http://ex/p"), &text("http://ex/o"), &CStrArg::Null, 0), 0);
    let mut d = g.to_RIFIData(Some(&format!("{}D", ENT))).expect("D reading");
    let f = d.get_next_frame(RIFTerm::Var, RIFTerm::Var, RIFTerm::Var).expect("a frame");
    assert!(f.object.same_as(&iri("http://ex/s")));
    assert!(f.slotkey.same_as(&iri("http://ex/p")));
    assert!(f.slotvalue.same_as(&iri("http://ex/o")));
    assert!(d.get_next_frame(RIFTerm::Var, RIFTerm::Var, RIFTerm::Var).is_none());
    assert!(d.get_next_subclass(RIFTerm::Var, RIFTerm::Var).is_none());
    assert!(d.get_next_atom(RIFTerm::Var, None).is_none());
}

#[test]
fn d_reading_filters_by_query() {
    let mut g = RIFIGraph::new();
    g.add(&nn("http://ex/s"), "http://ex/p", &nn("http://ex/o"));
    let mut d = g.to_RIFIData(Some(&format!("{}D", ENT))).expect("D reading");
    assert!(d.get_next_frame(iri("http://ex/x"), RIFTerm::Var, RIFTerm::Var).is_none());
    assert!(d.get_next_frame(iri("http://ex/s"), iri("http://ex/p"), RIFTerm::Var).is_some());
}

#[test]
fn to_rifidata_by_entailment() {
    assert!(matches!(RIFIGraph::new().to_RIFIData(None), Some(RIFIData::RIF(_))));
    assert!(matches!(RIFIGraph::new().to_RIFIData(Some(&format!("{}RIF", ENT))), Some(RIFIData::RIF(_))));
    assert!(matches!(RIFIGraph::new().to_RIFIData(Some(&format!("{}RDFS", ENT))), Some(RIFIData::RDFS(_))));
    assert!(matches!(RIFIGraph::new().to_RIFIData(Some(&format!("{}D", ENT))), Some(RIFIData::D(_))));
    assert!(matches!(RIFIGraph::new().to_RIFIData(Some(&format!("{}Simple", ENT))), Some(RIFIData::Simple(_))));
    assert!(matches!(RIFIGraph::new().to_RIFIData(Some(&format!("{}RDF", ENT))), Some(RIFIData::RDF(_))));
    assert!(matches!(RIFIGraph::new().to_RIFIData(Some(&format!("{}OWL-RDF-Based", ENT))), Some(RIFIData::OWLRDFBased(_))));
    assert!(matches!(RIFIGraph::new().to_RIFIData(Some(&format!("{}OWL-Direct", ENT))), Some(RIFIData::OWLDirect(_))));
    assert!(RIFIGraph::new().to_RIFIData(Some("http://ex/none")).is_none());
}

#[test]
fn rdfs_reading() {
    let mut g = RIFIGraph::new();
    let sco = "http://www.w3.org/2000/01/rdf-schema#subClassOf";
    g.add(&nn("http://ex/A"), sco, &nn("http://ex/B"));
    g.add(&nn("http://ex/x"), &rdf("type"), &nn("http://ex/A"));
    g.add(&nn("http://ex/x"), "http://ex/p", &lit("1", "http://ex/int"));
    let mut d = g.to_RIFIData(Some(&format!("{}RDFS", ENT))).expect("RDFS reading");
    let s = d.get_next_subclass(RIFTerm::Var, RIFTerm::Var).expect("subclass");
    assert!(s.sub.same_as(&iri("http://ex/A")));
    assert!(s.super_.same_as(&iri("http://ex/B")));
    let m = d.get_next_member(RIFTerm::Var, RIFTerm::Var).expect("member");
    assert!(m.instance.same_as(&iri("http://ex/x")));
    assert!(m.class.same_as(&iri("http://ex/A")));
    let f = d.get_next_frame(RIFTerm::Var, RIFTerm::Var, RIFTerm::Var).expect("frame");
    assert!(f.object.same_as(&iri("http://ex/x")));
    assert!(f.slotkey.same_as(&iri("http://ex/p")));
    assert!(f.slotvalue.same_as(&RIFTerm::TypedLiteral("1".to_string(), Some("http://ex/int".to_string()))));
    assert!(d.get_next_frame(RIFTerm::Var, RIFTerm::Var, RIFTerm::Var).is_none());
    assert!(d.get_next_equal(RIFTerm::Var, RIFTerm::Var).is_none());
    assert!(d.get_next_atom(RIFTerm::Var, None).is_none());
}

#[test]
fn rdfs_reading_collects_lists() {
    let mut g = RIFIGraph::new();
    g.add(&nn("http://ex/s"), "http://ex/p", &blank("l1"));
    g.add(&blank("l1"), &rdf("first"), &nn("http://ex/a"));
    g.add(&blank("l1"), &rdf("rest"), &blank("l2"));
    g.add(&blank("l2"), &rdf("first"), &nn("http://ex/b"));
    g.add(&blank("l2"), &rdf("rest"), &nn(&rdf("nil")));
    let mut d = g.to_RIFIData(Some(&format!("{}RDFS", ENT))).expect("RDFS reading");
    let f = d.get_next_frame(RIFTerm::Var, RIFTerm::Var, RIFTerm::Var).expect("frame");
    assert!(f.slotvalue.same_as(&RIFTerm::List(vec![iri("http://ex/a"), iri("http://ex/b")])));
    assert!(d.get_next_frame(RIFTerm::Var, RIFTerm::Var, RIFTerm::Var).is_none());
}

fn rif_frame_graph() -> RIFIGraph {
    let mut g = RIFIGraph::new();
    g.add(&blank("f"), &rdf("type"), &nn(&rif("Frame")));
    g.add(&blank("f"), &rif("object"), &blank("o"));
    g.add(&blank("o"), &rif("constIRI"), &any_uri("http://ex/a"));
    g.add(&blank("f"), &rif("slots"), &blank("l"));
    g.add(&blank("l"), &rdf("first"), &blank("s"));
    g.add(&blank("l"), &rdf("rest"), &nn(&rdf("nil")));
    g.add(&blank("s"), &rif("slotkey"), &blank("k"));
    g.add(&blank("s"), &rif("slotvalue"), &blank("v"));
    g.add(&blank("k"), &rif("constIRI"), &any_uri("http://ex/p"));
    g.add(&blank("v"), &rif("value"), &lit("5", "http://ex/int"));
    g
}

#[test]
fn rif_reading_frame() {
    let mut d = rif_frame_graph().to_RIFIData(None).expect("RIF reading");
    assert!(d.get_next_frame(iri("http://ex/b"), RIFTerm::Var, RIFTerm::Var).is_none());
    let f = d.get_next_frame(RIFTerm::Var, RIFTerm::Var, RIFTerm::Var).expect("frame");
    assert!(f.object.same_as(&iri("http://ex/a")));
    assert!(f.slotkey.same_as(&iri("http://ex/p")));
    assert!(f.slotvalue.same_as(&RIFTerm::TypedLiteral("5".to_string(), Some("http://ex/int".to_string()))));
    assert!(d.get_next_frame(RIFTerm::Var, RIFTerm::Var, RIFTerm::Var).is_none());
}

fn rif_pair_graph(class: &str, p1: &str, p2: &str) -> RIFIGraph {
    let mut g = RIFIGraph::new();
    g.add(&blank("q"), &rdf("type"), &nn(&rif(class)));
    g.add(&blank("q"), &rif(p1), &blank("x"));
    g.add(&blank("q"), &rif(p2), &blank("y"));
    g.add(&blank("x"), &rif("constIRI"), &any_uri("http://ex/x"));
    g.add(&blank("y"), &rif("constIRI"), &any_uri("http://ex/y"));
    g
}

#[test]
fn rif_reading_subclass_and_member() {
    let mut d = rif_pair_graph("Subclass", "sub", "super").to_RIFIData(None).expect("RIF reading");
    assert!(d.get_next_member(RIFTerm::Var, RIFTerm::Var).is_none());
    let s = d.get_next_subclass(iri("http://ex/x"), RIFTerm::Var).expect("subclass");
    assert!(s.sub.same_as(&iri("http://ex/x")));
    assert!(s.super_.same_as(&iri("http://ex/y")));
    assert!(d.get_next_subclass(RIFTerm::Var, RIFTerm::Var).is_none());

    let mut d = rif_pair_graph("Member", "instance", "class").to_RIFIData(None).expect("RIF reading");
    let m = d.get_next_member(RIFTerm::Var, iri("http://ex/y")).expect("member");
    assert!(m.instance.same_as(&iri("http://ex/x")));
    assert!(m.class.same_as(&iri("http://ex/y")));
}

#[test]
fn rif_reading_equal_either_way() {
    let mut d = rif_pair_graph("Equal", "left", "right").to_RIFIData(None).expect("RIF reading");
    let e = d.get_next_equal(iri("http://ex/y"), iri("http://ex/x")).expect("equal");
    assert!(e.left.same_as(&iri("http://ex/x")));
    assert!(e.right.same_as(&iri("http://ex/y")));
    assert!(d.get_next_equal(RIFTerm::Var, RIFTerm::Var).is_none());
}

#[test]
fn rif_reading_atom_and_next() {
    let mut g = rif_frame_graph();
    g.add(&blank("a"), &rdf("type"), &nn(&rif("Atom")));
    g.add(&blank("a"), &rif("op"), &blank("op"));
    g.add(&blank("op"), &rif("constIRI"), &any_uri("http://ex/q"));
    g.add(&blank("a"), &rif("args"), &blank("al"));
    g.add(&blank("al"), &rdf("first"), &blank("t1"));
    g.add(&blank("al"), &rdf("rest"), &nn(&rdf("nil")));
    g.add(&blank("t1"), &rif("value"), &RdfTerm::Literal("hi".to_string(), rdf("langString"), Some("en".to_string())));
    let mut d = g.to_RIFIData(None).expect("RIF reading");
    match d.next() {
        Some(Formula::Atom(a)) => {
            assert!(a.op.same_as(&iri("http://ex/q")));
            assert_eq!(a.args.len(), 1);
            assert!(a.args[0].same_as(&RIFTerm::LangLiteral("hi".to_string(), "en".to_string())));
        },
        _ => panic!("expected the atom first"),
    }
    assert!(matches!(d.next(), Some(Formula::Frame(_))));
    assert!(d.next().is_none());
}

#[test]
fn unread_regimes_keep_the_graph_and_answer_nothing() {
    let mut g = RIFIGraph::new();
    g.add(&nn("http://ex/s"), "http://ex/p", &nn("http://ex/o"));
    let mut d = g.to_RIFIData(Some(&format!("{}Simple", ENT))).expect("Simple regime");
    assert!(d.get_next_frame(RIFTerm::Var, RIFTerm::Var, RIFTerm::Var).is_none());
    assert!(d.next().is_none());
}

#[test]
fn generate_graph_default_only_for_null() {
    let mut m = BlankNodeMap::new();
    assert!(generate_Graph(&CStrArg::NotUtf8, 0, &mut m).is_err());
    assert!(generate_Graph(&text("no iri"), 0, &mut m).is_err());
}

#[test]
fn rif_reading_on_an_ambiguous_graph() {
    let mut g = rif_frame_graph();
    g.add(&blank("o"), &rif("constIRI"), &any_uri("http://ex/a2"));
    let mut d = g.to_RIFIData(None).expect("RIF reading");
    let f = d.get_next_frame(RIFTerm::Var, RIFTerm::Var, RIFTerm::Var).expect("frame");
    assert!(f.object.same_as(&iri("http://ex/a")) || f.object.same_as(&iri("http://ex/a2")));
    assert!(f.slotkey.same_as(&iri("http://ex/p")));
    assert!(d.get_next_frame(RIFTerm::Var, RIFTerm::Var, RIFTerm::Var).is_none());
}

#[test]
fn nul_in_a_described_constant_makes_the_rif_reading_unanswerable() {
    let mut g = RIFIGraph::new();
    g.add(&blank("c"), &rif("constIRI"), &lit("http://ex/a\0b", &format!("{}anyURI", XSD)));
    let d = g.to_RIFIData(None).expect("RIF reading");
    assert!(!d.is_answerable());
}

#[test]
fn nul_outside_descriptions_leaves_the_rif_reading_answerable() {
    let mut g = RIFIGraph::new();
    g.add(&nn("http://ex/s"), "http://ex/comment", &lit("a\0b", &format!("{}string", XSD)));
    g.add(&blank("c"), &rif("constIRI"), &lit("http://ex/a", &format!("{}anyURI", XSD)));
    let d = g.to_RIFIData(None).expect("RIF reading");
    assert!(d.is_answerable());
}

#[test]
fn nul_in_any_literal_makes_the_d_and_rdfs_readings_unanswerable() {
    let mut g = RIFIGraph::new();
    g.add(&nn("http://ex/s"), "http://ex/comment", &lit("a\0b", &format!("{}string", XSD)));
    let d = g.to_RIFIData(Some(&format!("{}D", ENT))).expect("D reading");
    assert!(!d.is_answerable());
    let mut g = RIFIGraph::new();
    g.add(&nn("http://ex/s"), "http://ex/comment", &lit("a\0b", &format!("{}string", XSD)));
    let r = g.to_RIFIData(Some(&format!("{}RDFS", ENT))).expect("RDFS reading");
    assert!(!r.is_answerable());
}

#[test]
fn graphs_without_nul_are_answerable_under_every_regime() {
    for ent in ["RIF", "RDFS", "D", "Simple"] {
        let mut g = RIFIGraph::new();
        g.add(&nn("http://ex/s"), "http://ex/p", &lit("v", &format!("{}string", XSD)));
        let d = g.to_RIFIData(Some(&format!("{}{}", ENT, ent))).expect("a reading");
        assert!(d.is_answerable());
    }
}

#[test]
fn rif_query_that_found_nothing_finds_nothing_again() {
    let mut d = rif_pair_graph("Member", "instance", "class").to_RIFIData(None).expect("RIF reading");
    assert!(d.get_next_member(iri("http://ex/z"), RIFTerm::Var).is_none());
    assert!(d.get_next_member(iri("http://ex/z"), RIFTerm::Var).is_none());
    assert!(d.get_next_member(RIFTerm::Var, RIFTerm::Var).is_some());
    assert!(d.get_next_member(RIFTerm::Var, RIFTerm::Var).is_none());
    assert!(d.get_next_member(RIFTerm::Var, RIFTerm::Var).is_none());
}

#[test]
fn rif_frame_query_that_found_nothing_finds_nothing_again() {
    let mut d = rif_frame_graph().to_RIFIData(None).expect("RIF reading");
    assert!(d.get_next_frame(RIFTerm::Var, iri("http://ex/q"), RIFTerm::Var).is_none());
    assert!(d.get_next_frame(RIFTerm::Var, iri("http://ex/q"), RIFTerm::Var).is_none());
    assert!(d.get_next_frame(RIFTerm::Var, iri("http://ex/p"), RIFTerm::Var).is_some());
    assert!(d.get_next_frame(RIFTerm::Var, RIFTerm::Var, RIFTerm::Var).is_none());
    assert!(d.get_next_frame(RIFTerm::Var, RIFTerm::Var, RIFTerm::Var).is_none());
}

#[test]
fn d_query_that_found_nothing_finds_nothing_again() {
    let mut g = RIFIGraph::new();
    g.add(&nn("http://ex/s"), "http://ex/p", &nn("http://ex/o"));
    let mut d = g.to_RIFIData(Some(&format!("{}D", ENT))).expect("D reading");
    assert!(d.get_next_frame(iri("http://ex/x"), RIFTerm::Var, RIFTerm::Var).is_none());
    assert!(d.get_next_frame(iri("http://ex/x"), RIFTerm::Var, RIFTerm::Var).is_none());
    assert!(d.get_next_frame(RIFTerm::Var, RIFTerm::Var, RIFTerm::Var).is_some());
    assert!(d.get_next_frame(RIFTerm::Var, RIFTerm::Var, RIFTerm::Var).is_none());
}
