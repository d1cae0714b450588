use rifimporter::rdf::{graph_insert, graph_len, graph_new, RdfTerm, RdfTriple};
use rifimporter::rdfhelper::{
    graph_descriptions_nul_free, graph_nul_free, rdfidlist_to_vec, rdflist_to_riftermvec,
    rdflist_to_vec, retrieve_rifterm, riftermlist_to_vec, ListError,
};
use rifimporter::rifidata::RIFTerm;

const RDF: &str = "http://www.w3.org/1999/02/22-rdf-syntax-ns#";
const RIF: &str = "http://www.w3.org/2007/rif#";

fn nn(s: &str) -> RdfTerm {
    RdfTerm::NamedNode(s.to_string())
}

fn blank(s: &str) -> RdfTerm {
    RdfTerm::BlankNode(s.to_string())
}

fn lit(v: &str, d: &str) -> RdfTerm {
    RdfTerm::Literal(v.to_string(), d.to_string(), None)
}

fn triple(s: RdfTerm, p: &str, o: RdfTerm) -> RdfTriple {
    RdfTriple { subject: s, predicate: p.to_string(), object: o }
}

fn rdf(l: &str) -> String {
    format!("{}{}", RDF, l)
}

fn rif(l: &str) -> String {
    format!("{}{}", RIF, l)
}

fn build(ts: Vec<RdfTriple>) -> oxrdf::Graph {
    let mut g = graph_new();
    for t in &ts {
        graph_insert(&mut g, t);
    }
    g
}

fn two_item_list(second: RdfTerm) -> Vec<RdfTriple> {
    vec![
        triple(blank("l1"), &rdf("first"), nn("http://ex/a")),
        triple(blank("l1"), &rdf("rest"), blank("l2")),
        triple(blank("l2"), &rdf("first"), second),
        triple(blank("l2"), &rdf("rest"), nn(&rdf("nil"))),
    ]
}

#[test]
fn graph_insert_counts_distinct_triples() {
    let mut g = graph_new();
    assert!(graph_insert(&mut g, &triple(nn("http://ex/s"), "http://ex/p", nn("http://ex/o"))));
    assert!(!graph_insert(&mut g, &triple(nn("http://ex/s"), "http://ex/p", nn("http://ex/o"))));
    assert_eq!(graph_len(&g), 1);
}

#[test]
fn list_items_in_order() {
    let g = build(two_item_list(nn("http://ex/b")));
    let v = rdflist_to_vec(&g, &blank("l1")).expect("a list");
    assert_eq!(v.len(), 2);
    assert!(v[0].same_as(&nn("http://ex/a")));
    assert!(v[1].same_as(&nn("http://ex/b")));
    let e = rdflist_to_vec(&g, &nn(&rdf("nil"))).expect("the empty list");
    assert_eq!(e.len(), 0);
}

#[test]
fn list_items_as_rif_terms() {
    let g = build(two_item_list(blank("x")));
    let v = rdflist_to_riftermvec(&g, &blank("l1")).expect("a list");
    assert!(v[0].same_as(&RIFTerm::IRI("http://ex/a".to_string())));
    assert!(v[1].same_as(&RIFTerm::Local("x".to_string())));
}

#[test]
fn broken_and_cyclic_lists() {
    let g = build(vec![triple(blank("l1"), &rdf("first"), nn("http://ex/a"))]);
    assert!(rdflist_to_vec(&g, &blank("l1")).is_none());
    let g = build(vec![
        triple(blank("l1"), &rdf("first"), nn("http://ex/a")),
        triple(blank("l1"), &rdf("rest"), blank("l1")),
    ]);
    assert!(rdflist_to_vec(&g, &blank("l1")).is_none());
}

#[test]
fn id_list_errors() {
    let g = build(two_item_list(lit("1", "http://ex/int")));
    assert!(matches!(rdfidlist_to_vec(&g, &blank("l1")), Err(ListError::NotANode)));
    assert!(matches!(rdfidlist_to_vec(&g, &blank("zz")), Err(ListError::NotAList)));
    let g = build(two_item_list(nn("http://ex/b")));
    match rdfidlist_to_vec(&g, &blank("l1")) {
        Ok(v) => assert_eq!(v.len(), 2),
        Err(_) => panic!("expected the nodes"),
    }
}

#[test]
fn terms_read_from_their_description() {
    let g = build(vec![
        triple(blank("c"), &rif("constIRI"), lit("http://ex/a", "http://www.w3.org/2001/XMLSchema#anyURI")),
        triple(blank("v"), &rif("value"), lit("5", "http://ex/int")),
        triple(blank("x"), &rif("varname"), lit("x", "http://www.w3.org/2001/XMLSchema#string")),
        triple(blank("bad"), &rif("constIRI"), nn("http://ex/a")),
        triple(blank("two"), &rif("constIRI"), lit("http://ex/a", "http://ex/t")),
        triple(blank("two"), &rif("value"), lit("5", "http://ex/int")),
    ]);
    let c = retrieve_rifterm(&g, &blank("c")).expect("constant");
    assert!(c.same_as(&RIFTerm::IRI("http://ex/a".to_string())));
    let v = retrieve_rifterm(&g, &blank("v")).expect("literal");
    assert!(v.same_as(&RIFTerm::TypedLiteral("5".to_string(), Some("http://ex/int".to_string()))));
    assert!(retrieve_rifterm(&g, &blank("x")).expect("variable").is_var());
    assert!(retrieve_rifterm(&g, &blank("bad")).is_none());
    assert!(retrieve_rifterm(&g, &blank("two")).is_none());
    assert!(retrieve_rifterm(&g, &blank("none")).is_none());
}

#[test]
fn list_terms_read_from_their_description() {
    let mut ts = vec![
        triple(blank("t"), &rif("items"), blank("l1")),
        triple(blank("l1"), &rdf("first"), blank("c")),
        triple(blank("l1"), &rdf("rest"), nn(&rdf("nil"))),
        triple(blank("c"), &rif("constIRI"), lit("http://ex/a", "http://www.w3.org/2001/XMLSchema#anyURI")),
    ];
    ts.push(triple(blank("u"), &rif("items"), nn(&rdf("nil"))));
    let g = build(ts);
    let t = retrieve_rifterm(&g, &blank("t")).expect("list term");
    assert!(t.same_as(&RIFTerm::List(vec![RIFTerm::IRI("http://ex/a".to_string())])));
    let u = retrieve_rifterm(&g, &blank("u")).expect("empty list term");
    assert!(u.same_as(&RIFTerm::empty_list()));
    let items = riftermlist_to_vec(&g, &blank("l1")).expect("items");
    assert_eq!(items.len(), 1);
}

#[test]
fn ambiguous_constant_reads_one_of_its_values() {
    let g = build(vec![
        triple(blank("c"), &rif("constIRI"), lit("http://ex/a", "http://www.w3.org/2001/XMLSchema#anyURI")),
        triple(blank("c"), &rif("constIRI"), lit("http://ex/b", "http://www.w3.org/2001/XMLSchema#anyURI")),
        triple(blank("m"), &rif("value"), lit("5", "http://ex/int")),
        triple(blank("m"), &rif("value"), RdfTerm::Literal("5".to_string(), rdf("langString"), Some("en".to_string()))),
    ]);
    let c = retrieve_rifterm(&g, &blank("c")).expect("constant");
    assert!(c.same_as(&RIFTerm::IRI("http://ex/a".to_string())) || c.same_as(&RIFTerm::IRI("http://ex/b".to_string())));
    assert!(retrieve_rifterm(&g, &blank("m")).is_none());
}

#[test]
fn nul_checks_see_each_part_of_a_term() {
    let xsd_string = "http://www.w3.org/2001/XMLSchema#string";
    assert!(graph_nul_free(&build(vec![triple(nn("http://ex/s"), "http://ex/p", lit("v", xsd_string))])));
    assert!(!graph_nul_free(&build(vec![triple(nn("http://ex/s"), "http://ex/p", lit("v\0", xsd_string))])));
    assert!(!graph_nul_free(&build(vec![triple(nn("http://ex/s\0"), "http://ex/p", lit("v", xsd_string))])));
    let tagged = RdfTerm::Literal("v".to_string(), rdf("langString"), Some("e\0n".to_string()));
    assert!(!graph_nul_free(&build(vec![triple(nn("http://ex/s"), "http://ex/p", tagged.clone())])));
    assert!(!graph_descriptions_nul_free(&build(vec![triple(blank("t"), &rif("value"), tagged)])));
    assert!(!graph_descriptions_nul_free(&build(vec![triple(blank("t"), &rif("varname"), lit("x\0", xsd_string))])));
    assert!(graph_descriptions_nul_free(&build(vec![triple(blank("t"), &rif("items"), nn("http://ex/a\0"))])));
    assert!(graph_descriptions_nul_free(&build(vec![triple(blank("t"), "http://ex/p", lit("v\0", xsd_string))])));
}

#[test]
fn a_nul_in_another_description_leaves_a_term_readable() {
    let any_uri = "http://www.w3.org/2001/XMLSchema#anyURI";
    let g = build(vec![
        triple(blank("t"), &rif("constIRI"), lit("http://ex/a", any_uri)),
        triple(blank("u"), &rif("constIRI"), lit("http://ex/b\0", any_uri)),
    ]);
    assert!(!graph_descriptions_nul_free(&g));
    let t = retrieve_rifterm(&g, &blank("t")).expect("a term");
    assert!(t.same_as(&RIFTerm::IRI("http://ex/a".to_string())));
}
