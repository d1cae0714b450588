use vstd::prelude::*;
use vstd::hash_map::StringHashMap;
use oxrdf::{BlankNode, Graph};
use crate::genterms::{
    BNodeMap, CStrArg, generate_IRI, generate_IdentifiedNode, generate_Term, iri_generated,
    node_generated, term_generated,
};
use crate::rdf::{RdfTerm, RdfTermV, RdfTriple, RdfTripleV, graph_insert, graph_new, graph_triples};
use crate::rifidata::RIFIData;

verus! {

/// Whether `id` can be an identifier that `oxrdf` made up for a new blank node: not
/// empty, and starting with a letter from `a` to `f`.
pub open spec fn fresh_blank_id(id: Seq<char>) -> bool {
    id.len() > 0 && 'a' <= id[0] && id[0] <= 'f'
}

/// `oxrdf::BlankNode::default`: a blank node with a new random identifier. The contract
/// states only what holds of every outcome (the form of the identifier); that it differs
/// from the identifiers made before rests on chance and is not stated.
#[verifier::external_body]
fn new_blank_node_id() -> (r: String)
    ensures
        fresh_blank_id(r@),
{
    BlankNode::default().into_string()
}

/// The blank nodes handed out so far, by the names that the caller gave them.
pub struct BlankNodeMap {
    map: StringHashMap<String>,
}

impl BlankNodeMap {
    /// A map that has handed out no blank node.
    pub fn new() -> (r: Self)
        ensures
            r.bnode_map() == Map::<Seq<char>, Seq<char>>::empty(),
    {
        let r = BlankNodeMap { map: StringHashMap::new() };
        assert(r.bnode_map() =~= Map::<Seq<char>, Seq<char>>::empty());
        r
    }
}

impl BNodeMap for BlankNodeMap {
    closed spec fn bnode_map(&self) -> Map<Seq<char>, Seq<char>> {
        self.map@.map_values(|v: String| v@)
    }

    /// The identifier of the blank node for `key`: the one handed out for it before, or
    /// a new one, kept for it from now on.
    fn get_bnode(&mut self, key: &str) -> (r: String)
        ensures
            !old(self).bnode_map().contains_key(key@) ==> fresh_blank_id(r@),
    {
        match self.map.get(key) {
            Some(b) => b.clone(),
            None => {
                let b = new_blank_node_id();
                let ghost before = self.map@;
                self.map.insert(key.to_owned(), b.clone());
                proof {
                    assert(self.map@ == before.insert(key@, b));
                    assert(self.bnode_map() =~= old(self).bnode_map().insert(key@, b@));
                }
                b
            },
        }
    }
}

/// A graph being built triple by triple, with the blank nodes handed out by name.
pub struct RIFIGraph {
    bnodemap: BlankNodeMap,
    data: Graph,
}

impl RIFIGraph {
    /// The triples added so far.
    pub closed spec fn graph(&self) -> Set<RdfTripleV> {
        graph_triples(self.data)
    }

    /// The blank-node identifiers handed out so far, by key.
    pub closed spec fn bnodes(&self) -> Map<Seq<char>, Seq<char>> {
        self.bnodemap.bnode_map()
    }

    /// An empty graph that has handed out no blank node.
    pub fn new() -> (r: Self)
        ensures
            r.graph() == Set::<RdfTripleV>::empty(),
            r.bnodes() == Map::<Seq<char>, Seq<char>>::empty(),
    {
        RIFIGraph { bnodemap: BlankNodeMap::new(), data: graph_new() }
    }

    /// Adds the triple `subject`, `predicate`, `object`.
    pub fn add(&mut self, subject: &RdfTerm, predicate: &str, object: &RdfTerm)
        requires
            subject@.is_node(),
            object@.well_formed(),
        ensures
            final(self).graph() == old(self).graph().insert(
                RdfTripleV { subject: subject@, predicate: predicate@, object: object@ },
            ),
            final(self).bnodes() == old(self).bnodes(),
    {
        let t = RdfTriple {
            subject: subject.duplicate(),
            predicate: predicate.to_owned(),
            object: object.duplicate(),
        };
        graph_insert(&mut self.data, &t);
    }

    /// The source of formulas for the triples added, read under the entailment regime
    /// named by `entailment` (see [`RIFIData::reads_graph`]).
    #[allow(non_snake_case)]
    pub fn to_RIFIData(self, entailment: Option<&str>) -> (r: Option<RIFIData>)
        ensures
            RIFIData::reads_graph(r, self.graph(), match entailment {
                Some(e) => Some(e@),
                None => None,
            }),
    {
        RIFIData::from_graph(self.data, entailment)
    }
}

impl BNodeMap for RIFIGraph {
    closed spec fn bnode_map(&self) -> Map<Seq<char>, Seq<char>> {
        self.bnodes()
    }

    /// The identifier of the blank node for `key` (see [`BlankNodeMap`]); the triples
    /// are not touched.
    fn get_bnode(&mut self, key: &str) -> (r: String)
        ensures
            !old(self).bnodes().contains_key(key@) ==> fresh_blank_id(r@),
            final(self).graph() == old(self).graph(),
    {
        self.bnodemap.get_bnode(key)
    }
}

/// Adds to `data` the triple whose subject, predicate and object are given as C strings
/// with their kinds (see [`generate_IdentifiedNode`], [`generate_IRI`] and
/// [`generate_Term`]). Returns 0 once the triple is added, -2 where the subject names no
/// node, -3 where the predicate is no IRI and -4 where the object names no term; the
/// blank nodes that the subject or object named before a failure stay handed out.
#[allow(non_snake_case)]
pub fn RIFIGraph_add(
    data: &mut RIFIGraph,
    subject: &CStrArg,
    subject_type: u8,
    predicate: &CStrArg,
    object: &CStrArg,
    object_suffix: &CStrArg,
    object_type: u8,
) -> (r: i64)
    ensures
        exists|m1: Map<Seq<char>, Seq<char>>, s: Option<RdfTermV>|
            #[trigger] node_generated(*subject, subject_type, old(data).bnodes(), m1, s) && match s {
                None => r == -2 && final(data).bnodes() == m1 && final(data).graph() == old(data).graph(),
                Some(sv) => match iri_generated(*predicate) {
                    None => r == -3 && final(data).bnodes() == m1 && final(data).graph() == old(data).graph(),
                    Some(p) => exists|o: Option<RdfTermV>|
                        #[trigger] term_generated(*object, *object_suffix, object_type, m1, final(data).bnodes(), o)
                        && match o {
                            None => r == -4 && final(data).graph() == old(data).graph(),
                            Some(ov) => r == 0 && final(data).graph() == old(data).graph().insert(
                                RdfTripleV { subject: sv, predicate: p, object: ov },
                            ),
                        },
                },
            },
{
    let subj = match generate_IdentifiedNode(subject, subject_type, &mut data.bnodemap) {
        Ok(x) => x,
        Err(_) => {
            assert(node_generated(*subject, subject_type, old(data).bnodes(), data.bnodes(), None::<RdfTermV>));
            return -2;
        },
    };
    let ghost m1 = data.bnodes();
    assert(node_generated(*subject, subject_type, old(data).bnodes(), m1, Some(subj@)));
    let pred = match generate_IRI(predicate) {
        Ok(x) => x,
        Err(_) => {
            assert(iri_generated(*predicate) is None);
            return -3;
        },
    };
    let obj = match generate_Term(object, object_suffix, object_type, &mut data.bnodemap) {
        Ok(x) => x,
        Err(_) => {
            assert(term_generated(*object, *object_suffix, object_type, m1, data.bnodes(), None::<RdfTermV>));
            return -4;
        },
    };
    assert(term_generated(*object, *object_suffix, object_type, m1, data.bnodes(), Some(obj@)));
    assert(iri_generated(*predicate) == Some(pred@));
    data.add(&subj, pred.as_str(), &obj);
    0
}

} // verus!
