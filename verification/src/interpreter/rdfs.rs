use vstd::prelude::*;
use oxrdf::Graph;
use crate::interpreter::{MyInterpreter, triple_read_step, triple_step};
use crate::interpreter::rif::asks_for;
use crate::rdf::{
    RdfTerm, RdfTermV, RdfTriple, RdfTripleV, graph_insert, graph_iter, graph_remove,
    graph_triples, graph_triples_for_predicate, triples_view, triples_with_predicate,
};
use crate::rdfhelper::{
    a_reading, graph_nul_free, items_nul_free, list_read, nul_free, nul_free_term, rdf_list, rdflist_to_riftermvec,
    rif_of_rdf, unambiguous,
};
use crate::rifidata::{Atom, Equal, Frame, Member, RIFTerm, RIFTermV, Subclass, terms_view};
use crate::text::str_eq;
use crate::vocab::{RDFS_SUB_CLASS_OF, RDF_FIRST, RDF_REST, RDF_TYPE};

verus! {

/// The predicates whose triples are not frames under RDFS: `rdf:type`, `rdf:first`,
/// `rdf:rest` and `rdfs:subClassOf`.
pub open spec fn not_a_frame(p: Seq<char>) -> bool {
    p == RDF_TYPE@ || p == RDF_FIRST@ || p == RDF_REST@ || p == RDFS_SUB_CLASS_OF@
}

/// The RIF term for a node of a frame: the list of its items where it starts an RDF
/// collection, else the term for the node itself.
pub open spec fn node_term(s: Set<RdfTripleV>, n: RdfTermV) -> RIFTermV {
    match rdf_list(s, n, s.len()) {
        Some(items) => RIFTermV::List(items.map_values(|t: RdfTermV| rif_of_rdf(t))),
        None => rif_of_rdf(n),
    }
}

/// The frame that the triple `t` of `s` stands for: its subject and (where a blank node)
/// its object read as collections where they start one.
pub open spec fn rdfs_frame(s: Set<RdfTripleV>, t: RdfTripleV) -> (RIFTermV, RIFTermV, RIFTermV) {
    (
        node_term(s, t.subject),
        RIFTermV::IRI(t.predicate),
        if t.object is BlankNode { node_term(s, t.object) } else { rif_of_rdf(t.object) },
    )
}

/// The frame of `t`, where the query `object`, `slotkey`, `slotvalue` asks for it.
pub open spec fn rdfs_frame_answer(s: Set<RdfTripleV>, t: RdfTripleV, object: RIFTermV, slotkey: RIFTermV, slotvalue: RIFTermV) -> Option<(RIFTermV, RIFTermV, RIFTermV)> {
    let f = rdfs_frame(s, t);
    if asks_for(object, f.0) && asks_for(slotkey, f.1) && asks_for(slotvalue, f.2) {
        Some(f)
    } else {
        None
    }
}

/// `r` is a reading, on any graph, of the RIF term for the node `n` of a frame: the list
/// of the items read from the collection it starts, else the term for the node itself.
pub open spec fn node_term_read(s: Set<RdfTripleV>, n: RdfTermV, r: RIFTermV) -> bool {
    exists|l: Option<Seq<RdfTermV>>| #[trigger] list_read(s, n, s.len(), l) && r == match l {
        Some(items) => RIFTermV::List(items.map_values(|t: RdfTermV| rif_of_rdf(t))),
        None => rif_of_rdf(n),
    }
}

/// `r` is a reading, on any graph, of the answer of the triple `t` of `s` to the frame
/// query: its subject and (where a blank node) its object read as by [`node_term_read`].
pub open spec fn rdfs_frame_read(
    s: Set<RdfTripleV>,
    t: RdfTripleV,
    object: RIFTermV,
    slotkey: RIFTermV,
    slotvalue: RIFTermV,
    r: Option<(RIFTermV, RIFTermV, RIFTermV)>,
) -> bool {
    exists|a: RIFTermV, c: RIFTermV| #![trigger a_reading(a), a_reading(c)]
        node_term_read(s, t.subject, a)
        && (if t.object is BlankNode { node_term_read(s, t.object, c) } else { c == rif_of_rdf(t.object) })
        && r == if asks_for(object, a) && asks_for(slotkey, RIFTermV::IRI(t.predicate)) && asks_for(slotvalue, c) {
            Some((a, RIFTermV::IRI(t.predicate), c))
        } else {
            None
        }
}

proof fn lemma_rdfs_frame_read(
    s: Set<RdfTripleV>,
    t: RdfTripleV,
    object: RIFTermV,
    slotkey: RIFTermV,
    slotvalue: RIFTermV,
    a: RIFTermV,
    c: RIFTermV,
)
    requires
        node_term_read(s, t.subject, a),
        if t.object is BlankNode { node_term_read(s, t.object, c) } else { c == rif_of_rdf(t.object) },
    ensures
        rdfs_frame_read(s, t, object, slotkey, slotvalue,
            if asks_for(object, a) && asks_for(slotkey, RIFTermV::IRI(t.predicate)) && asks_for(slotvalue, c) {
                Some((a, RIFTermV::IRI(t.predicate), c))
            } else {
                None
            }),
{
    assert(a_reading(a));
    assert(a_reading(c));
}

/// The subject and object of `t` as RIF terms, where the query `q1`, `q2` asks for them.
pub open spec fn pair_of_triple(t: RdfTripleV, q1: RIFTermV, q2: RIFTermV) -> Option<(RIFTermV, RIFTermV)> {
    if asks_for(q1, rif_of_rdf(t.subject)) && asks_for(q2, rif_of_rdf(t.object)) {
        Some((rif_of_rdf(t.subject), rif_of_rdf(t.object)))
    } else {
        None
    }
}

/// The reading of a graph under RDFS-entailment: `rdfs:subClassOf` triples are subclass
/// formulas, `rdf:type` triples membership formulas, other triples (but for those that
/// build collections) frames.
pub struct RDFSInterpreter {
    data: Graph,
}

impl RDFSInterpreter {
    /// The triples not yet answered.
    pub closed spec fn graph(&self) -> Set<RdfTripleV> {
        graph_triples(self.data)
    }

    /// A reading of the graph `data`.
    pub fn new(data: Graph) -> (r: Self)
        ensures
            r.graph() == graph_triples(data),
    {
        RDFSInterpreter { data }
    }

    /// The next triple with predicate `predicate` whose subject and object the query
    /// `q1`, `q2` asks for, taken out of the graph.
    fn next_pair(&mut self, predicate: &str, q1: &RIFTerm, q2: &RIFTerm) -> (r: Option<(RIFTerm, RIFTerm)>)
        requires
            nul_free(old(self).graph()),
        ensures
            triple_step(old(self).graph(), final(self).graph(), |t: RdfTripleV| t.predicate == predicate@,
                |t: RdfTripleV| pair_of_triple(t, q1@, q2@), true, match r {
                    Some(x) => Some((x.0@, x.1@)),
                    None => None,
                }),
    {
        let ghost s = graph_triples(self.data);
        let ts = graph_triples_for_predicate(&self.data, predicate);
        let ghost tv = triples_view(ts@);
        let n = ts.len();
        let mut i: usize = 0;
        while i < n
            invariant
                n == ts.len(),
                tv == triples_view(ts@),
                tv.to_set() == triples_with_predicate(s, predicate@),
                s == graph_triples(self.data),
                self.data == old(self).data,
                0 <= i <= n,
                forall|k: int| 0 <= k < n ==> (#[trigger] ts@[k])@.well_formed(),
                forall|k: int| 0 <= k < i ==> pair_of_triple(#[trigger] tv[k], q1@, q2@) is None,
                nul_free(s),
            decreases n - i,
        {
            let t = &ts[i];
            assert(tv[i as int] == t@);
            assert(tv.to_set().contains(t@));
            let subj = RIFTerm::from_rdf(&t.subject);
            let obj = RIFTerm::from_rdf(&t.object);
            if (q1.is_var() || q1.same_as(&subj)) && (q2.is_var() || q2.same_as(&obj)) {
                graph_remove(&mut self.data, t);
                proof {
                    assert(tv.to_set().contains(t@));
                    assert(s.contains(t@));
                }
                return Some((subj, obj));
            }
            i = i + 1;
        }
        proof {
            assert forall|t: RdfTripleV| #[trigger] s.contains(t) && t.predicate == predicate@
                implies pair_of_triple(t, q1@, q2@) is None by {
                assert(triples_with_predicate(s, predicate@).contains(t));
                assert(tv.to_set().contains(t));
                assert(tv.contains(t));
            }
        }
        None
    }

    /// The RIF term for a node of a frame (see [`node_term`]).
    fn node_term_of(&self, n: &RdfTerm) -> (r: RIFTerm)
        requires
            n@.is_node(),
            nul_free(self.graph()),
            nul_free_term(n@),
        ensures
            unambiguous(self.graph()) ==> r@ == node_term(self.graph(), n@),
            node_term_read(self.graph(), n@, r@),
    {
        assert(items_nul_free(self.graph()));
        match rdflist_to_riftermvec(&self.data, n) {
            Some(l) => RIFTerm::List(l),
            None => RIFTerm::from_rdf(n),
        }
    }
}

/// Whether `s` is the IRI of one of the predicates whose triples are not frames.
fn is_not_a_frame(s: &str) -> (r: bool)
    ensures
        r == not_a_frame(s@),
{
    str_eq(s, RDF_TYPE) || str_eq(s, RDF_FIRST) || str_eq(s, RDF_REST) || str_eq(s, RDFS_SUB_CLASS_OF)
}

impl MyInterpreter for RDFSInterpreter {
    fn add(&mut self, subject: &RdfTerm, predicate: &str, object: &RdfTerm)
        ensures
            final(self).graph() == if subject@ is NamedNode && (predicate@ == RDF_FIRST@ || predicate@ == RDF_REST@) {
                old(self).graph()
            } else {
                old(self).graph().insert(RdfTripleV { subject: subject@, predicate: predicate@, object: object@ })
            },
    {
        match subject {
            RdfTerm::NamedNode(_) => {
                if str_eq(predicate, RDF_FIRST) || str_eq(predicate, RDF_REST) {
                    return;
                }
            },
            _ => {},
        }
        let t = RdfTriple { subject: subject.duplicate(), predicate: predicate.to_owned(), object: object.duplicate() };
        graph_insert(&mut self.data, &t);
    }

    /// Every triple can be read as RIF terms without meeting a NUL character: a query may
    /// read any triple of its kind, and the items of the lists that frames point at.
    open spec fn answerable(&self) -> bool {
        nul_free(self.graph())
    }

    fn is_answerable(&self) -> (r: bool) {
        graph_nul_free(&self.data)
    }

    fn get_next_frame(&mut self, object: RIFTerm, slotkey: RIFTerm, slotvalue: RIFTerm) -> (r: Option<Frame>)
        ensures
            triple_step(old(self).graph(), final(self).graph(), |t: RdfTripleV| !not_a_frame(t.predicate),
                |t: RdfTripleV| rdfs_frame_answer(old(self).graph(), t, object@, slotkey@, slotvalue@),
                unambiguous(old(self).graph()), match r {
                    Some(f) => Some((f.object@, f.slotkey@, f.slotvalue@)),
                    None => None,
                }),
            triple_read_step(old(self).graph(), final(self).graph(), |t: RdfTripleV| !not_a_frame(t.predicate),
                |t: RdfTripleV, x: Option<(RIFTermV, RIFTermV, RIFTermV)>| rdfs_frame_read(old(self).graph(), t, object@, slotkey@, slotvalue@, x),
                match r {
                    Some(f) => Some((f.object@, f.slotkey@, f.slotvalue@)),
                    None => None,
                }),
    {
        let ghost s = graph_triples(self.data);
        let ts = graph_iter(&self.data);
        let ghost tv = triples_view(ts@);
        let n = ts.len();
        let mut i: usize = 0;
        while i < n
            invariant
                n == ts.len(),
                tv == triples_view(ts@),
                tv.to_set() == s,
                s == graph_triples(self.data),
                self.data == old(self).data,
                0 <= i <= n,
                forall|k: int| 0 <= k < n ==> (#[trigger] ts@[k])@.well_formed(),
                forall|k: int| 0 <= k < i ==> !not_a_frame((#[trigger] tv[k]).predicate) ==>
                    (unambiguous(s) ==> rdfs_frame_answer(s, tv[k], object@, slotkey@, slotvalue@) is None)
                    && rdfs_frame_read(s, tv[k], object@, slotkey@, slotvalue@, None),
                nul_free(s),
            decreases n - i,
        {
            let t = &ts[i];
            assert(tv[i as int] == t@);
            assert(tv.to_set().contains(t@));
            if is_not_a_frame(t.predicate.as_str()) {
                i = i + 1;
                continue;
            }
            let found_subj = self.node_term_of(&t.subject);
            let found_pred = RIFTerm::IRI(t.predicate.clone());
            let found_obj = match &t.object {
                RdfTerm::BlankNode(_) => self.node_term_of(&t.object),
                o => RIFTerm::from_rdf(o),
            };
            proof {
                lemma_rdfs_frame_read(s, t@, object@, slotkey@, slotvalue@, found_subj@, found_obj@);
            }
            if (object.is_var() || object.same_as(&found_subj)) && (slotkey.is_var() || slotkey.same_as(&found_pred))
                && (slotvalue.is_var() || slotvalue.same_as(&found_obj)) {
                graph_remove(&mut self.data, t);
                proof {
                    assert(tv.to_set().contains(t@));
                    assert(s.contains(t@));
                }
                return Some(Frame { object: found_subj, slotkey: found_pred, slotvalue: found_obj });
            }
            i = i + 1;
        }
        proof {
            assert forall|t: RdfTripleV| #[trigger] s.contains(t) && !not_a_frame(t.predicate)
                implies (unambiguous(s) ==> rdfs_frame_answer(s, t, object@, slotkey@, slotvalue@) is None)
                    && rdfs_frame_read(s, t, object@, slotkey@, slotvalue@, None) by {
                assert(tv.to_set().contains(t));
                assert(tv.contains(t));
            }
        }
        None
    }

    fn get_next_subclass(&mut self, sub: RIFTerm, super_: RIFTerm) -> (r: Option<Subclass>)
        ensures
            triple_step(old(self).graph(), final(self).graph(), |t: RdfTripleV| t.predicate == RDFS_SUB_CLASS_OF@,
                |t: RdfTripleV| pair_of_triple(t, sub@, super_@), true, match r {
                    Some(x) => Some((x.sub@, x.super_@)),
                    None => None,
                }),
    {
        match self.next_pair(RDFS_SUB_CLASS_OF, &sub, &super_) {
            Some((a, b)) => Some(Subclass { sub: a, super_: b }),
            None => None,
        }
    }

    fn get_next_member(&mut self, instance: RIFTerm, class: RIFTerm) -> (r: Option<Member>)
        ensures
            triple_step(old(self).graph(), final(self).graph(), |t: RdfTripleV| t.predicate == RDF_TYPE@,
                |t: RdfTripleV| pair_of_triple(t, instance@, class@), true, match r {
                    Some(x) => Some((x.instance@, x.class@)),
                    None => None,
                }),
    {
        match self.next_pair(RDF_TYPE, &instance, &class) {
            Some((a, b)) => Some(Member { instance: a, class: b }),
            None => None,
        }
    }

    fn get_next_equal(&mut self, left: RIFTerm, right: RIFTerm) -> (r: Option<Equal>)
        ensures
            r is None,
            final(self).graph() == old(self).graph(),
    {
        None
    }

    fn get_next_atom(&mut self, op: RIFTerm, args: Option<Vec<RIFTerm>>) -> (r: Option<Atom>)
        ensures
            r is None,
            final(self).graph() == old(self).graph(),
    {
        None
    }
}

}
