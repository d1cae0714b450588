use vstd::prelude::*;
use oxrdf::Graph;
use crate::interpreter::MyInterpreter;
use crate::rdf::{RdfTerm, RdfTriple, RdfTripleV, graph_insert, graph_triples};
use crate::rifidata::{Atom, Equal, Frame, Member, RIFTerm, Subclass};

verus! {

/// A graph held under an entailment regime (Simple, RDF, OWL-RDF-Based, OWL-Direct) for
/// which this library gives no reading of formulas: it keeps the graph and answers no
/// query.
pub struct UnreadInterpreter {
    data: Graph,
}

impl UnreadInterpreter {
    /// The triples held.
    pub closed spec fn graph(&self) -> Set<RdfTripleV> {
        graph_triples(self.data)
    }

    /// The graph `data`, held.
    pub fn new(data: Graph) -> (r: Self)
        ensures
            r.graph() == graph_triples(data),
    {
        UnreadInterpreter { data }
    }
}

impl MyInterpreter for UnreadInterpreter {
    fn add(&mut self, subject: &RdfTerm, predicate: &str, object: &RdfTerm)
        ensures
            final(self).graph() == old(self).graph().insert(RdfTripleV { subject: subject@, predicate: predicate@, object: object@ }),
    {
        let t = RdfTriple { subject: subject.duplicate(), predicate: predicate.to_owned(), object: object.duplicate() };
        graph_insert(&mut self.data, &t);
    }

    /// No query reads a term here.
    open spec fn answerable(&self) -> bool {
        true
    }

    fn is_answerable(&self) -> (r: bool) {
        true
    }

    fn get_next_atom(&mut self, op: RIFTerm, args: Option<Vec<RIFTerm>>) -> (r: Option<Atom>)
        ensures
            r is None,
            final(self).graph() == old(self).graph(),
    {
        None
    }

    fn get_next_frame(&mut self, object: RIFTerm, slotkey: RIFTerm, slotvalue: RIFTerm) -> (r: Option<Frame>)
        ensures
            r is None,
            final(self).graph() == old(self).graph(),
    {
        None
    }

    fn get_next_subclass(&mut self, sub: RIFTerm, super_: RIFTerm) -> (r: Option<Subclass>)
        ensures
            r is None,
            final(self).graph() == old(self).graph(),
    {
        None
    }

    fn get_next_member(&mut self, instance: RIFTerm, class: RIFTerm) -> (r: Option<Member>)
        ensures
            r is None,
            final(self).graph() == old(self).graph(),
    {
        None
    }

    fn get_next_equal(&mut self, left: RIFTerm, right: RIFTerm) -> (r: Option<Equal>)
        ensures
            r is None,
            final(self).graph() == old(self).graph(),
    {
        None
    }
}

} // verus!
