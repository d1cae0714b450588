use vstd::prelude::*;
use oxrdf::Graph;
use crate::interpreter::{MyInterpreter, triple_step};
use crate::interpreter::rif::asks_for;
use crate::rdf::{
    RdfTerm, RdfTriple, RdfTripleV, graph_insert, graph_iter, graph_remove, graph_triples,
    triples_view,
};
use crate::rdfhelper::{graph_nul_free, nul_free, rif_of_rdf};
use crate::rifidata::{Atom, Equal, Frame, Member, RIFTerm, RIFTermV, Subclass};

verus! {

/// The frame that a triple stands for: its subject, its predicate and its object, each
/// as the RIF term for it.
pub open spec fn triple_frame(t: RdfTripleV) -> (RIFTermV, RIFTermV, RIFTermV) {
    (rif_of_rdf(t.subject), RIFTermV::IRI(t.predicate), rif_of_rdf(t.object))
}

/// The frame of `t`, where the query `object`, `slotkey`, `slotvalue` asks for it.
pub open spec fn d_frame_answer(t: RdfTripleV, object: RIFTermV, slotkey: RIFTermV, slotvalue: RIFTermV) -> Option<(RIFTermV, RIFTermV, RIFTermV)> {
    let f = triple_frame(t);
    if asks_for(object, f.0) && asks_for(slotkey, f.1) && asks_for(slotvalue, f.2) {
        Some(f)
    } else {
        None
    }
}

/// The reading of a graph under D-entailment: every triple is a frame, and there are no
/// other formulas.
pub struct DInterpreter {
    data: Graph,
}

impl DInterpreter {
    /// The triples not yet answered.
    pub closed spec fn graph(&self) -> Set<RdfTripleV> {
        graph_triples(self.data)
    }

    /// A reading of the graph `data`.
    pub fn new(data: Graph) -> (r: Self)
        ensures
            r.graph() == graph_triples(data),
    {
        DInterpreter { data }
    }
}

impl MyInterpreter for DInterpreter {
    fn add(&mut self, subject: &RdfTerm, predicate: &str, object: &RdfTerm)
        ensures
            final(self).graph() == old(self).graph().insert(RdfTripleV { subject: subject@, predicate: predicate@, object: object@ }),
    {
        let t = RdfTriple { subject: subject.duplicate(), predicate: predicate.to_owned(), object: object.duplicate() };
        graph_insert(&mut self.data, &t);
    }

    /// Every triple can be read as a frame of RIF terms without meeting a NUL character:
    /// a query may read any of them.
    open spec fn answerable(&self) -> bool {
        nul_free(self.graph())
    }

    fn is_answerable(&self) -> (r: bool) {
        graph_nul_free(&self.data)
    }

    fn get_next_frame(&mut self, object: RIFTerm, slotkey: RIFTerm, slotvalue: RIFTerm) -> (r: Option<Frame>)
        ensures
            triple_step(old(self).graph(), final(self).graph(), |t: RdfTripleV| true,
                |t: RdfTripleV| d_frame_answer(t, object@, slotkey@, slotvalue@), true, match r {
                    Some(f) => Some((f.object@, f.slotkey@, f.slotvalue@)),
                    None => None,
                }),
    {
        let ghost s = graph_triples(self.data);
        let ts = graph_iter(&self.data);
        let ghost tv = triples_view(ts@);
        let n = ts.len();
        let mut i: usize = 0;
        while i < n
            invariant
                n == ts.len(),
                tv == triples_view(ts@),
                tv.to_set() == s,
                s == graph_triples(self.data),
                self.data == old(self).data,
                0 <= i <= n,
                forall|k: int| 0 <= k < n ==> (#[trigger] ts@[k])@.well_formed(),
                forall|k: int| 0 <= k < i ==> d_frame_answer(#[trigger] tv[k], object@, slotkey@, slotvalue@) is None,
                nul_free(s),
            decreases n - i,
        {
            let t = &ts[i];
            assert(tv[i as int] == t@);
            assert(tv.to_set().contains(t@));
            let subj = RIFTerm::from_rdf(&t.subject);
            let pred = RIFTerm::IRI(t.predicate.clone());
            let obj = RIFTerm::from_rdf(&t.object);
            if object.is_var() || object.same_as(&subj) {
                if slotkey.is_var() || slotkey.same_as(&pred) {
                    if slotvalue.is_var() || slotvalue.same_as(&obj) {
                        graph_remove(&mut self.data, t);
                        proof {
                            assert(tv.to_set().contains(t@));
                            assert(s.contains(t@));
                            assert(d_frame_answer(t@, object@, slotkey@, slotvalue@) == Some((subj@, pred@, obj@)));
                        }
                        return Some(Frame { object: subj, slotkey: pred, slotvalue: obj });
                    }
                }
            }
            i = i + 1;
        }
        proof {
            assert forall|t: RdfTripleV| #[trigger] s.contains(t) implies d_frame_answer(t, object@, slotkey@, slotvalue@) is None by {
                assert(tv.to_set().contains(t));
                assert(tv.contains(t));
            }
        }
        None
    }

    fn get_next_subclass(&mut self, sub: RIFTerm, super_: RIFTerm) -> (r: Option<Subclass>)
        ensures
            r is None,
            final(self).graph() == old(self).graph(),
    {
        None
    }

    fn get_next_member(&mut self, instance: RIFTerm, class: RIFTerm) -> (r: Option<Member>)
        ensures
            r is None,
            final(self).graph() == old(self).graph(),
    {
        None
    }

    fn get_next_equal(&mut self, left: RIFTerm, right: RIFTerm) -> (r: Option<Equal>)
        ensures
            r is None,
            final(self).graph() == old(self).graph(),
    {
        None
    }

    fn get_next_atom(&mut self, op: RIFTerm, args: Option<Vec<RIFTerm>>) -> (r: Option<Atom>)
        ensures
            r is None,
            final(self).graph() == old(self).graph(),
    {
        None
    }
}

}
