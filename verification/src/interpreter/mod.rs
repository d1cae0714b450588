pub mod d;
pub mod rdfs;
pub mod rif;
pub mod unread;

use vstd::prelude::*;
use crate::rdf::{RdfTerm, RdfTripleV};
use crate::rifidata::{Atom, Equal, Frame, Member, RIFTerm, Subclass};

pub use d::DInterpreter;
pub use rdfs::RDFSInterpreter;
pub use rif::RIFInterpreter;
pub use unread::UnreadInterpreter;

verus! {

/// An answer `r` taken from the triples `old_s`, leaving `new_s`, on any graph: a triple
/// that `eligible` admits was taken out and was read (`reads`) to answer with `r`; or
/// `None`, nothing changed and each admitted triple was read to answer nothing.
pub open spec fn triple_read_step<X>(
    old_s: Set<RdfTripleV>,
    new_s: Set<RdfTripleV>,
    eligible: spec_fn(RdfTripleV) -> bool,
    reads: spec_fn(RdfTripleV, Option<X>) -> bool,
    r: Option<X>,
) -> bool {
    match r {
        Some(x) => exists|t: RdfTripleV|
            #[trigger] old_s.contains(t) && eligible(t) && new_s == old_s.remove(t) && reads(t, Some(x)),
        None => new_s == old_s && forall|t: RdfTripleV|
            #[trigger] old_s.contains(t) && eligible(t) ==> reads(t, None),
    }
}

/// An answer `r` taken from the triples `old_s`, leaving `new_s`: a triple that
/// `eligible` admits was taken out and (where `determined`) answers with `r`; or `None`,
/// nothing changed and (where `determined`) no admitted triple answers. `answer` tells
/// what a triple answers.
pub open spec fn triple_step<X>(
    old_s: Set<RdfTripleV>,
    new_s: Set<RdfTripleV>,
    eligible: spec_fn(RdfTripleV) -> bool,
    answer: spec_fn(RdfTripleV) -> Option<X>,
    determined: bool,
    r: Option<X>,
) -> bool {
    match r {
        Some(x) => exists|t: RdfTripleV|
            #[trigger] old_s.contains(t) && eligible(t) && new_s == old_s.remove(t) && (determined ==> answer(t) == Some(x)),
        None => new_s == old_s && (determined ==> forall|t: RdfTripleV|
            #[trigger] old_s.contains(t) && eligible(t) ==> answer(t) is None),
    }
}

/// A reading of an RDF graph as RIF formulas: formulas are answered to queries one at a
/// time, each at most once. Each implementation states its answers in its own contracts.
pub trait MyInterpreter {
    /// Adds the triple `subject`, `predicate`, `object` to the graph read.
    fn add(&mut self, subject: &RdfTerm, predicate: &str, object: &RdfTerm)
        requires
            subject@.is_node(),
            object@.well_formed(),
    ;

    /// Whether every term that a query may read can be handed on as C strings: no string
    /// that reading it meets holds a NUL character. Answering a query keeps it.
    spec fn answerable(&self) -> bool;

    /// Whether [`MyInterpreter::answerable`] holds.
    fn is_answerable(&self) -> (r: bool)
        ensures
            r == self.answerable(),
    ;

    /// The next atom that the query `op`, `args` asks for (`args`: `None` for any arguments).
    fn get_next_atom(&mut self, op: RIFTerm, args: Option<Vec<RIFTerm>>) -> (r: Option<Atom>)
        requires
            old(self).answerable(),
        ensures
            final(self).answerable(),
    ;

    /// The next frame that the query asks for.
    fn get_next_frame(&mut self, object: RIFTerm, slotkey: RIFTerm, slotvalue: RIFTerm) -> (r: Option<Frame>)
        requires
            old(self).answerable(),
        ensures
            final(self).answerable(),
    ;

    /// The next subclass formula that the query asks for.
    fn get_next_subclass(&mut self, sub: RIFTerm, super_: RIFTerm) -> (r: Option<Subclass>)
        requires
            old(self).answerable(),
        ensures
            final(self).answerable(),
    ;

    /// The next membership formula that the query asks for.
    fn get_next_member(&mut self, instance: RIFTerm, class: RIFTerm) -> (r: Option<Member>)
        requires
            old(self).answerable(),
        ensures
            final(self).answerable(),
    ;

    /// The next equality that the query asks for.
    fn get_next_equal(&mut self, left: RIFTerm, right: RIFTerm) -> (r: Option<Equal>)
        requires
            old(self).answerable(),
        ensures
            final(self).answerable(),
    ;
}

}
