use vstd::prelude::*;
use oxrdf::Graph;
use crate::rdf::{
    RdfTerm, RdfTermV, RdfTriple, RdfTripleV, graph_insert, graph_object_for_subject_predicate,
    graph_subjects_for_predicate_object, graph_triples, has_triple, rdf_terms_view,
};
use crate::rdfhelper::{
    ListError, a_reading, descriptions_nul_free, graph_descriptions_nul_free, has_value,
    lemma_no_nul_met, lemma_object_of, list_read, object_of, opt_term_view,
    opt_vec_view, rdf_list, rdfidlist_to_vec, retrieve_rifterm, riftermlist_to_vec, structural,
    term_list, term_list_read, term_of, term_read, unambiguous,
};
use crate::rifidata::{
    Atom, Equal, Frame, Member, RIFTerm, RIFTermV, Subclass, lemma_terms_view, terms_view,
};
use crate::interpreter::MyInterpreter;
use crate::vocab::{
    RDF_TYPE, RIF_ARGS, RIF_ATOM, RIF_CLASS, RIF_EQUAL, RIF_FRAME, RIF_INSTANCE, RIF_LEFT,
    RIF_MEMBER, RIF_OBJECT, RIF_OP, RIF_RIGHT, RIF_SLOTKEY, RIF_SLOTS, RIF_SLOTVALUE, RIF_SUB,
    RIF_SUBCLASS, RIF_SUPER,
};

verus! {

/// The node `q` is the root of a formula of the RIF class `class`.
pub open spec fn has_class(s: Set<RdfTripleV>, q: RdfTermV, class: Seq<char>) -> bool {
    has_triple(s, q, RDF_TYPE@, RdfTermV::NamedNode(class))
}

/// The value of `q` for `p`, where it is an IRI or a blank node.
pub open spec fn subroot(s: Set<RdfTripleV>, q: RdfTermV, p: Seq<char>) -> Option<RdfTermV> {
    match object_of(s, q, p) {
        Some(o) => if o.is_node() { Some(o) } else { None },
        None => None,
    }
}

/// The RIF term described by the value of `q` for `p`.
pub open spec fn term_at(s: Set<RdfTripleV>, q: RdfTermV, p: Seq<char>) -> Option<RIFTermV> {
    match subroot(s, q, p) {
        Some(n) => term_of(s, n, s.len()),
        None => None,
    }
}

/// A query term asks for `found` where it is `Var` or `found` itself.
pub open spec fn asks_for(query: RIFTermV, found: RIFTermV) -> bool {
    query == RIFTermV::Var || query == found
}

/// The value of `root` for `pred`, where it is an IRI or a blank node.
fn get_subroot(graph: &Graph, root: &RdfTerm, pred: &str) -> (r: Option<RdfTerm>)
    requires
        root@.is_node(),
    ensures
        unambiguous(graph_triples(*graph)) && structural(pred@) ==> opt_node_view(r) == subroot(graph_triples(*graph), root@, pred@),
        r matches Some(x) ==> x@.is_node(),
        r matches Some(x) ==> has_triple(graph_triples(*graph), root@, pred@, x@),
        subroot_read(graph_triples(*graph), root@, pred@, opt_node_view(r)),
{
    match graph_object_for_subject_predicate(graph, root, pred) {
        Some(x) => {
            assert(has_value(graph_triples(*graph), root@, pred@));
            proof {
                if unambiguous(graph_triples(*graph)) && structural(pred@) {
                    lemma_object_of(graph_triples(*graph), root@, pred@, x@);
                }
            }
            if x.is_node() {
                Some(x)
            } else {
                None
            }
        },
        None => None,
    }
}

pub open spec fn opt_node_view(o: Option<RdfTerm>) -> Option<RdfTermV> {
    match o {
        Some(t) => Some(t@),
        None => None,
    }
}

/// The RIF term described by the value of `q` for `pred` (see [`term_at`]).
fn term_at_node(graph: &Graph, q: &RdfTerm, pred: &str) -> (r: Option<RIFTerm>)
    requires
        q@.is_node(),
        descriptions_nul_free(graph_triples(*graph)),
        structural(pred@),
    ensures
        unambiguous(graph_triples(*graph)) ==> opt_term_view(r) == term_at(graph_triples(*graph), q@, pred@),
        term_at_read(graph_triples(*graph), q@, pred@, opt_term_view(r)),
{
    let n = get_subroot(graph, q, pred);
    proof {
        assert(a_reading(opt_node_view(n)));
    }
    proof {
        lemma_no_nul_met(graph_triples(*graph), graph_triples(*graph).len());
    }
    match n {
        Some(n) => retrieve_rifterm(graph, &n),
        None => None,
    }
}

/// Whether `query` asks for `found` (see [`asks_for`]).
fn query_asks_for(query: &RIFTerm, found: &RIFTerm) -> (r: bool)
    ensures
        r == asks_for(query@, found@),
{
    query.is_var() || query.same_as(found)
}

/// Whether the list `v` holds the node `t`.
fn contains_node(v: &Vec<RdfTerm>, t: &RdfTerm) -> (r: bool)
    ensures
        r == rdf_terms_view(v@).contains(t@),
{
    let n = v.len();
    let mut i: usize = 0;
    while i < n
        invariant
            n == v.len(),
            0 <= i <= n,
            forall|k: int| 0 <= k < i ==> rdf_terms_view(v@)[k] != t@,
        decreases n - i,
    {
        if v[i].same_as(t) {
            assert(rdf_terms_view(v@)[i as int] == t@);
            return true;
        }
        i = i + 1;
    }
    false
}


/// The two parts (for `p1` and `p2`) of the formula at `q`, where both describe terms
/// and the query `q1`, `q2` asks for them.
pub open spec fn pair_answer(
    s: Set<RdfTripleV>,
    q: RdfTermV,
    p1: Seq<char>,
    p2: Seq<char>,
    q1: RIFTermV,
    q2: RIFTermV,
) -> Option<(RIFTermV, RIFTermV)> {
    match (term_at(s, q, p1), term_at(s, q, p2)) {
        (Some(a), Some(b)) => if asks_for(q1, a) && asks_for(q2, b) {
            Some((a, b))
        } else {
            None
        },
        _ => None,
    }
}

/// `r` is a reading, on any graph, of the value of `q` for `p` where it is an IRI or a
/// blank node: one of the values that `q` has for `p` (which one is left open).
pub open spec fn subroot_read(s: Set<RdfTripleV>, q: RdfTermV, p: Seq<char>, r: Option<RdfTermV>) -> bool {
    if !has_value(s, q, p) {
        r is None
    } else {
        exists|o: RdfTermV| #[trigger] has_triple(s, q, p, o) && r == (if o.is_node() { Some(o) } else { None })
    }
}

/// `r` is a reading, on any graph, of the RIF term described by the value of `q` for `p`.
pub open spec fn term_at_read(s: Set<RdfTripleV>, q: RdfTermV, p: Seq<char>, r: Option<RIFTermV>) -> bool {
    exists|n: Option<RdfTermV>| #![trigger a_reading(n)]
        subroot_read(s, q, p, n) && match n {
            Some(x) => term_read(s, x, s.len(), r),
            None => r is None,
        }
}

/// The answer for the parts read as `a` and (where `a` is asked for) `b`.
pub open spec fn pair_of_reads(q1: RIFTermV, q2: RIFTermV, a: Option<RIFTermV>, b: Option<RIFTermV>) -> Option<(RIFTermV, RIFTermV)> {
    match (a, b) {
        (Some(x), Some(y)) => if asks_for(q1, x) && asks_for(q2, y) { Some((x, y)) } else { None },
        _ => None,
    }
}

/// `r` is a reading, on any graph, of the answer of the formula at `q` to the query
/// `q1`, `q2` for its parts `p1`, `p2`: the part for `p2` is read only where the part
/// for `p1` is read and asked for.
pub open spec fn pair_read(
    s: Set<RdfTripleV>,
    q: RdfTermV,
    p1: Seq<char>,
    p2: Seq<char>,
    q1: RIFTermV,
    q2: RIFTermV,
    r: Option<(RIFTermV, RIFTermV)>,
) -> bool {
    exists|a: Option<RIFTermV>, b: Option<RIFTermV>| #![trigger a_reading(a), a_reading(b)]
        term_at_read(s, q, p1, a) && (a matches Some(x) && asks_for(q1, x) ==> term_at_read(s, q, p2, b))
            && r == if a matches Some(x) && asks_for(q1, x) { pair_of_reads(q1, q2, a, b) } else { None }
}

/// `r` is a reading, on any graph, of the answer of the equality at `q` to the query
/// `left`, `right`.
pub open spec fn equal_read(s: Set<RdfTripleV>, q: RdfTermV, left: RIFTermV, right: RIFTermV, r: Option<(RIFTermV, RIFTermV)>) -> bool {
    exists|a: Option<RIFTermV>, b: Option<RIFTermV>| #![trigger a_reading(a), a_reading(b)]
        term_at_read(s, q, RIF_LEFT@, a) && (a is Some ==> term_at_read(s, q, RIF_RIGHT@, b)) && r == match (a, b) {
            (Some(x), Some(y)) => if equal_query_ok(left, right, x, y) { Some((x, y)) } else { None },
            _ => None,
        }
}

/// `g` is a reading, on any graph, of the arguments of the atom at `q`: none where it
/// has no `rif:args`, else the terms of the collection at one of its values for it
/// (`None` where that value is a literal or no list of terms).
pub open spec fn args_read(s: Set<RdfTripleV>, q: RdfTermV, g: Option<Seq<RIFTermV>>) -> bool {
    if !has_value(s, q, RIF_ARGS@) {
        g == Some(Seq::<RIFTermV>::empty())
    } else {
        exists|n: RdfTermV| #[trigger] has_triple(s, q, RIF_ARGS@, n) && if n.is_node() {
            term_list_read(s, n, s.len(), g)
        } else {
            g is None
        }
    }
}

/// `r` is a reading, on any graph, of the answer of the atom at `q` to the query `op`,
/// `args`: the arguments are read only where the operator is read and asked for.
pub open spec fn atom_read(s: Set<RdfTripleV>, q: RdfTermV, op: RIFTermV, args: Option<Seq<RIFTermV>>, r: Option<(RIFTermV, Seq<RIFTermV>)>) -> bool {
    exists|a: Option<RIFTermV>, g: Option<Seq<RIFTermV>>| #![trigger a_reading(a), a_reading(g)]
        term_at_read(s, q, RIF_OP@, a) && (a matches Some(x) && asks_for(op, x) ==> args_read(s, q, g)) && r == match (a, g) {
            (Some(x), Some(y)) => if asks_for(op, x) && match args {
                Some(e) => accepts_list(e, y),
                None => true,
            } {
                Some((x, y))
            } else {
                None
            },
            _ => None,
        }
}

/// A reading, on any graph, of the frame at `q` answers the query with `f` through its
/// slot `slot`: its object is read as `f.0`, one of its values for `rif:slots` is a node
/// whose collection reads as nodes among which is `slot`, and `slot` reads as `f.1`,
/// `f.2`.
pub open spec fn frame_some_read(
    s: Set<RdfTripleV>,
    q: RdfTermV,
    slot: RdfTermV,
    object: RIFTermV,
    slotkey: RIFTermV,
    slotvalue: RIFTermV,
    f: (RIFTermV, RIFTermV, RIFTermV),
) -> bool {
    &&& term_at_read(s, q, RIF_OBJECT@, Some(f.0))
    &&& asks_for(object, f.0)
    &&& exists|sn: RdfTermV, items: Seq<RdfTermV>| #![trigger has_triple(s, q, RIF_SLOTS@, sn), a_reading(items)]
        has_triple(s, q, RIF_SLOTS@, sn) && sn.is_node() && list_read(s, sn, s.len(), Some(items))
            && (forall|i: int| 0 <= i < items.len() ==> (#[trigger] items[i]).is_node()) && items.contains(slot)
            && pair_read(s, slot, RIF_SLOTKEY@, RIF_SLOTVALUE@, slotkey, slotvalue, Some((f.1, f.2)))
}

/// A reading, on any graph, of the frame at `q` gives no answer to the query but from
/// the slots in `removed`: its object is not read or not asked for, or its slots are not
/// read as a collection of nodes, or each of its slots is in `removed` or reads as no
/// answer.
pub open spec fn frame_none_read(
    s: Set<RdfTripleV>,
    q: RdfTermV,
    removed: Seq<RdfTermV>,
    object: RIFTermV,
    slotkey: RIFTermV,
    slotvalue: RIFTermV,
) -> bool {
    exists|o: Option<RIFTermV>, sn: Option<RdfTermV>, items: Option<Seq<RdfTermV>>|
        #![trigger a_reading(o), a_reading(sn), a_reading(items)]
        term_at_read(s, q, RIF_OBJECT@, o) && (o matches Some(x) && asks_for(object, x) ==> {
            &&& subroot_read(s, q, RIF_SLOTS@, sn)
            &&& (sn matches Some(n) ==> {
                &&& list_read(s, n, s.len(), items)
                &&& (items is Some && (forall|i: int| 0 <= i < items->0.len() ==> (#[trigger] items->0[i]).is_node()) ==>
                    forall|k: int| 0 <= k < items->0.len() ==> removed.contains(#[trigger] items->0[k])
                        || pair_read(s, items->0[k], RIF_SLOTKEY@, RIF_SLOTVALUE@, slotkey, slotvalue, None))
            })
        })
}

proof fn lemma_pair_read(
    s: Set<RdfTripleV>,
    q: RdfTermV,
    p1: Seq<char>,
    p2: Seq<char>,
    q1: RIFTermV,
    q2: RIFTermV,
    a: Option<RIFTermV>,
    b: Option<RIFTermV>,
)
    requires
        term_at_read(s, q, p1, a),
        a matches Some(x) && asks_for(q1, x) ==> term_at_read(s, q, p2, b),
    ensures
        pair_read(s, q, p1, p2, q1, q2, if a matches Some(x) && asks_for(q1, x) { pair_of_reads(q1, q2, a, b) } else { None }),
{
    assert(a_reading(a));
    assert(a_reading(b));
}

proof fn lemma_equal_read(s: Set<RdfTripleV>, q: RdfTermV, left: RIFTermV, right: RIFTermV, a: Option<RIFTermV>, b: Option<RIFTermV>)
    requires
        term_at_read(s, q, RIF_LEFT@, a),
        a is Some ==> term_at_read(s, q, RIF_RIGHT@, b),
    ensures
        equal_read(s, q, left, right, match (a, b) {
            (Some(x), Some(y)) => if equal_query_ok(left, right, x, y) { Some((x, y)) } else { None },
            _ => None,
        }),
{
    assert(a_reading(a));
    assert(a_reading(b));
}

proof fn lemma_atom_read(s: Set<RdfTripleV>, q: RdfTermV, op: RIFTermV, args: Option<Seq<RIFTermV>>, a: Option<RIFTermV>, g: Option<Seq<RIFTermV>>)
    requires
        term_at_read(s, q, RIF_OP@, a),
        a matches Some(x) && asks_for(op, x) ==> args_read(s, q, g),
    ensures
        atom_read(s, q, op, args, match (a, g) {
            (Some(x), Some(y)) => if asks_for(op, x) && match args {
                Some(e) => accepts_list(e, y),
                None => true,
            } {
                Some((x, y))
            } else {
                None
            },
            _ => None,
        }),
{
    assert(a_reading(a));
    assert(a_reading(g));
}

proof fn lemma_frame_none(
    s: Set<RdfTripleV>,
    q: RdfTermV,
    removed: Seq<RdfTermV>,
    object: RIFTermV,
    slotkey: RIFTermV,
    slotvalue: RIFTermV,
    o: Option<RIFTermV>,
    sn: Option<RdfTermV>,
    items: Option<Seq<RdfTermV>>,
)
    requires
        term_at_read(s, q, RIF_OBJECT@, o) && (o matches Some(x) && asks_for(object, x) ==> {
            &&& subroot_read(s, q, RIF_SLOTS@, sn)
            &&& (sn matches Some(n) ==> {
                &&& list_read(s, n, s.len(), items)
                &&& (items is Some && (forall|i: int| 0 <= i < items->0.len() ==> (#[trigger] items->0[i]).is_node()) ==>
                    forall|k: int| 0 <= k < items->0.len() ==> removed.contains(#[trigger] items->0[k])
                        || pair_read(s, items->0[k], RIF_SLOTKEY@, RIF_SLOTVALUE@, slotkey, slotvalue, None))
            })
        }),
    ensures
        frame_none_read(s, q, removed, object, slotkey, slotvalue),
{
    assert(a_reading(o));
    assert(a_reading(sn));
    assert(a_reading(items));
}

/// A RIF document held as its RIF-in-RDF graph, with the formula nodes already answered.
pub struct RIFInterpreter {
    data: Graph,
    removed: Vec<RdfTerm>,
}

impl RIFInterpreter {
    /// The triples of the document.
    pub closed spec fn graph(&self) -> Set<RdfTripleV> {
        graph_triples(self.data)
    }

    /// The formula nodes (and frame slots) that have been answered, in order.
    pub closed spec fn removed(&self) -> Seq<RdfTermV> {
        rdf_terms_view(self.removed@)
    }

    /// An answer `r` to a query for a formula of class `class`, `reads` telling what a
    /// node may be read to answer on any graph and `answer` what it answers on an
    /// unambiguous one: the answer read from a node of that class not answered before,
    /// which is now answered; or `None` where each such node was read to answer nothing.
    pub open spec fn node_step<X>(
        self,
        new: Self,
        class: Seq<char>,
        answer: spec_fn(RdfTermV) -> Option<X>,
        reads: spec_fn(RdfTermV, Option<X>) -> bool,
        r: Option<X>,
    ) -> bool {
        &&& new.graph() == self.graph()
        &&& match r {
            Some(x) => exists|q: RdfTermV|
                #[trigger] has_class(self.graph(), q, class) && !self.removed().contains(q)
                    && new.removed() == self.removed().push(q)
                    && reads(q, Some(x))
                    && (unambiguous(self.graph()) ==> answer(q) == Some(x)),
            None => new.removed() == self.removed()
                && (forall|q: RdfTermV| #[trigger] has_class(self.graph(), q, class) && !self.removed().contains(q)
                    ==> reads(q, None))
                && (unambiguous(self.graph()) ==> forall|q: RdfTermV|
                #[trigger] has_class(self.graph(), q, class) && !self.removed().contains(q)
                    ==> answer(q) is None),
        }
    }

    /// An answer `r` to a frame query: the object of a frame that the query asks for,
    /// with one of its slots, not answered before, whose key and value the query asks
    /// for; that slot is now answered. `None` where no such slot is left (on an
    /// unambiguous graph).
    pub open spec fn frame_step(
        self,
        new: Self,
        object: RIFTermV,
        slotkey: RIFTermV,
        slotvalue: RIFTermV,
        r: Option<(RIFTermV, RIFTermV, RIFTermV)>,
    ) -> bool {
        &&& new.graph() == self.graph()
        &&& match r {
            Some(f) => exists|q: RdfTermV, slot: RdfTermV|
                #![trigger has_class(self.graph(), q, RIF_FRAME@), self.removed().contains(slot)]
                has_class(self.graph(), q, RIF_FRAME@) && !self.removed().contains(slot)
                    && new.removed() == self.removed().push(slot)
                    && frame_some_read(self.graph(), q, slot, object, slotkey, slotvalue, f)
                    && (unambiguous(self.graph()) ==> {
                        &&& frame_object(self.graph(), q, object) == Some(f.0)
                        &&& frame_slots(self.graph(), q) matches Some(slots)
                        &&& slots.contains(slot)
                        &&& pair_answer(self.graph(), slot, RIF_SLOTKEY@, RIF_SLOTVALUE@, slotkey, slotvalue) == Some((f.1, f.2))
                    }),
            None => new.removed() == self.removed()
                && (forall|q: RdfTermV| #[trigger] has_class(self.graph(), q, RIF_FRAME@)
                    ==> frame_none_read(self.graph(), q, self.removed(), object, slotkey, slotvalue))
                && (unambiguous(self.graph()) ==> forall|q: RdfTermV|
                #[trigger] has_class(self.graph(), q, RIF_FRAME@) && frame_object(self.graph(), q, object) is Some
                    && frame_slots(self.graph(), q) is Some
                    ==> forall|k: int| 0 <= k < frame_slots(self.graph(), q)->0.len() ==>
                        self.removed().contains(#[trigger] frame_slots(self.graph(), q)->0[k])
                        || pair_answer(self.graph(), frame_slots(self.graph(), q)->0[k], RIF_SLOTKEY@, RIF_SLOTVALUE@, slotkey, slotvalue) is None),
        }
    }

    /// An interpreter over the document `data`, nothing answered yet.
    pub fn new(data: Graph) -> (r: Self)
        ensures
            r.graph() == graph_triples(data),
            r.removed() == Seq::<RdfTermV>::empty(),
    {
        RIFInterpreter { data, removed: Vec::new() }
    }

    /// The next formula of class `class` whose parts `p1`, `p2` the query asks for.
    fn next_pair(&mut self, class: &str, p1: &str, p2: &str, q1: &RIFTerm, q2: &RIFTerm) -> (r: Option<(RIFTerm, RIFTerm)>)
        requires
            descriptions_nul_free(old(self).graph()),
            structural(p1@),
            structural(p2@),
        ensures
            old(self).node_step(*final(self), class@, |q: RdfTermV| pair_answer(old(self).graph(), q, p1@, p2@, q1@, q2@),
                |q: RdfTermV, x: Option<(RIFTermV, RIFTermV)>| pair_read(old(self).graph(), q, p1@, p2@, q1@, q2@, x), match r {
                Some(x) => Some((x.0@, x.1@)),
                None => None,
            }),
    {
        let ghost s = graph_triples(self.data);
        let class_node = RdfTerm::NamedNode(class.to_owned());
        let qs = graph_subjects_for_predicate_object(&self.data, RDF_TYPE, &class_node);
        let ghost qv = rdf_terms_view(qs@);
        let n = qs.len();
        let mut i: usize = 0;
        while i < n
            invariant
                n == qs.len(),
                qv == rdf_terms_view(qs@),
                0 <= i <= n,
                s == graph_triples(self.data),
                self.data == old(self).data,
                self.removed@ == old(self).removed@,
                descriptions_nul_free(s),
                structural(p1@),
                structural(p2@),
                forall|t: RdfTermV| qv.contains(t) <==> has_class(s, t, class@),
                forall|k: int| 0 <= k < n ==> (#[trigger] qs@[k])@.is_node(),
                forall|k: int| 0 <= k < i ==> rdf_terms_view(self.removed@).contains(#[trigger] qv[k])
                    || ((unambiguous(s) ==> pair_answer(s, qv[k], p1@, p2@, q1@, q2@) is None)
                        && pair_read(s, qv[k], p1@, p2@, q1@, q2@, None)),
            decreases n - i,
        {
            let q = &qs[i];
            assert(qv[i as int] == q@);
            assert(qv.contains(q@));
            if contains_node(&self.removed, q) {
                i = i + 1;
                continue;
            }
            let found1 = match term_at_node(&self.data, q, p1) {
                Some(x) => x,
                None => {
                    proof {
                        lemma_pair_read(s, q@, p1@, p2@, q1@, q2@, None, None);
                    }
                    i = i + 1;
                    continue;
                },
            };
            if !query_asks_for(q1, &found1) {
                proof {
                    lemma_pair_read(s, q@, p1@, p2@, q1@, q2@, Some(found1@), None);
                }
                i = i + 1;
                continue;
            }
            let found2 = match term_at_node(&self.data, q, p2) {
                Some(x) => x,
                None => {
                    proof {
                        lemma_pair_read(s, q@, p1@, p2@, q1@, q2@, Some(found1@), None);
                    }
                    i = i + 1;
                    continue;
                },
            };
            proof {
                lemma_pair_read(s, q@, p1@, p2@, q1@, q2@, Some(found1@), Some(found2@));
            }
            if !query_asks_for(q2, &found2) {
                i = i + 1;
                continue;
            }
            self.removed.push(q.duplicate());
            proof {
                assert(rdf_terms_view(self.removed@) =~= rdf_terms_view(old(self).removed@).push(q@));
            }
            return Some((found1, found2));
        }
        proof {
            assert forall|t: RdfTermV|
                #[trigger] has_class(s, t, class@) && !rdf_terms_view(self.removed@).contains(t)
                implies (unambiguous(s) ==> pair_answer(s, t, p1@, p2@, q1@, q2@) is None)
                    && pair_read(s, t, p1@, p2@, q1@, q2@, None) by {
                assert(qv.contains(t));
                let k = choose|k: int| 0 <= k < qv.len() && qv[k] == t;
                assert(k < i);
            }
        }
        None
    }

    /// The next frame slot that answers the query (see [`RIFInterpreter::frame_step`]).
    fn next_frame(&mut self, object: &RIFTerm, slotkey: &RIFTerm, slotvalue: &RIFTerm) -> (r: Option<(RIFTerm, RIFTerm, RIFTerm)>)
        requires
            descriptions_nul_free(old(self).graph()),
        ensures
            old(self).frame_step(*final(self), object@, slotkey@, slotvalue@, match r {
                Some(x) => Some((x.0@, x.1@, x.2@)),
                None => None,
            }),
    {
        let ghost s = graph_triples(self.data);
        let class_node = RdfTerm::NamedNode(RIF_FRAME.to_owned());
        let qs = graph_subjects_for_predicate_object(&self.data, RDF_TYPE, &class_node);
        let ghost qv = rdf_terms_view(qs@);
        let n = qs.len();
        let mut i: usize = 0;
        while i < n
            invariant
                n == qs.len(),
                qv == rdf_terms_view(qs@),
                0 <= i <= n,
                s == graph_triples(self.data),
                self.data == old(self).data,
                self.removed@ == old(self).removed@,
                descriptions_nul_free(s),
                forall|t: RdfTermV| qv.contains(t) <==> has_class(s, t, RIF_FRAME@),
                forall|k: int| 0 <= k < n ==> (#[trigger] qs@[k])@.is_node(),
                forall|k: int| 0 <= k < i ==> frame_none_read(s, #[trigger] qv[k], rdf_terms_view(self.removed@), object@, slotkey@, slotvalue@),
                forall|k: int| 0 <= k < i ==> (unambiguous(s) && frame_object(s, #[trigger] qv[k], object@) is Some
                    && frame_slots(s, qv[k]) is Some ==> forall|j: int| 0 <= j < frame_slots(s, qv[k])->0.len() ==>
                        rdf_terms_view(self.removed@).contains(#[trigger] frame_slots(s, qv[k])->0[j])
                        || pair_answer(s, frame_slots(s, qv[k])->0[j], RIF_SLOTKEY@, RIF_SLOTVALUE@, slotkey@, slotvalue@) is None),
            decreases n - i,
        {
            let q = &qs[i];
            assert(qv[i as int] == q@);
            assert(qv.contains(q@));
            let ghost removed = rdf_terms_view(self.removed@);
            let found_obj = match term_at_node(&self.data, q, RIF_OBJECT) {
                Some(x) => x,
                None => {
                    proof {
                        lemma_frame_none(s, q@, removed, object@, slotkey@, slotvalue@, None, None, None);
                    }
                    i = i + 1;
                    continue;
                },
            };
            if !query_asks_for(object, &found_obj) {
                proof {
                    lemma_frame_none(s, q@, removed, object@, slotkey@, slotvalue@, Some(found_obj@), None, None);
                }
                i = i + 1;
                continue;
            }
            let slots_node = match get_subroot(&self.data, q, RIF_SLOTS) {
                Some(x) => x,
                None => {
                    proof {
                        lemma_frame_none(s, q@, removed, object@, slotkey@, slotvalue@, Some(found_obj@), None, None);
                    }
                    i = i + 1;
                    continue;
                },
            };
            let listed = rdfidlist_to_vec(&self.data, &slots_node);
            let slotlist = match listed {
                Ok(x) => x,
                Err(e) => {
                    proof {
                        if unambiguous(s) {
                            assert(frame_slots(s, q@) is None);
                        }
                        match e {
                            ListError::NotAList => {
                                lemma_frame_none(s, q@, removed, object@, slotkey@, slotvalue@, Some(found_obj@), Some(slots_node@), None);
                            },
                            ListError::NotANode => {
                                let its = choose|items: Seq<RdfTermV>|
                                    #[trigger] list_read(s, slots_node@, s.len(), Some(items))
                                    && exists|i: int| 0 <= i < items.len() && !(#[trigger] items[i]).is_node();
                                let i0 = choose|i: int| 0 <= i < its.len() && !(#[trigger] its[i]).is_node();
                                assert(!its[i0].is_node());
                                assert(subroot_read(s, q@, RIF_SLOTS@, Some(slots_node@)));
                                lemma_frame_none(s, q@, removed, object@, slotkey@, slotvalue@, Some(found_obj@), Some(slots_node@), Some(its));
                            },
                        }
                    }
                    i = i + 1;
                    continue;
                },
            };
            let ghost sv = rdf_terms_view(slotlist@);
            assert(unambiguous(s) ==> frame_slots(s, q@) == Some(sv));
            let m = slotlist.len();
            let mut j: usize = 0;
            while j < m
                invariant
                    m == slotlist.len(),
                    sv == rdf_terms_view(slotlist@),
                    0 <= j <= m,
                    s == graph_triples(self.data),
                    self.data == old(self).data,
                    self.removed@ == old(self).removed@,
                    descriptions_nul_free(s),
                    forall|k: int| 0 <= k < m ==> (#[trigger] slotlist@[k])@.is_node(),
                    has_class(s, q@, RIF_FRAME@),
                    unambiguous(s) ==> frame_object(s, q@, object@) == Some(found_obj@),
                    unambiguous(s) ==> frame_slots(s, q@) == Some(sv),
                    forall|k: int| 0 <= k < j ==> rdf_terms_view(self.removed@).contains(#[trigger] sv[k])
                        || ((unambiguous(s) ==> pair_answer(s, sv[k], RIF_SLOTKEY@, RIF_SLOTVALUE@, slotkey@, slotvalue@) is None)
                            && pair_read(s, sv[k], RIF_SLOTKEY@, RIF_SLOTVALUE@, slotkey@, slotvalue@, None)),
                    removed == rdf_terms_view(self.removed@),
                    term_at_read(s, q@, RIF_OBJECT@, Some(found_obj@)),
                    asks_for(object@, found_obj@),
                    has_triple(s, q@, RIF_SLOTS@, slots_node@),
                    slots_node@.is_node(),
                    subroot_read(s, q@, RIF_SLOTS@, Some(slots_node@)),
                    list_read(s, slots_node@, s.len(), Some(sv)),
                    forall|k: int| 0 <= k < sv.len() ==> (#[trigger] sv[k]).is_node(),
                decreases m - j,
            {
                let slot = &slotlist[j];
                assert(sv[j as int] == slot@);
                if contains_node(&self.removed, slot) {
                    j = j + 1;
                    continue;
                }
                let found_key = match term_at_node(&self.data, slot, RIF_SLOTKEY) {
                    Some(x) => x,
                    None => {
                        proof {
                            lemma_pair_read(s, slot@, RIF_SLOTKEY@, RIF_SLOTVALUE@, slotkey@, slotvalue@, None, None);
                        }
                        j = j + 1;
                        continue;
                    },
                };
                if !query_asks_for(slotkey, &found_key) {
                    proof {
                        lemma_pair_read(s, slot@, RIF_SLOTKEY@, RIF_SLOTVALUE@, slotkey@, slotvalue@, Some(found_key@), None);
                    }
                    j = j + 1;
                    continue;
                }
                let found_val = match term_at_node(&self.data, slot, RIF_SLOTVALUE) {
                    Some(x) => x,
                    None => {
                        proof {
                            lemma_pair_read(s, slot@, RIF_SLOTKEY@, RIF_SLOTVALUE@, slotkey@, slotvalue@, Some(found_key@), None);
                        }
                        j = j + 1;
                        continue;
                    },
                };
                proof {
                    lemma_pair_read(s, slot@, RIF_SLOTKEY@, RIF_SLOTVALUE@, slotkey@, slotvalue@, Some(found_key@), Some(found_val@));
                }
                if !query_asks_for(slotvalue, &found_val) {
                    j = j + 1;
                    continue;
                }
                self.removed.push(slot.duplicate());
                proof {
                    assert(rdf_terms_view(self.removed@) =~= rdf_terms_view(old(self).removed@).push(slot@));
                    assert(sv.contains(slot@));
                    assert(has_class(old(self).graph(), q@, RIF_FRAME@));
                    assert(!old(self).removed().contains(slot@));
                    assert(unambiguous(s) ==> pair_answer(s, slot@, RIF_SLOTKEY@, RIF_SLOTVALUE@, slotkey@, slotvalue@) == Some((found_key@, found_val@)));
                    assert(a_reading(sv));
                    assert(frame_some_read(s, q@, slot@, object@, slotkey@, slotvalue@, (found_obj@, found_key@, found_val@)));
                }
                return Some((found_obj, found_key, found_val));
            }
            proof {
                lemma_frame_none(s, q@, removed, object@, slotkey@, slotvalue@, Some(found_obj@), Some(slots_node@), Some(sv));
            }
            i = i + 1;
        }
        proof {
            assert forall|t: RdfTermV| #[trigger] has_class(s, t, RIF_FRAME@)
                implies frame_none_read(s, t, rdf_terms_view(self.removed@), object@, slotkey@, slotvalue@) by {
                assert(qv.contains(t));
                let k = choose|k: int| 0 <= k < qv.len() && qv[k] == t;
                assert(k < i);
            }
            assert forall|t: RdfTermV|
                #[trigger] has_class(s, t, RIF_FRAME@) && frame_object(s, t, object@) is Some && frame_slots(s, t) is Some
                    && unambiguous(s)
                implies forall|k: int| 0 <= k < frame_slots(s, t)->0.len() ==>
                    rdf_terms_view(self.removed@).contains(#[trigger] frame_slots(s, t)->0[k])
                    || pair_answer(s, frame_slots(s, t)->0[k], RIF_SLOTKEY@, RIF_SLOTVALUE@, slotkey@, slotvalue@) is None by {
                assert(qv.contains(t));
                let k = choose|k: int| 0 <= k < qv.len() && qv[k] == t;
                assert(k < i);
            }
        }
        None
    }

    /// The next equality whose sides the query asks for (see [`equal_answer`]).
    fn next_equal(&mut self, left: &RIFTerm, right: &RIFTerm) -> (r: Option<(RIFTerm, RIFTerm)>)
        requires
            descriptions_nul_free(old(self).graph()),
        ensures
            old(self).node_step(*final(self), RIF_EQUAL@, |q: RdfTermV| equal_answer(old(self).graph(), q, left@, right@),
                |q: RdfTermV, x: Option<(RIFTermV, RIFTermV)>| equal_read(old(self).graph(), q, left@, right@, x), match r {
                Some(x) => Some((x.0@, x.1@)),
                None => None,
            }),
    {
        let ghost s = graph_triples(self.data);
        let class_node = RdfTerm::NamedNode(RIF_EQUAL.to_owned());
        let qs = graph_subjects_for_predicate_object(&self.data, RDF_TYPE, &class_node);
        let ghost qv = rdf_terms_view(qs@);
        let n = qs.len();
        let mut i: usize = 0;
        while i < n
            invariant
                n == qs.len(),
                qv == rdf_terms_view(qs@),
                0 <= i <= n,
                s == graph_triples(self.data),
                self.data == old(self).data,
                self.removed@ == old(self).removed@,
                descriptions_nul_free(s),
                forall|t: RdfTermV| qv.contains(t) <==> has_class(s, t, RIF_EQUAL@),
                forall|k: int| 0 <= k < n ==> (#[trigger] qs@[k])@.is_node(),
                forall|k: int| 0 <= k < i ==> rdf_terms_view(self.removed@).contains(#[trigger] qv[k])
                    || ((unambiguous(s) ==> equal_answer(s, qv[k], left@, right@) is None)
                        && equal_read(s, qv[k], left@, right@, None)),
            decreases n - i,
        {
            let q = &qs[i];
            assert(qv[i as int] == q@);
            assert(qv.contains(q@));
            if contains_node(&self.removed, q) {
                i = i + 1;
                continue;
            }
            let found_left = match term_at_node(&self.data, q, RIF_LEFT) {
                Some(x) => x,
                None => {
                    proof {
                        lemma_equal_read(s, q@, left@, right@, None, None);
                    }
                    i = i + 1;
                    continue;
                },
            };
            let found_right = match term_at_node(&self.data, q, RIF_RIGHT) {
                Some(x) => x,
                None => {
                    proof {
                        lemma_equal_read(s, q@, left@, right@, Some(found_left@), None);
                    }
                    i = i + 1;
                    continue;
                },
            };
            proof {
                lemma_equal_read(s, q@, left@, right@, Some(found_left@), Some(found_right@));
            }
            if !equal_query_asks_for(left, right, &found_left, &found_right) {
                i = i + 1;
                continue;
            }
            self.removed.push(q.duplicate());
            proof {
                assert(rdf_terms_view(self.removed@) =~= rdf_terms_view(old(self).removed@).push(q@));
            }
            return Some((found_left, found_right));
        }
        proof {
            assert forall|t: RdfTermV|
                #[trigger] has_class(s, t, RIF_EQUAL@) && !rdf_terms_view(self.removed@).contains(t)
                implies (unambiguous(s) ==> equal_answer(s, t, left@, right@) is None)
                    && equal_read(s, t, left@, right@, None) by {
                assert(qv.contains(t));
                let k = choose|k: int| 0 <= k < qv.len() && qv[k] == t;
                assert(k < i);
            }
        }
        None
    }

    /// The next atom whose operator and arguments the query asks for (see
    /// [`atom_answer`]).
    fn next_atom(&mut self, op: &RIFTerm, args: &Option<Vec<RIFTerm>>) -> (r: Option<(RIFTerm, Vec<RIFTerm>)>)
        requires
            descriptions_nul_free(old(self).graph()),
        ensures
            old(self).node_step(*final(self), RIF_ATOM@, |q: RdfTermV| atom_answer(old(self).graph(), q, op@, opt_vec_view(*args)),
                |q: RdfTermV, x: Option<(RIFTermV, Seq<RIFTermV>)>| atom_read(old(self).graph(), q, op@, opt_vec_view(*args), x), match r {
                Some(x) => Some((x.0@, terms_view(x.1@))),
                None => None,
            }),
    {
        let ghost s = graph_triples(self.data);
        let class_node = RdfTerm::NamedNode(RIF_ATOM.to_owned());
        let qs = graph_subjects_for_predicate_object(&self.data, RDF_TYPE, &class_node);
        let ghost qv = rdf_terms_view(qs@);
        let n = qs.len();
        let mut i: usize = 0;
        while i < n
            invariant
                n == qs.len(),
                qv == rdf_terms_view(qs@),
                0 <= i <= n,
                s == graph_triples(self.data),
                self.data == old(self).data,
                self.removed@ == old(self).removed@,
                descriptions_nul_free(s),
                forall|t: RdfTermV| qv.contains(t) <==> has_class(s, t, RIF_ATOM@),
                forall|k: int| 0 <= k < n ==> (#[trigger] qs@[k])@.is_node(),
                forall|k: int| 0 <= k < i ==> rdf_terms_view(self.removed@).contains(#[trigger] qv[k])
                    || ((unambiguous(s) ==> atom_answer(s, qv[k], op@, opt_vec_view(*args)) is None)
                        && atom_read(s, qv[k], op@, opt_vec_view(*args), None)),
            decreases n - i,
        {
            let q = &qs[i];
            assert(qv[i as int] == q@);
            assert(qv.contains(q@));
            if contains_node(&self.removed, q) {
                i = i + 1;
                continue;
            }
            let found_op = match term_at_node(&self.data, q, RIF_OP) {
                Some(x) => x,
                None => {
                    proof {
                        lemma_atom_read(s, q@, op@, opt_vec_view(*args), None, None);
                    }
                    i = i + 1;
                    continue;
                },
            };
            if !query_asks_for(op, &found_op) {
                proof {
                    lemma_atom_read(s, q@, op@, opt_vec_view(*args), Some(found_op@), None);
                }
                i = i + 1;
                continue;
            }
            let found_args = match graph_object_for_subject_predicate(&self.data, q, RIF_ARGS) {
                None => {
                    proof {
                        assert(!has_value(s, q@, RIF_ARGS@));
                        lemma_terms_view(Seq::<RIFTerm>::empty());
                        assert(terms_view(Seq::<RIFTerm>::empty()) =~= Seq::<RIFTermV>::empty());
                    }
                    Vec::new()
                },
                Some(a) => {
                    proof {
                        if unambiguous(s) {
                            lemma_object_of(s, q@, RIF_ARGS@, a@);
                        }
                        assert(has_value(s, q@, RIF_ARGS@));
                    }
                    if !a.is_node() {
                        proof {
                            assert(args_read(s, q@, None));
                            lemma_atom_read(s, q@, op@, opt_vec_view(*args), Some(found_op@), None);
                        }
                        i = i + 1;
                        continue;
                    }
                    proof {
                        lemma_no_nul_met(s, s.len());
                    }
                    match riftermlist_to_vec(&self.data, &a) {
                        Some(x) => {
                            assert(args_read(s, q@, Some(terms_view(x@))));
                            x
                        },
                        None => {
                            proof {
                                assert(args_read(s, q@, None));
                                lemma_atom_read(s, q@, op@, opt_vec_view(*args), Some(found_op@), None);
                            }
                            i = i + 1;
                            continue;
                        },
                    }
                },
            };
            proof {
                assert(args_read(s, q@, Some(terms_view(found_args@))));
                lemma_atom_read(s, q@, op@, opt_vec_view(*args), Some(found_op@), Some(terms_view(found_args@)));
            }
            assert(unambiguous(s) ==> atom_args(s, q@) == Some(terms_view(found_args@)));
            match args {
                Some(arglist) => {
                    if !is_expected_riftermlist(arglist, &found_args) {
                        i = i + 1;
                        continue;
                    }
                },
                None => {},
            }
            self.removed.push(q.duplicate());
            proof {
                assert(rdf_terms_view(self.removed@) =~= rdf_terms_view(old(self).removed@).push(q@));
            }
            return Some((found_op, found_args));
        }
        proof {
            assert forall|t: RdfTermV|
                #[trigger] has_class(s, t, RIF_ATOM@) && !rdf_terms_view(self.removed@).contains(t)
                implies (unambiguous(s) ==> atom_answer(s, t, op@, opt_vec_view(*args)) is None)
                    && atom_read(s, t, op@, opt_vec_view(*args), None) by {
                assert(qv.contains(t));
                let k = choose|k: int| 0 <= k < qv.len() && qv[k] == t;
                assert(k < i);
            }
        }
        None
    }
}

impl MyInterpreter for RIFInterpreter {
    fn add(&mut self, subject: &RdfTerm, predicate: &str, object: &RdfTerm)
        ensures
            final(self).graph() == old(self).graph().insert(RdfTripleV { subject: subject@, predicate: predicate@, object: object@ }),
            final(self).removed() == old(self).removed(),
    {
        let t = RdfTriple { subject: subject.duplicate(), predicate: predicate.to_owned(), object: object.duplicate() };
        graph_insert(&mut self.data, &t);
    }

    /// No description of a term gives it a string with a NUL character: a query reads
    /// terms from the descriptions that formula nodes point at, and which of them depends
    /// on the order in which the graph hands out its triples.
    open spec fn answerable(&self) -> bool {
        descriptions_nul_free(self.graph())
    }

    fn is_answerable(&self) -> (r: bool) {
        graph_descriptions_nul_free(&self.data)
    }

    fn get_next_atom(&mut self, op: RIFTerm, args: Option<Vec<RIFTerm>>) -> (r: Option<Atom>)
        ensures
            old(self).node_step(*final(self), RIF_ATOM@, |q: RdfTermV| atom_answer(old(self).graph(), q, op@, opt_vec_view(args)),
                |q: RdfTermV, x: Option<(RIFTermV, Seq<RIFTermV>)>| atom_read(old(self).graph(), q, op@, opt_vec_view(args), x), match r {
                Some(a) => Some((a.op@, terms_view(a.args@))),
                None => None,
            }),
    {
        match self.next_atom(&op, &args) {
            Some((o, a)) => Some(Atom { op: o, args: a }),
            None => None,
        }
    }

    fn get_next_frame(&mut self, object: RIFTerm, slotkey: RIFTerm, slotvalue: RIFTerm) -> (r: Option<Frame>)
        ensures
            old(self).frame_step(*final(self), object@, slotkey@, slotvalue@, match r {
                Some(f) => Some((f.object@, f.slotkey@, f.slotvalue@)),
                None => None,
            }),
    {
        match self.next_frame(&object, &slotkey, &slotvalue) {
            Some((o, k, v)) => Some(Frame { object: o, slotkey: k, slotvalue: v }),
            None => None,
        }
    }

    fn get_next_subclass(&mut self, sub: RIFTerm, super_: RIFTerm) -> (r: Option<Subclass>)
        ensures
            old(self).node_step(*final(self), RIF_SUBCLASS@, |q: RdfTermV| pair_answer(old(self).graph(), q, RIF_SUB@, RIF_SUPER@, sub@, super_@),
                |q: RdfTermV, x: Option<(RIFTermV, RIFTermV)>| pair_read(old(self).graph(), q, RIF_SUB@, RIF_SUPER@, sub@, super_@, x), match r {
                Some(x) => Some((x.sub@, x.super_@)),
                None => None,
            }),
    {
        match self.next_pair(RIF_SUBCLASS, RIF_SUB, RIF_SUPER, &sub, &super_) {
            Some((a, b)) => Some(Subclass { sub: a, super_: b }),
            None => None,
        }
    }

    fn get_next_member(&mut self, instance: RIFTerm, class: RIFTerm) -> (r: Option<Member>)
        ensures
            old(self).node_step(*final(self), RIF_MEMBER@, |q: RdfTermV| pair_answer(old(self).graph(), q, RIF_INSTANCE@, RIF_CLASS@, instance@, class@),
                |q: RdfTermV, x: Option<(RIFTermV, RIFTermV)>| pair_read(old(self).graph(), q, RIF_INSTANCE@, RIF_CLASS@, instance@, class@, x), match r {
                Some(x) => Some((x.instance@, x.class@)),
                None => None,
            }),
    {
        match self.next_pair(RIF_MEMBER, RIF_INSTANCE, RIF_CLASS, &instance, &class) {
            Some((a, b)) => Some(Member { instance: a, class: b }),
            None => None,
        }
    }

    fn get_next_equal(&mut self, left: RIFTerm, right: RIFTerm) -> (r: Option<Equal>)
        ensures
            old(self).node_step(*final(self), RIF_EQUAL@, |q: RdfTermV| equal_answer(old(self).graph(), q, left@, right@),
                |q: RdfTermV, x: Option<(RIFTermV, RIFTermV)>| equal_read(old(self).graph(), q, left@, right@, x), match r {
                Some(x) => Some((x.left@, x.right@)),
                None => None,
            }),
    {
        match self.next_equal(&left, &right) {
            Some((a, b)) => Some(Equal { left: a, right: b }),
            None => None,
        }
    }
}

/// Whether the query `left`, `right` asks for an equality with sides `fl`, `fr` (see
/// [`equal_query_ok`]).
fn equal_query_asks_for(left: &RIFTerm, right: &RIFTerm, fl: &RIFTerm, fr: &RIFTerm) -> (r: bool)
    ensures
        r == equal_query_ok(left@, right@, fl@, fr@),
{
    if left.is_var() && right.is_var() {
        true
    } else if left.is_var() {
        fl.same_as(right) || fr.same_as(right)
    } else if right.is_var() {
        fl.same_as(left) || fr.same_as(left)
    } else {
        (fl.same_as(left) && fr.same_as(right)) || (fl.same_as(right) && fr.same_as(left))
    }
}

/// Whether the expected term `e` accepts the found term `f`: `Var` accepts anything,
/// lists are compared item by item, any other term must be `f` itself.
pub open spec fn accepts_term(e: RIFTermV, f: RIFTermV) -> bool
    decreases e,
{
    match e {
        RIFTermV::Var => true,
        RIFTermV::List(l1) => match f {
            RIFTermV::List(l2) => accepts_list(l1, l2),
            _ => false,
        },
        _ => e == f,
    }
}

/// Item by item `accepts_term` over two lists of the same length.
pub open spec fn accepts_list(es: Seq<RIFTermV>, fs: Seq<RIFTermV>) -> bool
    decreases es,
{
    if es.len() == 0 {
        fs.len() == 0
    } else {
        &&& fs.len() > 0
        &&& accepts_term(es[0], fs[0])
        &&& accepts_list(es.subrange(1, es.len() as int), fs.subrange(1, fs.len() as int))
    }
}

/// `accepts_list` holds exactly when the lists have the same length and each expected
/// item accepts the found item at the same position.
pub proof fn lemma_accepts_list(es: Seq<RIFTermV>, fs: Seq<RIFTermV>)
    ensures
        accepts_list(es, fs) <==> (es.len() == fs.len() && forall|i: int|
            0 <= i < es.len() ==> #[trigger] accepts_term(es[i], fs[i])),
    decreases es.len(),
{
    if es.len() > 0 && fs.len() > 0 {
        let er = es.subrange(1, es.len() as int);
        let fr = fs.subrange(1, fs.len() as int);
        lemma_accepts_list(er, fr);
        assert(accepts_list(es, fs) == (accepts_term(es[0], fs[0]) && accepts_list(er, fr)));
        if es.len() == fs.len() && (forall|i: int| 0 <= i < es.len() ==> #[trigger] accepts_term(es[i], fs[i])) {
            assert forall|i: int| 0 <= i < er.len() implies #[trigger] accepts_term(er[i], fr[i]) by {
                assert(accepts_term(es[i + 1], fs[i + 1]));
            }
        }
        if accepts_list(es, fs) {
            assert forall|i: int| 0 <= i < es.len() implies #[trigger] accepts_term(es[i], fs[i]) by {
                if i > 0 {
                    assert(accepts_term(er[i - 1], fr[i - 1]));
                }
            }
        }
    }
}

/// Whether each expected term accepts the found term at its position (see
/// [`accepts_list`]).
fn is_expected_riftermlist(expected_list: &Vec<RIFTerm>, found_list: &Vec<RIFTerm>) -> (r: bool)
    ensures
        r == accepts_list(terms_view(expected_list@), terms_view(found_list@)),
    decreases expected_list@,
{
    proof {
        lemma_terms_view(expected_list@);
        lemma_terms_view(found_list@);
        lemma_accepts_list(terms_view(expected_list@), terms_view(found_list@));
    }
    if found_list.len() != expected_list.len() {
        return false;
    }
    let n = expected_list.len();
    let mut i: usize = 0;
    while i < n
        invariant
            n == expected_list.len(),
            n == found_list.len(),
            0 <= i <= n,
            terms_view(expected_list@).len() == n,
            terms_view(found_list@).len() == n,
            forall|k: int| 0 <= k < n ==> #[trigger] terms_view(expected_list@)[k] == (expected_list@[k])@,
            forall|k: int| 0 <= k < n ==> #[trigger] terms_view(found_list@)[k] == (found_list@[k])@,
            forall|k: int| 0 <= k < i ==> accepts_term(#[trigger] terms_view(expected_list@)[k], terms_view(found_list@)[k]),
        decreases n - i,
    {
        assert(decreases_to!(expected_list@ => expected_list@[i as int]));
        if !is_accepts_term(&expected_list[i], &found_list[i]) {
            proof {
                assert(terms_view(expected_list@)[i as int] == (expected_list@[i as int])@);
                assert(terms_view(found_list@)[i as int] == (found_list@[i as int])@);
                lemma_accepts_list(terms_view(expected_list@), terms_view(found_list@));
            }
            return false;
        }
        i = i + 1;
    }
    proof {
        lemma_accepts_list(terms_view(expected_list@), terms_view(found_list@));
    }
    true
}

/// Whether the expected term `expect` accepts the found term `found`.
fn is_accepts_term(expect: &RIFTerm, found: &RIFTerm) -> (r: bool)
    ensures
        r == accepts_term(expect@, found@),
    decreases expect,
{
    match (expect, found) {
        (RIFTerm::Var, _) => true,
        (RIFTerm::List(l1), RIFTerm::List(l2)) => is_expected_riftermlist(l1, l2),
        (RIFTerm::List(_), _) => false,
        (x, y) => x.same_as(y),
    }
}


/// Whether the equality query `left`, `right` asks for an equality with sides `fl`, `fr`:
/// every side of the query that is not `Var` must be one of the found sides, each found
/// side serving one query side at most.
pub open spec fn equal_query_ok(left: RIFTermV, right: RIFTermV, fl: RIFTermV, fr: RIFTermV) -> bool {
    if left == RIFTermV::Var && right == RIFTermV::Var {
        true
    } else if left == RIFTermV::Var {
        fl == right || fr == right
    } else if right == RIFTermV::Var {
        fl == left || fr == left
    } else {
        (fl == left && fr == right) || (fl == right && fr == left)
    }
}

/// The two sides of the equality at `q`, where both describe terms that the query asks for.
pub open spec fn equal_answer(s: Set<RdfTripleV>, q: RdfTermV, left: RIFTermV, right: RIFTermV) -> Option<(RIFTermV, RIFTermV)> {
    match (term_at(s, q, RIF_LEFT@), term_at(s, q, RIF_RIGHT@)) {
        (Some(a), Some(b)) => if equal_query_ok(left, right, a, b) {
            Some((a, b))
        } else {
            None
        },
        _ => None,
    }
}

/// The arguments of the atom at `q`: none where it has no `rif:args`, the terms of its
/// list where that is a node, `None` where it is a literal or no list of terms.
pub open spec fn atom_args(s: Set<RdfTripleV>, q: RdfTermV) -> Option<Seq<RIFTermV>> {
    match object_of(s, q, RIF_ARGS@) {
        None => Some(Seq::empty()),
        Some(n) => if n.is_node() {
            term_list(s, n, s.len())
        } else {
            None
        },
    }
}

/// The operator and arguments of the atom at `q`, where the query `op`, `args` asks for
/// them (`args`: `None` for any arguments).
pub open spec fn atom_answer(s: Set<RdfTripleV>, q: RdfTermV, op: RIFTermV, args: Option<Seq<RIFTermV>>) -> Option<(RIFTermV, Seq<RIFTermV>)> {
    match (term_at(s, q, RIF_OP@), atom_args(s, q)) {
        (Some(o), Some(a)) => if asks_for(op, o) && match args {
            Some(e) => accepts_list(e, a),
            None => true,
        } {
            Some((o, a))
        } else {
            None
        },
        _ => None,
    }
}

/// The object of the frame at `q`, where it describes a term that the query `object`
/// asks for.
pub open spec fn frame_object(s: Set<RdfTripleV>, q: RdfTermV, object: RIFTermV) -> Option<RIFTermV> {
    match term_at(s, q, RIF_OBJECT@) {
        Some(o) => if asks_for(object, o) {
            Some(o)
        } else {
            None
        },
        None => None,
    }
}

/// The slot nodes of the frame at `q`: the items of its `rif:slots` collection, where
/// that is a collection of nodes.
pub open spec fn frame_slots(s: Set<RdfTripleV>, q: RdfTermV) -> Option<Seq<RdfTermV>> {
    match subroot(s, q, RIF_SLOTS@) {
        Some(n) => match rdf_list(s, n, s.len()) {
            Some(items) => if forall|i: int| 0 <= i < items.len() ==> (#[trigger] items[i]).is_node() {
                Some(items)
            } else {
                None
            },
            None => None,
        },
        None => None,
    }
}

}
