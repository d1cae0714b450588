use vstd::prelude::*;
use crate::formula_call_rdf_hook::{
    HookTripleV, item_node, item_sent, items_sent, list_sent, ht, term_sent, BNODE, LANGLITERAL,
    TYPEDLITERAL, URI,
};
use crate::interpreter::{RIFInterpreter, triple_read_step, triple_step};
use crate::interpreter::d::d_frame_answer;
use crate::interpreter::rdfs::{node_term, not_a_frame, pair_of_triple, rdfs_frame_answer, rdfs_frame_read};
use crate::interpreter::rif::{
    accepts_term, atom_answer, atom_args, atom_read, frame_object, frame_slots, equal_answer, equal_query_ok, equal_read, has_class,
    lemma_accepts_list, pair_answer, pair_read, term_at,
};
use crate::laws::free_of_var;
use crate::rdf::{RdfTermV, RdfTripleV, has_triple};
use crate::rdfhelper::{
    lemma_term_predicates_differ, object_of, rif_of_rdf, spoiled, spoils_term, term_of,
    unambiguous,
};
use crate::rififormulas::RIFIFormulas;
use crate::rifidata::{
    Atom, Equal, Frame, Member, RIFTermV, Subclass, lemma_lists_valid_for, terms_view, valid_for,
};
use crate::vocab::{
    RDF_FIRST, RDF_LANG_STRING, RDF_NIL, RDF_REST, RDF_TYPE, RIF_ATOM, RIF_CONSTIRI, RIF_ITEMS,
    RIF_VALUE, RIF_VARNAME, XSD_STRING, RIF_EQUAL, RIF_FRAME, RIF_LEFT, RIF_OBJECT, RIF_OP,
    RIF_RIGHT, RIF_SLOTKEY, RIF_SLOTVALUE,
};

verus! {

// ---------------------------------------------------------------------------------------
// Equality queries of the RIF reading.
// ---------------------------------------------------------------------------------------

/// Which equalities an equality query asks for, side by side: a query of `Var` only asks
/// for every equality; a query with one side `t` asks for every equality that has `t` on
/// either side; a query with both sides given asks for the equalities with those two
/// sides, in either order. No other equality is asked for.
pub proof fn law_equal_query_asks_for(left: RIFTermV, right: RIFTermV, fl: RIFTermV, fr: RIFTermV)
    ensures
        left == RIFTermV::Var && right == RIFTermV::Var ==> equal_query_ok(left, right, fl, fr),
        left == RIFTermV::Var && right != RIFTermV::Var ==> (equal_query_ok(left, right, fl, fr) <==> (fl == right || fr == right)),
        left != RIFTermV::Var && right == RIFTermV::Var ==> (equal_query_ok(left, right, fl, fr) <==> (fl == left || fr == left)),
        left != RIFTermV::Var && right != RIFTermV::Var ==> (equal_query_ok(left, right, fl, fr)
            <==> ((fl == left && fr == right) || (fl == right && fr == left))),
{
}

/// An equality query does not depend on the order of its sides, nor on the order of the
/// sides found.
pub proof fn law_equal_query_unordered(left: RIFTermV, right: RIFTermV, fl: RIFTermV, fr: RIFTermV)
    ensures
        equal_query_ok(left, right, fl, fr) == equal_query_ok(right, left, fl, fr),
        equal_query_ok(left, right, fl, fr) == equal_query_ok(left, right, fr, fl),
        equal_query_ok(left, right, left, right),
{
}

/// An equality that the RIF reading answers has every side of the query that is not
/// `Var` among its two sides (on any graph); on an unambiguous graph, where it answers
/// nothing, no equality node left has both sides described and asked for.
pub proof fn law_rif_equal_answer(
    s: RIFInterpreter,
    s1: RIFInterpreter,
    left: RIFTermV,
    right: RIFTermV,
    r: Option<(RIFTermV, RIFTermV)>,
)
    requires
        s.node_step(s1, RIF_EQUAL@, |q: RdfTermV| equal_answer(s.graph(), q, left, right),
            |q: RdfTermV, x: Option<(RIFTermV, RIFTermV)>| equal_read(s.graph(), q, left, right, x), r),
    ensures
        r matches Some((a, b)) ==> (left == RIFTermV::Var || left == a || left == b)
            && (right == RIFTermV::Var || right == a || right == b),
        r matches Some((a, b)) ==> equal_query_ok(left, right, a, b),
        unambiguous(s.graph()) && r is Some ==> exists|q: RdfTermV|
            #[trigger] has_class(s.graph(), q, RIF_EQUAL@) && !s.removed().contains(q)
                && s1.removed() == s.removed().push(q)
                && term_at(s.graph(), q, RIF_LEFT@) == Some((r->0).0)
                && term_at(s.graph(), q, RIF_RIGHT@) == Some((r->0).1),
        unambiguous(s.graph()) && r is None ==> forall|q: RdfTermV|
            #[trigger] has_class(s.graph(), q, RIF_EQUAL@) && !s.removed().contains(q)
                ==> match (term_at(s.graph(), q, RIF_LEFT@), term_at(s.graph(), q, RIF_RIGHT@)) {
                    (Some(a), Some(b)) => !equal_query_ok(left, right, a, b),
                    _ => true,
                },
{
    law_equal_query_asks_for(left, right, (r->0).0, (r->0).1);
    if unambiguous(s.graph()) && r is None {
        assert forall|q: RdfTermV|
            #[trigger] has_class(s.graph(), q, RIF_EQUAL@) && !s.removed().contains(q)
            implies match (term_at(s.graph(), q, RIF_LEFT@), term_at(s.graph(), q, RIF_RIGHT@)) {
                (Some(a), Some(b)) => !equal_query_ok(left, right, a, b),
                _ => true,
            } by {
            assert(equal_answer(s.graph(), q, left, right) is None);
        }
    }
}

// ---------------------------------------------------------------------------------------
// Subclass, membership and atom queries of the RIF reading.
// ---------------------------------------------------------------------------------------

/// A formula with two parts (subclass, membership) that the RIF reading answers has parts
/// that the query asks for: each query part is `Var` or the part found (on any graph).
/// On an unambiguous graph, where it answers nothing, no formula node of the class left
/// has both parts described and asked for.
pub proof fn law_rif_pair_answer(
    s: RIFInterpreter,
    s1: RIFInterpreter,
    class: Seq<char>,
    p1: Seq<char>,
    p2: Seq<char>,
    q1: RIFTermV,
    q2: RIFTermV,
    r: Option<(RIFTermV, RIFTermV)>,
)
    requires
        s.node_step(s1, class, |q: RdfTermV| pair_answer(s.graph(), q, p1, p2, q1, q2),
            |q: RdfTermV, x: Option<(RIFTermV, RIFTermV)>| pair_read(s.graph(), q, p1, p2, q1, q2, x), r),
    ensures
        r matches Some((a, b)) ==> (q1 == RIFTermV::Var || a == q1) && (q2 == RIFTermV::Var || b == q2),
        unambiguous(s.graph()) && r is Some ==> exists|q: RdfTermV|
            #[trigger] has_class(s.graph(), q, class) && !s.removed().contains(q)
                && s1.removed() == s.removed().push(q)
                && term_at(s.graph(), q, p1) == Some((r->0).0)
                && term_at(s.graph(), q, p2) == Some((r->0).1),
        unambiguous(s.graph()) && r is None ==> forall|q: RdfTermV|
            #[trigger] has_class(s.graph(), q, class) && !s.removed().contains(q)
                && term_at(s.graph(), q, p1) is Some && term_at(s.graph(), q, p2) is Some
                ==> !((q1 == RIFTermV::Var || term_at(s.graph(), q, p1) == Some(q1))
                    && (q2 == RIFTermV::Var || term_at(s.graph(), q, p2) == Some(q2))),
{
    if unambiguous(s.graph()) && r is None {
        assert forall|q: RdfTermV|
            #[trigger] has_class(s.graph(), q, class) && !s.removed().contains(q)
                && term_at(s.graph(), q, p1) is Some && term_at(s.graph(), q, p2) is Some
            implies !((q1 == RIFTermV::Var || term_at(s.graph(), q, p1) == Some(q1))
                && (q2 == RIFTermV::Var || term_at(s.graph(), q, p2) == Some(q2))) by {
            assert(pair_answer(s.graph(), q, p1, p2, q1, q2) is None);
        }
    }
}

/// An atom that the RIF reading answers has an operator that the query asks for, and,
/// where the query gives arguments, as many arguments as it gives, each accepted by the
/// query's argument at its position (on any graph).
pub proof fn law_rif_atom_answer(
    s: RIFInterpreter,
    s1: RIFInterpreter,
    op: RIFTermV,
    args: Option<Seq<RIFTermV>>,
    r: Option<(RIFTermV, Seq<RIFTermV>)>,
)
    requires
        s.node_step(s1, RIF_ATOM@, |q: RdfTermV| atom_answer(s.graph(), q, op, args),
            |q: RdfTermV, x: Option<(RIFTermV, Seq<RIFTermV>)>| atom_read(s.graph(), q, op, args, x), r),
    ensures
        r matches Some((o, a)) ==> (op == RIFTermV::Var || o == op) && match args {
            Some(e) => e.len() == a.len() && forall|i: int| 0 <= i < e.len() ==> #[trigger] accepts_term(e[i], a[i]),
            None => true,
        },
        unambiguous(s.graph()) && r is Some ==> exists|q: RdfTermV|
            #[trigger] has_class(s.graph(), q, RIF_ATOM@) && !s.removed().contains(q)
                && s1.removed() == s.removed().push(q)
                && term_at(s.graph(), q, RIF_OP@) == Some((r->0).0)
                && atom_args(s.graph(), q) == Some((r->0).1),
{
    if r is Some {
        if args is Some {
            lemma_accepts_list(args->0, (r->0).1);
        }
    }
}

/// A frame that the RIF reading answers has an object, slot key and slot value that the
/// query asks for (on any graph). On an unambiguous graph, where it answers nothing,
/// every frame whose object is described and asked for, and whose slots form a
/// collection, has each slot already answered or not both described and asked for.
pub proof fn law_rif_frame_answer(
    s: RIFInterpreter,
    s1: RIFInterpreter,
    object: RIFTermV,
    slotkey: RIFTermV,
    slotvalue: RIFTermV,
    r: Option<(RIFTermV, RIFTermV, RIFTermV)>,
)
    requires
        s.frame_step(s1, object, slotkey, slotvalue, r),
    ensures
        r matches Some(f) ==> (object == RIFTermV::Var || f.0 == object)
            && (slotkey == RIFTermV::Var || f.1 == slotkey)
            && (slotvalue == RIFTermV::Var || f.2 == slotvalue),
        unambiguous(s.graph()) && r is Some ==> exists|q: RdfTermV, slot: RdfTermV|
            #![trigger has_class(s.graph(), q, RIF_FRAME@), s.removed().contains(slot)]
            has_class(s.graph(), q, RIF_FRAME@) && !s.removed().contains(slot)
                && s1.removed() == s.removed().push(slot)
                && term_at(s.graph(), q, RIF_OBJECT@) == Some((r->0).0)
                && (frame_slots(s.graph(), q) matches Some(slots) && slots.contains(slot))
                && term_at(s.graph(), slot, RIF_SLOTKEY@) == Some((r->0).1)
                && term_at(s.graph(), slot, RIF_SLOTVALUE@) == Some((r->0).2),
        unambiguous(s.graph()) && r is None ==> forall|q: RdfTermV|
            #[trigger] has_class(s.graph(), q, RIF_FRAME@)
                && (term_at(s.graph(), q, RIF_OBJECT@) matches Some(o) && (object == RIFTermV::Var || o == object))
                && frame_slots(s.graph(), q) is Some
                ==> forall|k: int| 0 <= k < frame_slots(s.graph(), q)->0.len() ==>
                    s.removed().contains(#[trigger] frame_slots(s.graph(), q)->0[k]) || !(
                        (term_at(s.graph(), frame_slots(s.graph(), q)->0[k], RIF_SLOTKEY@) matches Some(a)
                            && (slotkey == RIFTermV::Var || a == slotkey))
                        && (term_at(s.graph(), frame_slots(s.graph(), q)->0[k], RIF_SLOTVALUE@) matches Some(b)
                            && (slotvalue == RIFTermV::Var || b == slotvalue))),
{
    if unambiguous(s.graph()) && r is None {
        assert forall|q: RdfTermV|
            #[trigger] has_class(s.graph(), q, RIF_FRAME@)
                && (term_at(s.graph(), q, RIF_OBJECT@) matches Some(o) && (object == RIFTermV::Var || o == object))
                && frame_slots(s.graph(), q) is Some
            implies forall|k: int| 0 <= k < frame_slots(s.graph(), q)->0.len() ==>
                s.removed().contains(#[trigger] frame_slots(s.graph(), q)->0[k]) || !(
                    (term_at(s.graph(), frame_slots(s.graph(), q)->0[k], RIF_SLOTKEY@) matches Some(a)
                        && (slotkey == RIFTermV::Var || a == slotkey))
                    && (term_at(s.graph(), frame_slots(s.graph(), q)->0[k], RIF_SLOTVALUE@) matches Some(b)
                        && (slotvalue == RIFTermV::Var || b == slotvalue))) by {
            assert(frame_object(s.graph(), q, object) is Some);
        }
    }
}

/// On an unambiguous graph, where the RIF reading answers an atom query with nothing,
/// no atom node left has a described operator that the query asks for together with
/// arguments that it accepts.
pub proof fn law_rif_atom_none(
    s: RIFInterpreter,
    s1: RIFInterpreter,
    op: RIFTermV,
    args: Option<Seq<RIFTermV>>,
)
    requires
        unambiguous(s.graph()),
        s.node_step(s1, RIF_ATOM@, |q: RdfTermV| atom_answer(s.graph(), q, op, args),
            |q: RdfTermV, x: Option<(RIFTermV, Seq<RIFTermV>)>| atom_read(s.graph(), q, op, args, x), None),
    ensures
        forall|q: RdfTermV|
            #[trigger] has_class(s.graph(), q, RIF_ATOM@) && !s.removed().contains(q)
                ==> !((term_at(s.graph(), q, RIF_OP@) matches Some(o) && (op == RIFTermV::Var || o == op))
                    && (atom_args(s.graph(), q) matches Some(a) && match args {
                        Some(e) => e.len() == a.len() && forall|i: int| 0 <= i < e.len() ==> #[trigger] accepts_term(e[i], a[i]),
                        None => true,
                    })),
{
    assert forall|q: RdfTermV|
        #[trigger] has_class(s.graph(), q, RIF_ATOM@) && !s.removed().contains(q)
        implies !((term_at(s.graph(), q, RIF_OP@) matches Some(o) && (op == RIFTermV::Var || o == op))
            && (atom_args(s.graph(), q) matches Some(a) && match args {
                Some(e) => e.len() == a.len() && forall|i: int| 0 <= i < e.len() ==> #[trigger] accepts_term(e[i], a[i]),
                None => true,
            })) by {
        assert(atom_answer(s.graph(), q, op, args) is None);
        if atom_args(s.graph(), q) is Some && args is Some {
            lemma_accepts_list(args->0, atom_args(s.graph(), q)->0);
        }
    }
}

// ---------------------------------------------------------------------------------------
// The D and RDFS readings: each answer is one triple of the graph, taken out.
// ---------------------------------------------------------------------------------------

/// A frame that the D reading answers is a triple of the graph (its subject, predicate
/// and object as RIF terms), taken out, whose three parts the query asks for; where it
/// answers nothing, no triple has three parts that the query asks for.
pub proof fn law_d_frame_answer(
    s: Set<RdfTripleV>,
    s1: Set<RdfTripleV>,
    object: RIFTermV,
    slotkey: RIFTermV,
    slotvalue: RIFTermV,
    r: Option<(RIFTermV, RIFTermV, RIFTermV)>,
)
    requires
        triple_step(s, s1, |t: RdfTripleV| true, |t: RdfTripleV| d_frame_answer(t, object, slotkey, slotvalue), true, r),
    ensures
        r matches Some(f) ==> {
            &&& object == RIFTermV::Var || f.0 == object
            &&& slotkey == RIFTermV::Var || f.1 == slotkey
            &&& slotvalue == RIFTermV::Var || f.2 == slotvalue
            &&& exists|t: RdfTripleV| #[trigger] s.contains(t) && s1 == s.remove(t)
                && f == (rif_of_rdf(t.subject), RIFTermV::IRI(t.predicate), rif_of_rdf(t.object))
        },
        r is None ==> s1 == s && forall|t: RdfTripleV| #[trigger] s.contains(t) ==> !(
            (object == RIFTermV::Var || rif_of_rdf(t.subject) == object)
            && (slotkey == RIFTermV::Var || RIFTermV::IRI(t.predicate) == slotkey)
            && (slotvalue == RIFTermV::Var || rif_of_rdf(t.object) == slotvalue)),
{
    if r is None {
        assert forall|t: RdfTripleV| #[trigger] s.contains(t) implies !(
            (object == RIFTermV::Var || rif_of_rdf(t.subject) == object)
            && (slotkey == RIFTermV::Var || RIFTermV::IRI(t.predicate) == slotkey)
            && (slotvalue == RIFTermV::Var || rif_of_rdf(t.object) == slotvalue)) by {
            assert(d_frame_answer(t, object, slotkey, slotvalue) is None);
        }
    }
}

/// A subclass or membership formula that the RDFS reading answers is a triple of the
/// graph with the predicate read (its subject and object as RIF terms), taken out, whose
/// two parts the query asks for; where it answers nothing, no such triple has two parts
/// that the query asks for.
pub proof fn law_rdfs_pair_answer(
    s: Set<RdfTripleV>,
    s1: Set<RdfTripleV>,
    predicate: Seq<char>,
    q1: RIFTermV,
    q2: RIFTermV,
    r: Option<(RIFTermV, RIFTermV)>,
)
    requires
        triple_step(s, s1, |t: RdfTripleV| t.predicate == predicate, |t: RdfTripleV| pair_of_triple(t, q1, q2), true, r),
    ensures
        r matches Some((a, b)) ==> {
            &&& q1 == RIFTermV::Var || a == q1
            &&& q2 == RIFTermV::Var || b == q2
            &&& exists|t: RdfTripleV| #[trigger] s.contains(t) && t.predicate == predicate && s1 == s.remove(t)
                && a == rif_of_rdf(t.subject) && b == rif_of_rdf(t.object)
        },
        r is None ==> s1 == s && forall|t: RdfTripleV| #[trigger] s.contains(t) && t.predicate == predicate ==> !(
            (q1 == RIFTermV::Var || rif_of_rdf(t.subject) == q1)
            && (q2 == RIFTermV::Var || rif_of_rdf(t.object) == q2)),
{
    if r is None {
        assert forall|t: RdfTripleV| #[trigger] s.contains(t) && t.predicate == predicate implies !(
            (q1 == RIFTermV::Var || rif_of_rdf(t.subject) == q1)
            && (q2 == RIFTermV::Var || rif_of_rdf(t.object) == q2)) by {
            assert(pair_of_triple(t, q1, q2) is None);
        }
    }
}

/// A frame that the RDFS reading answers has the predicate of a triple of the graph as
/// its slot key, that triple being taken out, and three parts that the query asks for
/// (on any graph).
pub proof fn law_rdfs_frame_answer(
    s: Set<RdfTripleV>,
    s1: Set<RdfTripleV>,
    eligible: spec_fn(RdfTripleV) -> bool,
    object: RIFTermV,
    slotkey: RIFTermV,
    slotvalue: RIFTermV,
    r: Option<(RIFTermV, RIFTermV, RIFTermV)>,
)
    requires
        triple_read_step(s, s1, eligible,
            |t: RdfTripleV, x: Option<(RIFTermV, RIFTermV, RIFTermV)>| rdfs_frame_read(s, t, object, slotkey, slotvalue, x), r),
    ensures
        r matches Some(f) ==> {
            &&& object == RIFTermV::Var || f.0 == object
            &&& slotkey == RIFTermV::Var || f.1 == slotkey
            &&& slotvalue == RIFTermV::Var || f.2 == slotvalue
            &&& exists|t: RdfTripleV| #[trigger] s.contains(t) && eligible(t) && s1 == s.remove(t)
                && f.1 == RIFTermV::IRI(t.predicate)
        },
        r is None ==> s1 == s,
{
}

/// On an unambiguous graph, a frame that the RDFS reading answers is a triple of the
/// graph, taken out: its subject (read as a collection where it starts one), its
/// predicate and its object (read so where it is a blank node), all three asked for by
/// the query; where it answers nothing, no frame triple has three parts asked for.
pub proof fn law_rdfs_frame_determined(
    s: Set<RdfTripleV>,
    s1: Set<RdfTripleV>,
    object: RIFTermV,
    slotkey: RIFTermV,
    slotvalue: RIFTermV,
    r: Option<(RIFTermV, RIFTermV, RIFTermV)>,
)
    requires
        unambiguous(s),
        triple_step(s, s1, |t: RdfTripleV| !not_a_frame(t.predicate),
            |t: RdfTripleV| rdfs_frame_answer(s, t, object, slotkey, slotvalue), true, r),
    ensures
        r matches Some(f) ==> {
            &&& object == RIFTermV::Var || f.0 == object
            &&& slotkey == RIFTermV::Var || f.1 == slotkey
            &&& slotvalue == RIFTermV::Var || f.2 == slotvalue
            &&& exists|t: RdfTripleV| #[trigger] s.contains(t) && !not_a_frame(t.predicate) && s1 == s.remove(t)
                && f.0 == node_term(s, t.subject) && f.1 == RIFTermV::IRI(t.predicate)
                && f.2 == (if t.object is BlankNode { node_term(s, t.object) } else { rif_of_rdf(t.object) })
        },
        r is None ==> s1 == s && forall|t: RdfTripleV| #[trigger] s.contains(t) && !not_a_frame(t.predicate) ==> !(
            (object == RIFTermV::Var || node_term(s, t.subject) == object)
            && (slotkey == RIFTermV::Var || RIFTermV::IRI(t.predicate) == slotkey)
            && (slotvalue == RIFTermV::Var
                || (if t.object is BlankNode { node_term(s, t.object) } else { rif_of_rdf(t.object) }) == slotvalue)),
{
    if r is None {
        assert forall|t: RdfTripleV| #[trigger] s.contains(t) && !not_a_frame(t.predicate) implies !(
            (object == RIFTermV::Var || node_term(s, t.subject) == object)
            && (slotkey == RIFTermV::Var || RIFTermV::IRI(t.predicate) == slotkey)
            && (slotvalue == RIFTermV::Var
                || (if t.object is BlankNode { node_term(s, t.object) } else { rif_of_rdf(t.object) }) == slotvalue)) by {
            assert(rdfs_frame_answer(s, t, object, slotkey, slotvalue) is None);
        }
    }
}

// ---------------------------------------------------------------------------------------
// The store of formulas.
// ---------------------------------------------------------------------------------------

/// A membership formula taken out of a store is one that was stored, at the first place
/// where both its instance and its class are asked for by the query; where none is taken
/// out, no stored membership formula has both asked for.
pub proof fn law_store_member_answer(s: RIFIFormulas, s1: RIFIFormulas, instance: RIFTermV, class: RIFTermV, r: Option<Member>)
    requires
        s.member_step(s1, instance, class, r),
    ensures
        r matches Some(m) ==> valid_for(instance, m.instance@) && valid_for(class, m.class@) && exists|i: int|
            0 <= i < s.members().len() && #[trigger] s.members()[i] == m && s1.members() == s.members().remove(i)
            && forall|j: int| 0 <= j < i ==> !(valid_for(instance, (#[trigger] s.members()[j]).instance@)
                && valid_for(class, s.members()[j].class@)),
        r is None ==> s1.members() == s.members() && forall|j: int| 0 <= j < s.members().len()
            ==> !(valid_for(instance, (#[trigger] s.members()[j]).instance@) && valid_for(class, s.members()[j].class@)),
{
}

/// The same for atoms: the operator is asked for, and, where the query gives arguments,
/// each is asked for by the query's argument at its position.
pub proof fn law_store_atom_answer(s: RIFIFormulas, s1: RIFIFormulas, op: RIFTermV, args: Option<Seq<RIFTermV>>, r: Option<Atom>)
    requires
        s.atom_step(s1, op, args, r),
    ensures
        r matches Some(a) ==> valid_for(op, a.op@) && match args {
            Some(q) => q.len() == terms_view(a.args@).len() && forall|i: int|
                0 <= i < q.len() ==> #[trigger] valid_for(q[i], terms_view(a.args@)[i]),
            None => true,
        } && exists|i: int| 0 <= i < s.atoms().len() && #[trigger] s.atoms()[i] == a && s1.atoms() == s.atoms().remove(i),
        r is None ==> s1.atoms() == s.atoms(),
{
    if r is Some && args is Some {
        lemma_lists_valid_for(args->0, terms_view((r->0).args@));
    }
}

/// The same for subclass formulas: both the subclass and the superclass are asked for.
pub proof fn law_store_subclass_answer(s: RIFIFormulas, s1: RIFIFormulas, sub: RIFTermV, super_: RIFTermV, r: Option<Subclass>)
    requires
        s.subclass_step(s1, sub, super_, r),
    ensures
        r matches Some(x) ==> valid_for(sub, x.sub@) && valid_for(super_, x.super_@) && exists|i: int|
            0 <= i < s.subclasses().len() && #[trigger] s.subclasses()[i] == x && s1.subclasses() == s.subclasses().remove(i)
            && forall|j: int| 0 <= j < i ==> !(valid_for(sub, (#[trigger] s.subclasses()[j]).sub@)
                && valid_for(super_, s.subclasses()[j].super_@)),
        r is None ==> s1.subclasses() == s.subclasses() && forall|j: int| 0 <= j < s.subclasses().len()
            ==> !(valid_for(sub, (#[trigger] s.subclasses()[j]).sub@) && valid_for(super_, s.subclasses()[j].super_@)),
{
}

/// The same for frames: object, slot key and slot value are all asked for.
pub proof fn law_store_frame_answer(
    s: RIFIFormulas,
    s1: RIFIFormulas,
    object: RIFTermV,
    slotkey: RIFTermV,
    slotvalue: RIFTermV,
    r: Option<Frame>,
)
    requires
        s.frame_step(s1, object, slotkey, slotvalue, r),
    ensures
        r matches Some(f) ==> valid_for(object, f.object@) && valid_for(slotkey, f.slotkey@)
            && valid_for(slotvalue, f.slotvalue@) && exists|i: int|
            0 <= i < s.frames().len() && #[trigger] s.frames()[i] == f && s1.frames() == s.frames().remove(i)
            && forall|j: int| 0 <= j < i ==> !(valid_for(object, (#[trigger] s.frames()[j]).object@)
                && valid_for(slotkey, s.frames()[j].slotkey@) && valid_for(slotvalue, s.frames()[j].slotvalue@)),
        r is None ==> s1.frames() == s.frames() && forall|j: int| 0 <= j < s.frames().len()
            ==> !(valid_for(object, (#[trigger] s.frames()[j]).object@) && valid_for(slotkey, s.frames()[j].slotkey@)
                && valid_for(slotvalue, s.frames()[j].slotvalue@)),
{
}

/// The same for equalities: both sides of the query are asked for, in one order or the
/// other.
pub proof fn law_store_equal_answer(s: RIFIFormulas, s1: RIFIFormulas, left: RIFTermV, right: RIFTermV, r: Option<Equal>)
    requires
        s.equal_step(s1, left, right, r),
    ensures
        r matches Some(e) ==> ((valid_for(left, e.left@) && valid_for(right, e.right@))
            || (valid_for(left, e.right@) && valid_for(right, e.left@))) && exists|i: int|
            0 <= i < s.equals().len() && #[trigger] s.equals()[i] == e && s1.equals() == s.equals().remove(i)
            && forall|j: int| 0 <= j < i ==> !((valid_for(left, (#[trigger] s.equals()[j]).left@) && valid_for(right, s.equals()[j].right@))
                || (valid_for(left, s.equals()[j].right@) && valid_for(right, s.equals()[j].left@))),
        r is None ==> s1.equals() == s.equals() && forall|j: int| 0 <= j < s.equals().len()
            ==> !((valid_for(left, (#[trigger] s.equals()[j]).left@) && valid_for(right, s.equals()[j].right@))
                || (valid_for(left, s.equals()[j].right@) && valid_for(right, s.equals()[j].left@))),
{
}

// ---------------------------------------------------------------------------------------
// Lists sent as RDF collections.
// ---------------------------------------------------------------------------------------

/// The `rdf:first` triple of the cell `k` of a list sent from `id`.
pub open spec fn cell_first(id: Seq<char>, ty: u8, k: int) -> HookTripleV {
    let c = item_node(id, ty, k);
    ht(c.0, c.1, RDF_FIRST@, c.0 + "_first"@, None, BNODE)
}

/// The `rdf:rest` triple that links the cell `k - 1` of a list sent from `id` to the cell `k`.
pub open spec fn cell_link(id: Seq<char>, ty: u8, k: int) -> HookTripleV {
    let prev = item_node(id, ty, k - 1);
    ht(prev.0, prev.1, RDF_REST@, item_node(id, ty, k).0, None, BNODE)
}

proof fn lemma_contains_concat(a: Seq<HookTripleV>, b: Seq<HookTripleV>, x: HookTripleV)
    requires
        a.contains(x) || b.contains(x),
    ensures
        (a + b).contains(x),
{
    if a.contains(x) {
        let i = choose|i: int| 0 <= i < a.len() && a[i] == x;
        assert((a + b)[i] == x);
    } else {
        let i = choose|i: int| 0 <= i < b.len() && b[i] == x;
        assert((a + b)[a.len() + i] == x);
    }
}

proof fn lemma_items_linked(id: Seq<char>, ty: u8, l: Seq<RIFTermV>, k: int)
    requires
        1 <= k <= l.len(),
        forall|i: int| 0 <= i < l.len() ==> free_of_var(#[trigger] l[i]),
    ensures
        items_sent(id, ty, l, k).ok,
        forall|j: int| 0 <= j < k ==> items_sent(id, ty, l, k).triples.contains(#[trigger] cell_first(id, ty, j)),
        forall|j: int| 1 <= j < k ==> items_sent(id, ty, l, k).triples.contains(#[trigger] cell_link(id, ty, j)),
    decreases k,
{
    crate::laws::law_term_sent_unless_var(item_node(id, ty, k - 1).0 + "_first"@, BNODE, l[k - 1]);
    let b = item_sent(item_node(id, ty, k - 1), l[k - 1]);
    let t = crate::formula_call_rdf_hook::term_sent(item_node(id, ty, k - 1).0 + "_first"@, BNODE, l[k - 1]);
    assert(b.triples == t.triples + seq![cell_first(id, ty, k - 1)]);
    assert(b.triples.contains(cell_first(id, ty, k - 1))) by {
        assert(b.triples[t.triples.len() as int] == cell_first(id, ty, k - 1));
    }
    if k == 1 {
        assert forall|j: int| 0 <= j < k implies items_sent(id, ty, l, k).triples.contains(#[trigger] cell_first(id, ty, j)) by {}
    } else {
        lemma_items_linked(id, ty, l, k - 1);
        let a = items_sent(id, ty, l, k - 1);
        let c = seq![cell_link(id, ty, k - 1)];
        assert(items_sent(id, ty, l, k).triples == a.triples + b.triples + c);
        assert forall|j: int| 0 <= j < k implies items_sent(id, ty, l, k).triples.contains(#[trigger] cell_first(id, ty, j)) by {
            if j < k - 1 {
                lemma_contains_concat(a.triples, b.triples, cell_first(id, ty, j));
            } else {
                lemma_contains_concat(a.triples, b.triples, cell_first(id, ty, j));
            }
            lemma_contains_concat(a.triples + b.triples, c, cell_first(id, ty, j));
        }
        assert forall|j: int| 1 <= j < k implies items_sent(id, ty, l, k).triples.contains(#[trigger] cell_link(id, ty, j)) by {
            if j < k - 1 {
                lemma_contains_concat(a.triples, b.triples, cell_link(id, ty, j));
                lemma_contains_concat(a.triples + b.triples, c, cell_link(id, ty, j));
            } else {
                assert(c[0] == cell_link(id, ty, j));
                lemma_contains_concat(a.triples + b.triples, c, cell_link(id, ty, j));
            }
        }
    }
}

/// A list with no `Var` is sent from `id` as an RDF collection whose cells are linked in
/// order: each cell `k` has its item as `rdf:first`, its `rdf:rest` is the cell `k + 1`,
/// and the last cell's `rdf:rest` is `rdf:nil`.
pub proof fn law_list_sent_linked(id: Seq<char>, ty: u8, l: Seq<RIFTermV>)
    requires
        l.len() > 0,
        forall|i: int| 0 <= i < l.len() ==> free_of_var(#[trigger] l[i]),
    ensures
        list_sent(id, ty, l).ok,
        forall|k: int| 0 <= k < l.len() ==> list_sent(id, ty, l).triples.contains(#[trigger] cell_first(id, ty, k)),
        forall|k: int| 1 <= k < l.len() ==> list_sent(id, ty, l).triples.contains(#[trigger] cell_link(id, ty, k)),
        list_sent(id, ty, l).triples.contains(ht(item_node(id, ty, l.len() - 1).0, item_node(id, ty, l.len() - 1).1,
            RDF_REST@, RDF_NIL@, None, URI)),
{
    let n = l.len() as int;
    lemma_items_linked(id, ty, l, n);
    let a = items_sent(id, ty, l, n).triples;
    let last = item_node(id, ty, n - 1);
    let c = seq![ht(last.0, last.1, RDF_REST@, RDF_NIL@, None, URI)];
    assert(list_sent(id, ty, l).triples == a + c);
    assert forall|k: int| 0 <= k < l.len() implies list_sent(id, ty, l).triples.contains(#[trigger] cell_first(id, ty, k)) by {
        lemma_contains_concat(a, c, cell_first(id, ty, k));
    }
    assert forall|k: int| 1 <= k < l.len() implies list_sent(id, ty, l).triples.contains(#[trigger] cell_link(id, ty, k)) by {
        lemma_contains_concat(a, c, cell_link(id, ty, k));
    }
    assert(c[0] == ht(last.0, last.1, RDF_REST@, RDF_NIL@, None, URI));
    lemma_contains_concat(a, c, ht(last.0, last.1, RDF_REST@, RDF_NIL@, None, URI));
}

// ---------------------------------------------------------------------------------------
// A term sent is read back.
// ---------------------------------------------------------------------------------------

/// The RDF term that a call of the triple handler names with `value`, `suffix` and the
/// kind `kind`, in a graph where blank nodes keep the names they are sent with: a blank
/// node, a literal with the datatype `suffix` (a string where there is none), a literal
/// with the language tag `suffix`, or an IRI.
pub open spec fn named_term(value: Seq<char>, suffix: Option<Seq<char>>, kind: u8) -> RdfTermV {
    if kind == BNODE {
        RdfTermV::BlankNode(value)
    } else if kind == TYPEDLITERAL {
        RdfTermV::Literal(value, match suffix { Some(d) => d, None => XSD_STRING@ }, None)
    } else if kind == LANGLITERAL {
        RdfTermV::Literal(value, RDF_LANG_STRING@, Some(match suffix { Some(l) => l, None => Seq::empty() }))
    } else {
        RdfTermV::NamedNode(value)
    }
}

/// The RDF triple that a call of the triple handler adds.
pub open spec fn named_triple(t: HookTripleV) -> RdfTripleV {
    RdfTripleV {
        subject: named_term(t.subject, None, t.subject_type),
        predicate: t.predicate,
        object: named_term(t.object, t.object_suffix, t.object_type),
    }
}

/// The graph that the calls `ts` build, blank nodes keeping their names.
pub open spec fn sent_graph(ts: Seq<HookTripleV>) -> Set<RdfTripleV> {
    Set::new(|x: RdfTripleV| exists|i: int| 0 <= i < ts.len() && named_triple(ts[i]) == x)
}

proof fn lemma_type_differs()
    ensures
        RDF_TYPE@ != RIF_CONSTIRI@,
        RDF_TYPE@ != RIF_VALUE@,
        RDF_TYPE@ != RIF_ITEMS@,
        RDF_TYPE@ != RIF_VARNAME@,
{
    reveal_strlit("http://www.w3.org/1999/02/22-rdf-syntax-ns#type");
    reveal_strlit("http://www.w3.org/2007/rif#constIRI");
    reveal_strlit("http://www.w3.org/2007/rif#value");
    reveal_strlit("http://www.w3.org/2007/rif#items");
    reveal_strlit("http://www.w3.org/2007/rif#varname");
    assert(RDF_TYPE@[18] != RIF_CONSTIRI@[18]);
    assert(RDF_TYPE@[18] != RIF_VALUE@[18]);
    assert(RDF_TYPE@[18] != RIF_ITEMS@[18]);
    assert(RDF_TYPE@[18] != RIF_VARNAME@[18]);
}

/// A constant or a literal with a datatype or a language tag, sent as the blank node
/// `id`, is read back from the triples sent as that same term, whatever the depth to
/// which lists are read.
pub proof fn law_flat_term_read_back(id: Seq<char>, t: RIFTermV, fuel: nat)
    requires
        t is IRI || t matches RIFTermV::TypedLiteral(_, Some(_)) || t is LangLiteral,
    ensures
        term_sent(id, BNODE, t).ok,
        term_of(sent_graph(term_sent(id, BNODE, t).triples), RdfTermV::BlankNode(id), fuel) == Some(t),
{
    lemma_type_differs();
    lemma_term_predicates_differ();
    let ts = term_sent(id, BNODE, t).triples;
    let g = sent_graph(ts);
    let node = RdfTermV::BlankNode(id);
    let p = ts[1].predicate;
    let o = named_term(ts[1].object, ts[1].object_suffix, ts[1].object_type);
    assert(ts.len() == 2);
    assert(named_triple(ts[0]).subject == node && named_triple(ts[0]).predicate == RDF_TYPE@);
    assert(named_triple(ts[1]) == RdfTripleV { subject: node, predicate: p, object: o });
    assert forall|x: RdfTripleV| #[trigger] g.contains(x) implies x == named_triple(ts[0]) || x == named_triple(ts[1]) by {
        let i = choose|i: int| 0 <= i < ts.len() && named_triple(ts[i]) == x;
        assert(i == 0 || i == 1);
    }
    assert(g.contains(named_triple(ts[1])));
    assert(has_triple(g, node, p, o));
    assert forall|q: Seq<char>, x: RdfTermV| q != p && q != RDF_TYPE@ implies !#[trigger] has_triple(g, node, q, x) by {
        let tr = RdfTripleV { subject: node, predicate: q, object: x };
        if g.contains(tr) {
            assert(tr == named_triple(ts[0]) || tr == named_triple(ts[1]));
        }
    }
    assert forall|x: RdfTermV| #[trigger] has_triple(g, node, p, x) implies x == o by {
        let tr = RdfTripleV { subject: node, predicate: p, object: x };
        assert(tr == named_triple(ts[0]) || tr == named_triple(ts[1]));
    }
    assert(!spoiled(g, node)) by {
        if spoiled(g, node) {
            let x = choose|x: RdfTripleV| #[trigger] g.contains(x) && x.subject == node && spoils_term(x);
            assert(x == named_triple(ts[0]) || x == named_triple(ts[1]));
        }
    }
    assert(object_of(g, node, p) == Some(o));
}

} // verus!
