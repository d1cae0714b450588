use vstd::prelude::*;
use oxrdf::Graph;
use crate::rdf::{
    RdfTerm, RdfTermV, RdfTripleV, graph_iter, graph_len, graph_object_for_subject_predicate,
    graph_triples, graph_triples_for_subject, has_triple, rdf_terms_view, triples_view,
    triples_with_subject,
};
use crate::rifidata::{RIFTerm, RIFTermV, has_nul, lemma_terms_view_push, str_has_nul, terms_view};
use crate::text::str_eq;
use crate::vocab::{
    RDF_FIRST, RDF_NIL, RDF_REST, RIF_CONSTIRI, RIF_ITEMS, RIF_VALUE, RIF_VARNAME, RIF_OBJECT,
    RIF_SLOTS, RIF_SLOTKEY, RIF_SLOTVALUE, RIF_OP, RIF_ARGS, RIF_SUB, RIF_SUPER, RIF_INSTANCE,
    RIF_CLASS, RIF_LEFT, RIF_RIGHT,
};

verus! {

/// The strings that reading `t` as a RIF term hands on as C strings hold no NUL
/// character: the IRI or the blank node identifier; of a literal, its value and its
/// language tag, or its datatype where it has no tag.
pub open spec fn nul_free_term(t: RdfTermV) -> bool {
    match t {
        RdfTermV::NamedNode(x) => !has_nul(x),
        RdfTermV::BlankNode(x) => !has_nul(x),
        RdfTermV::Literal(v, _, Some(l)) => !has_nul(v) && !has_nul(l),
        RdfTermV::Literal(v, d, None) => !has_nul(v) && !has_nul(d),
    }
}

/// No term of `t`, nor its predicate, holds a NUL character where reading it as RIF
/// terms would meet one.
pub open spec fn nul_free_triple(t: RdfTripleV) -> bool {
    nul_free_term(t.subject) && !has_nul(t.predicate) && nul_free_term(t.object)
}

/// Every triple of `s` can be read as RIF terms without meeting a NUL character.
pub open spec fn nul_free(s: Set<RdfTripleV>) -> bool {
    forall|t: RdfTripleV| #[trigger] s.contains(t) ==> nul_free_triple(t)
}

/// Every item of an RDF collection in `s` (an object of `rdf:first`) can be read as a RIF
/// term without meeting a NUL character.
pub open spec fn items_nul_free(s: Set<RdfTripleV>) -> bool {
    forall|t: RdfTripleV| #[trigger] s.contains(t) && t.predicate == RDF_FIRST@ ==> nul_free_term(t.object)
}

/// `t` is part of the description of a RIF term and gives it a string with a NUL
/// character: the literal of `rif:constIRI` or `rif:varname`, or the value, language tag
/// or datatype of the literal of `rif:value`.
pub open spec fn nul_in_description(t: RdfTripleV) -> bool {
    ||| (t.predicate == RIF_CONSTIRI@ || t.predicate == RIF_VARNAME@)
        && (t.object matches RdfTermV::Literal(v, _, _) && has_nul(v))
    ||| t.predicate == RIF_VALUE@ && t.object is Literal && !nul_free_term(t.object)
}

/// No description of a RIF term in `s` gives it a string with a NUL character.
pub open spec fn descriptions_nul_free(s: Set<RdfTripleV>) -> bool {
    forall|t: RdfTripleV| #[trigger] s.contains(t) ==> !nul_in_description(t)
}

/// Whether every triple of `graph` can be read as RIF terms without meeting a NUL
/// character (see [`nul_free`]).
pub fn graph_nul_free(graph: &Graph) -> (r: bool)
    ensures
        r == nul_free(graph_triples(*graph)),
{
    let ghost s = graph_triples(*graph);
    let ts = graph_iter(graph);
    let ghost tv = triples_view(ts@);
    let n = ts.len();
    let mut i: usize = 0;
    while i < n
        invariant
            n == ts.len(),
            tv == triples_view(ts@),
            tv.to_set() == s,
            s == graph_triples(*graph),
            0 <= i <= n,
            forall|k: int| 0 <= k < i ==> nul_free_triple(#[trigger] tv[k]),
        decreases n - i,
    {
        let t = &ts[i];
        assert(tv[i as int] == t@);
        if !term_nul_free(&t.subject) || str_has_nul(t.predicate.as_str()) || !term_nul_free(&t.object) {
            assert(tv.to_set().contains(t@));
            return false;
        }
        i = i + 1;
    }
    assert forall|t: RdfTripleV| #[trigger] s.contains(t) implies nul_free_triple(t) by {
        assert(tv.to_set().contains(t));
        assert(tv.contains(t));
    }
    true
}

/// Whether no description of a RIF term in `graph` gives it a string with a NUL
/// character (see [`descriptions_nul_free`]).
pub fn graph_descriptions_nul_free(graph: &Graph) -> (r: bool)
    ensures
        r == descriptions_nul_free(graph_triples(*graph)),
{
    let ghost s = graph_triples(*graph);
    let ts = graph_iter(graph);
    let ghost tv = triples_view(ts@);
    let n = ts.len();
    let mut i: usize = 0;
    proof {
        lemma_term_predicates_differ();
    }
    while i < n
        invariant
            n == ts.len(),
            tv == triples_view(ts@),
            tv.to_set() == s,
            s == graph_triples(*graph),
            0 <= i <= n,
            RIF_CONSTIRI@ != RIF_VALUE@,
            RIF_VALUE@ != RIF_VARNAME@,
            forall|k: int| 0 <= k < i ==> !nul_in_description(#[trigger] tv[k]),
        decreases n - i,
    {
        let t = &ts[i];
        assert(tv[i as int] == t@);
        let p = t.predicate.as_str();
        let bad = if str_eq(p, RIF_CONSTIRI) || str_eq(p, RIF_VARNAME) {
            match &t.object {
                RdfTerm::Literal(v, _, _) => str_has_nul(v.as_str()),
                _ => false,
            }
        } else if str_eq(p, RIF_VALUE) {
            match &t.object {
                RdfTerm::Literal(..) => !term_nul_free(&t.object),
                _ => false,
            }
        } else {
            false
        };
        if bad {
            assert(tv.to_set().contains(t@));
            return false;
        }
        i = i + 1;
    }
    assert forall|t: RdfTripleV| #[trigger] s.contains(t) implies !nul_in_description(t) by {
        assert(tv.to_set().contains(t));
        assert(tv.contains(t));
    }
    true
}

/// Whether `t` can be read as a RIF term without meeting a NUL character.
fn term_nul_free(t: &RdfTerm) -> (r: bool)
    ensures
        r == nul_free_term(t@),
{
    match t {
        RdfTerm::NamedNode(x) => !str_has_nul(x.as_str()),
        RdfTerm::BlankNode(x) => !str_has_nul(x.as_str()),
        RdfTerm::Literal(v, _, Some(l)) => !str_has_nul(v.as_str()) && !str_has_nul(l.as_str()),
        RdfTerm::Literal(v, d, None) => !str_has_nul(v.as_str()) && !str_has_nul(d.as_str()),
    }
}

/// The predicates by which RIF-in-RDF describes the parts of a formula or a term; a node
/// is meant to have at most one value for each of them.
pub open spec fn structural(p: Seq<char>) -> bool {
    ||| p == RDF_FIRST@ ||| p == RDF_REST@
    ||| p == RIF_CONSTIRI@ ||| p == RIF_VALUE@ ||| p == RIF_ITEMS@ ||| p == RIF_VARNAME@
    ||| p == RIF_OBJECT@ ||| p == RIF_SLOTS@ ||| p == RIF_SLOTKEY@ ||| p == RIF_SLOTVALUE@
    ||| p == RIF_OP@ ||| p == RIF_ARGS@ ||| p == RIF_SUB@ ||| p == RIF_SUPER@
    ||| p == RIF_INSTANCE@ ||| p == RIF_CLASS@ ||| p == RIF_LEFT@ ||| p == RIF_RIGHT@
}

/// No node has two different values for a structural predicate: the graph describes
/// each term, list and formula in one way only, so that reading it does not depend on
/// the order in which the graph is walked.
pub open spec fn unambiguous(s: Set<RdfTripleV>) -> bool {
    forall|t1: RdfTripleV, t2: RdfTripleV|
        #![trigger s.contains(t1), s.contains(t2)]
        s.contains(t1) && s.contains(t2) && t1.subject == t2.subject && t1.predicate == t2.predicate
            && structural(t1.predicate) ==> t1.object == t2.object
}

/// The value of `subject` for `predicate`, if it has one.
pub open spec fn object_of(s: Set<RdfTripleV>, subject: RdfTermV, predicate: Seq<char>) -> Option<RdfTermV> {
    if exists|o: RdfTermV| has_triple(s, subject, predicate, o) {
        Some(choose|o: RdfTermV| has_triple(s, subject, predicate, o))
    } else {
        None
    }
}

/// In an unambiguous graph, the object of a triple with a structural predicate is the
/// value of its subject for that predicate.
pub proof fn lemma_object_of(s: Set<RdfTripleV>, subject: RdfTermV, predicate: Seq<char>, o: RdfTermV)
    requires
        unambiguous(s),
        structural(predicate),
        has_triple(s, subject, predicate, o),
    ensures
        object_of(s, subject, predicate) == Some(o),
{
    let c = choose|o: RdfTermV| has_triple(s, subject, predicate, o);
    let t1 = RdfTripleV { subject, predicate, object: o };
    let t2 = RdfTripleV { subject, predicate, object: c };
    assert(s.contains(t1) && s.contains(t2));
}

/// The four predicates that describe a term differ from each other.
pub proof fn lemma_term_predicates_differ()
    ensures
        RIF_CONSTIRI@ != RIF_VALUE@,
        RIF_CONSTIRI@ != RIF_ITEMS@,
        RIF_CONSTIRI@ != RIF_VARNAME@,
        RIF_VALUE@ != RIF_ITEMS@,
        RIF_VALUE@ != RIF_VARNAME@,
        RIF_ITEMS@ != RIF_VARNAME@,
{
    reveal_strlit("http://www.w3.org/2007/rif#constIRI");
    reveal_strlit("http://www.w3.org/2007/rif#value");
    reveal_strlit("http://www.w3.org/2007/rif#items");
    reveal_strlit("http://www.w3.org/2007/rif#varname");
    assert(RIF_CONSTIRI@[27] != RIF_VALUE@[27]);
    assert(RIF_CONSTIRI@[27] != RIF_ITEMS@[27]);
    assert(RIF_CONSTIRI@[27] != RIF_VARNAME@[27]);
    assert(RIF_VALUE@[28] != RIF_ITEMS@[28]);
    assert(RIF_VALUE@[29] != RIF_VARNAME@[29]);
    assert(RIF_ITEMS@[27] != RIF_VARNAME@[27]);
}

/// `rdf:nil`.
pub open spec fn nil() -> RdfTermV {
    RdfTermV::NamedNode(RDF_NIL@)
}

/// The items of the RDF collection that starts at `node`, following at most `fuel` links:
/// `None` where a link has no `rdf:first`, where an `rdf:rest` is missing or a literal,
/// or where `rdf:nil` is not reached within `fuel` links.
pub open spec fn rdf_list(s: Set<RdfTripleV>, node: RdfTermV, fuel: nat) -> Option<Seq<RdfTermV>>
    decreases fuel,
{
    if node == nil() {
        Some(Seq::empty())
    } else if fuel == 0 {
        None
    } else {
        match (object_of(s, node, RDF_FIRST@), object_of(s, node, RDF_REST@)) {
            (Some(f), Some(r)) => if r.is_node() {
                match rdf_list(s, r, (fuel - 1) as nat) {
                    Some(l) => Some(seq![f] + l),
                    None => None,
                }
            } else {
                None
            },
            _ => None,
        }
    }
}

/// `node` has a value for `p` in `s`.
pub open spec fn has_value(s: Set<RdfTripleV>, node: RdfTermV, p: Seq<char>) -> bool {
    exists|o: RdfTermV| #[trigger] has_triple(s, node, p, o)
}

/// `l` with the items `p` put before it.
pub open spec fn prepend<T>(p: Seq<T>, l: Option<Seq<T>>) -> Option<Seq<T>> {
    match l {
        Some(x) => Some(p + x),
        None => None,
    }
}

/// Names a reading, so that a proof can point at it.
pub open spec fn a_reading<T>(l: T) -> bool {
    true
}

/// `r` is a reading of the RDF collection that starts at `node`, on any graph: each
/// cell's `rdf:first` and `rdf:rest` are one of the values that the cell has for them
/// (which one the graph hands out is left open), following at most `fuel` links; `None`
/// where a cell lacks either, where the `rdf:rest` read is a literal, or where `rdf:nil`
/// is not reached within `fuel` links.
pub open spec fn list_read(s: Set<RdfTripleV>, node: RdfTermV, fuel: nat, r: Option<Seq<RdfTermV>>) -> bool
    decreases fuel,
{
    if node == nil() {
        r == Some(Seq::<RdfTermV>::empty())
    } else if fuel == 0 || !has_value(s, node, RDF_FIRST@) || !has_value(s, node, RDF_REST@) {
        r is None
    } else {
        exists|f: RdfTermV, rest: RdfTermV, l: Option<Seq<RdfTermV>>|
            #![trigger has_triple(s, node, RDF_FIRST@, f), has_triple(s, node, RDF_REST@, rest), a_reading(l)]
            has_triple(s, node, RDF_FIRST@, f) && has_triple(s, node, RDF_REST@, rest) && if rest.is_node() {
                list_read(s, rest, (fuel - 1) as nat, l) && r == prepend(seq![f], l)
            } else {
                r is None
            }
    }
}

/// A cell with the values `f` and `rest` reads as `f` before the reading `l` of `rest`,
/// or as `None` where `rest` is a literal.
pub proof fn lemma_list_read_step(s: Set<RdfTripleV>, node: RdfTermV, fuel: nat, f: RdfTermV, rest: RdfTermV, l: Option<Seq<RdfTermV>>)
    requires
        node != nil(),
        fuel > 0,
        has_triple(s, node, RDF_FIRST@, f),
        has_triple(s, node, RDF_REST@, rest),
        rest.is_node() ==> list_read(s, rest, (fuel - 1) as nat, l),
    ensures
        list_read(s, node, fuel, if rest.is_node() { prepend(seq![f], l) } else { None }),
{
    assert(has_value(s, node, RDF_FIRST@));
    assert(has_value(s, node, RDF_REST@));
    assert(a_reading(l));
}

fn rdf_nil() -> (r: RdfTerm)
    ensures
        r@ == nil(),
{
    RdfTerm::NamedNode(String::from_str(RDF_NIL))
}

/// The items of the RDF collection that starts at `root`, following at most `fuel` links.
pub fn rdflist_to_vec_bounded(graph: &Graph, root: &RdfTerm, fuel: usize) -> (r: Option<Vec<RdfTerm>>)
    requires
        root@.is_node(),
    ensures
        unambiguous(graph_triples(*graph)) ==> match r {
            Some(v) => rdf_list(graph_triples(*graph), root@, fuel as nat) == Some(rdf_terms_view(v@)),
            None => rdf_list(graph_triples(*graph), root@, fuel as nat) is None,
        },
        list_read(graph_triples(*graph), root@, fuel as nat, match r {
            Some(v) => Some(rdf_terms_view(v@)),
            None => None,
        }),
        items_nul_free(graph_triples(*graph)) ==> (r matches Some(v) ==> forall|k: int| 0 <= k < v.len() ==> nul_free_term(#[trigger] v@[k]@)),
{
    let ghost s = graph_triples(*graph);
    let nil_node = rdf_nil();
    let mut ret: Vec<RdfTerm> = Vec::new();
    let mut tmp = root.duplicate();
    let mut left = fuel;
    assert forall|l: Option<Seq<RdfTermV>>| #[trigger] list_read(s, tmp@, left as nat, l)
        implies list_read(s, root@, fuel as nat, prepend(rdf_terms_view(ret@), l)) by {
        match l {
            Some(x) => {
                assert(rdf_terms_view(ret@) + x =~= x);
            },
            None => {},
        }
    }
    while !tmp.same_as(&nil_node)
        invariant
            s == graph_triples(*graph),
            nil_node@ == nil(),
            tmp@.is_node(),
            left <= fuel,
            unambiguous(s) ==> rdf_list(s, root@, fuel as nat) == match rdf_list(s, tmp@, left as nat) {
                Some(l) => Some(rdf_terms_view(ret@) + l),
                None => None,
            },
            forall|l: Option<Seq<RdfTermV>>| #[trigger] list_read(s, tmp@, left as nat, l)
                ==> list_read(s, root@, fuel as nat, prepend(rdf_terms_view(ret@), l)),
            items_nul_free(s) ==> forall|k: int| 0 <= k < ret.len() ==> nul_free_term(#[trigger] ret@[k]@),
        decreases left,
    {
        if left == 0 {
            assert(list_read(s, tmp@, left as nat, None));
            return None;
        }
        let first = match graph_object_for_subject_predicate(graph, &tmp, RDF_FIRST) {
            Some(x) => x,
            None => {
                assert(!has_value(s, tmp@, RDF_FIRST@));
                assert(list_read(s, tmp@, left as nat, None));
                return None;
            },
        };
        let rest = match graph_object_for_subject_predicate(graph, &tmp, RDF_REST) {
            Some(x) => x,
            None => {
                assert(!has_value(s, tmp@, RDF_REST@));
                assert(list_read(s, tmp@, left as nat, None));
                return None;
            },
        };
        assert(has_value(s, tmp@, RDF_FIRST@));
        assert(has_value(s, tmp@, RDF_REST@));
        if !rest.is_node() {
            proof {
                lemma_list_read_step(s, tmp@, left as nat, first@, rest@, None);
            }
            proof {
                if unambiguous(s) {
                    lemma_object_of(s, tmp@, RDF_FIRST@, first@);
                    lemma_object_of(s, tmp@, RDF_REST@, rest@);
                }
            }
            return None;
        }
        proof {
            if unambiguous(s) {
                lemma_object_of(s, tmp@, RDF_FIRST@, first@);
                lemma_object_of(s, tmp@, RDF_REST@, rest@);
                assert(rdf_terms_view(ret@.push(first)) =~= rdf_terms_view(ret@) + seq![first@]);
                match rdf_list(s, rest@, (left - 1) as nat) {
                    Some(l) => {
                        assert(rdf_terms_view(ret@) + (seq![first@] + l) =~= rdf_terms_view(ret@.push(first)) + l);
                    },
                    None => {},
                }
            }
        }
        proof {
            let pre = rdf_terms_view(ret@);
            assert forall|l: Option<Seq<RdfTermV>>| #[trigger] list_read(s, rest@, (left - 1) as nat, l)
                implies list_read(s, root@, fuel as nat, prepend(rdf_terms_view(ret@.push(first)), l)) by {
                lemma_list_read_step(s, tmp@, left as nat, first@, rest@, l);
                assert(rdf_terms_view(ret@.push(first)) =~= pre + seq![first@]);
                match l {
                    Some(x) => {
                        assert(pre + (seq![first@] + x) =~= (pre + seq![first@]) + x);
                    },
                    None => {},
                }
            }
        }
        proof {
            let tf = RdfTripleV { subject: tmp@, predicate: RDF_FIRST@, object: first@ };
            assert(s.contains(tf));
        }
        ret.push(first);
        tmp = rest;
        left = left - 1;
    }
    proof {
        assert(list_read(s, tmp@, left as nat, Some(Seq::<RdfTermV>::empty())));
        assert(rdf_terms_view(ret@) + Seq::<RdfTermV>::empty() =~= rdf_terms_view(ret@));
    }
    Some(ret)
}


/// A triple that cannot be part of the description of a term: a `rif:constIRI`,
/// `rif:value` or `rif:varname` that is not a literal, or `rif:items` that is one.
pub open spec fn spoils_term(t: RdfTripleV) -> bool {
    ||| t.predicate == RIF_CONSTIRI@ && !(t.object is Literal)
    ||| t.predicate == RIF_VALUE@ && !(t.object is Literal)
    ||| t.predicate == RIF_ITEMS@ && t.object is Literal
    ||| t.predicate == RIF_VARNAME@ && !(t.object is Literal)
}

/// Whether the description of `node` holds a triple that spoils it.
pub open spec fn spoiled(s: Set<RdfTripleV>, node: RdfTermV) -> bool {
    exists|t: RdfTripleV| #[trigger] s.contains(t) && t.subject == node && spoils_term(t)
}

/// The lexical value of a literal.
pub open spec fn lexical(t: RdfTermV) -> Seq<char> {
    match t {
        RdfTermV::Literal(v, _, _) => v,
        RdfTermV::NamedNode(v) => v,
        RdfTermV::BlankNode(v) => v,
    }
}

/// The RIF term that the node `node` describes in RIF-in-RDF, nested lists being read
/// to a depth of at most `fuel`: a constant with `rif:constIRI`, a literal with
/// `rif:value`, a variable with `rif:varname`, a list with `rif:items`; exactly one of
/// these four, else `None`.
pub open spec fn term_of(s: Set<RdfTripleV>, node: RdfTermV, fuel: nat) -> Option<RIFTermV>
    decreases fuel, 1nat, 0nat, 0nat,
{
    let c = object_of(s, node, RIF_CONSTIRI@);
    let v = object_of(s, node, RIF_VALUE@);
    let it = object_of(s, node, RIF_ITEMS@);
    let var = object_of(s, node, RIF_VARNAME@);
    if spoiled(s, node) {
        None
    } else if c is Some && v is None && it is None && var is None {
        Some(RIFTermV::IRI(lexical(c->0)))
    } else if c is None && v is Some && it is None && var is None {
        match v->0 {
            RdfTermV::Literal(x, _, Some(l)) => Some(RIFTermV::LangLiteral(x, l)),
            RdfTermV::Literal(x, d, None) => Some(RIFTermV::TypedLiteral(x, Some(d))),
            _ => None,
        }
    } else if c is None && v is None && it is None && var is Some {
        Some(RIFTermV::Var)
    } else if c is None && v is None && it is Some && var is None {
        match term_list(s, it->0, fuel) {
            Some(l) => Some(RIFTermV::List(l)),
            None => None,
        }
    } else {
        None
    }
}

/// The RIF terms that the items of the RDF collection at `node` describe.
pub open spec fn term_list(s: Set<RdfTripleV>, node: RdfTermV, fuel: nat) -> Option<Seq<RIFTermV>>
    decreases fuel, 0nat, 1nat, 0nat,
{
    match rdf_list(s, node, fuel) {
        Some(items) => terms_of(s, items, fuel),
        None => None,
    }
}

/// The RIF terms that the nodes `items` describe; `None` where one is a literal or
/// describes no term.
pub open spec fn terms_of(s: Set<RdfTripleV>, items: Seq<RdfTermV>, fuel: nat) -> Option<Seq<RIFTermV>>
    decreases fuel, 0nat, 0nat, items.len(),
{
    if items.len() == 0 {
        Some(Seq::empty())
    } else if fuel == 0 || !items[0].is_node() {
        None
    } else {
        match term_of(s, items[0], (fuel - 1) as nat) {
            Some(t) => match terms_of(s, items.subrange(1, items.len() as int), fuel) {
                Some(rest) => Some(seq![t] + rest),
                None => None,
            },
            None => None,
        }
    }
}


/// `node` has values for `rif:value` both with and without a language tag.
pub open spec fn mixed_values(s: Set<RdfTripleV>, node: RdfTermV) -> bool {
    &&& exists|o: RdfTermV| #[trigger] has_triple(s, node, RIF_VALUE@, o) && (o matches RdfTermV::Literal(_, _, Some(_)))
    &&& exists|o: RdfTermV| #[trigger] has_triple(s, node, RIF_VALUE@, o) && (o matches RdfTermV::Literal(_, _, None))
}

/// The RIF literal that the value `o` of `rif:value` gives.
pub open spec fn literal_term(o: RdfTermV) -> RIFTermV {
    match o {
        RdfTermV::Literal(x, _, Some(l)) => RIFTermV::LangLiteral(x, l),
        RdfTermV::Literal(x, d, None) => RIFTermV::TypedLiteral(x, Some(d)),
        _ => RIFTermV::Var,
    }
}

/// `r` is a reading, on any graph, of the RIF term that `node` describes, nested lists
/// read to a depth of at most `fuel`: which predicates of `rif:constIRI`, `rif:value`,
/// `rif:varname` and `rif:items` `node` has decides the kind (exactly one, else `None`;
/// `None` too where a value is of the wrong kind, or where `rif:value` has values both
/// with and without a language tag), and the term is read from one of the values that
/// `node` has for that predicate (which one is left open).
pub open spec fn term_read(s: Set<RdfTripleV>, node: RdfTermV, fuel: nat, r: Option<RIFTermV>) -> bool
    decreases fuel, 1nat, 0nat, 0nat,
{
    let c = has_value(s, node, RIF_CONSTIRI@);
    let v = has_value(s, node, RIF_VALUE@);
    let it = has_value(s, node, RIF_ITEMS@);
    let var = has_value(s, node, RIF_VARNAME@);
    if spoiled(s, node) {
        r is None
    } else if c && !v && !it && !var {
        exists|o: RdfTermV| #[trigger] has_triple(s, node, RIF_CONSTIRI@, o) && r == Some(RIFTermV::IRI(lexical(o)))
    } else if !c && v && !it && !var {
        if mixed_values(s, node) {
            r is None
        } else {
            exists|o: RdfTermV| #[trigger] has_triple(s, node, RIF_VALUE@, o) && r == Some(literal_term(o))
        }
    } else if !c && !v && !it && var {
        r == Some(RIFTermV::Var)
    } else if !c && !v && it && !var {
        exists|o: RdfTermV, l: Option<Seq<RIFTermV>>|
            #![trigger has_triple(s, node, RIF_ITEMS@, o), a_reading(l)]
            has_triple(s, node, RIF_ITEMS@, o) && term_list_read(s, o, fuel, l) && r == match l {
                Some(x) => Some(RIFTermV::List(x)),
                None => None,
            }
    } else {
        r is None
    }
}

/// The description of `node` holds a triple that gives a term a string with a NUL
/// character (see [`nul_in_description`]).
pub open spec fn nul_at(s: Set<RdfTripleV>, node: RdfTermV) -> bool {
    exists|t: RdfTripleV| #[trigger] s.contains(t) && t.subject == node && nul_in_description(t)
}

/// Reading the RIF term that `node` describes, nested lists read to a depth of at most
/// `fuel`, may meet a string with a NUL character: the description of `node` holds one, or
/// `node` describes nothing but a list (see [`term_read`]) and reading the items of one
/// of its values for `rif:items` may meet one.
pub open spec fn meets_nul(s: Set<RdfTripleV>, node: RdfTermV, fuel: nat) -> bool
    decreases fuel, 1nat, 0nat, 0nat,
{
    ||| nul_at(s, node)
    ||| !spoiled(s, node) && !has_value(s, node, RIF_CONSTIRI@) && !has_value(s, node, RIF_VALUE@)
        && !has_value(s, node, RIF_VARNAME@)
        && exists|o: RdfTermV| #[trigger] has_triple(s, node, RIF_ITEMS@, o) && list_meets_nul(s, o, fuel)
}

/// Reading the RIF terms that the items of the RDF collection at `node` describe may
/// meet a string with a NUL character, on one of the readings of the collection.
pub open spec fn list_meets_nul(s: Set<RdfTripleV>, node: RdfTermV, fuel: nat) -> bool
    decreases fuel, 0nat, 1nat, 0nat,
{
    exists|items: Seq<RdfTermV>| #[trigger] list_read(s, node, fuel, Some(items)) && items_meet_nul(s, items, fuel)
}

/// Reading the RIF terms that the nodes `items` describe, in order and up to the first
/// that is a literal or reads as no term, may meet a string with a NUL character.
pub open spec fn items_meet_nul(s: Set<RdfTripleV>, items: Seq<RdfTermV>, fuel: nat) -> bool
    decreases fuel, 0nat, 0nat, items.len(),
{
    if items.len() == 0 || fuel == 0 || !items[0].is_node() {
        false
    } else {
        ||| meets_nul(s, items[0], (fuel - 1) as nat)
        ||| exists|t: RIFTermV| #[trigger] term_read(s, items[0], (fuel - 1) as nat, Some(t))
            && items_meet_nul(s, items.subrange(1, items.len() as int), fuel)
    }
}

/// Where no description of a term gives it a string with a NUL character, no reading
/// meets one.
pub proof fn lemma_no_nul_met(s: Set<RdfTripleV>, fuel: nat)
    requires
        descriptions_nul_free(s),
    ensures
        forall|n: RdfTermV| !#[trigger] meets_nul(s, n, fuel),
        forall|n: RdfTermV| !#[trigger] list_meets_nul(s, n, fuel),
        forall|items: Seq<RdfTermV>| !#[trigger] items_meet_nul(s, items, fuel),
    decreases fuel,
{
    if fuel > 0 {
        lemma_no_nul_met(s, (fuel - 1) as nat);
    }
    assert forall|items: Seq<RdfTermV>| !#[trigger] items_meet_nul(s, items, fuel) by {
        lemma_items_meet_no_nul(s, items, fuel);
    }
    assert forall|n: RdfTermV| !#[trigger] list_meets_nul(s, n, fuel) by {
        if list_meets_nul(s, n, fuel) {
            let items = choose|items: Seq<RdfTermV>| #[trigger] list_read(s, n, fuel, Some(items)) && items_meet_nul(s, items, fuel);
            assert(!items_meet_nul(s, items, fuel));
        }
    }
    assert forall|n: RdfTermV| !#[trigger] meets_nul(s, n, fuel) by {
        if nul_at(s, n) {
            let t = choose|t: RdfTripleV| #[trigger] s.contains(t) && t.subject == n && nul_in_description(t);
            assert(!nul_in_description(t));
        }
        if exists|o: RdfTermV| #[trigger] has_triple(s, n, RIF_ITEMS@, o) && list_meets_nul(s, o, fuel) {
            let o = choose|o: RdfTermV| #[trigger] has_triple(s, n, RIF_ITEMS@, o) && list_meets_nul(s, o, fuel);
            assert(!list_meets_nul(s, o, fuel));
        }
    }
}

proof fn lemma_items_meet_no_nul(s: Set<RdfTripleV>, items: Seq<RdfTermV>, fuel: nat)
    requires
        descriptions_nul_free(s),
        fuel > 0 ==> forall|n: RdfTermV| !#[trigger] meets_nul(s, n, (fuel - 1) as nat),
    ensures
        !items_meet_nul(s, items, fuel),
    decreases items.len(),
{
    if items.len() > 0 && fuel > 0 && items[0].is_node() {
        lemma_items_meet_no_nul(s, items.subrange(1, items.len() as int), fuel);
        assert(!meets_nul(s, items[0], (fuel - 1) as nat));
    }
}

/// `r` is a reading of the RIF terms that the items of the RDF collection at `node`
/// describe (see [`list_read`] and [`term_read`]).
pub open spec fn term_list_read(s: Set<RdfTripleV>, node: RdfTermV, fuel: nat, r: Option<Seq<RIFTermV>>) -> bool
    decreases fuel, 0nat, 1nat, 0nat,
{
    exists|items: Option<Seq<RdfTermV>>| #![trigger a_reading(items)]
        list_read(s, node, fuel, items) && match items {
            None => r is None,
            Some(its) => terms_read(s, its, fuel, r),
        }
}

/// `r` is a reading of the RIF terms that the nodes `items` describe, read in order; `None`
/// from the first that is a literal or that reads as no term.
pub open spec fn terms_read(s: Set<RdfTripleV>, items: Seq<RdfTermV>, fuel: nat, r: Option<Seq<RIFTermV>>) -> bool
    decreases fuel, 0nat, 0nat, items.len(),
{
    if items.len() == 0 {
        r == Some(Seq::<RIFTermV>::empty())
    } else if fuel == 0 || !items[0].is_node() {
        r is None
    } else {
        exists|t: Option<RIFTermV>, rest: Option<Seq<RIFTermV>>| #![trigger a_reading(t), a_reading(rest)]
            term_read(s, items[0], (fuel - 1) as nat, t) && match t {
                None => r is None,
                Some(x) => terms_read(s, items.subrange(1, items.len() as int), fuel, rest) && r == prepend(seq![x], rest),
            }
    }
}

/// The reading of a list of terms goes through its items one by one.
pub proof fn lemma_terms_read_step(s: Set<RdfTripleV>, items: Seq<RdfTermV>, fuel: nat, t: Option<RIFTermV>, rest: Option<Seq<RIFTermV>>)
    requires
        items.len() > 0,
        fuel > 0,
        items[0].is_node(),
        term_read(s, items[0], (fuel - 1) as nat, t),
        t is Some ==> terms_read(s, items.subrange(1, items.len() as int), fuel, rest),
    ensures
        terms_read(s, items, fuel, match t {
            None => None,
            Some(x) => prepend(seq![x], rest),
        }),
{
    assert(a_reading(t));
    assert(a_reading(rest));
}

/// The reading of the terms of a collection reads the collection, then its items.
pub proof fn lemma_term_list_read(s: Set<RdfTripleV>, node: RdfTermV, fuel: nat, items: Option<Seq<RdfTermV>>, r: Option<Seq<RIFTermV>>)
    requires
        list_read(s, node, fuel, items),
        match items {
            None => r is None,
            Some(its) => terms_read(s, its, fuel, r),
        },
    ensures
        term_list_read(s, node, fuel, r),
{
    assert(a_reading(items));
}

/// A node that describes a list term reads as the list that its items read as.
pub proof fn lemma_term_read_list(s: Set<RdfTripleV>, node: RdfTermV, fuel: nat, o: RdfTermV, l: Option<Seq<RIFTermV>>)
    requires
        !spoiled(s, node),
        !has_value(s, node, RIF_CONSTIRI@),
        !has_value(s, node, RIF_VALUE@),
        !has_value(s, node, RIF_VARNAME@),
        has_triple(s, node, RIF_ITEMS@, o),
        term_list_read(s, o, fuel, l),
    ensures
        term_read(s, node, fuel, match l {
            Some(x) => Some(RIFTermV::List(x)),
            None => None,
        }),
{
    assert(has_value(s, node, RIF_ITEMS@));
    assert(a_reading(l));
}

/// Where the listed triples are those of `s` with subject `node`, `node` has a value for
/// `p` exactly when `p` occurs among them, and each occurrence is such a value.
pub proof fn lemma_has_value_listed(s: Set<RdfTripleV>, node: RdfTermV, tv: Seq<RdfTripleV>, p: Seq<char>)
    requires
        lists_subject(s, node, tv),
    ensures
        has_value(s, node, p) <==> exists|k: int| 0 <= k < tv.len() && (#[trigger] tv[k]).predicate == p,
        forall|k: int| 0 <= k < tv.len() && (#[trigger] tv[k]).predicate == p ==> has_triple(s, node, p, tv[k].object),
{
    lemma_lists_subject(s, node, tv);
    assert forall|k: int| 0 <= k < tv.len() && (#[trigger] tv[k]).predicate == p implies has_triple(s, node, p, tv[k].object) by {
        assert(s.contains(tv[k]));
        assert(tv[k] == RdfTripleV { subject: node, predicate: p, object: tv[k].object });
    }
    if has_value(s, node, p) {
        let o = choose|o: RdfTermV| #[trigger] has_triple(s, node, p, o);
        let t = RdfTripleV { subject: node, predicate: p, object: o };
        assert(s.contains(t));
        assert(tv.contains(t));
        let k = choose|k: int| 0 <= k < tv.len() && tv[k] == t;
        assert(tv[k].predicate == p);
    }
    if exists|k: int| 0 <= k < tv.len() && (#[trigger] tv[k]).predicate == p {
        let k = choose|k: int| 0 <= k < tv.len() && (#[trigger] tv[k]).predicate == p;
        assert(has_triple(s, node, p, tv[k].object));
    }
}

pub open spec fn opt_term_view(o: Option<RIFTerm>) -> Option<RIFTermV> {
    match o {
        Some(t) => Some(t@),
        None => None,
    }
}

pub open spec fn opt_vec_view(o: Option<Vec<RIFTerm>>) -> Option<Seq<RIFTermV>> {
    match o {
        Some(v) => Some(terms_view(v@)),
        None => None,
    }
}

/// The triples `tv`, listed once each, are those of `s` with subject `node`.
pub open spec fn lists_subject(s: Set<RdfTripleV>, node: RdfTermV, tv: Seq<RdfTripleV>) -> bool {
    tv.to_set() == triples_with_subject(s, node)
}

/// Each listed triple is one of `s` with subject `node`, and each such triple is listed.
pub proof fn lemma_lists_subject(s: Set<RdfTripleV>, node: RdfTermV, tv: Seq<RdfTripleV>)
    requires
        lists_subject(s, node, tv),
    ensures
        forall|k: int| 0 <= k < tv.len() ==> #[trigger] s.contains(tv[k]) && tv[k].subject == node,
        forall|t: RdfTripleV| #[trigger] s.contains(t) && t.subject == node ==> tv.contains(t),
{
    assert forall|k: int| 0 <= k < tv.len() implies #[trigger] s.contains(tv[k]) && tv[k].subject == node by {
        assert(tv.to_set().contains(tv[k]));
    }
    assert forall|t: RdfTripleV| #[trigger] s.contains(t) && t.subject == node implies tv.contains(t) by {
        assert(triples_with_subject(s, node).contains(t));
        assert(tv.to_set().contains(t));
    }
}

fn string_of_str(s: &str) -> (r: String)
    ensures
        r@ == s@,
{
    String::from_str(s)
}

/// The RIF term that `root` describes (see [`term_of`]), nested lists read to a depth of
/// at most `fuel`.
pub fn retrieve_rifterm_bounded(graph: &Graph, root: &RdfTerm, fuel: usize) -> (r: Option<RIFTerm>)
    requires
        root@.is_node(),
        !meets_nul(graph_triples(*graph), root@, fuel as nat),
    ensures
        unambiguous(graph_triples(*graph)) ==> opt_term_view(r) == term_of(graph_triples(*graph), root@, fuel as nat),
        term_read(graph_triples(*graph), root@, fuel as nat, opt_term_view(r)),
    decreases fuel, 1nat,
{
    let ghost s = graph_triples(*graph);
    let ts = graph_triples_for_subject(graph, root);
    let ghost tv = triples_view(ts@);
    proof {
        lemma_lists_subject(s, root@, tv);
        lemma_term_predicates_differ();
    }
    let mut const_iri: Option<String> = None;
    let mut value: Option<String> = None;
    let mut lang: Option<String> = None;
    let mut valuetype: Option<String> = None;
    let mut var: bool = false;
    let mut items: Option<RdfTerm> = None;
    let n = ts.len();
    let mut i: usize = 0;
    while i < n
        invariant
            n == ts.len(),
            tv == triples_view(ts@),
            tv.len() == n,
            0 <= i <= n,
            s == graph_triples(*graph),
            forall|k: int| 0 <= k < n ==> #[trigger] s.contains(tv[k]) && tv[k].subject == root@,
            RIF_CONSTIRI@ != RIF_VALUE@,
            RIF_CONSTIRI@ != RIF_ITEMS@,
            RIF_CONSTIRI@ != RIF_VARNAME@,
            RIF_VALUE@ != RIF_ITEMS@,
            RIF_VALUE@ != RIF_VARNAME@,
            RIF_ITEMS@ != RIF_VARNAME@,
            forall|k: int| 0 <= k < i ==> !spoils_term(#[trigger] tv[k]),
            const_iri is None <==> forall|k: int| 0 <= k < i ==> (#[trigger] tv[k]).predicate != RIF_CONSTIRI@,
            const_iri matches Some(c) ==> exists|k: int|
                0 <= k < i && (#[trigger] tv[k]).predicate == RIF_CONSTIRI@ && lexical(tv[k].object) == c@,
            items is None <==> forall|k: int| 0 <= k < i ==> (#[trigger] tv[k]).predicate != RIF_ITEMS@,
            items matches Some(x) ==> exists|k: int|
                0 <= k < i && (#[trigger] tv[k]).predicate == RIF_ITEMS@ && tv[k].object == x@,
            var <==> exists|k: int| 0 <= k < i && (#[trigger] tv[k]).predicate == RIF_VARNAME@,
            value is None <==> forall|k: int| 0 <= k < i ==> (#[trigger] tv[k]).predicate != RIF_VALUE@,
            value is None ==> lang is None && valuetype is None,
            value matches Some(x) ==> exists|k: int|
                0 <= k < i && (#[trigger] tv[k]).predicate == RIF_VALUE@ && match tv[k].object {
                    RdfTermV::Literal(v, d, Some(l)) => v == x@ && (lang matches Some(ll) && ll@ == l),
                    RdfTermV::Literal(v, d, None) => v == x@ && (valuetype matches Some(dd) && dd@ == d),
                    _ => false,
                },
            lang matches Some(l) ==> exists|k: int|
                0 <= k < i && (#[trigger] tv[k]).predicate == RIF_VALUE@ && (tv[k].object matches RdfTermV::Literal(_, _, Some(ll)) && ll == l@),
            valuetype matches Some(d) ==> exists|k: int|
                0 <= k < i && (#[trigger] tv[k]).predicate == RIF_VALUE@ && (tv[k].object matches RdfTermV::Literal(_, dd, None) && dd == d@),
            lang is None ==> forall|k: int| 0 <= k < i && (#[trigger] tv[k]).predicate == RIF_VALUE@
                ==> !(tv[k].object matches RdfTermV::Literal(_, _, Some(_))),
            valuetype is None ==> forall|k: int| 0 <= k < i && (#[trigger] tv[k]).predicate == RIF_VALUE@
                ==> !(tv[k].object matches RdfTermV::Literal(_, _, None)),
        decreases n - i,
    {
        let x = &ts[i];
        assert(tv[i as int] == x@);
        if str_eq(x.predicate.as_str(), RIF_CONSTIRI) {
            match &x.object {
                RdfTerm::Literal(v, _, _) => {
                    const_iri = Some(v.clone());
                },
                _ => {
                    assert(s.contains(tv[i as int]) && spoils_term(tv[i as int]));
                    assert(spoiled(s, root@));
                    return None;
                },
            }
        } else if str_eq(x.predicate.as_str(), RIF_VALUE) {
            match &x.object {
                RdfTerm::Literal(v, d, l) => {
                    value = Some(v.clone());
                    match l {
                        Some(l) => {
                            lang = Some(l.clone());
                        },
                        None => {
                            valuetype = Some(d.clone());
                        },
                    }
                },
                _ => {
                    assert(s.contains(tv[i as int]) && spoils_term(tv[i as int]));
                    assert(spoiled(s, root@));
                    return None;
                },
            }
        } else if str_eq(x.predicate.as_str(), RIF_ITEMS) {
            match &x.object {
                RdfTerm::Literal(..) => {
                    assert(s.contains(tv[i as int]) && spoils_term(tv[i as int]));
                    assert(spoiled(s, root@));
                    return None;
                },
                o => {
                    items = Some(o.duplicate());
                },
            }
        } else if str_eq(x.predicate.as_str(), RIF_VARNAME) {
            match &x.object {
                RdfTerm::Literal(..) => {
                    var = true;
                },
                _ => {
                    assert(s.contains(tv[i as int]) && spoils_term(tv[i as int]));
                    assert(spoiled(s, root@));
                    return None;
                },
            }
        }
        i = i + 1;
    }
    assert(!spoiled(s, root@)) by {
        if spoiled(s, root@) {
            let t = choose|t: RdfTripleV| #[trigger] s.contains(t) && t.subject == root@ && spoils_term(t);
            assert(tv.contains(t));
        }
    }
    let ghost c = object_of(s, root@, RIF_CONSTIRI@);
    let ghost v = object_of(s, root@, RIF_VALUE@);
    let ghost it = object_of(s, root@, RIF_ITEMS@);
    let ghost vn = object_of(s, root@, RIF_VARNAME@);
    proof {
        if unambiguous(s) {
            lemma_read_description(s, root@, tv, RIF_CONSTIRI@);
            lemma_read_description(s, root@, tv, RIF_VALUE@);
            lemma_read_description(s, root@, tv, RIF_ITEMS@);
            lemma_read_description(s, root@, tv, RIF_VARNAME@);
        }
    }
    proof {
        lemma_has_value_listed(s, root@, tv, RIF_CONSTIRI@);
        lemma_has_value_listed(s, root@, tv, RIF_VALUE@);
        lemma_has_value_listed(s, root@, tv, RIF_ITEMS@);
        lemma_has_value_listed(s, root@, tv, RIF_VARNAME@);
        if lang is Some && valuetype is Some {
            let k1 = choose|k: int| 0 <= k < n && (#[trigger] tv[k]).predicate == RIF_VALUE@
                && (tv[k].object matches RdfTermV::Literal(_, _, Some(ll)) && ll == lang->0@);
            let k2 = choose|k: int| 0 <= k < n && (#[trigger] tv[k]).predicate == RIF_VALUE@
                && (tv[k].object matches RdfTermV::Literal(_, dd, None) && dd == valuetype->0@);
            assert(has_triple(s, root@, RIF_VALUE@, tv[k1].object));
            assert(has_triple(s, root@, RIF_VALUE@, tv[k2].object));
        }
        if mixed_values(s, root@) {
            let o1 = choose|o: RdfTermV| #[trigger] has_triple(s, root@, RIF_VALUE@, o) && (o matches RdfTermV::Literal(_, _, Some(_)));
            let o2 = choose|o: RdfTermV| #[trigger] has_triple(s, root@, RIF_VALUE@, o) && (o matches RdfTermV::Literal(_, _, None));
            let t1 = RdfTripleV { subject: root@, predicate: RIF_VALUE@, object: o1 };
            let t2 = RdfTripleV { subject: root@, predicate: RIF_VALUE@, object: o2 };
            assert(s.contains(t1) && t1.subject == root@);
            assert(s.contains(t2) && t2.subject == root@);
            assert(tv.contains(t1));
            assert(tv.contains(t2));
            let k1 = choose|k: int| 0 <= k < n && tv[k] == t1;
            let k2 = choose|k: int| 0 <= k < n && tv[k] == t2;
            assert(tv[k1].predicate == RIF_VALUE@);
            assert(tv[k2].predicate == RIF_VALUE@);
        }
        if value is Some && lang is None && valuetype is None {
            let k = choose|k: int| 0 <= k < n && (#[trigger] tv[k]).predicate == RIF_VALUE@ && match tv[k].object {
                RdfTermV::Literal(v, d, Some(l)) => v == value->0@ && (lang matches Some(ll) && ll@ == l),
                RdfTermV::Literal(v, d, None) => v == value->0@ && (valuetype matches Some(dd) && dd@ == d),
                _ => false,
            };
            assert(false);
        }
    }
    match (const_iri, value, valuetype, lang, var, items) {
        (Some(x), None, None, None, false, None) => {
            proof {
                let k = choose|k: int| 0 <= k < n && (#[trigger] tv[k]).predicate == RIF_CONSTIRI@ && lexical(tv[k].object) == x@;
                assert(has_triple(s, root@, RIF_CONSTIRI@, tv[k].object));
            }
            Some(RIFTerm::IRI(x))
        },
        (None, Some(x), None, None, false, None) => Some(RIFTerm::TypedLiteral(x, None)),
        (None, Some(x), Some(y), None, false, None) => {
            proof {
                let k = choose|k: int| 0 <= k < n && (#[trigger] tv[k]).predicate == RIF_VALUE@ && match tv[k].object {
                    RdfTermV::Literal(v, d, Some(l)) => v == x@ && (lang matches Some(ll) && ll@ == l),
                    RdfTermV::Literal(v, d, None) => v == x@ && (valuetype matches Some(dd) && dd@ == d),
                    _ => false,
                };
                assert(has_triple(s, root@, RIF_VALUE@, tv[k].object));
                assert(literal_term(tv[k].object) == RIFTermV::TypedLiteral(x@, Some(y@)));
            }
            Some(RIFTerm::TypedLiteral(x, Some(y)))
        },
        (None, Some(x), None, Some(y), false, None) => {
            proof {
                let k = choose|k: int| 0 <= k < n && (#[trigger] tv[k]).predicate == RIF_VALUE@ && match tv[k].object {
                    RdfTermV::Literal(v, d, Some(l)) => v == x@ && (lang matches Some(ll) && ll@ == l),
                    RdfTermV::Literal(v, d, None) => v == x@ && (valuetype matches Some(dd) && dd@ == d),
                    _ => false,
                };
                assert(has_triple(s, root@, RIF_VALUE@, tv[k].object));
                assert(literal_term(tv[k].object) == RIFTermV::LangLiteral(x@, y@));
            }
            Some(RIFTerm::LangLiteral(x, y))
        },
        (None, None, None, None, true, None) => Some(RIFTerm::Var),
        (None, None, None, None, false, Some(x)) => {
            let ghost k = choose|k: int| 0 <= k < n && (#[trigger] tv[k]).predicate == RIF_ITEMS@ && tv[k].object == x@;
            proof {
                assert(has_triple(s, root@, RIF_ITEMS@, tv[k].object));
                assert(!list_meets_nul(s, x@, fuel as nat));
            }
            let l = riftermlist_to_vec_bounded(graph, &x, fuel);
            proof {
                lemma_term_read_list(s, root@, fuel as nat, x@, opt_vec_view(l));
            }
            match l {
                Some(l) => Some(RIFTerm::List(l)),
                None => None,
            }
        },
        _ => None,
    }
}

/// Where the listed triples are those of an unambiguous graph with subject `node`, a
/// structural predicate occurs among them exactly when `node` has a value for it, and
/// every occurrence carries that value.
pub proof fn lemma_read_description(s: Set<RdfTripleV>, node: RdfTermV, tv: Seq<RdfTripleV>, p: Seq<char>)
    requires
        unambiguous(s),
        structural(p),
        lists_subject(s, node, tv),
    ensures
        object_of(s, node, p) is None <==> forall|k: int| 0 <= k < tv.len() ==> (#[trigger] tv[k]).predicate != p,
        forall|k: int| 0 <= k < tv.len() && (#[trigger] tv[k]).predicate == p ==> object_of(s, node, p) == Some(tv[k].object),
{
    lemma_lists_subject(s, node, tv);
    assert forall|k: int| 0 <= k < tv.len() && (#[trigger] tv[k]).predicate == p implies object_of(s, node, p) == Some(tv[k].object) by {
        assert(s.contains(tv[k]));
        assert(has_triple(s, node, p, tv[k].object));
        lemma_object_of(s, node, p, tv[k].object);
    }
    if object_of(s, node, p) is Some {
        let o = choose|o: RdfTermV| has_triple(s, node, p, o);
        let t = RdfTripleV { subject: node, predicate: p, object: o };
        assert(s.contains(t));
        assert(tv.contains(t));
        let k = choose|k: int| 0 <= k < tv.len() && tv[k] == t;
        assert(tv[k].predicate == p);
    }
}

/// The RIF terms that the items of the RDF collection at `root` describe (see
/// [`term_list`]).
pub fn riftermlist_to_vec_bounded(graph: &Graph, root: &RdfTerm, fuel: usize) -> (r: Option<Vec<RIFTerm>>)
    requires
        root@.is_node(),
        !list_meets_nul(graph_triples(*graph), root@, fuel as nat),
    ensures
        unambiguous(graph_triples(*graph)) ==> opt_vec_view(r) == term_list(graph_triples(*graph), root@, fuel as nat),
        term_list_read(graph_triples(*graph), root@, fuel as nat, opt_vec_view(r)),
    decreases fuel, 0nat,
{
    let ghost s = graph_triples(*graph);
    let ret1 = match rdflist_to_vec_bounded(graph, root, fuel) {
        Some(x) => x,
        None => {
            proof {
                lemma_term_list_read(s, root@, fuel as nat, None, None);
            }
            return None;
        },
    };
    let ghost items = rdf_terms_view(ret1@);
    assert(list_read(s, root@, fuel as nat, Some(items)));
    assert forall|rest: Option<Seq<RIFTermV>>| #[trigger] terms_read(s, items.subrange(0, items.len() as int), fuel as nat, rest)
        implies terms_read(s, items, fuel as nat, prepend(Seq::<RIFTermV>::empty(), rest)) by {
        assert(items.subrange(0, items.len() as int) =~= items);
        match rest {
            Some(x) => {
                assert(Seq::<RIFTermV>::empty() + x =~= x);
            },
            None => {},
        }
    }
    assert(items.subrange(0, items.len() as int) =~= items);
    assert(!items_meet_nul(s, items, fuel as nat));
    let mut ret2: Vec<RIFTerm> = Vec::new();
    let n = ret1.len();
    let mut i: usize = 0;
    while i < n
        invariant
            n == ret1.len(),
            items == rdf_terms_view(ret1@),
            items.len() == n,
            0 <= i <= n,
            s == graph_triples(*graph),
            unambiguous(s) ==> rdf_list(s, root@, fuel as nat) == Some(items),
            unambiguous(s) ==> terms_of(s, items, fuel as nat) == match terms_of(s, items.subrange(i as int, n as int), fuel as nat) {
                Some(rest) => Some(terms_view(ret2@) + rest),
                None => None,
            },
            list_read(s, root@, fuel as nat, Some(items)),
            !items_meet_nul(s, items.subrange(i as int, n as int), fuel as nat),
            forall|rest: Option<Seq<RIFTermV>>| #[trigger] terms_read(s, items.subrange(i as int, n as int), fuel as nat, rest)
                ==> terms_read(s, items, fuel as nat, prepend(terms_view(ret2@), rest)),
        decreases n - i,
    {
        let x = &ret1[i];
        let ghost rest = items.subrange(i as int, n as int);
        assert(rest[0] == x@);
        assert(rest.subrange(1, rest.len() as int) =~= items.subrange(i + 1, n as int));
        if fuel == 0 || !x.is_node() {
            proof {
                assert(terms_read(s, rest, fuel as nat, None));
                lemma_term_list_read(s, root@, fuel as nat, Some(items), None);
            }
            return None;
        }
        assert(!meets_nul(s, rest[0], (fuel - 1) as nat));
        let t = match retrieve_rifterm_bounded(graph, x, fuel - 1) {
            Some(t) => t,
            None => {
                proof {
                    lemma_terms_read_step(s, rest, fuel as nat, None, None);
                    lemma_term_list_read(s, root@, fuel as nat, Some(items), None);
                }
                return None;
            },
        };
        proof {
            assert(term_read(s, rest[0], (fuel - 1) as nat, Some(t@)));
            assert(!items_meet_nul(s, items.subrange(i + 1, n as int), fuel as nat));
            let pre = terms_view(ret2@);
            assert forall|r2: Option<Seq<RIFTermV>>| #[trigger] terms_read(s, items.subrange(i + 1, n as int), fuel as nat, r2)
                implies terms_read(s, items, fuel as nat, prepend(terms_view(ret2@.push(t)), r2)) by {
                lemma_terms_read_step(s, rest, fuel as nat, Some(t@), r2);
                assert(terms_read(s, items.subrange(i as int, n as int), fuel as nat, prepend(seq![t@], r2)));
                lemma_terms_view_push(ret2@, t);
                assert(pre.push(t@) =~= pre + seq![t@]);
                match r2 {
                    Some(y) => {
                        assert(pre + (seq![t@] + y) =~= (pre + seq![t@]) + y);
                    },
                    None => {},
                }
            }
            lemma_terms_view_push(ret2@, t);
            if unambiguous(s) {
                match terms_of(s, items.subrange(i + 1, n as int), fuel as nat) {
                    Some(r2) => {
                        assert(terms_view(ret2@) + (seq![t@] + r2) =~= terms_view(ret2@.push(t)) + r2);
                    },
                    None => {},
                }
            }
        }
        ret2.push(t);
        i = i + 1;
    }
    proof {
        assert(items.subrange(n as int, n as int) =~= Seq::<RdfTermV>::empty());
        assert(terms_view(ret2@) + Seq::<RIFTermV>::empty() =~= terms_view(ret2@));
        assert(terms_read(s, items.subrange(n as int, n as int), fuel as nat, Some(Seq::<RIFTermV>::empty())));
        lemma_term_list_read(s, root@, fuel as nat, Some(items), Some(terms_view(ret2@)));
    }
    Some(ret2)
}


/// The RIF term that stands for an RDF term: an IRI for an IRI, a local constant for a
/// blank node, a language-tagged or a typed literal for a literal.
pub open spec fn rif_of_rdf(t: RdfTermV) -> RIFTermV {
    match t {
        RdfTermV::NamedNode(x) => RIFTermV::IRI(x),
        RdfTermV::BlankNode(x) => RIFTermV::Local(x),
        RdfTermV::Literal(v, _, Some(l)) => RIFTermV::LangLiteral(v, l),
        RdfTermV::Literal(v, d, None) => RIFTermV::TypedLiteral(v, Some(d)),
    }
}

impl RIFTerm {
    /// The RIF term that stands for the RDF term `x` (see [`rif_of_rdf`]).
    pub fn from_rdf(x: &RdfTerm) -> (r: RIFTerm)
        requires
            nul_free_term(x@),
        ensures
            r@ == rif_of_rdf(x@),
    {
        match x {
            RdfTerm::NamedNode(n) => RIFTerm::IRI(n.clone()),
            RdfTerm::BlankNode(b) => RIFTerm::Local(b.clone()),
            RdfTerm::Literal(v, _, Some(l)) => RIFTerm::LangLiteral(v.clone(), l.clone()),
            RdfTerm::Literal(v, d, None) => RIFTerm::TypedLiteral(v.clone(), Some(d.clone())),
        }
    }
}

/// Why an RDF collection of nodes could not be read.
#[derive(Debug)]
pub enum ListError {
    /// The node does not start an RDF collection.
    NotAList,
    /// An item of the collection is a literal.
    NotANode,
}

/// The items of the RDF collection at `root` (see [`rdf_list`]), following at most as
/// many links as the graph has triples.
pub fn rdflist_to_vec(graph: &Graph, root: &RdfTerm) -> (r: Option<Vec<RdfTerm>>)
    requires
        root@.is_node(),
    ensures
        unambiguous(graph_triples(*graph)) ==> match r {
            Some(v) => rdf_list(graph_triples(*graph), root@, graph_triples(*graph).len()) == Some(rdf_terms_view(v@)),
            None => rdf_list(graph_triples(*graph), root@, graph_triples(*graph).len()) is None,
        },
        list_read(graph_triples(*graph), root@, graph_triples(*graph).len(), match r {
            Some(v) => Some(rdf_terms_view(v@)),
            None => None,
        }),
        items_nul_free(graph_triples(*graph)) ==> (r matches Some(v) ==> forall|k: int| 0 <= k < v.len() ==> nul_free_term(#[trigger] v@[k]@)),
{
    let fuel = graph_len(graph);
    rdflist_to_vec_bounded(graph, root, fuel)
}

/// The RIF terms that stand for the items of the RDF collection at `root`.
pub fn rdflist_to_riftermvec(graph: &Graph, root: &RdfTerm) -> (r: Option<Vec<RIFTerm>>)
    requires
        root@.is_node(),
        items_nul_free(graph_triples(*graph)),
    ensures
        unambiguous(graph_triples(*graph)) ==> opt_vec_view(r) == match rdf_list(graph_triples(*graph), root@, graph_triples(*graph).len()) {
            Some(items) => Some(items.map_values(|t: RdfTermV| rif_of_rdf(t))),
            None => None,
        },
        exists|items: Option<Seq<RdfTermV>>|
            #[trigger] list_read(graph_triples(*graph), root@, graph_triples(*graph).len(), items) && opt_vec_view(r) == match items {
                Some(its) => Some(its.map_values(|t: RdfTermV| rif_of_rdf(t))),
                None => None,
            },
{
    let ret1 = match rdflist_to_vec(graph, root) {
        Some(x) => x,
        None => {
            return None;
        },
    };
    let mut ret2: Vec<RIFTerm> = Vec::new();
    let n = ret1.len();
    let mut i: usize = 0;
    while i < n
        invariant
            n == ret1.len(),
            0 <= i <= n,
            terms_view(ret2@) == rdf_terms_view(ret1@).subrange(0, i as int).map_values(|t: RdfTermV| rif_of_rdf(t)),
            forall|k: int| 0 <= k < n ==> nul_free_term(#[trigger] ret1@[k]@),
        decreases n - i,
    {
        let t = RIFTerm::from_rdf(&ret1[i]);
        proof {
            lemma_terms_view_push(ret2@, t);
            assert(rdf_terms_view(ret1@).subrange(0, i + 1).map_values(|t: RdfTermV| rif_of_rdf(t))
                =~= rdf_terms_view(ret1@).subrange(0, i as int).map_values(|t: RdfTermV| rif_of_rdf(t)).push(t@));
        }
        ret2.push(t);
        i = i + 1;
    }
    assert(rdf_terms_view(ret1@).subrange(0, n as int) =~= rdf_terms_view(ret1@));
    Some(ret2)
}

/// The nodes of the RDF collection at `root`; an error where `root` starts no
/// collection or where an item is a literal.
pub fn rdfidlist_to_vec(graph: &Graph, root: &RdfTerm) -> (r: Result<Vec<RdfTerm>, ListError>)
    requires
        root@.is_node(),
    ensures
        unambiguous(graph_triples(*graph)) ==> (r matches Err(ListError::NotAList) <==> rdf_list(
            graph_triples(*graph),
            root@,
            graph_triples(*graph).len(),
        ) is None),
        unambiguous(graph_triples(*graph)) ==> (r matches Err(ListError::NotANode) ==> (rdf_list(
            graph_triples(*graph),
            root@,
            graph_triples(*graph).len(),
        ) matches Some(items) && exists|i: int| 0 <= i < items.len() && !(#[trigger] items[i]).is_node())),
        unambiguous(graph_triples(*graph)) ==> (r matches Ok(v) ==> rdf_list(
            graph_triples(*graph),
            root@,
            graph_triples(*graph).len(),
        ) == Some(rdf_terms_view(v@))),
        r matches Ok(v) ==> forall|i: int| 0 <= i < v@.len() ==> (#[trigger] v@[i])@.is_node(),
        r matches Err(ListError::NotAList) ==> list_read(graph_triples(*graph), root@, graph_triples(*graph).len(), None),
        r matches Err(ListError::NotANode) ==> exists|items: Seq<RdfTermV>|
            #[trigger] list_read(graph_triples(*graph), root@, graph_triples(*graph).len(), Some(items))
            && exists|i: int| 0 <= i < items.len() && !(#[trigger] items[i]).is_node(),
        r matches Ok(v) ==> list_read(graph_triples(*graph), root@, graph_triples(*graph).len(), Some(rdf_terms_view(v@))),
{
    let list = match rdflist_to_vec(graph, root) {
        Some(x) => x,
        None => {
            return Err(ListError::NotAList);
        },
    };
    let n = list.len();
    let mut i: usize = 0;
    while i < n
        invariant
            n == list.len(),
            0 <= i <= n,
            forall|k: int| 0 <= k < i ==> (#[trigger] list@[k])@.is_node(),
            unambiguous(graph_triples(*graph)) ==> rdf_list(graph_triples(*graph), root@, graph_triples(*graph).len()) == Some(rdf_terms_view(list@)),
            list_read(graph_triples(*graph), root@, graph_triples(*graph).len(), Some(rdf_terms_view(list@))),
        decreases n - i,
    {
        if !list[i].is_node() {
            assert(rdf_terms_view(list@)[i as int] == list@[i as int]@);
            assert(!rdf_terms_view(list@)[i as int].is_node());
            proof {
                let ghost items = rdf_terms_view(list@);
                assert(0 <= i < items.len() && !items[i as int].is_node());
                assert(exists|j: int| 0 <= j < items.len() && !(#[trigger] items[j]).is_node());
                if unambiguous(graph_triples(*graph)) {
                    let l = rdf_list(graph_triples(*graph), root@, graph_triples(*graph).len());
                    assert(l == Some(items));
                    assert(l->0 == items);
                    assert(!l->0[i as int].is_node());
                    assert(l matches Some(its) && exists|j: int| 0 <= j < its.len() && !(#[trigger] its[j]).is_node());
                }
            }
            proof {
                let items = rdf_terms_view(list@);
                assert(list_read(graph_triples(*graph), root@, graph_triples(*graph).len(), Some(items)));
                assert(!items[i as int].is_node());
                assert(exists|j: int| 0 <= j < items.len() && !(#[trigger] items[j]).is_node());
            }
            return Err(ListError::NotANode);
        }
        i = i + 1;
    }
    assert(forall|k: int| 0 <= k < n ==> (#[trigger] rdf_terms_view(list@)[k]).is_node());
    Ok(list)
}

/// The RIF term that `root` describes (see [`term_of`]), nested lists read to a depth of
/// at most the number of triples of the graph.
pub fn retrieve_rifterm(graph: &Graph, root: &RdfTerm) -> (r: Option<RIFTerm>)
    requires
        root@.is_node(),
        !meets_nul(graph_triples(*graph), root@, graph_triples(*graph).len()),
    ensures
        unambiguous(graph_triples(*graph)) ==> opt_term_view(r) == term_of(graph_triples(*graph), root@, graph_triples(*graph).len()),
        term_read(graph_triples(*graph), root@, graph_triples(*graph).len(), opt_term_view(r)),
{
    let fuel = graph_len(graph);
    retrieve_rifterm_bounded(graph, root, fuel)
}

/// The RIF terms that the items of the RDF collection at `root` describe (see
/// [`term_list`]).
pub fn riftermlist_to_vec(graph: &Graph, root: &RdfTerm) -> (r: Option<Vec<RIFTerm>>)
    requires
        root@.is_node(),
        !list_meets_nul(graph_triples(*graph), root@, graph_triples(*graph).len()),
    ensures
        unambiguous(graph_triples(*graph)) ==> opt_vec_view(r) == term_list(graph_triples(*graph), root@, graph_triples(*graph).len()),
        term_list_read(graph_triples(*graph), root@, graph_triples(*graph).len(), opt_vec_view(r)),
{
    let fuel = graph_len(graph);
    riftermlist_to_vec_bounded(graph, root, fuel)
}

}
