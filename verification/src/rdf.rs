use vstd::prelude::*;
use oxrdf::{
    BlankNodeRef, Graph, LiteralRef, NamedNodeRef, NamedOrBlankNodeRef, TermRef, TripleRef,
};
use crate::vocab::RDF_LANG_STRING;

verus! {

#[verifier::external_type_specification]
#[verifier::external_body]
pub struct ExGraph(oxrdf::Graph);

#[verifier::external_type_specification]
#[verifier::external_body]
pub struct ExTermRef<'a>(oxrdf::TermRef<'a>);

#[verifier::external_type_specification]
#[verifier::external_body]
pub struct ExNamedOrBlankNodeRef<'a>(oxrdf::NamedOrBlankNodeRef<'a>);

#[verifier::external_type_specification]
#[verifier::external_body]
pub struct ExTripleRef<'a>(oxrdf::TripleRef<'a>);

/// An RDF term, as plain strings: an IRI, a blank node identifier, or a literal given
/// by its lexical value, its datatype IRI and its language tag, if any.
#[derive(Debug, Clone)]
pub enum RdfTerm {
    NamedNode(String),
    BlankNode(String),
    Literal(String, String, Option<String>),
}

/// The mathematical value of an [`RdfTerm`].
pub enum RdfTermV {
    NamedNode(Seq<char>),
    BlankNode(Seq<char>),
    Literal(Seq<char>, Seq<char>, Option<Seq<char>>),
}

impl View for RdfTerm {
    type V = RdfTermV;

    open spec fn view(&self) -> RdfTermV {
        match self {
            RdfTerm::NamedNode(s) => RdfTermV::NamedNode(s@),
            RdfTerm::BlankNode(s) => RdfTermV::BlankNode(s@),
            RdfTerm::Literal(v, d, l) => RdfTermV::Literal(
                v@,
                d@,
                match l {
                    Some(l) => Some(l@),
                    None => None,
                },
            ),
        }
    }
}

/// An RDF triple: subject, predicate IRI and object.
#[derive(Debug)]
pub struct RdfTriple {
    pub subject: RdfTerm,
    pub predicate: String,
    pub object: RdfTerm,
}

/// The mathematical value of an [`RdfTriple`].
pub struct RdfTripleV {
    pub subject: RdfTermV,
    pub predicate: Seq<char>,
    pub object: RdfTermV,
}

impl View for RdfTriple {
    type V = RdfTripleV;

    open spec fn view(&self) -> RdfTripleV {
        RdfTripleV { subject: self.subject@, predicate: self.predicate@, object: self.object@ }
    }
}

impl RdfTermV {
    /// An IRI or a blank node: what may stand as the subject of a triple.
    pub open spec fn is_node(self) -> bool {
        !(self is Literal)
    }

    /// A language-tagged literal has the datatype `rdf:langString`.
    pub open spec fn well_formed(self) -> bool {
        self matches RdfTermV::Literal(_, d, Some(_)) ==> d == RDF_LANG_STRING@
    }
}

impl RdfTripleV {
    /// A triple as an RDF graph holds it: a node as subject and a well-formed object.
    pub open spec fn well_formed(self) -> bool {
        self.subject.is_node() && self.object.well_formed()
    }
}

pub open spec fn triples_view(s: Seq<RdfTriple>) -> Seq<RdfTripleV> {
    s.map_values(|t: RdfTriple| t@)
}

pub open spec fn rdf_terms_view(s: Seq<RdfTerm>) -> Seq<RdfTermV> {
    s.map_values(|t: RdfTerm| t@)
}

/// The set of triples that an `oxrdf::Graph` holds.
pub uninterp spec fn graph_triples(g: Graph) -> Set<RdfTripleV>;

/// The triples of `s` whose subject is `subject`.
pub open spec fn triples_with_subject(s: Set<RdfTripleV>, subject: RdfTermV) -> Set<RdfTripleV> {
    s.filter(|t: RdfTripleV| t.subject == subject)
}

/// The triples of `s` whose predicate is `predicate`.
pub open spec fn triples_with_predicate(s: Set<RdfTripleV>, predicate: Seq<char>) -> Set<RdfTripleV> {
    s.filter(|t: RdfTripleV| t.predicate == predicate)
}

/// Whether `s` holds a triple `(subject, predicate, object)`.
pub open spec fn has_triple(s: Set<RdfTripleV>, subject: RdfTermV, predicate: Seq<char>, object: RdfTermV) -> bool {
    s.contains(RdfTripleV { subject, predicate, object })
}

/// `oxrdf::Graph::new`: an empty graph.
#[verifier::external_body]
pub fn graph_new() -> (g: Graph)
    ensures
        graph_triples(g) == Set::<RdfTripleV>::empty(),
{
    Graph::new()
}

/// `oxrdf::Graph::insert`: the graph holds the triple afterwards, and the result says
/// whether it was new.
#[verifier::external_body]
pub fn graph_insert(g: &mut Graph, t: &RdfTriple) -> (r: bool)
    requires
        t@.well_formed(),
    ensures
        graph_triples(*final(g)) == graph_triples(*old(g)).insert(t@),
        r == !graph_triples(*old(g)).contains(t@),
{
    let s: NamedOrBlankNodeRef = match &t.subject {
        RdfTerm::BlankNode(b) => BlankNodeRef::new_unchecked(b).into(),
        RdfTerm::NamedNode(n) | RdfTerm::Literal(n, ..) => NamedNodeRef::new_unchecked(n).into(),
    };
    let o: TermRef = match &t.object {
        RdfTerm::NamedNode(n) => NamedNodeRef::new_unchecked(n).into(),
        RdfTerm::BlankNode(b) => BlankNodeRef::new_unchecked(b).into(),
        RdfTerm::Literal(v, _, Some(l)) => LiteralRef::new_language_tagged_literal_unchecked(v, l).into(),
        RdfTerm::Literal(v, d, None) => LiteralRef::new_typed_literal(v, NamedNodeRef::new_unchecked(d)).into(),
    };
    g.insert(TripleRef::new(s, NamedNodeRef::new_unchecked(&t.predicate), o))
}

/// `oxrdf::Graph::remove`: the graph no longer holds the triple, and the result says
/// whether it held it.
#[verifier::external_body]
pub fn graph_remove(g: &mut Graph, t: &RdfTriple) -> (r: bool)
    requires
        t@.well_formed(),
    ensures
        graph_triples(*final(g)) == graph_triples(*old(g)).remove(t@),
        r == graph_triples(*old(g)).contains(t@),
{
    let s: NamedOrBlankNodeRef = match &t.subject {
        RdfTerm::BlankNode(b) => BlankNodeRef::new_unchecked(b).into(),
        RdfTerm::NamedNode(n) | RdfTerm::Literal(n, ..) => NamedNodeRef::new_unchecked(n).into(),
    };
    let o: TermRef = match &t.object {
        RdfTerm::NamedNode(n) => NamedNodeRef::new_unchecked(n).into(),
        RdfTerm::BlankNode(b) => BlankNodeRef::new_unchecked(b).into(),
        RdfTerm::Literal(v, _, Some(l)) => LiteralRef::new_language_tagged_literal_unchecked(v, l).into(),
        RdfTerm::Literal(v, d, None) => LiteralRef::new_typed_literal(v, NamedNodeRef::new_unchecked(d)).into(),
    };
    g.remove(TripleRef::new(s, NamedNodeRef::new_unchecked(&t.predicate), o))
}

/// `oxrdf::Graph::len`: the number of triples.
#[verifier::external_body]
pub fn graph_len(g: &Graph) -> (r: usize)
    ensures
        r == graph_triples(*g).len(),
{
    g.len()
}

/// `oxrdf::Graph::iter`: every triple of the graph once, in an order that the
/// contract leaves open; each is well formed.
#[verifier::external_body]
pub fn graph_iter(g: &Graph) -> (r: Vec<RdfTriple>)
    ensures
        triples_view(r@).no_duplicates(),
        triples_view(r@).to_set() == graph_triples(*g),
        forall|i: int| 0 <= i < r.len() ==> (#[trigger] r@[i])@.well_formed(),
{
    g.iter().map(|t| RdfTriple {
        subject: match t.subject {
            NamedOrBlankNodeRef::NamedNode(n) => RdfTerm::NamedNode(n.as_str().into()),
            NamedOrBlankNodeRef::BlankNode(b) => RdfTerm::BlankNode(b.as_str().into()),
        },
        predicate: t.predicate.as_str().into(),
        object: match t.object {
            TermRef::NamedNode(n) => RdfTerm::NamedNode(n.as_str().into()),
            TermRef::BlankNode(b) => RdfTerm::BlankNode(b.as_str().into()),
            TermRef::Literal(l) => RdfTerm::Literal(l.value().into(), l.datatype().as_str().into(), l.language().map(Into::into)),
        },
    }).collect()
}

/// `oxrdf::Graph::triples_for_subject`: every triple with that subject once, in an
/// order that the contract leaves open.
#[verifier::external_body]
pub fn graph_triples_for_subject(g: &Graph, subject: &RdfTerm) -> (r: Vec<RdfTriple>)
    requires
        subject@.is_node(),
    ensures
        triples_view(r@).no_duplicates(),
        triples_view(r@).to_set() == triples_with_subject(graph_triples(*g), subject@),
        forall|i: int| 0 <= i < r.len() ==> (#[trigger] r@[i])@.well_formed(),
{
    let s: NamedOrBlankNodeRef = match subject {
        RdfTerm::BlankNode(b) => BlankNodeRef::new_unchecked(b).into(),
        RdfTerm::NamedNode(n) | RdfTerm::Literal(n, ..) => NamedNodeRef::new_unchecked(n).into(),
    };
    g.triples_for_subject(s).map(|t| RdfTriple {
        subject: subject.clone(),
        predicate: t.predicate.as_str().into(),
        object: match t.object {
            TermRef::NamedNode(n) => RdfTerm::NamedNode(n.as_str().into()),
            TermRef::BlankNode(b) => RdfTerm::BlankNode(b.as_str().into()),
            TermRef::Literal(l) => RdfTerm::Literal(l.value().into(), l.datatype().as_str().into(), l.language().map(Into::into)),
        },
    }).collect()
}

/// `oxrdf::Graph::triples_for_predicate`: every triple with that predicate once, in an
/// order that the contract leaves open.
#[verifier::external_body]
pub fn graph_triples_for_predicate(g: &Graph, predicate: &str) -> (r: Vec<RdfTriple>)
    ensures
        triples_view(r@).no_duplicates(),
        triples_view(r@).to_set() == triples_with_predicate(graph_triples(*g), predicate@),
        forall|i: int| 0 <= i < r.len() ==> (#[trigger] r@[i])@.well_formed(),
{
    g.triples_for_predicate(NamedNodeRef::new_unchecked(predicate)).map(|t| RdfTriple {
        subject: match t.subject {
            NamedOrBlankNodeRef::NamedNode(n) => RdfTerm::NamedNode(n.as_str().into()),
            NamedOrBlankNodeRef::BlankNode(b) => RdfTerm::BlankNode(b.as_str().into()),
        },
        predicate: predicate.into(),
        object: match t.object {
            TermRef::NamedNode(n) => RdfTerm::NamedNode(n.as_str().into()),
            TermRef::BlankNode(b) => RdfTerm::BlankNode(b.as_str().into()),
            TermRef::Literal(l) => RdfTerm::Literal(l.value().into(), l.datatype().as_str().into(), l.language().map(Into::into)),
        },
    }).collect()
}

/// `oxrdf::Graph::object_for_subject_predicate`: an object of a triple with that subject
/// and predicate (which one, where there are several, the contract leaves open), or
/// `None` where there is none.
#[verifier::external_body]
pub fn graph_object_for_subject_predicate(g: &Graph, subject: &RdfTerm, predicate: &str) -> (r: Option<RdfTerm>)
    requires
        subject@.is_node(),
    ensures
        match r {
            Some(o) => has_triple(graph_triples(*g), subject@, predicate@, o@) && o@.well_formed(),
            None => forall|o: RdfTermV| !has_triple(graph_triples(*g), subject@, predicate@, o),
        },
{
    let s: NamedOrBlankNodeRef = match subject {
        RdfTerm::BlankNode(b) => BlankNodeRef::new_unchecked(b).into(),
        RdfTerm::NamedNode(n) | RdfTerm::Literal(n, ..) => NamedNodeRef::new_unchecked(n).into(),
    };
    g.object_for_subject_predicate(s, NamedNodeRef::new_unchecked(predicate)).map(|o| match o {
        TermRef::NamedNode(n) => RdfTerm::NamedNode(n.as_str().into()),
        TermRef::BlankNode(b) => RdfTerm::BlankNode(b.as_str().into()),
        TermRef::Literal(l) => RdfTerm::Literal(l.value().into(), l.datatype().as_str().into(), l.language().map(Into::into)),
    })
}

/// `oxrdf::Graph::subjects_for_predicate_object`: every subject of a triple with that
/// predicate and object once, in an order that the contract leaves open.
#[verifier::external_body]
pub fn graph_subjects_for_predicate_object(g: &Graph, predicate: &str, object: &RdfTerm) -> (r: Vec<RdfTerm>)
    requires
        object@.well_formed(),
    ensures
        rdf_terms_view(r@).no_duplicates(),
        forall|s: RdfTermV| rdf_terms_view(r@).contains(s) <==> has_triple(graph_triples(*g), s, predicate@, object@),
        forall|i: int| 0 <= i < r.len() ==> (#[trigger] r@[i])@.is_node(),
{
    let o: TermRef = match object {
        RdfTerm::NamedNode(n) => NamedNodeRef::new_unchecked(n).into(),
        RdfTerm::BlankNode(b) => BlankNodeRef::new_unchecked(b).into(),
        RdfTerm::Literal(v, _, Some(l)) => LiteralRef::new_language_tagged_literal_unchecked(v, l).into(),
        RdfTerm::Literal(v, d, None) => LiteralRef::new_typed_literal(v, NamedNodeRef::new_unchecked(d)).into(),
    };
    g.subjects_for_predicate_object(NamedNodeRef::new_unchecked(predicate), o).map(|s| match s {
        NamedOrBlankNodeRef::NamedNode(n) => RdfTerm::NamedNode(n.as_str().into()),
        NamedOrBlankNodeRef::BlankNode(b) => RdfTerm::BlankNode(b.as_str().into()),
    }).collect()
}


fn opt_string_eq(a: &Option<String>, b: &Option<String>) -> (r: bool)
    ensures
        r == ((match *a { Some(x) => Some(x@), None => None }) == (match *b { Some(x) => Some(x@), None => None })),
{
    match (a, b) {
        (Some(x), Some(y)) => *x == *y,
        (None, None) => true,
        _ => false,
    }
}

impl RdfTerm {
    /// Whether two terms are the same term.
    pub fn same_as(&self, other: &RdfTerm) -> (r: bool)
        ensures
            r == (self@ == other@),
    {
        match (self, other) {
            (RdfTerm::NamedNode(a), RdfTerm::NamedNode(b)) => *a == *b,
            (RdfTerm::BlankNode(a), RdfTerm::BlankNode(b)) => *a == *b,
            (RdfTerm::Literal(v1, d1, l1), RdfTerm::Literal(v2, d2, l2)) => {
                *v1 == *v2 && *d1 == *d2 && opt_string_eq(l1, l2)
            },
            _ => false,
        }
    }

    /// Whether this term is an IRI or a blank node.
    pub fn is_node(&self) -> (r: bool)
        ensures
            r == self@.is_node(),
    {
        match self {
            RdfTerm::Literal(..) => false,
            _ => true,
        }
    }

    /// A copy of this term.
    pub fn duplicate(&self) -> (r: RdfTerm)
        ensures
            r@ == self@,
    {
        match self {
            RdfTerm::NamedNode(a) => RdfTerm::NamedNode(a.clone()),
            RdfTerm::BlankNode(a) => RdfTerm::BlankNode(a.clone()),
            RdfTerm::Literal(v, d, l) => RdfTerm::Literal(v.clone(), d.clone(), l.clone()),
        }
    }
}

}
