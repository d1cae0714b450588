use vstd::prelude::*;
use vstd::string::StrSliceExecFns;
use crate::error::GenTermError;
use crate::entailment_map::{Entailment, entailment_of};
use crate::interpreter::{
    DInterpreter, MyInterpreter, RDFSInterpreter, RIFInterpreter, UnreadInterpreter, triple_read_step,
    triple_step,
};
use crate::interpreter::rif::{atom_answer, atom_read, equal_answer, equal_read, pair_answer, pair_read};
use crate::interpreter::d::d_frame_answer;
use crate::interpreter::rdfs::{not_a_frame, pair_of_triple, rdfs_frame_answer, rdfs_frame_read};
use crate::rdf::{RdfTermV, RdfTripleV, graph_triples};
use crate::rdfhelper::unambiguous;
use crate::rififormulas::RIFIFormulas;
use crate::vocab::{
    RDFS_SUB_CLASS_OF, RDF_TYPE, RIF_ATOM, RIF_CLASS, RIF_EQUAL, RIF_INSTANCE, RIF_MEMBER, RIF_SUB,
    RIF_SUBCLASS, RIF_SUPER,
};
use oxrdf::Graph;

verus! {

/// A term of a RIF formula.
#[derive(Debug)]
pub enum RIFTerm {
    IRI(String),
    TypedLiteral(String, Option<String>),
    LangLiteral(String, String),
    List(Vec<RIFTerm>),
    Local(String),
    Variable(String),
    Var,
}

/// The mathematical value of a [`RIFTerm`].
pub enum RIFTermV {
    IRI(Seq<char>),
    TypedLiteral(Seq<char>, Option<Seq<char>>),
    LangLiteral(Seq<char>, Seq<char>),
    List(Seq<RIFTermV>),
    Local(Seq<char>),
    Variable(Seq<char>),
    Var,
}

pub open spec fn opt_str_view(o: Option<String>) -> Option<Seq<char>> {
    match o {
        Some(s) => Some(s@),
        None => None,
    }
}

pub open spec fn opt_terms_view(o: Option<Vec<RIFTerm>>) -> Option<Seq<RIFTermV>> {
    match o {
        Some(v) => Some(terms_view(v@)),
        None => None,
    }
}

pub open spec fn term_view(t: RIFTerm) -> RIFTermV
    decreases t,
{
    match t {
        RIFTerm::IRI(s) => RIFTermV::IRI(s@),
        RIFTerm::TypedLiteral(s, d) => RIFTermV::TypedLiteral(s@, opt_str_view(d)),
        RIFTerm::LangLiteral(s, l) => RIFTermV::LangLiteral(s@, l@),
        RIFTerm::List(v) => RIFTermV::List(terms_view(v@)),
        RIFTerm::Local(s) => RIFTermV::Local(s@),
        RIFTerm::Variable(s) => RIFTermV::Variable(s@),
        RIFTerm::Var => RIFTermV::Var,
    }
}

pub open spec fn terms_view(s: Seq<RIFTerm>) -> Seq<RIFTermV>
    decreases s,
{
    if s.len() == 0 {
        Seq::empty()
    } else {
        seq![term_view(s[0])] + terms_view(s.subrange(1, s.len() as int))
    }
}

impl View for RIFTerm {
    type V = RIFTermV;

    open spec fn view(&self) -> RIFTermV {
        term_view(*self)
    }
}


/// The views of a list of terms: as many as there are terms, each the view of its term.
pub proof fn lemma_terms_view(s: Seq<RIFTerm>)
    ensures
        terms_view(s).len() == s.len(),
        forall|i: int| 0 <= i < s.len() ==> #[trigger] terms_view(s)[i] == term_view(s[i]),
    decreases s.len(),
{
    if s.len() > 0 {
        lemma_terms_view(s.subrange(1, s.len() as int));
        assert forall|i: int| 0 <= i < s.len() implies #[trigger] terms_view(s)[i] == term_view(s[i]) by {
            if i > 0 {
                assert(s.subrange(1, s.len() as int)[i - 1] == s[i]);
            }
        }
    }
}

/// Whether the query term `q` is "equal or valid for" the term `t`: a `Var` in the
/// query stands for any term, lists are compared item by item, and every other term
/// must be of the same kind with the same strings. A `Variable` never matches.
pub open spec fn valid_for(q: RIFTermV, t: RIFTermV) -> bool
    decreases q,
{
    match q {
        RIFTermV::Var => true,
        RIFTermV::IRI(a) => t matches RIFTermV::IRI(b) && a == b,
        RIFTermV::TypedLiteral(a, d) => t matches RIFTermV::TypedLiteral(b, e) && a == b && d == e,
        RIFTermV::LangLiteral(a, l) => t matches RIFTermV::LangLiteral(b, m) && a == b && l == m,
        RIFTermV::List(qs) => match t {
            RIFTermV::List(ts) => lists_valid_for(qs, ts),
            _ => false,
        },
        RIFTermV::Local(a) => t matches RIFTermV::Local(b) && a == b,
        RIFTermV::Variable(_) => false,
    }
}

/// Item by item `valid_for` over two lists of the same length.
pub open spec fn lists_valid_for(qs: Seq<RIFTermV>, ts: Seq<RIFTermV>) -> bool
    decreases qs,
{
    if qs.len() == 0 {
        ts.len() == 0
    } else {
        &&& ts.len() > 0
        &&& valid_for(qs[0], ts[0])
        &&& lists_valid_for(qs.subrange(1, qs.len() as int), ts.subrange(1, ts.len() as int))
    }
}

/// `lists_valid_for` holds exactly when the lists have the same length and each query
/// item is valid for the target item at the same position.
pub proof fn lemma_lists_valid_for(qs: Seq<RIFTermV>, ts: Seq<RIFTermV>)
    ensures
        lists_valid_for(qs, ts) <==> (qs.len() == ts.len() && forall|i: int|
            0 <= i < qs.len() ==> #[trigger] valid_for(qs[i], ts[i])),
    decreases qs.len(),
{
    if qs.len() > 0 && ts.len() > 0 {
        let qr = qs.subrange(1, qs.len() as int);
        let tr = ts.subrange(1, ts.len() as int);
        lemma_lists_valid_for(qr, tr);
        assert(lists_valid_for(qs, ts) == (valid_for(qs[0], ts[0]) && lists_valid_for(qr, tr)));
        if qs.len() == ts.len() && (forall|i: int| 0 <= i < qs.len() ==> #[trigger] valid_for(qs[i], ts[i])) {
            assert forall|i: int| 0 <= i < qr.len() implies #[trigger] valid_for(qr[i], tr[i]) by {
                assert(valid_for(qs[i + 1], ts[i + 1]));
            }
        }
        if lists_valid_for(qs, ts) {
            assert forall|i: int| 0 <= i < qs.len() implies #[trigger] valid_for(qs[i], ts[i]) by {
                if i > 0 {
                    assert(valid_for(qr[i - 1], tr[i - 1]));
                }
            }
        }
    }
}

pub open spec fn opt_eq(a: Option<String>, b: Option<String>) -> bool {
    opt_str_view(a) == opt_str_view(b)
}

fn opt_string_eq(a: &Option<String>, b: &Option<String>) -> (r: bool)
    ensures
        r == (opt_str_view(*a) == opt_str_view(*b)),
{
    match (a, b) {
        (Some(x), Some(y)) => *x == *y,
        (None, None) => true,
        _ => false,
    }
}

/// Item by item `equal_or_valid_for` of `query` against `target`.
pub fn list_equal_or_valid_for_rifterm(query: &Vec<RIFTerm>, target: &Vec<RIFTerm>) -> (r: bool)
    ensures
        r == lists_valid_for(terms_view(query@), terms_view(target@)),
    decreases query@,
{
    proof {
        lemma_terms_view(query@);
        lemma_terms_view(target@);
        lemma_lists_valid_for(terms_view(query@), terms_view(target@));
    }
    if query.len() != target.len() {
        return false;
    }
    let n = query.len();
    let mut i: usize = 0;
    while i < n
        invariant
            n == query.len(),
            n == target.len(),
            0 <= i <= n,
            terms_view(query@).len() == n,
            terms_view(target@).len() == n,
            forall|k: int| 0 <= k < query.len() ==> #[trigger] terms_view(query@)[k] == term_view(query@[k]),
            forall|k: int| 0 <= k < target.len() ==> #[trigger] terms_view(target@)[k] == term_view(target@[k]),
            forall|k: int| 0 <= k < i ==> valid_for(#[trigger] terms_view(query@)[k], terms_view(target@)[k]),
        decreases n - i,
    {
        assert(decreases_to!(query@ => query@[i as int]));
        if !query[i].equal_or_valid_for(&target[i]) {
            proof {
                assert(terms_view(query@)[i as int] == term_view(query@[i as int]));
                assert(terms_view(target@)[i as int] == term_view(target@[i as int]));
                lemma_lists_valid_for(terms_view(query@), terms_view(target@));
            }
            return false;
        }
        i = i + 1;
    }
    proof {
        lemma_lists_valid_for(terms_view(query@), terms_view(target@));
    }
    true
}

impl RIFTerm {
    /// The empty list.
    pub fn empty_list() -> (r: Self)
        ensures
            r@ == RIFTermV::List(Seq::empty()),
    {
        let r = RIFTerm::List(Vec::new());
        assert(terms_view(Seq::<RIFTerm>::empty()) =~= Seq::empty());
        r
    }

    /// Whether this query term is equal to `target` or valid for it (see [`valid_for`]).
    pub fn equal_or_valid_for(&self, target: &RIFTerm) -> (r: bool)
        ensures
            r == valid_for(self@, target@),
        decreases self,
    {
        match (self, target) {
            (RIFTerm::Var, _) => true,
            (RIFTerm::IRI(x1), RIFTerm::IRI(x2)) => *x1 == *x2,
            (RIFTerm::TypedLiteral(x1, y1), RIFTerm::TypedLiteral(x2, y2)) => {
                *x1 == *x2 && opt_string_eq(y1, y2)
            },
            (RIFTerm::LangLiteral(x1, y1), RIFTerm::LangLiteral(x2, y2)) => {
                *x1 == *x2 && *y1 == *y2
            },
            (RIFTerm::List(x1), RIFTerm::List(x2)) => {
                let b = list_equal_or_valid_for_rifterm(x1, x2);
                assert(self@ == RIFTermV::List(terms_view(x1@)));
                assert(target@ == RIFTermV::List(terms_view(x2@)));
                b
            },
            (RIFTerm::Local(x1), RIFTerm::Local(x2)) => *x1 == *x2,
            _ => false,
        }
    }
}



/// Whether two lists of terms are equal, item by item.
fn rifterm_list_eq(a: &Vec<RIFTerm>, b: &Vec<RIFTerm>) -> (r: bool)
    ensures
        r == (terms_view(a@) == terms_view(b@)),
    decreases a@,
{
    proof {
        lemma_terms_view(a@);
        lemma_terms_view(b@);
    }
    if a.len() != b.len() {
        return false;
    }
    let n = a.len();
    let mut i: usize = 0;
    while i < n
        invariant
            n == a.len(),
            n == b.len(),
            0 <= i <= n,
            terms_view(a@).len() == n,
            terms_view(b@).len() == n,
            forall|k: int| 0 <= k < n ==> #[trigger] terms_view(a@)[k] == term_view(a@[k]),
            forall|k: int| 0 <= k < n ==> #[trigger] terms_view(b@)[k] == term_view(b@[k]),
            forall|k: int| 0 <= k < i ==> #[trigger] terms_view(a@)[k] == terms_view(b@)[k],
        decreases n - i,
    {
        assert(decreases_to!(a@ => a@[i as int]));
        if !a[i].same_as(&b[i]) {
            assert(terms_view(a@)[i as int] != terms_view(b@)[i as int]);
            return false;
        }
        i = i + 1;
    }
    assert(terms_view(a@) =~= terms_view(b@));
    true
}

impl RIFTerm {
    /// Whether two terms are the same: same kind, same strings, same items.
    pub fn same_as(&self, other: &RIFTerm) -> (r: bool)
        ensures
            r == (self@ == other@),
        decreases self,
    {
        match (self, other) {
            (RIFTerm::IRI(x1), RIFTerm::IRI(x2)) => *x1 == *x2,
            (RIFTerm::TypedLiteral(x1, y1), RIFTerm::TypedLiteral(x2, y2)) => {
                *x1 == *x2 && opt_string_eq(y1, y2)
            },
            (RIFTerm::LangLiteral(x1, y1), RIFTerm::LangLiteral(x2, y2)) => {
                *x1 == *x2 && *y1 == *y2
            },
            (RIFTerm::List(x1), RIFTerm::List(x2)) => rifterm_list_eq(x1, x2),
            (RIFTerm::Local(x1), RIFTerm::Local(x2)) => *x1 == *x2,
            (RIFTerm::Variable(x1), RIFTerm::Variable(x2)) => *x1 == *x2,
            (RIFTerm::Var, RIFTerm::Var) => true,
            _ => false,
        }
    }

    /// Whether this term is the unnamed variable `Var`.
    pub fn is_var(&self) -> (r: bool)
        ensures
            r == (self@ == RIFTermV::Var),
    {
        match self {
            RIFTerm::Var => true,
            _ => false,
        }
    }
}


/// A RIF atom: a predicate applied to a list of arguments.
#[derive(Debug)]
pub struct Atom {
    pub op: RIFTerm,
    pub args: Vec<RIFTerm>,
}

/// A RIF frame: one slot (key and value) of an object.
#[derive(Debug)]
pub struct Frame {
    pub object: RIFTerm,
    pub slotkey: RIFTerm,
    pub slotvalue: RIFTerm,
}

/// A RIF subclass formula.
#[derive(Debug)]
pub struct Subclass {
    pub sub: RIFTerm,
    pub super_: RIFTerm,
}

/// A RIF membership formula.
#[derive(Debug)]
pub struct Member {
    pub instance: RIFTerm,
    pub class: RIFTerm,
}

/// A RIF equality formula.
#[derive(Debug)]
pub struct Equal {
    pub left: RIFTerm,
    pub right: RIFTerm,
}

/// A RIF formula of one of the five kinds.
#[derive(Debug)]
pub enum Formula {
    Atom(Atom),
    Frame(Frame),
    Subclass(Subclass),
    Member(Member),
    Equal(Equal),
}

/// Whether `s` holds the NUL character.
pub open spec fn has_nul(s: Seq<char>) -> bool {
    exists|i: int| 0 <= i < s.len() && s[i] == '\0'
}

pub(crate) fn str_has_nul(s: &str) -> (r: bool)
    ensures
        r == has_nul(s@),
{
    let n = s.unicode_len();
    let mut i: usize = 0;
    while i < n
        invariant
            n == s@.len(),
            0 <= i <= n,
            forall|k: int| 0 <= k < i ==> s@[k] != '\0',
        decreases n - i,
    {
        if s.get_char(i) == '\0' {
            return true;
        }
        i = i + 1;
    }
    false
}

impl RIFTerm {
    /// The local constant named `l0_` followed by `oldvalue`; an error where `oldvalue`
    /// holds a NUL character.
    pub fn get_local(oldvalue: &str) -> (r: Result<Self, GenTermError>)
        ensures
            has_nul(oldvalue@) ==> r matches Err(GenTermError::NulError),
            !has_nul(oldvalue@) ==> (r matches Ok(t) && t@ == RIFTermV::Local("l0_"@ + oldvalue@)),
    {
        if str_has_nul(oldvalue) {
            return Err(GenTermError::NulError);
        }
        let mut value = String::from_str("l0_");
        value.append(oldvalue);
        Ok(RIFTerm::Local(value))
    }
}


/// The views of a list with one more term: the views before, then the view of that term.
pub proof fn lemma_terms_view_push(s: Seq<RIFTerm>, t: RIFTerm)
    ensures
        terms_view(s.push(t)) == terms_view(s).push(term_view(t)),
{
    lemma_terms_view(s);
    lemma_terms_view(s.push(t));
    assert(terms_view(s.push(t)) =~= terms_view(s).push(term_view(t)));
}


/// A source of RIF formulas to be answered to queries: a graph read under one of the
/// entailment regimes, or a store of formulas.
pub enum RIFIData {
    RIF(RIFInterpreter),
    Simple(UnreadInterpreter),
    RDF(UnreadInterpreter),
    RDFS(RDFSInterpreter),
    D(DInterpreter),
    OWLRDFBased(UnreadInterpreter),
    OWLDirect(UnreadInterpreter),
    Formulas(RIFIFormulas),
}

pub open spec fn opt_atom_view(r: Option<Atom>) -> Option<(RIFTermV, Seq<RIFTermV>)> {
    match r {
        Some(a) => Some((a.op@, terms_view(a.args@))),
        None => None,
    }
}

pub open spec fn opt_frame_view(r: Option<Frame>) -> Option<(RIFTermV, RIFTermV, RIFTermV)> {
    match r {
        Some(f) => Some((f.object@, f.slotkey@, f.slotvalue@)),
        None => None,
    }
}

pub open spec fn opt_subclass_view(r: Option<Subclass>) -> Option<(RIFTermV, RIFTermV)> {
    match r {
        Some(x) => Some((x.sub@, x.super_@)),
        None => None,
    }
}

pub open spec fn opt_member_view(r: Option<Member>) -> Option<(RIFTermV, RIFTermV)> {
    match r {
        Some(x) => Some((x.instance@, x.class@)),
        None => None,
    }
}

pub open spec fn opt_equal_view(r: Option<Equal>) -> Option<(RIFTermV, RIFTermV)> {
    match r {
        Some(x) => Some((x.left@, x.right@)),
        None => None,
    }
}

impl RIFIData {
    /// Both sources held under the same regime that this library gives no reading for.
    pub open spec fn unread_pair(self, new: Self) -> Option<(UnreadInterpreter, UnreadInterpreter)> {
        match (self, new) {
            (RIFIData::Simple(a), RIFIData::Simple(b)) => Some((a, b)),
            (RIFIData::RDF(a), RIFIData::RDF(b)) => Some((a, b)),
            (RIFIData::OWLRDFBased(a), RIFIData::OWLRDFBased(b)) => Some((a, b)),
            (RIFIData::OWLDirect(a), RIFIData::OWLDirect(b)) => Some((a, b)),
            _ => None,
        }
    }

    /// No answer, and the graph unchanged, for a regime that this library gives no reading for.
    pub open spec fn unread_step(self, new: Self, none: bool) -> bool {
        match self.unread_pair(new) {
            Some((a, b)) => none && b.graph() == a.graph(),
            None => false,
        }
    }

    /// What an answer `r` to the atom query `op`, `args` is, and does, for each source.
    pub open spec fn atom_step(self, new: Self, op: RIFTermV, args: Option<Seq<RIFTermV>>, r: Option<Atom>) -> bool {
        match (self, new) {
            (RIFIData::RIF(a), RIFIData::RIF(b)) => a.node_step(b, RIF_ATOM@,
                |q: RdfTermV| atom_answer(a.graph(), q, op, args),
                |q: RdfTermV, x: Option<(RIFTermV, Seq<RIFTermV>)>| atom_read(a.graph(), q, op, args, x), opt_atom_view(r)),
            (RIFIData::RDFS(a), RIFIData::RDFS(b)) => r is None && b.graph() == a.graph(),
            (RIFIData::D(a), RIFIData::D(b)) => r is None && b.graph() == a.graph(),
            (RIFIData::Formulas(a), RIFIData::Formulas(b)) => a.atom_step(b, op, args, r),
            _ => self.unread_step(new, r is None),
        }
    }

    /// What an answer `r` to the frame query is, and does, for each source.
    pub open spec fn frame_step(self, new: Self, object: RIFTermV, slotkey: RIFTermV, slotvalue: RIFTermV, r: Option<Frame>) -> bool {
        match (self, new) {
            (RIFIData::RIF(a), RIFIData::RIF(b)) => a.frame_step(b, object, slotkey, slotvalue, opt_frame_view(r)),
            (RIFIData::RDFS(a), RIFIData::RDFS(b)) => triple_step(a.graph(), b.graph(),
                |t: RdfTripleV| !not_a_frame(t.predicate),
                |t: RdfTripleV| rdfs_frame_answer(a.graph(), t, object, slotkey, slotvalue),
                unambiguous(a.graph()), opt_frame_view(r))
                && triple_read_step(a.graph(), b.graph(), |t: RdfTripleV| !not_a_frame(t.predicate),
                |t: RdfTripleV, x: Option<(RIFTermV, RIFTermV, RIFTermV)>| rdfs_frame_read(a.graph(), t, object, slotkey, slotvalue, x),
                opt_frame_view(r)),
            (RIFIData::D(a), RIFIData::D(b)) => triple_step(a.graph(), b.graph(), |t: RdfTripleV| true,
                |t: RdfTripleV| d_frame_answer(t, object, slotkey, slotvalue), true, opt_frame_view(r)),
            (RIFIData::Formulas(a), RIFIData::Formulas(b)) => a.frame_step(b, object, slotkey, slotvalue, r),
            _ => self.unread_step(new, r is None),
        }
    }

    /// What an answer `r` to the subclass query is, and does, for each source.
    pub open spec fn subclass_step(self, new: Self, sub: RIFTermV, super_: RIFTermV, r: Option<Subclass>) -> bool {
        match (self, new) {
            (RIFIData::RIF(a), RIFIData::RIF(b)) => a.node_step(b, RIF_SUBCLASS@,
                |q: RdfTermV| pair_answer(a.graph(), q, RIF_SUB@, RIF_SUPER@, sub, super_),
                |q: RdfTermV, x: Option<(RIFTermV, RIFTermV)>| pair_read(a.graph(), q, RIF_SUB@, RIF_SUPER@, sub, super_, x), opt_subclass_view(r)),
            (RIFIData::RDFS(a), RIFIData::RDFS(b)) => triple_step(a.graph(), b.graph(),
                |t: RdfTripleV| t.predicate == RDFS_SUB_CLASS_OF@, |t: RdfTripleV| pair_of_triple(t, sub, super_),
                true, opt_subclass_view(r)),
            (RIFIData::D(a), RIFIData::D(b)) => r is None && b.graph() == a.graph(),
            (RIFIData::Formulas(a), RIFIData::Formulas(b)) => a.subclass_step(b, sub, super_, r),
            _ => self.unread_step(new, r is None),
        }
    }

    /// What an answer `r` to the membership query is, and does, for each source.
    pub open spec fn member_step(self, new: Self, instance: RIFTermV, class: RIFTermV, r: Option<Member>) -> bool {
        match (self, new) {
            (RIFIData::RIF(a), RIFIData::RIF(b)) => a.node_step(b, RIF_MEMBER@,
                |q: RdfTermV| pair_answer(a.graph(), q, RIF_INSTANCE@, RIF_CLASS@, instance, class),
                |q: RdfTermV, x: Option<(RIFTermV, RIFTermV)>| pair_read(a.graph(), q, RIF_INSTANCE@, RIF_CLASS@, instance, class, x), opt_member_view(r)),
            (RIFIData::RDFS(a), RIFIData::RDFS(b)) => triple_step(a.graph(), b.graph(),
                |t: RdfTripleV| t.predicate == RDF_TYPE@, |t: RdfTripleV| pair_of_triple(t, instance, class),
                true, opt_member_view(r)),
            (RIFIData::D(a), RIFIData::D(b)) => r is None && b.graph() == a.graph(),
            (RIFIData::Formulas(a), RIFIData::Formulas(b)) => a.member_step(b, instance, class, r),
            _ => self.unread_step(new, r is None),
        }
    }

    /// What an answer `r` to the equality query is, and does, for each source.
    pub open spec fn equal_step(self, new: Self, left: RIFTermV, right: RIFTermV, r: Option<Equal>) -> bool {
        match (self, new) {
            (RIFIData::RIF(a), RIFIData::RIF(b)) => a.node_step(b, RIF_EQUAL@,
                |q: RdfTermV| equal_answer(a.graph(), q, left, right),
                |q: RdfTermV, x: Option<(RIFTermV, RIFTermV)>| equal_read(a.graph(), q, left, right, x), opt_equal_view(r)),
            (RIFIData::RDFS(a), RIFIData::RDFS(b)) => r is None && b.graph() == a.graph(),
            (RIFIData::D(a), RIFIData::D(b)) => r is None && b.graph() == a.graph(),
            (RIFIData::Formulas(a), RIFIData::Formulas(b)) => a.equal_step(b, left, right, r),
            _ => self.unread_step(new, r is None),
        }
    }

    /// `r` is the source for the triples `g` read under the entailment regime named by
    /// `entailment` (the RIF regime where `None`); `None` for a name of no regime. The
    /// Simple, RDF and OWL regimes hold the graph without a reading of formulas.
    pub open spec fn reads_graph(r: Option<Self>, g: Set<RdfTripleV>, entailment: Option<Seq<char>>) -> bool {
        let regime = match entailment {
            None => Some(Entailment::RIF),
            Some(e) => entailment_of(e),
        };
        match regime {
            Some(Entailment::RIF) => r matches Some(RIFIData::RIF(i)) && i.graph() == g && i.removed().len() == 0,
            Some(Entailment::RDFS) => r matches Some(RIFIData::RDFS(i)) && i.graph() == g,
            Some(Entailment::D) => r matches Some(RIFIData::D(i)) && i.graph() == g,
            Some(Entailment::Simple) => r matches Some(RIFIData::Simple(i)) && i.graph() == g,
            Some(Entailment::RDF) => r matches Some(RIFIData::RDF(i)) && i.graph() == g,
            Some(Entailment::OWLRDFBased) => r matches Some(RIFIData::OWLRDFBased(i)) && i.graph() == g,
            Some(Entailment::OWLDirect) => r matches Some(RIFIData::OWLDirect(i)) && i.graph() == g,
            None => r is None,
        }
    }

    /// The source for the graph `graph` read under the entailment regime named by
    /// `entailment` (see [`RIFIData::reads_graph`]).
    pub fn from_graph(graph: Graph, entailment: Option<&str>) -> (r: Option<Self>)
        ensures
            Self::reads_graph(r, graph_triples(graph), match entailment {
                Some(e) => Some(e@),
                None => None,
            }),
    {
        match entailment {
            None => Some(RIFIData::RIF(RIFInterpreter::new(graph))),
            Some(ent) => match Entailment::from(ent) {
                Some(Entailment::RIF) => Some(RIFIData::RIF(RIFInterpreter::new(graph))),
                Some(Entailment::RDFS) => Some(RIFIData::RDFS(RDFSInterpreter::new(graph))),
                Some(Entailment::D) => Some(RIFIData::D(DInterpreter::new(graph))),
                Some(Entailment::Simple) => Some(RIFIData::Simple(UnreadInterpreter::new(graph))),
                Some(Entailment::RDF) => Some(RIFIData::RDF(UnreadInterpreter::new(graph))),
                Some(Entailment::OWLRDFBased) => Some(RIFIData::OWLRDFBased(UnreadInterpreter::new(graph))),
                Some(Entailment::OWLDirect) => Some(RIFIData::OWLDirect(UnreadInterpreter::new(graph))),
                None => None,
            },
        }
    }

    /// Whether every term that a query may read from the source can be handed on as C
    /// strings (see [`MyInterpreter::answerable`]); answering a query keeps it.
    pub open spec fn answerable(self) -> bool {
        match self {
            RIFIData::RIF(x) => x.answerable(),
            RIFIData::RDFS(x) => x.answerable(),
            RIFIData::D(x) => x.answerable(),
            RIFIData::Simple(x) => x.answerable(),
            RIFIData::RDF(x) => x.answerable(),
            RIFIData::OWLRDFBased(x) => x.answerable(),
            RIFIData::OWLDirect(x) => x.answerable(),
            RIFIData::Formulas(_) => true,
        }
    }

    /// Whether [`RIFIData::answerable`] holds.
    pub fn is_answerable(&self) -> (r: bool)
        ensures
            r == self.answerable(),
    {
        match self {
            RIFIData::RIF(x) => x.is_answerable(),
            RIFIData::RDFS(x) => x.is_answerable(),
            RIFIData::D(x) => x.is_answerable(),
            RIFIData::Simple(x) => x.is_answerable(),
            RIFIData::RDF(x) => x.is_answerable(),
            RIFIData::OWLRDFBased(x) => x.is_answerable(),
            RIFIData::OWLDirect(x) => x.is_answerable(),
            RIFIData::Formulas(_) => true,
        }
    }

    /// The next atom that the query asks for, taken out of the source.
    pub fn get_next_atom(&mut self, op: RIFTerm, args: Option<Vec<RIFTerm>>) -> (r: Option<Atom>)
        requires
            old(self).answerable(),
        ensures
            final(self).answerable(),
            old(self).atom_step(*final(self), op@, opt_terms_view(args), r),
    {
        match self {
            RIFIData::RIF(x) => x.get_next_atom(op, args),
            RIFIData::RDFS(x) => x.get_next_atom(op, args),
            RIFIData::D(x) => x.get_next_atom(op, args),
            RIFIData::Simple(x) => x.get_next_atom(op, args),
            RIFIData::RDF(x) => x.get_next_atom(op, args),
            RIFIData::OWLRDFBased(x) => x.get_next_atom(op, args),
            RIFIData::OWLDirect(x) => x.get_next_atom(op, args),
            RIFIData::Formulas(x) => x.get_next_atom(op, args),
        }
    }

    /// The next frame that the query asks for, taken out of the source.
    pub fn get_next_frame(&mut self, object: RIFTerm, slotkey: RIFTerm, slotvalue: RIFTerm) -> (r: Option<Frame>)
        requires
            old(self).answerable(),
        ensures
            final(self).answerable(),
            old(self).frame_step(*final(self), object@, slotkey@, slotvalue@, r),
    {
        match self {
            RIFIData::RIF(x) => x.get_next_frame(object, slotkey, slotvalue),
            RIFIData::RDFS(x) => x.get_next_frame(object, slotkey, slotvalue),
            RIFIData::D(x) => x.get_next_frame(object, slotkey, slotvalue),
            RIFIData::Simple(x) => x.get_next_frame(object, slotkey, slotvalue),
            RIFIData::RDF(x) => x.get_next_frame(object, slotkey, slotvalue),
            RIFIData::OWLRDFBased(x) => x.get_next_frame(object, slotkey, slotvalue),
            RIFIData::OWLDirect(x) => x.get_next_frame(object, slotkey, slotvalue),
            RIFIData::Formulas(x) => x.get_next_frame(object, slotkey, slotvalue),
        }
    }

    /// The next subclass formula that the query asks for, taken out of the source.
    pub fn get_next_subclass(&mut self, sub: RIFTerm, super_: RIFTerm) -> (r: Option<Subclass>)
        requires
            old(self).answerable(),
        ensures
            final(self).answerable(),
            old(self).subclass_step(*final(self), sub@, super_@, r),
    {
        match self {
            RIFIData::RIF(x) => x.get_next_subclass(sub, super_),
            RIFIData::RDFS(x) => x.get_next_subclass(sub, super_),
            RIFIData::D(x) => x.get_next_subclass(sub, super_),
            RIFIData::Simple(x) => x.get_next_subclass(sub, super_),
            RIFIData::RDF(x) => x.get_next_subclass(sub, super_),
            RIFIData::OWLRDFBased(x) => x.get_next_subclass(sub, super_),
            RIFIData::OWLDirect(x) => x.get_next_subclass(sub, super_),
            RIFIData::Formulas(x) => x.get_next_subclass(sub, super_),
        }
    }

    /// The next membership formula that the query asks for, taken out of the source.
    pub fn get_next_member(&mut self, instance: RIFTerm, class: RIFTerm) -> (r: Option<Member>)
        requires
            old(self).answerable(),
        ensures
            final(self).answerable(),
            old(self).member_step(*final(self), instance@, class@, r),
    {
        match self {
            RIFIData::RIF(x) => x.get_next_member(instance, class),
            RIFIData::RDFS(x) => x.get_next_member(instance, class),
            RIFIData::D(x) => x.get_next_member(instance, class),
            RIFIData::Simple(x) => x.get_next_member(instance, class),
            RIFIData::RDF(x) => x.get_next_member(instance, class),
            RIFIData::OWLRDFBased(x) => x.get_next_member(instance, class),
            RIFIData::OWLDirect(x) => x.get_next_member(instance, class),
            RIFIData::Formulas(x) => x.get_next_member(instance, class),
        }
    }

    /// The next equality that the query asks for, taken out of the source.
    pub fn get_next_equal(&mut self, left: RIFTerm, right: RIFTerm) -> (r: Option<Equal>)
        requires
            old(self).answerable(),
        ensures
            final(self).answerable(),
            old(self).equal_step(*final(self), left@, right@, r),
    {
        match self {
            RIFIData::RIF(x) => x.get_next_equal(left, right),
            RIFIData::RDFS(x) => x.get_next_equal(left, right),
            RIFIData::D(x) => x.get_next_equal(left, right),
            RIFIData::Simple(x) => x.get_next_equal(left, right),
            RIFIData::RDF(x) => x.get_next_equal(left, right),
            RIFIData::OWLRDFBased(x) => x.get_next_equal(left, right),
            RIFIData::OWLDirect(x) => x.get_next_equal(left, right),
            RIFIData::Formulas(x) => x.get_next_equal(left, right),
        }
    }

    /// What `next` returns and does: the answer to the first of the all-`Var` queries for
    /// an atom, a frame, a subclass formula, a membership formula and an equality that
    /// has one, each earlier query having had none; `None` where none has one.
    pub open spec fn next_step(self, new: Self, r: Option<Formula>) -> bool {
        let v = RIFTermV::Var;
        match r {
            Some(Formula::Atom(a)) => self.atom_step(new, v, None, Some(a)),
            Some(Formula::Frame(f)) => exists|s1: Self| #[trigger] self.atom_step(s1, v, None, None)
                && s1.frame_step(new, v, v, v, Some(f)),
            Some(Formula::Subclass(x)) => exists|s1: Self, s2: Self|
                #![trigger self.atom_step(s1, v, None, None), s1.frame_step(s2, v, v, v, None)]
                self.atom_step(s1, v, None, None) && s1.frame_step(s2, v, v, v, None)
                    && s2.subclass_step(new, v, v, Some(x)),
            Some(Formula::Member(x)) => exists|s1: Self, s2: Self, s3: Self|
                #![trigger self.atom_step(s1, v, None, None), s1.frame_step(s2, v, v, v, None), s2.subclass_step(s3, v, v, None)]
                self.atom_step(s1, v, None, None) && s1.frame_step(s2, v, v, v, None)
                    && s2.subclass_step(s3, v, v, None) && s3.member_step(new, v, v, Some(x)),
            Some(Formula::Equal(x)) => exists|s1: Self, s2: Self, s3: Self, s4: Self|
                #![trigger self.atom_step(s1, v, None, None), s1.frame_step(s2, v, v, v, None), s2.subclass_step(s3, v, v, None), s3.member_step(s4, v, v, None)]
                self.atom_step(s1, v, None, None) && s1.frame_step(s2, v, v, v, None)
                    && s2.subclass_step(s3, v, v, None) && s3.member_step(s4, v, v, None)
                    && s4.equal_step(new, v, v, Some(x)),
            None => exists|s1: Self, s2: Self, s3: Self, s4: Self|
                #![trigger self.atom_step(s1, v, None, None), s1.frame_step(s2, v, v, v, None), s2.subclass_step(s3, v, v, None), s3.member_step(s4, v, v, None)]
                self.atom_step(s1, v, None, None) && s1.frame_step(s2, v, v, v, None)
                    && s2.subclass_step(s3, v, v, None) && s3.member_step(s4, v, v, None)
                    && s4.equal_step(new, v, v, None),
        }
    }

    /// The next formula of the source, whatever it is (see [`RIFIData::next_step`]).
    pub fn next(&mut self) -> (r: Option<Formula>)
        requires
            old(self).answerable(),
        ensures
            final(self).answerable(),
            old(self).next_step(*final(self), r),
    {
        let ghost s0 = *self;
        match self.get_next_atom(RIFTerm::Var, None) {
            Some(x) => {
                return Some(Formula::Atom(x));
            },
            None => {},
        }
        let ghost s1 = *self;
        match self.get_next_frame(RIFTerm::Var, RIFTerm::Var, RIFTerm::Var) {
            Some(x) => {
                return Some(Formula::Frame(x));
            },
            None => {},
        }
        let ghost s2 = *self;
        match self.get_next_subclass(RIFTerm::Var, RIFTerm::Var) {
            Some(x) => {
                return Some(Formula::Subclass(x));
            },
            None => {},
        }
        let ghost s3 = *self;
        match self.get_next_member(RIFTerm::Var, RIFTerm::Var) {
            Some(x) => {
                return Some(Formula::Member(x));
            },
            None => {},
        }
        let ghost s4 = *self;
        match self.get_next_equal(RIFTerm::Var, RIFTerm::Var) {
            Some(x) => {
                return Some(Formula::Equal(x));
            },
            None => {},
        }
        None
    }
}

}
