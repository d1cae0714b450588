use vstd::prelude::*;
use vstd::string::StringExecFns;
use crate::rifidata::{
    Atom, Equal, Formula, Frame, Member, RIFTerm, RIFTermV, Subclass, lemma_terms_view, opt_str_view,
    terms_view,
};
use crate::text::{dec, decimal};
use crate::vocab::{
    RDF_FIRST, RDF_NIL, RDF_REST, RDF_TYPE, RIF_ARGS, RIF_ATOM, RIF_CLASS, RIF_CONST, RIF_CONSTIRI,
    RIF_DOCUMENT, RIF_EQUAL, RIF_FRAME, RIF_GROUP, RIF_INSTANCE, RIF_ITEMS, RIF_LEFT, RIF_LIST,
    RIF_MEMBER, RIF_OBJECT, RIF_OP, RIF_PAYLOAD, RIF_RIGHT, RIF_SENTENCES, RIF_SLOTKEY, RIF_SLOTS,
    RIF_SLOTVALUE, RIF_SUB, RIF_SUBCLASS, RIF_SUPER, RIF_VALUE, RIF_VAR, RIF_VARNAME, XSD_ANY_URI,
};

verus! {

/// Kind of a node or term handed to the triple handler: an IRI.
pub const URI: u8 = 0;
/// Kind of a node or term handed to the triple handler: a blank node.
pub const BNODE: u8 = 1;
/// Kind of a term handed to the triple handler: a literal with a datatype.
pub const TYPEDLITERAL: u8 = 2;
/// Kind of a term handed to the triple handler: a literal with a language tag.
pub const LANGLITERAL: u8 = 3;

/// The message of the error that a variable without a name ends in.
pub const VAR_UNSUPPORTED: &'static str = "send var not implemented";

/// Why sending formulas as triples stopped.
#[derive(Debug)]
pub enum HookError {
    /// Some other failure, with its message.
    Error(String),
    /// The triple handler returned this value instead of 0.
    HookReturn(i8),
    /// A string held a NUL character, which a C string cannot hold.
    NulError,
    /// An inner step failed, with its code.
    InternalError(u8),
}

impl HookError {
    /// An error with the given message.
    pub fn other(value: &str) -> (r: Self)
        ensures
            r matches HookError::Error(m) && m@ == value@,
    {
        HookError::Error(value.to_owned())
    }

    /// An inner failure with the given code.
    pub fn internal(value: u8) -> (r: Self)
        ensures
            r == HookError::InternalError(value),
    {
        HookError::InternalError(value)
    }

    /// The triple handler returned `value`.
    pub fn retval(value: i8) -> (r: Self)
        ensures
            r == HookError::HookReturn(value),
    {
        HookError::HookReturn(value)
    }
}

/// What the value that the triple handler returned means: go on where it is 0, else stop
/// with that value.
pub fn hook_returned(ret: i8) -> (r: Result<(), HookError>)
    ensures
        ret == 0 ==> r is Ok,
        ret != 0 ==> r == Err::<(), HookError>(HookError::HookReturn(ret)),
{
    if ret == 0 {
        Ok(())
    } else {
        Err(HookError::retval(ret))
    }
}

/// One call of the triple handler: subject and its kind, predicate IRI, object with its
/// datatype or language tag (if any) and its kind. The graph is always the default one.
#[derive(Debug)]
pub struct HookTriple {
    pub subject: String,
    pub subject_type: u8,
    pub predicate: String,
    pub object: String,
    pub object_suffix: Option<String>,
    pub object_type: u8,
}

/// The mathematical value of a [`HookTriple`].
pub struct HookTripleV {
    pub subject: Seq<char>,
    pub subject_type: u8,
    pub predicate: Seq<char>,
    pub object: Seq<char>,
    pub object_suffix: Option<Seq<char>>,
    pub object_type: u8,
}

impl View for HookTriple {
    type V = HookTripleV;

    open spec fn view(&self) -> HookTripleV {
        HookTripleV {
            subject: self.subject@,
            subject_type: self.subject_type,
            predicate: self.predicate@,
            object: self.object@,
            object_suffix: match self.object_suffix {
                Some(s) => Some(s@),
                None => None,
            },
            object_type: self.object_type,
        }
    }
}

pub open spec fn sent_view(v: Seq<HookTriple>) -> Seq<HookTripleV> {
    v.map_values(|t: HookTriple| t@)
}

pub open spec fn ht(s: Seq<char>, st: u8, p: Seq<char>, o: Seq<char>, suf: Option<Seq<char>>, ot: u8) -> HookTripleV {
    HookTripleV { subject: s, subject_type: st, predicate: p, object: o, object_suffix: suf, object_type: ot }
}

/// The calls of the triple handler that a step makes, and whether it goes through
/// (`ok`) or ends in an error after them.
pub struct Sent {
    pub triples: Seq<HookTripleV>,
    pub ok: bool,
}

impl Sent {
    /// This step, then `next` where this one went through.
    pub open spec fn followed_by(self, next: Sent) -> Sent {
        if self.ok {
            Sent { triples: self.triples + next.triples, ok: next.ok }
        } else {
            self
        }
    }
}

/// A step that makes one call and goes through.
pub open spec fn emit(t: HookTripleV) -> Sent {
    Sent { triples: seq![t], ok: true }
}

/// A step that makes no call.
pub open spec fn nothing() -> Sent {
    Sent { triples: Seq::empty(), ok: true }
}

/// The triple that gives `id` the class `class`.
pub open spec fn type_sent(id: Seq<char>, ty: u8, class: Seq<char>) -> Sent {
    emit(ht(id, ty, RDF_TYPE@, class, None, URI))
}

/// The node that stands for the RDF list of `l` when it is sent from `id`: `rdf:nil`
/// for the empty list.
pub open spec fn list_node(id: Seq<char>, ty: u8, l: Seq<RIFTermV>) -> (Seq<char>, u8) {
    if l.len() == 0 {
        (RDF_NIL@, URI)
    } else {
        (id, ty)
    }
}

/// The node of the `k`-th cell of the RDF list sent from `id`: `id` itself, then `id`
/// followed by `_0`, `_1`, and so on.
pub open spec fn item_node(id: Seq<char>, ty: u8, k: int) -> (Seq<char>, u8) {
    if k == 0 {
        (id, ty)
    } else {
        (id + "_"@ + dec((k - 1) as nat), BNODE)
    }
}

/// How the term `t` is sent as the node `id`.
pub open spec fn term_sent(id: Seq<char>, ty: u8, t: RIFTermV) -> Sent
    decreases t, 0int,
{
    match t {
        RIFTermV::IRI(v) => type_sent(id, ty, RIF_CONST@).followed_by(
            emit(ht(id, ty, RIF_CONSTIRI@, v, Some(XSD_ANY_URI@), TYPEDLITERAL))),
        RIFTermV::TypedLiteral(v, suf) => type_sent(id, ty, RIF_CONST@).followed_by(
            emit(ht(id, ty, RIF_VALUE@, v, suf, TYPEDLITERAL))),
        RIFTermV::LangLiteral(v, l) => type_sent(id, ty, RIF_CONST@).followed_by(
            emit(ht(id, ty, RIF_VALUE@, v, Some(l), LANGLITERAL))),
        RIFTermV::List(l) => {
            let lid = id + "_list"@;
            let node = list_node(lid, BNODE, l);
            type_sent(id, ty, RIF_LIST@).followed_by(list_sent(lid, BNODE, l)).followed_by(
                emit(ht(id, ty, RIF_ITEMS@, node.0, None, node.1)))
        },
        RIFTermV::Local(_) => type_sent(id, ty, RIF_CONST@),
        RIFTermV::Var => Sent { triples: type_sent(id, ty, RIF_VAR@).triples, ok: false },
        RIFTermV::Variable(x) => type_sent(id, ty, RIF_VAR@).followed_by(
            emit(ht(id, ty, RIF_VARNAME@, x, Some(XSD_ANY_URI@), TYPEDLITERAL))),
    }
}

/// How the cell `node` of an RDF list gets its item `v`: the item is sent as the node
/// named after the cell with `_first` added, then linked.
pub open spec fn item_sent(node: (Seq<char>, u8), v: RIFTermV) -> Sent
    decreases v, 1int,
{
    let first = node.0 + "_first"@;
    term_sent(first, BNODE, v).followed_by(emit(ht(node.0, node.1, RDF_FIRST@, first, None, BNODE)))
}

/// How the first `k` cells of the RDF list of `l` sent from `id` are sent: each cell
/// gets its item, then the cell before is linked to it.
pub open spec fn items_sent(id: Seq<char>, ty: u8, l: Seq<RIFTermV>, k: int) -> Sent
    decreases l, k,
{
    if k <= 0 || k > l.len() {
        nothing()
    } else if k == 1 {
        item_sent(item_node(id, ty, 0), l[0])
    } else {
        let prev = item_node(id, ty, k - 2);
        let cur = item_node(id, ty, k - 1);
        items_sent(id, ty, l, k - 1).followed_by(item_sent(cur, l[k - 1])).followed_by(
            emit(ht(prev.0, prev.1, RDF_REST@, cur.0, None, BNODE)))
    }
}

/// How the RDF list of `l` is sent from `id`: its cells, then the last one closed with
/// `rdf:nil`; nothing for the empty list.
pub open spec fn list_sent(id: Seq<char>, ty: u8, l: Seq<RIFTermV>) -> Sent
    decreases l, l.len() + 1,
{
    if l.len() == 0 {
        nothing()
    } else {
        let last = item_node(id, ty, l.len() - 1);
        items_sent(id, ty, l, l.len() as int).followed_by(emit(ht(last.0, last.1, RDF_REST@, RDF_NIL@, None, URI)))
    }
}

/// How the term `t` is sent as the node `pid` and linked to `id` by `pred`.
pub open spec fn part_sent(id: Seq<char>, ty: u8, pred: Seq<char>, pid: Seq<char>, t: RIFTermV) -> Sent {
    term_sent(pid, BNODE, t).followed_by(emit(ht(id, ty, pred, pid, None, BNODE)))
}

/// How the atom `op(args)` is sent as the node `id`.
pub open spec fn atom_sent(id: Seq<char>, ty: u8, op: RIFTermV, args: Seq<RIFTermV>) -> Sent {
    let aid = id + "_args"@;
    type_sent(id, ty, RIF_ATOM@).followed_by(part_sent(id, BNODE, RIF_OP@, id + "_op"@, op)).followed_by(
        if args.len() == 0 {
            nothing()
        } else {
            list_sent(aid, BNODE, args).followed_by(emit(ht(id, BNODE, RIF_ARGS@, aid, None, BNODE)))
        },
    )
}

/// How the slot `key -> value` is sent as the node `sid`.
pub open spec fn slot_sent(sid: Seq<char>, sty: u8, key: RIFTermV, value: RIFTermV) -> Sent {
    part_sent(sid, sty, RIF_SLOTVALUE@, sid + "_val"@, value).followed_by(
        part_sent(sid, sty, RIF_SLOTKEY@, sid + "_key"@, key))
}

/// How the frame `object[key -> value]` is sent as the node `id`: its one slot is sent
/// as the node `id` with `_slot` added, which also stands for the list of slots.
pub open spec fn frame_sent(id: Seq<char>, ty: u8, object: RIFTermV, key: RIFTermV, value: RIFTermV) -> Sent {
    let sid = id + "_slot"@;
    type_sent(id, ty, RIF_FRAME@)
        .followed_by(part_sent(id, BNODE, RIF_OBJECT@, id + "_obj"@, object))
        .followed_by(slot_sent(sid, BNODE, key, value))
        .followed_by(emit(ht(id, ty, RIF_SLOTS@, sid, None, BNODE)))
        .followed_by(emit(ht(sid, BNODE, RDF_FIRST@, sid, None, BNODE)))
        .followed_by(emit(ht(sid, BNODE, RDF_REST@, RDF_NIL@, None, URI)))
}

/// How a formula of the class `class` with the two parts `t1` (by `p1`, as `id` with
/// `s1` added) and `t2` (by `p2`, as `id` with `s2` added) is sent as the node `id`.
pub open spec fn binary_sent(
    id: Seq<char>,
    ty: u8,
    class: Seq<char>,
    p1: Seq<char>,
    s1: Seq<char>,
    t1: RIFTermV,
    p2: Seq<char>,
    s2: Seq<char>,
    t2: RIFTermV,
) -> Sent {
    type_sent(id, ty, class).followed_by(part_sent(id, BNODE, p1, id + s1, t1)).followed_by(
        part_sent(id, BNODE, p2, id + s2, t2))
}

/// How the formula `f` is sent as the node `id`.
pub open spec fn formula_sent(f: Formula, id: Seq<char>, ty: u8) -> Sent {
    match f {
        Formula::Atom(a) => atom_sent(id, ty, a.op@, terms_view(a.args@)),
        Formula::Frame(x) => frame_sent(id, ty, x.object@, x.slotkey@, x.slotvalue@),
        Formula::Subclass(x) => binary_sent(id, ty, RIF_SUBCLASS@, RIF_SUB@, "_sub"@, x.sub@, RIF_SUPER@, "_super"@, x.super_@),
        Formula::Member(x) => binary_sent(id, ty, RIF_MEMBER@, RIF_INSTANCE@, "_inst"@, x.instance@, RIF_CLASS@, "_class"@, x.class@),
        Formula::Equal(x) => binary_sent(id, ty, RIF_EQUAL@, RIF_LEFT@, "_left"@, x.left@, RIF_RIGHT@, "_right"@, x.right@),
    }
}

/// `r` is the outcome of a step `s` that makes no node.
pub open spec fn unit_outcome(s: Sent, r: Result<(), HookError>) -> bool {
    if s.ok {
        r is Ok
    } else {
        r matches Err(HookError::Error(m)) && m@ == VAR_UNSUPPORTED@
    }
}

/// `r` is the outcome of a step `s` whose node is `node`: that node where it went
/// through, else the error that a nameless variable gives.
pub open spec fn outcome(s: Sent, node: (Seq<char>, u8), r: Result<(String, u8), HookError>) -> bool {
    if s.ok {
        r matches Ok((n, t)) && n@ == node.0 && t == node.1
    } else {
        r matches Err(HookError::Error(m)) && m@ == VAR_UNSUPPORTED@
    }
}

/// A failed step stays failed, whatever is meant to follow it.
pub proof fn lemma_then_failed(a: Sent, b: Sent)
    requires
        !a.ok,
    ensures
        a.followed_by(b) == a,
{
}

proof fn lemma_append(x: Seq<HookTripleV>, a: Sent, b: Sent)
    requires
        a.ok,
    ensures
        x + a.followed_by(b).triples == (x + a.triples) + b.triples,
{
    assert(x + (a.triples + b.triples) =~= (x + a.triples) + b.triples);
}

proof fn lemma_append_empty(x: Seq<HookTripleV>)
    ensures
        x + nothing().triples == x,
{
    assert(x + Seq::<HookTripleV>::empty() =~= x);
}

/// Records one call of the triple handler.
fn record(out: &mut Vec<HookTriple>, s: &str, st: u8, p: &str, o: &str, suf: Option<&str>, ot: u8)
    ensures
        sent_view(final(out)@) == sent_view(old(out)@).push(ht(s@, st, p@, o@,
            match suf {
                Some(x) => Some(x@),
                None => None,
            }, ot)),
{
    let t = HookTriple {
        subject: s.to_owned(),
        subject_type: st,
        predicate: p.to_owned(),
        object: o.to_owned(),
        object_suffix: match suf {
            Some(x) => Some(x.to_owned()),
            None => None,
        },
        object_type: ot,
    };
    out.push(t);
    assert(sent_view(out@) =~= sent_view(old(out)@).push(t@));
}

/// `first` followed by `second`.
fn extend_cstring(first: &str, second: &str) -> (r: String)
    ensures
        r@ == first@ + second@,
{
    let mut r = String::from_str(first);
    r.append(second);
    r
}

/// `first` followed by `_` and `i` in decimal.
fn extend_cstring_listid(first: &str, i: usize) -> (r: String)
    ensures
        r@ == first@ + "_"@ + dec(i as nat),
{
    let mut r = String::from_str(first);
    r.append("_");
    let d = decimal(i);
    r.append(d.as_str());
    r
}

/// Sends the constant IRI `value` as the node `id`.
fn send_iri(id: String, id_type: u8, value: &str, out: &mut Vec<HookTriple>) -> (r: Result<(String, u8), HookError>)
    ensures
        sent_view(final(out)@) == sent_view(old(out)@) + term_sent(id@, id_type, RIFTermV::IRI(value@)).triples,
        outcome(term_sent(id@, id_type, RIFTermV::IRI(value@)), (id@, id_type), r),
{
    record(out, id.as_str(), id_type, RDF_TYPE, RIF_CONST, None, URI);
    record(out, id.as_str(), id_type, RIF_CONSTIRI, value, Some(XSD_ANY_URI), TYPEDLITERAL);
    proof {
        let t = term_sent(id@, id_type, RIFTermV::IRI(value@));
        assert(sent_view(out@) =~= sent_view(old(out)@) + t.triples);
    }
    Ok((id, id_type))
}

/// Sends the literal `value` with the datatype `suffix` (none: a plain string) as the
/// node `id`.
fn send_typedliteral(id: String, id_type: u8, value: &str, suffix: &Option<String>, out: &mut Vec<HookTriple>) -> (r: Result<(String, u8), HookError>)
    ensures
        sent_view(final(out)@) == sent_view(old(out)@) + term_sent(id@, id_type,
            RIFTermV::TypedLiteral(value@, opt_str_view(*suffix))).triples,
        outcome(term_sent(id@, id_type, RIFTermV::TypedLiteral(value@, opt_str_view(*suffix))), (id@, id_type), r),
{
    record(out, id.as_str(), id_type, RDF_TYPE, RIF_CONST, None, URI);
    let suf: Option<&str> = match suffix {
        Some(x) => Some(x.as_str()),
        None => None,
    };
    record(out, id.as_str(), id_type, RIF_VALUE, value, suf, TYPEDLITERAL);
    proof {
        let t = term_sent(id@, id_type, RIFTermV::TypedLiteral(value@, opt_str_view(*suffix)));
        assert(sent_view(out@) =~= sent_view(old(out)@) + t.triples);
    }
    Ok((id, id_type))
}

/// Sends the literal `value` with the language tag `suffix` as the node `id`.
fn send_langliteral(id: String, id_type: u8, value: &str, suffix: &str, out: &mut Vec<HookTriple>) -> (r: Result<(String, u8), HookError>)
    ensures
        sent_view(final(out)@) == sent_view(old(out)@) + term_sent(id@, id_type, RIFTermV::LangLiteral(value@, suffix@)).triples,
        outcome(term_sent(id@, id_type, RIFTermV::LangLiteral(value@, suffix@)), (id@, id_type), r),
{
    record(out, id.as_str(), id_type, RDF_TYPE, RIF_CONST, None, URI);
    record(out, id.as_str(), id_type, RIF_VALUE, value, Some(suffix), LANGLITERAL);
    proof {
        let t = term_sent(id@, id_type, RIFTermV::LangLiteral(value@, suffix@));
        assert(sent_view(out@) =~= sent_view(old(out)@) + t.triples);
    }
    Ok((id, id_type))
}

/// Sends a local constant as the node `id`: only its class, not its name.
fn send_local(id: String, id_type: u8, value: &str, out: &mut Vec<HookTriple>) -> (r: Result<(String, u8), HookError>)
    ensures
        sent_view(final(out)@) == sent_view(old(out)@) + term_sent(id@, id_type, RIFTermV::Local(value@)).triples,
        outcome(term_sent(id@, id_type, RIFTermV::Local(value@)), (id@, id_type), r),
{
    record(out, id.as_str(), id_type, RDF_TYPE, RIF_CONST, None, URI);
    proof {
        let t = term_sent(id@, id_type, RIFTermV::Local(value@));
        assert(sent_view(out@) =~= sent_view(old(out)@) + t.triples);
    }
    Ok((id, id_type))
}

/// Sends a variable without a name as the node `id`: its class, then the error that
/// such a variable cannot be sent.
fn send_var(id: String, id_type: u8, out: &mut Vec<HookTriple>) -> (r: Result<(String, u8), HookError>)
    ensures
        sent_view(final(out)@) == sent_view(old(out)@) + term_sent(id@, id_type, RIFTermV::Var).triples,
        outcome(term_sent(id@, id_type, RIFTermV::Var), (id@, id_type), r),
{
    record(out, id.as_str(), id_type, RDF_TYPE, RIF_VAR, None, URI);
    proof {
        let t = term_sent(id@, id_type, RIFTermV::Var);
        assert(sent_view(out@) =~= sent_view(old(out)@) + t.triples);
    }
    Err(HookError::other(VAR_UNSUPPORTED))
}

/// Sends the variable named `value` as the node `id`.
fn send_variable(id: String, id_type: u8, value: &str, out: &mut Vec<HookTriple>) -> (r: Result<(String, u8), HookError>)
    ensures
        sent_view(final(out)@) == sent_view(old(out)@) + term_sent(id@, id_type, RIFTermV::Variable(value@)).triples,
        outcome(term_sent(id@, id_type, RIFTermV::Variable(value@)), (id@, id_type), r),
{
    record(out, id.as_str(), id_type, RDF_TYPE, RIF_VAR, None, URI);
    record(out, id.as_str(), id_type, RIF_VARNAME, value, Some(XSD_ANY_URI), TYPEDLITERAL);
    proof {
        let t = term_sent(id@, id_type, RIFTermV::Variable(value@));
        assert(sent_view(out@) =~= sent_view(old(out)@) + t.triples);
    }
    Ok((id, id_type))
}

/// Sends the term `term` as the node `id`.
fn send_term(id: String, id_type: u8, term: &RIFTerm, out: &mut Vec<HookTriple>) -> (r: Result<(String, u8), HookError>)
    ensures
        sent_view(final(out)@) == sent_view(old(out)@) + term_sent(id@, id_type, term@).triples,
        outcome(term_sent(id@, id_type, term@), (id@, id_type), r),
    decreases term, 0int,
{
    match term {
        RIFTerm::IRI(x) => send_iri(id, id_type, x.as_str(), out),
        RIFTerm::TypedLiteral(x, y) => send_typedliteral(id, id_type, x.as_str(), y, out),
        RIFTerm::LangLiteral(x, y) => send_langliteral(id, id_type, x.as_str(), y.as_str(), out),
        RIFTerm::List(l) => send_riftermlist(id, id_type, l, out),
        RIFTerm::Local(x) => send_local(id, id_type, x.as_str(), out),
        RIFTerm::Var => send_var(id, id_type, out),
        RIFTerm::Variable(x) => send_variable(id, id_type, x.as_str(), out),
    }
}

/// Sends the list term of the items `term` as the node `id`: its class, the RDF list
/// of its items sent from `id` with `_list` added, and the link to that list.
fn send_riftermlist(id: String, id_type: u8, term: &Vec<RIFTerm>, out: &mut Vec<HookTriple>) -> (r: Result<(String, u8), HookError>)
    ensures
        sent_view(final(out)@) == sent_view(old(out)@) + term_sent(id@, id_type, RIFTermV::List(terms_view(term@))).triples,
        outcome(term_sent(id@, id_type, RIFTermV::List(terms_view(term@))), (id@, id_type), r),
    decreases term, 3int,
{
    let ghost l = terms_view(term@);
    let ghost lid = id@ + "_list"@;
    let ghost x = sent_view(old(out)@);
    let ghost a = type_sent(id@, id_type, RIF_LIST@);
    let ghost b = list_sent(lid, BNODE, l);
    record(out, id.as_str(), id_type, RDF_TYPE, RIF_LIST, None, URI);
    assert(sent_view(out@) =~= x + a.triples);
    let list_base = extend_cstring(id.as_str(), "_list");
    match send_rdftermlist(list_base, BNODE, term, out) {
        Err(e) => {
            proof {
                lemma_append(x, a, b);
                lemma_then_failed(a.followed_by(b), emit(ht(id@, id_type, RIF_ITEMS@, list_node(lid, BNODE, l).0, None,
                    list_node(lid, BNODE, l).1)));
            }
            return Err(e);
        },
        Ok((n, t)) => {
            proof {
                lemma_append(x, a, b);
            }
            record(out, id.as_str(), id_type, RIF_ITEMS, n.as_str(), None, t);
            proof {
                let c = emit(ht(id@, id_type, RIF_ITEMS@, n@, None, t));
                lemma_append(x, a.followed_by(b), c);
            }
        },
    }
    Ok((id, id_type))
}

/// Sends `value` as the item of the list cell `id`.
fn send_rdftermlist_item(id: &String, id_type: u8, value: &RIFTerm, out: &mut Vec<HookTriple>) -> (r: Result<(), HookError>)
    ensures
        sent_view(final(out)@) == sent_view(old(out)@) + item_sent((id@, id_type), value@).triples,
        item_sent((id@, id_type), value@).ok ==> r is Ok,
        !item_sent((id@, id_type), value@).ok ==> (r matches Err(HookError::Error(m)) && m@ == VAR_UNSUPPORTED@),
    decreases value, 1int,
{
    let ghost x = sent_view(old(out)@);
    let tnode_in = extend_cstring(id.as_str(), "_first");
    let ghost a = term_sent(tnode_in@, BNODE, value@);
    let (tnode, ttype) = match send_term(tnode_in, BNODE, value, out) {
        Ok((x, y)) => (x, y),
        Err(e) => {
            return Err(e);
        },
    };
    record(out, id.as_str(), id_type, RDF_FIRST, tnode.as_str(), None, ttype);
    proof {
        lemma_append(x, a, emit(ht(id@, id_type, RDF_FIRST@, tnode@, None, ttype)));
    }
    Ok(())
}

/// Once the first `k` cells failed, the ones after change nothing.
proof fn lemma_items_stay_failed(id: Seq<char>, ty: u8, l: Seq<RIFTermV>, k: int, j: int)
    requires
        1 <= k <= j <= l.len(),
        !items_sent(id, ty, l, k).ok,
    ensures
        items_sent(id, ty, l, j) == items_sent(id, ty, l, k),
    decreases j - k,
{
    if j > k {
        lemma_items_stay_failed(id, ty, l, k, j - 1);
    }
}

/// Sends the RDF list of `list` from the node `id`; its node is `id`, or `rdf:nil` for
/// the empty list.
fn send_rdftermlist(id: String, id_type: u8, list: &Vec<RIFTerm>, out: &mut Vec<HookTriple>) -> (r: Result<(String, u8), HookError>)
    ensures
        sent_view(final(out)@) == sent_view(old(out)@) + list_sent(id@, id_type, terms_view(list@)).triples,
        outcome(list_sent(id@, id_type, terms_view(list@)), list_node(id@, id_type, terms_view(list@)), r),
    decreases list, 2int,
{
    let ghost l = terms_view(list@);
    let ghost x = sent_view(old(out)@);
    proof {
        lemma_terms_view(list@);
    }
    if list.len() == 0 {
        proof {
            lemma_append_empty(x);
        }
        return Ok((RDF_NIL.to_owned(), URI));
    }
    match send_rdftermlist_item(&id, id_type, &list[0], out) {
        Ok(()) => {},
        Err(e) => {
            proof {
                lemma_items_stay_failed(id@, id_type, l, 1, l.len() as int);
            }
            return Err(e);
        },
    }
    let mut last = id.clone();
    let mut last_type = id_type;
    let mut i: usize = 1;
    while i < list.len()
        invariant
            1 <= i <= list.len(),
            l == terms_view(list@),
            l.len() == list.len(),
            forall|k: int| 0 <= k < list.len() ==> #[trigger] l[k] == list@[k]@,
            x == sent_view(old(out)@),
            sent_view(out@) == x + items_sent(id@, id_type, l, i as int).triples,
            items_sent(id@, id_type, l, i as int).ok,
            (last@, last_type) == item_node(id@, id_type, i - 1),
        decreases list.len() - i,
    {
        let current = extend_cstring_listid(id.as_str(), i - 1);
        match send_rdftermlist_item(&current, BNODE, &list[i], out) {
            Ok(()) => {},
            Err(e) => {
                proof {
                    let a = items_sent(id@, id_type, l, i as int);
                    let b = item_sent(item_node(id@, id_type, i as int), l[i as int]);
                    let prev_node = item_node(id@, id_type, i - 1);
                    let cur_node = item_node(id@, id_type, i as int);
                    lemma_append(x, a, b);
                    lemma_then_failed(a.followed_by(b), emit(ht(prev_node.0, prev_node.1, RDF_REST@, cur_node.0, None, BNODE)));
                    assert(items_sent(id@, id_type, l, i + 1) == a.followed_by(b));
                    lemma_items_stay_failed(id@, id_type, l, i + 1, l.len() as int);
                    let last_node = item_node(id@, id_type, l.len() - 1);
                    lemma_then_failed(items_sent(id@, id_type, l, l.len() as int),
                        emit(ht(last_node.0, last_node.1, RDF_REST@, RDF_NIL@, None, URI)));
                    assert(list_sent(id@, id_type, l) == items_sent(id@, id_type, l, l.len() as int));
                }
                return Err(e);
            },
        }
        record(out, last.as_str(), last_type, RDF_REST, current.as_str(), None, BNODE);
        proof {
            let a = items_sent(id@, id_type, l, i as int);
            let b = item_sent(item_node(id@, id_type, i as int), l[i as int]);
            let c = emit(ht(last@, last_type, RDF_REST@, current@, None, BNODE));
            lemma_append(x, a, b);
            lemma_append(x, a.followed_by(b), c);
        }
        last = current;
        last_type = BNODE;
        i = i + 1;
    }
    record(out, last.as_str(), last_type, RDF_REST, RDF_NIL, None, URI);
    proof {
        let a = items_sent(id@, id_type, l, l.len() as int);
        lemma_append(x, a, emit(ht(last@, last_type, RDF_REST@, RDF_NIL@, None, URI)));
    }
    Ok((id, id_type))
}

/// Sends `t` as the node `id` with `suffix` added, and links it to `id` by `pred`.
fn send_part(id: &str, id_type: u8, pred: &str, suffix: &str, t: &RIFTerm, out: &mut Vec<HookTriple>) -> (r: Result<(), HookError>)
    ensures
        sent_view(final(out)@) == sent_view(old(out)@) + part_sent(id@, id_type, pred@, id@ + suffix@, t@).triples,
        unit_outcome(part_sent(id@, id_type, pred@, id@ + suffix@, t@), r),
{
    let ghost x = sent_view(old(out)@);
    let base = extend_cstring(id, suffix);
    let ghost a = term_sent(base@, BNODE, t@);
    match send_term(base, BNODE, t, out) {
        Err(e) => Err(e),
        Ok((node, node_type)) => {
            record(out, id, id_type, pred, node.as_str(), None, node_type);
            proof {
                lemma_append(x, a, emit(ht(id@, id_type, pred@, node@, None, node_type)));
            }
            Ok(())
        },
    }
}

/// Sends the atom `atom` as the node `id`.
fn send_atom(atom: &Atom, id: String, id_type: u8, out: &mut Vec<HookTriple>) -> (r: Result<(String, u8), HookError>)
    ensures
        sent_view(final(out)@) == sent_view(old(out)@) + atom_sent(id@, id_type, atom.op@, terms_view(atom.args@)).triples,
        outcome(atom_sent(id@, id_type, atom.op@, terms_view(atom.args@)), (id@, id_type), r),
{
    let ghost x = sent_view(old(out)@);
    let ghost args = terms_view(atom.args@);
    let ghost a = type_sent(id@, id_type, RIF_ATOM@);
    let ghost b = part_sent(id@, BNODE, RIF_OP@, id@ + "_op"@, atom.op@);
    record(out, id.as_str(), id_type, RDF_TYPE, RIF_ATOM, None, URI);
    match send_part(id.as_str(), BNODE, RIF_OP, "_op", &atom.op, out) {
        Err(e) => {
            proof {
                lemma_append(x, a, b);
            }
            return Err(e);
        },
        Ok(()) => {},
    }
    proof {
        lemma_append(x, a, b);
        lemma_terms_view(atom.args@);
    }
    if atom.args.len() == 0 {
        proof {
            lemma_append(x, a.followed_by(b), nothing());
            lemma_append_empty(x + a.followed_by(b).triples);
        }
        return Ok((id, id_type));
    }
    let ghost aid = id@ + "_args"@;
    let ghost c = list_sent(aid, BNODE, args);
    let args_base = extend_cstring(id.as_str(), "_args");
    match send_rdftermlist(args_base, BNODE, &atom.args, out) {
        Err(e) => {
            proof {
                lemma_append(x, a.followed_by(b), c);
            }
            return Err(e);
        },
        Ok((n, t)) => {
            record(out, id.as_str(), BNODE, RIF_ARGS, n.as_str(), None, t);
            proof {
                let d = emit(ht(id@, BNODE, RIF_ARGS@, aid, None, BNODE));
                lemma_append(x + a.followed_by(b).triples, c, d);
                lemma_append(x, a.followed_by(b), c.followed_by(d));
            }
        },
    }
    Ok((id, id_type))
}

/// Sends the slot `key -> val` as the node `id`.
fn send_slot(key: &RIFTerm, val: &RIFTerm, id: String, id_type: u8, out: &mut Vec<HookTriple>) -> (r: Result<(String, u8), HookError>)
    ensures
        sent_view(final(out)@) == sent_view(old(out)@) + slot_sent(id@, id_type, key@, val@).triples,
        outcome(slot_sent(id@, id_type, key@, val@), (id@, id_type), r),
{
    let ghost x = sent_view(old(out)@);
    let ghost a = part_sent(id@, id_type, RIF_SLOTVALUE@, id@ + "_val"@, val@);
    let ghost b = part_sent(id@, id_type, RIF_SLOTKEY@, id@ + "_key"@, key@);
    match send_part(id.as_str(), id_type, RIF_SLOTVALUE, "_val", val, out) {
        Err(e) => {
            return Err(e);
        },
        Ok(()) => {},
    }
    match send_part(id.as_str(), id_type, RIF_SLOTKEY, "_key", key, out) {
        Err(e) => {
            proof {
                lemma_append(x, a, b);
            }
            return Err(e);
        },
        Ok(()) => {},
    }
    proof {
        lemma_append(x, a, b);
    }
    Ok((id, id_type))
}

/// Sends the frame `frame` as the node `id`.
fn send_frame(frame: &Frame, id: String, id_type: u8, out: &mut Vec<HookTriple>) -> (r: Result<(String, u8), HookError>)
    ensures
        sent_view(final(out)@) == sent_view(old(out)@) + frame_sent(id@, id_type, frame.object@, frame.slotkey@, frame.slotvalue@).triples,
        outcome(frame_sent(id@, id_type, frame.object@, frame.slotkey@, frame.slotvalue@), (id@, id_type), r),
{
    let ghost x = sent_view(old(out)@);
    let ghost a = type_sent(id@, id_type, RIF_FRAME@);
    let ghost b = part_sent(id@, BNODE, RIF_OBJECT@, id@ + "_obj"@, frame.object@);
    record(out, id.as_str(), id_type, RDF_TYPE, RIF_FRAME, None, URI);
    match send_part(id.as_str(), BNODE, RIF_OBJECT, "_obj", &frame.object, out) {
        Err(e) => {
            proof {
                lemma_append(x, a, b);
            }
            return Err(e);
        },
        Ok(()) => {},
    }
    proof {
        lemma_append(x, a, b);
    }
    let slot_base = extend_cstring(id.as_str(), "_slot");
    let ghost sid = slot_base@;
    let ghost c = slot_sent(sid, BNODE, frame.slotkey@, frame.slotvalue@);
    let (slot, slottype) = match send_slot(&frame.slotkey, &frame.slotvalue, slot_base, BNODE, out) {
        Ok(x) => x,
        Err(e) => {
            proof {
                lemma_append(x, a.followed_by(b), c);
            }
            return Err(e);
        },
    };
    proof {
        lemma_append(x, a.followed_by(b), c);
    }
    let slots = extend_cstring(id.as_str(), "_slot");
    let slots_type = BNODE;
    record(out, id.as_str(), id_type, RIF_SLOTS, slots.as_str(), None, slots_type);
    record(out, slot.as_str(), slots_type, RDF_FIRST, slot.as_str(), None, slottype);
    record(out, slot.as_str(), slots_type, RDF_REST, RDF_NIL, None, URI);
    proof {
        let abc = a.followed_by(b).followed_by(c);
        let d = emit(ht(id@, id_type, RIF_SLOTS@, sid, None, BNODE));
        let e = emit(ht(sid, BNODE, RDF_FIRST@, sid, None, BNODE));
        let f = emit(ht(sid, BNODE, RDF_REST@, RDF_NIL@, None, URI));
        lemma_append(x, abc, d);
        lemma_append(x, abc.followed_by(d), e);
        lemma_append(x, abc.followed_by(d).followed_by(e), f);
    }
    Ok((id, id_type))
}

/// Sends a formula of the class `class` with the parts `t1` and `t2` as the node `id`
/// (see [`binary_sent`]).
fn send_binary(
    id: String,
    id_type: u8,
    class: &str,
    p1: &str,
    s1: &str,
    t1: &RIFTerm,
    p2: &str,
    s2: &str,
    t2: &RIFTerm,
    out: &mut Vec<HookTriple>,
) -> (r: Result<(String, u8), HookError>)
    ensures
        sent_view(final(out)@) == sent_view(old(out)@) + binary_sent(id@, id_type, class@, p1@, s1@, t1@, p2@, s2@, t2@).triples,
        outcome(binary_sent(id@, id_type, class@, p1@, s1@, t1@, p2@, s2@, t2@), (id@, id_type), r),
{
    let ghost x = sent_view(old(out)@);
    let ghost a = type_sent(id@, id_type, class@);
    let ghost b = part_sent(id@, BNODE, p1@, id@ + s1@, t1@);
    let ghost c = part_sent(id@, BNODE, p2@, id@ + s2@, t2@);
    record(out, id.as_str(), id_type, RDF_TYPE, class, None, URI);
    match send_part(id.as_str(), BNODE, p1, s1, t1, out) {
        Err(e) => {
            proof {
                lemma_append(x, a, b);
            }
            return Err(e);
        },
        Ok(()) => {},
    }
    proof {
        lemma_append(x, a, b);
    }
    match send_part(id.as_str(), BNODE, p2, s2, t2, out) {
        Err(e) => {
            proof {
                lemma_append(x, a.followed_by(b), c);
            }
            return Err(e);
        },
        Ok(()) => {},
    }
    proof {
        lemma_append(x, a.followed_by(b), c);
    }
    Ok((id, id_type))
}

/// Sends the subclass formula `subclass` as the node `id`.
fn send_subclass(subclass: &Subclass, id: String, id_type: u8, out: &mut Vec<HookTriple>) -> (r: Result<(String, u8), HookError>)
    ensures
        sent_view(final(out)@) == sent_view(old(out)@) + formula_sent(Formula::Subclass(*subclass), id@, id_type).triples,
        outcome(formula_sent(Formula::Subclass(*subclass), id@, id_type), (id@, id_type), r),
{
    send_binary(id, id_type, RIF_SUBCLASS, RIF_SUB, "_sub", &subclass.sub, RIF_SUPER, "_super", &subclass.super_, out)
}

/// Sends the membership formula `member` as the node `id`.
fn send_member(member: &Member, id: String, id_type: u8, out: &mut Vec<HookTriple>) -> (r: Result<(String, u8), HookError>)
    ensures
        sent_view(final(out)@) == sent_view(old(out)@) + formula_sent(Formula::Member(*member), id@, id_type).triples,
        outcome(formula_sent(Formula::Member(*member), id@, id_type), (id@, id_type), r),
{
    send_binary(id, id_type, RIF_MEMBER, RIF_INSTANCE, "_inst", &member.instance, RIF_CLASS, "_class", &member.class, out)
}

/// Sends the equality `equal` as the node `id`.
fn send_equal(equal: &Equal, id: String, id_type: u8, out: &mut Vec<HookTriple>) -> (r: Result<(String, u8), HookError>)
    ensures
        sent_view(final(out)@) == sent_view(old(out)@) + formula_sent(Formula::Equal(*equal), id@, id_type).triples,
        outcome(formula_sent(Formula::Equal(*equal), id@, id_type), (id@, id_type), r),
{
    send_binary(id, id_type, RIF_EQUAL, RIF_LEFT, "_left", &equal.left, RIF_RIGHT, "_right", &equal.right, out)
}

impl Formula {
    /// Sends this formula as RDF triples with the node `id`, appending the calls of the
    /// triple handler to `out` (see [`formula_sent`]): the node on success, else the
    /// error that ended it.
    pub fn send_rdf(&self, id: String, id_type: u8, out: &mut Vec<HookTriple>) -> (r: Result<(String, u8), HookError>)
        ensures
            sent_view(final(out)@) == sent_view(old(out)@) + formula_sent(*self, id@, id_type).triples,
            outcome(formula_sent(*self, id@, id_type), (id@, id_type), r),
    {
        match self {
            Formula::Atom(a) => send_atom(a, id, id_type, out),
            Formula::Frame(f) => send_frame(f, id, id_type, out),
            Formula::Subclass(s) => send_subclass(s, id, id_type, out),
            Formula::Member(m) => send_member(m, id, id_type, out),
            Formula::Equal(e) => send_equal(e, id, id_type, out),
        }
    }
}

/// The name of the `k`-th blank node that a [`MyContext`] hands out.
pub open spec fn bn(k: nat) -> Seq<char> {
    "bnode_"@ + dec(k)
}

/// The node of the `k`-th cell of an RDF list of nodes sent from `id` by a context
/// whose counter stood at `c`: `id`, then the blank nodes from `c` on.
pub open spec fn rdflist_node(id: Seq<char>, ty: u8, c: nat, k: int) -> (Seq<char>, u8) {
    if k == 0 {
        (id, ty)
    } else {
        (bn((c + k - 1) as nat), BNODE)
    }
}

/// The calls that send the first `k` cells of the RDF list of the nodes `s` from `id`:
/// each cell gets its item, and each cell after the first is linked from the one before.
pub open spec fn rdflist_prefix(id: Seq<char>, ty: u8, s: Seq<(Seq<char>, u8)>, c: nat, k: int) -> Seq<HookTripleV>
    decreases k,
{
    if k <= 0 || k > s.len() {
        Seq::empty()
    } else if k == 1 {
        seq![ht(id, ty, RDF_FIRST@, s[0].0, None, s[0].1)]
    } else {
        let prev = rdflist_node(id, ty, c, k - 2);
        let cur = rdflist_node(id, ty, c, k - 1);
        rdflist_prefix(id, ty, s, c, k - 1) + seq![
            ht(cur.0, cur.1, RDF_FIRST@, s[k - 1].0, None, s[k - 1].1),
            ht(prev.0, prev.1, RDF_REST@, cur.0, None, BNODE),
        ]
    }
}

/// The calls that send the RDF list of the nodes `s` from `id`, the last cell closed
/// with `rdf:nil`; none for the empty list.
pub open spec fn rdflist_sent(id: Seq<char>, ty: u8, s: Seq<(Seq<char>, u8)>, c: nat) -> Seq<HookTripleV> {
    if s.len() == 0 {
        Seq::empty()
    } else {
        let last = rdflist_node(id, ty, c, s.len() - 1);
        rdflist_prefix(id, ty, s, c, s.len() as int) + seq![ht(last.0, last.1, RDF_REST@, RDF_NIL@, None, URI)]
    }
}

/// How many blank nodes the RDF list of `n` nodes takes from the counter.
pub open spec fn rdflist_bnodes(n: nat) -> nat {
    if n == 0 {
        0
    } else {
        (n - 1) as nat
    }
}

/// The calls that send the group of the sentences `s` (given by their nodes) and the
/// document around it: the group is the first blank node of a new context, the list of
/// sentences starts at the second, and the document takes the next one after the list.
pub open spec fn document_sent(s: Seq<(Seq<char>, u8)>) -> Seq<HookTripleV> {
    let g = bn(0);
    let head = bn(1);
    let lnode = if s.len() == 0 {
        (RDF_NIL@, URI)
    } else {
        (head, BNODE)
    };
    let d = bn(2 + rdflist_bnodes(s.len()));
    seq![ht(g, BNODE, RDF_TYPE@, RIF_GROUP@, None, URI)] + rdflist_sent(head, BNODE, s, 2)
        + seq![
        ht(g, BNODE, RIF_SENTENCES@, lnode.0, None, lnode.1),
        ht(d, BNODE, RDF_TYPE@, RIF_DOCUMENT@, None, URI),
        ht(d, BNODE, RIF_PAYLOAD@, g, None, BNODE),
    ]
}

pub open spec fn nodes_view(s: Seq<(String, u8)>) -> Seq<(Seq<char>, u8)> {
    s.map_values(|x: (String, u8)| (x.0@, x.1))
}

/// The node of the `i`-th formula sent: `b` followed by `i` in decimal.
pub fn formula_node_id(i: usize) -> (r: String)
    ensures
        r@ == "b"@ + dec(i as nat),
{
    let mut r = String::from_str("b");
    let d = decimal(i);
    r.append(d.as_str());
    r
}

/// What sends a group of sentences and its document: a counter of the blank nodes handed
/// out, and the calls of the triple handler made so far.
pub struct MyContext {
    atomic: usize,
    sent: Vec<HookTriple>,
}

impl MyContext {
    /// How many blank nodes were handed out.
    pub closed spec fn counter(&self) -> nat {
        self.atomic as nat
    }

    /// The calls made so far.
    pub closed spec fn calls(&self) -> Seq<HookTripleV> {
        sent_view(self.sent@)
    }

    /// A context that has handed out no blank node and made no call.
    pub fn new() -> (r: Self)
        ensures
            r.counter() == 0,
            r.calls() == Seq::<HookTripleV>::empty(),
    {
        let r = MyContext { atomic: 0, sent: Vec::new() };
        assert(r.calls() =~= Seq::<HookTripleV>::empty());
        r
    }

    /// The calls made, in order.
    pub fn into_calls(self) -> (r: Vec<HookTriple>)
        ensures
            sent_view(r@) == self.calls(),
    {
        self.sent
    }

    /// A new blank node, named after the counter, which moves on.
    pub fn new_bnode(&mut self) -> (r: String)
        requires
            old(self).counter() < usize::MAX,
        ensures
            r@ == bn(old(self).counter()),
            final(self).counter() == old(self).counter() + 1,
            final(self).calls() == old(self).calls(),
    {
        let mut r = String::from_str("bnode_");
        let d = decimal(self.atomic);
        r.append(d.as_str());
        self.atomic = self.atomic + 1;
        r
    }

    /// Makes one call of the triple handler.
    fn send(&mut self, subj: &str, subj_type: u8, pred: &str, obj: &str, obj_suffix: Option<&str>, obj_type: u8)
        ensures
            final(self).calls() == old(self).calls().push(ht(subj@, subj_type, pred@, obj@,
                match obj_suffix {
                    Some(x) => Some(x@),
                    None => None,
                }, obj_type)),
            final(self).counter() == old(self).counter(),
    {
        record(&mut self.sent, subj, subj_type, pred, obj, obj_suffix, obj_type);
    }

    /// Sends the RDF list of the nodes `list` from `id`, each cell after the first a new
    /// blank node; its node is `id`, or `rdf:nil` for the empty list.
    fn send_rdflist(&mut self, id: String, id_type: u8, list: &Vec<(String, u8)>) -> (r: (String, u8))
        requires
            old(self).counter() + list.len() < usize::MAX,
        ensures
            final(self).calls() == old(self).calls() + rdflist_sent(id@, id_type, nodes_view(list@), old(self).counter()),
            final(self).counter() == old(self).counter() + rdflist_bnodes(list.len() as nat),
            r.0@ == (if list.len() == 0 { RDF_NIL@ } else { id@ }),
            r.1 == (if list.len() == 0 { URI } else { id_type }),
    {
        let ghost s = nodes_view(list@);
        let ghost c = self.counter();
        let ghost x = self.calls();
        if list.len() == 0 {
            assert(x + rdflist_sent(id@, id_type, s, c) =~= x);
            return (RDF_NIL.to_owned(), URI);
        }
        self.send(id.as_str(), id_type, RDF_FIRST, list[0].0.as_str(), None, list[0].1);
        assert(self.calls() =~= x + rdflist_prefix(id@, id_type, s, c, 1));
        let mut last = id.clone();
        let mut last_type = id_type;
        let mut i: usize = 1;
        while i < list.len()
            invariant
                1 <= i <= list.len(),
                s == nodes_view(list@),
                c + list.len() < usize::MAX,
                self.counter() == c + i - 1,
                self.calls() == x + rdflist_prefix(id@, id_type, s, c, i as int),
                (last@, last_type) == rdflist_node(id@, id_type, c, i - 1),
            decreases list.len() - i,
        {
            let current = self.new_bnode();
            self.send(current.as_str(), BNODE, RDF_FIRST, list[i].0.as_str(), None, list[i].1);
            self.send(last.as_str(), last_type, RDF_REST, current.as_str(), None, BNODE);
            proof {
                let k = (i + 1) as int;
                assert(s[k - 1] == (list@[k - 1].0@, list@[k - 1].1));
                assert(self.calls() =~= x + rdflist_prefix(id@, id_type, s, c, k));
            }
            last = current;
            last_type = BNODE;
            i = i + 1;
        }
        self.send(last.as_str(), last_type, RDF_REST, RDF_NIL, None, URI);
        assert(self.calls() =~= x + rdflist_sent(id@, id_type, s, c));
        (id, id_type)
    }

    /// Sends the group of the sentences `sentences` (given by their nodes) as the node
    /// `id`, its list of sentences starting at a new blank node.
    pub fn send_rifgroup(&mut self, id: String, id_type: u8, sentences: &Vec<(String, u8)>) -> (r: (String, u8))
        requires
            old(self).counter() + sentences.len() + 1 < usize::MAX,
        ensures
            final(self).calls() == old(self).calls() + seq![ht(id@, id_type, RDF_TYPE@, RIF_GROUP@, None, URI)]
                + rdflist_sent(bn(old(self).counter()), BNODE, nodes_view(sentences@), old(self).counter() + 1)
                + seq![ht(id@, id_type, RIF_SENTENCES@,
                    if sentences.len() == 0 { RDF_NIL@ } else { bn(old(self).counter()) }, None,
                    if sentences.len() == 0 { URI } else { BNODE })],
            final(self).counter() == old(self).counter() + 1 + rdflist_bnodes(sentences.len() as nat),
            r.0@ == id@,
            r.1 == id_type,
    {
        let ghost x = self.calls();
        let ghost c = self.counter();
        self.send(id.as_str(), id_type, RDF_TYPE, RIF_GROUP, None, URI);
        let tmpid = self.new_bnode();
        let (listid, listtype) = self.send_rdflist(tmpid, BNODE, sentences);
        self.send(id.as_str(), id_type, RIF_SENTENCES, listid.as_str(), None, listtype);
        proof {
            let a = seq![ht(id@, id_type, RDF_TYPE@, RIF_GROUP@, None, URI)];
            let b = rdflist_sent(bn(c), BNODE, nodes_view(sentences@), c + 1);
            let d = seq![ht(id@, id_type, RIF_SENTENCES@, listid@, None, listtype)];
            assert(self.calls() =~= x + a + b + d);
        }
        (id, id_type)
    }

    /// Sends the document whose payload is the node `payload_id` as the node `id`.
    pub fn send_rifdocument(&mut self, id: String, id_type: u8, payload_id: String, payload_type: u8) -> (r: (String, u8))
        ensures
            final(self).calls() == old(self).calls() + seq![
                ht(id@, id_type, RDF_TYPE@, RIF_DOCUMENT@, None, URI),
                ht(id@, id_type, RIF_PAYLOAD@, payload_id@, None, payload_type),
            ],
            final(self).counter() == old(self).counter(),
            r.0@ == id@,
            r.1 == id_type,
    {
        let ghost x = self.calls();
        self.send(id.as_str(), id_type, RDF_TYPE, RIF_DOCUMENT, None, URI);
        self.send(id.as_str(), id_type, RIF_PAYLOAD, payload_id.as_str(), None, payload_type);
        assert(self.calls() =~= x + seq![
            ht(id@, id_type, RDF_TYPE@, RIF_DOCUMENT@, None, URI),
            ht(id@, id_type, RIF_PAYLOAD@, payload_id@, None, payload_type),
        ]);
        (id, id_type)
    }
}

/// The calls that send the group of the sentences `sentences` (the nodes that the
/// formulas were sent as) and the document around it (see [`document_sent`]).
pub fn document_triples(sentences: &Vec<(String, u8)>) -> (r: Vec<HookTriple>)
    requires
        sentences.len() + 3 < usize::MAX,
    ensures
        sent_view(r@) == document_sent(nodes_view(sentences@)),
{
    let mut cntxt = MyContext::new();
    let bid = cntxt.new_bnode();
    let (sentences_id, sent_type) = cntxt.send_rifgroup(bid, BNODE, sentences);
    let did = cntxt.new_bnode();
    cntxt.send_rifdocument(did, BNODE, sentences_id, sent_type);
    let r = cntxt.into_calls();
    proof {
        let s = nodes_view(sentences@);
        assert(sent_view(r@) =~= document_sent(s));
    }
    r
}

} // verus!
