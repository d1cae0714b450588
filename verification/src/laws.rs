use vstd::prelude::*;
use crate::formula_call_rdf_hook::{
    bn, formula_sent, item_node, item_sent, items_sent, list_sent, term_sent, BNODE,
};
use crate::genterms::bnode_lookup;
use crate::interpreter::{RIFInterpreter, triple_step};
use crate::rdf::{RdfTermV, RdfTripleV};
use crate::rdfhelper::unambiguous;
use crate::interpreter::rif::{frame_object, frame_slots, frame_some_read, has_class, pair_answer};
use crate::vocab::{RIF_FRAME, RIF_SLOTKEY, RIF_SLOTVALUE};
use crate::rififormulas::{
    RIFIFormulas, atom_matches, equal_matches, frame_matches, member_matches, subclass_matches,
    took_first,
};
use crate::rifidata::{
    Atom, Equal, Formula, Frame, Member, RIFTermV, Subclass, lemma_lists_valid_for, terms_view,
    valid_for,
};
use crate::text::{dec, digit_char};

verus! {

/// Whether the term `t` holds no named variable, at any depth of its lists.
pub open spec fn free_of_variables(t: RIFTermV) -> bool
    decreases t,
{
    match t {
        RIFTermV::Variable(_) => false,
        RIFTermV::List(l) => forall|i: int| 0 <= i < l.len() ==> free_of_variables(#[trigger] l[i]),
        _ => true,
    }
}

/// Whether the term `t` holds no `Var`, at any depth of its lists.
pub open spec fn free_of_var(t: RIFTermV) -> bool
    decreases t,
{
    match t {
        RIFTermV::Var => false,
        RIFTermV::List(l) => forall|i: int| 0 <= i < l.len() ==> free_of_var(#[trigger] l[i]),
        _ => true,
    }
}

/// A `Var` in a query stands for any term.
pub proof fn law_var_accepts_any(t: RIFTermV)
    ensures
        valid_for(RIFTermV::Var, t),
{
}

/// A term that holds no named variable is "equal or valid for" itself.
pub proof fn law_valid_for_itself(t: RIFTermV)
    requires
        free_of_variables(t),
    ensures
        valid_for(t, t),
    decreases t,
{
    if let RIFTermV::List(l) = t {
        assert forall|i: int| 0 <= i < l.len() implies #[trigger] valid_for(l[i], l[i]) by {
            law_valid_for_itself(l[i]);
        }
        lemma_lists_valid_for(l, l);
    }
}

/// A named variable in a query matches nothing, not even itself.
pub proof fn law_variable_matches_nothing(name: Seq<char>, t: RIFTermV)
    ensures
        !valid_for(RIFTermV::Variable(name), t),
{
}

/// Asking a store of formulas for the equality `left = right` and for `right = left`
/// comes to the same: the same equality is taken out.
pub proof fn law_equal_query_symmetric(
    s: RIFIFormulas,
    new: RIFIFormulas,
    left: RIFTermV,
    right: RIFTermV,
    r: Option<Equal>,
)
    ensures
        s.equal_step(new, left, right, r) == s.equal_step(new, right, left, r),
{
    let m1 = |e: Equal| equal_matches(left, right, e);
    let m2 = |e: Equal| equal_matches(right, left, e);
    assert(m1 =~= m2);
}

proof fn lemma_took_first_any<T>(old: Seq<T>, new: Seq<T>, r: Option<T>, m: spec_fn(T) -> bool)
    requires
        took_first(old, new, r, m),
        forall|x: T| #[trigger] m(x),
    ensures
        old.len() == 0 ==> r is None && new == old,
        old.len() > 0 ==> r == Some(old[0]) && new == old.subrange(1, old.len() as int),
{
    if let Some(x) = r {
        let i = choose|i: int| #[trigger] crate::rififormulas::first_match_at(old, i, m) && x == old[i] && new == old.remove(i);
        if i > 0 {
            assert(!m(old[0]));
        }
        assert(old.remove(0) =~= old.subrange(1, old.len() as int));
    } else {
        if old.len() > 0 {
            assert(!m(old[0]));
        }
    }
}

/// A query of `Var` only, with any arguments, takes out the atom added first, and none
/// where the store holds no atom.
pub proof fn law_any_atom_is_oldest(s: RIFIFormulas, new: RIFIFormulas, r: Option<Atom>)
    requires
        s.atom_step(new, RIFTermV::Var, None, r),
    ensures
        s.atoms().len() == 0 ==> r is None && new.atoms() == s.atoms(),
        s.atoms().len() > 0 ==> r == Some(s.atoms()[0]) && new.atoms() == s.atoms().subrange(1, s.atoms().len() as int),
{
    lemma_took_first_any(s.atoms(), new.atoms(), r, |a: Atom| atom_matches(RIFTermV::Var, None, a));
}

/// A query of `Var` only takes out the frame added first, and none where the store holds
/// no frame.
pub proof fn law_any_frame_is_oldest(s: RIFIFormulas, new: RIFIFormulas, r: Option<Frame>)
    requires
        s.frame_step(new, RIFTermV::Var, RIFTermV::Var, RIFTermV::Var, r),
    ensures
        s.frames().len() == 0 ==> r is None && new.frames() == s.frames(),
        s.frames().len() > 0 ==> r == Some(s.frames()[0]) && new.frames() == s.frames().subrange(1, s.frames().len() as int),
{
    lemma_took_first_any(s.frames(), new.frames(), r,
        |f: Frame| frame_matches(RIFTermV::Var, RIFTermV::Var, RIFTermV::Var, f));
}

/// A query of `Var` only takes out the subclass formula added first, and none where the
/// store holds none.
pub proof fn law_any_subclass_is_oldest(s: RIFIFormulas, new: RIFIFormulas, r: Option<Subclass>)
    requires
        s.subclass_step(new, RIFTermV::Var, RIFTermV::Var, r),
    ensures
        s.subclasses().len() == 0 ==> r is None && new.subclasses() == s.subclasses(),
        s.subclasses().len() > 0 ==> r == Some(s.subclasses()[0])
            && new.subclasses() == s.subclasses().subrange(1, s.subclasses().len() as int),
{
    lemma_took_first_any(s.subclasses(), new.subclasses(), r,
        |x: Subclass| subclass_matches(RIFTermV::Var, RIFTermV::Var, x));
}

/// A query of `Var` only takes out the membership formula added first, and none where
/// the store holds none.
pub proof fn law_any_member_is_oldest(s: RIFIFormulas, new: RIFIFormulas, r: Option<Member>)
    requires
        s.member_step(new, RIFTermV::Var, RIFTermV::Var, r),
    ensures
        s.members().len() == 0 ==> r is None && new.members() == s.members(),
        s.members().len() > 0 ==> r == Some(s.members()[0])
            && new.members() == s.members().subrange(1, s.members().len() as int),
{
    lemma_took_first_any(s.members(), new.members(), r,
        |x: Member| member_matches(RIFTermV::Var, RIFTermV::Var, x));
}

/// A query of `Var` only takes out the equality added first, and none where the store
/// holds none.
pub proof fn law_any_equal_is_oldest(s: RIFIFormulas, new: RIFIFormulas, r: Option<Equal>)
    requires
        s.equal_step(new, RIFTermV::Var, RIFTermV::Var, r),
    ensures
        s.equals().len() == 0 ==> r is None && new.equals() == s.equals(),
        s.equals().len() > 0 ==> r == Some(s.equals()[0])
            && new.equals() == s.equals().subrange(1, s.equals().len() as int),
{
    lemma_took_first_any(s.equals(), new.equals(), r,
        |x: Equal| equal_matches(RIFTermV::Var, RIFTermV::Var, x));
}

/// Asking twice for the blank node of the same key gives the same blank node, and the
/// second time hands out nothing new.
pub proof fn law_same_key_same_bnode(
    m0: Map<Seq<char>, Seq<char>>,
    m1: Map<Seq<char>, Seq<char>>,
    m2: Map<Seq<char>, Seq<char>>,
    key: Seq<char>,
    id1: Seq<char>,
    id2: Seq<char>,
)
    requires
        bnode_lookup(m0, m1, key, id1),
        bnode_lookup(m1, m2, key, id2),
    ensures
        id2 == id1,
        m2 == m1,
{
}

proof fn lemma_digit_char_injective(a: nat, b: nat)
    requires
        a < 10,
        b < 10,
        digit_char(a) == digit_char(b),
    ensures
        a == b,
{
}

proof fn lemma_dec_len(n: nat)
    ensures
        dec(n).len() >= 1,
        n >= 10 ==> dec(n).len() >= 2,
    decreases n,
{
    if n >= 10 {
        lemma_dec_len(n / 10);
    }
}

/// Different numbers are written differently in decimal.
pub proof fn law_dec_injective(a: nat, b: nat)
    requires
        dec(a) == dec(b),
    ensures
        a == b,
    decreases a,
{
    lemma_dec_len(a);
    lemma_dec_len(b);
    if a < 10 && b < 10 {
        assert(dec(a) == seq![digit_char(a)]);
        assert(dec(b) == seq![digit_char(b)]);
        assert(seq![digit_char(a)][0] == digit_char(a));
        assert(seq![digit_char(b)][0] == digit_char(b));
        lemma_digit_char_injective(a, b);
    } else if a >= 10 && b >= 10 {
        let da = dec(a / 10);
        let db = dec(b / 10);
        assert(dec(a) == da.push(digit_char(a % 10)));
        assert(dec(b) == db.push(digit_char(b % 10)));
        assert(da =~= dec(a).drop_last());
        assert(db =~= dec(b).drop_last());
        assert(dec(a).last() == digit_char(a % 10));
        lemma_digit_char_injective(a % 10, b % 10);
        law_dec_injective(a / 10, b / 10);
    }
}

/// The blank nodes that a context hands out have different names.
pub proof fn law_context_bnodes_distinct(j: nat, k: nat)
    requires
        j != k,
    ensures
        bn(j) != bn(k),
{
    if bn(j) == bn(k) {
        let p = "bnode_"@;
        assert(dec(j) =~= bn(j).subrange(p.len() as int, bn(j).len() as int));
        assert(dec(k) =~= bn(k).subrange(p.len() as int, bn(k).len() as int));
        law_dec_injective(j, k);
    }
}

/// The cells of a list sent from the node `id` have different nodes.
pub proof fn law_list_cells_distinct(id: Seq<char>, ty: u8, j: int, k: int)
    requires
        0 <= j < k,
    ensures
        item_node(id, ty, j).0 != item_node(id, ty, k).0,
{
    let u = "_"@;
    lemma_dec_len((k - 1) as nat);
    if j == 0 {
        assert(item_node(id, ty, k).0.len() > id.len());
    } else {
        lemma_dec_len((j - 1) as nat);
        if item_node(id, ty, j).0 == item_node(id, ty, k).0 {
            let a = item_node(id, ty, j).0;
            let b = item_node(id, ty, k).0;
            let n = (id + u).len() as int;
            assert(dec((j - 1) as nat) =~= a.subrange(n, a.len() as int));
            assert(dec((k - 1) as nat) =~= b.subrange(n, b.len() as int));
            law_dec_injective((j - 1) as nat, (k - 1) as nat);
        }
    }
}

proof fn lemma_term_sent_ok(id: Seq<char>, ty: u8, t: RIFTermV)
    ensures
        term_sent(id, ty, t).ok == free_of_var(t),
    decreases t, 0int,
{
    if let RIFTermV::List(l) = t {
        let lid = id + "_list"@;
        lemma_items_sent_ok(lid, BNODE, l, l.len() as int);
        assert(list_sent(lid, BNODE, l).ok == items_sent(lid, BNODE, l, l.len() as int).ok);
    }
}

proof fn lemma_items_sent_ok(id: Seq<char>, ty: u8, l: Seq<RIFTermV>, k: int)
    requires
        0 <= k <= l.len(),
    ensures
        items_sent(id, ty, l, k).ok == forall|i: int| 0 <= i < k ==> free_of_var(#[trigger] l[i]),
    decreases l, k,
{
    if k >= 1 {
        let node = item_node(id, ty, k - 1);
        lemma_term_sent_ok(node.0 + "_first"@, BNODE, l[k - 1]);
        assert(item_sent(node, l[k - 1]).ok == free_of_var(l[k - 1]));
        if k > 1 {
            lemma_items_sent_ok(id, ty, l, k - 1);
        }
        if !free_of_var(l[k - 1]) {
            assert(!(forall|i: int| 0 <= i < k ==> free_of_var(#[trigger] l[i])));
        }
    }
}

/// Sending a term as RDF goes through exactly when the term holds no `Var`; where it
/// holds one, it ends in an error.
pub proof fn law_term_sent_unless_var(id: Seq<char>, ty: u8, t: RIFTermV)
    ensures
        term_sent(id, ty, t).ok <==> free_of_var(t),
{
    lemma_term_sent_ok(id, ty, t);
}

/// Sending a formula as RDF goes through exactly when none of its terms holds a `Var`.
pub proof fn law_formula_sent_unless_var(f: Formula, id: Seq<char>, ty: u8)
    ensures
        formula_sent(f, id, ty).ok <==> match f {
            Formula::Atom(a) => free_of_var(a.op@) && forall|i: int|
                0 <= i < terms_view(a.args@).len() ==> free_of_var(#[trigger] terms_view(a.args@)[i]),
            Formula::Frame(x) => free_of_var(x.object@) && free_of_var(x.slotkey@) && free_of_var(x.slotvalue@),
            Formula::Subclass(x) => free_of_var(x.sub@) && free_of_var(x.super_@),
            Formula::Member(x) => free_of_var(x.instance@) && free_of_var(x.class@),
            Formula::Equal(x) => free_of_var(x.left@) && free_of_var(x.right@),
        },
{
    match f {
        Formula::Atom(a) => {
            let args = terms_view(a.args@);
            lemma_term_sent_ok(id + "_op"@, BNODE, a.op@);
            let aid = id + "_args"@;
            lemma_items_sent_ok(aid, BNODE, args, args.len() as int);
            assert(list_sent(aid, BNODE, args).ok == items_sent(aid, BNODE, args, args.len() as int).ok);
        },
        Formula::Frame(x) => {
            lemma_term_sent_ok(id + "_obj"@, BNODE, x.object@);
            let sid = id + "_slot"@;
            lemma_term_sent_ok(sid + "_val"@, BNODE, x.slotvalue@);
            lemma_term_sent_ok(sid + "_key"@, BNODE, x.slotkey@);
        },
        Formula::Subclass(x) => {
            lemma_term_sent_ok(id + "_sub"@, BNODE, x.sub@);
            lemma_term_sent_ok(id + "_super"@, BNODE, x.super_@);
        },
        Formula::Member(x) => {
            lemma_term_sent_ok(id + "_inst"@, BNODE, x.instance@);
            lemma_term_sent_ok(id + "_class"@, BNODE, x.class@);
        },
        Formula::Equal(x) => {
            lemma_term_sent_ok(id + "_left"@, BNODE, x.left@);
            lemma_term_sent_ok(id + "_right"@, BNODE, x.right@);
        },
    }
}

/// The RIF reading answers each formula node (each frame slot) at most once: no query
/// changes the graph, and the nodes answered stay distinct.
pub proof fn law_rif_node_answered_once<X>(
    s: RIFInterpreter,
    new: RIFInterpreter,
    class: Seq<char>,
    answer: spec_fn(RdfTermV) -> Option<X>,
    reads: spec_fn(RdfTermV, Option<X>) -> bool,
    r: Option<X>,
)
    requires
        s.node_step(new, class, answer, reads, r),
        s.removed().no_duplicates(),
    ensures
        new.graph() == s.graph(),
        new.removed().no_duplicates(),
        s.removed().is_prefix_of(new.removed()),
{
    assert(s.removed().is_prefix_of(new.removed())) by {
        if r is Some {
            assert(new.removed().subrange(0, s.removed().len() as int) =~= s.removed());
        }
    }
}

/// The same for frame slots: a frame query changes no triple, and each slot is answered
/// at most once.
pub proof fn law_rif_slot_answered_once(
    s: RIFInterpreter,
    new: RIFInterpreter,
    object: RIFTermV,
    slotkey: RIFTermV,
    slotvalue: RIFTermV,
    r: Option<(RIFTermV, RIFTermV, RIFTermV)>,
)
    requires
        s.frame_step(new, object, slotkey, slotvalue, r),
        s.removed().no_duplicates(),
    ensures
        new.graph() == s.graph(),
        new.removed().no_duplicates(),
        s.removed().is_prefix_of(new.removed()),
{
    assert(s.removed().is_prefix_of(new.removed())) by {
        if r is Some {
            assert(new.removed().subrange(0, s.removed().len() as int) =~= s.removed());
        }
    }
}

/// Under the RDFS and D readings a query only ever takes triples out: one where it
/// answers, none where it does not.
pub proof fn law_answer_takes_out_one_triple<X>(
    old_s: Set<RdfTripleV>,
    new_s: Set<RdfTripleV>,
    eligible: spec_fn(RdfTripleV) -> bool,
    answer: spec_fn(RdfTripleV) -> Option<X>,
    determined: bool,
    r: Option<X>,
)
    requires
        triple_step(old_s, new_s, eligible, answer, determined, r),
        old_s.finite(),
    ensures
        new_s.subset_of(old_s),
        r is None ==> new_s == old_s,
        r is Some ==> new_s.len() + 1 == old_s.len(),
{
}

/// On an unambiguous graph, a query of the RIF reading that found nothing finds nothing
/// again: asked once more, it answers `None` and changes nothing.
pub proof fn law_rif_none_stays_none<X>(
    s: RIFInterpreter,
    s1: RIFInterpreter,
    s2: RIFInterpreter,
    class: Seq<char>,
    answer: spec_fn(RdfTermV) -> Option<X>,
    reads: spec_fn(RdfTermV, Option<X>) -> bool,
    r: Option<X>,
)
    requires
        unambiguous(s.graph()),
        s.node_step(s1, class, answer, reads, None),
        s1.node_step(s2, class, answer, reads, r),
    ensures
        r is None,
        s2.graph() == s.graph(),
        s2.removed() == s.removed(),
{
    if r is Some {
        let x = r->0;
        let q = choose|q: RdfTermV|
            #[trigger] has_class(s1.graph(), q, class) && !s1.removed().contains(q)
                && s2.removed() == s1.removed().push(q)
                && reads(q, Some(x))
                && (unambiguous(s1.graph()) ==> answer(q) == Some(x));
        assert(has_class(s.graph(), q, class));
    }
}

/// The same for frame queries: on an unambiguous graph, a frame query that found no slot
/// finds none again, and changes nothing.
pub proof fn law_rif_frame_none_stays_none(
    s: RIFInterpreter,
    s1: RIFInterpreter,
    s2: RIFInterpreter,
    object: RIFTermV,
    slotkey: RIFTermV,
    slotvalue: RIFTermV,
    r: Option<(RIFTermV, RIFTermV, RIFTermV)>,
)
    requires
        unambiguous(s.graph()),
        s.frame_step(s1, object, slotkey, slotvalue, None),
        s1.frame_step(s2, object, slotkey, slotvalue, r),
    ensures
        r is None,
        s2.graph() == s.graph(),
        s2.removed() == s.removed(),
{
    if r is Some {
        let f = r->0;
        let (q, slot) = choose|q: RdfTermV, slot: RdfTermV|
            #![trigger has_class(s1.graph(), q, RIF_FRAME@), s1.removed().contains(slot)]
            has_class(s1.graph(), q, RIF_FRAME@) && !s1.removed().contains(slot)
                && s2.removed() == s1.removed().push(slot)
                && frame_some_read(s1.graph(), q, slot, object, slotkey, slotvalue, f)
                && (unambiguous(s1.graph()) ==> {
                    &&& frame_object(s1.graph(), q, object) == Some(f.0)
                    &&& frame_slots(s1.graph(), q) matches Some(slots)
                    &&& slots.contains(slot)
                    &&& pair_answer(s1.graph(), slot, RIF_SLOTKEY@, RIF_SLOTVALUE@, slotkey, slotvalue) == Some((f.1, f.2))
                });
        let slots = frame_slots(s.graph(), q)->0;
        let k = choose|k: int| 0 <= k < slots.len() && slots[k] == slot;
        assert(has_class(s.graph(), q, RIF_FRAME@));
        assert(s.removed().contains(slots[k]) || pair_answer(s.graph(), slots[k], RIF_SLOTKEY@, RIF_SLOTVALUE@, slotkey, slotvalue) is None);
    }
}

/// Under the RDFS and D readings (where what a triple answers is determined), a query
/// that found nothing finds nothing again, and changes nothing.
pub proof fn law_triples_none_stays_none<X>(
    s: Set<RdfTripleV>,
    s1: Set<RdfTripleV>,
    s2: Set<RdfTripleV>,
    eligible: spec_fn(RdfTripleV) -> bool,
    answer: spec_fn(RdfTripleV) -> Option<X>,
    r: Option<X>,
)
    requires
        triple_step(s, s1, eligible, answer, true, None),
        triple_step(s1, s2, eligible, answer, true, r),
    ensures
        r is None,
        s2 == s,
{
    if r is Some {
        let x = r->0;
        let t = choose|t: RdfTripleV|
            #[trigger] s1.contains(t) && eligible(t) && s2 == s1.remove(t) && (true ==> answer(t) == Some(x));
        assert(s.contains(t));
    }
}

} // verus!
