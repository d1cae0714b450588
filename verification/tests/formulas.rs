use rifimporter::export_functions::RIFIData_get_next_atom;
use rifimporter::rifidata::{Atom, Equal, Formula, Frame, Member, RIFTerm, Subclass};
use rifimporter::rififormulas::RIFIFormulas;

fn iri(s: &str) -> RIFTerm {
    RIFTerm::IRI(s.to_string())
}

fn atom(op: &str, args: Vec<RIFTerm>) -> Atom {
    Atom { op: iri(op), args }
}

fn frame(o: &str, k: &str, v: &str) -> Frame {
    Frame { object: iri(o), slotkey: iri(k), slotvalue: iri(v) }
}

#[test]
fn any_query_takes_oldest_atom() {
    let mut s = RIFIFormulas::new();
    s.add_atom(atom("http://ex/p", vec![iri("http://ex/a")]));
    s.add_atom(atom("http://ex/q", vec![]));
    let a = s.get_next_atom(RIFTerm::Var, None).expect("first atom");
    assert!(a.op.same_as(&iri("http://ex/p")));
    let b = s.get_next_atom(RIFTerm::Var, None).expect("second atom");
    assert!(b.op.same_as(&iri("http://ex/q")));
    assert!(s.get_next_atom(RIFTerm::Var, None).is_none());
}

#[test]
fn atom_query_with_arguments() {
    let mut s = RIFIFormulas::new();
    s.add_atom(atom("http://ex/p", vec![iri("http://ex/a")]));
    s.add_atom(atom("http://ex/p", vec![iri("http://ex/b")]));
    assert!(s.get_next_atom(RIFTerm::Var, Some(vec![iri("http://ex/c")])).is_none());
    assert!(s.get_next_atom(RIFTerm::Var, Some(vec![])).is_none());
    let a = s.get_next_atom(iri("http://ex/p"), Some(vec![iri("http://ex/b")])).expect("matching atom");
    assert!(a.args[0].same_as(&iri("http://ex/b")));
    let a = s.get_next_atom(RIFTerm::Var, Some(vec![RIFTerm::Var])).expect("remaining atom");
    assert!(a.args[0].same_as(&iri("http://ex/a")));
}

#[test]
fn frame_query_skips_what_it_does_not_ask_for() {
    let mut s = RIFIFormulas::new();
    s.add_frame(frame("http://ex/a", "http://ex/k", "http://ex/1"));
    s.add_frame(frame("http://ex/b", "http://ex/k", "http://ex/2"));
    let f = s.get_next_frame(iri("http://ex/b"), RIFTerm::Var, RIFTerm::Var).expect("frame of b");
    assert!(f.slotvalue.same_as(&iri("http://ex/2")));
    assert!(s.get_next_frame(iri("http://ex/b"), RIFTerm::Var, RIFTerm::Var).is_none());
    let f = s.get_next_frame(RIFTerm::Var, RIFTerm::Var, RIFTerm::Var).expect("frame of a");
    assert!(f.object.same_as(&iri("http://ex/a")));
}

#[test]
fn equal_query_either_direction() {
    let mut s = RIFIFormulas::new();
    s.add_equal(Equal { left: iri("http://ex/a"), right: iri("http://ex/b") });
    let e = s.get_next_equal(iri("http://ex/b"), iri("http://ex/a")).expect("equality read backwards");
    assert!(e.left.same_as(&iri("http://ex/a")));
    assert!(e.right.same_as(&iri("http://ex/b")));
    assert!(s.get_next_equal(RIFTerm::Var, RIFTerm::Var).is_none());
}

#[test]
fn subclass_and_member_queries() {
    let mut s = RIFIFormulas::new();
    s.add_subclass(Subclass { sub: iri("http://ex/A"), super_: iri("http://ex/B") });
    s.add_member(Member { instance: iri("http://ex/x"), class: iri("http://ex/A") });
    assert!(s.get_next_subclass(iri("http://ex/B"), RIFTerm::Var).is_none());
    assert!(s.get_next_subclass(RIFTerm::Var, iri("http://ex/B")).is_some());
    assert!(s.get_next_member(RIFTerm::Var, iri("http://ex/B")).is_none());
    let m = s.get_next_member(iri("http://ex/x"), RIFTerm::Var).expect("member");
    assert!(m.class.same_as(&iri("http://ex/A")));
}

#[test]
fn next_goes_by_kind() {
    let mut s = RIFIFormulas::new();
    s.add_equal(Equal { left: iri("http://ex/a"), right: iri("http://ex/b") });
    s.add_member(Member { instance: iri("http://ex/x"), class: iri("http://ex/A") });
    s.add_subclass(Subclass { sub: iri("http://ex/A"), super_: iri("http://ex/B") });
    s.add_frame(frame("http://ex/a", "http://ex/k", "http://ex/1"));
    s.add_atom(atom("http://ex/p", vec![]));
    let mut d = s.to_RIFIData();
    assert!(matches!(d.next(), Some(Formula::Atom(_))));
    assert!(matches!(d.next(), Some(Formula::Frame(_))));
    assert!(matches!(d.next(), Some(Formula::Subclass(_))));
    assert!(matches!(d.next(), Some(Formula::Member(_))));
    assert!(matches!(d.next(), Some(Formula::Equal(_))));
    assert!(d.next().is_none());
}

#[test]
fn named_variables_in_atom_arguments_match_anything() {
    let mut s = RIFIFormulas::new();
    s.add_atom(atom("http://ex/p", vec![iri("http://ex/a")]));
    let mut d = s.to_RIFIData();
    let a = RIFIData_get_next_atom(&mut d, RIFTerm::Var, vec![RIFTerm::Variable("x".to_string())]).expect("atom");
    assert!(a.args[0].same_as(&iri("http://ex/a")));
}

#[test]
fn named_variable_as_operator_matches_nothing() {
    let mut s = RIFIFormulas::new();
    s.add_atom(atom("http://ex/p", vec![]));
    assert!(s.get_next_atom(RIFTerm::Variable("x".to_string()), None).is_none());
    assert!(s.get_next_atom(RIFTerm::Var, None).is_some());
}
