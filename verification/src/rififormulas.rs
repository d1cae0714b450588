use vstd::prelude::*;
use crate::rifidata::{
    RIFIData,
    Atom, Equal, Frame, Member, RIFTerm, RIFTermV, Subclass, list_equal_or_valid_for_rifterm,
    lists_valid_for, opt_terms_view, terms_view, valid_for,
};

verus! {

/// Whether the atom `a` answers the query `op`, `args` (`None`: any arguments).
pub open spec fn atom_matches(op: RIFTermV, args: Option<Seq<RIFTermV>>, a: Atom) -> bool {
    &&& valid_for(op, a.op@)
    &&& match args {
        None => true,
        Some(q) => lists_valid_for(q, terms_view(a.args@)),
    }
}

/// Whether the frame `f` answers the query `object`, `slotkey`, `slotvalue`.
pub open spec fn frame_matches(object: RIFTermV, slotkey: RIFTermV, slotvalue: RIFTermV, f: Frame) -> bool {
    valid_for(object, f.object@) && valid_for(slotkey, f.slotkey@) && valid_for(slotvalue, f.slotvalue@)
}

/// Whether the subclass formula `s` answers the query `sub`, `super_`.
pub open spec fn subclass_matches(sub: RIFTermV, super_: RIFTermV, s: Subclass) -> bool {
    valid_for(sub, s.sub@) && valid_for(super_, s.super_@)
}

/// Whether the membership formula `m` answers the query `instance`, `class`.
pub open spec fn member_matches(instance: RIFTermV, class: RIFTermV, m: Member) -> bool {
    valid_for(instance, m.instance@) && valid_for(class, m.class@)
}

/// Whether the equality `e` answers the query `left`, `right`, read in either direction.
pub open spec fn equal_matches(left: RIFTermV, right: RIFTermV, e: Equal) -> bool {
    ||| valid_for(left, e.left@) && valid_for(right, e.right@)
    ||| valid_for(left, e.right@) && valid_for(right, e.left@)
}

/// `i` is the position of the first item of `s` that satisfies `m`.
pub open spec fn first_match_at<T>(s: Seq<T>, i: int, m: spec_fn(T) -> bool) -> bool {
    0 <= i < s.len() && m(s[i]) && forall|j: int| 0 <= j < i ==> !m(#[trigger] s[j])
}

/// `new` is `old` without its first item that satisfies `m`, and `r` is that item; or
/// no item satisfies `m`, `r` is `None` and nothing changed.
pub open spec fn took_first<T>(old: Seq<T>, new: Seq<T>, r: Option<T>, m: spec_fn(T) -> bool) -> bool {
    match r {
        None => new == old && forall|i: int| 0 <= i < old.len() ==> !m(#[trigger] old[i]),
        Some(x) => exists|i: int| #[trigger] first_match_at(old, i, m) && x == old[i] && new == old.remove(i),
    }
}

/// A store of RIF formulas, kept by kind in the order they were added.
pub struct RIFIFormulas {
    atoms: Vec<Atom>,
    frames: Vec<Frame>,
    subclasses: Vec<Subclass>,
    members: Vec<Member>,
    equals: Vec<Equal>,
}

impl RIFIFormulas {
    pub closed spec fn atoms(&self) -> Seq<Atom> {
        self.atoms@
    }

    pub closed spec fn frames(&self) -> Seq<Frame> {
        self.frames@
    }

    pub closed spec fn subclasses(&self) -> Seq<Subclass> {
        self.subclasses@
    }

    pub closed spec fn members(&self) -> Seq<Member> {
        self.members@
    }

    pub closed spec fn equals(&self) -> Seq<Equal> {
        self.equals@
    }

    /// An answer to the atom query `op`, `args` took the atom it returned out of the store.
    pub open spec fn atom_step(self, new: Self, op: RIFTermV, args: Option<Seq<RIFTermV>>, r: Option<Atom>) -> bool {
        &&& took_first(self.atoms(), new.atoms(), r, |a: Atom| atom_matches(op, args, a))
        &&& new.frames() == self.frames()
        &&& new.subclasses() == self.subclasses()
        &&& new.members() == self.members()
        &&& new.equals() == self.equals()
    }

    /// An answer to the frame query took the frame it returned out of the store.
    pub open spec fn frame_step(self, new: Self, object: RIFTermV, slotkey: RIFTermV, slotvalue: RIFTermV, r: Option<Frame>) -> bool {
        &&& took_first(self.frames(), new.frames(), r, |f: Frame| frame_matches(object, slotkey, slotvalue, f))
        &&& new.atoms() == self.atoms()
        &&& new.subclasses() == self.subclasses()
        &&& new.members() == self.members()
        &&& new.equals() == self.equals()
    }

    /// An answer to the subclass query took the formula it returned out of the store.
    pub open spec fn subclass_step(self, new: Self, sub: RIFTermV, super_: RIFTermV, r: Option<Subclass>) -> bool {
        &&& took_first(self.subclasses(), new.subclasses(), r, |s: Subclass| subclass_matches(sub, super_, s))
        &&& new.atoms() == self.atoms()
        &&& new.frames() == self.frames()
        &&& new.members() == self.members()
        &&& new.equals() == self.equals()
    }

    /// An answer to the membership query took the formula it returned out of the store.
    pub open spec fn member_step(self, new: Self, instance: RIFTermV, class: RIFTermV, r: Option<Member>) -> bool {
        &&& took_first(self.members(), new.members(), r, |m: Member| member_matches(instance, class, m))
        &&& new.atoms() == self.atoms()
        &&& new.frames() == self.frames()
        &&& new.subclasses() == self.subclasses()
        &&& new.equals() == self.equals()
    }

    /// An answer to the equality query took the formula it returned out of the store.
    pub open spec fn equal_step(self, new: Self, left: RIFTermV, right: RIFTermV, r: Option<Equal>) -> bool {
        &&& took_first(self.equals(), new.equals(), r, |e: Equal| equal_matches(left, right, e))
        &&& new.atoms() == self.atoms()
        &&& new.frames() == self.frames()
        &&& new.subclasses() == self.subclasses()
        &&& new.members() == self.members()
    }

    /// An empty store.
    pub fn new() -> (r: Self)
        ensures
            r.atoms() == Seq::<Atom>::empty(),
            r.frames() == Seq::<Frame>::empty(),
            r.subclasses() == Seq::<Subclass>::empty(),
            r.members() == Seq::<Member>::empty(),
            r.equals() == Seq::<Equal>::empty(),
    {
        RIFIFormulas {
            atoms: Vec::new(),
            frames: Vec::new(),
            subclasses: Vec::new(),
            members: Vec::new(),
            equals: Vec::new(),
        }
    }

    /// The store as a source of formulas, with the same formulas in the same order.
    #[allow(non_snake_case)]
    pub fn to_RIFIData(self) -> (r: RIFIData)
        ensures
            r == RIFIData::Formulas(self),
    {
        RIFIData::Formulas(self)
    }

    /// Adds an atom after the others.
    pub fn add_atom(&mut self, atom: Atom)
        ensures
            final(self).atoms() == old(self).atoms().push(atom),
            final(self).frames() == old(self).frames(),
            final(self).subclasses() == old(self).subclasses(),
            final(self).members() == old(self).members(),
            final(self).equals() == old(self).equals(),
    {
        self.atoms.push(atom);
    }

    /// Adds a frame after the others.
    pub fn add_frame(&mut self, frame: Frame)
        ensures
            final(self).frames() == old(self).frames().push(frame),
            final(self).atoms() == old(self).atoms(),
            final(self).subclasses() == old(self).subclasses(),
            final(self).members() == old(self).members(),
            final(self).equals() == old(self).equals(),
    {
        self.frames.push(frame);
    }

    /// Adds a subclass formula after the others.
    pub fn add_subclass(&mut self, subclass: Subclass)
        ensures
            final(self).subclasses() == old(self).subclasses().push(subclass),
            final(self).atoms() == old(self).atoms(),
            final(self).frames() == old(self).frames(),
            final(self).members() == old(self).members(),
            final(self).equals() == old(self).equals(),
    {
        self.subclasses.push(subclass);
    }

    /// Adds a membership formula after the others.
    pub fn add_member(&mut self, member: Member)
        ensures
            final(self).members() == old(self).members().push(member),
            final(self).atoms() == old(self).atoms(),
            final(self).frames() == old(self).frames(),
            final(self).subclasses() == old(self).subclasses(),
            final(self).equals() == old(self).equals(),
    {
        self.members.push(member);
    }

    /// Adds an equality after the others.
    pub fn add_equal(&mut self, equal: Equal)
        ensures
            final(self).equals() == old(self).equals().push(equal),
            final(self).atoms() == old(self).atoms(),
            final(self).frames() == old(self).frames(),
            final(self).subclasses() == old(self).subclasses(),
            final(self).members() == old(self).members(),
    {
        self.equals.push(equal);
    }

    /// Takes out and returns the first atom that answers the query `op`, `args`.
    pub fn get_next_atom(&mut self, op: RIFTerm, args: Option<Vec<RIFTerm>>) -> (r: Option<Atom>)
        ensures
            old(self).atom_step(*final(self), op@, opt_terms_view(args), r),
    {
        let n = self.atoms.len();
        let mut pos: usize = 0;
        while pos < n
            invariant
                n == self.atoms.len(),
                0 <= pos <= n,
                self.atoms@ == old(self).atoms@,
                self.frames@ == old(self).frames@,
                self.subclasses@ == old(self).subclasses@,
                self.members@ == old(self).members@,
                self.equals@ == old(self).equals@,
                forall|j: int| 0 <= j < pos ==> !atom_matches(op@, opt_terms_view(args), #[trigger] self.atoms@[j]),
            decreases n - pos,
        {
            let x = &self.atoms[pos];
            let mut ok = op.equal_or_valid_for(&x.op);
            if ok {
                match &args {
                    None => {},
                    Some(q_args) => {
                        ok = list_equal_or_valid_for_rifterm(q_args, &x.args);
                    },
                }
            }
            if ok {
                assert(atom_matches(op@, opt_terms_view(args), self.atoms@[pos as int]));
                assert(first_match_at(self.atoms@, pos as int, |a| atom_matches(op@, opt_terms_view(args), a)));
                let a = self.atoms.remove(pos);
                return Some(a);
            }
            assert(!atom_matches(op@, opt_terms_view(args), self.atoms@[pos as int]));
            pos = pos + 1;
        }
        None
    }

    /// Takes out and returns the first frame that answers the query.
    pub fn get_next_frame(&mut self, object: RIFTerm, slotkey: RIFTerm, slotvalue: RIFTerm) -> (r: Option<Frame>)
        ensures
            old(self).frame_step(*final(self), object@, slotkey@, slotvalue@, r),
    {
        let n = self.frames.len();
        let mut pos: usize = 0;
        while pos < n
            invariant
                n == self.frames.len(),
                0 <= pos <= n,
                self.atoms@ == old(self).atoms@,
                self.frames@ == old(self).frames@,
                self.subclasses@ == old(self).subclasses@,
                self.members@ == old(self).members@,
                self.equals@ == old(self).equals@,
                forall|j: int| 0 <= j < pos ==> !frame_matches(object@, slotkey@, slotvalue@, #[trigger] self.frames@[j]),
            decreases n - pos,
        {
            let x = &self.frames[pos];
            if object.equal_or_valid_for(&x.object) && slotkey.equal_or_valid_for(&x.slotkey)
                && slotvalue.equal_or_valid_for(&x.slotvalue) {
                assert(frame_matches(object@, slotkey@, slotvalue@, self.frames@[pos as int]));
                assert(first_match_at(self.frames@, pos as int, |f| frame_matches(object@, slotkey@, slotvalue@, f)));
                let f = self.frames.remove(pos);
                return Some(f);
            }
            assert(!frame_matches(object@, slotkey@, slotvalue@, self.frames@[pos as int]));
            pos = pos + 1;
        }
        None
    }

    /// Takes out and returns the first subclass formula that answers the query.
    pub fn get_next_subclass(&mut self, sub: RIFTerm, super_: RIFTerm) -> (r: Option<Subclass>)
        ensures
            old(self).subclass_step(*final(self), sub@, super_@, r),
    {
        let n = self.subclasses.len();
        let mut pos: usize = 0;
        while pos < n
            invariant
                n == self.subclasses.len(),
                0 <= pos <= n,
                self.atoms@ == old(self).atoms@,
                self.frames@ == old(self).frames@,
                self.subclasses@ == old(self).subclasses@,
                self.members@ == old(self).members@,
                self.equals@ == old(self).equals@,
                forall|j: int| 0 <= j < pos ==> !subclass_matches(sub@, super_@, #[trigger] self.subclasses@[j]),
            decreases n - pos,
        {
            let x = &self.subclasses[pos];
            if sub.equal_or_valid_for(&x.sub) && super_.equal_or_valid_for(&x.super_) {
                assert(subclass_matches(sub@, super_@, self.subclasses@[pos as int]));
                assert(first_match_at(self.subclasses@, pos as int, |s| subclass_matches(sub@, super_@, s)));
                let s = self.subclasses.remove(pos);
                return Some(s);
            }
            assert(!subclass_matches(sub@, super_@, self.subclasses@[pos as int]));
            pos = pos + 1;
        }
        None
    }

    /// Takes out and returns the first membership formula that answers the query.
    pub fn get_next_member(&mut self, instance: RIFTerm, class: RIFTerm) -> (r: Option<Member>)
        ensures
            old(self).member_step(*final(self), instance@, class@, r),
    {
        let n = self.members.len();
        let mut pos: usize = 0;
        while pos < n
            invariant
                n == self.members.len(),
                0 <= pos <= n,
                self.atoms@ == old(self).atoms@,
                self.frames@ == old(self).frames@,
                self.subclasses@ == old(self).subclasses@,
                self.members@ == old(self).members@,
                self.equals@ == old(self).equals@,
                forall|j: int| 0 <= j < pos ==> !member_matches(instance@, class@, #[trigger] self.members@[j]),
            decreases n - pos,
        {
            let x = &self.members[pos];
            if instance.equal_or_valid_for(&x.instance) && class.equal_or_valid_for(&x.class) {
                assert(member_matches(instance@, class@, self.members@[pos as int]));
                assert(first_match_at(self.members@, pos as int, |x| member_matches(instance@, class@, x)));
                let r = self.members.remove(pos);
                return Some(r);
            }
            assert(!member_matches(instance@, class@, self.members@[pos as int]));
            pos = pos + 1;
        }
        None
    }

    /// Takes out and returns the first equality that answers the query in either direction.
    pub fn get_next_equal(&mut self, left: RIFTerm, right: RIFTerm) -> (r: Option<Equal>)
        ensures
            old(self).equal_step(*final(self), left@, right@, r),
    {
        let n = self.equals.len();
        let mut pos: usize = 0;
        while pos < n
            invariant
                n == self.equals.len(),
                0 <= pos <= n,
                self.atoms@ == old(self).atoms@,
                self.frames@ == old(self).frames@,
                self.subclasses@ == old(self).subclasses@,
                self.members@ == old(self).members@,
                self.equals@ == old(self).equals@,
                forall|j: int| 0 <= j < pos ==> !equal_matches(left@, right@, #[trigger] self.equals@[j]),
            decreases n - pos,
        {
            let x = &self.equals[pos];
            if left.equal_or_valid_for(&x.left) && right.equal_or_valid_for(&x.right) {
                assert(equal_matches(left@, right@, self.equals@[pos as int]));
                assert(first_match_at(self.equals@, pos as int, |e| equal_matches(left@, right@, e)));
                let e = self.equals.remove(pos);
                return Some(e);
            }
            if left.equal_or_valid_for(&x.right) && right.equal_or_valid_for(&x.left) {
                assert(equal_matches(left@, right@, self.equals@[pos as int]));
                assert(first_match_at(self.equals@, pos as int, |e| equal_matches(left@, right@, e)));
                let e = self.equals.remove(pos);
                return Some(e);
            }
            assert(!equal_matches(left@, right@, self.equals@[pos as int]));
            pos = pos + 1;
        }
        None
    }
}

}
