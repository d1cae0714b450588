use vstd::prelude::*;
use crate::rifidata::{Atom, RIFIData, RIFTerm, RIFTermV, lemma_terms_view, terms_view};

verus! {

/// The query terms `s` with every named variable read as "any term".
pub open spec fn vars_replaced(s: Seq<RIFTermV>) -> Seq<RIFTermV> {
    s.map_values(|t: RIFTermV| if t is Variable { RIFTermV::Var } else { t })
}

/// The terms `input`, each named variable replaced by `Var`, the others kept.
pub fn replace_vars(input: Vec<RIFTerm>) -> (r: Vec<RIFTerm>)
    ensures
        terms_view(r@) == vars_replaced(terms_view(input@)),
{
    let ghost all = input@;
    let mut output: Vec<RIFTerm> = Vec::new();
    let mut rest = input;
    proof {
        lemma_terms_view(all);
    }
    while rest.len() > 0
        invariant
            rest.len() + output.len() == all.len(),
            rest@ == all.subrange(output.len() as int, all.len() as int),
            terms_view(all).len() == all.len(),
            forall|k: int| 0 <= k < all.len() ==> #[trigger] terms_view(all)[k] == all[k]@,
            forall|k: int| 0 <= k < output.len() ==> (#[trigger] output@[k])@ == vars_replaced(terms_view(all))[k],
        decreases rest.len(),
    {
        let x = rest.remove(0);
        let y = match x {
            RIFTerm::Variable(_) => RIFTerm::Var,
            _ => x,
        };
        output.push(y);
    }
    proof {
        lemma_terms_view(output@);
        assert(terms_view(output@) =~= vars_replaced(terms_view(all)));
    }
    output
}

/// The next atom of `data` with the operator `op` and the arguments `args`, where a named
/// variable among the arguments stands for any term (see [`RIFIData::get_next_atom`]).
#[allow(non_snake_case)]
pub fn RIFIData_get_next_atom(data: &mut RIFIData, op: RIFTerm, args: Vec<RIFTerm>) -> (r: Option<Atom>)
    requires
        old(data).answerable(),
    ensures
        final(data).answerable(),
        old(data).atom_step(*final(data), op@, Some(vars_replaced(terms_view(args@))), r),
{
    let args_q = replace_vars(args);
    data.get_next_atom(op, Some(args_q))
}

} // verus!
