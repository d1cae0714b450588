use vstd::prelude::*;
use crate::rifidata::{RIFTerm, RIFTermV, lemma_terms_view, opt_str_view, terms_view};

verus! {

/// Kind of a term handed over from C: an IRI.
pub const RIF_TERM_TYPE_IRI: u8 = 0;
/// Kind of a term handed over from C: a literal with an optional datatype.
pub const RIF_TERM_TYPE_TYPEDLITERAL: u8 = 1;
/// Kind of a term handed over from C: a literal with a language tag.
pub const RIF_TERM_TYPE_LANGLITERAL: u8 = 2;
/// Kind of a term handed over from C: a list.
pub const RIF_TERM_TYPE_LIST: u8 = 3;
/// Kind of a term handed over from C: a local constant.
pub const RIF_TERM_TYPE_LOCAL: u8 = 4;

/// A term as C hands it over, read into plain values: its kind, its value and suffix
/// where they are given, and, for a list, its items where they are given.
pub struct CTermParts {
    pub term_type: u8,
    pub value: Option<String>,
    pub suffix: Option<String>,
    pub items: Option<Vec<RIFTerm>>,
}

/// The term that a C term stands for: a missing term, a term whose parts are missing and
/// a term of no known kind stand for any term (`Var`), and so does a local constant.
pub open spec fn c_term(cterm: Option<CTermParts>) -> RIFTermV {
    match cterm {
        None => RIFTermV::Var,
        Some(p) => {
            if p.term_type == RIF_TERM_TYPE_IRI {
                match p.value {
                    Some(v) => RIFTermV::IRI(v@),
                    None => RIFTermV::Var,
                }
            } else if p.term_type == RIF_TERM_TYPE_TYPEDLITERAL {
                match p.value {
                    Some(v) => RIFTermV::TypedLiteral(v@, opt_str_view(p.suffix)),
                    None => RIFTermV::Var,
                }
            } else if p.term_type == RIF_TERM_TYPE_LANGLITERAL {
                match (p.value, p.suffix) {
                    (Some(v), Some(l)) => RIFTermV::LangLiteral(v@, l@),
                    _ => RIFTermV::Var,
                }
            } else if p.term_type == RIF_TERM_TYPE_LIST {
                match p.items {
                    Some(l) => RIFTermV::List(terms_view(l@)),
                    None => RIFTermV::Var,
                }
            } else {
                RIFTermV::Var
            }
        },
    }
}

pub open spec fn opt_rif_view(r: Option<RIFTerm>) -> Option<RIFTermV> {
    match r {
        Some(t) => Some(t@),
        None => None,
    }
}

/// The IRI that the parts give, where they give a value.
fn c2rust_convert_iri(cterm: CTermParts) -> (r: Option<RIFTerm>)
    ensures
        opt_rif_view(r) == match cterm.value {
            Some(v) => Some(RIFTermV::IRI(v@)),
            None => None,
        },
{
    match cterm.value {
        Some(v) => Some(RIFTerm::IRI(v)),
        None => None,
    }
}

/// The literal that the parts give, with their suffix as datatype, where they give a
/// value.
fn c2rust_convert_typedliteral(cterm: CTermParts) -> (r: Option<RIFTerm>)
    ensures
        opt_rif_view(r) == match cterm.value {
            Some(v) => Some(RIFTermV::TypedLiteral(v@, opt_str_view(cterm.suffix))),
            None => None,
        },
{
    match cterm.value {
        Some(v) => Some(RIFTerm::TypedLiteral(v, cterm.suffix)),
        None => None,
    }
}

/// The literal that the parts give, with their suffix as language tag, where they give
/// both.
fn c2rust_convert_langliteral(cterm: CTermParts) -> (r: Option<RIFTerm>)
    ensures
        opt_rif_view(r) == match (cterm.value, cterm.suffix) {
            (Some(v), Some(l)) => Some(RIFTermV::LangLiteral(v@, l@)),
            _ => None,
        },
{
    match (cterm.value, cterm.suffix) {
        (Some(v), Some(l)) => Some(RIFTerm::LangLiteral(v, l)),
        _ => None,
    }
}

/// The list that the parts give, where they give its items.
fn c2rust_convert_list(cterm: CTermParts) -> (r: Option<RIFTerm>)
    ensures
        opt_rif_view(r) == match cterm.items {
            Some(l) => Some(RIFTermV::List(terms_view(l@))),
            None => None,
        },
{
    match cterm.items {
        Some(l) => Some(RIFTerm::List(l)),
        None => None,
    }
}

/// The term that a C term stands for (see [`c_term`]).
pub fn c2rust_rifterm(cterm: Option<CTermParts>) -> (r: RIFTerm)
    ensures
        r@ == c_term(cterm),
{
    let p = match cterm {
        None => {
            return RIFTerm::Var;
        },
        Some(p) => p,
    };
    let ret = if p.term_type == RIF_TERM_TYPE_IRI {
        c2rust_convert_iri(p)
    } else if p.term_type == RIF_TERM_TYPE_TYPEDLITERAL {
        c2rust_convert_typedliteral(p)
    } else if p.term_type == RIF_TERM_TYPE_LANGLITERAL {
        c2rust_convert_langliteral(p)
    } else if p.term_type == RIF_TERM_TYPE_LIST {
        c2rust_convert_list(p)
    } else if p.term_type == RIF_TERM_TYPE_LOCAL {
        Some(RIFTerm::Var)
    } else {
        None
    };
    match ret {
        Some(x) => x,
        None => RIFTerm::Var,
    }
}

/// The terms that the C terms of a list stand for, in order.
pub fn c2rust_riftermlist(cterms: Vec<Option<CTermParts>>) -> (r: Vec<RIFTerm>)
    ensures
        terms_view(r@) == cterms@.map_values(|c: Option<CTermParts>| c_term(c)),
{
    let mut ret: Vec<RIFTerm> = Vec::new();
    let mut rest = cterms;
    let ghost all = rest@;
    while rest.len() > 0
        invariant
            all == cterms@,
            rest.len() + ret.len() == all.len(),
            rest@ == all.subrange(ret.len() as int, all.len() as int),
            forall|k: int| 0 <= k < ret.len() ==> (#[trigger] ret@[k])@ == c_term(all[k]),
        decreases rest.len(),
    {
        let c = rest.remove(0);
        ret.push(c2rust_rifterm(c));
    }
    proof {
        lemma_terms_view(ret@);
        assert(terms_view(ret@) =~= cterms@.map_values(|c: Option<CTermParts>| c_term(c)));
    }
    ret
}

} // verus!
