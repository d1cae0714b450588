use vstd::prelude::*;
use crate::text::str_eq;

verus! {

/// The entailment regimes that a set of RIF formulas can be read under.
#[derive(PartialEq, Eq, Structural, Debug, Clone, Copy)]
pub enum Entailment {
    Simple,
    RDF,
    RDFS,
    D,
    OWLRDFBased,
    RIF,
    OWLDirect,
}

/// The entailment regime named by an IRI of the `http://www.w3.org/ns/entailment/` namespace.
pub open spec fn entailment_of(iri: Seq<char>) -> Option<Entailment> {
    if iri == "http://www.w3.org/ns/entailment/Simple"@ {
        Some(Entailment::Simple)
    } else if iri == "http://www.w3.org/ns/entailment/RDF"@ {
        Some(Entailment::RDF)
    } else if iri == "http://www.w3.org/ns/entailment/RDFS"@ {
        Some(Entailment::RDFS)
    } else if iri == "http://www.w3.org/ns/entailment/D"@ {
        Some(Entailment::D)
    } else if iri == "http://www.w3.org/ns/entailment/OWL-RDF-Based"@ {
        Some(Entailment::OWLRDFBased)
    } else if iri == "http://www.w3.org/ns/entailment/RIF"@ {
        Some(Entailment::RIF)
    } else if iri == "http://www.w3.org/ns/entailment/OWL-Direct"@ {
        Some(Entailment::OWLDirect)
    } else {
        None
    }
}

impl Entailment {
    /// Reads the IRI of an entailment regime; `None` for any other string.
    pub fn from(entailment: &str) -> (r: Option<Self>)
        ensures
            r == entailment_of(entailment@),
    {
        if str_eq(entailment, "http://www.w3.org/ns/entailment/Simple") {
            Some(Entailment::Simple)
        } else if str_eq(entailment, "http://www.w3.org/ns/entailment/RDF") {
            Some(Entailment::RDF)
        } else if str_eq(entailment, "http://www.w3.org/ns/entailment/RDFS") {
            Some(Entailment::RDFS)
        } else if str_eq(entailment, "http://www.w3.org/ns/entailment/D") {
            Some(Entailment::D)
        } else if str_eq(entailment, "http://www.w3.org/ns/entailment/OWL-RDF-Based") {
            Some(Entailment::OWLRDFBased)
        } else if str_eq(entailment, "http://www.w3.org/ns/entailment/RIF") {
            Some(Entailment::RIF)
        } else if str_eq(entailment, "http://www.w3.org/ns/entailment/OWL-Direct") {
            Some(Entailment::OWLDirect)
        } else {
            None
        }
    }
}

}
