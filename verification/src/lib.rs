use vstd::prelude::*;

pub mod entailment_map;
pub mod error;
pub mod export_functions;
pub mod extern_c_structs;
pub mod formula_call_rdf_hook;
pub mod genterms;
pub mod interpreter;
pub mod laws;
pub mod query_laws;
pub mod rdf;
pub mod rdfhelper;
pub mod rifidata;
pub mod rififormulas;
pub mod rifigraph;
pub mod text;
pub mod vocab;
