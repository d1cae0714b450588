use vstd::prelude::*;

verus! {

pub const RDF_TYPE: &'static str = "http://www.w3.org/1999/02/22-rdf-syntax-ns#type";
pub const RDF_FIRST: &'static str = "http://www.w3.org/1999/02/22-rdf-syntax-ns#first";
pub const RDF_REST: &'static str = "http://www.w3.org/1999/02/22-rdf-syntax-ns#rest";
pub const RDF_NIL: &'static str = "http://www.w3.org/1999/02/22-rdf-syntax-ns#nil";
pub const RDF_LANG_STRING: &'static str = "http://www.w3.org/1999/02/22-rdf-syntax-ns#langString";
pub const RDFS_SUB_CLASS_OF: &'static str = "http://www.w3.org/2000/01/rdf-schema#subClassOf";
pub const XSD_STRING: &'static str = "http://www.w3.org/2001/XMLSchema#string";
pub const XSD_ANY_URI: &'static str = "http://www.w3.org/2001/XMLSchema#anyURI";

pub const RIF_CONST: &'static str = "http://www.w3.org/2007/rif#Const";
pub const RIF_LIST: &'static str = "http://www.w3.org/2007/rif#List";
pub const RIF_ATOM: &'static str = "http://www.w3.org/2007/rif#Atom";
pub const RIF_FRAME: &'static str = "http://www.w3.org/2007/rif#Frame";
pub const RIF_SUBCLASS: &'static str = "http://www.w3.org/2007/rif#Subclass";
pub const RIF_MEMBER: &'static str = "http://www.w3.org/2007/rif#Member";
pub const RIF_EQUAL: &'static str = "http://www.w3.org/2007/rif#Equal";
pub const RIF_VAR: &'static str = "http://www.w3.org/2007/rif#Var";
pub const RIF_DOCUMENT: &'static str = "http://www.w3.org/2007/rif#Document";
pub const RIF_GROUP: &'static str = "http://www.w3.org/2007/rif#Group";

pub const RIF_PAYLOAD: &'static str = "http://www.w3.org/2007/rif#payload";
pub const RIF_SENTENCES: &'static str = "http://www.w3.org/2007/rif#sentences";
pub const RIF_OP: &'static str = "http://www.w3.org/2007/rif#op";
pub const RIF_ARGS: &'static str = "http://www.w3.org/2007/rif#args";
pub const RIF_SLOTS: &'static str = "http://www.w3.org/2007/rif#slots";
pub const RIF_OBJECT: &'static str = "http://www.w3.org/2007/rif#object";
pub const RIF_SLOTKEY: &'static str = "http://www.w3.org/2007/rif#slotkey";
pub const RIF_SLOTVALUE: &'static str = "http://www.w3.org/2007/rif#slotvalue";
pub const RIF_LEFT: &'static str = "http://www.w3.org/2007/rif#left";
pub const RIF_RIGHT: &'static str = "http://www.w3.org/2007/rif#right";
pub const RIF_INSTANCE: &'static str = "http://www.w3.org/2007/rif#instance";
pub const RIF_CLASS: &'static str = "http://www.w3.org/2007/rif#class";
pub const RIF_SUB: &'static str = "http://www.w3.org/2007/rif#sub";
pub const RIF_SUPER: &'static str = "http://www.w3.org/2007/rif#super";
pub const RIF_CONSTIRI: &'static str = "http://www.w3.org/2007/rif#constIRI";
pub const RIF_VALUE: &'static str = "http://www.w3.org/2007/rif#value";
pub const RIF_ITEMS: &'static str = "http://www.w3.org/2007/rif#items";
pub const RIF_VARNAME: &'static str = "http://www.w3.org/2007/rif#varname";

}
