use vstd::prelude::*;
use oxrdf::NamedNodeRef;
use crate::rdf::{RdfTerm, RdfTermV};
use crate::vocab::{RDF_LANG_STRING, XSD_STRING};

verus! {

/// A string handed over from C: a null pointer, bytes that are not UTF-8, or text.
#[derive(Debug)]
pub enum CStrArg {
    Null,
    NotUtf8,
    Text(String),
}

/// Whether `s` is an IRI that `oxrdf` accepts as a named node.
pub uninterp spec fn valid_iri(s: Seq<char>) -> bool;

/// `oxrdf::NamedNodeRef::new`: whether the string parses as an IRI. On success the
/// named node holds the string unchanged, so only the verdict is carried back.
#[verifier::external_body]
pub(crate) fn iri_is_valid(s: &str) -> (r: bool)
    ensures
        r == valid_iri(s@),
{
    NamedNodeRef::new(s).is_ok()
}

/// What a key of the blank-node map gives: the identifier it was given before, with the
/// map unchanged, or a new identifier, which the map keeps for it from now on.
pub open spec fn bnode_lookup(
    old: Map<Seq<char>, Seq<char>>,
    new: Map<Seq<char>, Seq<char>>,
    key: Seq<char>,
    id: Seq<char>,
) -> bool {
    if old.contains_key(key) {
        id == old[key] && new == old
    } else {
        new == old.insert(key, id)
    }
}

/// A map from the names that a caller gives its blank nodes to the blank nodes that
/// stand for them.
pub trait BNodeMap {
    /// The identifiers handed out so far, by key.
    spec fn bnode_map(&self) -> Map<Seq<char>, Seq<char>>;

    /// The identifier of the blank node for `key`.
    fn get_bnode(&mut self, key: &str) -> (r: String)
        ensures
            bnode_lookup(old(self).bnode_map(), final(self).bnode_map(), key@, r@),
    ;
}

pub open spec fn opt_rdf_view(r: Result<RdfTerm, ()>) -> Option<RdfTermV> {
    match r {
        Ok(t) => Some(t@),
        Err(_) => None,
    }
}

/// What the node given as `value` of kind `value_type` (0: IRI, 1: blank node) stands
/// for, with the blank-node map `old` before and `new` after; `None` where it stands for
/// no node.
pub open spec fn node_generated(
    value: CStrArg,
    value_type: u8,
    old: Map<Seq<char>, Seq<char>>,
    new: Map<Seq<char>, Seq<char>>,
    r: Option<RdfTermV>,
) -> bool {
    match value {
        CStrArg::Text(s) => if value_type == 0 {
            new == old && r == (if valid_iri(s@) { Some(RdfTermV::NamedNode(s@)) } else { None })
        } else if value_type == 1 {
            r matches Some(RdfTermV::BlankNode(b)) && bnode_lookup(old, new, s@, b)
        } else {
            new == old && r is None
        },
        _ => new == old && r is None,
    }
}

/// What the term given as `value`, `suffix` of kind `value_type` stands for (0: IRI,
/// 1: blank node, 2: literal with the datatype `suffix`, a string where there is none,
/// 3: literal with the language tag `suffix`, the empty one where there is none).
pub open spec fn term_generated(
    value: CStrArg,
    suffix: CStrArg,
    value_type: u8,
    old: Map<Seq<char>, Seq<char>>,
    new: Map<Seq<char>, Seq<char>>,
    r: Option<RdfTermV>,
) -> bool {
    if value_type == 0 || value_type == 1 {
        node_generated(value, value_type, old, new, r)
    } else {
        &&& new == old
        &&& r == match value {
            CStrArg::Text(s) => if value_type == 2 {
                match suffix {
                    CStrArg::Null => Some(RdfTermV::Literal(s@, XSD_STRING@, None)),
                    CStrArg::NotUtf8 => None,
                    CStrArg::Text(d) => if valid_iri(d@) {
                        Some(RdfTermV::Literal(s@, d@, None))
                    } else {
                        None
                    },
                }
            } else if value_type == 3 {
                match suffix {
                    CStrArg::Null => Some(RdfTermV::Literal(s@, RDF_LANG_STRING@, Some(Seq::empty()))),
                    CStrArg::NotUtf8 => None,
                    CStrArg::Text(l) => Some(RdfTermV::Literal(s@, RDF_LANG_STRING@, Some(l@))),
                }
            } else {
                None
            },
            _ => None,
        }
    }
}

/// The IRI given as `value`, where it is one.
pub open spec fn iri_generated(value: CStrArg) -> Option<Seq<char>> {
    match value {
        CStrArg::Text(s) => if valid_iri(s@) { Some(s@) } else { None },
        _ => None,
    }
}

fn text_of(value: &CStrArg) -> (r: Option<&str>)
    ensures
        match *value {
            CStrArg::Text(s) => r matches Some(t) && t@ == s@,
            _ => r is None,
        },
{
    match value {
        CStrArg::Text(s) => Some(s.as_str()),
        _ => None,
    }
}

/// The node that `value` of kind `value_type` names: an IRI (kind 0) or the blank node
/// that `map` keeps for it (kind 1).
#[allow(non_snake_case)]
pub fn generate_IdentifiedNode<M: BNodeMap>(value: &CStrArg, value_type: u8, map: &mut M) -> (r: Result<RdfTerm, ()>)
    ensures
        node_generated(*value, value_type, old(map).bnode_map(), final(map).bnode_map(), opt_rdf_view(r)),
{
    let obj = match text_of(value) {
        Some(x) => x,
        None => {
            return Err(());
        },
    };
    if value_type == 0 {
        if iri_is_valid(obj) {
            Ok(RdfTerm::NamedNode(obj.to_owned()))
        } else {
            Err(())
        }
    } else if value_type == 1 {
        Ok(RdfTerm::BlankNode(map.get_bnode(obj)))
    } else {
        Err(())
    }
}

/// The term that `value`, `value_suffix` of kind `value_type` names (see
/// [`term_generated`]).
#[allow(non_snake_case)]
pub fn generate_Term<M: BNodeMap>(
    value: &CStrArg,
    value_suffix: &CStrArg,
    value_type: u8,
    map: &mut M,
) -> (r: Result<RdfTerm, ()>)
    ensures
        term_generated(*value, *value_suffix, value_type, old(map).bnode_map(), final(map).bnode_map(), opt_rdf_view(r)),
{
    if value_type == 0 || value_type == 1 {
        return generate_IdentifiedNode(value, value_type, map);
    }
    let obj = match text_of(value) {
        Some(x) => x,
        None => {
            return Err(());
        },
    };
    if value_type == 2 {
        match value_suffix {
            CStrArg::Null => Ok(RdfTerm::Literal(obj.to_owned(), XSD_STRING.to_owned(), None)),
            CStrArg::NotUtf8 => Err(()),
            CStrArg::Text(suf) => {
                if iri_is_valid(suf.as_str()) {
                    Ok(RdfTerm::Literal(obj.to_owned(), suf.clone(), None))
                } else {
                    Err(())
                }
            },
        }
    } else if value_type == 3 {
        match value_suffix {
            CStrArg::Null => Ok(RdfTerm::Literal(obj.to_owned(), RDF_LANG_STRING.to_owned(), Some(String::new()))),
            CStrArg::NotUtf8 => Err(()),
            CStrArg::Text(suf) => Ok(RdfTerm::Literal(obj.to_owned(), RDF_LANG_STRING.to_owned(), Some(suf.clone()))),
        }
    } else {
        Err(())
    }
}

/// The IRI that `value` names.
#[allow(non_snake_case)]
pub fn generate_IRI(value: &CStrArg) -> (r: Result<String, ()>)
    ensures
        match iri_generated(*value) {
            Some(s) => r matches Ok(x) && x@ == s,
            None => r is Err,
        },
{
    match text_of(value) {
        Some(x) => if iri_is_valid(x) {
            Ok(x.to_owned())
        } else {
            Err(())
        },
        None => Err(()),
    }
}

/// The graph a quad belongs to: the default graph, or one named by a node.
#[derive(Debug)]
pub enum GraphName {
    DefaultGraph,
    NamedNode(String),
    BlankNode(String),
}

/// The graph that `graph_id` of kind `graph_type` names: the default graph where there
/// is no name, else as [`generate_IdentifiedNode`].
#[allow(non_snake_case)]
pub fn generate_Graph<M: BNodeMap>(graph_id: &CStrArg, graph_type: u8, map: &mut M) -> (r: Result<GraphName, ()>)
    ensures
        match *graph_id {
            CStrArg::Null => r matches Ok(GraphName::DefaultGraph) && final(map).bnode_map() == old(map).bnode_map(),
            _ => node_generated(*graph_id, graph_type, old(map).bnode_map(), final(map).bnode_map(),
                match r {
                    Ok(GraphName::NamedNode(s)) => Some(RdfTermV::NamedNode(s@)),
                    Ok(GraphName::BlankNode(s)) => Some(RdfTermV::BlankNode(s@)),
                    _ => None,
                }),
        },
        r matches Ok(GraphName::DefaultGraph) ==> *graph_id is Null,
{
    if let CStrArg::Null = graph_id {
        return Ok(GraphName::DefaultGraph);
    }
    match generate_IdentifiedNode(graph_id, graph_type, map) {
        Ok(RdfTerm::NamedNode(s)) => Ok(GraphName::NamedNode(s)),
        Ok(RdfTerm::BlankNode(s)) => Ok(GraphName::BlankNode(s)),
        _ => Err(()),
    }
}

} // verus!
