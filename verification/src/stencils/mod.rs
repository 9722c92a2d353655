//! Built-in draw.io stencil catalog.
//!
//! draw.io's shape libraries (AWS, Azure, GCP, network, Kubernetes, UML,
//! BPMN, mockups…) are bundled in the app and referenced purely by a
//! `shape=` style token, so only the token is emitted here.

pub mod catalog;

use vstd::prelude::*;

use crate::engine::{first_index, lemma_first_index, lemma_first_index_at, lemma_first_index_push};
use crate::text::{
    chars_of, chars_eq, eq_lit, find_lit, find_spec, lower_of, lower_spec, occurs_at, owned,
    push_chars, push_str, slice_of, starts_with, string_of, to_lower, trim, trim_spec,
};
pub use catalog::{catalog, catalog_spec};

verus! {

/// Catalog entry: friendly key, mxgraph path, human description.
#[derive(Debug, Clone, Copy)]
pub struct Entry {
    pub key: &'static str,
    pub path: &'static str,
    pub desc: &'static str,
}

/// A resolved stencil: the draw.io `shape=` token body and its library.
#[derive(Debug)]
pub struct Resolved {
    pub shape: String,
    pub library: Library,
}

#[derive(Debug, Clone, Copy, PartialEq, Eq, Structural)]
pub enum Library {
    Aws,
    Azure,
    Gcp,
    Network,
    Kubernetes,
    Uml,
    Er,
    Bpmn,
    Mockup,
    Other,
}

/// `s` without the prefix `p` when it starts with it (`str::strip_prefix`
/// followed by `unwrap_or(s)`).
pub open spec fn strip_prefix_or_self(s: Seq<char>, p: Seq<char>) -> Seq<char> {
    if occurs_at(s, p, 0) {
        s.skip(p.len() as int)
    } else {
        s
    }
}

/// The text before the first `.` (`s.split('.').next()`).
pub open spec fn first_segment(s: Seq<char>) -> Seq<char> {
    match find_spec(s, "."@) {
        Some(i) => s.take(i),
        None => s,
    }
}

fn strip_prefix_lit(v: &Vec<char>, p: &str) -> (r: Vec<char>)
    ensures
        r@ == strip_prefix_or_self(v@, p@),
{
    if starts_with(v, p) {
        let pv = chars_of(p);
        slice_of(v, pv.len(), v.len())
    } else {
        let r = slice_of(v, 0, v.len());
        assert(r@ =~= v@);
        r
    }
}

fn first_segment_of(v: &Vec<char>) -> (r: Vec<char>)
    ensures
        r@ == first_segment(v@),
{
    match find_lit(v, ".") {
        Some(i) => {
            proof {
                crate::text::lemma_find_from_bounds(v@, "."@, 0);
            }
            slice_of(v, 0, i)
        },
        None => {
            let r = slice_of(v, 0, v.len());
            assert(r@ =~= v@);
            r
        },
    }
}

impl Library {
    /// The library named by the first segment of a path (after an optional
    /// `mxgraph.` prefix).
    pub open spec fn from_path_spec(path: Seq<char>) -> Library {
        let seg = first_segment(strip_prefix_or_self(path, "mxgraph."@));
        if seg == "aws4"@ || seg == "aws3"@ || seg == "aws"@ {
            Library::Aws
        } else if seg == "azure"@ || seg == "mscae"@ {
            Library::Azure
        } else if seg == "gcp2"@ || seg == "gcp"@ {
            Library::Gcp
        } else if seg == "cisco"@ || seg == "cisco19"@ || seg == "networks"@ || seg == "rack"@ {
            Library::Network
        } else if seg == "kubernetes"@ {
            Library::Kubernetes
        } else if seg == "uml"@ || seg == "umlActor"@ || seg == "umlLifeline"@ || seg
            == "umlBoundary"@ || seg == "umlControl"@ || seg == "umlEntity"@ || seg
            == "umlFrame"@ {
            Library::Uml
        } else if seg == "er"@ {
            Library::Er
        } else if seg == "bpmn"@ || seg == "bpmn2"@ {
            Library::Bpmn
        } else if seg == "mockup"@ {
            Library::Mockup
        } else {
            Library::Other
        }
    }

    fn from_chars(path: &Vec<char>) -> (r: Library)
        ensures
            r == Library::from_path_spec(path@),
    {
        let stripped = strip_prefix_lit(path, "mxgraph.");
        let seg = first_segment_of(&stripped);
        if eq_lit(&seg, "aws4") || eq_lit(&seg, "aws3") || eq_lit(&seg, "aws") {
            Library::Aws
        } else if eq_lit(&seg, "azure") || eq_lit(&seg, "mscae") {
            Library::Azure
        } else if eq_lit(&seg, "gcp2") || eq_lit(&seg, "gcp") {
            Library::Gcp
        } else if eq_lit(&seg, "cisco") || eq_lit(&seg, "cisco19") || eq_lit(&seg, "networks")
            || eq_lit(&seg, "rack") {
            Library::Network
        } else if eq_lit(&seg, "kubernetes") {
            Library::Kubernetes
        } else if eq_lit(&seg, "uml") || eq_lit(&seg, "umlActor") || eq_lit(&seg, "umlLifeline")
            || eq_lit(&seg, "umlBoundary") || eq_lit(&seg, "umlControl") || eq_lit(
            &seg,
            "umlEntity",
        ) || eq_lit(&seg, "umlFrame") {
            Library::Uml
        } else if eq_lit(&seg, "er") {
            Library::Er
        } else if eq_lit(&seg, "bpmn") || eq_lit(&seg, "bpmn2") {
            Library::Bpmn
        } else if eq_lit(&seg, "mockup") {
            Library::Mockup
        } else {
            Library::Other
        }
    }

    /// The library a stencil path belongs to.
    pub fn from_path(path: &str) -> (r: Library)
        ensures
            r == Library::from_path_spec(path@),
    {
        let v = chars_of(path);
        Library::from_chars(&v)
    }

    pub open spec fn base_style_spec(self) -> Seq<char> {
        match self {
            Library::Aws => "sketch=0;outlineConnect=0;fontColor=#232F3E;gradientColor=none;fillColor=#E7157B;strokeColor=none;dashed=0;verticalLabelPosition=bottom;verticalAlign=top;align=center;html=1;"@,
            Library::Azure | Library::Gcp => "sketch=0;outlineConnect=0;html=1;align=center;verticalLabelPosition=bottom;verticalAlign=top;"@,
            Library::Network => "outlineConnect=0;html=1;align=center;verticalLabelPosition=bottom;verticalAlign=top;"@,
            Library::Kubernetes => "html=1;align=center;verticalLabelPosition=bottom;verticalAlign=top;"@,
            _ => "html=1;whiteSpace=wrap;"@,
        }
    }

    /// The draw.io base style fragment for the library (trailing `;`).
    pub fn base_style(self) -> (r: &'static str)
        ensures
            r@ == self.base_style_spec(),
    {
        match self {
            Library::Aws => "sketch=0;outlineConnect=0;fontColor=#232F3E;gradientColor=none;fillColor=#E7157B;strokeColor=none;dashed=0;verticalLabelPosition=bottom;verticalAlign=top;align=center;html=1;",
            Library::Azure | Library::Gcp => "sketch=0;outlineConnect=0;html=1;align=center;verticalLabelPosition=bottom;verticalAlign=top;",
            Library::Network => "outlineConnect=0;html=1;align=center;verticalLabelPosition=bottom;verticalAlign=top;",
            Library::Kubernetes => "html=1;align=center;verticalLabelPosition=bottom;verticalAlign=top;",
            _ => "html=1;whiteSpace=wrap;",
        }
    }

    pub open spec fn label_spec(self) -> Seq<char> {
        match self {
            Library::Aws => "aws"@,
            Library::Azure => "azure"@,
            Library::Gcp => "gcp"@,
            Library::Network => "network"@,
            Library::Kubernetes => "kubernetes"@,
            Library::Uml => "uml"@,
            Library::Er => "er"@,
            Library::Bpmn => "bpmn"@,
            Library::Mockup => "mockup"@,
            Library::Other => "other"@,
        }
    }

    /// The library's category name.
    pub fn label(self) -> (r: &'static str)
        ensures
            r@ == self.label_spec(),
    {
        match self {
            Library::Aws => "aws",
            Library::Azure => "azure",
            Library::Gcp => "gcp",
            Library::Network => "network",
            Library::Kubernetes => "kubernetes",
            Library::Uml => "uml",
            Library::Er => "er",
            Library::Bpmn => "bpmn",
            Library::Mockup => "mockup",
            Library::Other => "other",
        }
    }
}

/// The `shape=` token for an mxgraph path: AWS4 resource icons use the
/// `resourceIcon` shape with a `resIcon` reference, dotted paths get a
/// `shape=` prefix, and a bare draw.io shape name is used as is.
pub open spec fn make_shape(path: Seq<char>) -> Seq<char> {
    if Library::from_path_spec(path) == Library::Aws && occurs_at(path, "mxgraph.aws4."@, 0) {
        "shape=mxgraph.aws4.resourceIcon;resIcon="@ + path
    } else if find_spec(path, "."@) is Some {
        "shape="@ + path
    } else {
        path
    }
}

/// Build a `Resolved` from an mxgraph path.
fn make(path: &Vec<char>) -> (r: Resolved)
    ensures
        r.shape@ == make_shape(path@),
        r.library == Library::from_path_spec(path@),
{
    let library = Library::from_chars(path);
    let shape = if library == Library::Aws && starts_with(path, "mxgraph.aws4.") {
        let mut s = owned("shape=mxgraph.aws4.resourceIcon;resIcon=");
        push_chars(&mut s, path);
        s
    } else if find_lit(path, ".").is_some() {
        let mut s = owned("shape=");
        push_chars(&mut s, path);
        s
    } else {
        string_of(path)
    };
    Resolved { shape, library }
}

pub open spec fn lowered_keys(es: Seq<Entry>) -> Seq<Seq<char>> {
    es.map_values(|e: Entry| lower_spec(e.key@))
}

/// The catalog entry whose key matches `k` ignoring ASCII case.
pub open spec fn catalog_hit(k: Seq<char>) -> Option<int> {
    first_index(lowered_keys(catalog_spec()), lower_spec(k))
}

/// What a stencil key or raw token resolves to: `None` for a blank key;
/// the catalog entry's path when the trimmed key names one (ignoring ASCII
/// case); otherwise the trimmed text itself, less an optional `shape=`.
pub open spec fn resolve_spec(key: Seq<char>) -> Option<(Seq<char>, Library)> {
    let k = trim_spec(key);
    if k.len() == 0 {
        None
    } else {
        let path = match catalog_hit(k) {
            Some(i) => catalog_spec()[i].path@,
            None => strip_prefix_or_self(k, "shape="@),
        };
        Some((make_shape(path), Library::from_path_spec(path)))
    }
}

fn find_catalog(es: &Vec<Entry>, k: &Vec<char>) -> (r: Option<usize>)
    ensures
        match r {
            Some(i) => first_index(lowered_keys(es@), lower_spec(k@)) == Some(i as int) && i
                < es@.len(),
            None => first_index(lowered_keys(es@), lower_spec(k@)) is None,
        },
{
    let lk = to_lower(k);
    let mut i: usize = 0;
    while i < es.len()
        invariant
            i <= es@.len(),
            lk@ == lower_spec(k@),
            first_index(lowered_keys(es@).take(i as int), lk@) is None,
        decreases es@.len() - i,
    {
        proof {
            lemma_first_index_push(lowered_keys(es@).take(i as int), lower_spec(es@[i as int].key@), lk@);
            assert(lowered_keys(es@).take(i as int).push(lower_spec(es@[i as int].key@))
                =~= lowered_keys(es@).take(i + 1));
        }
        let ek = lower_of(es[i].key);
        if chars_eq(&ek, &lk) {
            proof {
                lemma_first_index(lowered_keys(es@).take(i as int), lk@);
                assert forall|j: int| 0 <= j < i implies lowered_keys(es@)[j] != lk@ by {
                    assert(lowered_keys(es@).take(i as int)[j] == lowered_keys(es@)[j]);
                }
                lemma_first_index_at(lowered_keys(es@), lk@, i as int);
            }
            return Some(i);
        }
        i += 1;
    }
    assert(lowered_keys(es@).take(es@.len() as int) =~= lowered_keys(es@));
    None
}

/// Resolve a stencil key or raw token into a draw.io `shape=` body and
/// library. Returns `None` only for a blank key.
pub fn resolve(key: &str) -> (r: Option<Resolved>)
    ensures
        match resolve_spec(key@) {
            None => r is None,
            Some((shape, lib)) => r matches Some(x) && x.shape@ == shape && x.library == lib,
        },
{
    let kv = chars_of(key);
    let k = trim(&kv);
    if k.len() == 0 {
        return None;
    }
    let es = catalog();
    match find_catalog(&es, &k) {
        Some(i) => {
            let path = chars_of(es[i].path);
            Some(make(&path))
        },
        None => {
            let raw = strip_prefix_lit(&k, "shape=");
            Some(make(&raw))
        },
    }
}

/// Full draw.io style for a resolved stencil (token, `;`, library base style).
pub fn drawio_base(r: &Resolved) -> (s: String)
    ensures
        s@ == r.shape@ + ";"@ + r.library.base_style_spec(),
{
    let mut s = owned(r.shape.as_str());
    push_str(&mut s, ";");
    push_str(&mut s, r.library.base_style());
    s
}

/// Whether an entry passes the `list_stencils` filters: its library label
/// equals the (lower-cased) category or its key starts with it; and its key,
/// or its lower-cased description, contains the (lower-cased) query.
pub open spec fn entry_matches(e: Entry, cat: Option<Seq<char>>, q: Option<Seq<char>>) -> bool {
    &&& match cat {
        Some(c) => Library::from_path_spec(e.path@).label_spec() == c || occurs_at(e.key@, c, 0),
        None => true,
    }
    &&& match q {
        Some(q) => find_spec(e.key@, q) is Some || find_spec(lower_spec(e.desc@), q) is Some,
        None => true,
    }
}

pub open spec fn lowered(s: Option<&str>) -> Option<Seq<char>> {
    match s {
        Some(x) => Some(lower_spec(x@)),
        None => None,
    }
}

pub open spec fn matches_filter(cat: Option<Seq<char>>, q: Option<Seq<char>>) -> spec_fn(Entry) -> bool {
    |e: Entry| entry_matches(e, cat, q)
}

fn lower_opt(s: Option<&str>) -> (r: Option<Vec<char>>)
    ensures
        match r {
            Some(v) => lowered(s) == Some(v@),
            None => s is None,
        },
{
    match s {
        Some(x) => Some(lower_of(x)),
        None => None,
    }
}

fn opt_view(v: &Option<Vec<char>>) -> (r: Ghost<Option<Seq<char>>>)
    ensures
        r@ == match v {
            Some(x) => Some(x@),
            None => None,
        },
{
    Ghost(
        match v {
            Some(x) => Some(x@),
            None => None,
        },
    )
}

/// The catalog entries passing the `list_stencils` filters, in catalog order.
pub fn list_matches(category: Option<&str>, query: Option<&str>) -> (r: Vec<Entry>)
    ensures
        r@ == catalog_spec().filter(matches_filter(lowered(category), lowered(query))),
{
    let cat = lower_opt(category);
    let q = lower_opt(query);
    let ghost pred = matches_filter(lowered(category), lowered(query));
    let es = catalog();
    let mut out: Vec<Entry> = Vec::new();
    let mut i: usize = 0;
    assert(es@.take(0).filter(pred) =~= Seq::<Entry>::empty()) by {
        reveal(Seq::filter);
    }
    while i < es.len()
        invariant
            i <= es@.len(),
            es@ == catalog_spec(),
            out@ == es@.take(i as int).filter(pred),
            pred == matches_filter(lowered(category), lowered(query)),
            match cat {
                Some(c) => lowered(category) == Some(c@),
                None => category is None,
            },
            match q {
                Some(x) => lowered(query) == Some(x@),
                None => query is None,
            },
        decreases es@.len() - i,
    {
        let e = es[i];
        let path = chars_of(e.path);
        let key = chars_of(e.key);
        let cat_ok = match &cat {
            Some(c) => {
                let lib = chars_of(Library::from_chars(&path).label());
                chars_eq(&lib, c) || crate::text::matches_at(&key, 0, c)
            },
            None => true,
        };
        let q_ok = match &q {
            Some(x) => {
                let desc = lower_of(e.desc);
                crate::text::find_vec_from(&key, x, 0).is_some()
                    || crate::text::find_vec_from(&desc, x, 0).is_some()
            },
            None => true,
        };
        proof {
            reveal(Seq::filter);
            assert(es@.take(i + 1).drop_last() =~= es@.take(i as int));
            assert((cat_ok && q_ok) == pred(e));
        }
        if cat_ok && q_ok {
            out.push(e);
        }
        i += 1;
    }
    assert(es@.take(es@.len() as int) =~= es@);
    out
}

} // verus!
