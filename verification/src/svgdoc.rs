//! The elements of an SVG document. They come from the `svg` crate; what
//! this module states of them is taken on trust.

use svg::node::element::Path as PathElement;
use svg::node::element::{Group, SVG};
use vstd::prelude::*;

verus! {

/// The `svg` element of the `svg` crate: a whole document.
#[verifier::external_type_specification]
#[verifier::external_body]
pub struct ExSvg(SVG);

/// The `g` element of the `svg` crate: a group of elements.
#[verifier::external_type_specification]
#[verifier::external_body]
pub struct ExGroup(Group);

/// The `path` element of the `svg` crate.
#[verifier::external_type_specification]
#[verifier::external_body]
pub struct ExPathElement(PathElement);

/// The attributes of a `path` element: the value that was last assigned to
/// each name.
pub uninterp spec fn path_attributes(path: PathElement) -> Map<Seq<char>, Seq<char>>;

/// The attributes of a group.
pub uninterp spec fn group_attributes(group: Group) -> Map<Seq<char>, Seq<char>>;

/// The children of a group in the order in which they were appended, each
/// child taken by the name of its element and by its attributes.
pub uninterp spec fn group_children(group: Group) -> Seq<(Seq<char>, Map<Seq<char>, Seq<char>>)>;

/// The attributes of a document.
pub uninterp spec fn document_attributes(document: SVG) -> Map<Seq<char>, Seq<char>>;

/// The children of a document in the order in which they were appended,
/// each child taken by the name of its element, by its attributes, and by
/// the name and the attributes of each of its own children.
pub uninterp spec fn document_children(document: SVG) -> Seq<
    (Seq<char>, Map<Seq<char>, Seq<char>>, Seq<(Seq<char>, Map<Seq<char>, Seq<char>>)>),
>;

/// `Path::new` of `svg::node::element`: a `path` element without
/// attributes.
#[verifier::external_body]
pub(crate) fn path_element_new() -> (path: PathElement)
    ensures
        path_attributes(path) =~= Map::empty(),
{
    PathElement::new()
}

/// `Path::set`: the element with the value assigned to the name, in place
/// of what the name had before.
#[verifier::external_body]
pub(crate) fn path_element_set(path: PathElement, name: &str, value: &str) -> (r:
    PathElement)
    ensures
        path_attributes(r) == path_attributes(path).insert(name@, value@),
{
    path.set(name, value)
}

/// `Group::new`: a group without attributes and without children.
#[verifier::external_body]
pub(crate) fn group_new() -> (group: Group)
    ensures
        group_attributes(group) =~= Map::empty(),
        group_children(group) =~= Seq::empty(),
{
    Group::new()
}

/// `Group::set`: the group with the value assigned to the name, in place of
/// what the name had before; its children stay.
#[verifier::external_body]
pub(crate) fn group_set(group: Group, name: &str, value: &str) -> (r: Group)
    ensures
        group_attributes(r) == group_attributes(group).insert(name@, value@),
        group_children(r) == group_children(group),
{
    group.set(name, value)
}

/// `Group::add`: the group with the element appended as its last child;
/// its attributes stay. The name of a `Path` is `path`.
#[verifier::external_body]
pub(crate) fn group_add(group: Group, path: PathElement) -> (r: Group)
    ensures
        group_attributes(r) == group_attributes(group),
        group_children(r) == group_children(group).push(("path"@, path_attributes(path))),
{
    group.add(path)
}

/// `SVG::new`: a document without children, whose one attribute names the
/// SVG namespace.
#[verifier::external_body]
pub(crate) fn document_new() -> (document: SVG)
    ensures
        document_attributes(document) =~= Map::empty().insert(
            "xmlns"@,
            "http://www.w3.org/2000/svg"@,
        ),
        document_children(document) =~= Seq::empty(),
{
    SVG::new()
}

/// `SVG::set`: the document with the value assigned to the name, in place
/// of what the name had before; its children stay.
#[verifier::external_body]
pub(crate) fn document_set(document: SVG, name: &str, value: &str) -> (r: SVG)
    ensures
        document_attributes(r) == document_attributes(document).insert(name@, value@),
        document_children(r) == document_children(document),
{
    document.set(name, value)
}

/// `SVG::add`: the document with the group appended as its last child; its
/// attributes stay. The name of a `Group` is `g`.
#[verifier::external_body]
pub(crate) fn document_add(document: SVG, group: Group) -> (r: SVG)
    ensures
        document_attributes(r) == document_attributes(document),
        document_children(r) == document_children(document).push(
            ("g"@, group_attributes(group), group_children(group)),
        ),
{
    document.add(group)
}

} // verus!
