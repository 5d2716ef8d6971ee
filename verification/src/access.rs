//! Navigation in a finished tree, by the names of the children.
//!
//! The errors of navigation are a domain of their own: they say why a query
//! could not be answered, not why bytes could not be dissected.

use crate::error::{DissectError, Fault};
use crate::text::{same_text, slices, split, split_text};
use crate::value::{first_position, lemma_first_position, trees, Tree, Val};
use vstd::prelude::*;
use vstd::string::*;

verus! {

/// The mathematical value of an [`AccessError`].
pub enum AccessFault {
    NotFound(Seq<char>),
    DissectError(Seq<char>),
    LeafVariant(Seq<char>),
}

/// Why a query against a tree could not be answered. Every variant carries a
/// description.
#[derive(Debug)]
pub enum AccessError {
    /// No child has the requested name.
    NotFound(String),
    /// The path leads into a payload that failed to dissect.
    DissectError(String),
    /// The path leads into a node that has no children.
    LeafVariant(String),
}

impl View for AccessError {
    type V = AccessFault;

    open spec fn view(&self) -> AccessFault {
        match self {
            AccessError::NotFound(description) => AccessFault::NotFound(description@),
            AccessError::DissectError(description) => AccessFault::DissectError(description@),
            AccessError::LeafVariant(description) => AccessFault::LeafVariant(description@),
        }
    }
}

impl AccessFault {
    /// The description that the error carries.
    pub open spec fn description(self) -> Seq<char> {
        match self {
            AccessFault::NotFound(description) => description,
            AccessFault::DissectError(description) => description,
            AccessFault::LeafVariant(description) => description,
        }
    }

    /// The error as a reader sees it.
    pub open spec fn text(self) -> Seq<char> {
        "access error: "@ + self.description()
    }
}

/// The names of the children, in their order.
pub open spec fn names_of(children: Seq<(Seq<char>, Tree)>) -> Seq<Seq<char>> {
    Seq::new(children.len(), |i: int| children[i].0)
}

/// What is said of a name that no child of `tree` has.
pub open spec fn not_found_text(name: Seq<char>, tree: Tree) -> Seq<char> {
    "no value for index '"@ + name + "' found in: "@ + tree.debug_text()
}

/// What is said of a failed payload that was asked for `name`.
pub open spec fn dissect_error_text(name: Seq<char>, fault: Fault) -> Seq<char> {
    "Val::Payload under index '"@ + name + "' contains error: "@ + fault.text()
}

/// What is said of a node without children that was asked for a child.
pub open spec fn leaf_variant_text(tree: Tree) -> Seq<char> {
    "index on non Val::Object variant: "@ + tree.debug_text()
}

/// The mathematical value of the answer to a query.
pub open spec fn answer<'val, 'data>(result: Result<&'val Val<'data>, AccessError>) -> Result<
    Tree,
    AccessFault,
> {
    match result {
        Ok(val) => Ok(val@),
        Err(error) => Err(error@),
    }
}

impl Tree {
    /// The child called `name`. Of an object it is the first child with that
    /// name. A payload that succeeded answers for the tree that it embeds, one
    /// that failed refuses with its error, and every other node has no children.
    pub open spec fn get(self, name: Seq<char>) -> Result<Tree, AccessFault>
        decreases self,
    {
        match self {
            Tree::Object(children) => match first_position(names_of(children), name) {
                Some(at) => Ok(children[at].1),
                None => Err(AccessFault::NotFound(not_found_text(name, self))),
            },
            Tree::Payload(Ok(inner)) => inner.get(name),
            Tree::Payload(Err(fault)) => Err(
                AccessFault::DissectError(dissect_error_text(name, fault)),
            ),
            _ => Err(AccessFault::LeafVariant(leaf_variant_text(self))),
        }
    }

    /// The node that the names lead to, one `get` after the other. The first
    /// refusal on the way is the answer.
    pub open spec fn get_path(self, names: Seq<Seq<char>>) -> Result<Tree, AccessFault>
        decreases names.len(),
    {
        if names.len() == 0 {
            Ok(self)
        } else {
            match self.get_path(names.drop_last()) {
                Ok(tree) => tree.get(names.last()),
                Err(fault) => Err(fault),
            }
        }
    }

    /// The node that a path of names with dots between them leads to, if it
    /// leads to one.
    pub open spec fn lookup(self, path: Seq<char>) -> Option<Tree> {
        match self.get_path(split(path, '.')) {
            Ok(tree) => Some(tree),
            Err(_) => None,
        }
    }
}

/// The three refusals of `get`, each on the nodes that it belongs to: an
/// object without a child of the name answers `NotFound`, a failed payload
/// `DissectError`, and a node that is neither object nor payload `LeafVariant`.
pub proof fn lemma_get_refusals(tree: Tree, name: Seq<char>)
    ensures
        tree matches Tree::Object(children) && !names_of(children).contains(name)
            ==> tree.get(name) matches Err(AccessFault::NotFound(_)),
        tree matches Tree::Payload(Err(fault)) ==> tree.get(name) matches Err(
            AccessFault::DissectError(_),
        ),
        !(tree is Object) && !(tree is Payload) ==> tree.get(name) matches Err(
            AccessFault::LeafVariant(_),
        ),
{
    if let Tree::Object(children) = tree {
        if !names_of(children).contains(name) {
            lemma_first_position(names_of(children), name, children.len() as int);
        }
    }
}

impl AccessError {
    /// The error for a name that no child of `val` has.
    pub fn not_found(index: &str, val: &Val) -> (error: AccessError)
        ensures
            error@ == AccessFault::NotFound(not_found_text(index@, val@)),
    {
        let mut description = String::from_str("no value for index '");
        description.append(index);
        description.append("' found in: ");
        description.append(val.debug_string().as_str());
        AccessError::NotFound(description)
    }

    /// The error for a failed payload that was asked for the child `index`.
    pub fn dissect_error(index: &str, error: &DissectError) -> (refusal: AccessError)
        ensures
            refusal@ == AccessFault::DissectError(dissect_error_text(index@, error@)),
    {
        let mut description = String::from_str("Val::Payload under index '");
        description.append(index);
        description.append("' contains error: ");
        description.append(error.to_string().as_str());
        AccessError::DissectError(description)
    }

    /// The error for a node without children that was asked for a child.
    pub fn leaf_variant(val: &Val) -> (error: AccessError)
        ensures
            error@ == AccessFault::LeafVariant(leaf_variant_text(val@)),
    {
        let mut description = String::from_str("index on non Val::Object variant: ");
        description.append(val.debug_string().as_str());
        AccessError::LeafVariant(description)
    }

    /// The description that the error carries.
    pub fn description(&self) -> (text: &str)
        ensures
            text@ == self@.description(),
    {
        match self {
            AccessError::NotFound(description) => description.as_str(),
            AccessError::DissectError(description) => description.as_str(),
            AccessError::LeafVariant(description) => description.as_str(),
        }
    }

    /// The error as a reader sees it.
    pub fn to_string(&self) -> (out: String)
        ensures
            out@ == self@.text(),
    {
        let mut out = String::from_str("access error: ");
        out.append(self.description());
        out
    }
}

impl<'data> Val<'data> {
    /// The child called `index`: of an object the first child with that name,
    /// of a payload that succeeded the child of the value that it embeds.
    pub fn get<'val>(&'val self, index: &str) -> (result: Result<&'val Val<'data>, AccessError>)
        ensures
            answer(result) == self@.get(index@),
        decreases self,
    {
        match self {
            Val::Object(values) => {
                let ghost names = names_of(trees(values@));
                let mut at: usize = 0;
                while at < values.len()
                    invariant
                        at <= values@.len(),
                        self@ == Tree::Object(trees(values@)),
                        names == names_of(trees(values@)),
                        forall|j: int| 0 <= j < at ==> names[j] != index@,
                    decreases values@.len() - at,
                {
                    if same_text(values[at].0, index) {
                        proof {
                            assert(trees(values@)[at as int] == (
                                values@[at as int].0@,
                                values@[at as int].1@,
                            ));
                            lemma_first_position(names, index@, at as int);
                        }
                        return Ok(&values[at].1);
                    }
                    at += 1;
                }
                proof {
                    lemma_first_position(names, index@, at as int);
                }
                Err(AccessError::not_found(index, self))
            },
            Val::Payload(Ok(val)) => val.get(index),
            Val::Payload(Err(error)) => Err(AccessError::dissect_error(index, error)),
            _ => Err(AccessError::leaf_variant(self)),
        }
    }

    /// The value that the names lead to, one `get` after the other, or the
    /// first error on the way.
    pub fn get_path<'val>(&'val self, keys: &[&str]) -> (result: Result<
        &'val Val<'data>,
        AccessError,
    >)
        ensures
            answer(result) == self@.get_path(slices(keys@)),
    {
        let ghost names = slices(keys@);
        let mut val: &'val Val<'data> = self;
        let mut at: usize = 0;
        proof {
            assert(names.take(0) =~= Seq::empty());
        }
        while at < keys.len()
            invariant
                at <= keys@.len(),
                names == slices(keys@),
                self@.get_path(names.take(at as int)) == Ok::<Tree, AccessFault>(val@),
            decreases keys@.len() - at,
        {
            proof {
                assert(names.take(at + 1).drop_last() =~= names.take(at as int));
                assert(names.take(at + 1).last() == keys@[at as int]@);
            }
            match val.get(keys[at]) {
                Ok(next) => {
                    val = next;
                },
                Err(error) => {
                    proof {
                        lemma_get_path_stays_refused(self@, names, at + 1);
                    }
                    return Err(error);
                },
            }
            at += 1;
        }
        proof {
            assert(names.take(at as int) =~= names);
        }
        Ok(val)
    }

    /// The value that a path of names with dots between them leads to. Every
    /// error on the way is an absence.
    pub fn lookup<'val>(&'val self, path: &str) -> (found: Option<&'val Val<'data>>)
        ensures
            match found {
                Some(val) => self@.lookup(path@) == Some(val@),
                None => self@.lookup(path@) is None,
            },
    {
        let keys = split_text(path, '.');
        match self.get_path(keys.as_slice()) {
            Ok(val) => Some(val),
            Err(_) => None,
        }
    }
}

/// A path whose beginning is refused is refused with the same error.
pub proof fn lemma_get_path_stays_refused(tree: Tree, names: Seq<Seq<char>>, upto: int)
    requires
        0 <= upto <= names.len(),
        tree.get_path(names.take(upto)) is Err,
    ensures
        tree.get_path(names) == tree.get_path(names.take(upto)),
    decreases names.len(),
{
    if upto < names.len() {
        assert(names.drop_last().take(upto) =~= names.take(upto));
        lemma_get_path_stays_refused(tree, names.drop_last(), upto);
    } else {
        assert(names.take(upto) =~= names);
    }
}

} // verus!
