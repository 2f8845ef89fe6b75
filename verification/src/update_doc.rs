//! The document that carries a partial update to the store.

use vstd::prelude::*;
use mongodb::bson::Document;
use crate::task::{TaskPatch, assignments_of, assignment_views};

verus! {

/// The bson crate's `Document`, carried as an opaque value: what it holds
/// is known through [`entries`] alone.
#[verifier::external_type_specification]
#[verifier::external_body]
pub struct ExDocument(mongodb::bson::Document);

/// What a document holds: each of its keys, with the string held under it,
/// or with `None` where the value under it is not a string.
pub uninterp spec fn entries(doc: Document) -> Map<Seq<char>, Option<Seq<char>>>;

/// `Document::new` of the bson crate. Trusted: a new document has no key.
#[verifier::external_body]
fn empty_document() -> (out: Document)
    ensures
        entries(out) == entries_of(Seq::empty()),
{
    Document::new()
}

/// `Document::insert` of the bson crate, with a string as the value.
/// Trusted: the document then holds that string under that key, in place of
/// whatever the key held before, and its other keys hold what they held.
#[verifier::external_body]
fn insert_text(doc: &mut Document, key: &str, value: &str)
    ensures
        entries(*final(doc)) == entries(*old(doc)).insert(key@, Some(value@)),
{
    doc.insert(key, value);
}

/// What a list of assignments leaves when they are applied in order: under
/// each field the value assigned to it last, and no other key.
pub open spec fn entries_of(pairs: Seq<(Seq<char>, Seq<char>)>) -> Map<Seq<char>, Option<Seq<char>>>
    decreases pairs.len(),
{
    if pairs.len() == 0 {
        Map::empty()
    } else {
        entries_of(pairs.drop_last()).insert(pairs.last().0, Some(pairs.last().1))
    }
}

/// Builds the document of fields to set for `patch`: one string entry for
/// each field that the patch gives, and no key for a field that it leaves
/// out.
pub fn set_document(patch: &TaskPatch) -> (doc: Document)
    ensures
        entries(doc) == entries_of(assignments_of(patch@)),
{
    let pairs = patch.assignments();
    let mut doc = empty_document();
    let mut i: usize = 0;
    while i < pairs.len()
        invariant
            0 <= i <= pairs@.len(),
            entries(doc) == entries_of(assignment_views(pairs@).take(i as int)),
        decreases pairs@.len() - i,
    {
        proof {
            let grown = assignment_views(pairs@).take(i + 1);
            assert(grown.drop_last() =~= assignment_views(pairs@).take(i as int));
            assert(grown.last() == (pairs@[i as int].0@, pairs@[i as int].1@));
        }
        insert_text(&mut doc, pairs[i].0.as_str(), pairs[i].1.as_str());
        i = i + 1;
    }
    assert(assignment_views(pairs@).take(i as int) =~= assignment_views(pairs@));
    doc
}

} // verus!
