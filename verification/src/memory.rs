//! Splits and reassemblies on files held in memory, where every operation
//! succeeds.
//!
//! Each of the two runs takes a splitter or a combiner to its end and answers
//! every action from the files it was given. What comes out is stated without
//! the steps in between: as the fragments of the source's content, and as the
//! content that the fragments of a directory hold.

use vstd::prelude::*;

pub mod combine;
pub mod split;

verus! {

/// A file held in memory.
#[derive(Debug, PartialEq, Eq)]
pub struct MemoryFile {
    /// The path of the file.
    pub path: String,
    /// What the file holds.
    pub bytes: Vec<u8>,
}

/// A file, with its path taken as the characters it holds.
pub struct FileView {
    pub path: Seq<char>,
    pub bytes: Seq<u8>,
}

impl View for MemoryFile {
    type V = FileView;

    open spec fn view(&self) -> FileView {
        FileView { path: self.path@, bytes: self.bytes@ }
    }
}

/// Files, each with its path taken as characters.
pub open spec fn files_view(files: Seq<MemoryFile>) -> Seq<FileView> {
    files.map_values(|file: MemoryFile| file@)
}

/// The pieces of content, one after the other.
pub open spec fn joined(pieces: Seq<Seq<u8>>) -> Seq<u8>
    decreases pieces.len(),
{
    if pieces.len() == 0 {
        Seq::empty()
    } else {
        joined(pieces.drop_last()) + pieces.last()
    }
}

/// One piece, joined, is that piece.
pub proof fn lemma_joined_single(piece: Seq<u8>)
    ensures
        joined(seq![piece]) == piece,
{
    reveal_with_fuel(joined, 2);
}

/// Joining two runs of pieces joins what each of them joins.
pub proof fn lemma_joined_concat(left: Seq<Seq<u8>>, right: Seq<Seq<u8>>)
    ensures
        joined(left + right) == joined(left) + joined(right),
    decreases right.len(),
{
    if right.len() > 0 {
        lemma_joined_concat(left, right.drop_last());
        assert((left + right).drop_last() =~= left + right.drop_last());
    }
}

/// The first piece, and the others joined, make the pieces joined.
pub proof fn lemma_joined_first(pieces: Seq<Seq<u8>>)
    requires
        pieces.len() > 0,
    ensures
        joined(pieces) == pieces.first() + joined(pieces.drop_first()),
{
    assert(pieces =~= seq![pieces.first()] + pieces.drop_first());
    lemma_joined_concat(seq![pieces.first()], pieces.drop_first());
    lemma_joined_single(pieces.first());
}

} // verus!
