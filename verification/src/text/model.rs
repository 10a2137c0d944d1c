//! What a piece sequence denotes, and what an edit makes of it.

use crate::text::{Piece, PieceKind};
use vstd::prelude::*;
use vstd::utf8::*;

verus! {

/// The buffer that pieces of the given kind point into.
pub open spec fn buffer_of(original: Seq<u8>, append: Seq<u8>, kind: PieceKind) -> Seq<u8> {
    match kind {
        PieceKind::Original => original,
        PieceKind::Append => append,
    }
}

/// The bytes that a piece denotes.
pub open spec fn piece_bytes(original: Seq<u8>, append: Seq<u8>, piece: Piece) -> Seq<u8> {
    buffer_of(original, append, piece.kind).subrange(
        piece.offset as int,
        piece.offset + piece.width,
    )
}

/// The bytes that a piece sequence denotes: those of its pieces, in order.
pub open spec fn pieces_bytes(original: Seq<u8>, append: Seq<u8>, pieces: Seq<Piece>) -> Seq<u8>
    decreases pieces.len(),
{
    if pieces.len() == 0 {
        Seq::empty()
    } else {
        pieces_bytes(original, append, pieces.drop_last()) + piece_bytes(
            original,
            append,
            pieces.last(),
        )
    }
}

/// The sum of the widths of the pieces.
pub open spec fn total_width(pieces: Seq<Piece>) -> nat
    decreases pieces.len(),
{
    if pieces.len() == 0 {
        0
    } else {
        total_width(pieces.drop_last()) + pieces.last().width as nat
    }
}

/// `index` is the start of a character in `bytes`, or its end. In valid UTF-8
/// this is what `is_char_boundary` says (`lemma_on_boundary`).
pub open spec fn on_boundary(bytes: Seq<u8>, index: int) -> bool {
    0 <= index <= bytes.len() && (index < bytes.len() ==> !is_continuation_byte(bytes[index]))
}

/// The piece lies within its buffer and cuts no character.
pub open spec fn piece_fits(original: Seq<u8>, append: Seq<u8>, piece: Piece) -> bool {
    let buffer = buffer_of(original, append, piece.kind);
    &&& on_boundary(buffer, piece.offset as int)
    &&& on_boundary(buffer, piece.offset + piece.width)
    &&& piece.offset + piece.width <= usize::MAX
}

/// Every piece of the sequence fits.
pub open spec fn pieces_fit(original: Seq<u8>, append: Seq<u8>, pieces: Seq<Piece>) -> bool {
    forall|i: int| 0 <= i < pieces.len() ==> piece_fits(original, append, #[trigger] pieces[i])
}

/// No piece of the sequence is empty.
pub open spec fn no_empty_piece(pieces: Seq<Piece>) -> bool {
    forall|i: int| 0 <= i < pieces.len() ==> (#[trigger] pieces[i]).width > 0
}

/// The pieces of the sequence that are not empty, in order.
pub open spec fn keep_nonempty(pieces: Seq<Piece>) -> Seq<Piece>
    decreases pieces.len(),
{
    if pieces.len() == 0 {
        Seq::empty()
    } else if pieces.last().width == 0 {
        keep_nonempty(pieces.drop_last())
    } else {
        keep_nonempty(pieces.drop_last()).push(pieces.last())
    }
}

/// The text offset `offset` lies `relative` bytes into the piece `index`, and
/// no earlier piece reaches it: after the first piece, an offset on the seam
/// of two pieces belongs to the end of the earlier one.
pub open spec fn resolves(pieces: Seq<Piece>, offset: int, index: int, relative: int) -> bool {
    &&& 0 <= index < pieces.len()
    &&& 0 <= relative <= pieces[index].width
    &&& total_width(pieces.take(index)) + relative == offset
    &&& (index == 0 || relative > 0)
}

/// The two halves of a piece cut `relative` bytes in.
pub open spec fn split_spec(piece: Piece, relative: int) -> (Piece, Piece) {
    (
        Piece { offset: piece.offset, width: relative as usize, kind: piece.kind },
        Piece {
            offset: (piece.offset + relative) as usize,
            width: (piece.width - relative) as usize,
            kind: piece.kind,
        },
    )
}

/// The piece sequence after `piece` went in at the place `(index, relative)`:
/// beside the piece `index` where the place is one of its ends, and between
/// its two halves otherwise.
pub open spec fn pieces_after_insert(
    pieces: Seq<Piece>,
    index: int,
    relative: int,
    piece: Piece,
) -> Seq<Piece> {
    if relative == 0 {
        pieces.insert(index, piece)
    } else if relative == pieces[index].width {
        pieces.insert(index + 1, piece)
    } else {
        let (left, right) = split_spec(pieces[index], relative);
        pieces.take(index) + keep_nonempty(seq![left, piece, right]) + pieces.skip(index + 1)
    }
}

/// The piece sequence after the text between the places `(start, start_relative)` and
/// `(stop, stop_relative)` went out: what is left of the piece `start` before
/// the first place and of the piece `stop` behind the second stand for the
/// pieces `start ..= stop`, an empty rest dropped.
pub open spec fn pieces_after_remove(
    pieces: Seq<Piece>,
    start: int,
    start_relative: int,
    stop: int,
    stop_relative: int,
) -> Seq<Piece> {
    let left = split_spec(pieces[start], start_relative).0;
    let right = split_spec(pieces[stop], stop_relative).1;
    pieces.take(start) + keep_nonempty(seq![left, right]) + pieces.skip(stop + 1)
}

} // verus!
