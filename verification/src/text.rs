//! A piece table: the text of a buffer as a sequence of pieces, each a run of
//! bytes in one of two backing strings. The original string never changes and
//! the append string only grows, so an edit moves no text: it only rewrites
//! the piece sequence.
//!
//! Offsets and widths count bytes of the UTF-8 encoding. The backing buffers
//! are strings, so every piece starts and ends on a character boundary, and
//! an edit has to fall on one too. No piece is empty: the empty text has no
//! pieces, and an empty string adds none.

use crate::text::model::{
    keep_nonempty, no_empty_piece, piece_bytes, piece_fits, pieces_after_insert,
    pieces_after_remove, pieces_bytes, pieces_fit, resolves, split_spec, total_width,
};
use crate::text::proofs::{
    lemma_append_grows, lemma_encode_concat, lemma_encode_empty, lemma_insert, lemma_on_boundary,
    lemma_piece_in_text, lemma_pieces_bytes_valid, lemma_prefix_widths_ordered, lemma_remove,
    lemma_resolves_unique, lemma_seam, lemma_single, lemma_text_with, lemma_text_without,
    lemma_total_width_step,
};
use vstd::prelude::*;
use vstd::string::*;
use vstd::utf8::*;

pub mod model;
pub mod proofs;

verus! {

/// The backing buffer a piece points into.
#[derive(Clone, Copy, Debug, PartialEq, Eq, Structural)]
pub enum PieceKind {
    Original,
    Append,
}

/// The bytes `offset .. offset + width` of one backing buffer.
#[derive(Clone, Copy, Debug, PartialEq, Eq, Structural)]
pub struct Piece {
    pub offset: usize,
    pub width: usize,
    pub kind: PieceKind,
}

/// A place in the text: `relative_offset` bytes into the piece `piece_index`.
#[derive(Clone, Copy, Debug, PartialEq, Eq, Structural)]
pub struct PiecePosition {
    pub piece_index: usize,
    pub relative_offset: usize,
}

/// Why a checked edit was refused.
#[derive(Clone, Copy, Debug, PartialEq, Eq, Structural)]
pub enum EditError {
    /// The edit reaches past the end of the text.
    OutOfRange,
    /// An end of the edit lies inside the encoding of a character.
    NotCharBoundary,
    /// The text would grow past what `usize` can count.
    TooLong,
}

impl Piece {
    /// Cuts the piece `relative_offset` bytes in.
    pub fn split(self, relative_offset: usize) -> (halves: (Piece, Piece))
        requires
            relative_offset <= self.width,
            self.offset + self.width <= usize::MAX,
        ensures
            halves == split_spec(self, relative_offset as int),
    {
        let left = Piece { offset: self.offset, width: relative_offset, kind: self.kind };
        let right = Piece {
            offset: self.offset + relative_offset,
            width: self.width - relative_offset,
            kind: self.kind,
        };
        (left, right)
    }
}

/// The text of one buffer of an editor.
pub struct PieceTable {
    original: String,
    append: String,
    pieces: Vec<Piece>,
}

impl View for PieceTable {
    type V = Seq<u8>;

    /// The bytes of the text.
    open spec fn view(&self) -> Seq<u8> {
        pieces_bytes(self.original_bytes(), self.append_bytes(), self.pieces())
    }
}

impl PieceTable {
    /// The text the table was made from.
    pub closed spec fn original_text(&self) -> Seq<char> {
        self.original@
    }

    /// All the text that was ever inserted, in the order of the insertions.
    pub closed spec fn append_text(&self) -> Seq<char> {
        self.append@
    }

    /// The piece sequence.
    pub closed spec fn pieces(&self) -> Seq<Piece> {
        self.pieces@
    }

    /// The bytes of the original buffer.
    pub open spec fn original_bytes(&self) -> Seq<u8> {
        encode_utf8(self.original_text())
    }

    /// The bytes of the append buffer.
    pub open spec fn append_bytes(&self) -> Seq<u8> {
        encode_utf8(self.append_text())
    }

    /// The text as characters.
    pub open spec fn text(&self) -> Seq<char> {
        decode_utf8(self@)
    }

    /// Every piece lies within its buffer and cuts no character, no piece is
    /// empty, and the length of the text fits in `usize`.
    pub open spec fn wf(&self) -> bool {
        &&& pieces_fit(self.original_bytes(), self.append_bytes(), self.pieces())
        &&& no_empty_piece(self.pieces())
        &&& total_width(self.pieces()) <= usize::MAX
    }

    /// The text of a well-formed table is valid UTF-8, as long as the widths
    /// of its pieces say.
    pub proof fn lemma_view_valid(&self)
        requires
            self.wf(),
        ensures
            valid_utf8(self@),
            self@.len() == total_width(self.pieces()),
            encode_utf8(self.text()) == self@,
    {
        encode_utf8_valid_utf8(self.original_text());
        encode_utf8_valid_utf8(self.append_text());
        lemma_pieces_bytes_valid(self.original_bytes(), self.append_bytes(), self.pieces());
        decode_utf8_encode_utf8(self@);
    }

    /// The piece that spans a text of the given characters.
    pub open spec fn whole_piece(text: Seq<char>) -> Piece {
        Piece { offset: 0, width: encode_utf8(text).len() as usize, kind: PieceKind::Original }
    }

    /// The piece sequence of a table that was made from the given text: one
    /// piece that spans it, and none for the empty text.
    pub open spec fn whole_pieces(text: Seq<char>) -> Seq<Piece> {
        if text.len() == 0 {
            Seq::empty()
        } else {
            seq![PieceTable::whole_piece(text)]
        }
    }

    /// A table whose pieces are those of its original text is well formed,
    /// and its text is the original text: what `from` makes of a string,
    /// `gather` gives back.
    pub proof fn lemma_round_trip(&self)
        requires
            self.pieces() == PieceTable::whole_pieces(self.original_text()),
            encode_utf8(self.original_text()).len() <= usize::MAX,
        ensures
            self.wf(),
            self.original_text().len() > 0 ==> self.pieces().len() == 1,
            self@ == encode_utf8(self.original_text()),
            self.text() == self.original_text(),
    {
        let bytes = self.original_bytes();
        let piece = PieceTable::whole_piece(self.original_text());
        encode_utf8_valid_utf8(self.original_text());
        encode_utf8_decode_utf8(self.original_text());
        lemma_encode_empty(self.original_text());
        lemma_on_boundary(bytes, 0);
        lemma_single(bytes, self.append_bytes(), piece);
        assert(bytes.subrange(0, bytes.len() as int) =~= bytes);
    }

    /// Finds the piece that holds the text offset `offset`: the first piece at
    /// whose end the widths so far have reached `offset`.
    pub fn find_piece(pieces: &[Piece], offset: usize) -> (found: Option<PiecePosition>)
        requires
            total_width(pieces@) <= usize::MAX,
        ensures
            match found {
                Some(position) => resolves(
                    pieces@,
                    offset as int,
                    position.piece_index as int,
                    position.relative_offset as int,
                ),
                None => pieces@.len() == 0 || total_width(pieces@) < offset,
            },
    {
        let mut current_offset: usize = 0;
        let mut piece_index: usize = 0;
        while piece_index < pieces.len()
            invariant
                piece_index <= pieces@.len(),
                current_offset == total_width(pieces@.take(piece_index as int)),
                total_width(pieces@) <= usize::MAX,
                piece_index == 0 || current_offset < offset,
            decreases pieces@.len() - piece_index,
        {
            let piece = pieces[piece_index];
            proof {
                lemma_total_width_step(pieces@, piece_index as int);
                lemma_prefix_widths_ordered(pieces@, piece_index + 1, pieces@.len() as int);
                assert(pieces@.take(pieces@.len() as int) =~= pieces@);
            }
            current_offset += piece.width;
            if current_offset >= offset {
                return Some(
                    PiecePosition {
                        piece_index,
                        relative_offset: piece.width - (current_offset - offset),
                    },
                );
            }
            piece_index += 1;
        }
        proof {
            assert(pieces@.take(pieces@.len() as int) =~= pieces@);
        }
        None
    }

    /// Appends `string` to the append buffer and returns the piece that
    /// denotes it there.
    fn add_piece(&mut self, string: &str) -> (piece: Piece)
        requires
            old(self).wf(),
        ensures
            final(self).original_text() == old(self).original_text(),
            final(self).append_text() == old(self).append_text() + string@,
            final(self).pieces() == old(self).pieces(),
            final(self).wf(),
            final(self)@ == old(self)@,
            piece.offset == old(self).append_bytes().len(),
            piece.width == encode_utf8(string@).len(),
            piece.kind == PieceKind::Append,
            piece_fits(final(self).original_bytes(), final(self).append_bytes(), piece),
            piece_bytes(final(self).original_bytes(), final(self).append_bytes(), piece)
                == encode_utf8(string@),
    {
        let offset = self.append.as_str().as_bytes().len();
        self.append.append(string);
        let end = self.append.as_str().as_bytes().len();
        proof {
            let before = old(self).append_bytes();
            let more = encode_utf8(string@);
            lemma_encode_concat(old(self).append_text(), string@);
            encode_utf8_valid_utf8(string@);
            lemma_append_grows(self.original_bytes(), before, more, self.pieces());
        }
        Piece { offset, width: end - offset, kind: PieceKind::Append }
    }

    /// The text that a piece denotes.
    fn string_for(&self, piece: Piece) -> (string: &str)
        requires
            piece_fits(self.original_bytes(), self.append_bytes(), piece),
        ensures
            encode_utf8(string@) == piece_bytes(self.original_bytes(), self.append_bytes(), piece),
    {
        let buffer = match piece.kind {
            PieceKind::Original => self.original.as_str(),
            PieceKind::Append => self.append.as_str(),
        };
        proof {
            encode_utf8_valid_utf8(buffer@);
            lemma_on_boundary(buffer.spec_bytes(), piece.offset + piece.width);
        }
        let (head, _) = buffer.split_at(piece.offset + piece.width);
        proof {
            encode_utf8_valid_utf8(head@);
            lemma_on_boundary(head.spec_bytes(), piece.offset as int);
        }
        let (_, string) = head.split_at(piece.offset);
        string
    }

    /// The whole text, as one string.
    pub fn gather(&self) -> (text: String)
        requires
            self.wf(),
        ensures
            text@ == self.text(),
            encode_utf8(text@) == self@,
            encode_utf8(text@).len() == total_width(self.pieces()),
    {
        let mut text = String::new();
        let mut index: usize = 0;
        while index < self.pieces.len()
            invariant
                index <= self.pieces@.len(),
                self.wf(),
                encode_utf8(text@) == pieces_bytes(
                    self.original_bytes(),
                    self.append_bytes(),
                    self.pieces@.take(index as int),
                ),
            decreases self.pieces@.len() - index,
        {
            let piece = self.pieces[index];
            let part = self.string_for(piece);
            proof {
                lemma_encode_concat(text@, part@);
                assert(self.pieces@.take(index + 1).drop_last() =~= self.pieces@.take(
                    index as int,
                ));
            }
            text.append(part);
            index += 1;
        }
        proof {
            assert(self.pieces@.take(index as int) =~= self.pieces@);
            encode_utf8_decode_utf8(text@);
            self.lemma_view_valid();
        }
        text
    }

    /// The length of the text in bytes.
    pub fn len(&self) -> (length: usize)
        requires
            self.wf(),
        ensures
            length == self@.len(),
    {
        let mut length: usize = 0;
        let mut index: usize = 0;
        while index < self.pieces.len()
            invariant
                index <= self.pieces@.len(),
                self.wf(),
                length == total_width(self.pieces@.take(index as int)),
            decreases self.pieces@.len() - index,
        {
            proof {
                lemma_total_width_step(self.pieces@, index as int);
                lemma_prefix_widths_ordered(self.pieces@, index + 1, self.pieces@.len() as int);
                assert(self.pieces@.take(self.pieces@.len() as int) =~= self.pieces@);
            }
            length += self.pieces[index].width;
            index += 1;
        }
        proof {
            assert(self.pieces@.take(index as int) =~= self.pieces@);
            self.lemma_view_valid();
        }
        length
    }

    /// The piece that an insertion of `string` adds: the end of the append
    /// buffer, where `string` goes.
    pub open spec fn appended_piece(&self, string: Seq<char>) -> Piece {
        Piece {
            offset: self.append_bytes().len() as usize,
            width: encode_utf8(string).len() as usize,
            kind: PieceKind::Append,
        }
    }

    /// `after` is this table with `string` put in at the text offset
    /// `offset`: the text with the string in it, and the string at the end of
    /// the append buffer. An empty string leaves the pieces as they are.
    /// Any other gets one piece: beside the piece that holds `offset` where
    /// `offset` is one of its ends, and between its two halves otherwise.
    pub open spec fn inserted(&self, after: PieceTable, offset: int, string: Seq<char>) -> bool {
        &&& after.wf()
        &&& 0 <= offset <= self@.len()
        &&& after@ == self@.subrange(0, offset) + encode_utf8(string) + self@.subrange(
            offset,
            self@.len() as int,
        )
        &&& after.text() == decode_utf8(self@.subrange(0, offset)) + string + decode_utf8(
            self@.subrange(offset, self@.len() as int),
        )
        &&& after.original_text() == self.original_text()
        &&& after.append_text() == self.append_text() + string
        &&& no_empty_piece(self.pieces()) ==> no_empty_piece(after.pieces())
        &&& encode_utf8(string).len() == 0 ==> after.pieces() == self.pieces()
        &&& encode_utf8(string).len() > 0 ==> {
            &&& self.pieces().len() == 0 ==> after.pieces() == seq![self.appended_piece(string)]
            &&& forall|index: int, relative: int|
                resolves(self.pieces(), offset, index, relative) ==> after.pieces()
                    == pieces_after_insert(
                    self.pieces(),
                    index,
                    relative,
                    self.appended_piece(string),
                )
        }
    }

    /// `after` is this table without the `width` bytes of the text from
    /// `offset` on. With `width` 0 it is this table, whatever `offset` is.
    /// Else it has the text around those bytes, the buffers as they were,
    /// and the pieces that held the bytes cut back to what is left of them.
    pub open spec fn removed(&self, after: PieceTable, offset: int, width: int) -> bool {
        &&& width == 0 ==> after == *self
        &&& width > 0 ==> {
            &&& after.wf()
            &&& 0 <= offset <= offset + width <= self@.len()
            &&& after@ == self@.subrange(0, offset) + self@.subrange(
                offset + width,
                self@.len() as int,
            )
            &&& after.text() == decode_utf8(self@.subrange(0, offset)) + decode_utf8(
                self@.subrange(offset + width, self@.len() as int),
            )
            &&& after.original_text() == self.original_text()
            &&& after.append_text() == self.append_text()
            &&& no_empty_piece(self.pieces()) ==> no_empty_piece(after.pieces())
            &&& forall|start: int, start_relative: int, stop: int, stop_relative: int|
                #![trigger
                    resolves(self.pieces(), offset, start, start_relative),
                    resolves(self.pieces(), offset + width, stop, stop_relative)]
                resolves(self.pieces(), offset, start, start_relative) && resolves(
                    self.pieces(),
                    offset + width,
                    stop,
                    stop_relative,
                ) ==> after.pieces() == pieces_after_remove(
                    self.pieces(),
                    start,
                    start_relative,
                    stop,
                    stop_relative,
                )
        }
    }

    /// Puts the pieces of `replacement` that are not empty in the place of
    /// the pieces `from ..= to`.
    fn splice(&mut self, from: usize, to: usize, replacement: Vec<Piece>)
        requires
            from <= to < old(self).pieces().len(),
        ensures
            final(self).original_text() == old(self).original_text(),
            final(self).append_text() == old(self).append_text(),
            final(self).pieces() == old(self).pieces().take(from as int) + keep_nonempty(
                replacement@,
            ) + old(self).pieces().skip(to + 1),
    {
        assert(self.pieces@.len() == self.pieces.len());
        let mut tail = self.pieces.split_off(to + 1);
        self.pieces.truncate(from);
        let mut index: usize = 0;
        while index < replacement.len()
            invariant
                index <= replacement@.len(),
                self.original == old(self).original,
                self.append == old(self).append,
                self.pieces@ == old(self).pieces@.take(from as int) + keep_nonempty(
                    replacement@.take(index as int),
                ),
            decreases replacement@.len() - index,
        {
            let piece = replacement[index];
            proof {
                assert(replacement@.take(index + 1).drop_last() =~= replacement@.take(
                    index as int,
                ));
            }
            if piece.width != 0 {
                self.pieces.push(piece);
            }
            index += 1;
        }
        proof {
            assert(replacement@.take(index as int) =~= replacement@);
        }
        self.pieces.append(&mut tail);
    }

    /// Inserts `string` at the text offset `offset`.
    ///
    /// An empty string changes nothing. Any other goes to the end of the
    /// append buffer, and one piece for it into the piece sequence: beside
    /// the piece that holds `offset` where `offset` is one of its ends,
    /// between its two halves otherwise. In an empty piece sequence the new
    /// piece is the only one.
    pub fn insert(&mut self, offset: usize, string: &str)
        requires
            old(self).wf(),
            is_char_boundary(old(self)@, offset as int),
            old(self)@.len() + encode_utf8(string@).len() <= usize::MAX,
        ensures
            old(self).inserted(*final(self), offset as int, string@),
    {
        proof {
            self.lemma_view_valid();
            lemma_on_boundary(self@, offset as int);
            lemma_text_with(self@, offset as int, string@);
            lemma_encode_empty(string@);
        }
        if string.as_bytes().len() == 0 {
            proof {
                assert(self.append_text() + string@ =~= self.append_text());
                assert(self@.subrange(0, offset as int) + encode_utf8(string@) + self@.subrange(
                    offset as int,
                    self@.len() as int,
                ) =~= self@);
            }
            return ;
        }
        let position = PieceTable::find_piece(self.pieces.as_slice(), offset);
        let new = self.add_piece(string);
        proof {
            encode_utf8_valid_utf8(self.original_text());
            encode_utf8_valid_utf8(self.append_text());
        }
        match position {
            None => {
                proof {
                    lemma_single(self.original_bytes(), self.append_bytes(), new);
                    assert(self.pieces@.push(new) =~= seq![new]);
                    assert(self@.subrange(0, 0) + encode_utf8(string@) + self@.subrange(0, 0)
                        =~= encode_utf8(string@));
                }
                self.pieces.push(new);
            },
            Some(position) => {
                let piece = self.pieces[position.piece_index];
                proof {
                    lemma_insert(
                        self.original_bytes(),
                        self.append_bytes(),
                        self.pieces(),
                        offset as int,
                        position.piece_index as int,
                        position.relative_offset as int,
                        new,
                    );
                    assert forall|index: int, relative: int|
                        resolves(old(self).pieces(), offset as int, index, relative) implies index
                        == position.piece_index && relative == position.relative_offset by {
                        lemma_resolves_unique(
                            old(self).pieces(),
                            offset as int,
                            index,
                            relative,
                            position.piece_index as int,
                            position.relative_offset as int,
                        );
                    }
                    assert(self.pieces@.len() == self.pieces.len());
                }
                if position.relative_offset == 0 {
                    self.pieces.insert(position.piece_index, new);
                } else if position.relative_offset == piece.width {
                    self.pieces.insert(position.piece_index + 1, new);
                } else {
                    let (left, right) = piece.split(position.relative_offset);
                    self.splice(position.piece_index, position.piece_index, vec![left, new, right]);
                }
            },
        }
    }

    /// Removes the `width` bytes of the text that start at `offset`.
    ///
    /// With `width` 0 nothing changes, and `offset` is not looked at.
    /// Otherwise the pieces from the one that holds `offset` to the one that
    /// holds `offset + width` give way to what is left of the first before
    /// `offset` and of the last behind `offset + width`, an empty rest
    /// dropped.
    pub fn remove(&mut self, offset: usize, width: usize)
        requires
            old(self).wf(),
            width > 0 ==> is_char_boundary(old(self)@, offset as int),
            width > 0 ==> is_char_boundary(old(self)@, offset + width),
        ensures
            final(self).wf(),
            old(self).removed(*final(self), offset as int, width as int),
    {
        if width == 0 {
            return ;
        }
        proof {
            self.lemma_view_valid();
            lemma_on_boundary(self@, offset as int);
            lemma_on_boundary(self@, offset + width);
            lemma_text_without(self@, offset as int, width as int);
            encode_utf8_valid_utf8(self.original_text());
            encode_utf8_valid_utf8(self.append_text());
        }
        let start = PieceTable::find_piece(self.pieces.as_slice(), offset);
        let stop = PieceTable::find_piece(self.pieces.as_slice(), offset + width);
        match (start, stop) {
            (Some(start), Some(stop)) => {
                proof {
                    lemma_remove(
                        self.original_bytes(),
                        self.append_bytes(),
                        self.pieces(),
                        offset as int,
                        width as int,
                        start.piece_index as int,
                        start.relative_offset as int,
                        stop.piece_index as int,
                        stop.relative_offset as int,
                    );
                    assert forall|first: int, first_relative: int, last: int, last_relative: int|
                        #![trigger
                            resolves(old(self).pieces(), offset as int, first, first_relative),
                            resolves(old(self).pieces(), offset + width, last, last_relative)]
                        resolves(old(self).pieces(), offset as int, first, first_relative)
                            && resolves(
                            old(self).pieces(),
                            offset + width,
                            last,
                            last_relative,
                        ) implies first == start.piece_index && first_relative
                        == start.relative_offset && last == stop.piece_index && last_relative
                        == stop.relative_offset by {
                        lemma_resolves_unique(
                            old(self).pieces(),
                            offset as int,
                            first,
                            first_relative,
                            start.piece_index as int,
                            start.relative_offset as int,
                        );
                        lemma_resolves_unique(
                            old(self).pieces(),
                            offset + width,
                            last,
                            last_relative,
                            stop.piece_index as int,
                            stop.relative_offset as int,
                        );
                    }
                }
                let (left, _) = self.pieces[start.piece_index].split(start.relative_offset);
                let (_, right) = self.pieces[stop.piece_index].split(stop.relative_offset);
                self.splice(start.piece_index, stop.piece_index, vec![left, right]);
            },
            _ => {
                // Both ends of the range lie in the text, which is not empty.
                assert(false);
            },
        }
    }

    /// Whether the text offset `offset` is the start of a character of the
    /// text, or its end.
    pub fn is_char_boundary(&self, offset: usize) -> (boundary: bool)
        requires
            self.wf(),
        ensures
            boundary == is_char_boundary(self@, offset as int),
    {
        proof {
            self.lemma_view_valid();
            lemma_on_boundary(self@, offset as int);
            encode_utf8_valid_utf8(self.original_text());
            encode_utf8_valid_utf8(self.append_text());
        }
        if offset == 0 {
            return true;
        }
        match PieceTable::find_piece(self.pieces.as_slice(), offset) {
            None => false,
            Some(position) => {
                let piece = self.pieces[position.piece_index];
                proof {
                    lemma_piece_in_text(
                        self.original_bytes(),
                        self.append_bytes(),
                        self.pieces(),
                        position.piece_index as int,
                    );
                    lemma_seam(
                        self.original_bytes(),
                        self.append_bytes(),
                        self.pieces(),
                        position.piece_index + 1,
                    );
                }
                if position.relative_offset == piece.width {
                    true
                } else {
                    let buffer = match piece.kind {
                        PieceKind::Original => self.original.as_str(),
                        PieceKind::Append => self.append.as_str(),
                    };
                    proof {
                        let bytes = buffer.spec_bytes();
                        let start = total_width(self.pieces().take(position.piece_index as int));
                        lemma_on_boundary(bytes, piece.offset + position.relative_offset);
                        let relative = position.relative_offset as int;
                        let held = piece_bytes(self.original_bytes(), self.append_bytes(), piece);
                        assert(self@.subrange(start as int, start + piece.width)[relative]
                            == self@[offset as int]);
                    }
                    buffer.is_char_boundary(piece.offset + position.relative_offset)
                }
            },
        }
    }

    /// `insert`, for a caller that cannot vouch for `offset` and `string`:
    /// refuses, and changes nothing, where `insert` could not be called.
    pub fn try_insert(&mut self, offset: usize, string: &str) -> (outcome: Result<(), EditError>)
        requires
            old(self).wf(),
        ensures
            final(self).wf(),
            outcome == Err::<(), EditError>(EditError::OutOfRange) <==> offset > old(self)@.len(),
            outcome == Err::<(), EditError>(EditError::NotCharBoundary) <==> offset
                <= old(self)@.len() && !is_char_boundary(old(self)@, offset as int),
            outcome == Err::<(), EditError>(EditError::TooLong) <==> is_char_boundary(
                old(self)@,
                offset as int,
            ) && old(self)@.len() + encode_utf8(string@).len() > usize::MAX,
            outcome is Err ==> *final(self) == *old(self),
            outcome is Ok ==> old(self).inserted(*final(self), offset as int, string@),
    {
        proof {
            self.lemma_view_valid();
        }
        let length = self.len();
        if offset > length {
            Err(EditError::OutOfRange)
        } else if !self.is_char_boundary(offset) {
            Err(EditError::NotCharBoundary)
        } else if length.checked_add(string.as_bytes().len()).is_none() {
            Err(EditError::TooLong)
        } else {
            self.insert(offset, string);
            Ok(())
        }
    }

    /// `remove`, for a caller that cannot vouch for `offset` and `width`:
    /// refuses, and changes nothing, where `remove` could not be called.
    pub fn try_remove(&mut self, offset: usize, width: usize) -> (outcome: Result<(), EditError>)
        requires
            old(self).wf(),
        ensures
            final(self).wf(),
            outcome == Err::<(), EditError>(EditError::OutOfRange) <==> width > 0 && offset + width
                > old(self)@.len(),
            outcome == Err::<(), EditError>(EditError::NotCharBoundary) <==> width > 0 && offset
                + width <= old(self)@.len() && !(is_char_boundary(old(self)@, offset as int)
                && is_char_boundary(old(self)@, offset + width)),
            outcome != Err::<(), EditError>(EditError::TooLong),
            outcome is Err ==> *final(self) == *old(self),
            outcome is Ok ==> old(self).removed(*final(self), offset as int, width as int),
    {
        if width == 0 {
            return Ok(());
        }
        let length = self.len();
        if offset > length || width > length - offset {
            Err(EditError::OutOfRange)
        } else if !self.is_char_boundary(offset) || !self.is_char_boundary(offset + width) {
            Err(EditError::NotCharBoundary)
        } else {
            self.remove(offset, width);
            Ok(())
        }
    }

    /// The pieces, in the order of the text.
    pub fn piece_list(&self) -> (pieces: &[Piece])
        ensures
            pieces@ == self.pieces(),
    {
        self.pieces.as_slice()
    }

    /// The number of pieces.
    pub fn piece_count(&self) -> (count: usize)
        ensures
            count == self.pieces().len(),
    {
        self.pieces.len()
    }

    /// The text the table was made from.
    pub fn original(&self) -> (text: &str)
        ensures
            text@ == self.original_text(),
    {
        self.original.as_str()
    }

    /// All the text that was ever inserted, in the order of the insertions.
    pub fn append(&self) -> (text: &str)
        ensures
            text@ == self.append_text(),
    {
        self.append.as_str()
    }
}

impl Default for PieceTable {
    /// The table of the empty text: no pieces and two empty buffers.
    fn default() -> (table: PieceTable)
        ensures
            table.wf(),
            table.pieces() == Seq::<Piece>::empty(),
            table.original_text() == Seq::<char>::empty(),
            table.append_text() == Seq::<char>::empty(),
            table@ == Seq::<u8>::empty(),
    {
        let table = PieceTable {
            original: String::new(),
            append: String::new(),
            pieces: Vec::new(),
        };
        table
    }
}

impl vstd::std_specs::convert::FromSpecImpl<String> for PieceTable {
    /// A table holds vectors, which no specification can name: what `from`
    /// returns is stated in its own `ensures`.
    open spec fn obeys_from_spec() -> bool {
        false
    }

    open spec fn from_spec(string: String) -> PieceTable {
        arbitrary()
    }
}

impl From<String> for PieceTable {
    /// The table of the text `string`: one piece, which spans the original
    /// buffer, and no piece where the string is empty.
    fn from(string: String) -> (table: PieceTable)
        ensures
            table.wf(),
            table.original_text() == string@,
            table.append_text() == Seq::<char>::empty(),
            table.pieces() == PieceTable::whole_pieces(string@),
            table@ == encode_utf8(string@),
            table.text() == string@,
    {
        let width = string.as_str().as_bytes().len();
        let mut pieces = Vec::new();
        if width > 0 {
            pieces.push(Piece { offset: 0, width, kind: PieceKind::Original });
        }
        let table = PieceTable { original: string, append: String::new(), pieces };
        proof {
            lemma_encode_empty(string@);
            assert(table.pieces@ =~= PieceTable::whole_pieces(string@));
            table.lemma_round_trip();
        }
        table
    }
}

} // verus!
