//! Proofs about piece sequences: that an edit makes of the text what it
//! should, and cuts no character.

use crate::text::model::{
    buffer_of, keep_nonempty, no_empty_piece, on_boundary, piece_bytes, piece_fits,
    pieces_after_insert, pieces_after_remove, pieces_bytes, pieces_fit, resolves, split_spec,
    total_width,
};
use crate::text::{Piece, PieceKind};
use vstd::prelude::*;
use vstd::utf8::*;

verus! {

/// In valid UTF-8 a character boundary is an index whose byte, if there is
/// one, continues no character.
pub proof fn lemma_on_boundary(bytes: Seq<u8>, index: int)
    requires
        valid_utf8(bytes),
    ensures
        is_char_boundary(bytes, index) <==> on_boundary(bytes, index),
{
    if 0 <= index < bytes.len() {
        is_char_boundary_iff_not_is_continuation_byte(bytes, index);
    } else if index == bytes.len() {
        is_char_boundary_start_end_of_seq(bytes);
    }
}

/// A subrange of valid UTF-8 between two boundaries is valid UTF-8.
pub proof fn lemma_subrange_valid(bytes: Seq<u8>, from: int, to: int)
    requires
        valid_utf8(bytes),
        on_boundary(bytes, from),
        on_boundary(bytes, to),
        from <= to,
    ensures
        valid_utf8(bytes.subrange(from, to)),
{
    lemma_on_boundary(bytes, to);
    valid_utf8_split(bytes, to);
    let head = bytes.subrange(0, to);
    lemma_on_boundary(head, from);
    valid_utf8_split(head, from);
    assert(head.subrange(from, head.len() as int) =~= bytes.subrange(from, to));
}

/// The seam of two valid UTF-8 sequences is a boundary of their concatenation.
pub proof fn lemma_seam_on_boundary(left: Seq<u8>, right: Seq<u8>)
    requires
        valid_utf8(right),
    ensures
        on_boundary(left + right, left.len() as int),
{
    if right.len() > 0 {
        lemma_on_boundary(right, 0);
        assert((left + right)[left.len() as int] == right[0]);
    }
}

/// Encoding distributes over concatenation.
pub proof fn lemma_encode_concat(left: Seq<char>, right: Seq<char>)
    ensures
        encode_utf8(left + right) == encode_utf8(left) + encode_utf8(right),
{
    let l = encode_utf8(left);
    let r = encode_utf8(right);
    encode_utf8_valid_utf8(left);
    encode_utf8_valid_utf8(right);
    valid_utf8_concat(l, r);
    lemma_seam_on_boundary(l, r);
    lemma_on_boundary(l + r, l.len() as int);
    decode_utf8_split(l + r, l.len() as int);
    assert((l + r).subrange(0, l.len() as int) =~= l);
    assert((l + r).subrange(l.len() as int, (l + r).len() as int) =~= r);
    encode_utf8_decode_utf8(left);
    encode_utf8_decode_utf8(right);
    assert(decode_utf8(l + r) == left + right);
    decode_utf8_encode_utf8(l + r);
}

/// Decoding distributes over the concatenation of valid UTF-8.
pub proof fn lemma_decode_concat(left: Seq<u8>, right: Seq<u8>)
    requires
        valid_utf8(left),
        valid_utf8(right),
    ensures
        valid_utf8(left + right),
        decode_utf8(left + right) == decode_utf8(left) + decode_utf8(right),
{
    valid_utf8_concat(left, right);
    decode_utf8_encode_utf8(left);
    decode_utf8_encode_utf8(right);
    lemma_encode_concat(decode_utf8(left), decode_utf8(right));
    encode_utf8_decode_utf8(decode_utf8(left) + decode_utf8(right));
}

/// The characters of a text with other characters put in on a boundary are
/// the characters before the boundary, the other characters, and the
/// characters behind the boundary.
pub proof fn lemma_text_with(text: Seq<u8>, offset: int, inserted: Seq<char>)
    requires
        valid_utf8(text),
        is_char_boundary(text, offset),
    ensures
        0 <= offset <= text.len(),
        decode_utf8(text) == decode_utf8(text.subrange(0, offset)) + decode_utf8(
            text.subrange(offset, text.len() as int),
        ),
        decode_utf8(
            text.subrange(0, offset) + encode_utf8(inserted) + text.subrange(
                offset,
                text.len() as int,
            ),
        ) == decode_utf8(text.subrange(0, offset)) + inserted + decode_utf8(
            text.subrange(offset, text.len() as int),
        ),
{
    lemma_on_boundary(text, offset);
    valid_utf8_split(text, offset);
    decode_utf8_split(text, offset);
    encode_utf8_valid_utf8(inserted);
    encode_utf8_decode_utf8(inserted);
    let before = text.subrange(0, offset);
    let behind = text.subrange(offset, text.len() as int);
    lemma_decode_concat(before, encode_utf8(inserted));
    lemma_decode_concat(before + encode_utf8(inserted), behind);
}

/// The characters of a text without the bytes between two boundaries are
/// the characters before the first and those behind the second.
pub proof fn lemma_text_without(text: Seq<u8>, offset: int, width: int)
    requires
        valid_utf8(text),
        0 <= width,
        is_char_boundary(text, offset),
        is_char_boundary(text, offset + width),
    ensures
        0 <= offset <= offset + width <= text.len(),
        decode_utf8(text) == decode_utf8(text.subrange(0, offset)) + decode_utf8(
            text.subrange(offset, offset + width),
        ) + decode_utf8(text.subrange(offset + width, text.len() as int)),
        decode_utf8(
            text.subrange(0, offset) + text.subrange(offset + width, text.len() as int),
        ) == decode_utf8(text.subrange(0, offset)) + decode_utf8(
            text.subrange(offset + width, text.len() as int),
        ),
{
    lemma_on_boundary(text, offset);
    lemma_on_boundary(text, offset + width);
    valid_utf8_split(text, offset);
    valid_utf8_split(text, offset + width);
    lemma_subrange_valid(text, offset, offset + width);
    let before = text.subrange(0, offset);
    let between = text.subrange(offset, offset + width);
    let behind = text.subrange(offset + width, text.len() as int);
    lemma_decode_concat(before, behind);
    lemma_decode_concat(before, between);
    lemma_decode_concat(before + between, behind);
    assert(before + between + behind =~= text);
}

/// The width of a concatenation is the sum of the widths.
pub proof fn lemma_total_width_concat(left: Seq<Piece>, right: Seq<Piece>)
    ensures
        total_width(left + right) == total_width(left) + total_width(right),
    decreases right.len(),
{
    if right.len() == 0 {
        assert(left + right =~= left);
    } else {
        assert((left + right).drop_last() =~= left + right.drop_last());
        lemma_total_width_concat(left, right.drop_last());
    }
}

/// The bytes of a concatenation are the bytes of its parts, in order.
pub proof fn lemma_pieces_bytes_concat(
    original: Seq<u8>,
    append: Seq<u8>,
    left: Seq<Piece>,
    right: Seq<Piece>,
)
    ensures
        pieces_bytes(original, append, left + right) == pieces_bytes(original, append, left)
            + pieces_bytes(original, append, right),
    decreases right.len(),
{
    if right.len() == 0 {
        assert(left + right =~= left);
        assert(pieces_bytes(original, append, left) + Seq::<u8>::empty() =~= pieces_bytes(
            original,
            append,
            left,
        ));
    } else {
        assert((left + right).drop_last() =~= left + right.drop_last());
        lemma_pieces_bytes_concat(original, append, left, right.drop_last());
        let a = pieces_bytes(original, append, left);
        let b = pieces_bytes(original, append, right.drop_last());
        let c = piece_bytes(original, append, right.last());
        assert((a + b) + c =~= a + (b + c));
    }
}

/// Pieces that fit denote as many bytes as their widths say, and those bytes
/// are valid UTF-8.
pub proof fn lemma_pieces_bytes_valid(original: Seq<u8>, append: Seq<u8>, pieces: Seq<Piece>)
    requires
        valid_utf8(original),
        valid_utf8(append),
        pieces_fit(original, append, pieces),
    ensures
        pieces_bytes(original, append, pieces).len() == total_width(pieces),
        valid_utf8(pieces_bytes(original, append, pieces)),
    decreases pieces.len(),
{
    if pieces.len() > 0 {
        let front = pieces.drop_last();
        let last = pieces.last();
        assert forall|i: int| 0 <= i < front.len() implies piece_fits(
            original,
            append,
            #[trigger] front[i],
        ) by {
            assert(front[i] == pieces[i]);
        }
        lemma_pieces_bytes_valid(original, append, front);
        assert(piece_fits(original, append, pieces[pieces.len() - 1]));
        lemma_subrange_valid(
            buffer_of(original, append, last.kind),
            last.offset as int,
            last.offset + last.width,
        );
        valid_utf8_concat(
            pieces_bytes(original, append, front),
            piece_bytes(original, append, last),
        );
    }
}

/// A prefix of a piece sequence is no wider than the whole.
pub proof fn lemma_total_width_take(pieces: Seq<Piece>, count: int)
    requires
        0 <= count <= pieces.len(),
    ensures
        total_width(pieces.take(count)) + total_width(pieces.skip(count)) == total_width(pieces),
{
    assert(pieces.take(count) + pieces.skip(count) =~= pieces);
    lemma_total_width_concat(pieces.take(count), pieces.skip(count));
}

/// One more piece in a prefix adds its width.
pub proof fn lemma_total_width_step(pieces: Seq<Piece>, index: int)
    requires
        0 <= index < pieces.len(),
    ensures
        total_width(pieces.take(index + 1)) == total_width(pieces.take(index))
            + pieces[index].width,
{
    assert(pieces.take(index + 1).drop_last() =~= pieces.take(index));
}

/// At most one place resolves an offset.
pub proof fn lemma_resolves_unique(
    pieces: Seq<Piece>,
    offset: int,
    index: int,
    relative: int,
    other_index: int,
    other_relative: int,
)
    requires
        resolves(pieces, offset, index, relative),
        resolves(pieces, offset, other_index, other_relative),
    ensures
        index == other_index,
        relative == other_relative,
{
    if index < other_index {
        lemma_prefix_widths_ordered(pieces, index + 1, other_index);
        lemma_total_width_step(pieces, index);
    } else if other_index < index {
        lemma_prefix_widths_ordered(pieces, other_index + 1, index);
        lemma_total_width_step(pieces, other_index);
    }
}

/// A longer prefix is at least as wide.
pub proof fn lemma_prefix_widths_ordered(pieces: Seq<Piece>, shorter: int, longer: int)
    requires
        0 <= shorter <= longer <= pieces.len(),
    ensures
        total_width(pieces.take(shorter)) <= total_width(pieces.take(longer)),
{
    assert(pieces.take(longer).take(shorter) =~= pieces.take(shorter));
    lemma_total_width_take(pieces.take(longer), shorter);
}

/// Pieces that fit still fit, and denote the same bytes, after the append
/// buffer grew by valid UTF-8.
pub proof fn lemma_append_grows(
    original: Seq<u8>,
    append: Seq<u8>,
    more: Seq<u8>,
    pieces: Seq<Piece>,
)
    requires
        valid_utf8(more),
        pieces_fit(original, append, pieces),
    ensures
        pieces_fit(original, append + more, pieces),
        pieces_bytes(original, append + more, pieces) == pieces_bytes(original, append, pieces),
    decreases pieces.len(),
{
    assert forall|i: int| 0 <= i < pieces.len() implies piece_fits(
        original,
        append + more,
        #[trigger] pieces[i],
    ) && piece_bytes(original, append + more, pieces[i]) == piece_bytes(
        original,
        append,
        pieces[i],
    ) by {
        let piece = pieces[i];
        assert(piece_fits(original, append, piece));
        if piece.kind == PieceKind::Append {
            lemma_seam_on_boundary(append, more);
            assert((append + more).subrange(piece.offset as int, piece.offset + piece.width)
                =~= append.subrange(piece.offset as int, piece.offset + piece.width));
        }
    }
    if pieces.len() > 0 {
        let front = pieces.drop_last();
        assert forall|i: int| 0 <= i < front.len() implies piece_fits(
            original,
            append,
            #[trigger] front[i],
        ) by {
            assert(front[i] == pieces[i]);
        }
        lemma_append_grows(original, append, more, front);
        assert(pieces.last() == pieces[pieces.len() - 1]);
    }
}

/// Dropping the empty pieces changes neither the bytes nor the width, and
/// leaves no empty piece.
pub proof fn lemma_keep_nonempty(original: Seq<u8>, append: Seq<u8>, pieces: Seq<Piece>)
    requires
        pieces_fit(original, append, pieces),
    ensures
        pieces_fit(original, append, keep_nonempty(pieces)),
        no_empty_piece(keep_nonempty(pieces)),
        total_width(keep_nonempty(pieces)) == total_width(pieces),
        pieces_bytes(original, append, keep_nonempty(pieces)) == pieces_bytes(
            original,
            append,
            pieces,
        ),
        no_empty_piece(pieces) ==> keep_nonempty(pieces) == pieces,
    decreases pieces.len(),
{
    if pieces.len() > 0 {
        let front = pieces.drop_last();
        let last = pieces.last();
        assert forall|i: int| 0 <= i < front.len() implies piece_fits(
            original,
            append,
            #[trigger] front[i],
        ) by {
            assert(front[i] == pieces[i]);
        }
        lemma_keep_nonempty(original, append, front);
        assert(piece_fits(original, append, pieces[pieces.len() - 1]));
        let kept = keep_nonempty(front);
        if last.width == 0 {
            assert(piece_bytes(original, append, last) =~= Seq::<u8>::empty());
            assert(pieces_bytes(original, append, front) + Seq::<u8>::empty()
                =~= pieces_bytes(original, append, front));
        } else {
            assert(kept.push(last).drop_last() =~= kept);
        }
        if no_empty_piece(pieces) {
            assert(pieces[pieces.len() - 1].width > 0);
            assert forall|i: int| 0 <= i < front.len() implies (#[trigger] front[i]).width
                > 0 by {
                assert(front[i] == pieces[i]);
            }
            assert(front.push(last) =~= pieces);
        }
    }
}

/// Where the pieces before `count` end in the text, and what they and the
/// others denote: the text before and behind that seam, which is a boundary.
pub proof fn lemma_seam(original: Seq<u8>, append: Seq<u8>, pieces: Seq<Piece>, count: int)
    requires
        valid_utf8(original),
        valid_utf8(append),
        pieces_fit(original, append, pieces),
        0 <= count <= pieces.len(),
    ensures
        ({
            let text = pieces_bytes(original, append, pieces);
            let seam = total_width(pieces.take(count)) as int;
            &&& seam <= text.len()
            &&& text.len() == total_width(pieces)
            &&& pieces_fit(original, append, pieces.take(count))
            &&& pieces_fit(original, append, pieces.skip(count))
            &&& pieces_bytes(original, append, pieces.take(count)) == text.subrange(0, seam)
            &&& pieces_bytes(original, append, pieces.skip(count)) == text.subrange(
                seam,
                text.len() as int,
            )
            &&& on_boundary(text, seam)
            &&& valid_utf8(text)
        }),
{
    let front = pieces.take(count);
    let back = pieces.skip(count);
    assert(front + back =~= pieces);
    assert forall|i: int| 0 <= i < front.len() implies piece_fits(
        original,
        append,
        #[trigger] front[i],
    ) by {
        assert(front[i] == pieces[i]);
    }
    assert forall|i: int| 0 <= i < back.len() implies piece_fits(
        original,
        append,
        #[trigger] back[i],
    ) by {
        assert(back[i] == pieces[i + count]);
    }
    lemma_pieces_bytes_concat(original, append, front, back);
    lemma_pieces_bytes_valid(original, append, front);
    lemma_pieces_bytes_valid(original, append, back);
    lemma_pieces_bytes_valid(original, append, pieces);
    let a = pieces_bytes(original, append, front);
    let b = pieces_bytes(original, append, back);
    assert((a + b).subrange(0, a.len() as int) =~= a);
    assert((a + b).subrange(a.len() as int, (a + b).len() as int) =~= b);
    lemma_seam_on_boundary(a, b);
}

/// What the piece `index` denotes is the text between the seams before and
/// behind it.
pub proof fn lemma_piece_in_text(
    original: Seq<u8>,
    append: Seq<u8>,
    pieces: Seq<Piece>,
    index: int,
)
    requires
        valid_utf8(original),
        valid_utf8(append),
        pieces_fit(original, append, pieces),
        0 <= index < pieces.len(),
    ensures
        ({
            let text = pieces_bytes(original, append, pieces);
            let start = total_width(pieces.take(index)) as int;
            &&& start + pieces[index].width <= text.len()
            &&& total_width(pieces.take(index + 1)) == start + pieces[index].width
            &&& piece_bytes(original, append, pieces[index]) == text.subrange(
                start,
                start + pieces[index].width,
            )
        }),
{
    let text = pieces_bytes(original, append, pieces);
    let start = total_width(pieces.take(index)) as int;
    lemma_seam(original, append, pieces, index);
    lemma_seam(original, append, pieces, index + 1);
    lemma_total_width_step(pieces, index);
    assert(pieces.take(index + 1).drop_last() =~= pieces.take(index));
    assert(pieces.take(index + 1).last() == pieces[index]);
    let a = pieces_bytes(original, append, pieces.take(index));
    let b = piece_bytes(original, append, pieces[index]);
    assert(piece_fits(original, append, pieces[index]));
    assert(text.subrange(0, start + pieces[index].width) == a + b);
    assert(b =~= (a + b).subrange(a.len() as int, (a + b).len() as int));
    assert(text.subrange(0, start + pieces[index].width).subrange(
        start,
        start + pieces[index].width,
    ) =~= text.subrange(start, start + pieces[index].width));
}

/// A subrange of a subrange is a subrange.
pub proof fn lemma_subrange_twice(
    bytes: Seq<u8>,
    from: int,
    to: int,
    inner_from: int,
    inner_to: int,
)
    requires
        0 <= from <= to <= bytes.len(),
        0 <= inner_from <= inner_to <= to - from,
    ensures
        bytes.subrange(from, to).subrange(inner_from, inner_to) == bytes.subrange(
            from + inner_from,
            from + inner_to,
        ),
{
    assert(bytes.subrange(from, to).subrange(inner_from, inner_to) =~= bytes.subrange(
        from + inner_from,
        from + inner_to,
    ));
}

/// The two halves of a piece that is cut where no character is cut fit, and
/// denote what the piece denotes before and behind the cut.
pub proof fn lemma_split_piece(original: Seq<u8>, append: Seq<u8>, piece: Piece, relative: int)
    requires
        piece_fits(original, append, piece),
        0 <= relative <= piece.width,
        relative < piece.width ==> !is_continuation_byte(
            piece_bytes(original, append, piece)[relative],
        ),
    ensures
        ({
            let (left, right) = split_spec(piece, relative);
            let bytes = piece_bytes(original, append, piece);
            &&& piece_fits(original, append, left)
            &&& piece_fits(original, append, right)
            &&& left.width == relative
            &&& right.width == piece.width - relative
            &&& piece_bytes(original, append, left) == bytes.subrange(0, relative)
            &&& piece_bytes(original, append, right) == bytes.subrange(
                relative,
                piece.width as int,
            )
        }),
{
    let buffer = buffer_of(original, append, piece.kind);
    let start = piece.offset as int;
    let end = piece.offset + piece.width;
    if relative < piece.width {
        assert(buffer.subrange(start, end)[relative] == buffer[start + relative]);
    }
    lemma_subrange_twice(buffer, start, end, 0, relative);
    lemma_subrange_twice(buffer, start, end, relative, piece.width as int);
}

/// The two halves of a piece that is cut on a boundary of the text fit, and
/// denote the text before and behind the cut.
pub proof fn lemma_split_in_text(
    original: Seq<u8>,
    append: Seq<u8>,
    pieces: Seq<Piece>,
    index: int,
    relative: int,
)
    requires
        valid_utf8(original),
        valid_utf8(append),
        pieces_fit(original, append, pieces),
        0 <= index < pieces.len(),
        0 <= relative <= pieces[index].width,
        on_boundary(
            pieces_bytes(original, append, pieces),
            total_width(pieces.take(index)) + relative,
        ),
    ensures
        ({
            let text = pieces_bytes(original, append, pieces);
            let start = total_width(pieces.take(index)) as int;
            let (left, right) = split_spec(pieces[index], relative);
            &&& piece_fits(original, append, left)
            &&& piece_fits(original, append, right)
            &&& left.width == relative
            &&& right.width == pieces[index].width - relative
            &&& piece_bytes(original, append, left) == text.subrange(start, start + relative)
            &&& piece_bytes(original, append, right) == text.subrange(
                start + relative,
                start + pieces[index].width,
            )
        }),
{
    let text = pieces_bytes(original, append, pieces);
    let start = total_width(pieces.take(index)) as int;
    let piece = pieces[index];
    let end = start + piece.width;
    lemma_piece_in_text(original, append, pieces, index);
    if relative < piece.width {
        assert(text.subrange(start, end)[relative] == text[start + relative]);
    }
    lemma_split_piece(original, append, piece, relative);
    lemma_subrange_twice(text, start, end, 0, relative);
    lemma_subrange_twice(text, start, end, relative, piece.width as int);
}

/// What a piece sequence denotes after the pieces `from .. until` gave way to
/// others: the text before the first seam, the bytes of the new pieces, and
/// the text behind the second seam.
pub proof fn lemma_replace(
    original: Seq<u8>,
    append: Seq<u8>,
    pieces: Seq<Piece>,
    from: int,
    until: int,
    between: Seq<Piece>,
)
    requires
        valid_utf8(original),
        valid_utf8(append),
        pieces_fit(original, append, pieces),
        pieces_fit(original, append, between),
        0 <= from <= until <= pieces.len(),
    ensures
        ({
            let text = pieces_bytes(original, append, pieces);
            let replaced = pieces.take(from) + between + pieces.skip(until);
            let first = total_width(pieces.take(from)) as int;
            let second = total_width(pieces.take(until)) as int;
            &&& first <= second <= text.len()
            &&& text.len() == total_width(pieces)
            &&& pieces_fit(original, append, replaced)
            &&& total_width(replaced) == first + total_width(between) + (text.len() - second)
            &&& pieces_bytes(original, append, replaced) == text.subrange(0, first) + pieces_bytes(
                original,
                append,
                between,
            ) + text.subrange(second, text.len() as int)
            &&& no_empty_piece(pieces) && no_empty_piece(between) ==> no_empty_piece(replaced)
        }),
{
    let front = pieces.take(from);
    let back = pieces.skip(until);
    let replaced = front + between + back;
    lemma_seam(original, append, pieces, from);
    lemma_seam(original, append, pieces, until);
    lemma_prefix_widths_ordered(pieces, from, until);
    lemma_total_width_take(pieces, until);
    lemma_pieces_bytes_concat(original, append, front, between);
    lemma_pieces_bytes_concat(original, append, front + between, back);
    lemma_total_width_concat(front, between);
    lemma_total_width_concat(front + between, back);
    assert forall|i: int| 0 <= i < replaced.len() implies piece_fits(
        original,
        append,
        #[trigger] replaced[i],
    ) by {
        if i < from {
            assert(replaced[i] == front[i]);
        } else if i < from + between.len() {
            assert(replaced[i] == between[i - from]);
        } else {
            assert(replaced[i] == back[i - from - between.len()]);
        }
    }
    if no_empty_piece(pieces) && no_empty_piece(between) {
        assert forall|i: int| 0 <= i < replaced.len() implies (#[trigger] replaced[i]).width
            > 0 by {
            if i < from {
                assert(replaced[i] == pieces[i]);
            } else if i < from + between.len() {
                assert(replaced[i] == between[i - from]);
            } else {
                assert(replaced[i] == pieces[i - from - between.len() + until]);
            }
        }
    }
}

/// One more piece at the end adds its bytes and its width.
pub proof fn lemma_push(original: Seq<u8>, append: Seq<u8>, pieces: Seq<Piece>, piece: Piece)
    ensures
        pieces_bytes(original, append, pieces.push(piece)) == pieces_bytes(
            original,
            append,
            pieces,
        ) + piece_bytes(original, append, piece),
        total_width(pieces.push(piece)) == total_width(pieces) + piece.width,
{
    assert(pieces.push(piece).drop_last() =~= pieces);
}

/// A single piece denotes its own bytes.
pub proof fn lemma_single(original: Seq<u8>, append: Seq<u8>, piece: Piece)
    ensures
        pieces_bytes(original, append, seq![piece]) == piece_bytes(original, append, piece),
        total_width(seq![piece]) == piece.width,
{
    lemma_push(original, append, Seq::empty(), piece);
    assert(Seq::<Piece>::empty().push(piece) =~= seq![piece]);
    assert(Seq::<u8>::empty() + piece_bytes(original, append, piece) =~= piece_bytes(
        original,
        append,
        piece,
    ));
}

/// Two pieces that fit, as a sequence.
pub proof fn lemma_pair(original: Seq<u8>, append: Seq<u8>, first: Piece, second: Piece)
    requires
        piece_fits(original, append, first),
        piece_fits(original, append, second),
    ensures
        pieces_fit(original, append, seq![first, second]),
        total_width(seq![first, second]) == first.width + second.width,
        pieces_bytes(original, append, seq![first, second]) == piece_bytes(
            original,
            append,
            first,
        ) + piece_bytes(original, append, second),
{
    lemma_single(original, append, first);
    lemma_push(original, append, seq![first], second);
    assert(seq![first, second] =~= seq![first].push(second));
}

/// Three pieces that fit, as a sequence.
pub proof fn lemma_triple(
    original: Seq<u8>,
    append: Seq<u8>,
    first: Piece,
    second: Piece,
    third: Piece,
)
    requires
        piece_fits(original, append, first),
        piece_fits(original, append, second),
        piece_fits(original, append, third),
    ensures
        pieces_fit(original, append, seq![first, second, third]),
        total_width(seq![first, second, third]) == first.width + second.width + third.width,
        pieces_bytes(original, append, seq![first, second, third]) == piece_bytes(
            original,
            append,
            first,
        ) + piece_bytes(original, append, second) + piece_bytes(original, append, third),
{
    lemma_pair(original, append, first, second);
    lemma_push(original, append, seq![first, second], third);
    assert(seq![first, second, third] =~= seq![first, second].push(third));
}

/// A text cut in four, with other bytes in the middle, is the text cut in
/// two with those bytes in the middle.
pub proof fn lemma_rejoin(text: Seq<u8>, start: int, cut: int, end: int, inserted: Seq<u8>)
    requires
        0 <= start <= cut <= end <= text.len(),
    ensures
        text.subrange(0, start) + (text.subrange(start, cut) + inserted + text.subrange(cut, end))
            + text.subrange(end, text.len() as int) == text.subrange(0, cut) + inserted
            + text.subrange(cut, text.len() as int),
{
    assert(text.subrange(0, start) + (text.subrange(start, cut) + inserted + text.subrange(
        cut,
        end,
    )) + text.subrange(end, text.len() as int) =~= text.subrange(0, cut) + inserted
        + text.subrange(cut, text.len() as int));
}

/// A text cut in five, without the middle part, is the text without it.
pub proof fn lemma_rejoin_without(text: Seq<u8>, first: int, from: int, to: int, second: int)
    requires
        0 <= first <= from <= to <= second <= text.len(),
    ensures
        text.subrange(0, first) + (text.subrange(first, from) + text.subrange(to, second))
            + text.subrange(second, text.len() as int) == text.subrange(0, from) + text.subrange(
            to,
            text.len() as int,
        ),
{
    assert(text.subrange(0, first) + (text.subrange(first, from) + text.subrange(to, second))
        + text.subrange(second, text.len() as int) =~= text.subrange(0, from) + text.subrange(
        to,
        text.len() as int,
    ));
}

/// Characters encode to no bytes only where there are none.
pub proof fn lemma_encode_empty(chars: Seq<char>)
    ensures
        encode_utf8(chars).len() == 0 <==> chars.len() == 0,
{
}

/// A piece that went in at the seam before the piece `at` puts its bytes at
/// that seam.
pub proof fn lemma_insert_at_seam(
    original: Seq<u8>,
    append: Seq<u8>,
    pieces: Seq<Piece>,
    at: int,
    piece: Piece,
)
    requires
        valid_utf8(original),
        valid_utf8(append),
        pieces_fit(original, append, pieces),
        piece_fits(original, append, piece),
        0 <= at <= pieces.len(),
    ensures
        ({
            let text = pieces_bytes(original, append, pieces);
            let seam = total_width(pieces.take(at)) as int;
            let after = pieces.insert(at, piece);
            &&& seam <= text.len()
            &&& pieces_fit(original, append, after)
            &&& total_width(after) == total_width(pieces) + piece.width
            &&& pieces_bytes(original, append, after) == text.subrange(0, seam) + piece_bytes(
                original,
                append,
                piece,
            ) + text.subrange(seam, text.len() as int)
            &&& no_empty_piece(pieces) && piece.width > 0 ==> no_empty_piece(after)
        }),
{
    let one = seq![piece];
    lemma_single(original, append, piece);
    lemma_replace(original, append, pieces, at, at, one);
    assert(pieces.insert(at, piece) =~= pieces.take(at) + one + pieces.skip(at));
    lemma_seam(original, append, pieces, at);
}

/// A piece that went in between the two halves of the piece `index`, cut on
/// a boundary of the text, puts its bytes at the cut.
pub proof fn lemma_insert_in_piece(
    original: Seq<u8>,
    append: Seq<u8>,
    pieces: Seq<Piece>,
    index: int,
    relative: int,
    piece: Piece,
)
    requires
        valid_utf8(original),
        valid_utf8(append),
        pieces_fit(original, append, pieces),
        piece_fits(original, append, piece),
        0 <= index < pieces.len(),
        0 < relative < pieces[index].width,
        on_boundary(
            pieces_bytes(original, append, pieces),
            total_width(pieces.take(index)) + relative,
        ),
    ensures
        ({
            let text = pieces_bytes(original, append, pieces);
            let cut = total_width(pieces.take(index)) + relative;
            let (left, right) = split_spec(pieces[index], relative);
            let after = pieces.take(index) + keep_nonempty(seq![left, piece, right]) + pieces.skip(
                index + 1,
            );
            &&& cut <= text.len()
            &&& pieces_fit(original, append, after)
            &&& total_width(after) == total_width(pieces) + piece.width
            &&& pieces_bytes(original, append, after) == text.subrange(0, cut) + piece_bytes(
                original,
                append,
                piece,
            ) + text.subrange(cut, text.len() as int)
            &&& no_empty_piece(pieces) ==> no_empty_piece(after)
        }),
{
    let text = pieces_bytes(original, append, pieces);
    let start = total_width(pieces.take(index)) as int;
    let (left, right) = split_spec(pieces[index], relative);
    let three = seq![left, piece, right];
    lemma_split_in_text(original, append, pieces, index, relative);
    lemma_piece_in_text(original, append, pieces, index);
    lemma_triple(original, append, left, piece, right);
    lemma_keep_nonempty(original, append, three);
    lemma_replace(original, append, pieces, index, index + 1, keep_nonempty(three));
    lemma_rejoin(
        text,
        start,
        start + relative,
        start + pieces[index].width,
        piece_bytes(original, append, piece),
    );
}

/// A piece that went in on a boundary of the text, at the place that resolves
/// its offset, puts its bytes there and leaves the text around them as it was.
pub proof fn lemma_insert(
    original: Seq<u8>,
    append: Seq<u8>,
    pieces: Seq<Piece>,
    offset: int,
    index: int,
    relative: int,
    piece: Piece,
)
    requires
        valid_utf8(original),
        valid_utf8(append),
        pieces_fit(original, append, pieces),
        piece_fits(original, append, piece),
        resolves(pieces, offset, index, relative),
        on_boundary(pieces_bytes(original, append, pieces), offset),
    ensures
        ({
            let text = pieces_bytes(original, append, pieces);
            let after = pieces_after_insert(pieces, index, relative, piece);
            &&& pieces_fit(original, append, after)
            &&& total_width(after) == total_width(pieces) + piece.width
            &&& pieces_bytes(original, append, after) == text.subrange(0, offset) + piece_bytes(
                original,
                append,
                piece,
            ) + text.subrange(offset, text.len() as int)
            &&& no_empty_piece(pieces) && piece.width > 0 ==> no_empty_piece(after)
        }),
{
    if relative == 0 {
        lemma_insert_at_seam(original, append, pieces, index, piece);
    } else if relative == pieces[index].width {
        lemma_total_width_step(pieces, index);
        lemma_insert_at_seam(original, append, pieces, index + 1, piece);
    } else {
        lemma_insert_in_piece(original, append, pieces, index, relative, piece);
    }
}

/// With the text between two of its boundaries gone, at the places that
/// resolve them, the text around it is as it was, and no empty piece is new.
pub proof fn lemma_remove(
    original: Seq<u8>,
    append: Seq<u8>,
    pieces: Seq<Piece>,
    offset: int,
    width: int,
    start: int,
    start_relative: int,
    stop: int,
    stop_relative: int,
)
    requires
        valid_utf8(original),
        valid_utf8(append),
        pieces_fit(original, append, pieces),
        width > 0,
        resolves(pieces, offset, start, start_relative),
        resolves(pieces, offset + width, stop, stop_relative),
        on_boundary(pieces_bytes(original, append, pieces), offset),
        on_boundary(pieces_bytes(original, append, pieces), offset + width),
    ensures
        ({
            let text = pieces_bytes(original, append, pieces);
            let after = pieces_after_remove(pieces, start, start_relative, stop, stop_relative);
            &&& start <= stop
            &&& offset + width <= text.len()
            &&& pieces_fit(original, append, after)
            &&& total_width(after) == total_width(pieces) - width
            &&& pieces_bytes(original, append, after) == text.subrange(0, offset) + text.subrange(
                offset + width,
                text.len() as int,
            )
            &&& no_empty_piece(pieces) ==> no_empty_piece(after)
        }),
{
    let text = pieces_bytes(original, append, pieces);
    assert(start <= stop) by {
        if stop < start {
            lemma_prefix_widths_ordered(pieces, stop + 1, start);
            lemma_total_width_step(pieces, stop);
        }
    }
    let left = split_spec(pieces[start], start_relative).0;
    let right = split_spec(pieces[stop], stop_relative).1;
    let two = seq![left, right];
    let first = total_width(pieces.take(start)) as int;
    let second = total_width(pieces.take(stop + 1)) as int;
    lemma_split_in_text(original, append, pieces, start, start_relative);
    lemma_split_in_text(original, append, pieces, stop, stop_relative);
    lemma_piece_in_text(original, append, pieces, stop);
    lemma_pair(original, append, left, right);
    lemma_keep_nonempty(original, append, two);
    lemma_replace(original, append, pieces, start, stop + 1, keep_nonempty(two));
    lemma_rejoin_without(text, first, offset, offset + width, second);
}

} // verus!
