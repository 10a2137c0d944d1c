use modal_editor::text::{EditError, Piece, PieceKind, PiecePosition, PieceTable};

#[test]
fn piece_table() {
    let mut table: PieceTable = "helloworld".to_owned().into();
    assert_eq!(table.piece_count(), 1);
    assert_eq!(table.original(), "helloworld");
    assert_eq!(table.gather(), "helloworld");

    table.insert(5, ", ");
    assert_eq!(table.append(), ", ");
    assert_eq!(table.gather(), "hello, world");
    assert_eq!(table.piece_count(), 3);

    table.insert(12, ") end");
    assert_eq!(table.append(), ", ) end");
    assert_eq!(table.gather(), "hello, world) end");
    assert_eq!(table.piece_count(), 4);

    table.insert(0, "begin (");
    assert_eq!(table.append(), ", ) endbegin (");
    assert_eq!(table.gather(), "begin (hello, world) end");
    assert_eq!(table.piece_count(), 5);

    table.insert(13, "[12589]");
    assert_eq!(table.append(), ", ) endbegin ([12589]");
    assert_eq!(table.gather(), "begin (hello,[12589] world) end");
    assert_eq!(table.piece_count(), 7);

    table.insert(16, "34");
    assert_eq!(table.append(), ", ) endbegin ([12589]34");
    assert_eq!(table.gather(), "begin (hello,[1234589] world) end");
    assert_eq!(table.piece_count(), 9);

    table.insert(19, "67");
    assert_eq!(table.append(), ", ) endbegin ([12589]3467");
    assert_eq!(table.gather(), "begin (hello,[123456789] world) end");
    assert_eq!(table.piece_count(), 11);

    table.remove(0, 3);
    assert_eq!(table.gather(), "in (hello,[123456789] world) end");
    assert_eq!(table.piece_count(), 11);

    table.remove(2, 2);
    assert_eq!(table.gather(), "inhello,[123456789] world) end");
    assert_eq!(table.piece_count(), 11);

    table.remove(0, 2);
    assert_eq!(table.gather(), "hello,[123456789] world) end");
    assert_eq!(table.piece_count(), 10);

    table.remove(6, 11);
    assert_eq!(table.gather(), "hello, world) end");
    assert_eq!(table.piece_count(), 5);

    table.remove(0, 12);
    assert_eq!(table.gather(), ") end");
    assert_eq!(table.piece_count(), 1);

    table.remove(1, 0);
    assert_eq!(table.gather(), ") end");
    assert_eq!(table.piece_count(), 1);

    table.remove(3, 1);
    assert_eq!(table.gather(), ") ed");
    assert_eq!(table.piece_count(), 2);

    table.remove(0, 4);
    assert!(table.gather().is_empty());
    assert_eq!(table.piece_count(), 0);

    assert_eq!(table.original(), "helloworld");
    assert_eq!(table.append(), ", ) endbegin ([12589]3467");
}

#[test]
fn a_table_gathers_the_string_it_was_made_from() {
    for text in ["a", "helloworld", "zwei Wörter", "línea\nlinea\n", "日本語"] {
        let table = PieceTable::from(text.to_owned());
        assert_eq!(table.gather(), text);
        assert_eq!(table.piece_count(), 1);
        assert_eq!(table.len(), text.len());
    }
}

#[test]
fn a_table_of_the_empty_string_has_no_piece() {
    let mut table = PieceTable::from(String::new());
    assert_eq!(table.gather(), "");
    assert_eq!(table.piece_count(), 0);
    assert_eq!(table.len(), 0);
    table.insert(0, "now");
    assert_eq!(table.gather(), "now");
    assert_eq!(
        table.piece_list(),
        [Piece { offset: 0, width: 3, kind: PieceKind::Append }]
    );
}

#[test]
fn the_default_table_is_empty() {
    let table = PieceTable::default();
    assert_eq!(table.gather(), "");
    assert_eq!(table.piece_count(), 0);
    assert_eq!(table.len(), 0);
    assert_eq!(table.original(), "");
    assert_eq!(table.append(), "");
}

#[test]
fn insert_puts_the_text_at_the_offset() {
    let text = "helloworld";
    for offset in 0..=text.len() {
        let mut table = PieceTable::from(text.to_owned());
        table.insert(offset, "--");
        let expected = format!("{}--{}", &text[..offset], &text[offset..]);
        assert_eq!(table.gather(), expected);
        assert_eq!(table.len(), text.len() + 2);
    }
}

#[test]
fn remove_takes_the_text_out() {
    let text = "helloworld";
    for offset in 0..=text.len() {
        for width in 0..=(text.len() - offset) {
            let mut table = PieceTable::from(text.to_owned());
            table.insert(5, ", ");
            let before = table.gather();
            let pieces = table.piece_count();
            if offset + width > before.len() {
                continue;
            }
            table.remove(offset, width);
            let expected = format!("{}{}", &before[..offset], &before[offset + width..]);
            assert_eq!(table.gather(), expected);
            assert_eq!(table.len(), before.len() - width);
            if width == 0 {
                assert_eq!(table.piece_count(), pieces);
            }
        }
    }
}

#[test]
fn insert_on_a_seam_splits_no_piece() {
    let mut table = PieceTable::from("abcdef".to_owned());
    table.insert(6, "gh");
    assert_eq!(table.piece_count(), 2);
    table.insert(0, "__");
    assert_eq!(table.piece_count(), 3);
    table.insert(8, "..");
    assert_eq!(table.piece_count(), 4);
    assert_eq!(table.gather(), "__abcdef..gh");
    table.insert(4, "!");
    assert_eq!(table.piece_count(), 6);
    assert_eq!(table.gather(), "__ab!cdef..gh");
}

#[test]
fn insert_into_an_empty_table() {
    let mut table = PieceTable::default();
    table.insert(0, "first");
    assert_eq!(table.gather(), "first");
    assert_eq!(table.piece_count(), 1);

    let mut emptied = PieceTable::from("gone".to_owned());
    emptied.remove(0, 4);
    assert_eq!(emptied.piece_count(), 0);
    emptied.insert(0, "back");
    assert_eq!(emptied.gather(), "back");
    assert_eq!(emptied.append(), "back");
}

#[test]
fn edits_between_characters_of_several_bytes() {
    let mut table = PieceTable::from("añb".to_owned());
    assert_eq!(table.len(), 4);
    assert!(table.is_char_boundary(0));
    assert!(table.is_char_boundary(1));
    assert!(!table.is_char_boundary(2));
    assert!(table.is_char_boundary(3));
    assert!(table.is_char_boundary(4));
    assert!(!table.is_char_boundary(5));
    table.insert(3, "é");
    assert_eq!(table.gather(), "añéb");
    assert!(!table.is_char_boundary(4));
    table.remove(1, 2);
    assert_eq!(table.gather(), "aéb");
    assert_eq!(table.len(), 4);
}

#[test]
fn no_piece_is_empty_and_the_widths_add_up() {
    let mut table = PieceTable::from("0123456789".to_owned());
    let mut expected = String::from("0123456789");
    let edits: [(usize, &str, usize, usize); 5] =
        [(3, "abc", 1, 4), (0, "x", 0, 1), (8, "yz", 8, 2), (5, "q", 2, 6), (1, "w", 0, 3)];
    for (at, text, from, width) in edits {
        table.insert(at, text);
        expected.insert_str(at, text);
        assert_eq!(table.gather(), expected);
        assert_eq!(table.len(), expected.len());
        table.remove(from, width);
        expected.replace_range(from..from + width, "");
        assert_eq!(table.gather(), expected);
        assert_eq!(table.len(), expected.len());
        assert!(table.piece_list().iter().all(|piece| piece.width > 0));
        let widths: usize = table.piece_list().iter().map(|piece| piece.width).sum();
        assert_eq!(widths, table.gather().len());
    }
}

#[test]
fn removing_nothing_leaves_the_pieces_as_they_are() {
    let mut table = PieceTable::from("helloworld".to_owned());
    table.insert(5, ", ");
    table.insert(3, "-");
    let before = table.piece_list().to_vec();
    for offset in [0, 1, 5, table.len(), table.len() + 1, usize::MAX] {
        table.remove(offset, 0);
        assert_eq!(table.piece_list(), &before[..]);
        assert_eq!(table.try_remove(offset, 0), Ok(()));
        assert_eq!(table.piece_list(), &before[..]);
    }
    let mut wide = PieceTable::from("añb".to_owned());
    wide.remove(2, 0);
    assert_eq!(wide.piece_count(), 1);
    assert_eq!(wide.gather(), "añb");
    assert_eq!(table.gather(), "hel-lo, world");
    assert_eq!(table.original(), "helloworld");
    assert_eq!(table.append(), ", -");
}

#[test]
fn the_pieces_of_a_table_after_edits() {
    let mut table = PieceTable::from("helloworld".to_owned());
    assert_eq!(
        table.piece_list(),
        [Piece { offset: 0, width: 10, kind: PieceKind::Original }]
    );
    table.insert(5, ", ");
    assert_eq!(
        table.piece_list(),
        [
            Piece { offset: 0, width: 5, kind: PieceKind::Original },
            Piece { offset: 0, width: 2, kind: PieceKind::Append },
            Piece { offset: 5, width: 5, kind: PieceKind::Original },
        ]
    );
    table.remove(3, 6);
    assert_eq!(
        table.piece_list(),
        [
            Piece { offset: 0, width: 3, kind: PieceKind::Original },
            Piece { offset: 7, width: 3, kind: PieceKind::Original },
        ]
    );
    assert_eq!(table.gather(), "helrld");
}

#[test]
fn an_empty_string_leaves_the_pieces_as_they_are() {
    let mut table = PieceTable::from("abcd".to_owned());
    table.insert(2, "-");
    let before = table.piece_list().to_vec();
    for offset in 0..=table.len() {
        table.insert(offset, "");
        assert_eq!(table.piece_list(), &before[..]);
        assert_eq!(table.try_insert(offset, ""), Ok(()));
        assert_eq!(table.piece_list(), &before[..]);
    }
    assert_eq!(table.gather(), "ab-cd");
    assert_eq!(table.append(), "-");
    let mut empty = PieceTable::default();
    empty.insert(0, "");
    assert_eq!(empty.piece_count(), 0);
    assert_eq!(empty.gather(), "");
}

#[test]
fn try_insert_refuses_what_insert_cannot_take() {
    let mut table = PieceTable::from("añb".to_owned());
    assert_eq!(table.try_insert(5, "x"), Err(EditError::OutOfRange));
    assert_eq!(table.try_insert(2, "x"), Err(EditError::NotCharBoundary));
    assert_eq!(table.gather(), "añb");
    assert_eq!(table.piece_count(), 1);
    assert_eq!(table.try_insert(4, "x"), Ok(()));
    assert_eq!(table.gather(), "añbx");
}

#[test]
fn try_remove_refuses_what_remove_cannot_take() {
    let mut table = PieceTable::from("añb".to_owned());
    assert_eq!(table.try_remove(3, 2), Err(EditError::OutOfRange));
    assert_eq!(table.try_remove(5, 0), Ok(()));
    assert_eq!(table.try_remove(2, 0), Ok(()));
    assert_eq!(table.try_remove(4, 1), Err(EditError::OutOfRange));
    assert_eq!(table.try_remove(usize::MAX, 2), Err(EditError::OutOfRange));
    assert_eq!(table.try_remove(1, 1), Err(EditError::NotCharBoundary));
    assert_eq!(table.try_remove(2, 1), Err(EditError::NotCharBoundary));
    assert_eq!(table.gather(), "añb");
    assert_eq!(table.try_remove(1, 2), Ok(()));
    assert_eq!(table.gather(), "ab");
}

#[test]
fn find_piece_resolves_a_seam_to_the_earlier_piece() {
    let pieces = [
        Piece { offset: 0, width: 3, kind: PieceKind::Original },
        Piece { offset: 0, width: 2, kind: PieceKind::Append },
        Piece { offset: 3, width: 4, kind: PieceKind::Original },
    ];
    assert_eq!(
        PieceTable::find_piece(&pieces, 0),
        Some(PiecePosition { piece_index: 0, relative_offset: 0 })
    );
    assert_eq!(
        PieceTable::find_piece(&pieces, 3),
        Some(PiecePosition { piece_index: 0, relative_offset: 3 })
    );
    assert_eq!(
        PieceTable::find_piece(&pieces, 4),
        Some(PiecePosition { piece_index: 1, relative_offset: 1 })
    );
    assert_eq!(
        PieceTable::find_piece(&pieces, 9),
        Some(PiecePosition { piece_index: 2, relative_offset: 4 })
    );
    assert_eq!(PieceTable::find_piece(&pieces, 10), None);
    assert_eq!(PieceTable::find_piece(&[], 0), None);
}

#[test]
fn split_cuts_a_piece_in_two() {
    let piece = Piece { offset: 4, width: 6, kind: PieceKind::Append };
    let (left, right) = piece.split(2);
    assert_eq!(left, Piece { offset: 4, width: 2, kind: PieceKind::Append });
    assert_eq!(right, Piece { offset: 6, width: 4, kind: PieceKind::Append });
}
