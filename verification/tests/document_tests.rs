use scrappy_core::Direction;
use scrappy_core::Document;
use scrappy_core::DocumentEdit;
use scrappy_core::DocumentEvent;
use scrappy_core::Loc;
use scrappy_core::PlainTextDocument;
use scrappy_core::Selection;
use scrappy_core::SelectionMode;

fn text_and_loc() -> (Vec<String>, Loc) {
    let text = vec![
        "the quick".to_string(),
        "brown fox".to_string(),
        "jumps over".to_string(),
    ];
    (text, Loc { line: 1, col: 4 })
}

#[test]
fn cursor_getter_gets() {
    let mut doc = PlainTextDocument::new();
    doc.set_cursor(Loc { line: 12, col: 7 });

    let found_loc = doc.cursor_loc();

    assert_eq!(Loc { line: 12, col: 7 }, found_loc);
}

#[test]
fn lines_yields_document() {
    let lns = vec!["alpha".to_string(), "beta".to_string(), "gamma".to_string()];
    let mut doc = PlainTextDocument::new();
    doc.set_content(lns.clone());

    let found_lines: Vec<String> = doc.lines();
    assert_eq!(found_lines, lns);
}

#[test]
fn modified_getter_gets() {
    let mut doc = PlainTextDocument::new();
    assert_eq!(doc.is_modified(), false);

    doc.set_modified(true);
    assert_eq!(doc.is_modified(), true);

    doc.set_modified(false);
    assert_eq!(doc.is_modified(), false);
}

#[test]
fn event_sent_gets_received() {
    let doc = PlainTextDocument::new();
    let send_path = "notes/draft.txt".to_string();
    let ev = DocumentEdit::SaveAs(send_path.clone());

    let res = doc.edits_channel().send(ev);
    assert_eq!(res.is_ok(), true);

    let received_res = doc.try_recv_queued_edit();
    assert_eq!(received_res.is_some(), true);

    let received = received_res.unwrap_or(DocumentEdit::Close);

    match received {
        DocumentEdit::SaveAs(path) => assert_eq!(path, send_path),
        _ => assert_eq!(1, 0),
    }
}

#[test]
fn close_event_closes_doc() {
    let mut doc = PlainTextDocument::new();
    let handled = doc.handle_event(DocumentEdit::Close);
    assert_eq!(handled, false);
}

#[test]
fn insert_char_replaces_removed_char() {
    let (text, loc) = text_and_loc();

    let mut starting_text = text.clone();
    let char_removed = starting_text[loc.line].remove(loc.col);
    let mut doc = PlainTextDocument::new();
    doc.set_content(starting_text);

    let handled = doc.handle_event(DocumentEdit::InsertChar(loc, char_removed));

    assert_eq!(text, doc.lines());
    assert_eq!(handled, true);
}

#[test]
fn insert_str_can_insert_line() {
    // Insertion is character by character, so putting a whole line back
    // takes its terminator too, and works at any position but the end.
    let (text, loc) = text_and_loc();

    let mut starting_text = text.clone();
    let line_removed: String = starting_text.remove(loc.line);
    let mut doc = PlainTextDocument::new();
    doc.set_content(starting_text);
    let test_loc = Loc { line: loc.line, col: 0 };

    let reinserted = line_removed + "\n";
    let handled = doc.handle_event(DocumentEdit::InsertStr(test_loc, reinserted));

    assert_eq!(text, doc.lines());
    assert_eq!(handled, true);
}

#[test]
fn insert_newline_splits_line() {
    // The terminator splits the line at the insertion point and is not
    // itself kept: the line's head takes the inserted text, the remainder
    // moves to a new line below.
    let (text, loc) = text_and_loc();
    let inserted = "XY".to_string() + "\n";
    let mut doc = PlainTextDocument::new();
    doc.set_content(text.clone());

    let handled = doc.handle_event(DocumentEdit::InsertStr(loc, inserted));

    let mut expected_text = text.clone();
    let split_line = expected_text[loc.line].split_at(loc.col);
    let first = split_line.0.to_string();
    let second = split_line.1.to_string();
    expected_text[loc.line] = first + "XY";
    expected_text.insert(loc.line + 1, second);

    assert_eq!(expected_text, doc.lines());
    assert_eq!(handled, true);
}

#[test]
fn insert_str_splits_and_continues() {
    let mut doc = PlainTextDocument::new();
    doc.set_content(vec!["abc".to_string(), "def".to_string()]);
    doc.set_cursor(Loc { line: 0, col: 1 });

    let handled = doc.handle_event(DocumentEdit::InsertStr(
        Loc { line: 0, col: 1 },
        "X\nY".to_string(),
    ));

    assert_eq!(handled, true);
    assert_eq!(
        doc.lines(),
        vec!["aX".to_string(), "Ybc".to_string(), "def".to_string()]
    );
}

#[test]
fn insert_str_splits_on_bare_carriage_return() {
    // A bare `\r` counts as a terminator just like `\n`.
    let mut doc = PlainTextDocument::new();
    doc.set_content(vec!["abcd".to_string()]);

    let handled = doc.handle_event(DocumentEdit::InsertStr(
        Loc { line: 0, col: 2 },
        "A\rB".to_string(),
    ));

    assert_eq!(handled, true);
    assert_eq!(doc.lines(), vec!["abA".to_string(), "Bcd".to_string()]);
}

#[test]
fn insert_str_empty_changes_nothing() {
    let mut doc = PlainTextDocument::new();
    doc.set_content(vec!["abc".to_string()]);

    let r = doc.insert_string(Loc { line: 0, col: 2 }, String::new());

    assert!(r.is_ok());
    assert_eq!(doc.lines(), vec!["abc".to_string()]);
    assert_eq!(doc.is_modified(), false);
}

#[test]
fn insert_char_out_of_bounds_rejected() {
    let mut doc = PlainTextDocument::new();
    doc.set_content(vec!["abc".to_string()]);

    assert!(doc.insert_char(Loc { line: 1, col: 0 }, 'x').is_err());
    assert!(doc.insert_char(Loc { line: 0, col: 4 }, 'x').is_err());
    assert_eq!(doc.lines(), vec!["abc".to_string()]);
    assert_eq!(doc.is_modified(), false);
}

#[test]
fn insert_str_out_of_bounds_rejected() {
    let mut doc = PlainTextDocument::new();

    // A new document has no line to insert into.
    assert!(doc
        .insert_string(Loc { line: 0, col: 0 }, "hi".to_string())
        .is_err());
    assert_eq!(doc.lines(), Vec::<String>::new());
    assert_eq!(doc.is_modified(), false);
}

#[test]
fn remove_insert_round_trip() {
    let (text, _) = text_and_loc();
    for line in 0..text.len() - 1 {
        let mut starting_text = text.clone();
        let removed = starting_text.remove(line);
        let mut doc = PlainTextDocument::new();
        doc.set_content(starting_text);

        let r = doc.insert_string(Loc { line, col: 0 }, removed + "\n");

        assert!(r.is_ok());
        assert_eq!(text, doc.lines());
    }
}

#[test]
fn delete_within_line() {
    let mut doc = PlainTextDocument::new();
    doc.set_content(vec!["abcdef".to_string()]);

    // Endpoints arrive reversed: delete normalizes them.
    let sel = Selection {
        start: Loc { line: 0, col: 4 },
        end: Loc { line: 0, col: 2 },
        text: String::new(),
    };
    let r = doc.delete(sel);

    assert!(r.is_ok());
    assert_eq!(doc.lines(), vec!["abef".to_string()]);
    assert_eq!(doc.cursor_loc(), Loc { line: 0, col: 2 });
    assert_eq!(doc.is_modified(), true);
}

#[test]
fn delete_across_lines() {
    let mut doc = PlainTextDocument::new();
    doc.set_content(vec![
        "alpha".to_string(),
        "beta".to_string(),
        "gamma".to_string(),
    ]);

    let sel = Selection {
        start: Loc { line: 0, col: 2 },
        end: Loc { line: 2, col: 3 },
        text: String::new(),
    };
    let r = doc.delete(sel);

    assert!(r.is_ok());
    assert_eq!(doc.lines(), vec!["alma".to_string()]);
    assert_eq!(doc.cursor_loc(), Loc { line: 0, col: 2 });
}

#[test]
fn delete_empty_range_moves_cursor_only() {
    let mut doc = PlainTextDocument::new();
    doc.set_content(vec!["abc".to_string()]);

    let sel = Selection {
        start: Loc { line: 0, col: 1 },
        end: Loc { line: 0, col: 1 },
        text: String::new(),
    };
    let r = doc.delete(sel);

    assert!(r.is_ok());
    assert_eq!(doc.lines(), vec!["abc".to_string()]);
    assert_eq!(doc.cursor_loc(), Loc { line: 0, col: 1 });
    assert_eq!(doc.is_modified(), false);
}

#[test]
fn delete_out_of_bounds_rejected() {
    let mut doc = PlainTextDocument::new();
    doc.set_content(vec!["abc".to_string()]);

    let sel = Selection {
        start: Loc { line: 0, col: 0 },
        end: Loc { line: 1, col: 0 },
        text: String::new(),
    };
    assert!(doc.delete(sel).is_err());
    assert_eq!(doc.lines(), vec!["abc".to_string()]);
    assert_eq!(doc.is_modified(), false);
}

#[test]
fn move_cursor_wraps_and_clamps() {
    let mut doc = PlainTextDocument::new();
    doc.set_content(vec!["ab".to_string(), "xyz".to_string()]);

    // Left from the start of a line wraps to the end of the one above.
    doc.set_cursor(Loc { line: 1, col: 0 });
    doc.move_cursor(Direction::Left);
    assert_eq!(doc.cursor_loc(), Loc { line: 0, col: 2 });

    // Right from the end of a line wraps to the start of the one below.
    doc.move_cursor(Direction::Right);
    assert_eq!(doc.cursor_loc(), Loc { line: 1, col: 0 });

    // Up keeps the column when the target line allows it, else clamps.
    doc.set_cursor(Loc { line: 1, col: 3 });
    doc.move_cursor(Direction::Up);
    assert_eq!(doc.cursor_loc(), Loc { line: 0, col: 2 });

    // Down keeps the column where possible.
    doc.set_cursor(Loc { line: 0, col: 1 });
    doc.move_cursor(Direction::Down);
    assert_eq!(doc.cursor_loc(), Loc { line: 1, col: 1 });

    // At the edges of the document nothing moves.
    doc.set_cursor(Loc { line: 0, col: 0 });
    doc.move_cursor(Direction::Left);
    assert_eq!(doc.cursor_loc(), Loc { line: 0, col: 0 });
    doc.move_cursor(Direction::Up);
    assert_eq!(doc.cursor_loc(), Loc { line: 0, col: 0 });
    doc.set_cursor(Loc { line: 1, col: 3 });
    doc.move_cursor(Direction::Right);
    assert_eq!(doc.cursor_loc(), Loc { line: 1, col: 3 });
    doc.move_cursor(Direction::Down);
    assert_eq!(doc.cursor_loc(), Loc { line: 1, col: 3 });
}

#[test]
fn move_cursor_to_clamps() {
    let mut doc = PlainTextDocument::new();
    doc.set_content(vec!["ab".to_string(), "xyz".to_string()]);

    doc.move_cursor_to(Loc { line: 99, col: 99 });
    assert_eq!(doc.cursor_loc(), Loc { line: 1, col: 3 });

    doc.move_cursor_to(Loc { line: 0, col: 1 });
    assert_eq!(doc.cursor_loc(), Loc { line: 0, col: 1 });
}

#[test]
fn selection_mode_transitions() {
    let mut doc = PlainTextDocument::new();
    doc.set_content(vec!["hello".to_string()]);
    doc.set_cursor(Loc { line: 0, col: 2 });
    assert!(doc.selection().is_none());

    // Anchoring starts at the cursor; the live end tracks the cursor.
    doc.handle_event(DocumentEdit::SetSelectionMode(SelectionMode::Selecting));
    doc.set_cursor(Loc { line: 0, col: 4 });
    let sel = doc.selection().expect("anchor set");
    assert_eq!(sel.start, Loc { line: 0, col: 2 });
    assert_eq!(sel.end, Loc { line: 0, col: 4 });
    assert_eq!(sel.text, "");

    // Re-entering Selecting keeps the existing anchor.
    doc.handle_event(DocumentEdit::SetSelectionMode(SelectionMode::Selecting));
    assert_eq!(doc.selection().expect("still set").start, Loc { line: 0, col: 2 });

    // Finalizing keeps the anchor; clearing drops it.
    doc.handle_event(DocumentEdit::SetSelectionMode(SelectionMode::Selected));
    assert!(doc.selection().is_some());
    doc.handle_event(DocumentEdit::SetSelectionMode(SelectionMode::NoSelection));
    assert!(doc.selection().is_none());
}

#[test]
fn save_clears_modified() {
    let mut doc = PlainTextDocument::new();
    doc.set_content(vec!["x".to_string()]);
    doc.set_modified(true);

    let handled = doc.handle_event(DocumentEdit::Save);

    assert_eq!(handled, true);
    assert_eq!(doc.is_modified(), false);
}

#[test]
fn save_as_sets_file_name() {
    let mut doc = PlainTextDocument::new();
    assert_eq!(doc.file_name(), "");
    doc.set_modified(true);

    let handled = doc.handle_event(DocumentEdit::SaveAs("out.txt".to_string()));

    assert_eq!(handled, true);
    assert_eq!(doc.file_name(), "out.txt");
    assert_eq!(doc.is_modified(), false);
}

#[test]
fn listener_receives_line_changed() {
    let mut doc = PlainTextDocument::new();
    doc.set_content(vec!["abc".to_string()]);
    let (tx, rx) = std::sync::mpsc::channel::<DocumentEvent>();

    doc.handle_event(DocumentEdit::AddListener(tx));
    doc.handle_event(DocumentEdit::InsertChar(Loc { line: 0, col: 1 }, 'X'));

    match rx.try_recv() {
        Ok(DocumentEvent::LineChanged(before, after)) => {
            assert_eq!(before, "abc");
            assert_eq!(after, "aXbc");
        }
        other => panic!("expected one LineChanged, got {:?}", other),
    }
    // Exactly one event for one command.
    assert!(rx.try_recv().is_err());
}

#[test]
fn listener_receives_cursor_moved() {
    let mut doc = PlainTextDocument::new();
    doc.set_content(vec!["abc".to_string()]);
    doc.set_cursor(Loc { line: 0, col: 1 });
    let (tx, rx) = std::sync::mpsc::channel::<DocumentEvent>();

    doc.handle_event(DocumentEdit::AddListener(tx));
    doc.handle_event(DocumentEdit::MoveCursor(Direction::Right));

    match rx.try_recv() {
        Ok(DocumentEvent::CursorMoved(from, to, dir)) => {
            assert_eq!(from, Loc { line: 0, col: 1 });
            assert_eq!(to, Loc { line: 0, col: 2 });
            assert_eq!(dir, Some(Direction::Right));
        }
        other => panic!("expected one CursorMoved, got {:?}", other),
    }
    assert!(rx.try_recv().is_err());
}

#[test]
fn rejected_command_emits_nothing() {
    let mut doc = PlainTextDocument::new();
    doc.set_content(vec!["abc".to_string()]);
    let (tx, rx) = std::sync::mpsc::channel::<DocumentEvent>();

    doc.handle_event(DocumentEdit::AddListener(tx));
    let handled = doc.handle_event(DocumentEdit::InsertChar(Loc { line: 9, col: 0 }, 'X'));

    assert_eq!(handled, true);
    assert!(rx.try_recv().is_err());
}

#[test]
fn close_stops_processing_backlog() {
    let mut doc = PlainTextDocument::new();
    doc.set_content(vec!["abc".to_string()]);
    let producer = doc.edits_channel();

    producer
        .send(DocumentEdit::InsertChar(Loc { line: 0, col: 0 }, '1'))
        .unwrap();
    producer.send(DocumentEdit::Close).unwrap();
    producer
        .send(DocumentEdit::InsertChar(Loc { line: 0, col: 0 }, '2'))
        .unwrap();

    let r = doc.thread_method();

    // Asked to stop, not abandoned; the command before the Close was
    // applied, the one after it was never observed.
    assert!(r.is_ok());
    assert_eq!(doc.lines(), vec!["1abc".to_string()]);
    match doc.try_recv_queued_edit() {
        Some(DocumentEdit::InsertChar(loc, ch)) => {
            assert_eq!(loc, Loc { line: 0, col: 0 });
            assert_eq!(ch, '2');
        }
        other => panic!("the post-Close command should still be queued, got {:?}", other),
    }
}

#[test]
fn producers_keep_fifo_order() {
    let doc = PlainTextDocument::new();
    let first = doc.edits_channel();
    let second = doc.edits_channel();

    first.send(DocumentEdit::SaveAs("a1".to_string())).unwrap();
    second.send(DocumentEdit::SaveAs("b1".to_string())).unwrap();
    first.send(DocumentEdit::SaveAs("a2".to_string())).unwrap();
    second.send(DocumentEdit::SaveAs("b2".to_string())).unwrap();

    let mut seen: Vec<String> = Vec::new();
    while let Some(DocumentEdit::SaveAs(path)) = doc.try_recv_queued_edit() {
        seen.push(path);
    }

    // Each producer's own commands arrive in the order it sent them.
    let from_first: Vec<&String> = seen.iter().filter(|p| p.starts_with('a')).collect();
    let from_second: Vec<&String> = seen.iter().filter(|p| p.starts_with('b')).collect();
    assert_eq!(from_first, vec!["a1", "a2"]);
    assert_eq!(from_second, vec!["b1", "b2"]);
    assert_eq!(seen.len(), 4);
}

fn snapshot<D: Document>(doc: &D) -> (Loc, Vec<String>, bool) {
    (doc.cursor_loc(), doc.lines(), doc.is_modified())
}

#[test]
fn document_trait_reads_through() {
    let mut doc = PlainTextDocument::new();
    doc.set_content(vec!["one".to_string(), "two".to_string()]);
    doc.set_cursor(Loc { line: 1, col: 1 });

    let (cursor, lines, modified) = snapshot(&doc);

    assert_eq!(cursor, Loc { line: 1, col: 1 });
    assert_eq!(lines, vec!["one".to_string(), "two".to_string()]);
    assert_eq!(modified, false);
}

#[test]
fn documents_compare_by_state() {
    let mut a = PlainTextDocument::new();
    let mut b = PlainTextDocument::new();
    assert!(a == b);

    a.set_content(vec!["x".to_string()]);
    assert!(a != b);

    b.set_content(vec!["x".to_string()]);
    assert!(a == b);

    b.set_modified(true);
    assert!(a != b);
}
