use rusttracker::editor::{Column, Sequence};
use rusttracker::sequence::{Command, Field, Note};

fn blank() -> Field {
    Field {
        note: Note::Hold,
        cmd: Command::zero(),
    }
}

fn grid(rows: usize, cols: usize) -> Sequence {
    Sequence::new(vec![vec![blank(); cols]; rows])
}

#[test]
fn new_editor_starts_at_origin() {
    let e = grid(4, 2);
    assert_eq!(e.row(), 0);
    assert_eq!(e.col(), 0);
    assert!(!e.play);
}

#[test]
fn geometry_accessors() {
    let e = grid(4, 2);
    assert_eq!(e.field_w(), 6);
    assert_eq!(e.width(), 12);
    assert_eq!(e.height(), 4);
    assert_eq!(e.num_cols(), 8);
}

#[test]
fn col_type_cycles_through_field_parts() {
    let mut e = grid(1, 2);
    assert!(matches!(e.col_type(), Column::Note));
    e.move_cursor(1, 0);
    assert!(matches!(e.col_type(), Column::CommandId));
    e.move_cursor(1, 0);
    assert!(matches!(e.col_type(), Column::CommandHi));
    e.move_cursor(1, 0);
    assert!(matches!(e.col_type(), Column::CommandLo));
    e.move_cursor(1, 0);
    assert!(matches!(e.col_type(), Column::Note));
}

#[test]
fn column_widths() {
    assert_eq!(Column::Note.width(), 3);
    assert_eq!(Column::CommandId.width(), 1);
    assert_eq!(Column::CommandHi.width(), 1);
    assert_eq!(Column::CommandLo.width(), 1);
}

#[test]
fn cursor_rect_accounts_for_field_gaps() {
    let mut e = grid(3, 2);
    assert_eq!(e.cursor(), (0, 0, 3, 1));
    e.move_cursor(1, 1);
    // column 1: x = 1 + ((1 + 3) / 4) * 2 = 3
    assert_eq!(e.cursor(), (3, 1, 1, 1));
    e.move_cursor(3, 0);
    // column 4: x = 4 + ((4 + 3) / 4) * 2 = 6
    assert_eq!(e.cursor(), (6, 1, 3, 1));
}

#[test]
fn move_cursor_wraps_both_ways() {
    let mut e = grid(3, 1);
    e.move_cursor(0, -1);
    assert_eq!(e.row(), 2);
    e.move_cursor(0, 1);
    assert_eq!(e.row(), 0);
    e.move_cursor(-1, 0);
    assert_eq!(e.col(), 3);
    e.move_cursor(1, 0);
    assert_eq!(e.col(), 0);
    e.move_cursor(-9, -7);
    assert_eq!(e.col(), 3);
    assert_eq!(e.row(), 2);
}

#[test]
fn set_note_touches_only_the_cursor_field() {
    let mut e = grid(2, 2);
    e.move_cursor(4, 1);
    e.set_note(Note::On(60));
    assert_eq!(e.pattern[1][1].note, Note::On(60));
    assert_eq!(e.pattern[1][1].cmd, Command::zero());
    assert_eq!(e.pattern[0][0].note, Note::Hold);
    assert_eq!(e.pattern[1][0].note, Note::Hold);
}

#[test]
fn set_cmd_id_keeps_data() {
    let mut e = Sequence::new(vec![vec![Field {
        note: Note::On(3),
        cmd: Command { id: b'0', data: 0x42 },
    }]]);
    e.set_cmd_id(b'F');
    assert_eq!(e.pattern[0][0].cmd.id, b'F');
    assert_eq!(e.pattern[0][0].cmd.data, 0x42);
    assert_eq!(e.pattern[0][0].note, Note::On(3));
}

#[test]
fn insert_adds_blank_row_below_cursor() {
    let mut e = Sequence::new(vec![vec![Field {
        note: Note::On(1),
        cmd: Command::zero(),
    }]]);
    e.insert();
    assert_eq!(e.pattern.len(), 2);
    assert_eq!(e.row(), 1);
    assert_eq!(e.pattern[0][0].note, Note::On(1));
    assert_eq!(e.pattern[1][0].note, Note::Hold);
    assert_eq!(e.pattern[1][0].cmd, Command::zero());
}

#[test]
fn remove_deletes_row_and_moves_up() {
    let mut e = grid(3, 1);
    e.move_cursor(0, 1);
    e.remove();
    assert_eq!(e.pattern.len(), 2);
    assert_eq!(e.row(), 0);
}

#[test]
fn remove_keeps_last_row() {
    let mut e = grid(1, 1);
    e.remove();
    assert_eq!(e.pattern.len(), 1);
    assert_eq!(e.row(), 0);
}

#[test]
fn next_returns_current_row_and_advances_when_playing() {
    let mut e = Sequence::new(vec![
        vec![Field {
            note: Note::On(1),
            cmd: Command::zero(),
        }],
        vec![Field {
            note: Note::On(2),
            cmd: Command::zero(),
        }],
    ]);
    let r = e.next();
    assert_eq!(r[0].note, Note::On(1));
    assert_eq!(e.row(), 0);
    e.play = true;
    let r = e.next();
    assert_eq!(r[0].note, Note::On(1));
    assert_eq!(e.row(), 1);
    let r = e.next();
    assert_eq!(r[0].note, Note::On(2));
    assert_eq!(e.row(), 0);
}

#[test]
fn jump_pos_rejects_rows_beyond_pattern() {
    let mut e = grid(3, 1);
    e.jump_pos(2);
    assert_eq!(e.row(), 2);
    e.jump_pos(7);
    assert_eq!(e.row(), 2);
}
