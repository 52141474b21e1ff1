use tui_bingo::game::Action;
use tui_bingo::game::Event;
use tui_bingo::game::GameState;
use tui_bingo::game::Key;
use tui_bingo::render::CellStyle;
use tui_bingo::render::cell_label_index;
use tui_bingo::render::cell_style;

#[test]
fn labels_are_laid_out_row_major() {
    assert_eq!(cell_label_index(0, 0), 0);
    assert_eq!(cell_label_index(0, 4), 4);
    assert_eq!(cell_label_index(2, 3), 13);
    assert_eq!(cell_label_index(4, 4), 24);
}

#[test]
fn cell_styles_follow_cursor_and_marks() {
    let mut state = GameState::new();
    // Fresh state: the cursor sits on the origin cell, nothing is marked.
    assert_eq!(cell_style(&state, 0, 0), CellStyle::CursorOnly);
    assert_eq!(cell_style(&state, 1, 1), CellStyle::Plain);

    // Mark the cell under the cursor: cursor and mark coincide on screen.
    assert_eq!(state.step(Event::Input(Key::Enter)), Action::Nop);
    assert_eq!(cell_style(&state, 0, 0), CellStyle::MarkedAndCursor);

    // Move away: the mark stays put and the cursor highlight moves.
    state.step(Event::Input(Key::Down));
    assert_eq!(cell_style(&state, 0, 0), CellStyle::MarkedOnly);
    assert_eq!(cell_style(&state, 1, 0), CellStyle::CursorOnly);
    assert_eq!(cell_style(&state, 2, 2), CellStyle::Plain);
}
