use sandbox::nono::{Cell, Nonogram};

fn small() -> Nonogram {
    Nonogram::new((2, 2), vec![(0, vec![2]), (1, vec![1])], vec![(0, vec![2]), (1, vec![1])])
}

#[test]
fn new_nonogram_is_empty() {
    let n = small();
    assert!(n.is_empty());
    assert_eq!(n.cells.len(), 4);
    assert_eq!(*n.get((1, 1)), Cell::Empty);
}

#[test]
fn set_then_get() {
    let mut n = small();
    n.set((1, 0), Cell::Filled);
    assert_eq!(*n.get((1, 0)), Cell::Filled);
    assert_eq!(*n.get((0, 0)), Cell::Empty);
    assert!(!n.is_empty());
}

#[test]
fn solved_grid_is_valid() {
    let mut n = small();
    assert!(!n.is_valid());
    n.set((0, 0), Cell::Filled);
    n.set((1, 0), Cell::Filled);
    n.set((0, 1), Cell::Filled);
    assert!(n.is_valid());
    n.set((1, 1), Cell::Filled);
    assert!(!n.is_valid());
}

#[test]
fn line_clues() {
    let f = Cell::Filled;
    let e = Cell::Empty;
    assert!(Nonogram::verify_line(&[f, f, e, f], &vec![2, 1]));
    assert!(!Nonogram::verify_line(&[f, f, e, f], &vec![1, 2]));
    assert!(Nonogram::verify_line(&[e, e, e], &vec![]));
    assert!(Nonogram::verify_line(&[f, f, f], &vec![3]));
    assert!(!Nonogram::verify_line(&[f, e, f], &vec![2]));
}

#[test]
fn text_shows_cells_and_clues() {
    let mut n = small();
    n.set((0, 0), Cell::Filled);
    n.set((1, 0), Cell::Filled);
    n.set((0, 1), Cell::Filled);
    assert_eq!(n.to_text(), "* *  2\n* -  1\n2 1 \n");
}

#[test]
fn text_leaves_room_for_missing_column_clues() {
    let n = Nonogram::new((2, 1), vec![], vec![(1, vec![1, 3])]);
    assert_eq!(n.to_text(), "- - \n  1 \n  3 \n");
}

#[test]
fn cells_print_as_characters() {
    assert_eq!(Cell::Empty.to_char(), '-');
    assert_eq!(Cell::Filled.to_char(), '*');
    assert_eq!(Cell::Filled.to_text(), "*");
    assert!(Cell::Empty.is_empty());
    assert!(!Cell::Filled.is_empty());
    assert_eq!(Cell::default(), Cell::Empty);
}

#[test]
fn clone_keeps_everything() {
    let mut n = small();
    n.set((0, 1), Cell::Filled);
    let c = n.clone();
    assert_eq!(c.cells, n.cells);
    assert_eq!(c.size, n.size);
    assert_eq!(c.horizontal_clues, n.horizontal_clues);
    assert_eq!(c.vertical_clues, n.vertical_clues);
}
