use mightrix::pretty::render;
use mightrix::{
    ColumnPrio, ColumnPrioMatrix, Matrix, Reftrix, RowPrio, RowPrioMatrix, Stacktrix,
};

fn texts(cells: &[&str]) -> Vec<String> {
    cells.iter().map(|cell| cell.to_string()).collect()
}

#[test]
fn render_puts_a_dash_between_neighbours() {
    let cells = texts(&["a", "bb", "c", "d", "", "f"]);
    assert_eq!(render(&cells, 2, 3), "a-bb-c\nd--f\n");
    assert_eq!(render(&cells, 3, 2), "a-bb\nc-d\n-f\n");
    assert_eq!(render(&cells, 1, 6), "a-bb-c-d--f\n");
    assert_eq!(render(&cells, 6, 1), "a\nbb\nc\nd\n\nf\n");
}

#[test]
fn render_without_cells() {
    let none = texts(&[]);
    assert_eq!(render(&none, 0, 0), "");
    assert_eq!(render(&none, 0, 3), "");
    assert_eq!(render(&none, 2, 0), "\n\n");
}

#[test]
fn pretty_string_of_a_row_first_matrix() {
    let m = Matrix::<RowPrio, u8>::from_values(2, 3, &[1, 2, 3, 10, 11, 255]).unwrap();
    assert_eq!(m.pretty_string(), "01-02-03\n0a-0b-ff\n");
}

#[test]
fn pretty_string_of_a_column_first_matrix() {
    let m = Matrix::<ColumnPrio, u8>::from_values(2, 3, &[1, 2, 3, 10, 11, 255]).unwrap();
    assert_eq!(m.pretty_string(), "01-03-0b\n02-0a-ff\n");
}

#[test]
fn pretty_string_is_the_same_for_every_matrix_type() {
    let flat = [1u8, 1, 1, 1, 2, 2, 2, 2, 3, 3, 3, 3, 4, 4, 4, 4];
    let by_rows = "01-01-01-01\n02-02-02-02\n03-03-03-03\n04-04-04-04\n";
    let by_cols = "01-02-03-04\n01-02-03-04\n01-02-03-04\n01-02-03-04\n";
    let mut values = flat.to_vec();
    assert_eq!(Matrix::<RowPrio, u8>::from_values(4, 4, &flat).unwrap().pretty_string(), by_rows);
    assert_eq!(Stacktrix::<16, 4, 4, RowPrio, u8>::with_values(flat).pretty_string(), by_rows);
    assert_eq!(Reftrix::<4, 4, RowPrio, u8>::from_values(&mut values).pretty_string(), by_rows);
    assert_eq!(
        Matrix::<ColumnPrio, u8>::from_values(4, 4, &flat).unwrap().pretty_string(),
        by_cols
    );
    assert_eq!(Stacktrix::<16, 4, 4, ColumnPrio, u8>::with_values(flat).pretty_string(), by_cols);
    assert_eq!(
        Reftrix::<4, 4, ColumnPrio, u8>::from_values(&mut values).pretty_string(),
        by_cols
    );
}
