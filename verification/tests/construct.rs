use mightrix::{
    ColumnPrio, ColumnPrioMatrix, Matrix, Reftrix, RowPrio, RowPrioMatrix, Stacktrix,
};

#[test]
fn new_fills_every_cell_with_the_initial_value() {
    let m = Matrix::<RowPrio, u8>::new(7, 2, 3);
    for row in 0..2 {
        for col in 0..3 {
            assert_eq!(*m.get(row, col).unwrap(), 7);
        }
    }
    assert!(m.get(2, 0).is_err());
    assert!(m.get(0, 3).is_err());
    assert_eq!(m.get_row(1).unwrap(), &[7, 7, 7]);

    let m = Matrix::<ColumnPrio, i32>::new(-1, 3, 2);
    assert_eq!(m.get_column(0).unwrap(), &[-1, -1, -1]);
    assert_eq!(m.get_column(1).unwrap(), &[-1, -1, -1]);
    assert!(m.get_column(2).is_err());
}

#[test]
fn new_without_cells() {
    let m = Matrix::<RowPrio, u8>::new(7, 0, 0);
    assert!(m.get(0, 0).is_err());
    assert!(m.rows().next().is_none());
}

#[test]
fn the_heap_matrix_works_on_a_copy() {
    let data = vec![1, 2, 3, 4];
    let mut m = Matrix::<RowPrio, u8>::from_values(2, 2, &data).unwrap();
    m.insert(0, 0, 9).unwrap();
    assert_eq!(*m.get(0, 0).unwrap(), 9);
    assert_eq!(data, [1, 2, 3, 4]);
}

#[test]
fn a_clone_is_a_matrix_of_its_own() {
    let data = vec![1, 2, 3, 4, 5, 6];
    let mut m = Matrix::<ColumnPrio, u8>::from_values(2, 3, &data).unwrap();
    let copy = m.clone();
    m.insert(1, 2, 0).unwrap();
    assert_eq!(*m.get(1, 2).unwrap(), 0);
    assert_eq!(*copy.get(1, 2).unwrap(), 6);
    assert_eq!(copy.get_column(1).unwrap(), &[3, 4]);
    assert!(copy.get(2, 0).is_err());
}

#[test]
fn the_stack_matrix_works_on_a_copy() {
    let data = vec![1, 2, 3, 4, 5, 6];
    let mut m = Stacktrix::<6, 3, 2, ColumnPrio, u8>::from_values(&data);
    assert_eq!(m.get_column(0).unwrap(), &[1, 2, 3]);
    assert_eq!(m.get_column(1).unwrap(), &[4, 5, 6]);
    m.apply_all(|el| *el = 0);
    assert_eq!(m.get_column(0).unwrap(), &[0, 0, 0]);
    assert_eq!(data, [1, 2, 3, 4, 5, 6]);
}

#[test]
fn the_stack_matrix_over_an_array() {
    let m = Stacktrix::<6, 3, 2, ColumnPrio, u8>::with_values([1, 2, 3, 4, 5, 6]);
    assert_eq!(*m.get(2, 1).unwrap(), 6);
    assert_eq!(*m.get(0, 1).unwrap(), 4);
    let m = Stacktrix::<6, 3, 2, RowPrio, u8>::with_values([1, 2, 3, 4, 5, 6]);
    assert_eq!(*m.get(2, 1).unwrap(), 6);
    assert_eq!(*m.get(0, 1).unwrap(), 2);
}

#[test]
fn the_stack_matrix_without_cells() {
    let none: [u8; 0] = [];
    let m = Stacktrix::<0, 0, 4, RowPrio, u8>::from_values(&none);
    assert!(m.get(0, 0).is_err());
    assert!(m.rows().next().is_none());
}

#[test]
fn the_borrowed_matrix_writes_to_the_lender() {
    let mut data = vec![1, 1, 1, 1, 2, 2, 2, 2, 3, 3, 3, 3, 4, 4, 4, 4];
    let mut m = Reftrix::<4, 4, ColumnPrio, u8>::from_values(&mut data[..]);
    m.fill_col(1, &[7, 7, 7, 7]).unwrap();
    m.insert(3, 0, 0).unwrap();
    assert_eq!(&data[4..8], &[7, 7, 7, 7]);
    assert_eq!(data[3], 0);

    let mut m = Reftrix::<4, 4, RowPrio, u8>::from_values(&mut data[..]);
    m.insert(3, 1, 9).unwrap();
    assert_eq!(data[13], 9);
}
