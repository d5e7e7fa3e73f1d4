use mightrix::{
    ColumnPrio, ColumnPrioMatrix, Matrix, Reftrix, RowPrio, RowPrioMatrix, Stacktrix,
};

const FLAT: [u8; 16] = [1, 1, 1, 1, 2, 2, 2, 2, 3, 3, 3, 3, 4, 4, 4, 4];

#[test]
fn insert_then_get_row_first() {
    let mut data = FLAT.to_vec();
    let mut m = Reftrix::<4, 4, RowPrio, u8>::from_values(&mut data);
    assert_eq!(m.insert(3, 1, 0), Ok(()));
    assert_eq!(*m.get(3, 1).unwrap(), 0);
    let mut expected = FLAT;
    expected[13] = 0;
    assert_eq!(data, expected);
}

#[test]
fn insert_then_get_column_first() {
    let mut data = FLAT.to_vec();
    let mut m = Reftrix::<4, 4, ColumnPrio, u8>::from_values(&mut data);
    assert_eq!(m.insert(3, 0, 0), Ok(()));
    assert_eq!(*m.get(3, 0).unwrap(), 0);
    let mut expected = FLAT;
    expected[3] = 0;
    assert_eq!(data, expected);
}

#[test]
fn insert_changes_one_cell_only() {
    let data: Vec<u8> = (0..12).collect();
    for row in 0..3 {
        for col in 0..4 {
            let mut m = Matrix::<RowPrio, u8>::from_values(3, 4, &data).unwrap();
            m.insert(row, col, 99).unwrap();
            for r in 0..3 {
                for c in 0..4 {
                    let expected = if (r, c) == (row, col) { 99 } else { data[r * 4 + c] };
                    assert_eq!(*m.get(r, c).unwrap(), expected);
                }
            }
            let mut m = Matrix::<ColumnPrio, u8>::from_values(3, 4, &data).unwrap();
            m.insert(row, col, 99).unwrap();
            for r in 0..3 {
                for c in 0..4 {
                    let expected = if (r, c) == (row, col) { 99 } else { data[c * 3 + r] };
                    assert_eq!(*m.get(r, c).unwrap(), expected);
                }
            }
        }
    }
}

#[test]
fn get_mut_writes_to_the_cell() {
    let mut data = FLAT.to_vec();
    let mut m = Reftrix::<4, 4, ColumnPrio, u8>::from_values(&mut data);
    *m.get_mut(1, 2).unwrap() += 10;
    assert_eq!(*m.get(1, 2).unwrap(), 13);
    assert_eq!(data[9], 13);

    let mut m = Stacktrix::<16, 4, 4, RowPrio, u8>::with_values(FLAT);
    *m.get_mut(1, 2).unwrap() = 40;
    assert_eq!(*m.get(1, 2).unwrap(), 40);
    assert_eq!(m.get_row(1).unwrap(), &[2, 2, 40, 2]);
}

#[test]
fn fill_row_then_get_row_row_first() {
    let mut data = FLAT.to_vec();
    let mut m = Reftrix::<4, 4, RowPrio, u8>::from_values(&mut data);
    m.fill_row(1, &[7, 8, 9, 10]).unwrap();
    assert_eq!(m.get_row(1).unwrap(), &[7, 8, 9, 10]);
    assert_eq!(m.get_row(0).unwrap(), &[1, 1, 1, 1]);
    assert_eq!(m.get_row(2).unwrap(), &[3, 3, 3, 3]);
    assert_eq!(&data[4..8], &[7, 8, 9, 10]);
}

#[test]
fn fill_col_then_get_column_row_first() {
    let mut data = FLAT.to_vec();
    let mut m = Reftrix::<4, 4, RowPrio, u8>::from_values(&mut data);
    m.fill_col(1, &[7, 8, 9, 10]).unwrap();
    let col = m.get_column(1).unwrap();
    assert_eq!((col[0], col[1], col[2], col[3]), (7, 8, 9, 10));
    assert_eq!(data, [1, 7, 1, 1, 2, 8, 2, 2, 3, 9, 3, 3, 4, 10, 4, 4]);
}

#[test]
fn fill_col_then_get_column_column_first() {
    let mut data = FLAT.to_vec();
    let mut m = Reftrix::<4, 4, ColumnPrio, u8>::from_values(&mut data);
    m.fill_col(1, &[7, 8, 9, 10]).unwrap();
    assert_eq!(m.get_column(1).unwrap(), &[7, 8, 9, 10]);
    assert_eq!(m.get_column(0).unwrap(), &[1, 1, 1, 1]);
    assert_eq!(&data[4..8], &[7, 8, 9, 10]);
}

#[test]
fn fill_row_then_get_row_column_first() {
    let mut data = FLAT.to_vec();
    let mut m = Reftrix::<4, 4, ColumnPrio, u8>::from_values(&mut data);
    m.fill_row(1, &[7, 8, 9, 10]).unwrap();
    let row = m.get_row(1).unwrap();
    assert_eq!((row[0], row[1], row[2], row[3]), (7, 8, 9, 10));
    assert_eq!(*m.get(1, 0).unwrap(), 7);
    assert_eq!(*m.get(1, 3).unwrap(), 10);
    assert_eq!(data, [1, 7, 1, 1, 2, 8, 2, 2, 3, 9, 3, 3, 4, 10, 4, 4]);
}

#[test]
fn fill_lines_of_an_uneven_matrix() {
    let data: Vec<u8> = vec![0; 6];
    let mut m = Matrix::<RowPrio, u8>::from_values(2, 3, &data).unwrap();
    m.fill_row(1, &[1, 2, 3]).unwrap();
    m.fill_col(2, &[8, 9]).unwrap();
    assert_eq!(m.get_row(0).unwrap(), &[0, 0, 8]);
    assert_eq!(m.get_row(1).unwrap(), &[1, 2, 9]);

    let mut m = Matrix::<ColumnPrio, u8>::from_values(2, 3, &data).unwrap();
    m.fill_row(1, &[1, 2, 3]).unwrap();
    m.fill_col(2, &[8, 9]).unwrap();
    assert_eq!(m.get_column(0).unwrap(), &[0, 1]);
    assert_eq!(m.get_column(1).unwrap(), &[0, 2]);
    assert_eq!(m.get_column(2).unwrap(), &[8, 9]);
}

#[test]
fn writing_through_a_contiguous_line() {
    let mut data = FLAT.to_vec();
    let mut m = Reftrix::<4, 4, RowPrio, u8>::from_values(&mut data);
    let row = m.get_mut_row(2).unwrap();
    row[0] = 30;
    row[3] = 33;
    assert_eq!(m.get_row(2).unwrap(), &[30, 3, 3, 33]);
    assert_eq!(data, [1, 1, 1, 1, 2, 2, 2, 2, 30, 3, 3, 33, 4, 4, 4, 4]);

    let mut m = Matrix::<ColumnPrio, u8>::from_values(4, 4, &FLAT).unwrap();
    m.get_mut_column(3).unwrap().copy_from_slice(&[5, 6, 7, 8]);
    assert_eq!(m.get_column(3).unwrap(), &[5, 6, 7, 8]);
    assert_eq!(m.get_column(2).unwrap(), &[3, 3, 3, 3]);
}

#[test]
fn writing_through_a_strided_line() {
    let mut data = FLAT.to_vec();
    let mut m = Reftrix::<4, 4, RowPrio, u8>::from_values(&mut data);
    let mut col = m.get_mut_column(2).unwrap();
    *col.get_mut(0).unwrap() = 10;
    *col.get_mut(3).unwrap() = 40;
    assert_eq!(data, [1, 1, 10, 1, 2, 2, 2, 2, 3, 3, 3, 3, 4, 4, 40, 4]);

    let mut m = Stacktrix::<16, 4, 4, ColumnPrio, u8>::with_values(FLAT);
    let mut row = m.get_mut_row(1).unwrap();
    *row.get_mut(2).unwrap() = 30;
    assert_eq!(*m.get(1, 2).unwrap(), 30);
    assert_eq!(m.get_column(2).unwrap(), &[3, 30, 3, 3]);
}

#[test]
fn apply_all_with_a_function_that_changes_nothing() {
    let mut data = FLAT.to_vec();
    let mut m = Reftrix::<4, 4, RowPrio, u8>::from_values(&mut data);
    m.apply_all(|_el| {});
    assert_eq!(data, FLAT);
    let mut m = Reftrix::<4, 4, ColumnPrio, u8>::from_values(&mut data);
    m.apply_all(|el| *el = *el);
    assert_eq!(data, FLAT);
}

#[test]
fn apply_all_doubles_every_cell() {
    let mut data = FLAT.to_vec();
    let mut m = Reftrix::<4, 4, ColumnPrio, u8>::from_values(&mut data);
    m.apply_all(|el| *el *= 2);
    assert_eq!(data, [2, 2, 2, 2, 4, 4, 4, 4, 6, 6, 6, 6, 8, 8, 8, 8]);

    let mut m = Stacktrix::<16, 4, 4, RowPrio, u8>::with_values(FLAT);
    m.apply_all(|el| *el *= 2);
    assert_eq!(m.get_row(0).unwrap(), &[2, 2, 2, 2]);
    assert_eq!(m.get_row(3).unwrap(), &[8, 8, 8, 8]);

    let mut m = Matrix::<RowPrio, u8>::new(3, 2, 2);
    m.apply_all(|el| *el += 1);
    assert_eq!(m.get_row(0).unwrap(), &[4, 4]);
    assert_eq!(m.get_row(1).unwrap(), &[4, 4]);
}
