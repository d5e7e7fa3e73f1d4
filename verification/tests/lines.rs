use mightrix::{
    ColumnPrio, ColumnPrioMatrix, IntermittentSliceMut, Matrix, MatrixError, Reftrix, RowPrio,
    RowPrioMatrix,
};

#[test]
fn strided_line_by_index() {
    let data: Vec<u8> = (0..12).collect();
    let m = Matrix::<RowPrio, u8>::from_values(3, 4, &data).unwrap();
    let col = m.get_column(1).unwrap();
    assert_eq!(col.len(), 3);
    assert_eq!(col[0], 1);
    assert_eq!(col[1], 5);
    assert_eq!(col[2], 9);
    assert_eq!(col.get(0), Ok(&1));
    assert_eq!(col.get(2), Ok(&9));
    assert_eq!(col.get(3), Err(MatrixError::IndexOutOfBounds));
    assert_eq!(col.get(usize::MAX), Err(MatrixError::IndexOutOfBounds));
}

#[test]
fn strided_line_by_iteration() {
    let data: Vec<u8> = (0..12).collect();
    let m = Matrix::<ColumnPrio, u8>::from_values(3, 4, &data).unwrap();
    let row = m.get_row(2).unwrap();
    let mut elements = row.into_iter();
    assert_eq!(elements.next(), Some(&2));
    assert_eq!(elements.next(), Some(&5));
    assert_eq!(elements.next(), Some(&8));
    assert_eq!(elements.next(), Some(&11));
    assert_eq!(elements.next(), None);
    assert_eq!(elements.next(), None);
}

#[test]
fn mutable_strided_line_reads_and_writes() {
    let mut data: Vec<u8> = (0..12).collect();
    let mut m = Reftrix::<3, 4, RowPrio, u8>::from_values(&mut data);
    let mut col = m.get_mut_column(3).unwrap();
    assert_eq!(col.len(), 3);
    assert_eq!((col[0], col[1], col[2]), (3, 7, 11));
    assert_eq!(col.get(1), Ok(&7));
    assert_eq!(col.get(3), Err(MatrixError::IndexOutOfBounds));
    assert_eq!(col.get_mut(3).err(), Some(MatrixError::IndexOutOfBounds));
    *col.get_mut(1).unwrap() = 70;
    assert_eq!(col[1], 70);
    assert_eq!(data, [0, 1, 2, 3, 4, 5, 6, 70, 8, 9, 10, 11]);
}

#[test]
fn swap_exchanges_two_elements_of_a_line() {
    let mut data: Vec<u8> = (0..12).collect();
    let mut m = Reftrix::<3, 4, RowPrio, u8>::from_values(&mut data);
    let mut col = m.get_mut_column(1).unwrap();
    assert_eq!(col.swap(0, 2), Ok(()));
    assert_eq!((col[0], col[1], col[2]), (9, 5, 1));
    assert_eq!(col.swap(2, 1), Ok(()));
    assert_eq!((col[0], col[1], col[2]), (9, 1, 5));
    assert_eq!(col.swap(1, 1), Ok(()));
    assert_eq!((col[0], col[1], col[2]), (9, 1, 5));
    assert_eq!(data, [0, 9, 2, 3, 4, 1, 6, 7, 8, 5, 10, 11]);
}

#[test]
fn swap_beyond_the_line_changes_nothing() {
    let mut data: Vec<u8> = (0..12).collect();
    let mut m = Reftrix::<3, 4, ColumnPrio, u8>::from_values(&mut data);
    let mut row = m.get_mut_row(0).unwrap();
    assert_eq!(row.swap(0, 4), Err(MatrixError::IndexOutOfBounds));
    assert_eq!(row.swap(4, 0), Err(MatrixError::IndexOutOfBounds));
    assert_eq!(row.swap(7, 9), Err(MatrixError::IndexOutOfBounds));
    assert_eq!(data, [0, 1, 2, 3, 4, 5, 6, 7, 8, 9, 10, 11]);
}

#[test]
fn mutable_strided_line_by_iteration() {
    let mut data: Vec<u8> = (0..12).collect();
    let mut m = Reftrix::<3, 4, ColumnPrio, u8>::from_values(&mut data);
    let row = m.get_mut_row(1).unwrap();
    let mut elements = row.into_iter();
    let mut seen = Vec::new();
    while let Some(el) = elements.next() {
        seen.push(*el);
        *el = 0;
    }
    assert!(elements.next().is_none());
    assert_eq!(seen, [1, 4, 7, 10]);
    assert_eq!(data, [0, 0, 2, 3, 0, 5, 6, 0, 8, 9, 0, 11]);
}

#[test]
fn a_line_over_a_buffer_of_its_own() {
    let mut buffer = [1, 2, 3, 4, 5, 6, 7];
    let mut line = IntermittentSliceMut { buffer: &mut buffer, start: 1, slices: 3, len: 2 };
    assert_eq!((line[0], line[1]), (2, 5));
    line.swap(0, 1).unwrap();
    *line.get_mut(0).unwrap() += 10;
    assert_eq!(buffer, [1, 15, 3, 4, 2, 6, 7]);
}
