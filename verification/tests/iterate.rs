use mightrix::{
    ColumnPrio, ColumnPrioMatrix, Matrix, Reftrix, RowPrio, RowPrioMatrix, Stacktrix,
};

const FLAT: [u8; 16] = [1, 1, 1, 1, 2, 2, 2, 2, 3, 3, 3, 3, 4, 4, 4, 4];

fn sorted(mut values: Vec<u8>) -> Vec<u8> {
    values.sort();
    values
}

#[test]
fn rows_of_a_row_first_matrix_rebuild_the_buffer() {
    let data: Vec<u8> = (0..12).collect();
    let m = Matrix::<RowPrio, u8>::from_values(3, 4, &data).unwrap();
    let mut seen = Vec::new();
    let mut count = 0;
    let mut rows = m.rows();
    while let Some(row) = rows.next() {
        assert_eq!(row.len(), 4);
        seen.extend_from_slice(row);
        count += 1;
    }
    assert_eq!(count, 3);
    assert_eq!(seen, data);
    assert!(rows.next().is_none());
}

#[test]
fn cols_of_a_row_first_matrix_hold_every_cell_once() {
    let data: Vec<u8> = (0..12).collect();
    let m = Matrix::<RowPrio, u8>::from_values(3, 4, &data).unwrap();
    let mut seen = Vec::new();
    let mut count = 0;
    let mut cols = m.cols();
    while let Some(col) = cols.next() {
        assert_eq!(col.len(), 3);
        let mut elements = col.into_iter();
        while let Some(el) = elements.next() {
            seen.push(*el);
        }
        count += 1;
    }
    assert_eq!(count, 4);
    assert_eq!(seen, [0, 4, 8, 1, 5, 9, 2, 6, 10, 3, 7, 11]);
    assert_eq!(sorted(seen), data);
    assert!(cols.next().is_none());
}

#[test]
fn cols_of_a_column_first_matrix_rebuild_the_buffer() {
    let data: Vec<u8> = (0..12).collect();
    let m = Matrix::<ColumnPrio, u8>::from_values(3, 4, &data).unwrap();
    let mut seen = Vec::new();
    let mut count = 0;
    let mut cols = m.cols();
    while let Some(col) = cols.next() {
        assert_eq!(col.len(), 3);
        seen.extend_from_slice(col);
        count += 1;
    }
    assert_eq!(count, 4);
    assert_eq!(seen, data);
}

#[test]
fn rows_of_a_column_first_matrix_hold_every_cell_once() {
    let data: Vec<u8> = (0..12).collect();
    let m = Matrix::<ColumnPrio, u8>::from_values(3, 4, &data).unwrap();
    let mut seen = Vec::new();
    let mut count = 0;
    let mut rows = m.rows();
    while let Some(row) = rows.next() {
        assert_eq!(row.len(), 4);
        for k in 0..row.len() {
            seen.push(row[k]);
        }
        count += 1;
    }
    assert_eq!(count, 3);
    assert_eq!(seen, [0, 3, 6, 9, 1, 4, 7, 10, 2, 5, 8, 11]);
    assert_eq!(sorted(seen), data);
}

#[test]
fn rows_come_in_ascending_order() {
    let m = Stacktrix::<16, 4, 4, RowPrio, u8>::with_values(FLAT);
    let mut rows = m.rows();
    assert_eq!(rows.next().unwrap(), &[1, 1, 1, 1]);
    assert_eq!(rows.next().unwrap(), &[2, 2, 2, 2]);
    assert_eq!(rows.next().unwrap(), &[3, 3, 3, 3]);
    assert_eq!(rows.next().unwrap(), &[4, 4, 4, 4]);
    assert!(rows.next().is_none());
    assert!(rows.next().is_none());

    let m = Stacktrix::<6, 2, 3, ColumnPrio, u8>::with_values([1, 2, 3, 4, 5, 6]);
    let mut rows = m.rows();
    let first = rows.next().unwrap();
    assert_eq!((first[0], first[1], first[2]), (1, 3, 5));
    let second = rows.next().unwrap();
    assert_eq!((second[0], second[1], second[2]), (2, 4, 6));
    assert!(rows.next().is_none());
}

#[test]
fn adding_the_place_in_the_row_row_first() {
    let mut values = FLAT.to_vec();
    let mut m = Reftrix::<4, 4, RowPrio, u8>::from_values(&mut values);
    let mut rows = m.rows_mut();
    while let Some(row) = rows.next() {
        for (i, el) in row.iter_mut().enumerate() {
            *el += i as u8;
        }
    }
    assert_eq!(values, [1, 2, 3, 4, 2, 3, 4, 5, 3, 4, 5, 6, 4, 5, 6, 7]);
}

#[test]
fn adding_the_place_in_the_column_row_first() {
    let mut values = FLAT.to_vec();
    let mut m = Reftrix::<4, 4, RowPrio, u8>::from_values(&mut values);
    let mut cols = m.cols_mut();
    while let Some(col) = cols.next() {
        let mut elements = col.into_iter();
        let mut i = 0;
        while let Some(el) = elements.next() {
            *el += i;
            i += 1;
        }
    }
    assert_eq!(values, [1, 1, 1, 1, 3, 3, 3, 3, 5, 5, 5, 5, 7, 7, 7, 7]);
}

#[test]
fn adding_the_number_of_the_line_to_each_of_its_elements() {
    let mut m = Matrix::<ColumnPrio, u8>::new(0, 2, 3);
    let mut rows = m.rows_mut();
    let mut number = 0;
    while let Some(row) = rows.next() {
        let mut elements = row.into_iter();
        while let Some(el) = elements.next() {
            *el += 10 * (number + 1);
        }
        number += 1;
    }
    assert_eq!(number, 2);
    let mut cols = m.cols_mut();
    let mut number = 0;
    while let Some(col) = cols.next() {
        for el in col.iter_mut() {
            *el += number + 1;
        }
        number += 1;
    }
    assert_eq!(number, 3);
    assert_eq!(m.get_column(0).unwrap(), &[11, 21]);
    assert_eq!(m.get_column(1).unwrap(), &[12, 22]);
    assert_eq!(m.get_column(2).unwrap(), &[13, 23]);
}

#[test]
fn contiguous_lines_can_be_held_together() {
    let mut values = FLAT.to_vec();
    let mut m = Reftrix::<4, 4, ColumnPrio, u8>::from_values(&mut values);
    let mut cols = m.cols_mut();
    let first = cols.next().unwrap();
    let second = cols.next().unwrap();
    let third = cols.next().unwrap();
    let fourth = cols.next().unwrap();
    assert!(cols.next().is_none());
    fourth[0] = 40;
    first[3] = 13;
    third.swap_with_slice(second);
    assert_eq!(values, [1, 1, 1, 13, 3, 3, 3, 3, 2, 2, 2, 2, 40, 4, 4, 4]);
}

#[test]
fn a_matrix_without_columns_still_has_its_rows() {
    let none: [u8; 0] = [];
    let mut m = Matrix::<RowPrio, u8>::from_values(3, 0, &none).unwrap();
    let mut rows = m.rows();
    let mut count = 0;
    while let Some(row) = rows.next() {
        assert!(row.is_empty());
        count += 1;
    }
    assert_eq!(count, 3);
    let mut cols = m.cols();
    assert!(cols.next().is_none());
    let mut rows = m.rows_mut();
    let mut count = 0;
    while let Some(row) = rows.next() {
        assert!(row.is_empty());
        count += 1;
    }
    assert_eq!(count, 3);
    assert!(m.cols_mut().next().is_none());

    let mut m = Matrix::<ColumnPrio, u8>::from_values(3, 0, &none).unwrap();
    let mut rows = m.rows();
    let mut count = 0;
    while let Some(row) = rows.next() {
        assert_eq!(row.len(), 0);
        count += 1;
    }
    assert_eq!(count, 3);
    assert!(m.cols().next().is_none());
    let mut rows = m.rows_mut();
    let mut count = 0;
    while let Some(row) = rows.next() {
        assert_eq!(row.len(), 0);
        count += 1;
    }
    assert_eq!(count, 3);
}

#[test]
fn a_matrix_without_rows_still_has_its_columns() {
    let none: [u8; 0] = [];
    let m = Matrix::<RowPrio, u8>::from_values(0, 2, &none).unwrap();
    assert!(m.rows().next().is_none());
    let mut cols = m.cols();
    let mut count = 0;
    while let Some(col) = cols.next() {
        assert_eq!(col.len(), 0);
        count += 1;
    }
    assert_eq!(count, 2);

    let m = Matrix::<ColumnPrio, u8>::from_values(0, 2, &none).unwrap();
    assert!(m.rows().next().is_none());
    let mut cols = m.cols();
    let mut count = 0;
    while let Some(col) = cols.next() {
        assert!(col.is_empty());
        count += 1;
    }
    assert_eq!(count, 2);
}
