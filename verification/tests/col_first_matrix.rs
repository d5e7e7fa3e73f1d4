use mightrix::{ColumnPrio, ColumnPrioMatrix, Matrix, Reftrix, Stacktrix};

// A column first matrix
// 01-02-03-04
// 01-02-03-04
// 01-02-03-04
// 01-02-03-04
#[test]
fn col_first_stack() {
    let mut values = vec![1, 1, 1, 1, 2, 2, 2, 2, 3, 3, 3, 3, 4, 4, 4, 4];
    let mut m = Stacktrix::<16, 4, 4, ColumnPrio, u8>::from_values(&mut values);
    m.get_mut_row(1).unwrap();
    assert_eq!(*m.get(0, 0).unwrap(), 1);
    assert_eq!(*m.get(1, 0).unwrap(), 1);
    assert_eq!(*m.get(2, 0).unwrap(), 1);
    assert_eq!(*m.get(3, 0).unwrap(), 1);
}

#[test]
fn col_first_uneven() {
    let mut values = vec![1, 1, 1, 1, 2, 2, 2, 2, 3, 3, 3, 3];
    let mut m = Stacktrix::<12, 4, 3, ColumnPrio, u8>::from_values(&mut values);
    m.get_mut_row(1).unwrap();
    assert_eq!(*m.get(0, 0).unwrap(), 1);
    assert_eq!(*m.get(0, 1).unwrap(), 2);
    assert_eq!(*m.get(0, 2).unwrap(), 3);
    assert_eq!(*m.get(1, 0).unwrap(), 1);
}

#[test]
fn col_first_ref() {
    let mut values = vec![1, 1, 1, 1, 2, 2, 2, 2, 3, 3, 3, 3, 4, 4, 4, 4];
    let m = Reftrix::<4, 4, ColumnPrio, u8>::from_values(&mut values);
    assert_eq!(*m.get(0, 0).unwrap(), 1);
    assert_eq!(*m.get(1, 0).unwrap(), 1);
    assert_eq!(*m.get(2, 0).unwrap(), 1);
    assert_eq!(*m.get(3, 0).unwrap(), 1);
}

#[test]
fn col_first_heap() {
    let values = vec![1, 1, 1, 1, 2, 2, 2, 2, 3, 3, 3, 3, 4, 4, 4, 4];
    let m = Matrix::<ColumnPrio, u8>::from_values(4, 4, &values).expect("correct dimensions");
    assert_eq!(*m.get(0, 0).unwrap(), 1);
    assert_eq!(*m.get(1, 0).unwrap(), 1);
    assert_eq!(*m.get(2, 0).unwrap(), 1);
    assert_eq!(*m.get(3, 0).unwrap(), 1);
}

#[test]
#[should_panic]
fn col_out_of_bounds_col_stack() {
    let mut values = vec![1, 1, 1, 1, 2, 2, 2, 2, 3, 3, 3, 3, 4, 4, 4, 4];
    let m = Stacktrix::<16, 4, 4, ColumnPrio, u8>::from_values(&mut values);
    m.get_column(4).unwrap();
}

#[test]
#[should_panic]
fn col_out_of_bounds_col_ref() {
    let mut values = vec![1, 1, 1, 1, 2, 2, 2, 2, 3, 3, 3, 3, 4, 4, 4, 4];
    let m = Reftrix::<4, 4, ColumnPrio, u8>::from_values(&mut values);
    m.get_column(4).unwrap();
}

#[test]
#[should_panic]
fn col_out_of_bounds_col_heap() {
    let mut values = vec![1, 1, 1, 1, 2, 2, 2, 2, 3, 3, 3, 3, 4, 4, 4, 4];
    let m = Matrix::<ColumnPrio, u8>::from_values(4, 4, &mut values).unwrap();
    m.get_column(4).unwrap();
}

#[test]
#[should_panic]
fn row_out_of_bounds_col_stack() {
    let mut values = vec![1, 1, 1, 1, 2, 2, 2, 2, 3, 3, 3, 3, 4, 4, 4, 4];
    let m = Stacktrix::<16, 4, 4, ColumnPrio, u8>::from_values(&mut values);
    m.get_row(4).unwrap();
}

#[test]
#[should_panic]
fn row_out_of_bounds_col_ref() {
    let mut values = vec![1, 1, 1, 1, 2, 2, 2, 2, 3, 3, 3, 3, 4, 4, 4, 4];
    let m = Reftrix::<4, 4, ColumnPrio, u8>::from_values(&mut values);
    m.get_row(4).unwrap();
}

#[test]
#[should_panic]
fn row_out_of_bounds_col_heap() {
    let mut values = vec![1, 1, 1, 1, 2, 2, 2, 2, 3, 3, 3, 3, 4, 4, 4, 4];
    let m = Matrix::<ColumnPrio, u8>::from_values(4, 4, &mut values).unwrap();
    m.get_row(4).unwrap();
}

#[test]
#[should_panic]
fn row_index_out_of_bounds() {
    let mut values = vec![1, 1, 1, 1, 2, 2, 2, 2, 3, 3, 3, 3, 4, 4, 4, 4];
    let m = Reftrix::<4, 4, ColumnPrio, u8>::from_values(&mut values);
    let row = m.get_row(3).unwrap();
    let _ = row[5];
}

#[test]
fn iter_rows_ref() {
    let mut values = vec![1, 1, 1, 1, 2, 2, 2, 2, 3, 3, 3, 3, 4, 4, 4, 4];
    let mut m = Reftrix::<4, 4, ColumnPrio, u8>::from_values(&mut values);
    let mut rows = m.rows_mut();
    while let Some(row) = rows.next() {
        let mut elements = row.into_iter();
        let mut i = 0;
        while let Some(el) = elements.next() {
            *el += i as u8;
            i += 1;
        }
    }
    assert_eq!(
        &values[..],
        &[1, 1, 1, 1, 3, 3, 3, 3, 5, 5, 5, 5, 7, 7, 7, 7]
    );
}

#[test]
fn iter_cols_ref() {
    let mut values = vec![1, 1, 1, 1, 2, 2, 2, 2, 3, 3, 3, 3, 4, 4, 4, 4];
    let mut m = Reftrix::<4, 4, ColumnPrio, u8>::from_values(&mut values);
    let mut cols = m.cols_mut();
    while let Some(col) = cols.next() {
        for (i, el) in col.into_iter().enumerate() {
            *el += i as u8;
        }
    }
    assert_eq!(
        &values[..],
        &[1, 2, 3, 4, 2, 3, 4, 5, 3, 4, 5, 6, 4, 5, 6, 7]
    );
}

#[test]
fn iter_rows_heap() {
    let mut values = vec![1, 1, 1, 1, 2, 2, 2, 2, 3, 3, 3, 3, 4, 4, 4, 4];
    let mut m = Matrix::<ColumnPrio, u8>::from_values(4, 4, &mut values).unwrap();
    let mut rows = m.rows_mut();
    while let Some(row) = rows.next() {
        let mut elements = row.into_iter();
        let mut i = 0;
        while let Some(el) = elements.next() {
            *el += i as u8;
            i += 1;
        }
    }
    let mut x: Vec<u8> = Vec::new();
    let mut cols = m.cols();
    while let Some(col) = cols.next() {
        x.extend(col.into_iter().copied());
    }
    assert_eq!(&x, &[1, 1, 1, 1, 3, 3, 3, 3, 5, 5, 5, 5, 7, 7, 7, 7]);
}
