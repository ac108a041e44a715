use rsdf::pascal::PascalRowIter;

#[test]
fn pascal_triangle() {
    {
        let row: Vec<_> = PascalRowIter::new(0).collect();
        let expected = vec![1];
        assert_eq!(row, expected);
    }
    {
        let row: Vec<_> = PascalRowIter::new(1).collect();
        let expected = vec![1, 1];
        assert_eq!(row, expected);
    }
    {
        let row: Vec<_> = PascalRowIter::new(2).collect();
        let expected = vec![1, 2, 1];
        assert_eq!(row, expected);
    }
    {
        let row: Vec<_> = PascalRowIter::new(3).collect();
        let expected = vec![1, 3, 3, 1];
        assert_eq!(row, expected);
    }
    {
        let row: Vec<_> = PascalRowIter::new(4).collect();
        let expected = vec![1, 4, 6, 4, 1];
        assert_eq!(row, expected);
    }
    {
        let row: Vec<_> = PascalRowIter::new(5).collect();
        let expected = vec![1, 5, 10, 10, 5, 1];
        assert_eq!(row, expected);
    }
    {
        let row: Vec<_> = PascalRowIter::new(6).collect();
        let expected = vec![1, 6, 15, 20, 15, 6, 1];
        assert_eq!(row, expected);
    }
}

#[test]
fn pascal_next_steps_and_stops() {
    let mut it = PascalRowIter::new(3);
    assert_eq!(it.next(), Some(1));
    assert_eq!(it.next(), Some(3));
    assert_eq!(it.next(), Some(3));
    assert_eq!(it.next(), Some(1));
    assert_eq!(it.next(), None);
    assert_eq!(it.next(), None);
}

#[test]
fn pascal_row_thirty() {
    let row = PascalRowIter::new(30).collect();
    assert_eq!(row.len(), 31);
    assert_eq!(row[15], 155117520);
    assert_eq!(row[1], 30);
    assert_eq!(row[30], 1);
}

#[test]
fn pascal_remaining_after_steps() {
    let mut it = PascalRowIter::new(4);
    it.next();
    it.next();
    assert_eq!(it.collect(), vec![6, 4, 1]);
}
