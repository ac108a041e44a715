use rsdf::memo::Memo;

#[test]
fn memo() {
    let memo: Memo<usize> = Memo::Uninitialised;
    assert!(memo.is_uninitialised());
    assert!(!memo.is_initialised());

    let memo: Memo<usize> = Memo::Value(1);
    assert!(!memo.is_uninitialised());
    assert!(memo.is_initialised());
    assert_eq!(memo.unwrap(), &1);
}
