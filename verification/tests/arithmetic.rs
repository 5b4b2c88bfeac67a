#[test]
fn it_works() {
    let result = ripgross::add(2, 2);
    assert_eq!(result, 4);
}

#[test]
fn add_zero_is_identity() {
    assert_eq!(ripgross::add(0, 0), 0);
    assert_eq!(ripgross::add(7, 0), 7);
    assert_eq!(ripgross::add(0, usize::MAX), usize::MAX);
}
