use matrix2d::error::BoundError;
use matrix2d::matrix::Matrix;

#[test]
fn message_embeds_both_coordinates() {
    assert_eq!(BoundError::Exceed(100, 7).message(), "out of bounds, got index (100, 7)");
    assert_eq!(BoundError::Exceed(0, 0).message(), "out of bounds, got index (0, 0)");
    assert_eq!(BoundError::Exceed(9, 10).message(), "out of bounds, got index (9, 10)");
    assert_eq!(
        BoundError::Exceed(1234567890, 9081726354).message(),
        "out of bounds, got index (1234567890, 9081726354)"
    );
}

#[test]
fn message_renders_the_largest_index() {
    let expected = format!("out of bounds, got index ({}, {})", usize::MAX, usize::MAX - 1);
    assert_eq!(BoundError::Exceed(usize::MAX, usize::MAX - 1).message(), expected);
}

#[test]
fn message_agrees_with_std_on_many_numbers() {
    let mut n: usize = 0;
    while n < 5000 {
        let expected = format!("out of bounds, got index ({}, {})", n, 5000 - n);
        assert_eq!(BoundError::Exceed(n, 5000 - n).message(), expected);
        n += 7;
    }
}

#[test]
fn error_of_a_rejected_access_renders_the_pair() {
    let matrix = Matrix::<usize>::new(2, 2);
    let error = matrix.get(2, 1).unwrap_err();
    assert_eq!(error, BoundError::Exceed(2, 1));
    assert_eq!(error.message(), "out of bounds, got index (2, 1)");
    assert_eq!(format!("{:?}", error), "Exceed(2, 1)");
}
