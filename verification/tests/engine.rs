use let_engine::{CustomError, Direction};

fn as_custom_error<E: CustomError>(error: E) -> E {
    error
}

#[test]
fn any_sendable_error_is_a_custom_error() {
    assert_eq!(as_custom_error(String::from("failed")), "failed");
    assert_eq!(as_custom_error(std::io::ErrorKind::NotFound), std::io::ErrorKind::NotFound);
}

#[test]
fn directions_compare_by_variant() {
    assert_eq!(Direction::Nw, Direction::Nw);
    assert_ne!(Direction::N, Direction::S);
    let d = Direction::Center;
    let copy = d;
    assert_eq!(d, copy);
}
