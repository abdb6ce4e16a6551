use let_engine::objects::appearance::{check_appearance_parts, missing_descriptor_sets, AppearanceBuilderError};
use let_engine::resources::buffer::Location;

#[test]
fn contiguous_sets_miss_nothing() {
    let locations = [Location::new(0, 0), Location::new(1, 3), Location::new(0, 1), Location::new(2, 0)];
    assert_eq!(missing_descriptor_sets(&locations), Vec::<u32>::new());
    assert_eq!(missing_descriptor_sets(&[]), Vec::<u32>::new());
}

#[test]
fn gaps_are_reported_in_ascending_order() {
    let locations = [Location::new(4, 0), Location::new(1, 0)];
    assert_eq!(missing_descriptor_sets(&locations), vec![0, 2, 3]);
}

#[test]
fn parts_must_be_present() {
    let r: Result<(u8, u8), AppearanceBuilderError<()>> = check_appearance_parts(None, Some(1u8), &[]);
    assert_eq!(r, Err(AppearanceBuilderError::Uninitialized));
    let r: Result<(u8, u8), AppearanceBuilderError<()>> = check_appearance_parts(Some(1u8), None, &[]);
    assert_eq!(r, Err(AppearanceBuilderError::Uninitialized));
}

#[test]
fn missing_sets_are_an_error() {
    let r: Result<(u8, u8), AppearanceBuilderError<()>> =
        check_appearance_parts(Some(1u8), Some(2u8), &[Location::new(2, 0)]);
    assert_eq!(r, Err(AppearanceBuilderError::MissingSets(vec![0, 1])));
}

#[test]
fn complete_parts_are_handed_back() {
    let r: Result<(u8, u8), AppearanceBuilderError<()>> =
        check_appearance_parts(Some(1u8), Some(2u8), &[Location::new(0, 0), Location::new(1, 0)]);
    assert_eq!(r, Ok((1, 2)));
}

#[test]
fn missing_sets_come_in_ascending_order_once_each() {
    let locations = [Location::new(1, 0), Location::new(3, 0), Location::new(3, 1)];
    let r: Result<(u8, u8), AppearanceBuilderError<()>> = check_appearance_parts(Some(1u8), Some(2u8), &locations);
    assert_eq!(r, Err(AppearanceBuilderError::MissingSets(vec![0, 2])));
}
