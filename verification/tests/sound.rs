use let_engine::sound::load_sound;

#[test]
fn sound_holds_the_given_bytes() {
    let s = load_sound(&[1, 2, 3]);
    assert_eq!(&*s.data, &[1, 2, 3]);
    assert_eq!(load_sound(&[]).data.len(), 0);
}
