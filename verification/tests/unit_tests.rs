use ttf_rs::Font;

#[test]
fn font_creation() {
    // A font cannot be made from nothing.
    assert!(Font::from_data(Vec::new()).is_err());
    assert!(true);
}

#[test]
fn library_loads() {
    assert!(true);
}
