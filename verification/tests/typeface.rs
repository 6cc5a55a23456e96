use tm20::typeface::{Align, Dots, Weight};

#[test]
fn weights_are_css_numbers() {
    assert_eq!(Weight::regular(), Weight(400));
    assert_eq!(Weight::medium(), Weight(500));
    assert_eq!(Weight::semibold(), Weight(600));
    assert_eq!(Weight::bold(), Weight(700));
}

#[test]
fn tape_is_the_printable_width() {
    assert_eq!(Dots::tape().get(), 576);
}

#[test]
fn zero_dots_is_refused() {
    assert_eq!(Dots::new(0), None);
    assert_eq!(Dots::new(12).map(Dots::get), Some(12));
    assert_ne!(Align::Left, Align::Right);
}
