use sauron_core::units::{ch, cm, inches, mm, pc, percent, pt, px, rgb, rgba, rotate};

#[test]
fn test_units() {
    assert_eq!(px(1), "1px");
    assert_eq!(mm(1), "1mm");
    assert_eq!(cm(2), "2cm");
    assert_eq!(pt(5), "5pt");
    assert_eq!(pc(5), "5pc");
    assert_eq!(inches("2.5"), "2.5in");
    assert_eq!(ch(1), "1ch");
}

#[test]
fn units_of_integers_and_text() {
    assert_eq!(inches(2), "2in");
    assert_eq!(percent(100), "100%");
    assert_eq!(px(-3), "-3px");
    assert_eq!(px("auto"), "autopx");
}

#[test]
fn css_functions() {
    assert_eq!(rgb(1, 2, 3), "rgb(1, 2, 3)");
    assert_eq!(rgba(10, 20, 30, "0.5"), "rgba(10, 20, 30, 0.5)");
    assert_eq!(rotate("45deg"), "rotate(45deg)");
}
