use fibonacci_spiral::style::Style;

#[test]
fn default_style() {
    let s = Style::default();
    assert_eq!(s.line_width, 5);
    assert_eq!(s.line_color, 0x555555);
    assert_eq!(s.main_colors, vec![0xB00B69, 0x042069, 0xB4DA55, 0x069420]);
}

#[test]
fn colors_cycle_with_palette_length() {
    let s = Style::default();
    for i in 0..20 {
        assert_eq!(s.get_color(i), s.get_color(i + 4));
    }
    assert_eq!(s.get_color(6), 0xB4DA55);
}

#[test]
fn empty_palette_is_rejected() {
    assert!(Style::new(5, 0, vec![]).is_none());
    let s = Style::new(2, 7, vec![9]).unwrap();
    assert_eq!(s.get_color(123), 9);
}
