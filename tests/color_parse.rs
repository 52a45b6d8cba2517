use rwaybar::color::Rgba;
use rwaybar::format::{find_font, ItemFormat, StyleValues};
use rwaybar::parse::{milli_at, parse_align, parse_alpha, parse_font, parse_trbl, word_spans};
use rwaybar::style::{Formatting, Style, Trbl, Width};
use rwaybar::text::chars_of;

fn rgba(r: u16, g: u16, b: u16, a: u16) -> Rgba {
    Rgba { r, g, b, a }
}

#[test]
fn hex_short_with_alpha() {
    assert_eq!(Formatting::parse_rgba(Some("#0f08"), None), Some(rgba(0, 0xFFFF, 0, 0x8888)));
}

#[test]
fn hex_every_length() {
    assert_eq!(Formatting::parse_rgba(Some("#f80"), None), Some(rgba(0xFFFF, 0x8888, 0, 0xFFFF)));
    assert_eq!(Formatting::parse_rgba(Some("#12345678"), None), Some(rgba(0x1212, 0x3434, 0x5656, 0x7878)));
    assert_eq!(Formatting::parse_rgba(Some("#123456"), None), Some(rgba(0x1212, 0x3434, 0x5656, 0xFFFF)));
    assert_eq!(Formatting::parse_rgba(Some("#111122223333"), None), Some(rgba(0x1111, 0x2222, 0x3333, 0xFFFF)));
    assert_eq!(
        Formatting::parse_rgba(Some("#111122223333abcd"), None),
        Some(rgba(0x1111, 0x2222, 0x3333, 0xabcd))
    );
}

#[test]
fn hex_upper_case_digits() {
    assert_eq!(Formatting::parse_rgba(Some("#ABC"), None), Some(rgba(0xAAAA, 0xBBBB, 0xCCCC, 0xFFFF)));
}

#[test]
fn hex_alpha_digits_win_over_alpha() {
    assert_eq!(Formatting::parse_rgba(Some("#0f08"), Some(0x1000)), Some(rgba(0, 0xFFFF, 0, 0x8888)));
}

#[test]
fn bad_hex_falls_back_to_black_keeping_alpha() {
    assert_eq!(Formatting::parse_rgba(Some("#zzz"), Some(0x1234)), Some(rgba(0, 0, 0, 0x1234)));
    assert_eq!(Formatting::parse_rgba(Some("#12"), None), Some(rgba(0, 0, 0, 0xFFFF)));
    assert_eq!(Formatting::parse_rgba(Some("#"), None), Some(rgba(0, 0, 0, 0xFFFF)));
}

#[test]
fn hex_with_plus_sign_reads_fewer_digits() {
    assert_eq!(Formatting::parse_rgba(Some("#+0f0"), None), Some(rgba(0, 0, 0xFFFF, 0)));
}

#[test]
fn named_colors() {
    assert_eq!(Formatting::parse_rgba(Some("red"), None), Some(rgba(0xFFFF, 0, 0, 0xFFFF)));
    assert_eq!(Formatting::parse_rgba(Some("yellow"), None), Some(rgba(0xFFFF, 0xFFFF, 0, 0xFFFF)));
    assert_eq!(Formatting::parse_rgba(Some("green"), None), Some(rgba(0, 0xFFFF, 0, 0xFFFF)));
    assert_eq!(Formatting::parse_rgba(Some("blue"), None), Some(rgba(0, 0, 0xFFFF, 0xFFFF)));
    assert_eq!(Formatting::parse_rgba(Some("gray"), None), Some(rgba(0x7FFF, 0x7FFF, 0x7FFF, 0xFFFF)));
    assert_eq!(Formatting::parse_rgba(Some("white"), None), Some(rgba(0xFFFF, 0xFFFF, 0xFFFF, 0xFFFF)));
    assert_eq!(Formatting::parse_rgba(Some("black"), None), Some(rgba(0, 0, 0, 0xFFFF)));
}

#[test]
fn unknown_name_is_black_keeping_alpha() {
    assert_eq!(Formatting::parse_rgba(Some("purple"), Some(7)), Some(rgba(0, 0, 0, 7)));
}

#[test]
fn nothing_set_gives_nothing() {
    assert_eq!(Formatting::parse_rgba(None, None), None);
}

#[test]
fn alpha_alone_is_black_and_clamped() {
    assert_eq!(Formatting::parse_rgba(None, Some(-5)), Some(rgba(0, 0, 0, 0)));
    assert_eq!(Formatting::parse_rgba(None, Some(1 << 40)), Some(rgba(0, 0, 0, 0xFFFF)));
}

fn milli(s: &str) -> Option<i64> {
    let c = chars_of(s);
    milli_at(&c, 0, c.len())
}

#[test]
fn decimal_numbers_in_thousandths() {
    assert_eq!(milli("12"), Some(12000));
    assert_eq!(milli("-1.5"), Some(-1500));
    assert_eq!(milli("+.25"), Some(250));
    assert_eq!(milli("3."), Some(3000));
    assert_eq!(milli("0.12345"), Some(123));
    assert_eq!(milli("."), None);
    assert_eq!(milli("1e3"), None);
    assert_eq!(milli(""), None);
    assert_eq!(milli("1234567890123456"), None);
}

#[test]
fn words_split_on_whitespace() {
    let c = chars_of("  a bc\td  ");
    assert_eq!(word_spans(&c), vec![(2, 3), (4, 6), (7, 8)]);
}

#[test]
fn side_widths_css_order() {
    let t = |t, r, b, l| Trbl { top: t, right: r, bottom: b, left: l };
    assert_eq!(parse_trbl(""), Some(t(0, 0, 0, 0)));
    assert_eq!(parse_trbl("3"), Some(t(3, 3, 3, 3)));
    assert_eq!(parse_trbl("1 2"), Some(t(1, 2, 1, 2)));
    assert_eq!(parse_trbl("1 2 3"), Some(t(1, 2, 3, 2)));
    assert_eq!(parse_trbl(" 1  2 3 4 "), Some(t(1, 2, 3, 4)));
    assert_eq!(parse_trbl("1 2 3 4 5"), None);
    assert_eq!(parse_trbl("1 x"), None);
    assert_eq!(parse_trbl("2.9 -1.5"), Some(t(2, -1, 2, -1)));
}

#[test]
fn widths_pixels_and_fractions() {
    assert_eq!(Width::from_str("40"), Some(Width::Pixels(40)));
    assert_eq!(Width::from_str("50%"), Some(Width::Fraction(500)));
    assert_eq!(Width::from_str("12.5%"), Some(Width::Fraction(125)));
    assert_eq!(Width::from_str("%"), None);
    assert_eq!(Width::from_str("wide"), None);
}

#[test]
fn alignments() {
    assert_eq!(parse_align("left"), Some(0));
    assert_eq!(parse_align("center"), Some(500));
    assert_eq!(parse_align("right"), Some(1000));
    assert_eq!(parse_align("0.25"), Some(250));
    assert_eq!(parse_align("middle"), None);
}

#[test]
fn alphas_scaled_and_clamped() {
    assert_eq!(parse_alpha("1"), Some(0xFFFF));
    assert_eq!(parse_alpha("0.5"), Some(32767));
    assert_eq!(parse_alpha("2"), Some(0xFFFF));
    assert_eq!(parse_alpha("-1"), Some(0));
    assert_eq!(parse_alpha("half"), None);
}

fn entry(k: &str, v: &str) -> (String, String) {
    (k.to_string(), v.to_string())
}

#[test]
fn item_format_keeps_style_keys_only() {
    let f = ItemFormat::from_entries(
        vec![entry("format", "{x}"), entry("bg", "red"), entry("padding", "2"), entry("on-click", "x")],
        Some(true),
        None,
    );
    assert!(f.markup);
    assert!(!f.oneline);
    assert!(!f.is_trivial());
    assert_eq!(f.cfg.unwrap(), vec![entry("bg", "red"), entry("padding", "2")]);
    let g = ItemFormat::from_entries(vec![entry("format", "{x}")], None, Some(true));
    assert!(g.is_trivial());
    assert!(g.oneline);
}

#[test]
fn style_expansion() {
    let v = StyleValues {
        align: Some("right".to_string()),
        halign: Some("center".to_string()),
        fg: Some("#fff".to_string()),
        bg: Some("blue".to_string()),
        bg_alpha: Some("0.5".to_string()),
        padding: Some("1 2".to_string()),
        min_width: Some("25%".to_string()),
        max_width: Some("bogus".to_string()),
        font: Some("Sans Bold 12.5".to_string()),
        text_outline: Some("black".to_string()),
        text_outline_width: Some("2".to_string()),
        ..StyleValues::default()
    };
    let fonts = vec!["Mono".to_string(), "Sans Bold".to_string()];
    let s = Style::expand(&v, &fonts);
    assert_eq!(s.font, Some(1));
    assert_eq!(s.font_size, Some(12500));
    assert_eq!(s.text_stroke, Some(rgba(0, 0, 0, 0xFFFF)));
    assert_eq!(s.text_stroke_size, Some(2000));
    assert_eq!(s.halign, Some(500));
    assert_eq!(s.font_color, Some(rgba(0xFFFF, 0xFFFF, 0xFFFF, 0xFFFF)));
    assert_eq!(s.fmt.bg_rgba, Some(rgba(0, 0, 0xFFFF, 32767)));
    assert_eq!(s.fmt.padding, Some(Trbl { top: 1, right: 2, bottom: 1, left: 2 }));
    assert_eq!(s.fmt.min_width, Some(Width::Fraction(250)));
    assert_eq!(s.fmt.max_width, None);
    assert_eq!(s.fmt.border, None);
    let empty = Style::expand(&StyleValues::default(), &fonts);
    assert!(empty.fmt.is_boring());
    assert_eq!(empty.halign, None);
}

#[test]
fn shrink_adds_padding_margin_and_border() {
    let mut f = Formatting::boring();
    assert_eq!(f.get_shrink(), None);
    f.border = Some(Trbl { top: 1, right: 1, bottom: 1, left: 1 });
    assert_eq!(f.get_shrink(), Some(Trbl { top: 1, right: 1, bottom: 1, left: 1 }));
    f.padding = Some(Trbl { top: 1, right: 2, bottom: 3, left: 4 });
    f.margin = Some(Trbl { top: 10, right: 10, bottom: 10, left: 10 });
    assert_eq!(f.get_shrink(), Some(Trbl { top: 12, right: 13, bottom: 14, left: 15 }));
    assert!(!f.is_boring());
}

#[test]
fn fonts_name_and_size() {
    assert_eq!(parse_font("Sans 12"), ("Sans".to_string(), Some(12000)));
    assert_eq!(parse_font("Sans Bold"), ("Sans Bold".to_string(), None));
    assert_eq!(parse_font("Mono"), ("Mono".to_string(), None));
    assert_eq!(parse_font(" 9"), ("".to_string(), Some(9000)));
    let fonts = vec!["A".to_string(), "B".to_string(), "A".to_string()];
    assert_eq!(find_font(&fonts, &"A".to_string()), Some(0));
    assert_eq!(find_font(&fonts, &"B".to_string()), Some(1));
    assert_eq!(find_font(&fonts, &"C".to_string()), None);
}
