use rwaybar::color::Rgba;
use rwaybar::event::{EventSink, PopupDesc, Region};
use rwaybar::geom::{Point, Rect};
use rwaybar::layout::{group_visible, DrawOp, Env, FocusEntry, Item, ItemTree, Module, Render, TextStyle, Tooltip};
use rwaybar::style::{Formatting, Style, Trbl, Width};

fn region(lo: i64, hi: i64) -> Region {
    Region { lo, hi, popup: None, action: Some(1), item: None }
}

fn sink(rs: Vec<Region>) -> EventSink {
    EventSink { regions: rs }
}

fn black() -> Rgba {
    Rgba { r: 0, g: 0, b: 0, a: 0xFFFF }
}

fn env(width: i64, flex: bool) -> Env {
    Env {
        clip: Rect { x0: 0, y0: 0, x1: width, y1: 20 },
        flex,
        halign: None,
        text: TextStyle { font: 0, size: 16000, color: black(), stroke: None, stroke_size: None },
        iter: None,
    }
}

fn ctx(width: i64) -> Render {
    Render { env: env(width, false), pos: Point { x: 0, y: 0 }, canvas: Vec::new() }
}

fn text(w: i64, h: i64) -> Item {
    Item::from_module(Module::Text { width: w, height: h, tooltip: Tooltip::Empty })
}

#[test]
fn offset_clamp_moves_cuts_and_drops() {
    let mut s = sink(vec![region(0, 10), region(20, 30), region(-5, 2)]);
    s.offset_clamp(5, 0, 26);
    assert_eq!(s.regions, vec![region(5, 15), region(25, 26), region(0, 7)]);
    let mut t = sink(vec![region(0, 10)]);
    t.offset_clamp(0, 10, 20);
    assert!(t.regions.is_empty());
}

#[test]
fn clamp_without_shift_twice_is_clamp_once() {
    let mut once = sink(vec![region(-10, 5), region(3, 50), region(60, 70)]);
    once.offset_clamp(0, 0, 40);
    let mut twice = once.copy();
    twice.offset_clamp(0, 0, 40);
    assert_eq!(once.regions, twice.regions);
    assert_eq!(once.regions, vec![region(0, 5), region(3, 40)]);
}

#[test]
fn merge_and_set_item() {
    let mut a = sink(vec![region(0, 1)]);
    a.merge(sink(vec![region(2, 3)]));
    a.set_item(9);
    assert_eq!(a.regions.len(), 2);
    assert!(a.regions.iter().all(|r| r.item == Some(9)));
    assert_eq!(a.regions[1].lo, 2);
}

#[test]
fn hover_finds_first_popup_region() {
    let d1 = PopupDesc::TextItem { source: 1, iter: None };
    let d2 = PopupDesc::RenderItem { item: 2, iter: Some(4) };
    let s = sink(vec![
        region(0, 100),
        Region { lo: 10, hi: 20, popup: Some(d1), action: None, item: None },
        Region { lo: 15, hi: 30, popup: Some(d2), action: None, item: None },
    ]);
    assert_eq!(s.get_hover(16), Some((10, 20, d1)));
    assert_eq!(s.get_hover(20), Some((15, 30, d2)));
    assert_eq!(s.get_hover(30), None);
    assert_eq!(s.get_hover(5), None);
}

#[test]
fn active_regions_merge_overlapping_and_touching() {
    let s = sink(vec![region(20, 30), region(0, 5), region(5, 8), region(25, 40), region(50, 50), region(45, 47)]);
    assert_eq!(s.active_regions(), vec![(0, 8), (20, 40), (45, 47)]);
    assert_eq!(sink(vec![]).active_regions(), vec![]);
}

#[test]
fn group_of_three_with_spacing() {
    let mut t = ItemTree::new();
    let a = t.push(text(10, 5));
    let b = t.push(text(20, 12));
    let c = t.push(text(30, 7));
    let g = t.push(Item::from_module(Module::Group {
        items: vec![a, b, c],
        spacing: 4,
        vertical: false,
        visible: true,
        tooltip: None,
    }));
    let mut r = ctx(1000);
    let ev = Item::render(&t, g, &mut r);
    assert_eq!(r.pos, Point { x: 68, y: 12 });
    assert!(ev.regions.is_empty());
    let xs: Vec<i64> = r
        .canvas
        .iter()
        .map(|op| match op {
            DrawOp::Text { at, .. } => at.x,
            _ => -1,
        })
        .collect();
    assert_eq!(xs, vec![0, 14, 38]);
}

#[test]
fn vertical_group_stacks() {
    let mut t = ItemTree::new();
    let a = t.push(text(10, 5));
    let b = t.push(text(20, 6));
    let g = t.push(Item::from_module(Module::Group {
        items: vec![a, b],
        spacing: 2,
        vertical: true,
        visible: true,
        tooltip: None,
    }));
    let mut r = ctx(1000);
    Item::render(&t, g, &mut r);
    assert_eq!(r.pos, Point { x: 20, y: 13 });
}

#[test]
fn hidden_group_renders_nothing() {
    let mut t = ItemTree::new();
    let a = t.push(text(10, 5));
    let g = t.push(Item::from_module(Module::Group {
        items: vec![a],
        spacing: 0,
        vertical: false,
        visible: false,
        tooltip: None,
    }));
    let mut r = ctx(1000);
    Item::render(&t, g, &mut r);
    assert_eq!(r.pos, Point { x: 0, y: 0 });
    assert!(r.canvas.is_empty());
}

#[test]
fn past_the_clip_is_skipped_unless_flexible() {
    let mut t = ItemTree::new();
    let a = t.push(text(10, 5));
    let mut r = ctx(100);
    r.pos = Point { x: 101, y: 0 };
    Item::render(&t, a, &mut r);
    assert_eq!(r.pos.x, 101);
    assert!(r.canvas.is_empty());
    r.env.flex = true;
    Item::render(&t, a, &mut r);
    assert_eq!(r.pos.x, 111);
}

#[test]
fn focus_list_tags_entries_and_drops_trailing_gap() {
    let mut t = ItemTree::new();
    let mut x = text(10, 5);
    x.events = sink(vec![Region { lo: i64::MIN, hi: i64::MAX, popup: None, action: Some(3), item: None }]);
    let a = t.push(x);
    let f = t.push(Item::from_module(Module::FocusList {
        entries: vec![FocusEntry { token: 7, item: a }, FocusEntry { token: 8, item: a }],
        spacing: 5,
    }));
    let mut r = ctx(1000);
    let ev = Item::render(&t, f, &mut r);
    assert_eq!(r.pos.x, 25);
    assert_eq!(ev.regions.len(), 2);
    assert_eq!((ev.regions[0].lo, ev.regions[0].hi, ev.regions[0].item), (0, 10, Some(7)));
    assert_eq!((ev.regions[1].lo, ev.regions[1].hi, ev.regions[1].item), (15, 25, Some(8)));
}

#[test]
fn tooltip_carries_iteration_entry() {
    let mut t = ItemTree::new();
    let a = t.push(Item::from_module(Module::Text {
        width: 10,
        height: 5,
        tooltip: Tooltip::Text { width: 40, height: 9 },
    }));
    let f = t.push(Item::from_module(Module::FocusList {
        entries: vec![FocusEntry { token: 3, item: a }],
        spacing: 0,
    }));
    let mut r = ctx(1000);
    let ev = Item::render(&t, f, &mut r);
    assert_eq!(ev.regions.len(), 1);
    assert_eq!(ev.regions[0].popup, Some(PopupDesc::TextItem { source: a, iter: Some(3) }));
    assert_eq!((ev.regions[0].lo, ev.regions[0].hi), (0, 10));
}

fn plain_style(fmt: Formatting, halign: Option<i64>) -> Style {
    Style {
        fmt,
        halign,
        font_color: None,
        font: None,
        font_size: None,
        text_stroke: None,
        text_stroke_size: None,
    }
}

fn min_width_style(m: i64, halign: Option<i64>) -> Style {
    let mut fmt = Formatting::boring();
    fmt.min_width = Some(Width::Pixels(m));
    plain_style(fmt, halign)
}

#[test]
fn centered_min_width_moves_content() {
    let mut t = ItemTree::new();
    let mut x = text(10, 5);
    x.events = sink(vec![region(i64::MIN, i64::MAX)]);
    let a = t.push(x);
    let mut w = Item::from_item_list(vec![a]);
    w.format = Some(min_width_style(30, Some(500)));
    let g = t.push(w);
    let mut r = ctx(1000);
    let ev = Item::render(&t, g, &mut r);
    // the content and its region move right by (30 - 10) / 2
    assert_eq!((ev.regions[0].lo, ev.regions[0].hi), (10, 20));
    match r.canvas[0] {
        DrawOp::Text { at, .. } => assert_eq!(at.x, 10),
        _ => panic!("expected text"),
    }
    assert_eq!(r.pos.x, 10);
}

#[test]
fn centered_min_width_region_shift() {
    let mut t = ItemTree::new();
    let mut x = text(40, 5);
    x.events = sink(vec![region(i64::MIN, i64::MAX)]);
    let a = t.push(x);
    let mut w = Item::from_item_list(vec![a]);
    w.format = Some(min_width_style(60, Some(500)));
    let g = t.push(w);
    let mut r = ctx(1000);
    let ev = Item::render(&t, g, &mut r);
    assert_eq!((ev.regions[0].lo, ev.regions[0].hi), (10, 50));
}

#[test]
fn left_alignment_is_default() {
    let mut t = ItemTree::new();
    let a = t.push(text(10, 5));
    let mut w = Item::from_item_list(vec![a]);
    w.format = Some(min_width_style(30, None));
    let g = t.push(w);
    let mut r = ctx(1000);
    Item::render(&t, g, &mut r);
    match r.canvas[0] {
        DrawOp::Text { at, .. } => assert_eq!(at.x, 0),
        _ => panic!("expected text"),
    }
}

#[test]
fn boring_style_renders_like_no_style() {
    let mut t = ItemTree::new();
    let a = t.push(text(10, 5));
    let mut styled = Item::from_item_list(vec![a]);
    styled.format = Some(plain_style(Formatting::boring(), None));
    let s = t.push(styled);
    let p = t.push(Item::from_item_list(vec![a]));
    let mut r1 = ctx(1000);
    let e1 = Item::render(&t, s, &mut r1);
    let mut r2 = ctx(1000);
    let e2 = Item::render(&t, p, &mut r2);
    assert_eq!(r1.pos, r2.pos);
    assert_eq!(r1.canvas, r2.canvas);
    assert_eq!(e1.regions, e2.regions);
}

#[test]
fn padding_border_and_background() {
    let mut t = ItemTree::new();
    let a = t.push(text(10, 5));
    let mut fmt = Formatting::boring();
    fmt.padding = Some(Trbl { top: 1, right: 2, bottom: 1, left: 2 });
    fmt.border = Some(Trbl { top: 1, right: 1, bottom: 1, left: 1 });
    let red = Rgba { r: 0xFFFF, g: 0, b: 0, a: 0xFFFF };
    fmt.bg_rgba = Some(red);
    let mut w = Item::from_item_list(vec![a]);
    w.format = Some(plain_style(fmt, None));
    let g = t.push(w);
    let mut r = ctx(1000);
    Item::render(&t, g, &mut r);
    // content starts after left padding and border, the box ends after the right ones
    assert_eq!(r.pos, Point { x: 3 + 10 + 3, y: 2 + 5 + 2 });
    assert_eq!(r.canvas.len(), 6);
    match r.canvas[1] {
        DrawOp::Fill { rect, color, under, .. } => {
            assert_eq!(rect, Rect { x0: 1, y0: 1, x1: 15, y1: 8 });
            assert_eq!(color, red);
            assert!(under);
        }
        _ => panic!("expected background"),
    }
    match r.canvas[2] {
        DrawOp::Fill { rect, color, under, .. } => {
            assert_eq!(rect, Rect { x0: 1, y0: 0, x1: 15, y1: 1 });
            assert_eq!(color, black());
            assert!(!under);
        }
        _ => panic!("expected top border"),
    }
    match r.canvas[5] {
        DrawOp::Fill { rect, .. } => assert_eq!(rect, Rect { x0: 0, y0: 8, x1: 16, y1: 9 }),
        _ => panic!("expected bottom border"),
    }
}

#[test]
fn max_width_cuts_the_clip() {
    let mut t = ItemTree::new();
    let a = t.push(text(50, 5));
    let mut fmt = Formatting::boring();
    fmt.max_width = Some(Width::Pixels(20));
    let mut w = Item::from_item_list(vec![a]);
    w.format = Some(plain_style(fmt, None));
    let g = t.push(w);
    let mut r = ctx(1000);
    Item::render(&t, g, &mut r);
    assert_eq!(r.pos.x, 20);
    match r.canvas[0] {
        DrawOp::Text { clip, .. } => assert_eq!(clip.x1, 20),
        _ => panic!("expected text"),
    }
}

fn bar_tree(l: i64, c: i64, rw: i64) -> (ItemTree, usize) {
    let mut t = ItemTree::new();
    let left = t.push(text(l, 5));
    let center = t.push(text(c, 5));
    let right = t.push(text(rw, 5));
    let b = t.push(Item::new_bar(left, center, right, None, EventSink::new()));
    (t, b)
}

fn text_xs(r: &Render) -> Vec<i64> {
    r.canvas
        .iter()
        .map(|op| match op {
            DrawOp::Text { at, .. } => at.x,
            _ => -1,
        })
        .collect()
}

#[test]
fn sub_bar_centers_when_there_is_room() {
    let (t, b) = bar_tree(10, 20, 30);
    let mut r = ctx(100);
    Item::render(&t, b, &mut r);
    assert_eq!(text_xs(&r), vec![0, 70, 40]);
    assert_eq!(r.pos.x, 100);
}

#[test]
fn sub_bar_pushes_center_past_long_left() {
    let (t, b) = bar_tree(45, 20, 10);
    let mut r = ctx(100);
    Item::render(&t, b, &mut r);
    assert_eq!(text_xs(&r), vec![0, 90, 45]);
}

#[test]
fn sub_bar_pushes_center_before_long_right() {
    let (t, b) = bar_tree(10, 20, 45);
    let mut r = ctx(100);
    Item::render(&t, b, &mut r);
    assert_eq!(text_xs(&r), vec![0, 55, 35]);
}

#[test]
fn sub_bar_without_room_drops_center() {
    let (t, b) = bar_tree(50, 20, 40);
    let mut r = ctx(100);
    Item::render(&t, b, &mut r);
    assert_eq!(text_xs(&r), vec![0, 60]);
    assert_eq!(r.pos.x, 50);
}

#[test]
fn style_sets_text_for_content() {
    let mut t = ItemTree::new();
    let a = t.push(text(10, 5));
    let mut w = Item::from_item_list(vec![a]);
    let red = Rgba { r: 0xFFFF, g: 0, b: 0, a: 0xFFFF };
    let mut st = plain_style(Formatting::boring(), None);
    st.font = Some(2);
    st.font_color = Some(red);
    st.text_stroke_size = Some(1500);
    w.format = Some(st);
    let g = t.push(w);
    let mut r = ctx(1000);
    Item::render(&t, g, &mut r);
    match r.canvas[0] {
        DrawOp::Text { text, .. } => {
            assert_eq!(text, TextStyle { font: 2, size: 16000, color: red, stroke: None, stroke_size: Some(1500) })
        }
        _ => panic!("expected text"),
    }
    // the surroundings of the caller are untouched
    assert_eq!(r.env.text.color, black());
}

#[test]
fn min_width_limited_by_room() {
    let mut t = ItemTree::new();
    let mut x = text(10, 5);
    x.events = sink(vec![region(i64::MIN, i64::MAX)]);
    let a = t.push(x);
    let mut w = Item::from_item_list(vec![a]);
    w.format = Some(min_width_style(20, Some(500)));
    let g = t.push(w);
    let mut r = ctx(16);
    let ev = Item::render(&t, g, &mut r);
    assert_eq!((ev.regions[0].lo, ev.regions[0].hi), (3, 13));
}

#[test]
fn border_alone_insets_content() {
    let mut t = ItemTree::new();
    let a = t.push(text(10, 5));
    let mut fmt = Formatting::boring();
    fmt.border = Some(Trbl { top: 1, right: 1, bottom: 1, left: 1 });
    let mut w = Item::from_item_list(vec![a]);
    w.format = Some(plain_style(fmt, None));
    let g = t.push(w);
    let mut r = ctx(1000);
    Item::render(&t, g, &mut r);
    match r.canvas[0] {
        DrawOp::Text { at, .. } => assert_eq!(at, Point { x: 1, y: 1 }),
        _ => panic!("expected text"),
    }
    assert_eq!(r.pos, Point { x: 12, y: 7 });
}

#[test]
fn fractional_max_width_turns_flex_off() {
    let mut t = ItemTree::new();
    let a = t.push(text(80, 5));
    let mut fmt = Formatting::boring();
    fmt.max_width = Some(Width::Fraction(500));
    let mut w = Item::from_item_list(vec![a]);
    w.format = Some(plain_style(fmt, None));
    let g = t.push(w);
    let mut r = ctx(100);
    r.env.flex = true;
    Item::render(&t, g, &mut r);
    assert_eq!(r.pos.x, 50);
}

#[test]
fn group_condition_fails_open() {
    use_group_visible();
}

fn use_group_visible() {
    assert!(group_visible::<String>(None, &Ok(false)));
    assert!(group_visible::<String>(Some(""), &Ok(false)));
    assert!(!group_visible::<String>(Some("{x}"), &Ok(false)));
    assert!(group_visible::<String>(Some("{x}"), &Ok(true)));
    assert!(group_visible(Some("{x}"), &Err("unknown key".to_string())));
}
