use rwaybar::bar::{Bar, BarSettings, HoverAction, InputRect, Layer, PopupStep, POPUP_LINGER_MS};
use rwaybar::event::{EventSink, PopupDesc, Region};
use rwaybar::geom::Point;
use rwaybar::format::{ItemFormat, StyleValues};
use rwaybar::geom::Rect;
use rwaybar::layout::{DrawOp, Env, Item, ItemTree, Module, TextStyle, Tooltip};
use rwaybar::state::{OutputFilter, OutputInfo, RenderTarget, Runtime, State};
use rwaybar::watch::{read_hash_map, MsgArg, SigWatcherToken, SigWatchers, WatcherList};

fn settings() -> BarSettings {
    BarSettings::from_config(None, None, None, None, None, None)
}

#[test]
fn settings_defaults() {
    let s = settings();
    assert_eq!(s.layer, Layer::Top);
    assert_eq!(s.size, 20);
    assert_eq!(s.size_excl, 20);
    assert_eq!(s.click_size, 20);
    assert!(!s.anchor_top);
    assert!(s.sparse);
    assert!(s.initial_input_region().is_none());
}

#[test]
fn settings_from_values() {
    let s = BarSettings::from_config(Some("overlay"), Some("top"), Some(30), Some(-1), None, Some(false));
    assert_eq!(s.layer, Layer::Overlay);
    assert!(s.anchor_top);
    assert_eq!((s.size, s.size_excl, s.click_size), (30, -1, 30));
    let t = BarSettings::from_config(Some("sideways"), Some("left"), Some(0), Some(10), Some(5), None);
    assert_eq!(t.layer, Layer::Top);
    assert!(!t.anchor_top);
    assert_eq!((t.size, t.size_excl, t.click_size), (20, 10, 5));
    let u = BarSettings::from_config(Some("bottom"), None, Some(30), Some(12), None, None);
    assert_eq!(u.layer, Layer::Bottom);
    assert_eq!(u.click_size, 12);
}

#[test]
fn initial_input_region_for_overhang() {
    let sparse = BarSettings::from_config(None, None, Some(30), Some(10), None, None);
    assert_eq!(sparse.initial_input_region(), Some(vec![]));
    let full = BarSettings::from_config(None, None, Some(30), Some(10), None, Some(false));
    assert_eq!(
        full.initial_input_region(),
        Some(vec![InputRect { x0: 0, x1: i32::MAX as i64, y: 20, h: 10 }])
    );
}

fn text_tree() -> (ItemTree, usize) {
    let mut t = ItemTree::new();
    let mut x = Item::from_module(Module::Text { width: 10, height: 5, tooltip: Tooltip::Text { width: 30, height: 8 } });
    x.events = EventSink { regions: vec![Region { lo: i64::MIN, hi: i64::MAX, popup: None, action: Some(1), item: None }] };
    let a = t.push(x);
    let b = t.push(Item::none());
    let root = t.push(Item::new_bar(a, b, b, None, EventSink::new()));
    (t, root)
}

fn bar() -> Bar {
    Bar::new(settings(), "DP-1".to_string(), 0)
}

#[test]
fn no_new_paint_while_a_frame_is_in_flight() {
    let (t, root) = text_tree();
    let mut b = bar();
    assert!(b.render_with(&t, root, 100, 20, true, 1, 0).bar.is_none());
    b.mark_dirty();
    let f = b.render_with(&t, root, 100, 20, true, 1, 0).bar.unwrap();
    assert!(matches!(f.ops[0], DrawOp::Text { .. }));
    assert_eq!(b.throttle, Some(1));
    b.mark_dirty();
    assert!(b.render_with(&t, root, 100, 20, true, 2, 0).bar.is_none());
    b.mark_dirty();
    assert!(b.render_with(&t, root, 100, 20, true, 2, 0).bar.is_none());
    // another frame's completion does not clear it
    b.frame_done(9, true);
    assert_eq!(b.throttle, Some(1));
    b.frame_done(1, true);
    assert!(b.render_with(&t, root, 100, 20, true, 2, 0).bar.is_some());
    assert!(b.render_with(&t, root, 100, 20, true, 3, 0).bar.is_none());
    assert!(!b.dirty);
}

#[test]
fn dead_frame_clears_throttle() {
    let mut b = bar();
    b.throttle = Some(4);
    b.frame_done(5, false);
    assert_eq!(b.throttle, None);
}

#[test]
fn surface_not_ready_defers_paint() {
    let (t, root) = text_tree();
    let mut b = bar();
    b.mark_dirty();
    assert!(b.render_with(&t, root, 100, 20, false, 1, 0).bar.is_none());
    assert!(b.dirty);
}

#[test]
fn sparse_input_region_only_when_changed() {
    let (t, root) = text_tree();
    let s = BarSettings::from_config(None, None, Some(30), Some(10), None, None);
    let mut b = Bar::new(s, "DP-1".to_string(), 0);
    b.mark_dirty();
    let f = b.render_with(&t, root, 100, 30, true, 1, 0).bar.unwrap();
    assert_eq!(f.input_region, Some(vec![InputRect { x0: 0, x1: 10, y: 20, h: 10 }]));
    b.frame_done(1, true);
    b.mark_dirty();
    let g = b.render_with(&t, root, 100, 30, true, 2, 0).bar.unwrap();
    assert_eq!(g.input_region, None);
}

#[test]
fn popup_lifecycle() {
    let (t, root) = text_tree();
    let mut b = bar();
    b.mark_dirty();
    b.render_with(&t, root, 100, 20, true, 1, 0).bar.unwrap();
    assert_eq!(b.hover(5, &t), HoverAction::Show);
    let p = b.popup.unwrap();
    assert_eq!(p.desc, PopupDesc::TextItem { source: 0, iter: None });
    assert_eq!((p.anchor_x, p.anchor_w), (0, 10));
    assert_eq!(p.size, Point { x: 34, y: 12 });
    assert_eq!(b.popup_tick(1000), PopupStep::Wait);
    b.popup_configured();
    assert_eq!(b.popup_tick(1000), PopupStep::Paint);
    // leaving and coming back within the linger time keeps the popup
    assert_eq!(b.no_hover(1000), Some(1000 + POPUP_LINGER_MS));
    assert_eq!(b.popup_tick(1050), PopupStep::Paint);
    assert_eq!(b.hover(6, &t), HoverAction::Keep);
    assert_eq!(b.popup.unwrap().vanish, None);
    assert_eq!(b.popup.unwrap().size, p.size);
    assert_eq!(b.popup_tick(5000), PopupStep::Paint);
    // leaving for good removes it after the linger time
    b.no_hover(6000);
    assert_eq!(b.popup_tick(6100), PopupStep::Paint);
    assert_eq!(b.popup_tick(6101), PopupStep::Absent);
    assert!(b.popup.is_none());
}

#[test]
fn hover_over_popup_cancels_removal() {
    let (t, root) = text_tree();
    let mut b = bar();
    b.mark_dirty();
    b.render_with(&t, root, 100, 20, true, 1, 0).bar.unwrap();
    b.hover(5, &t);
    b.no_hover(0);
    b.hover_popup();
    assert_eq!(b.popup_tick(1000), PopupStep::Wait);
    assert_eq!(b.popup_button(), Some(PopupDesc::TextItem { source: 0, iter: None }));
}

#[test]
fn popup_only_grows() {
    let (t, root) = text_tree();
    let mut b = bar();
    b.mark_dirty();
    b.render_with(&t, root, 100, 20, true, 1, 0).bar.unwrap();
    b.hover(5, &t);
    b.popup_configured();
    assert_eq!(b.popup_painted(Point { x: 20, y: 5 }), None);
    assert_eq!(b.popup_painted(Point { x: 50, y: 5 }), Some(Point { x: 50, y: 12 }));
    assert!(b.popup.unwrap().waiting_on_configure);
}

#[test]
fn popup_render_sizes() {
    let (t, _) = text_tree();
    let (size, ops) = PopupDesc::TextItem { source: 0, iter: None }.render_popup(&t, 1, 1);
    assert_eq!(size, Point { x: 34, y: 12 });
    assert_eq!(ops.len(), 1);
    let (size2, ops2) = PopupDesc::RenderItem { item: 0, iter: None }.render_popup(&t, 1, 1);
    assert_eq!(size2, Point { x: 12, y: 7 });
    assert_eq!(ops2.len(), 1);
    let (size3, _) = PopupDesc::RenderItem { item: 99, iter: None }.render_popup(&t, 1, 1);
    assert_eq!(size3, Point { x: 2, y: 2 });
    let ev = PopupDesc::RenderItem { item: 0, iter: Some(5) }.button(&t).unwrap();
    assert_eq!(ev.regions[0].item, Some(5));
    assert!(PopupDesc::TextItem { source: 0, iter: None }.button(&t).is_none());
}

#[test]
fn render_size_counts_frame_and_popup() {
    let mut b = bar();
    assert_eq!(b.get_render_size(100, 20, (10, 10)), 0);
    b.mark_dirty();
    assert_eq!(b.get_render_size(100, 20, (10, 10)), 8000);
}

#[test]
fn render_target_hands_out_parts() {
    let mut r = RenderTarget::new(1000);
    assert_eq!(r.with_surface(10, 10), Some(0));
    assert_eq!(r.with_surface(10, 10), Some(400));
    assert_eq!(r.with_surface(10, 10), None);
    assert_eq!(r.with_surface(5, 10), Some(800));
}

#[test]
fn wake_keeps_earliest() {
    let mut rt = Runtime::new();
    assert!(rt.set_wake_at(50));
    assert!(!rt.set_wake_at(60));
    assert!(rt.set_wake_at(40));
    assert!(rt.set_wake_at(40));
    assert_eq!(rt.wake_at, Some(40));
    rt.data_update = false;
    rt.wake_fired();
    assert_eq!(rt.wake_at, None);
    assert!(rt.data_update);
}

#[test]
fn data_change_marks_bars_dirty_on_draw() {
    let mut s = State::new();
    s.add_bar(bar());
    s.runtime.data_update = false;
    s.request_update();
    assert!(!s.request_draw_internal(true));
    assert!(s.draw_waiting_on_shm);
    assert!(!s.bars[0].dirty);
    assert!(s.shm_ok_callback());
    assert!(s.bars[0].dirty);
    assert!(!s.runtime.data_update);
    assert!(!s.shm_ok_callback());
    s.bars[0].dirty = false;
    assert!(s.request_draw_internal(false));
    assert!(!s.bars[0].dirty);
}

fn info(name: &str, make: &str) -> OutputInfo {
    OutputInfo { name: name.to_string(), make: make.to_string(), model: "M".to_string(), description: "D".to_string() }
}

#[test]
fn outputs_match_filters_and_bars_are_replaced() {
    let any = OutputFilter { name: None, make: None, model: None, description: None };
    let dp = OutputFilter { name: Some("DP-1".to_string()), make: None, model: None, description: None };
    let acme = OutputFilter { name: None, make: Some("Acme".to_string()), model: Some("M".to_string()), description: None };
    let configs = vec![any, dp, acme];
    let sets = vec![settings(), settings(), settings()];
    let mut s = State::new();
    assert_eq!(s.output_ready(&configs, &sets, &info("DP-1", "Other")), vec![0, 1]);
    assert_eq!(s.output_ready(&configs, &sets, &info("HDMI-1", "Acme")), vec![0, 2]);
    assert_eq!(s.bars.len(), 4);
    // the same output again replaces its bars instead of adding more
    assert_eq!(s.output_ready(&configs, &sets, &info("DP-1", "Other")), vec![0, 1]);
    assert_eq!(s.bars.len(), 4);
    let keys: Vec<(String, usize)> = s.bars.iter().map(|b| (b.output.clone(), b.cfg_index)).collect();
    assert_eq!(
        keys,
        vec![
            ("HDMI-1".to_string(), 0),
            ("HDMI-1".to_string(), 2),
            ("DP-1".to_string(), 0),
            ("DP-1".to_string(), 1),
        ]
    );
    let mut st = State::new();
    st.add_bar(Bar::new(settings(), "DP-1".to_string(), 0));
    st.add_bar(Bar::new(settings(), "DP-2".to_string(), 0));
    st.add_bar(Bar::new(settings(), "DP-1".to_string(), 1));
    st.add_bar(Bar::new(settings(), "DP-1".to_string(), 0));
    let keys: Vec<(String, usize)> = st.bars.iter().map(|b| (b.output.clone(), b.cfg_index)).collect();
    assert_eq!(
        keys,
        vec![("DP-2".to_string(), 0), ("DP-1".to_string(), 1), ("DP-1".to_string(), 0)]
    );
}

#[test]
fn signal_watchers_register_and_stop() {
    let mut w: SigWatchers<&str> = SigWatchers::new();
    let (mut t1, first) = w.add_signal_watcher("a");
    assert!(first);
    assert!(t1.is_active());
    let (t2, second) = w.add_signal_watcher("b");
    assert!(!second);
    assert_ne!(t1, t2);
    w.stop_signal_watcher(&mut t1);
    assert!(!t1.is_active());
    assert_eq!(w.len(), 1);
    w.stop_signal_watcher(&mut t1);
    assert_eq!(w.len(), 1);
    assert!(!SigWatcherToken::default().is_active());
}

#[test]
fn watcher_list_runs_in_order() {
    let mut l: WatcherList<u32> = WatcherList::new();
    assert!(l.push(1));
    assert!(!l.push(2));
    let taken = l.take();
    assert_eq!(taken, vec![1, 2]);
    assert!(l.push(3));
    l.restore(taken);
    assert_eq!(l.items, vec![3, 1, 2]);
}

#[test]
fn hash_map_pairs() {
    let items = vec![
        MsgArg::Str("a".to_string()),
        MsgArg::Value(1u32),
        MsgArg::Str("b".to_string()),
        MsgArg::Str("x".to_string()),
    ];
    let pairs = read_hash_map(Some(items)).unwrap();
    assert_eq!(pairs.len(), 2);
    assert_eq!(pairs[0].0, "a");
    assert!(matches!(pairs[0].1, MsgArg::Value(1)));
    assert_eq!(pairs[1].0, "b");
    assert!(matches!(&pairs[1].1, MsgArg::Str(s) if s == "x"));
    assert!(read_hash_map::<u32>(None).is_none());
    assert!(read_hash_map(Some(vec![MsgArg::<u32>::Str("a".to_string())])).is_none());
    assert!(read_hash_map(Some(vec![MsgArg::Value(1u32), MsgArg::Value(2u32)])).is_none());
    assert_eq!(read_hash_map::<u32>(Some(vec![])).unwrap().len(), 0);
    let dup = read_hash_map(Some(vec![
        MsgArg::Str("a".to_string()),
        MsgArg::Value(1u32),
        MsgArg::Str("b".to_string()),
        MsgArg::Value(2u32),
        MsgArg::Str("a".to_string()),
        MsgArg::Value(3u32),
    ]))
    .unwrap();
    assert_eq!(dup.len(), 2);
    assert_eq!(dup[0].0, "a");
    assert!(matches!(dup[0].1, MsgArg::Value(3)));
    assert!(matches!(dup[1].1, MsgArg::Value(2)));
}

#[test]
fn draw_pass_size_sums_bars() {
    let mut s = State::new();
    s.add_bar(Bar::new(settings(), "A".to_string(), 0));
    s.add_bar(Bar::new(settings(), "B".to_string(), 0));
    assert_eq!(s.render_size(&vec![(10, 2, (0, 0)), (5, 3, (0, 0))]), 0);
    s.bars[1].mark_dirty();
    assert_eq!(s.render_size(&vec![(10, 2, (0, 0)), (5, 3, (0, 0))]), 60);
    s.bars[0].mark_dirty();
    assert_eq!(s.render_size(&vec![(10, 2, (0, 0)), (5, 3, (0, 0))]), 140);
}

#[test]
fn setup_ctx_merges_style_into_surroundings() {
    let black = rwaybar::color::Rgba { r: 0, g: 0, b: 0, a: 0xFFFF };
    let env = Env {
        clip: Rect { x0: 0, y0: 0, x1: 100, y1: 20 },
        flex: false,
        halign: Some(1000),
        text: TextStyle { font: 0, size: 16000, color: black, stroke: None, stroke_size: None },
        iter: Some(3),
    };
    let v = StyleValues { fg: Some("red".to_string()), font: Some("X 10".to_string()), ..StyleValues::default() };
    let (st, e) = ItemFormat::setup_ctx(&v, &vec!["Y".to_string(), "X".to_string()], &env);
    assert!(st.fmt.is_boring());
    assert_eq!(e.halign, Some(1000));
    assert_eq!(e.iter, Some(3));
    assert_eq!(e.text.font, 1);
    assert_eq!(e.text.size, 10000);
    assert_eq!(e.text.color.r, 0xFFFF);
}

#[test]
fn draw_pass_drops_expired_popup_and_grows_it() {
    let (t, root) = text_tree();
    let mut b = bar();
    b.mark_dirty();
    let f = b.render_with(&t, root, 100, 20, true, 1, 0);
    assert!(f.bar.is_some());
    assert_eq!(f.popup, PopupStep::Absent);
    b.hover(5, &t);
    let f = b.render_with(&t, root, 100, 20, true, 2, 10);
    assert!(f.bar.is_none());
    assert_eq!(f.popup, PopupStep::Wait);
    b.popup_configured();
    // the popup was asked at the measured size: painting needs no resize
    let f = b.render_with(&t, root, 100, 20, true, 2, 20);
    assert_eq!(f.popup, PopupStep::Paint);
    assert_eq!(f.popup_ops.len(), 1);
    assert_eq!(f.popup_resize, None);
    // a smaller surface than the content grows, in both directions at least to what it had
    b.popup = Some(rwaybar::bar::BarPopup { size: Point { x: 10, y: 50 }, ..b.popup.unwrap() });
    let f = b.render_with(&t, root, 100, 20, true, 2, 30);
    assert_eq!(f.popup_resize, Some(Point { x: 34, y: 50 }));
    assert!(b.popup.unwrap().waiting_on_configure);
    b.popup_configured();
    b.no_hover(100);
    let f = b.render_with(&t, root, 100, 20, true, 2, 200);
    assert_eq!(f.popup, PopupStep::Paint);
    let f = b.render_with(&t, root, 100, 20, true, 2, 201);
    assert_eq!(f.popup, PopupStep::Absent);
    assert!(b.popup.is_none());
}

#[test]
fn moving_off_regions_outside_the_popup_drops_it() {
    let (t, root) = text_tree();
    let mut b = bar();
    b.mark_dirty();
    b.render_with(&t, root, 100, 20, true, 1, 0);
    b.hover(5, &t);
    assert!(b.popup.is_some());
    assert_eq!(b.hover(50, &t), HoverAction::Keep);
    assert!(b.popup.is_none());
}

#[test]
fn watcher_ids_until_used_up() {
    let mut w: SigWatchers<u8> = SigWatchers::new();
    let mut toks = Vec::new();
    for i in 0..5 {
        let (t, _) = w.add_signal_watcher(i);
        assert!(t.is_active());
        toks.push(t);
    }
    w.stop_signal_watcher(&mut toks[2]);
    assert_eq!(w.len(), 4);
}
