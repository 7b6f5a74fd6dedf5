use zirvtk::app_launcher::AppLauncher;
use zirvtk::button::Button;
use zirvtk::canvas::Canvas;
use zirvtk::color::Color;
use zirvtk::digits::{date_text, hours_minutes, hours_minutes_seconds};
use zirvtk::futuristic_clock::FuturisticClock;
use zirvtk::glass_panel::GlassPanel;
use zirvtk::label::Label;
use zirvtk::metro_start::MetroStart;
use zirvtk::neon_button::NeonButton;
use zirvtk::panel::Panel;
use zirvtk::rect::Rect;
use zirvtk::scroller::TileScroller;
use zirvtk::taskbar::TaskBar;
use zirvtk::tile::MediaTile;
use zirvtk::toggle::{SliderPick, SliderState, ToggleState};
use zirvtk::widget::{Event, EventResult, Widget};
use zirvtk::window::Window;

fn down(x: i32, y: i32) -> Event {
    Event::MouseDown { x, y, button: 1 }
}

fn up(x: i32, y: i32) -> Event {
    Event::MouseUp { x, y, button: 1 }
}

fn mv(x: i32, y: i32) -> Event {
    Event::MouseMove { x, y }
}

const ROOT: Rect = Rect { x: 0, y: 0, w: 1024, h: 768 };

#[test]
fn event_position() {
    assert_eq!(mv(3, 4).position(), (3, 4));
    assert_eq!(down(-1, 2).position(), (-1, 2));
    assert_eq!(up(7, 8).position(), (7, 8));
}

#[test]
fn button_click_cycle() {
    let mut b = Button::new("OK");
    assert_eq!(b.rect(), Rect::new(0, 0, 96, 32));
    assert_eq!(b.handle_event(&mv(10, 10), ROOT), EventResult::Redraw);
    assert_eq!(b.handle_event(&mv(11, 10), ROOT), EventResult::Ignored);
    assert_eq!(b.handle_event(&mv(200, 10), ROOT), EventResult::Redraw);
    assert_eq!(b.handle_event(&down(10, 10), ROOT), EventResult::Redraw);
    assert_eq!(b.handle_event(&up(10, 10), ROOT), EventResult::Handled);
    // a second release is no click
    assert_eq!(b.handle_event(&up(10, 10), ROOT), EventResult::Ignored);
    // press inside, release outside: redraw, no click
    b.handle_event(&down(5, 5), ROOT);
    assert_eq!(b.handle_event(&up(500, 5), ROOT), EventResult::Redraw);
    // a press outside is ignored
    assert_eq!(b.handle_event(&down(500, 5), ROOT), EventResult::Ignored);
}

#[test]
fn button_min_size_and_layout() {
    let mut b = Button::new("OK");
    assert_eq!(b.min_size(), (80, 32));
    let long = Button::new("A much longer caption");
    assert_eq!(long.min_size(), (21 * 9 + 16, 32));
    b.set_pos(100, 50);
    b.set_size(10, 10);
    assert_eq!(b.rect(), Rect::new(100, 50, 10, 10));
    assert_eq!(b.handle_event(&down(105, 55), ROOT), EventResult::Redraw);
}

#[test]
fn button_draws_its_face() {
    let mut c = Canvas::new(120, 40);
    let mut b = Button::new("");
    b.set_colors(
        Color::from_u32(0xFF000011),
        Color::from_u32(0xFF000022),
        Color::from_u32(0xFF000033),
        Color::white(),
        Color::from_u32(0xFF0000FF),
    );
    b.draw(&mut c);
    assert_eq!(c.pixel(0, 0).to_u32(), 0xFF0000FF);
    assert_eq!(c.pixel(10, 10).to_u32(), 0xFF000011);
    assert_eq!(c.pixel(95, 31).to_u32(), 0xFF0000FF);
    assert_eq!(c.pixel(100, 10).to_u32(), 0);
    b.handle_event(&down(10, 10), ROOT);
    b.draw(&mut c);
    assert_eq!(c.pixel(10, 10).to_u32(), 0xFF000033);
}

#[test]
fn label_draws_background_and_ignores_events() {
    let mut c = Canvas::new(80, 20);
    let mut l = Label::new("hi").with_bg(Color::from_u32(0xFF102030));
    l.set_color(Color::white());
    l.draw(&mut c);
    assert_eq!(c.pixel(0, 0).to_u32(), 0xFF102030);
    assert_eq!(c.pixel(63, 15).to_u32(), 0xFF102030);
    assert_eq!(c.pixel(64, 0).to_u32(), 0);
    assert_eq!(l.handle_event(&down(1, 1), ROOT), EventResult::Ignored);
    assert_eq!(l.min_size(), (18, 16));
}

#[test]
fn tile_behaves_like_a_button() {
    let mut t = MediaTile::new("Title", "Sub", "I", Color::from_rgb(10, 20, 30));
    assert_eq!(t.rect(), Rect::new(0, 0, 220, 260));
    assert_eq!(t.min_size(), (200, 240));
    assert_eq!(t.handle_event(&mv(5, 5), ROOT), EventResult::Redraw);
    assert_eq!(t.handle_event(&down(5, 5), ROOT), EventResult::Redraw);
    assert_eq!(t.handle_event(&up(5, 5), ROOT), EventResult::Handled);
    assert_eq!(t.handle_event(&up(5, 5), ROOT), EventResult::Ignored);
    let mut c = Canvas::new(300, 300);
    t.draw(&mut c);
    assert_ne!(c.pixel(110, 130).to_u32(), 0);
}

#[test]
fn neon_button_is_relative_to_its_parent() {
    let mut n = NeonButton::new("Go");
    assert_eq!(n.min_size(), (80, 33));
    let parent = Rect::new(100, 100, 400, 400);
    assert_eq!(n.handle_event(&mv(10, 10), parent), EventResult::Ignored);
    assert!(!n.is_hovered());
    assert_eq!(n.handle_event(&mv(110, 110), parent), EventResult::Redraw);
    assert!(n.is_hovered());
    assert_eq!(n.handle_event(&down(110, 110), parent), EventResult::Redraw);
    assert_eq!(n.handle_event(&up(110, 110), parent), EventResult::Handled);
    // a release that is no click still asks for a redraw
    assert_eq!(n.handle_event(&up(110, 110), parent), EventResult::Redraw);
    n.set_text("A longer one");
    assert_eq!(n.min_size(), (12 * 9 + 20, 33));
    n.set_neon_color(Color::from_rgb(1, 2, 3));
    let mut c = Canvas::new(200, 60);
    n.draw(&mut c);
    assert_ne!(c.pixel(70, 20).to_u32(), 0);
}

#[test]
fn taskbar_start_button_toggles_the_launcher() {
    let mut t = TaskBar::new();
    assert_eq!(t.rect(), Rect::new(0, 0, 800, 48));
    assert_eq!(t.handle_event(&mv(10, 10), ROOT), EventResult::Redraw);
    assert_eq!(t.handle_event(&mv(11, 10), ROOT), EventResult::Ignored);
    assert!(!t.launcher_shown());
    assert_eq!(t.handle_event(&up(10, 10), ROOT), EventResult::Handled);
    assert!(t.launcher_shown());
    assert_eq!(t.handle_event(&up(10, 10), ROOT), EventResult::Handled);
    assert!(!t.launcher_shown());
    assert_eq!(t.handle_event(&up(400, 10), ROOT), EventResult::Ignored);
    assert_eq!(t.handle_event(&down(10, 10), ROOT), EventResult::Ignored);
    t.set_time(9, 5);
    assert_eq!((t.time_h, t.time_m), (9, 5));
    let mut c = Canvas::new(800, 48);
    t.draw(&mut c);
    assert_eq!(c.pixel(2, 2).to_u32(), 0xFF101010);
    assert_eq!(c.pixel(10, 10).to_u32(), 0xFF3C3C3C);
}

#[test]
fn clock_texts() {
    assert_eq!(hours_minutes(9, 5, 8), b"09:05".to_vec());
    assert_eq!(hours_minutes(12, 34, 8), b"12:34".to_vec());
    assert_eq!(hours_minutes(123456, 7, 8), b"123456:0".to_vec());
    assert_eq!(hours_minutes_seconds(1, 2, 3, 16), b"01:02:03".to_vec());
    assert_eq!(hours_minutes_seconds(100, 0, 59, 16), b"100:00:59".to_vec());
    assert_eq!(date_text(2024, 3, 7, 11), b"2024-03-07".to_vec());
    assert_eq!(date_text(999, 12, 31, 11), b"0999-12-31".to_vec());
    assert_eq!(date_text(123456, 1, 1, 11), b"123456-01-0".to_vec());
}

#[test]
fn metro_start_opens_launches_and_closes() {
    let mut m = MetroStart::new(1024, 768);
    assert!(!m.is_open());
    assert_eq!(m.apps.len(), 12);
    assert_eq!(m.handle_event(&up(0, 0), ROOT), EventResult::Ignored);
    m.toggle();
    assert!(m.is_open());
    // grid: 756 wide, 3 rows of 140 with gaps of 14 = 448 high
    let gx = (1024 - 756) / 2;
    let gy = 80 + (768 - 80 - 448) / 2;
    assert_eq!(m.handle_event(&mv(gx + 1, gy + 1), ROOT), EventResult::Redraw);
    assert_eq!(m.handle_event(&mv(gx + 2, gy + 1), ROOT), EventResult::Ignored);
    assert_eq!(m.handle_event(&up(gx + 154 + 1, gy + 1), ROOT), EventResult::Handled);
    assert!(!m.is_open());
    assert_eq!(m.take_launched(), Some(1));
    assert_eq!(m.take_launched(), None);
    m.set_open(true);
    // a release in a gap between tiles is ignored
    assert_eq!(m.handle_event(&up(gx + 145, gy + 1), ROOT), EventResult::Ignored);
    assert!(m.is_open());
    // a release off the grid closes
    assert_eq!(m.handle_event(&up(5, 5), ROOT), EventResult::Redraw);
    assert!(!m.is_open());
    assert_eq!(m.rect(), Rect::new(0, 0, 1024, 768));
    m.set_pos(50, 50);
    assert_eq!(m.rect(), Rect::new(0, 0, 1024, 768));
}

#[test]
fn metro_start_draws_only_when_open() {
    let mut c = Canvas::new(64, 64);
    let mut m = MetroStart::new(64, 64);
    m.draw(&mut c);
    assert_eq!(c.pixel(1, 1).to_u32(), 0);
    m.set_open(true);
    m.draw(&mut c);
    assert_eq!(c.pixel(1, 1).to_u32(), 0xFF1E1E1E);
}

#[test]
fn app_launcher_grid() {
    let mut l = AppLauncher::new();
    assert_eq!(l.rect(), Rect::new(0, 0, 568, 502));
    assert_eq!(l.min_size(), (568, 502));
    assert_eq!(l.apps.len(), 10);
    assert_eq!(l.handle_event(&mv(30, 70), ROOT), EventResult::Ignored);
    l.toggle();
    assert!(l.is_open());
    // first cell at (20, 60), 120 x 130
    assert_eq!(l.handle_event(&mv(30, 70), ROOT), EventResult::Redraw);
    assert_eq!(l.handle_event(&mv(31, 70), ROOT), EventResult::Ignored);
    assert_eq!(l.handle_event(&up(20 + 136 + 5, 70), ROOT), EventResult::Handled);
    assert!(!l.is_open());
    assert_eq!(l.take_launched(), Some(1));
    l.set_open(true);
    assert_eq!(l.handle_event(&up(10, 10), ROOT), EventResult::Ignored);
    assert_eq!(l.handle_event(&up(900, 10), ROOT), EventResult::Redraw);
    assert!(!l.is_open());
    l.update(1234);
    l.set_pulse(10, 200);
}

#[test]
fn app_launcher_draws_when_open() {
    let mut c = Canvas::new(600, 520);
    let mut l = AppLauncher::new();
    l.draw(&mut c);
    assert!(c.pixels().iter().all(|&p| p == 0));
    l.set_open(true);
    l.draw(&mut c);
    assert_ne!(c.pixel(284, 250).to_u32(), 0);
}

#[test]
fn window_close_and_drag() {
    let mut w = Window::new("Title", None);
    assert_eq!(w.rect(), Rect::new(40, 56, 640, 400));
    assert_eq!(w.min_size(), (320, 200));
    // close button: 18 x 18 at (40 + 640 - 24, 56 - 24 + 2)
    assert_eq!(w.handle_event(&down(657, 35), ROOT), EventResult::Handled);
    assert_eq!(w.rect(), Rect::new(40, 56, 640, 400));
    // hovering the close button
    assert_eq!(w.handle_event(&mv(657, 35), ROOT), EventResult::Redraw);
    assert_eq!(w.handle_event(&mv(658, 35), ROOT), EventResult::Ignored);
    // grab the title bar 10 right and 10 above the content's corner
    assert_eq!(w.handle_event(&down(50, 46), ROOT), EventResult::Redraw);
    assert_eq!(w.handle_event(&mv(150, 146), ROOT), EventResult::Redraw);
    assert_eq!(w.rect(), Rect::new(140, 156, 640, 400));
    // dragging is clamped
    w.handle_event(&mv(5000, -5000), ROOT);
    assert_eq!(w.rect(), Rect::new(1000, 36, 640, 400));
    assert_eq!(w.handle_event(&up(5000, -5000), ROOT), EventResult::Redraw);
    assert_eq!(w.handle_event(&mv(0, 0), ROOT), EventResult::Ignored);
    assert_eq!(w.rect(), Rect::new(1000, 36, 640, 400));
}

#[test]
fn window_forwards_to_its_content() {
    let content: Box<dyn Widget> = Box::new(Button::new("in"));
    let mut w = Window::new("T", Some(content));
    // the button sits at (0, 0) 96 x 32, inside the window's content area
    assert_eq!(w.handle_event(&down(50, 70), ROOT), EventResult::Ignored);
    w.set_pos(0, 20);
    assert_eq!(w.handle_event(&down(10, 25), ROOT), EventResult::Redraw);
    assert_eq!(w.handle_event(&up(10, 25), ROOT), EventResult::Handled);
    let mut c = Canvas::new(800, 600);
    w.draw(&mut c);
    assert_eq!(c.pixel(100, 100).to_u32(), 0xFF161630);
}

#[test]
fn panel_lays_out_and_forwards() {
    let mut p = Panel::new(None);
    assert_eq!(p.rect(), Rect::new(0, 0, 240, 120));
    assert_eq!(p.min_size(), (45 + 44, 13 + 44));
    assert_eq!(p.handle_event(&down(50, 50), ROOT), EventResult::Ignored);
    let child: Box<dyn Widget> = Box::new(Button::new("b"));
    let mut q = Panel::new(Some(child));
    q.set_padding(0);
    q.set_size(240, 120);
    // padding 0 + 6 + 2 * scale(1) = 8: the child fills (8, 8) 224 x 104
    assert_eq!(q.handle_event(&down(9, 9), ROOT), EventResult::Redraw);
    assert_eq!(q.handle_event(&up(9, 9), ROOT), EventResult::Handled);
    assert_eq!(q.handle_event(&down(3, 3), ROOT), EventResult::Ignored);
    q.set_colors(Color::from_u32(0xFF010101), Color::from_u32(0xFF020202));
    let mut c = Canvas::new(240, 120);
    q.draw(&mut c);
    assert_eq!(c.pixel(120, 4).to_u32(), 0xFF010101);
}

#[test]
fn glass_panel_hands_events_to_its_child() {
    let mut g = GlassPanel::new();
    assert_eq!(g.rect(), Rect::new(0, 0, 400, 300));
    assert_eq!(g.min_size(), (200, 120));
    assert_eq!(g.handle_event(&down(10, 10), ROOT), EventResult::Ignored);
    g.set_title("Glass");
    g.set_radius(8);
    g.set_colors(Color::from_argb(0, 1, 2, 3), 100, Color::white(), 0);
    g.set_child(Box::new(Button::new("b")));
    // the child is laid out at (8, 21)
    assert_eq!(g.handle_event(&down(9, 22), ROOT), EventResult::Redraw);
    assert_eq!(g.handle_event(&down(2, 2), ROOT), EventResult::Ignored);
    g.set_pos(100, 100);
    assert_eq!(g.handle_event(&down(109, 122), ROOT), EventResult::Redraw);
    let mut c = Canvas::new(600, 500);
    g.draw(&mut c);
}

#[test]
fn scroller_drags_within_its_strip() {
    let mut s = TileScroller::new("Media");
    assert_eq!(s.rect(), Rect::new(0, 0, 800, 320));
    for i in 0..6 {
        let names = ["a", "b", "c", "d", "e", "f"];
        s.add_tile(MediaTile::new(names[i], "x", "y", Color::black()));
    }
    // 6 tiles of 200 with gaps of 24, plus margins: 6 * 224 - 24 + 80 = 1400
    // a press off every tile starts a drag
    assert_eq!(s.handle_event(&down(300, 5), ROOT), EventResult::Redraw);
    assert_eq!(s.handle_event(&mv(200, 5), ROOT), EventResult::Redraw);
    assert_eq!(s.scroll_offset, -100);
    s.handle_event(&mv(-5000, 5), ROOT);
    assert_eq!(s.scroll_offset, -600);
    s.handle_event(&mv(5000, 5), ROOT);
    assert_eq!(s.scroll_offset, 0);
    assert_eq!(s.handle_event(&up(0, 0), ROOT), EventResult::Redraw);
    // the first tile now sits at (40, 50) and takes presses
    assert_eq!(s.handle_event(&down(45, 55), ROOT), EventResult::Redraw);
    assert_eq!(s.handle_event(&up(45, 55), ROOT), EventResult::Redraw);
    assert_eq!(s.handle_event(&up(45, 55), ROOT), EventResult::Ignored);
    assert_eq!(s.handle_event(&down(-5, -5), ROOT), EventResult::Ignored);
    s.set_tile_size(100, 100);
    let mut c = Canvas::new(900, 400);
    s.draw(&mut c);
    assert_eq!(c.pixel(30, 37).to_u32(), 0xFF6699CC);
}

#[test]
fn futuristic_clock_state() {
    let mut k = FuturisticClock::new();
    assert_eq!(k.rect(), Rect::new(0, 0, 300, 100));
    assert_eq!(k.min_size(), (200, 60));
    k.set_time(12, 34, 56);
    assert_eq!((k.hours, k.minutes, k.seconds), (12, 34, 56));
    k.set_date("2024-01-01");
    k.update(10);
    k.update(10);
    assert_eq!(k.handle_event(&down(1, 1), ROOT), EventResult::Ignored);
    let mut c = Canvas::new(300, 100);
    k.draw(&mut c);
    // the colon dots
    assert_ne!(c.pixel(142, 38).to_u32(), 0);
}

#[test]
fn toggle_flips_on_release_over_it() {
    let parent = Rect::new(10, 10, 400, 300);
    let mut t = ToggleState::new(false);
    assert_eq!(t.handle_event(&Event::MouseDown { x: 20, y: 20, button: 1 }, parent), EventResult::Ignored);
    assert_eq!(t.handle_event(&Event::MouseUp { x: 20, y: 20, button: 1 }, parent), EventResult::Handled);
    assert!(t.active);
    assert_eq!(t.handle_event(&Event::MouseUp { x: 100, y: 20, button: 1 }, parent), EventResult::Ignored);
    assert!(t.active);
    assert_eq!(t.handle_event(&Event::MouseUp { x: 57, y: 33, button: 1 }, parent), EventResult::Handled);
    assert!(!t.active);
}

#[test]
fn toggle_hover_redraws_on_change_only() {
    let parent = Rect::new(0, 0, 400, 300);
    let mut t = ToggleState::new(true);
    assert_eq!(t.handle_event(&Event::MouseMove { x: 5, y: 5 }, parent), EventResult::Redraw);
    assert!(t.hovered);
    assert_eq!(t.handle_event(&Event::MouseMove { x: 6, y: 5 }, parent), EventResult::Ignored);
    assert_eq!(t.handle_event(&Event::MouseMove { x: 48, y: 5 }, parent), EventResult::Redraw);
    assert!(!t.hovered);
    assert!(t.active);
}

#[test]
fn slider_pick_clamps_to_track() {
    let s = SliderState::new();
    assert_eq!(s.pick(10), SliderPick::At { offset: 0, track: 180 });
    assert_eq!(s.pick(100), SliderPick::At { offset: 90, track: 180 });
    assert_eq!(s.pick(500), SliderPick::At { offset: 180, track: 180 });
    assert_eq!(s.pick(-5), SliderPick::At { offset: 0, track: 180 });
    let mut narrow = SliderState::new();
    narrow.rect = Rect::new(0, 0, 10, 20);
    assert_eq!(narrow.pick(5), SliderPick::Min);
}

#[test]
fn slider_drag_moves_knob_until_release() {
    let parent = Rect::new(0, 0, 800, 600);
    let mut s = SliderState::new();
    assert_eq!(s.handle_event(&Event::MouseDown { x: 300, y: 10, button: 1 }, parent), (EventResult::Ignored, None));
    assert_eq!(
        s.handle_event(&Event::MouseDown { x: 50, y: 10, button: 1 }, parent),
        (EventResult::Redraw, Some(SliderPick::At { offset: 40, track: 180 }))
    );
    assert!(s.dragging);
    assert_eq!(
        s.handle_event(&Event::MouseMove { x: 300, y: 50 }, parent),
        (EventResult::Redraw, Some(SliderPick::At { offset: 180, track: 180 }))
    );
    assert!(!s.hovered);
    assert_eq!(s.handle_event(&Event::MouseUp { x: 300, y: 50, button: 1 }, parent), (EventResult::Redraw, None));
    assert!(!s.dragging);
    assert_eq!(s.handle_event(&Event::MouseUp { x: 300, y: 50, button: 1 }, parent), (EventResult::Ignored, None));
    assert_eq!(s.handle_event(&Event::MouseMove { x: 30, y: 5 }, parent), (EventResult::Redraw, None));
    assert!(s.hovered);
}

#[test]
fn widgets_far_from_the_origin_draw_what_reaches_the_canvas() {
    // a panel reaching from -2^30 to 100 covers the canvas's left columns
    let mut p = Panel::new(None);
    p.set_pos(-0x4000_0000, 0);
    p.set_size(0x4000_0000 + 100, 50);
    p.set_colors(Color::from_u32(0xFF010101), Color::from_u32(0xFF020202));
    let mut c = Canvas::new(60, 50);
    p.draw(&mut c);
    assert_eq!(c.pixel(30, 25).to_u32(), 0xFF010101);
    // a button whose bottom edge would pass i32::MAX is not drawn
    let mut b = Button::new("b");
    b.set_pos(0, i32::MAX - 10);
    let mut c2 = Canvas::new(10, 10);
    b.draw(&mut c2);
    assert!(c2.pixels().iter().all(|&v| v == 0));
}

#[test]
fn window_is_drawn_only_when_its_coordinates_are_i32_values() {
    let mut c = Canvas::new(64, 64);
    let mut w = Window::new("Title", None);
    w.set_pos(8, 40);
    w.set_size(40, 20);
    w.draw(&mut c);
    // the content area's top-left border pixel
    assert_ne!(c.pixel(8, 40).to_u32(), 0);
    // the right edge would pass i32::MAX: nothing is drawn
    let mut far = Window::new("Title", None);
    far.set_pos(i32::MAX - 30, 40);
    let mut c2 = Canvas::new(16, 16);
    far.draw(&mut c2);
    assert!(c2.pixels().iter().all(|&v| v == 0));
}

#[test]
fn containers_draw_their_child_over_themselves() {
    let child: Box<dyn Widget> = Box::new(Button::new("b"));
    let p = Panel::new(Some(child));
    // the child is laid out 10 + 6 + 2 = 18 pixels in; its face is the
    // button's background, over the panel's own fill
    let mut c = Canvas::new(240, 120);
    let mut q = p;
    q.set_size(240, 120);
    q.draw(&mut c);
    assert_eq!(c.pixel(20, 25).to_u32(), 0xFF2A2A4E);
    assert_eq!(c.pixel(10, 60).to_u32(), 0xFF1D1D35);
}
