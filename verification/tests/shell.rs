use zirvtk::app::App;
use zirvtk::button::Button;
use zirvtk::color::Color;
use zirvtk::desktop::{DateTime, Desktop};
use zirvtk::platform::{DisplayInfo, MouseEvent, Platform};
use zirvtk::scroller::TileScroller;
use zirvtk::tile::MediaTile;
use zirvtk::widget::Widget;

fn mouse(dx: i32, dy: i32, buttons: u8) -> MouseEvent {
    MouseEvent { dx, dy, buttons }
}

#[test]
fn platform_keeps_its_info() {
    let info = DisplayInfo { width: 640, height: 480, stride: 2560, bpp: 32, connected: true };
    let p = Platform::from_info(info.clone());
    assert_eq!(p.info().width, 640);
    assert_eq!(p.info().height, 480);
    assert_eq!(p.info().stride, 2560);
    assert!(p.info().connected);
}

#[test]
fn app_starts_with_the_background() {
    let app = App::new(64, 48);
    assert_eq!(app.cursor(), (0, 0));
    assert!(app.is_running());
    assert_eq!(app.frame_ms(), 33);
    let c = app.canvas();
    assert_eq!((c.width, c.height), (64, 48));
    // the top row is the gradient's top colour, except where a star is
    assert_eq!(c.pixel(0, 0).to_u32(), 0xFF1A1A2E);
}

#[test]
fn app_cursor_stays_on_screen() {
    let mut app = App::new(64, 48);
    app.on_mouse(mouse(10, 5, 0));
    assert_eq!(app.cursor(), (10, 5));
    app.on_mouse(mouse(-100, 1000, 0));
    assert_eq!(app.cursor(), (0, 47));
    app.on_mouse(mouse(1000, -1000, 1));
    assert_eq!(app.cursor(), (63, 0));
}

#[test]
fn app_frame_draws_the_cursor() {
    let mut app = App::new(64, 48);
    app.on_mouse(mouse(20, 20, 0));
    assert!(app.render_frame());
    let c = app.canvas();
    assert_eq!(c.pixel(20, 20).to_u32(), 0xFFFFFFFF);
    assert_eq!(c.pixel(22, 22).to_u32(), 0xFFFFFFFF);
    assert_eq!(c.pixel(31, 20).to_u32(), 0xFF222222);
    assert_eq!(c.pixel(25, 25).to_u32(), 0xFF222222);
    assert_ne!(c.pixel(21, 22).to_u32(), 0xFF222222);
}

#[test]
fn app_root_gets_the_mouse() {
    let mut app = App::new(200, 100);
    app.set_root(Box::new(Button::new("x")));
    app.on_mouse(mouse(10, 10, 1));
    app.on_mouse(mouse(0, 0, 0));
    assert!(app.render_frame());
}

#[test]
fn app_click_reaches_the_root_button() {
    let mut app = App::new(200, 100);
    app.set_root(Box::new(Button::new("x")));
    assert!(app.render_frame());
    assert_eq!(app.canvas().pixel(5, 90).to_u32(), 0xFF2A2A4E);
    // button 1 held: a press, then a move over the button
    app.on_mouse(mouse(10, 10, 1));
    assert!(app.render_frame());
    assert_eq!(app.canvas().pixel(5, 90).to_u32(), 0xFF1A1A3E);
    // released over the button: hovered, no longer pressed
    app.on_mouse(mouse(0, 0, 0));
    assert!(app.render_frame());
    assert_eq!(app.canvas().pixel(5, 90).to_u32(), 0xFF3A3A6E);
}

#[test]
fn desktop_layout() {
    let d = Desktop::new(800, 600, None);
    assert_eq!(d.cursor(), (400, 300));
    assert!(d.is_running());
    assert_eq!((d.canvas().width, d.canvas().height), (800, 600));
}

#[test]
fn desktop_clicks_the_start_button() {
    let mut d = Desktop::new(800, 600, None);
    // move to the start button at (4, 556) 48 x 40, then click
    assert!(d.on_mouse(mouse(-390, 260, 0)));
    assert_eq!(d.cursor(), (10, 560));
    assert!(!d.on_mouse(mouse(0, 0, 1)));
    assert!(!d.on_mouse(mouse(0, 0, 0)));
    // the start screen is open now: a release on its first tile launches
    // grid origin: ((800 - 756) / 2, 80 + (600 - 80 - 448) / 2) = (22, 116)
    d.on_mouse(mouse(20, -440, 1));
    assert_eq!(d.cursor(), (30, 120));
    d.on_mouse(mouse(0, 0, 0));
    assert_eq!(d.take_launched(), Some(0));
    assert_eq!(d.take_launched(), None);
}

#[test]
fn desktop_reads_the_clock() {
    let now = DateTime { year: 2024, month: 5, day: 9, hour: 13, minute: 7, second: 30 };
    let mut d = Desktop::new(320, 240, Some(now));
    d.render_frame();
    assert_eq!(d.sync_clock(0), 30);
    assert_eq!(d.sync_clock(30), 30);
    let old = DateTime { year: 1999, month: 1, day: 1, hour: 1, minute: 1, second: 1 };
    d.apply_rtc(old);
    assert_eq!(d.sync_clock(30), 30);
    d.apply_rtc(DateTime { second: 31, ..now });
    assert_eq!(d.sync_clock(30), 31);
    d.show_time();
}

#[test]
fn desktop_frame_has_the_taskbar() {
    let mut d = Desktop::new(320, 240, None);
    d.render_frame();
    assert_eq!(d.canvas().pixel(100, 220).to_u32(), 0xFF101010);
    assert_eq!(d.canvas().pixel(100, 0).to_u32(), 0xFFB46400);
}

#[test]
fn media_center_demo_renders() {
    let tiles = [
        ("Pictures", "Your photo library", "[PIC]", 0xFF2E8B57u32),
        ("Videos", "Movies & clips", "[VID]", 0xFF4169E1),
        ("Music", "All your tracks", "[MSC]", 0xFF8B008B),
        ("TV", "Recorded shows", "[TV]", 0xFFB8860B),
        ("Radio", "FM & online", "[RAD]", 0xFFCD5C5C),
        ("Tasks", "System tools", "[TSK]", 0xFF2F4F4F),
        ("Settings", "Preferences", "[SET]", 0xFF555555),
        ("Extras", "More apps", "[EXT]", 0xFF556B2F),
    ];
    let mut scroller = TileScroller::new("ZIRV MEDIA CENTER");
    for (title, sub, icon, color) in tiles {
        scroller.add_tile(MediaTile::new(title, sub, icon, Color::from_u32(color)));
    }
    let mut app = App::new(800, 600);
    app.set_root(Box::new(scroller));
    let before = app.canvas().pixels().to_vec();
    assert!(app.render_frame());
    // the tiles are not laid out until the strip is dragged, so they lie
    // on one another at the origin, the last one on top
    assert_eq!(app.canvas().pixel(5, 200).to_u32(), 0xFF556B2F);
    assert_ne!(app.canvas().pixels(), &before[..]);
}
