use waylock::lock::canvas::Glyph;
use waylock::lock::surface::{
    DrawError, LockSurface, PoolReply, RenderEvent, BACKGROUND, BAR_INSET, TEXT_COLOR,
};

fn configured(width: u32, height: u32, color: u32) -> LockSurface {
    let mut surface = LockSurface::new(color);
    assert!(surface.record_event(RenderEvent::Configure { width, height }));
    assert!(!surface.handle_events());
    surface
}

#[test]
fn new_surface_knows_no_size() {
    let surface = LockSurface::new(0xff12_3456);
    assert_eq!(surface.dimensions(), (0, 0));
    assert_eq!(surface.color(), 0xff12_3456);
    assert_eq!(surface.entered(), 0);
    assert_eq!(surface.pending(), None);
    assert!(!surface.needs_redraw());
    let (frame, size) = surface.frame();
    assert!(frame.is_empty());
    assert_eq!(size, (0, 0));
}

#[test]
fn close_is_not_overwritten_by_configure() {
    let mut surface = LockSurface::new(0);
    assert!(surface.record_event(RenderEvent::Configure { width: 1, height: 2 }));
    assert!(surface.record_event(RenderEvent::Configure { width: 3, height: 4 }));
    assert_eq!(surface.pending(), Some(RenderEvent::Configure { width: 3, height: 4 }));
    assert!(surface.record_event(RenderEvent::Close));
    assert_eq!(surface.pending(), Some(RenderEvent::Close));
    assert!(!surface.record_event(RenderEvent::Configure { width: 5, height: 6 }));
    assert_eq!(surface.pending(), Some(RenderEvent::Close));
    assert!(surface.record_event(RenderEvent::Close));
    assert_eq!(surface.pending(), Some(RenderEvent::Close));
}

#[test]
fn close_asks_for_destruction_and_nothing_else() {
    let mut surface = configured(4, 3, 7);
    surface.record_event(RenderEvent::Close);
    let redraw = surface.needs_redraw();
    assert!(surface.handle_events());
    assert_eq!(surface.pending(), None);
    assert_eq!(surface.dimensions(), (4, 3));
    assert_eq!(surface.needs_redraw(), redraw);
}

#[test]
fn configure_sets_the_size_and_asks_for_a_frame() {
    let mut surface = LockSurface::new(0);
    surface.record_event(RenderEvent::Configure { width: 640, height: 480 });
    assert_eq!(surface.dimensions(), (0, 0));
    assert!(!surface.handle_events());
    assert_eq!(surface.dimensions(), (640, 480));
    assert!(surface.needs_redraw());
    assert_eq!(surface.pending(), None);
}

#[test]
fn without_an_event_nothing_changes() {
    let mut surface = LockSurface::new(0);
    assert!(!surface.handle_events());
    assert!(!surface.needs_redraw());
    assert_eq!(surface.dimensions(), (0, 0));
}

#[test]
fn colour_asks_for_a_frame_and_the_count_does_not() {
    let mut surface = LockSurface::new(1);
    surface.chars_entered(5);
    assert_eq!(surface.entered(), 5);
    assert!(!surface.needs_redraw());
    surface.set_color(2);
    assert_eq!(surface.color(), 2);
    assert!(surface.needs_redraw());
    let mut surface = LockSurface::new(1);
    surface.set_redraw();
    assert!(surface.needs_redraw());
    assert_eq!(surface.color(), 1);
}

#[test]
fn frame_size_is_four_bytes_a_pixel() {
    let surface = configured(1920, 1080, 0);
    assert_eq!(surface.stride(), Some(7680));
    assert_eq!(surface.frame_size(), Some(7680 * 1080));
    let surface = configured(u32::MAX, u32::MAX, 0);
    assert_eq!(surface.frame_size(), None);
    let surface = LockSurface::new(0);
    assert_eq!(surface.frame_size(), Some(0));
}

#[test]
fn busy_pool_leaves_the_frame_as_it_is() {
    let mut surface = configured(4, 2, 0xffab_cdef);
    assert_eq!(surface.redraw(PoolReply::Granted, &Vec::new()), Ok(()));
    let shown = surface.frame().0.clone();
    surface.set_color(0xff00_00ff);
    surface.chars_entered(3);
    surface.record_event(RenderEvent::Configure { width: 8, height: 8 });
    surface.handle_events();
    assert_eq!(surface.redraw(PoolReply::Exhausted, &Vec::new()), Err(DrawError::NoFreePool));
    assert_eq!(surface.frame().0, &shown);
    assert_eq!(surface.frame().1, (4, 2));
    assert!(surface.needs_redraw());
    assert_eq!(surface.dimensions(), (8, 8));
    assert_eq!(surface.color(), 0xff00_00ff);
    assert_eq!(surface.entered(), 3);
}

#[test]
fn failed_resize_is_an_io_error_and_is_tried_again() {
    let mut surface = configured(4, 2, 0xffab_cdef);
    assert_eq!(surface.redraw(PoolReply::ResizeFailed, &Vec::new()), Err(DrawError::Io));
    assert!(surface.frame().0.is_empty());
    assert!(surface.needs_redraw());
    assert_eq!(surface.redraw(PoolReply::Granted, &Vec::new()), Ok(()));
    assert!(!surface.needs_redraw());
    assert_eq!(surface.frame().0.len(), 8);
}

#[test]
fn frame_too_large_for_the_machine_is_an_io_error() {
    let mut surface = configured(u32::MAX, u32::MAX, 0);
    assert_eq!(surface.redraw(PoolReply::Granted, &Vec::new()), Err(DrawError::Io));
    assert!(surface.needs_redraw());
}

#[test]
fn redraw_paints_background_text_and_bar() {
    let width = 2 * BAR_INSET + 100;
    let height = 200;
    let color = 0xff00_00ff;
    let mut surface = configured(width as u32, height as u32, color);
    let glyph = Glyph {
        x: 3,
        y: 2,
        width: 2,
        height: 1,
        coverage: vec![255, 0],
        control: false,
        whitespace: false,
    };
    assert_eq!(surface.redraw(PoolReply::Granted, &vec![glyph]), Ok(()));
    let (frame, size) = surface.frame();
    assert_eq!(size, (width, height));
    assert_eq!(frame.len(), width * height);
    let at = |x: usize, y: usize| frame[y * width + x];
    assert_eq!(at(0, 0), BACKGROUND);
    assert_eq!(at(3, 2), 0xfefe_fefe);
    assert_eq!(at(4, 2), 0xfe00_0000);
    assert_eq!(at(5, 2), BACKGROUND);
    assert_eq!(at(BAR_INSET, 150), color);
    assert_eq!(at(BAR_INSET - 1, 150), BACKGROUND);
    assert_eq!(at(BAR_INSET + 99, 159), color);
    assert_eq!(at(BAR_INSET + 100, 159), BACKGROUND);
    assert_eq!(at(BAR_INSET, 149), BACKGROUND);
    assert_eq!(at(BAR_INSET, 160), BACKGROUND);
    let bar = frame.iter().filter(|p| **p == color).count();
    assert_eq!(bar, 100 * 10);
    assert_eq!(TEXT_COLOR, 0xffff_ffff);
}

#[test]
fn narrow_surface_has_no_bar() {
    let mut surface = configured(600, 200, 0xff00_00ff);
    assert_eq!(surface.redraw(PoolReply::Granted, &Vec::new()), Ok(()));
    assert!(surface.frame().0.iter().all(|p| *p == BACKGROUND));
    let mut surface = configured(100, 50, 0xff00_00ff);
    assert_eq!(surface.redraw(PoolReply::Granted, &Vec::new()), Ok(()));
    assert_eq!(surface.frame().0, &vec![BACKGROUND; 5000]);
}

#[test]
fn low_surface_cuts_the_bar() {
    let mut surface = configured(1000, 12, 0xff00_00ff);
    assert_eq!(surface.redraw(PoolReply::Granted, &Vec::new()), Ok(()));
    assert!(surface.frame().0.iter().all(|p| *p == BACKGROUND));
}

#[test]
fn surface_without_size_paints_an_empty_frame() {
    let mut surface = LockSurface::new(0xff00_00ff);
    surface.set_redraw();
    assert_eq!(surface.redraw(PoolReply::Granted, &Vec::new()), Ok(()));
    assert!(surface.frame().0.is_empty());
    assert!(!surface.needs_redraw());
}

#[test]
fn draw_errors_have_messages() {
    assert_eq!(DrawError::NoFreePool.message(), "No free shm pool for drawing");
    assert_eq!(DrawError::Io.message(), "I/O error while drawing");
}
