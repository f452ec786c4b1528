//! The render engine: determinism, resizing, and the displayed buffer.
use fractal::colour::HdrColour;
use fractal::frame::Frame;
use fractal::viewport::Point;

fn white() -> HdrColour {
    HdrColour { red: 1_000_000, green: 1_000_000, blue: 1_000_000 }
}

fn black() -> HdrColour {
    HdrColour { red: 0, green: 0, blue: 0 }
}

/// A fresh frame has the default viewport and an all-black buffer.
#[test]
fn new_frame_is_black() {
    let f = Frame::new(32, 16);
    assert_eq!(f.width, 32);
    assert_eq!(f.height, 16);
    assert_eq!(f.buffer.len(), 32 * 16);
    assert!(f.buffer.iter().all(|c| *c == black()));
    assert_eq!(f.viewport.center, Point { re: 0, im: 0 });
    assert_eq!(f.viewport.radius, 5_000_000);
}

/// The default frame spans 1600 by 900 pixels.
#[test]
fn default_frame_dimensions() {
    let f = Frame::default();
    assert_eq!(f.width, 1600);
    assert_eq!(f.height, 900);
    assert_eq!(f.buffer.len(), 1600 * 900);
}

/// Rendering writes white where points escape and black where they stay
/// bounded.
#[test]
fn render_classifies_pixels() {
    let mut f = Frame::new(32, 32);
    f.render();
    // The corner pixel maps to -2.5 + 2.5i, far outside the escape radius.
    assert_eq!(f.get_pixel(0, 0), white());
    // The center pixel maps to the origin, which never escapes.
    assert_eq!(f.get_pixel(16, 16), black());
}

/// A parallel render and a sequential render of the same viewport and
/// dimensions produce identical buffers.
#[test]
fn parallel_and_sequential_renders_agree() {
    let mut parallel = Frame::new(64, 48);
    parallel.render();
    let mut sequential = Frame::new(64, 48);
    sequential.render_sequential();
    assert_eq!(parallel.buffer.len(), sequential.buffer.len());
    assert!(parallel.buffer == sequential.buffer);
    // And the picture is not trivial: both classifications occur.
    assert!(parallel.buffer.iter().any(|c| *c == white()));
    assert!(parallel.buffer.iter().any(|c| *c == black()));
}

/// Resizing discards the previous contents entirely: the new buffer has the
/// new dimensions and holds no stale pixels.
#[test]
fn resize_discards_contents() {
    let mut f = Frame::new(16, 16);
    f.render();
    assert!(f.buffer.iter().any(|c| *c == white()));
    f.change_window_size(8, 12);
    assert_eq!(f.width, 8);
    assert_eq!(f.height, 12);
    assert_eq!(f.buffer.len(), 8 * 12);
    assert!(f.buffer.iter().all(|c| *c == black()));
}

/// Resetting the viewport restores the default view and keeps the buffer.
#[test]
fn reset_viewport_restores_default() {
    let mut f = Frame::new(16, 16);
    f.viewport.zoom(Point { re: 1_000_000, im: 0 }, 900_000);
    assert_ne!(f.viewport.center, Point { re: 0, im: 0 });
    f.reset_viewport();
    assert_eq!(f.viewport.center, Point { re: 0, im: 0 });
    assert_eq!(f.viewport.radius, 5_000_000);
    assert_eq!(f.buffer.len(), 16 * 16);
}

/// The displayed buffer is the packed form of the colour buffer, pixel for
/// pixel.
#[test]
fn display_buffer_packs_every_pixel() {
    let mut f = Frame::new(32, 32);
    f.render();
    let shown = f.display_buffer();
    assert_eq!(shown.len(), 32 * 32);
    // Corner escaped: packed white. Center bounded: packed black.
    assert_eq!(shown[0], 0x00FFFFFF);
    assert_eq!(shown[16 * 32 + 16], 0x00000000);
}

/// The cursor translation agrees with the pixel mapping of the frame.
#[test]
fn point_from_pixel_uses_frame_state() {
    let f = Frame::new(200, 100);
    // Default radius 5 over 100 pixels: 0.05 units per pixel.
    let p = f.point_from_pixel(0, 50_000_000);
    assert_eq!(p, Point { re: -5_000_000, im: 0 });
}
