pub mod png;

pub use self::png::Compression;
/// Re-exported because it appears in this module's public API: the rasterizer
/// hands one back and `png::encode` takes one, so callers need to name the type
/// without depending on tiny-skia directly.
pub use tiny_skia::Pixmap;
