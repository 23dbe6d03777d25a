//! Captured screen frames and the cache that keeps the latest usable one.

use vstd::prelude::*;
use crate::pixel::Pixel;

verus! {

/// Pixel layouts a captured frame may arrive in.
#[derive(Clone, Copy, Debug, PartialEq, Eq)]
pub enum PixelFormat {
    /// 32 bits per pixel: in memory one byte each of red, green and blue,
    /// followed by one unused byte.
    Bgrx8888,
    /// Any other layout. Frames in it are never read.
    Other,
}

/// A frame as the screen-capture facility delivers it.
#[derive(Clone, Debug, PartialEq, Eq)]
pub struct CaptureFrame {
    pub width: u32,
    pub height: u32,
    pub pixel_format: PixelFormat,
    pub pixels: Vec<u8>,
}

/// What a `CaptureFrame` holds.
pub struct CaptureFrameView {
    pub width: int,
    pub height: int,
    pub pixel_format: PixelFormat,
    pub pixels: Seq<u8>,
}

impl CaptureFrameView {
    /// Number of pixels the frame claims to hold.
    pub open spec fn pixel_count(self) -> int {
        self.width * self.height
    }

    /// A frame is usable when it is in the recognized format, is not empty,
    /// and its buffer holds four bytes for every pixel it claims.
    pub open spec fn usable(self) -> bool {
        &&& self.pixel_format == PixelFormat::Bgrx8888
        &&& self.width > 0
        &&& self.height > 0
        &&& 4 * self.pixel_count() <= self.pixels.len()
    }

    /// The pixel at `index`, counting row by row from the top left. There is
    /// one only when the frame is in the recognized format, claims that many
    /// pixels, and its buffer reaches that far. A captured pixel is opaque.
    pub open spec fn pixel_at(self, index: int) -> Option<Pixel> {
        if self.pixel_format == PixelFormat::Bgrx8888 && 0 <= index < self.pixel_count() && 4
            * index + 4 <= self.pixels.len() {
            Some(
                Pixel {
                    b: self.pixels[4 * index + 2],
                    g: self.pixels[4 * index + 1],
                    r: self.pixels[4 * index],
                    a: 0xFF,
                },
            )
        } else {
            None
        }
    }
}

impl View for CaptureFrame {
    type V = CaptureFrameView;

    open spec fn view(&self) -> CaptureFrameView {
        CaptureFrameView {
            width: self.width as int,
            height: self.height as int,
            pixel_format: self.pixel_format,
            pixels: self.pixels@,
        }
    }
}

/// What an optional borrowed frame holds.
pub open spec fn frame_view(frame: Option<&CaptureFrame>) -> Option<CaptureFrameView> {
    match frame {
        Some(f) => Some(f@),
        None => None,
    }
}

/// The pixel at `index` of an optional frame: none when the frame is absent.
pub open spec fn captured_pixel(frame: Option<CaptureFrameView>, index: int) -> Option<Pixel> {
    match frame {
        Some(f) => f.pixel_at(index),
        None => None,
    }
}

/// Every pixel that a usable frame claims can be read.
pub proof fn lemma_usable_frame_reads(frame: CaptureFrameView, index: int)
    requires
        frame.usable(),
    ensures
        frame.pixel_at(index) is Some <==> 0 <= index < frame.pixel_count(),
{
}

impl CaptureFrame {
    /// Number of pixels the frame claims to hold.
    pub fn pixel_count(&self) -> (count: u64)
        ensures
            count as int == self@.pixel_count(),
        no_unwind
    {
        let w: u64 = self.width as u64;
        let h: u64 = self.height as u64;
        assert(w * h <= 0xFFFF_FFFF * 0xFFFF_FFFF) by (nonlinear_arith)
            requires
                0 <= w <= 0xFFFF_FFFF,
                0 <= h <= 0xFFFF_FFFF,
        ;
        w * h
    }

    /// Whether the cache may keep this frame.
    pub fn is_usable(&self) -> (usable: bool)
        ensures
            usable == self@.usable(),
        no_unwind
    {
        match self.pixel_format {
            PixelFormat::Bgrx8888 => {
                let whole: u64 = (self.pixels.len() / 4) as u64;
                self.width > 0 && self.height > 0 && self.pixel_count() <= whole
            },
            PixelFormat::Other => false,
        }
    }

    /// The pixel at `index`, or nothing where the frame has none.
    pub fn pixel(&self, index: u64) -> (pixel: Option<Pixel>)
        ensures
            pixel == self@.pixel_at(index as int),
    {
        match self.pixel_format {
            PixelFormat::Bgrx8888 => {
                let whole: u64 = (self.pixels.len() / 4) as u64;
                if index < self.pixel_count() && index < whole {
                    let base: usize = (index as usize) * 4;
                    Some(
                        Pixel {
                            b: self.pixels[base + 2],
                            g: self.pixels[base + 1],
                            r: self.pixels[base],
                            a: 0xFF,
                        },
                    )
                } else {
                    None
                }
            },
            PixelFormat::Other => None,
        }
    }
}

/// Keeps the most recent usable frame. A capture that failed, came back empty
/// or is in an unrecognized format leaves the previous frame in place: a stale
/// picture of what lies behind the dock is better than none.
pub struct CaptureCache {
    frame: Option<CaptureFrame>,
}

impl View for CaptureCache {
    type V = Option<CaptureFrameView>;

    closed spec fn view(&self) -> Option<CaptureFrameView> {
        match self.frame {
            Some(f) => if f@.usable() {
                Some(f@)
            } else {
                None
            },
            None => None,
        }
    }
}

/// Whatever a cache holds is usable.
pub proof fn lemma_cached_frame_is_usable(cache: &CaptureCache)
    ensures
        cache@ matches Some(f) ==> f.usable(),
{
}

/// The cache after `new_frame` is offered to one that held `cached`.
pub open spec fn cache_after(
    cached: Option<CaptureFrameView>,
    new_frame: Option<CaptureFrameView>,
) -> Option<CaptureFrameView> {
    match new_frame {
        Some(f) => if f.usable() {
            Some(f)
        } else {
            cached
        },
        None => cached,
    }
}

/// A capture that failed or came back in an unrecognized format never changes
/// what is cached; a usable frame replaces it whole.
pub proof fn lemma_cache_after(cached: Option<CaptureFrameView>, frame: CaptureFrameView)
    ensures
        cache_after(cached, None) == cached,
        frame.pixel_format == PixelFormat::Other ==> cache_after(cached, Some(frame)) == cached,
        frame.usable() ==> cache_after(cached, Some(frame)) == Some(frame),
{
}

impl CaptureCache {
    #[verifier::type_invariant]
    spec fn holds_usable_frame(self) -> bool {
        match self.frame {
            Some(f) => f@.usable(),
            None => true,
        }
    }

    /// A cache that holds no frame yet.
    pub fn new() -> (cache: CaptureCache)
        ensures
            cache@ is None,
    {
        CaptureCache { frame: None }
    }

    /// Offers the result of a capture to the cache. A usable frame replaces
    /// what was cached, whole; anything else changes nothing.
    pub fn update(&mut self, new_frame: Option<CaptureFrame>)
        ensures
            final(self)@ == cache_after(
                old(self)@,
                match new_frame {
                    Some(f) => Some(f@),
                    None => None,
                },
            ),
            final(self)@ matches Some(f) ==> f.usable(),
        no_unwind
    {
        proof {
            use_type_invariant(&*self);
        }
        match new_frame {
            Some(frame) => {
                if frame.is_usable() {
                    self.frame = Some(frame);
                }
            },
            None => {},
        }
    }

    /// The cached frame, if there is one. It is always usable.
    pub fn get(&self) -> (frame: Option<&CaptureFrame>)
        ensures
            frame_view(frame) == self@,
            frame matches Some(f) ==> f@.usable(),
    {
        proof {
            use_type_invariant(self);
        }
        self.frame.as_ref()
    }
}

/// How often the capture facility is started again after it failed to start.
pub const CAPTURE_INIT_RETRIES: u32 = 9;

/// Milliseconds to wait before each new start.
pub const CAPTURE_INIT_BACKOFF_MS: u64 = 800;

/// What follows an attempt to start the capture facility with `retries_left`
/// new starts still allowed: after a failure with starts left, one more start
/// with one fewer left; otherwise nothing, and the session goes on with
/// whatever it has.
pub open spec fn retry_after(retries_left: u32, failed: bool) -> Option<u32> {
    if failed && retries_left > 0 {
        Some((retries_left - 1) as u32)
    } else {
        None
    }
}

/// Decides whether to start the capture facility once more, after waiting
/// `CAPTURE_INIT_BACKOFF_MS`, and how many starts are left after that one.
pub fn retry_capture_init(retries_left: u32, failed: bool) -> (next: Option<u32>)
    ensures
        next == retry_after(retries_left, failed),
{
    if failed && retries_left > 0 {
        Some(retries_left - 1)
    } else {
        None
    }
}

} // verus!
