//! The display and input surface the engine mutates: a monochrome
//! framebuffer of single-bit pixels and a 16-entry key-state table.
//! Rendering to a window and pumping real input events belong to the host.
use vstd::prelude::*;

verus! {

/// Framebuffer width in pixels.
pub const SCREEN_WIDTH: usize = 64;

/// Framebuffer height in pixels.
pub const SCREEN_HEIGHT: usize = 32;

/// Number of pixels in the framebuffer.
pub const SCREEN_PIXELS: usize = 2048;

/// Number of keys on the keypad.
pub const NUM_KEYS: usize = 16;

/// Index of the pixel at column `x`, row `y` in the flattened framebuffer,
/// which stores columns contiguously.
pub open spec fn pix_idx(x: int, y: int) -> int {
    x * 32 + y
}

/// The framebuffer and key table, as the spec model sees them.
#[verifier::ext_equal]
pub struct DisplayView {
    /// One byte per pixel, each 0 or 1, flattened per `pix_idx`.
    pub pixels: Seq<u8>,
    /// Whether each of the 16 keys is currently held.
    pub keys: Seq<bool>,
}

/// The display and input surface.
pub struct Display {
    /// One byte per pixel, each 0 or 1, flattened per `pix_idx`.
    pub pixels: Vec<u8>,
    /// Whether each of the 16 keys is currently held.
    pub keys: Vec<bool>,
}

impl View for Display {
    type V = DisplayView;

    open spec fn view(&self) -> DisplayView {
        DisplayView { pixels: self.pixels@, keys: self.keys@ }
    }
}

/// Well-formedness of the surface as the spec model sees it: one byte per
/// pixel, each either 0 or 1, and one entry per key.
pub open spec fn disp_wf(d: DisplayView) -> bool {
    &&& d.pixels.len() == SCREEN_PIXELS
    &&& d.keys.len() == NUM_KEYS
    &&& forall|p: int| 0 <= p < SCREEN_PIXELS ==> d.pixels[p] <= 1
}

/// An all-dark framebuffer.
pub open spec fn blank_pixels() -> Seq<u8> {
    Seq::new(SCREEN_PIXELS as nat, |i: int| 0u8)
}

/// A framebuffer vector with every pixel dark.
fn dark_framebuffer() -> (v: Vec<u8>)
    ensures
        v@ == blank_pixels(),
{
    let mut v: Vec<u8> = Vec::new();
    while v.len() < SCREEN_PIXELS
        invariant
            v@.len() <= SCREEN_PIXELS,
            forall|i: int| 0 <= i < v@.len() ==> v@[i] == 0u8,
        decreases SCREEN_PIXELS - v@.len(),
    {
        v.push(0);
    }
    proof {
        assert(v@ =~= blank_pixels());
    }
    v
}

impl Display {
    /// The surface is well formed when the framebuffer holds one byte per
    /// pixel, each either 0 or 1, and the key table has one entry per key.
    pub open spec fn wf(self) -> bool {
        disp_wf(self@)
    }

    /// A fresh surface: every pixel dark, no key held.
    pub fn new() -> (r: Display)
        ensures
            r.wf(),
            r@.pixels == blank_pixels(),
            forall|k: int| 0 <= k < NUM_KEYS ==> !r@.keys[k],
    {
        let pixels = dark_framebuffer();
        let mut keys: Vec<bool> = Vec::new();
        while keys.len() < NUM_KEYS
            invariant
                keys@.len() <= NUM_KEYS,
                forall|k: int| 0 <= k < keys@.len() ==> !keys@[k],
            decreases NUM_KEYS - keys@.len(),
        {
            keys.push(false);
        }
        Display { pixels, keys }
    }

    /// Darkens every pixel; the key table is untouched.
    pub fn clear(&mut self)
        requires
            old(self).wf(),
        ensures
            final(self).wf(),
            final(self)@.pixels == blank_pixels(),
            final(self)@.keys == old(self)@.keys,
    {
        self.pixels = dark_framebuffer();
    }

    /// Reads the pixel at column `x`, row `y`: 1 when lit, 0 when dark.
    pub fn read_pixel(&self, x: usize, y: usize) -> (b: u8)
        requires
            self.wf(),
            x < SCREEN_WIDTH,
            y < SCREEN_HEIGHT,
        ensures
            b == self@.pixels[pix_idx(x as int, y as int)],
            b <= 1,
    {
        self.pixels[x * 32 + y]
    }

    /// Writes the pixel at column `x`, row `y`.
    pub fn write_pixel(&mut self, x: usize, y: usize, value: u8)
        requires
            old(self).wf(),
            x < SCREEN_WIDTH,
            y < SCREEN_HEIGHT,
            value <= 1,
        ensures
            final(self).wf(),
            final(self)@.pixels == old(self)@.pixels.update(
                pix_idx(x as int, y as int),
                value,
            ),
            final(self)@.keys == old(self)@.keys,
    {
        self.pixels[x * 32 + y] = value;
    }

    /// Marks a key as no longer held.
    pub fn key_up(&mut self, key: u8)
        requires
            old(self).wf(),
            key < NUM_KEYS,
        ensures
            final(self).wf(),
            final(self)@.keys == old(self)@.keys.update(key as int, false),
            final(self)@.pixels == old(self)@.pixels,
    {
        self.keys[key as usize] = false;
    }

    /// Marks a key as currently held.
    pub fn key_down(&mut self, key: u8)
        requires
            old(self).wf(),
            key < NUM_KEYS,
        ensures
            final(self).wf(),
            final(self)@.keys == old(self)@.keys.update(key as int, true),
            final(self)@.pixels == old(self)@.pixels,
    {
        self.keys[key as usize] = true;
    }

    /// Whether the key is currently held.
    pub fn is_key_down(&self, key: u8) -> (b: bool)
        requires
            self.wf(),
            key < NUM_KEYS,
        ensures
            b == self@.keys[key as int],
    {
        self.keys[key as usize]
    }
}

} // verus!
