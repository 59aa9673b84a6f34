//! Textures: rectangular, row-major arrays of colors, still or animated.

use vstd::prelude::*;
use crate::color::Color;
use crate::fixed::lemma_mul_bounded;

verus! {

/// The nearest index in `[0, n)`; meant for `n > 0`.
pub open spec fn clamp_index(v: int, n: int) -> int {
    if v < 0 {
        0
    } else if v >= n {
        n - 1
    } else {
        v
    }
}

/// The place of the texel `(x, y)` in a row-major array of rows `width` long.
pub open spec fn texel_index(width: int, x: int, y: int) -> int {
    y * width + x
}

/// A texel inside the rectangle has its place inside the array.
pub proof fn lemma_texel_index_in_bounds(width: int, height: int, x: int, y: int)
    by (nonlinear_arith)
    requires
        0 <= x < width,
        0 <= y < height,
    ensures
        0 <= texel_index(width, x, y) < width * height,
{
}

/// Brings a texture coordinate into `[0, n)`.
pub fn clamp_coordinate(v: i128, n: u32) -> (c: u32)
    requires
        n > 0,
    ensures
        c == clamp_index(v as int, n as int),
        c < n,
{
    if v < 0 {
        0
    } else if v >= n as i128 {
        n - 1
    } else {
        v as u32
    }
}

/// The number of texels of a rectangle.
pub fn rectangle_size(width: u32, height: u32) -> (size: u64)
    ensures
        size == width * height,
{
    proof {
        lemma_mul_bounded(width as int, height as int, 0xffff_ffff, 0xffff_ffff);
    }
    (width as u64) * (height as u64)
}

/// The place of the texel `(x, y)` in a row-major array.
pub fn row_major_index(width: u32, x: u32, y: u32) -> (idx: u64)
    ensures
        idx == texel_index(width as int, x as int, y as int),
{
    proof {
        lemma_mul_bounded(y as int, width as int, 0xffff_ffff, 0xffff_ffff);
    }
    (y as u64) * (width as u64) + (x as u64)
}

/// A still image.
pub struct Texture {
    pub width: u32,
    pub height: u32,
    pub colors: Vec<Color>,
}

impl Texture {
    /// The texels, row by row.
    pub open spec fn pixels(&self) -> Seq<Color> {
        self.colors@
    }

    /// The image is not empty and holds one color per texel.
    pub open spec fn wf(&self) -> bool {
        &&& self.width > 0
        &&& self.height > 0
        &&& self.pixels().len() == self.width * self.height
    }

    /// The color of the texel `(x, y)`.
    pub open spec fn texel(&self, x: int, y: int) -> Color {
        self.pixels()[texel_index(self.width as int, x, y)]
    }

    /// The color of the texel nearest to `(tx, ty)`.
    pub open spec fn sampled(&self, tx: int, ty: int) -> Color {
        self.texel(clamp_index(tx, self.width as int), clamp_index(ty, self.height as int))
    }

    /// Tells whether the texture is well formed.
    pub fn is_well_formed(&self) -> (valid: bool)
        ensures
            valid == self.wf(),
    {
        self.width > 0 && self.height > 0 && self.colors.len() as u64 == rectangle_size(
            self.width,
            self.height,
        )
    }

    /// Builds a texture from its row-major texels. The texels must fill the
    /// rectangle exactly, and the rectangle must not be empty.
    pub fn new(width: u32, height: u32, colors: Vec<Color>) -> (texture: Option<Texture>)
        ensures
            texture is Some <==> width > 0 && height > 0 && colors@.len() == width * height,
            texture matches Some(t) ==> {
                &&& t.wf()
                &&& t.width == width
                &&& t.height == height
                &&& t.pixels() == colors@
            },
    {
        if width == 0 || height == 0 {
            return None;
        }
        if colors.len() as u64 != rectangle_size(width, height) {
            return None;
        }
        Some(Texture { width, height, colors })
    }

    /// The color at `(x, y)`, which must lie inside the image.
    pub fn get_pixel_color(&self, x: u32, y: u32) -> (color: Color)
        requires
            self.wf(),
            x < self.width,
            y < self.height,
        ensures
            color == self.texel(x as int, y as int),
    {
        proof {
            lemma_texel_index_in_bounds(
                self.width as int,
                self.height as int,
                x as int,
                y as int,
            );
        }
        let idx: u64 = row_major_index(self.width, x, y);
        let len: usize = self.colors.len();
        assert(idx < len);
        self.colors[idx as usize]
    }

    /// The color at the texel nearest to `(tx, ty)`: coordinates outside the
    /// image are brought to its nearest edge before the lookup.
    pub fn sample(&self, tx: i128, ty: i128) -> (color: Color)
        requires
            self.wf(),
        ensures
            color == self.sampled(tx as int, ty as int),
    {
        let x: u32 = clamp_coordinate(tx, self.width);
        let y: u32 = clamp_coordinate(ty, self.height);
        self.get_pixel_color(x, y)
    }
}

/// A looping animation: frames of one size.
pub struct AnimatedTexture {
    pub width: u32,
    pub height: u32,
    pub frames: Vec<Vec<Color>>,
    pub frame_count: usize,
}

impl AnimatedTexture {
    /// The frames in playing order, each row-major.
    pub open spec fn frame_pixels(&self) -> Seq<Seq<Color>> {
        Seq::new(self.frames@.len(), |t: int| self.frames@[t]@)
    }

    /// There is at least one frame, no frame is empty, and every frame holds
    /// one color per texel.
    pub open spec fn wf(&self) -> bool {
        &&& self.width > 0
        &&& self.height > 0
        &&& self.frame_count > 0
        &&& self.frame_pixels().len() == self.frame_count
        &&& forall|t: int|
            0 <= t < self.frame_count ==> (#[trigger] self.frame_pixels()[t]).len() == self.width
                * self.height
    }

    /// The color of the texel `(x, y)` of frame `t`.
    pub open spec fn texel(&self, t: int, x: int, y: int) -> Color {
        self.frame_pixels()[t][texel_index(self.width as int, x, y)]
    }

    /// The color of the texel of frame `t` nearest to `(tx, ty)`.
    pub open spec fn sampled(&self, t: int, tx: int, ty: int) -> Color {
        self.texel(t, clamp_index(tx, self.width as int), clamp_index(ty, self.height as int))
    }

    /// Tells whether the animation is well formed.
    pub fn is_well_formed(&self) -> (valid: bool)
        ensures
            valid == self.wf(),
    {
        if self.width == 0 || self.height == 0 || self.frame_count == 0 || self.frames.len()
            != self.frame_count {
            return false;
        }
        let size: u64 = rectangle_size(self.width, self.height);
        let mut t: usize = 0;
        while t < self.frames.len()
            invariant
                t <= self.frames@.len(),
                self.frames@.len() == self.frame_count,
                size == self.width * self.height,
                forall|k: int|
                    0 <= k < t ==> (#[trigger] self.frame_pixels()[k]).len() == self.width
                        * self.height,
            decreases self.frames@.len() - t,
        {
            if self.frames[t].len() as u64 != size {
                assert(self.frame_pixels()[t as int].len() != self.width * self.height);
                return false;
            }
            t += 1;
        }
        true
    }

    /// Builds an animation from its frames. There must be a frame, and every
    /// frame must fill the non-empty rectangle exactly.
    pub fn new(width: u32, height: u32, frames: Vec<Vec<Color>>) -> (texture: Option<
        AnimatedTexture,
    >)
        ensures
            texture is Some <==> {
                &&& width > 0
                &&& height > 0
                &&& frames@.len() > 0
                &&& forall|t: int|
                    0 <= t < frames@.len() ==> (#[trigger] frames@[t])@.len() == width * height
            },
            texture matches Some(a) ==> {
                &&& a.wf()
                &&& a.width == width
                &&& a.height == height
                &&& a.frame_count == frames@.len()
                &&& a.frame_pixels() == Seq::new(frames@.len(), |t: int| frames@[t]@)
            },
    {
        if width == 0 || height == 0 || frames.len() == 0 {
            return None;
        }
        let size: u64 = rectangle_size(width, height);
        let mut t: usize = 0;
        while t < frames.len()
            invariant
                t <= frames@.len(),
                size == width * height,
                forall|k: int| 0 <= k < t ==> (#[trigger] frames@[k])@.len() == width * height,
            decreases frames@.len() - t,
        {
            if frames[t].len() as u64 != size {
                return None;
            }
            t += 1;
        }
        let frame_count: usize = frames.len();
        Some(AnimatedTexture { width, height, frames, frame_count })
    }

    /// The color at `(x, y)` of frame `t`; frame and texel must exist.
    pub fn get_pixel_color(&self, t: usize, x: u32, y: u32) -> (color: Color)
        requires
            self.wf(),
            t < self.frame_count,
            x < self.width,
            y < self.height,
        ensures
            color == self.texel(t as int, x as int, y as int),
    {
        proof {
            lemma_texel_index_in_bounds(
                self.width as int,
                self.height as int,
                x as int,
                y as int,
            );
            assert(self.frame_pixels()[t as int].len() == self.width * self.height);
        }
        let idx: u64 = row_major_index(self.width, x, y);
        let len: usize = self.frames[t].len();
        assert(idx < len);
        self.frames[t][idx as usize]
    }

    /// The color of frame `t` at the texel nearest to `(tx, ty)`.
    pub fn sample(&self, t: usize, tx: i128, ty: i128) -> (color: Color)
        requires
            self.wf(),
            t < self.frame_count,
        ensures
            color == self.sampled(t as int, tx as int, ty as int),
    {
        let x: u32 = clamp_coordinate(tx, self.width);
        let y: u32 = clamp_coordinate(ty, self.height);
        self.get_pixel_color(t, x, y)
    }
}

/// The frame that plays at `elapsed` when each frame lasts `period`.
pub open spec fn frame_at(elapsed: int, period: int, frame_count: int) -> int {
    (elapsed / period) % frame_count
}

/// Picks the frame of a looping animation from the time that has passed.
pub fn frame_index(elapsed_millis: u64, period_millis: u64, frame_count: usize) -> (frame: usize)
    requires
        period_millis > 0,
        frame_count > 0,
    ensures
        frame == frame_at(elapsed_millis as int, period_millis as int, frame_count as int),
        frame < frame_count,
{
    ((elapsed_millis / period_millis) % (frame_count as u64)) as usize
}

/// Two moments in the same period select the same frame.
pub proof fn lemma_same_period_same_frame(a: int, b: int, period: int, frame_count: int)
    requires
        period > 0,
        frame_count > 0,
        a / period == b / period,
    ensures
        frame_at(a, period, frame_count) == frame_at(b, period, frame_count),
{
}

/// A moment in the following period selects the following frame, and the
/// frame after the last is the first.
pub proof fn lemma_next_period_next_frame(a: int, b: int, period: int, frame_count: int)
    requires
        period > 0,
        frame_count > 0,
        0 <= a,
        b / period == a / period + 1,
    ensures
        frame_at(b, period, frame_count) == (frame_at(a, period, frame_count) + 1) % frame_count,
{
    let q = a / period;
    assert((q + 1) % frame_count == (q % frame_count + 1) % frame_count) by (nonlinear_arith)
        requires
            frame_count > 0,
    ;
}

/// Every lookup that `sample` makes lies inside the image, whatever the
/// coordinates asked for.
pub proof fn lemma_sample_in_bounds(texture: Texture, tx: int, ty: int)
    requires
        texture.wf(),
    ensures
        0 <= clamp_index(tx, texture.width as int) < texture.width,
        0 <= clamp_index(ty, texture.height as int) < texture.height,
        0 <= texel_index(
            texture.width as int,
            clamp_index(tx, texture.width as int),
            clamp_index(ty, texture.height as int),
        ) < texture.pixels().len(),
{
    lemma_texel_index_in_bounds(
        texture.width as int,
        texture.height as int,
        clamp_index(tx, texture.width as int),
        clamp_index(ty, texture.height as int),
    );
}

/// The textures of the game, one per slot.
pub struct GameTextures {
    pub horizontal_wall: Texture,
    pub vertical_wall: Texture,
    pub corner_wall: Texture,
    pub lolibunny: Texture,
    pub moon: Texture,
    pub start_screen: Texture,
    pub splash_screen: AnimatedTexture,
    pub loose_screen: AnimatedTexture,
    pub win_screen: AnimatedTexture,
}

impl GameTextures {
    /// Every slot holds a well-formed texture.
    pub open spec fn wf(&self) -> bool {
        &&& self.horizontal_wall.wf()
        &&& self.vertical_wall.wf()
        &&& self.corner_wall.wf()
        &&& self.lolibunny.wf()
        &&& self.moon.wf()
        &&& self.start_screen.wf()
        &&& self.splash_screen.wf()
        &&& self.loose_screen.wf()
        &&& self.win_screen.wf()
    }

    /// Tells whether every slot holds a well-formed texture.
    pub fn is_well_formed(&self) -> (valid: bool)
        ensures
            valid == self.wf(),
    {
        self.horizontal_wall.is_well_formed() && self.vertical_wall.is_well_formed()
            && self.corner_wall.is_well_formed() && self.lolibunny.is_well_formed()
            && self.moon.is_well_formed() && self.start_screen.is_well_formed()
            && self.splash_screen.is_well_formed() && self.loose_screen.is_well_formed()
            && self.win_screen.is_well_formed()
    }
}

} // verus!
