use vstd::prelude::*;

verus! {

/// One pixel, as a premultiplied-alpha RGBA value.
#[derive(Clone, Copy, Debug, PartialEq, Eq, Structural)]
pub struct Rgba {
    pub r: u8,
    pub g: u8,
    pub b: u8,
    pub a: u8,
}

/// Which of the four channels of an `Rgba` a sum or a mean is about.
#[derive(Clone, Copy, Debug, PartialEq, Eq, Structural)]
pub enum Channel {
    Red,
    Green,
    Blue,
    Alpha,
}

pub open spec fn channel_of(p: Rgba, c: Channel) -> nat {
    match c {
        Channel::Red => p.r as nat,
        Channel::Green => p.g as nat,
        Channel::Blue => p.b as nat,
        Channel::Alpha => p.a as nat,
    }
}

/// The sum of one channel over a run of pixels.
pub open spec fn channel_sum(s: Seq<Rgba>, c: Channel) -> nat
    decreases s.len(),
{
    if s.len() == 0 {
        0
    } else {
        channel_sum(s.drop_last(), c) + channel_of(s.last(), c)
    }
}

/// The mean of one channel over a run of pixels, rounded down; zero for no pixels.
pub open spec fn channel_mean(s: Seq<Rgba>, c: Channel) -> nat {
    if s.len() == 0 {
        0
    } else {
        channel_sum(s, c) / s.len()
    }
}

/// The average colour of a run of pixels, channel by channel.
pub open spec fn mean_color(s: Seq<Rgba>) -> Rgba {
    Rgba {
        r: channel_mean(s, Channel::Red) as u8,
        g: channel_mean(s, Channel::Green) as u8,
        b: channel_mean(s, Channel::Blue) as u8,
        a: channel_mean(s, Channel::Alpha) as u8,
    }
}

/// A channel sum never exceeds 255 for each pixel.
pub proof fn lemma_channel_sum_bound(s: Seq<Rgba>, c: Channel)
    ensures
        channel_sum(s, c) <= 255 * s.len(),
    decreases s.len(),
{
    if s.len() > 0 {
        lemma_channel_sum_bound(s.drop_last(), c);
    }
}

/// A channel mean is a channel value.
pub proof fn lemma_channel_mean_bound(s: Seq<Rgba>, c: Channel)
    ensures
        channel_mean(s, c) <= 255,
{
    if s.len() > 0 {
        lemma_channel_sum_bound(s, c);
        let n = s.len() as int;
        let t = channel_sum(s, c) as int;
        assert(t / n <= 255) by (nonlinear_arith)
            requires
                t <= 255 * n,
                n > 0,
                t >= 0,
        ;
    }
}

/// The average colour of a pixel buffer. The four channel sums are taken in
/// 128-bit accumulators, so that no buffer that fits in memory can overflow
/// them, and each is divided by the number of pixels. Every channel lands in
/// the slot that it was summed from. An empty buffer averages to a fully
/// transparent black.
pub fn average_color(pixels: &Vec<Rgba>) -> (avg: Rgba)
    ensures
        avg == mean_color(pixels@),
{
    let n = pixels.len();
    let mut r: u128 = 0;
    let mut g: u128 = 0;
    let mut b: u128 = 0;
    let mut a: u128 = 0;
    let mut i: usize = 0;
    while i < n
        invariant
            n == pixels@.len(),
            i <= n,
            r == channel_sum(pixels@.take(i as int), Channel::Red),
            g == channel_sum(pixels@.take(i as int), Channel::Green),
            b == channel_sum(pixels@.take(i as int), Channel::Blue),
            a == channel_sum(pixels@.take(i as int), Channel::Alpha),
        decreases n - i,
    {
        let p = pixels[i];
        proof {
            let next = pixels@.take(i + 1);
            assert(next.drop_last() =~= pixels@.take(i as int));
            assert(next.last() == p);
            lemma_channel_sum_bound(pixels@.take(i as int), Channel::Red);
            lemma_channel_sum_bound(pixels@.take(i as int), Channel::Green);
            lemma_channel_sum_bound(pixels@.take(i as int), Channel::Blue);
            lemma_channel_sum_bound(pixels@.take(i as int), Channel::Alpha);
        }
        r = r + p.r as u128;
        g = g + p.g as u128;
        b = b + p.b as u128;
        a = a + p.a as u128;
        i = i + 1;
    }
    proof {
        assert(pixels@.take(n as int) =~= pixels@);
        lemma_channel_mean_bound(pixels@, Channel::Red);
        lemma_channel_mean_bound(pixels@, Channel::Green);
        lemma_channel_mean_bound(pixels@, Channel::Blue);
        lemma_channel_mean_bound(pixels@, Channel::Alpha);
    }
    if n == 0 {
        Rgba { r: 0, g: 0, b: 0, a: 0 }
    } else {
        let count = n as u128;
        Rgba {
            r: (r / count) as u8,
            g: (g / count) as u8,
            b: (b / count) as u8,
            a: (a / count) as u8,
        }
    }
}

/// What an `ImageData` holds: its dimensions and its pixels, row by row.
pub struct ImageView {
    pub width: nat,
    pub height: nat,
    pub pixels: Seq<Rgba>,
}

/// A decoded, resized image: its dimensions and a buffer of exactly
/// `width * height` pixels.
pub struct ImageData {
    width: usize,
    height: usize,
    data: Vec<Rgba>,
}

impl View for ImageData {
    type V = ImageView;

    closed spec fn view(&self) -> ImageView {
        ImageView { width: self.width as nat, height: self.height as nat, pixels: self.data@ }
    }
}

/// The pixel that four bytes, in the order red, green, blue, alpha, stand for.
pub open spec fn rgba_at(bytes: Seq<u8>, i: int) -> Rgba {
    Rgba { r: bytes[4 * i], g: bytes[4 * i + 1], b: bytes[4 * i + 2], a: bytes[4 * i + 3] }
}

/// The pixels that a run of RGBA bytes stands for, four bytes each.
pub open spec fn rgba_pixels(bytes: Seq<u8>) -> Seq<Rgba> {
    Seq::new(bytes.len() / 4, |i: int| rgba_at(bytes, i))
}

impl ImageData {
    #[verifier::type_invariant]
    spec fn buffer_matches_size(self) -> bool {
        self.data@.len() == self.width * self.height
    }

    /// Builds an image of the given size from its RGBA bytes, four to a pixel.
    pub fn from_rgba(width: usize, height: usize, bytes: &Vec<u8>) -> (img: ImageData)
        requires
            bytes@.len() == 4 * width * height,
        ensures
            img@.width == width,
            img@.height == height,
            img@.pixels == rgba_pixels(bytes@),
    {
        proof {
            let wh = width * height;
            assert(4 * width * height == 4 * wh) by (nonlinear_arith)
                requires
                    wh == width * height,
            ;
        }
        let n = bytes.len() / 4;
        let mut data: Vec<Rgba> = Vec::with_capacity(n);
        let mut i: usize = 0;
        while i < n
            invariant
                n == bytes@.len() / 4,
                bytes@.len() == 4 * n,
                bytes@.len() <= usize::MAX,
                i <= n,
                data@ =~= rgba_pixels(bytes@).take(i as int),
            decreases n - i,
        {
            let base = 4 * i;
            data.push(
                Rgba { r: bytes[base], g: bytes[base + 1], b: bytes[base + 2], a: bytes[base + 3] },
            );
            i = i + 1;
            assert(data@ =~= rgba_pixels(bytes@).take(i as int));
        }
        proof {
            assert(data@ =~= rgba_pixels(bytes@));
            assert(4 * width * height == 4 * (width * height)) by (nonlinear_arith);
        }
        ImageData { width, height, data }
    }

    /// The image's width and height in pixels.
    pub fn size_usize(&self) -> (r: (usize, usize))
        ensures
            r.0 == self@.width,
            r.1 == self@.height,
    {
        (self.width, self.height)
    }

    /// The image's pixels, row by row.
    pub fn pixels(&self) -> (r: &Vec<Rgba>)
        ensures
            r@ == self@.pixels,
            r@.len() == self@.width * self@.height,
    {
        proof {
            use_type_invariant(self);
        }
        &self.data
    }
}

} // verus!
