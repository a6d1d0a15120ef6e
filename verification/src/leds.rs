//! Rendering a temperature onto a fixed strip of eight RGB pixels.
//!
//! A [`ColourRange`] maps a temperature to a hard-split gradient over the
//! strip; [`get_blinkt_brightness`] works around the strip's brightness floor
//! by switching whole pixels on and off; [`LEDHandler`] is the bus-facing
//! state machine that decides when the strip is rewritten.

use crate::message::{Command, Event, Message, Payload};
use core::cmp::Ordering;
use vstd::arithmetic::div_mod::{lemma_fundamental_div_mod, lemma_div_is_ordered};
use vstd::arithmetic::mul::lemma_mul_inequality;
use vstd::prelude::*;

verus! {

/// Number of pixels on the strip.
pub const NUM_PIXELS: usize = 8;

/// An RGB colour, one byte per channel.
#[derive(Debug, Default, Clone, Copy, PartialEq, Eq, Structural)]
pub struct Colour(pub u8, pub u8, pub u8);

/// The stock gradient colours, coolest to warmest.
pub open spec fn spec_colour_blue() -> Colour {
    Colour(10, 10, 100)
}

#[verifier::when_used_as_spec(spec_colour_blue)]
pub fn colour_blue() -> (c: Colour)
    ensures
        c == spec_colour_blue(),
{
    Colour(10, 10, 100)
}

pub open spec fn spec_colour_orange() -> Colour {
    Colour(120, 20, 0)
}

#[verifier::when_used_as_spec(spec_colour_orange)]
pub fn colour_orange() -> (c: Colour)
    ensures
        c == spec_colour_orange(),
{
    Colour(120, 20, 0)
}

pub open spec fn spec_colour_salmon() -> Colour {
    Colour(160, 10, 1)
}

#[verifier::when_used_as_spec(spec_colour_salmon)]
pub fn colour_salmon() -> (c: Colour)
    ensures
        c == spec_colour_salmon(),
{
    Colour(160, 10, 1)
}

pub open spec fn spec_colour_coral() -> Colour {
    Colour(255, 1, 1)
}

#[verifier::when_used_as_spec(spec_colour_coral)]
pub fn colour_coral() -> (c: Colour)
    ensures
        c == spec_colour_coral(),
{
    Colour(255, 1, 1)
}

pub open spec fn spec_colour_red() -> Colour {
    Colour(255, 0, 100)
}

#[verifier::when_used_as_spec(spec_colour_red)]
pub fn colour_red() -> (c: Colour)
    ensures
        c == spec_colour_red(),
{
    Colour(255, 0, 100)
}

impl Colour {
    pub fn black() -> (c: Colour)
        ensures
            c == Colour(0, 0, 0),
    {
        Colour(0, 0, 0)
    }

    pub fn red() -> (c: Colour)
        ensures
            c == Colour(255, 0, 0),
    {
        Colour(255, 0, 0)
    }

    pub fn green() -> (c: Colour)
        ensures
            c == Colour(0, 255, 0),
    {
        Colour(0, 255, 0)
    }

    pub fn blue() -> (c: Colour)
        ensures
            c == Colour(10, 10, 226),
    {
        Colour(10, 10, 226)
    }

    /// The name of one of the gradient's stock colours.
    pub open spec fn spec_name(self) -> Seq<char> {
        if self == colour_blue() {
            "blue"@
        } else if self == colour_orange() {
            "orange"@
        } else if self == colour_salmon() {
            "salmon"@
        } else if self == colour_coral() {
            "coral"@
        } else if self == colour_red() {
            "red"@
        } else {
            "unnamed"@
        }
    }

    pub fn name(self) -> (r: &'static str)
        ensures
            r@ == self.spec_name(),
    {
        if self == colour_blue() {
            "blue"
        } else if self == colour_orange() {
            "orange"
        } else if self == colour_salmon() {
            "salmon"
        } else if self == colour_coral() {
            "coral"
        } else if self == colour_red() {
            "red"
        } else {
            "unnamed"
        }
    }
}

/// The three brightness levels a tap cycles through, in thousandths of full
/// scale: `Off` is 0, `Dim` is 10 (0.01 of full scale) and `Bright` is 500.
#[derive(Debug, PartialEq, Eq, Structural)]
pub enum Brightness {
    Dim,
    Bright,
    Off,
}

impl Default for Brightness {
    fn default() -> (r: Self)
        ensures
            r == Brightness::Dim,
    {
        Brightness::Dim
    }
}

impl Brightness {
    pub open spec fn spec_value(self) -> u16 {
        match self {
            Brightness::Dim => 10u16,
            Brightness::Bright => 500u16,
            Brightness::Off => 0u16,
        }
    }

    /// The value, in thousandths, of the level that follows a brightness.
    pub open spec fn spec_next_value(brightness: u16) -> u16 {
        if brightness < Brightness::Dim.spec_value() {
            Brightness::Dim.spec_value()
        } else if brightness < Brightness::Bright.spec_value() {
            Brightness::Bright.spec_value()
        } else {
            Brightness::Off.spec_value()
        }
    }

    /// The next level after a given brightness: off goes to dim, dim to
    /// bright, and bright back to off.
    pub fn next_from(brightness: u16) -> (r: Self)
        ensures
            r == (if brightness < Brightness::Dim.spec_value() {
                Brightness::Dim
            } else if brightness < Brightness::Bright.spec_value() {
                Brightness::Bright
            } else {
                Brightness::Off
            }),
    {
        if brightness < Brightness::Dim.value() {
            Brightness::Dim
        } else if brightness < Brightness::Bright.value() {
            Brightness::Bright
        } else {
            Brightness::Off
        }
    }

    pub fn value(&self) -> (r: u16)
        ensures
            r == self.spec_value(),
    {
        match self {
            Brightness::Dim => 10,
            Brightness::Bright => 500,
            Brightness::Off => 0,
        }
    }
}

/// Temperatures handed to the gradient stay within a million degrees in
/// micro-units, which keeps every intermediate product inside `i64`.
pub const TEMPERATURE_LIMIT: i64 = 1_000_000_000_000;

/// A colour together with the temperature, in micro-degrees, that forms the
/// upper bound of its bucket.
#[derive(Debug, PartialEq)]
pub struct ColourBucket {
    pub name: String,
    pub value: i64,
    pub colour: Colour,
}

impl ColourBucket {
    pub fn new(name: &str, value: i64, colour: Colour) -> (b: ColourBucket)
        ensures
            b.name@ == name@,
            b.value == value,
            b.colour == colour,
    {
        ColourBucket { name: name.to_owned(), value, colour }
    }

    pub fn name(&self) -> (r: &String)
        ensures
            r@ == self.name@,
    {
        &self.name
    }

    pub fn value(&self) -> (r: &i64)
        ensures
            *r == self.value,
    {
        &self.value
    }

    /// Buckets order by their threshold alone; name and colour do not count.
    pub fn cmp(&self, other: &ColourBucket) -> (r: Ordering)
        ensures
            r == self.spec_order(*other),
    {
        if self.value < other.value {
            Ordering::Less
        } else if self.value > other.value {
            Ordering::Greater
        } else {
            Ordering::Equal
        }
    }

    pub open spec fn spec_order(self, other: ColourBucket) -> Ordering {
        if self.value < other.value {
            Ordering::Less
        } else if self.value > other.value {
            Ordering::Greater
        } else {
            Ordering::Equal
        }
    }
}

impl PartialOrd for ColourBucket {
    fn partial_cmp(&self, other: &ColourBucket) -> (r: Option<Ordering>) {
        Some(self.cmp(other))
    }
}

impl vstd::std_specs::cmp::PartialOrdSpecImpl for ColourBucket {
    open spec fn obeys_partial_cmp_spec() -> bool {
        true
    }

    open spec fn partial_cmp_spec(&self, other: &ColourBucket) -> Option<Ordering> {
        Some(self.spec_order(*other))
    }
}

/// An ascending run of colour buckets plus the fixed pixel count.
///
/// The temperature scale between two neighbouring thresholds is split across
/// the strip; below the first threshold and above the last one the strip is
/// uniform.
pub struct ColourRange {
    pub buckets: Vec<ColourBucket>,
    pub num_pixels: u8,
}

impl ColourRange {
    /// At least one bucket, thresholds strictly ascending and bounded.
    pub open spec fn wf(self) -> bool {
        &&& 1 <= self.buckets@.len()
        &&& self.num_pixels == NUM_PIXELS
        &&& forall|i: int, j: int|
            0 <= i < j < self.buckets@.len() ==> self.buckets@[i].value < self.buckets@[j].value
        &&& forall|i: int|
            0 <= i < self.buckets@.len() ==> -TEMPERATURE_LIMIT <= #[trigger] self.buckets@[i].value
                <= 2 * TEMPERATURE_LIMIT
    }

    /// Build the gradient: bucket `i` peaks at `lower + i * step`.
    ///
    /// Only an empty colour list is rejected.  The bounds on `lower` and
    /// `step` keep the thresholds inside [`TEMPERATURE_LIMIT`]'s window, and a
    /// positive `step` keeps them ascending.
    pub fn new(lower: i64, step: i64, colours: &[Colour]) -> (r: Result<ColourRange, String>)
        requires
            -TEMPERATURE_LIMIT <= lower <= TEMPERATURE_LIMIT,
            0 <= step,
            colours@.len() > 1 ==> 1 <= step && (colours@.len() - 1) * step <= TEMPERATURE_LIMIT,
        ensures
            r is Err <==> colours@.len() == 0,
            r matches Ok(range) ==> {
                &&& range.wf()
                &&& range.buckets@.len() == colours@.len()
                &&& forall|i: int|
                    0 <= i < colours@.len() ==> {
                        &&& (#[trigger] range.buckets@[i]).value == lower + i * step
                        &&& range.buckets@[i].colour == colours@[i]
                        &&& range.buckets@[i].name@ == colours@[i].spec_name()
                    }
            },
    {
        if colours.len() == 0 {
            return Err("must have at least one colour".to_owned());
        }
        proof {
            if colours@.len() > 1 {
                // len - 1 <= (len - 1) * step <= TEMPERATURE_LIMIT
                lemma_mul_inequality(1, step as int, colours@.len() - 1);
                assert((colours@.len() - 1) * 1 == colours@.len() - 1) by (nonlinear_arith);
                assert((colours@.len() - 1) * step == step * (colours@.len() - 1))
                    by (nonlinear_arith);
            }
        }
        let mut buckets: Vec<ColourBucket> = Vec::new();
        let mut i: usize = 0;
        while i < colours.len()
            invariant
                i <= colours@.len(),
                buckets@.len() == i,
                -TEMPERATURE_LIMIT <= lower <= TEMPERATURE_LIMIT,
                0 <= step,
                colours@.len() > 1 ==> 1 <= step && (colours@.len() - 1) * step
                    <= TEMPERATURE_LIMIT,
                colours@.len() > 1 ==> colours@.len() - 1 <= TEMPERATURE_LIMIT,
                forall|j: int|
                    0 <= j < i ==> {
                        &&& (#[trigger] buckets@[j]).value == lower + j * step
                        &&& buckets@[j].colour == colours@[j]
                        &&& buckets@[j].name@ == colours@[j].spec_name()
                        &&& -TEMPERATURE_LIMIT <= buckets@[j].value <= 2 * TEMPERATURE_LIMIT
                    },
            decreases colours@.len() - i,
        {
            proof {
                lemma_mul_inequality(0, i as int, step as int);
                if colours@.len() > 1 {
                    // i * step stays below the limit because i <= len - 1
                    lemma_mul_inequality(i as int, colours@.len() - 1, step as int);
                }
                assert(0 <= i * step <= TEMPERATURE_LIMIT);
            }
            let offset: i64 = (i as i64) * step;
            let value: i64 = lower + offset;
            let colour: Colour = colours[i];
            buckets.push(ColourBucket::new(colour.name(), value, colour));
            i += 1;
        }
        let range = ColourRange { buckets, num_pixels: NUM_PIXELS as u8 };
        proof {
            assert forall|a: int, b: int|
                0 <= a < b < range.buckets@.len() implies range.buckets@[a].value
                < range.buckets@[b].value by {
                lemma_mul_inequality(a + 1, b, step as int);
                assert(a * step + step == (a + 1) * step) by (nonlinear_arith);
            }
        }
        Ok(range)
    }

    /// Index of the bucket pair that brackets `value`: the first `i` with
    /// `value <= buckets[i + 1].value`, stopping at the last pair.
    pub open spec fn spec_bracket(buckets: Seq<ColourBucket>, value: int, i: int) -> int
        decreases buckets.len() - i,
    {
        if i + 2 >= buckets.len() {
            i
        } else if value <= buckets[i + 1].value {
            i
        } else {
            Self::spec_bracket(buckets, value, i + 1)
        }
    }

    /// How many pixels take the upper colour: the fraction of the way from
    /// `bottom` to `top`, times the pixel count, rounded to the nearest whole
    /// pixel with halves rounding up.
    pub open spec fn spec_split(bottom: int, top: int, value: int) -> int {
        (2 * (NUM_PIXELS as int) * (value - bottom) + (top - bottom)) / (2 * (top - bottom))
    }

    /// The colours rendered for a temperature: uniform outside the gradient,
    /// and a hard split between the bracketing bucket pair inside it.
    pub open spec fn spec_pixels(self, value: int) -> Seq<Colour> {
        let bs = self.buckets@;
        if value <= bs[0].value {
            Seq::new(NUM_PIXELS as nat, |i: int| bs[0].colour)
        } else if value >= bs[bs.len() - 1].value {
            Seq::new(NUM_PIXELS as nat, |i: int| bs[bs.len() - 1].colour)
        } else {
            let idx = Self::spec_bracket(bs, value, 0);
            let k = Self::spec_split(bs[idx].value as int, bs[idx + 1].value as int, value);
            Seq::new((NUM_PIXELS - k) as nat, |i: int| bs[idx].colour) + Seq::new(
                k as nat,
                |i: int| bs[idx + 1].colour,
            )
        }
    }

    /// The colours that should be shown for `value`, one per pixel.
    pub fn get_pixels(&self, value: i64) -> (r: Vec<Colour>)
        requires
            self.wf(),
        ensures
            r@ == self.spec_pixels(value as int),
            r@.len() == NUM_PIXELS,
    {
        let first_value: i64 = self.buckets[0].value;
        if value <= first_value {
            return self.all(self.buckets[0].colour);
        }
        let last_index: usize = self.buckets.len() - 1;
        if value >= self.buckets[last_index].value {
            return self.all(self.buckets[last_index].colour);
        }
        // Here there are at least two buckets and the value lies strictly
        // between the first and the last threshold.
        let ghost bs = self.buckets@;
        let mut i: usize = 0;
        while i + 2 < self.buckets.len() && self.buckets[i + 1].value < value
            invariant
                self.wf(),
                bs == self.buckets@,
                self.buckets@[0].value < value < self.buckets@[bs.len() - 1].value,
                2 <= bs.len() <= usize::MAX,
                0 <= i,
                i + 2 <= bs.len(),
                Self::spec_bracket(bs, value as int, 0) == Self::spec_bracket(bs, value as int, i as int),
                self.buckets@[i as int].value < value,
            decreases bs.len() - i,
        {
            i += 1;
        }
        proof {
            assert(Self::spec_bracket(bs, value as int, i as int) == i);
        }
        let bottom: i64 = self.buckets[i].value;
        let top: i64 = self.buckets[i + 1].value;
        let distance: u64 = (value - bottom) as u64;
        let span: u64 = (top - bottom) as u64;
        let k: u64 = (16 * distance + span) / (2 * span);
        proof {
            assert(k == Self::spec_split(bottom as int, top as int, value as int));
            // k <= 8 because the numerator is at most 17 * span
            lemma_div_is_ordered(
                16 * distance + span,
                17 * span as int,
                2 * span as int,
            );
            lemma_fundamental_div_mod(17 * span as int, 2 * span as int);
            assert((17 * (span as int)) / (2 * (span as int)) == 8) by (nonlinear_arith)
                requires 1 <= span <= 4 * TEMPERATURE_LIMIT;
        }
        let low_count: usize = NUM_PIXELS - (k as usize);
        let mut pixels: Vec<Colour> = Vec::new();
        let mut j: usize = 0;
        while j < low_count
            invariant
                j <= low_count,
                pixels@ == Seq::new(j as nat, |p: int| bs[i as int].colour),
                bs == self.buckets@,
                i + 2 <= bs.len() <= usize::MAX,
            decreases low_count - j,
        {
            pixels.push(self.buckets[i].colour);
            proof {
                assert(pixels@ =~= Seq::new((j + 1) as nat, |p: int| bs[i as int].colour));
            }
            j += 1;
        }
        let mut j: usize = 0;
        while j < k as usize
            invariant
                j <= k,
                k <= NUM_PIXELS,
                low_count == NUM_PIXELS - k,
                pixels@ == Seq::new(low_count as nat, |p: int| bs[i as int].colour) + Seq::new(
                    j as nat,
                    |p: int| bs[i + 1].colour,
                ),
                bs == self.buckets@,
                i + 2 <= bs.len() <= usize::MAX,
            decreases k - j,
        {
            pixels.push(self.buckets[i + 1].colour);
            proof {
                assert(pixels@ =~= Seq::new(low_count as nat, |p: int| bs[i as int].colour)
                    + Seq::new((j + 1) as nat, |p: int| bs[i + 1].colour));
            }
            j += 1;
        }
        proof {
            assert(pixels@ =~= self.spec_pixels(value as int));
        }
        pixels
    }

    /// Every pixel set to the same colour.
    pub fn all(&self, colour: Colour) -> (r: Vec<Colour>)
        ensures
            r@ == Seq::new(self.num_pixels as nat, |i: int| colour),
    {
        let mut pixels: Vec<Colour> = Vec::new();
        let mut i: u8 = 0;
        while i < self.num_pixels
            invariant
                i <= self.num_pixels,
                pixels@ == Seq::new(i as nat, |j: int| colour),
            decreases self.num_pixels - i,
        {
            pixels.push(colour);
            proof {
                assert(pixels@ =~= Seq::new((i + 1) as nat, |j: int| colour));
            }
            i += 1;
        }
        pixels
    }
}

/// Below this brightness, in thousandths of full scale, the strip cannot
/// dim a pixel linearly; it simply switches the pixel off.
pub const BRIGHTNESS_FLOOR: u16 = 40;

/// The first position at which the colour sequence changes, or 0 if it is
/// uniform.
pub open spec fn spec_pivot_from(colours: Seq<Colour>, i: int) -> int
    decreases colours.len() - i,
{
    if i < 1 || i >= colours.len() {
        0
    } else if colours[i - 1] != colours[i] {
        i
    } else {
        spec_pivot_from(colours, i + 1)
    }
}

pub open spec fn spec_pivot(colours: Seq<Colour>) -> int {
    spec_pivot_from(colours, 1)
}

pub proof fn lemma_pivot_range(colours: Seq<Colour>, i: int)
    requires
        1 <= i,
    ensures
        0 <= spec_pivot_from(colours, i) < colours.len() || spec_pivot_from(colours, i) == 0,
    decreases colours.len() - i,
{
    if i < 1 || i >= colours.len() {
    } else if colours[i - 1] != colours[i] {
    } else {
        lemma_pivot_range(colours, i + 1);
    }
}

/// The first index `i >= 1` where `colours[i - 1]` and `colours[i]` differ,
/// or 0 when all pixels share one colour.
pub fn get_pivot(colours: &[Colour; NUM_PIXELS]) -> (r: usize)
    ensures
        r == spec_pivot(colours@),
{
    let mut i: usize = 1;
    while i < NUM_PIXELS
        invariant
            1 <= i <= NUM_PIXELS,
            colours@.len() == NUM_PIXELS,
            spec_pivot(colours@) == spec_pivot_from(colours@, i as int),
        decreases NUM_PIXELS - i,
    {
        if colours[i - 1] != colours[i] {
            return i;
        }
        i += 1;
    }
    0
}

/// The on/off pattern used at the dimmest tier: the floor brightness at the
/// first position and at the pivot (or at both ends when there is none).
pub open spec fn spec_dither_low(pivot: int) -> Seq<u16> {
    let x = BRIGHTNESS_FLOOR;
    if pivot == 0 {
        seq![x, 0, 0, 0, 0, 0, 0, x]
    } else if pivot == 1 {
        seq![x, x, 0, 0, 0, 0, 0, 0]
    } else if pivot == 2 {
        seq![x, 0, x, 0, 0, 0, 0, 0]
    } else if pivot == 3 {
        seq![x, 0, 0, x, 0, 0, 0, 0]
    } else if pivot == 4 {
        seq![x, 0, 0, 0, x, 0, 0, 0]
    } else if pivot == 5 {
        seq![x, 0, 0, 0, 0, x, 0, 0]
    } else if pivot == 6 {
        seq![x, 0, 0, 0, 0, 0, x, 0]
    } else {
        seq![x, 0, 0, 0, 0, 0, 0, x]
    }
}

/// The middle tier adds the last pixel to the low tier's pattern.
pub open spec fn spec_dither_mid(pivot: int) -> Seq<u16> {
    let x = BRIGHTNESS_FLOOR;
    if pivot == 0 {
        seq![x, 0, 0, 0, x, 0, 0, x]
    } else if pivot == 1 {
        seq![x, x, 0, 0, 0, 0, 0, x]
    } else if pivot == 2 {
        seq![x, 0, x, 0, 0, 0, 0, x]
    } else if pivot == 3 {
        seq![x, 0, 0, x, 0, 0, 0, x]
    } else if pivot == 4 {
        seq![x, 0, 0, 0, x, 0, 0, x]
    } else if pivot == 5 {
        seq![x, 0, 0, 0, 0, x, 0, x]
    } else if pivot == 6 {
        seq![x, 0, 0, 0, 0, 0, x, x]
    } else {
        seq![x, 0, 0, 0, 0, 0, x, x]
    }
}

/// The top dithered tier doubles the pixels around the pivot.
pub open spec fn spec_dither_high(pivot: int) -> Seq<u16> {
    let x = BRIGHTNESS_FLOOR;
    if pivot == 0 {
        seq![x, 0, 0, x, x, 0, 0, x]
    } else if pivot == 1 {
        seq![x, x, x, 0, 0, 0, 0, x]
    } else if pivot == 2 {
        seq![x, x, x, 0, 0, 0, 0, x]
    } else if pivot == 3 {
        seq![x, 0, x, x, 0, 0, 0, x]
    } else if pivot == 4 {
        seq![x, 0, 0, x, x, 0, 0, x]
    } else if pivot == 5 {
        seq![x, 0, 0, 0, x, x, 0, x]
    } else if pivot == 6 {
        seq![x, 0, 0, 0, 0, x, x, x]
    } else {
        seq![x, 0, 0, 0, 0, x, x, x]
    }
}

/// The per-pixel brightness actually written to the strip: everything off
/// below the first tier, a dithered pattern in the three tiers under the
/// hardware floor, and the requested brightness everywhere once it is
/// representable.
pub open spec fn spec_blinkt_brightness(colours: Seq<Colour>, brightness: u16) -> Seq<u16> {
    let pivot = spec_pivot(colours);
    if brightness < 10 {
        Seq::new(NUM_PIXELS as nat, |i: int| 0u16)
    } else if brightness < 20 {
        spec_dither_low(pivot)
    } else if brightness < 30 {
        spec_dither_mid(pivot)
    } else if brightness < BRIGHTNESS_FLOOR {
        spec_dither_high(pivot)
    } else {
        Seq::new(NUM_PIXELS as nat, |i: int| brightness)
    }
}

/// Work around the hardware floor: a brightness below [`BRIGHTNESS_FLOOR`]
/// thousandths is approximated by switching a pattern of whole pixels fully
/// on, with more pixels lit at each tier.
pub fn get_blinkt_brightness(colours: &[Colour; NUM_PIXELS], brightness: u16) -> (r: [u16;
    NUM_PIXELS])
    ensures
        r@ == spec_blinkt_brightness(colours@, brightness),
{
    let pivot: usize = get_pivot(colours);
    proof {
        lemma_pivot_range(colours@, 1);
    }
    let x: u16 = BRIGHTNESS_FLOOR;
    let o: u16 = 0;
    let r: [u16; NUM_PIXELS] = if brightness < 10 {
        [o;NUM_PIXELS]
    } else if brightness < 20 {
        if pivot == 0 {
            [x, o, o, o, o, o, o, x]
        } else if pivot == 1 {
            [x, x, o, o, o, o, o, o]
        } else if pivot == 2 {
            [x, o, x, o, o, o, o, o]
        } else if pivot == 3 {
            [x, o, o, x, o, o, o, o]
        } else if pivot == 4 {
            [x, o, o, o, x, o, o, o]
        } else if pivot == 5 {
            [x, o, o, o, o, x, o, o]
        } else if pivot == 6 {
            [x, o, o, o, o, o, x, o]
        } else {
            [x, o, o, o, o, o, o, x]
        }
    } else if brightness < 30 {
        if pivot == 0 {
            [x, o, o, o, x, o, o, x]
        } else if pivot == 1 {
            [x, x, o, o, o, o, o, x]
        } else if pivot == 2 {
            [x, o, x, o, o, o, o, x]
        } else if pivot == 3 {
            [x, o, o, x, o, o, o, x]
        } else if pivot == 4 {
            [x, o, o, o, x, o, o, x]
        } else if pivot == 5 {
            [x, o, o, o, o, x, o, x]
        } else if pivot == 6 {
            [x, o, o, o, o, o, x, x]
        } else {
            [x, o, o, o, o, o, x, x]
        }
    } else if brightness < BRIGHTNESS_FLOOR {
        if pivot == 0 {
            [x, o, o, x, x, o, o, x]
        } else if pivot == 1 {
            [x, x, x, o, o, o, o, x]
        } else if pivot == 2 {
            [x, x, x, o, o, o, o, x]
        } else if pivot == 3 {
            [x, o, x, x, o, o, o, x]
        } else if pivot == 4 {
            [x, o, o, x, x, o, o, x]
        } else if pivot == 5 {
            [x, o, o, o, x, x, o, x]
        } else if pivot == 6 {
            [x, o, o, o, o, x, x, x]
        } else {
            [x, o, o, o, o, x, x, x]
        }
    } else {
        [brightness;NUM_PIXELS]
    };
    proof {
        assert(r@ =~= spec_blinkt_brightness(colours@, brightness));
    }
    r
}

/// Some position below both lengths holds different colours.
pub open spec fn spec_colours_differ(a: Seq<Colour>, b: Seq<Colour>) -> bool {
    exists|i: int| 0 <= i < a.len() && i < b.len() && a[i] != b[i]
}

/// Pairwise comparison over the shorter of the two frames.
pub fn colours_differ(a: &Vec<Colour>, b: &Vec<Colour>) -> (r: bool)
    ensures
        r == spec_colours_differ(a@, b@),
{
    let n: usize = if a.len() < b.len() {
        a.len()
    } else {
        b.len()
    };
    let mut i: usize = 0;
    while i < n
        invariant
            i <= n,
            n <= a@.len(),
            n <= b@.len(),
            n == a@.len() || n == b@.len(),
            forall|j: int| 0 <= j < i ==> a@[j] == b@[j],
        decreases n - i,
    {
        if a[i] != b[i] {
            return true;
        }
        i += 1;
    }
    false
}

/// Remembers the last frame written to the strip, so that a frame that
/// changes neither the colours nor the brightness is not rewritten.
pub struct FrameCache {
    pub current: Option<(Vec<Colour>, u16)>,
}

impl FrameCache {
    pub fn new() -> (c: FrameCache)
        ensures
            c.current is None,
    {
        FrameCache { current: None }
    }

    /// True when the frame differs from the last one written (or nothing was
    /// written yet); the frame is then remembered as current.
    pub fn should_update(&mut self, colours: &Vec<Colour>, brightness: u16) -> (r: bool)
        ensures
            r == (match old(self).current {
                None => true,
                Some(cur) => cur.1 != brightness || spec_colours_differ(colours@, cur.0@),
            }),
            r ==> (final(self).current matches Some(cur) && cur.0@ == colours@ && cur.1
                == brightness),
            !r ==> *final(self) == *old(self),
    {
        let update: bool = match &self.current {
            None => true,
            Some(cur) => cur.1 != brightness || colours_differ(colours, &cur.0),
        };
        if update {
            self.current = Some((clone_colours(colours), brightness));
        }
        update
    }
}

/// A copy of a frame, element for element.
pub fn clone_colours(colours: &Vec<Colour>) -> (r: Vec<Colour>)
    ensures
        r@ == colours@,
{
    let mut copy: Vec<Colour> = Vec::new();
    let mut i: usize = 0;
    while i < colours.len()
        invariant
            i <= colours@.len(),
            copy@ == colours@.subrange(0, i as int),
        decreases colours@.len() - i,
    {
        copy.push(colours[i]);
        proof {
            assert(copy@ =~= colours@.subrange(0, i + 1));
        }
        i += 1;
    }
    proof {
        assert(copy@ =~= colours@);
    }
    copy
}

/// The colours the party animation cycles through.
pub open spec fn spec_party_colour(c: int) -> Colour {
    if c == 0 {
        Colour(255, 0, 0)
    } else if c == 1 {
        Colour(0, 255, 0)
    } else {
        Colour(10, 10, 226)
    }
}

/// Frame `i` of colour pass `c`: positions up to `i` take the pass's colour,
/// the rest still hold the previous pass (black during the first).
pub open spec fn spec_party_frame(c: int, i: int) -> Seq<Colour> {
    Seq::new(
        NUM_PIXELS as nat,
        |p: int|
            if p <= i {
                spec_party_colour(c)
            } else if c == 0 {
                Colour(0, 0, 0)
            } else {
                spec_party_colour(c - 1)
            },
    )
}

/// The frames of the party animation, in the order they are shown: three
/// passes of eight frames, each lighting one more pixel from the left.
pub fn party_frames() -> (frames: Vec<Vec<Colour>>)
    ensures
        frames@.len() == 24,
        forall|c: int, i: int|
            0 <= c < 3 && 0 <= i < NUM_PIXELS ==> #[trigger] frames@[c * 8 + i]@
                == spec_party_frame(c, i),
{
    let mut frames: Vec<Vec<Colour>> = Vec::new();
    let mut current: Vec<Colour> = Vec::new();
    let mut p: usize = 0;
    while p < NUM_PIXELS
        invariant
            p <= NUM_PIXELS,
            current@ == Seq::new(p as nat, |q: int| Colour(0, 0, 0)),
        decreases NUM_PIXELS - p,
    {
        current.push(Colour(0, 0, 0));
        proof {
            assert(current@ =~= Seq::new((p + 1) as nat, |q: int| Colour(0, 0, 0)));
        }
        p += 1;
    }
    let mut c: usize = 0;
    while c < 3
        invariant
            c <= 3,
            frames@.len() == c * 8,
            current@.len() == NUM_PIXELS,
            c == 0 ==> current@ == Seq::new(NUM_PIXELS as nat, |q: int| Colour(0, 0, 0)),
            c > 0 ==> current@ == spec_party_frame(c - 1, 7),
            forall|cc: int, i: int|
                0 <= cc < c && 0 <= i < NUM_PIXELS ==> #[trigger] frames@[cc * 8 + i]@
                    == spec_party_frame(cc, i),
        decreases 3 - c,
    {
        let colour: Colour = if c == 0 {
            Colour(255, 0, 0)
        } else if c == 1 {
            Colour(0, 255, 0)
        } else {
            Colour(10, 10, 226)
        };
        let mut i: usize = 0;
        while i < NUM_PIXELS
            invariant
                i <= NUM_PIXELS,
                c < 3,
                colour == spec_party_colour(c as int),
                frames@.len() == c * 8 + i,
                current@.len() == NUM_PIXELS,
                i == 0 && c == 0 ==> current@ == Seq::new(
                    NUM_PIXELS as nat,
                    |q: int| Colour(0, 0, 0),
                ),
                i == 0 && c > 0 ==> current@ == spec_party_frame(c - 1, 7),
                i > 0 ==> current@ == spec_party_frame(c as int, i - 1),
                forall|cc: int, ii: int|
                    0 <= cc < c && 0 <= ii < NUM_PIXELS ==> #[trigger] frames@[cc * 8 + ii]@
                        == spec_party_frame(cc, ii),
                forall|ii: int|
                    0 <= ii < i ==> #[trigger] frames@[c * 8 + ii]@ == spec_party_frame(
                        c as int,
                        ii,
                    ),
            decreases NUM_PIXELS - i,
        {
            current.set(i, colour);
            proof {
                assert(current@ =~= spec_party_frame(c as int, i as int));
            }
            frames.push(clone_colours(&current));
            i += 1;
        }
        c += 1;
    }
    frames
}

/// A single-bucket range renders every pixel in the bucket's colour,
/// whatever the temperature.
pub proof fn lemma_single_bucket(range: ColourRange, value: int)
    requires
        range.wf(),
        range.buckets@.len() == 1,
    ensures
        range.spec_pixels(value) == Seq::new(
            NUM_PIXELS as nat,
            |i: int| range.buckets@[0].colour,
        ),
{
    assert(range.buckets@[range.buckets@.len() - 1] == range.buckets@[0]);
}

/// The view of a frame as the plain byte triples carried in an event.
pub open spec fn spec_colour_tuples(colours: Seq<Colour>) -> Seq<(u8, u8, u8)> {
    Seq::new(colours.len(), |i: int| (colours[i].0, colours[i].1, colours[i].2))
}

pub fn colour_tuples(colours: &Vec<Colour>) -> (r: Vec<(u8, u8, u8)>)
    ensures
        r@ == spec_colour_tuples(colours@),
{
    let mut tuples: Vec<(u8, u8, u8)> = Vec::new();
    let mut i: usize = 0;
    while i < colours.len()
        invariant
            i <= colours@.len(),
            tuples@ == spec_colour_tuples(colours@).subrange(0, i as int),
        decreases colours@.len() - i,
    {
        let c: Colour = colours[i];
        tuples.push((c.0, c.1, c.2));
        proof {
            assert(tuples@ =~= spec_colour_tuples(colours@).subrange(0, i + 1));
        }
        i += 1;
    }
    proof {
        assert(tuples@ =~= spec_colour_tuples(colours@));
    }
    tuples
}

/// The physical strip.  Writing a frame or playing the acknowledgement
/// animation is blocking hardware work, so implementations live outside the
/// verified crate and nothing is assumed of their results.
pub trait LEDs {
    fn show(&mut self, colours: &Vec<Colour>, brightness: u16) -> Result<(), String>;

    fn party(&mut self) -> Result<(), String>;
}

/// The bus-facing LED state machine.
///
/// It holds the gradient, the frame last decided on and the requested
/// brightness; [`LEDHandler::handle`] answers each bus message with the
/// messages to publish back.
pub struct LEDHandler<L: LEDs> {
    pub leds: L,
    pub colour_range: ColourRange,
    pub colours: Vec<Colour>,
    pub brightness: u16,
}

impl<L: LEDs> LEDHandler<L> {
    pub open spec fn wf(self) -> bool {
        &&& self.colour_range.wf()
        &&& self.colours@.len() == NUM_PIXELS
    }

    /// Start black at the default (dim) brightness.
    pub fn new(leds: L, colour_range: ColourRange) -> (h: LEDHandler<L>)
        requires
            colour_range.wf(),
        ensures
            h.wf(),
            h.colour_range == colour_range,
            h.colours@ == Seq::new(NUM_PIXELS as nat, |i: int| Colour(0, 0, 0)),
            h.brightness == Brightness::Dim.spec_value(),
    {
        let colours: Vec<Colour> = colour_range.all(Colour::black());
        LEDHandler { leds, colour_range, colours, brightness: Brightness::default().value() }
    }

    /// React to one bus message.
    ///
    /// A measurement re-renders only if the gradient output changed; a tap
    /// steps the brightness and asks for a party and a re-render; the
    /// rendering commands drive the strip through the [`LEDs`] port, whose
    /// outcome nothing constrains.
    pub fn handle(&mut self, message: &Message) -> (out: Vec<Message>)
        requires
            old(self).wf(),
        ensures
            final(self).wf(),
            final(self).colour_range == old(self).colour_range,
            match message.payload {
                Payload::Event(Event::Measurement(m)) => {
                    let fresh = old(self).colour_range.spec_pixels(m.temperature as int);
                    &&& final(self).brightness == old(self).brightness
                    &&& if spec_colours_differ(fresh, old(self).colours@) {
                        &&& final(self).colours@ == fresh
                        &&& out@.len() == 1
                        &&& out@[0].payload == Payload::Command(Command::UpdateLEDs)
                    } else {
                        &&& final(self).colours@ == old(self).colours@
                        &&& out@.len() == 0
                    }
                },
                Payload::Event(Event::SingleTap) => {
                    &&& final(self).colours@ == old(self).colours@
                    &&& final(self).brightness == Brightness::spec_next_value(
                        old(self).brightness,
                    )
                    &&& out@.len() == 2
                    &&& out@[0].payload == Payload::Command(Command::RunParty)
                    &&& out@[1].payload == Payload::Command(Command::UpdateLEDs)
                },
                Payload::Command(Command::RunParty) => {
                    &&& final(self).colours@ == old(self).colours@
                    &&& final(self).brightness == old(self).brightness
                    &&& out@.len() == 0
                },
                Payload::Command(Command::UpdateLEDs) => {
                    &&& final(self).colours@ == old(self).colours@
                    &&& final(self).brightness == old(self).brightness
                    &&& out@.len() <= 1
                    &&& out@.len() == 1 ==> (out@[0].payload matches Payload::Event(
                        Event::LEDColours(cs),
                    ) && cs@ == spec_colour_tuples(old(self).colours@))
                },
                Payload::Command(Command::SetBrightness(b)) => {
                    &&& final(self).colours@ == old(self).colours@
                    &&& final(self).brightness == b
                    &&& out@.len() == 2
                    &&& out@[0].payload == Payload::Command(Command::UpdateLEDs)
                    &&& out@[1].payload == Payload::Event(Event::LEDBrightness(b))
                },
                _ => {
                    &&& final(self).colours@ == old(self).colours@
                    &&& final(self).brightness == old(self).brightness
                    &&& out@.len() == 0
                },
            },
    {
        let mut out: Vec<Message> = Vec::new();
        match message.payload() {
            Payload::Event(Event::Measurement(m)) => {
                let fresh: Vec<Colour> = self.colour_range.get_pixels(m.temperature);
                if colours_differ(&fresh, &self.colours) {
                    self.colours = fresh;
                    out.push(Message::new_command(Command::UpdateLEDs));
                }
            },
            Payload::Event(Event::SingleTap) => {
                self.brightness = Brightness::next_from(self.brightness).value();
                out.push(Message::new_command(Command::RunParty));
                out.push(Message::new_command(Command::UpdateLEDs));
            },
            Payload::Command(Command::RunParty) => {
                let _ignored = self.leds.party();
            },
            Payload::Command(Command::UpdateLEDs) => {
                let shown = self.leds.show(&self.colours, self.brightness);
                if shown.is_ok() {
                    out.push(Message::new_event(Event::LEDColours(colour_tuples(&self.colours))));
                }
            },
            Payload::Command(Command::SetBrightness(b)) => {
                self.brightness = *b;
                out.push(Message::new_command(Command::UpdateLEDs));
                out.push(Message::new_event(Event::LEDBrightness(*b)));
            },
            _ => {},
        }
        out
    }
}

} // verus!
