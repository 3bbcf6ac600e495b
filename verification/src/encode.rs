//! H.264 encoding, hardware-preferred: how an encoder is chosen and set up,
//! what it is fed and what comes out of it.
//!
//! The codec itself is driven by the application, which opens it, hands it the
//! frames prepared here and reports back what it received.

use crate::buffer::{contents, copy_from_slice};
use crate::text::{decimal, decimal_text, join, join_texts, joined, same_text, texts};
use bytes::Bytes;
use vstd::arithmetic::power2::{lemma2_to64, lemma2_to64_rest, lemma_pow2_unfold, pow2};
use vstd::prelude::*;

verus! {

/// Which encoder implementation to use.
#[derive(Clone, Debug, PartialEq, Eq)]
pub enum Kind {
    /// Prefer a platform hardware encoder, fall back to software.
    Auto,
    /// Hardware only; error if none is available.
    Hardware,
    /// Software only.
    Software,
    /// A specific encoder by name, e.g. `"h264_videotoolbox"`.
    Named(String),
}

impl Default for Kind {
    fn default() -> (r: Self)
        ensures
            r is Auto,
    {
        Kind::Auto
    }
}

/// What can go wrong.
#[derive(Debug)]
pub enum Error {
    /// The framerate cannot be encoded.
    InvalidFramerate(u32),
    /// None of the named encoders could be opened.
    NoEncoder(String),
    /// A frame or a size that cannot be encoded, and why.
    Codec(String),
    /// The codec failed, and how.
    Ffmpeg(String),
}

/// Encoder configuration. `width`, `height` and `framerate` are those of the
/// encoded output; input frames are scaled to match.
#[derive(Clone, Debug)]
pub struct Config {
    pub width: u32,
    pub height: u32,
    pub framerate: u32,
    /// Target bitrate in bits per second. `None` derives a default from
    /// resolution and framerate (0.07 bits per pixel).
    pub bitrate: Option<u64>,
    /// Keyframe interval in frames. Subscribers joining mid-stream wait at most
    /// this many frames before they can start decoding.
    pub gop: u32,
    pub kind: Kind,
}

// Bitrate

/// The distance between neighbouring double precision numbers at `n`.
pub open spec fn spacing(n: nat) -> nat
    decreases n,
{
    if n < 0x20_0000_0000_0000 {
        1
    } else {
        2 * spacing(n / 2)
    }
}

/// The double precision number nearest to `n`; of two, the one with the even
/// significand.
pub open spec fn to_double(n: nat) -> nat {
    let unit = spacing(n);
    let below = n / unit;
    let rest = n % unit;
    if 2 * rest > unit || (2 * rest == unit && below % 2 == 1) {
        (below + 1) * unit
    } else {
        below * unit
    }
}

/// The double precision number 0.07 is this number of 2^54-ths.
pub const SEVEN_PERCENT: u64 = 1_261_007_895_663_739;

/// 2^54.
pub const TWO_POW_54: u64 = 0x40_0000_0000_0000;

/// The default bitrate for a number of pixels per second: their product with
/// 0.07 in double precision, rounded down.
pub open spec fn default_bitrate(pixels_per_second: nat) -> nat {
    to_double(to_double(pixels_per_second) * SEVEN_PERCENT as nat) / TWO_POW_54 as nat
}

proof fn lemma_spacing(n: nat)
    ensures
        spacing(n) >= 1,
        spacing(n) <= n || spacing(n) == 1,
        n / spacing(n) < 0x20_0000_0000_0000,
        spacing(n) > 1 ==> n / spacing(n) >= 0x10_0000_0000_0000,
        spacing(n) == 1 || spacing(n) % 2 == 0,
    decreases n,
{
    if n >= 0x20_0000_0000_0000 {
        lemma_spacing(n / 2);
        let half = spacing(n / 2);
        vstd::arithmetic::div_mod::lemma_div_denominator(n as int, 2, half as int);
        assert(n / (2 * half) == (n / 2) / half);
        if half == 1 {
            assert(n / 2 >= 0x10_0000_0000_0000);
        }
    }
}

fn spacing_of(n: u128) -> (r: u128)
    ensures
        r == spacing(n as nat),
    decreases n,
{
    if n < 0x20_0000_0000_0000 {
        1
    } else {
        proof {
            lemma_spacing((n / 2) as nat);
        }
        2 * spacing_of(n / 2)
    }
}

proof fn lemma_to_double_bound(n: nat)
    ensures
        to_double(n) <= n + spacing(n),
        n <= to_double(n) + spacing(n),
{
    lemma_spacing(n);
    let unit = spacing(n);
    vstd::arithmetic::div_mod::lemma_fundamental_div_mod(n as int, unit as int);
    let below = n / unit;
    assert((below + 1) * unit == below * unit + unit) by (nonlinear_arith);
    assert(unit * below == below * unit) by (nonlinear_arith);
}

fn double_of(n: u128) -> (r: u128)
    requires
        n < 0x4000_0000_0000_0000_0000_0000_0000_0000,
    ensures
        r == to_double(n as nat),
{
    let unit = spacing_of(n);
    proof {
        lemma_spacing(n as nat);
        lemma_to_double_bound(n as nat);
        vstd::arithmetic::div_mod::lemma_fundamental_div_mod(n as int, unit as int);
    }
    let below: u128 = n / unit;
    let rest: u128 = n % unit;
    proof {
        assert((below + 1) * unit == below * unit + unit) by (nonlinear_arith);
        assert(unit * below == below * unit) by (nonlinear_arith);
        vstd::arithmetic::div_mod::lemma_mod_bound(n as int, unit as int);
    }
    if 2 * rest > unit || (2 * rest == unit && below % 2 == 1) {
        (below + 1) * unit
    } else {
        below * unit
    }
}

/// The default bitrate for a number of pixels per second.
pub fn default_bitrate_of(pixels_per_second: u64) -> (r: u64)
    ensures
        r == default_bitrate(pixels_per_second as nat),
{
    let pixels: u128 = double_of(pixels_per_second as u128);
    proof {
        lemma_spacing(pixels_per_second as nat);
        lemma_to_double_bound(pixels_per_second as nat);
        assert(pixels <= 0x2_0000_0000_0000_0000);
        assert(pixels * SEVEN_PERCENT <= 0x2_0000_0000_0000_0000 * 0x10_0000_0000_0000)
            by (nonlinear_arith)
            requires
                pixels <= 0x2_0000_0000_0000_0000,
                SEVEN_PERCENT <= 0x10_0000_0000_0000,
        ;
    }
    let product: u128 = double_of(pixels * SEVEN_PERCENT as u128);
    proof {
        lemma_default_bitrate_fits(pixels_per_second);
    }
    (product / TWO_POW_54 as u128) as u64
}

proof fn lemma_default_bitrate_fits(pixels_per_second: u64)
    ensures
        default_bitrate(pixels_per_second as nat) <= u64::MAX,
{
    law_default_bitrate_monotone(pixels_per_second as nat, 0x1_0000_0000_0000_0000);
    lemma_double_of_power();
}

proof fn lemma_double_of_power()
    ensures
        default_bitrate(0x1_0000_0000_0000_0000) <= u64::MAX,
{
    lemma_spacing(0x1_0000_0000_0000_0000);
    lemma_to_double_bound(0x1_0000_0000_0000_0000);
    let d = to_double(0x1_0000_0000_0000_0000);
    let p = d * SEVEN_PERCENT as nat;
    assert(p <= 0x2_0000_0000_0000_0000 * 0x5_0000_0000_0000) by (nonlinear_arith)
        requires
            d <= 0x2_0000_0000_0000_0000,
            p == d * SEVEN_PERCENT as nat,
            SEVEN_PERCENT <= 0x5_0000_0000_0000,
    ;
    lemma_spacing(p);
    lemma_to_double_bound(p);
}

/// A larger number of pixels per second never gets a lower default bitrate.
pub proof fn law_default_bitrate_monotone(a: nat, b: nat)
    requires
        a <= b,
    ensures
        default_bitrate(a) <= default_bitrate(b),
{
    lemma_to_double_monotone(a, b);
    let x = to_double(a);
    let y = to_double(b);
    assert(x * SEVEN_PERCENT as nat <= y * SEVEN_PERCENT as nat) by (nonlinear_arith)
        requires
            x <= y,
    ;
    let p = x * SEVEN_PERCENT as nat;
    let q = y * SEVEN_PERCENT as nat;
    lemma_to_double_monotone(p, q);
    vstd::arithmetic::div_mod::lemma_div_is_ordered(
        to_double(p) as int,
        to_double(q) as int,
        TWO_POW_54 as int,
    );
}

proof fn lemma_spacing_monotone(a: nat, b: nat)
    requires
        a <= b,
    ensures
        spacing(a) == spacing(b) || 2 * spacing(a) <= spacing(b),
    decreases b,
{
    if b >= 0x20_0000_0000_0000 {
        lemma_spacing(b / 2);
        if a >= 0x20_0000_0000_0000 {
            lemma_spacing_monotone(a / 2, b / 2);
        }
    }
}

proof fn lemma_to_double_monotone(a: nat, b: nat)
    requires
        a <= b,
    ensures
        to_double(a) <= to_double(b),
{
    lemma_spacing(a);
    lemma_spacing(b);
    lemma_spacing_monotone(a, b);
    let u = spacing(a);
    let v = spacing(b);
    let qa = a / u;
    let qb = b / v;
    let ra = a % u;
    let rb = b % v;
    vstd::arithmetic::div_mod::lemma_fundamental_div_mod(a as int, u as int);
    vstd::arithmetic::div_mod::lemma_fundamental_div_mod(b as int, v as int);
    vstd::arithmetic::div_mod::lemma_mod_bound(a as int, u as int);
    vstd::arithmetic::div_mod::lemma_mod_bound(b as int, v as int);
    if u == v {
        vstd::arithmetic::div_mod::lemma_div_is_ordered(a as int, b as int, u as int);
        if qa < qb {
            assert((qa + 1) * u <= qb * u) by (nonlinear_arith)
                requires
                    qa < qb,
            ;
            assert(qa * u <= qb * u) by (nonlinear_arith)
                requires
                    qa < qb,
            ;
            assert(qb * u <= (qb + 1) * u) by (nonlinear_arith);
        } else {
            assert(ra <= rb);
            assert(qa * u <= (qa + 1) * u) by (nonlinear_arith);
        }
    } else {
        assert(qa + 1 <= 0x20_0000_0000_0000);
        assert((qa + 1) * u <= qb * v) by (nonlinear_arith)
            requires
                qa + 1 <= 0x20_0000_0000_0000,
                qb >= 0x10_0000_0000_0000,
                2 * u <= v,
        ;
        assert(qa * u <= (qa + 1) * u) by (nonlinear_arith);
        assert(qb * v <= (qb + 1) * v) by (nonlinear_arith);
    }
}

proof fn lemma_spacing_divides(n: nat, k: nat) -> (m: nat)
    requires
        n < 0x20_0000_0000_0000 * pow2(k),
    ensures
        m * spacing(n) == pow2(k),
    decreases k,
{
    if n < 0x20_0000_0000_0000 {
        assert(pow2(k) * 1 == pow2(k));
        pow2(k)
    } else {
        if k == 0 {
            lemma2_to64();
        }
        lemma_pow2_unfold(k);
        let m = lemma_spacing_divides(n / 2, (k - 1) as nat);
        let half = spacing(n / 2);
        assert(m * (2 * half) == 2 * (m * half)) by (nonlinear_arith);
        m
    }
}

/// Up to 2^48 pixels per second the default bitrate is exactly 7% of them,
/// rounded down.
pub proof fn law_default_bitrate_is_seven_percent(n: nat)
    requires
        n < 0x1_0000_0000_0000,
    ensures
        default_bitrate(n) == n * 7 / 100,
{
    assert(to_double(n) == n) by {
        let one = spacing(n);
        assert(n / one == n && n % one == 0 && n * one == n) by (nonlinear_arith)
            requires
                one == 1,
        ;
    }
    let p = n * SEVEN_PERCENT as nat;
    let q = n * 7 / 100;
    let r = n * 7 % 100;
    assert(100 * p == 7 * n * TWO_POW_54 + 12 * n);
    assert(p < 0x20_0000_0000_0000 * 0x4000_0000_0000);
    lemma2_to64_rest();
    let m = lemma_spacing_divides(p, 46);
    let unit = spacing(p);
    lemma_spacing(p);
    assert(unit <= 0x4000_0000_0000) by (nonlinear_arith)
        requires
            m * unit == 0x4000_0000_0000,
            m >= 0,
            unit >= 1,
    ;
    let below = p / unit;
    vstd::arithmetic::div_mod::lemma_fundamental_div_mod(p as int, unit as int);
    vstd::arithmetic::div_mod::lemma_mod_bound(p as int, unit as int);
    assert((below + 1) * unit == below * unit + unit) by (nonlinear_arith);
    assert(unit * below == below * unit) by (nonlinear_arith);
    let d = to_double(p);
    assert(d <= p + unit);
    // What lies at or above a multiple of 2^54 is not rounded below it.
    assert(q * TWO_POW_54 <= p);
    assert(q * TWO_POW_54 == (q * 256 * m) * unit) by (nonlinear_arith)
        requires
            m * unit == 0x4000_0000_0000,
            TWO_POW_54 == 256 * 0x4000_0000_0000,
    ;
    let w = q * 256 * m;
    if w > below {
        assert(w * unit >= (below + 1) * unit) by (nonlinear_arith)
            requires
                w >= below + 1,
        ;
        assert(false);
    }
    assert(w * unit <= below * unit) by (nonlinear_arith)
        requires
            w <= below,
    ;
    assert(q * TWO_POW_54 <= d);
    assert(d < (q + 1) * TWO_POW_54);
}

// Choosing and opening an encoder

impl Config {
    /// A configuration with a keyframe about every two seconds, a default
    /// bitrate and any encoder.
    pub fn new(width: u32, height: u32, framerate: u32) -> (r: Self)
        ensures
            r.width == width,
            r.height == height,
            r.framerate == framerate,
            r.bitrate is None,
            r.gop == (if framerate == 0 {
                1
            } else if 2 * framerate > u32::MAX {
                u32::MAX as int
            } else {
                2 * framerate
            }),
            r.kind is Auto,
    {
        let double: u32 = match framerate.checked_mul(2) {
            Some(n) => n,
            None => u32::MAX,
        };
        Config {
            width,
            height,
            framerate,
            bitrate: None,
            gop: if double == 0 {
                1
            } else {
                double
            },
            kind: Kind::Auto,
        }
    }

    /// The number of pixels per second of the encoded output.
    pub open spec fn pixels_per_second(self) -> nat {
        (self.width * self.height * self.framerate) as nat
    }

    /// The target bitrate: the one that is set, or the default.
    pub open spec fn target_bitrate(self) -> nat {
        match self.bitrate {
            Some(b) => b as nat,
            None => default_bitrate(self.pixels_per_second()),
        }
    }

    /// Whether the target bitrate can be computed: a default needs the number
    /// of pixels per second to fit.
    pub open spec fn bitrate_fits(self) -> bool {
        self.bitrate is None ==> self.pixels_per_second() <= u64::MAX
    }

    /// The target bitrate: the one that is set, or the default.
    pub fn resolved_bitrate(&self) -> (r: u64)
        requires
            self.bitrate_fits(),
        ensures
            r == self.target_bitrate(),
    {
        match self.bitrate {
            Some(b) => b,
            None => {
                proof {
                    let pixels = self.width * self.height;
                    assert(0 <= pixels <= u32::MAX * u32::MAX) by (nonlinear_arith)
                        requires
                            pixels == self.width * self.height,
                    ;
                    assert(self.framerate >= 1 ==> pixels <= pixels * self.framerate)
                        by (nonlinear_arith)
                        requires
                            pixels >= 0,
                    ;
                }
                let pixels: u64 = self.width as u64 * self.height as u64;
                default_bitrate_of(pixels * self.framerate as u64)
            },
        }
    }
}

/// Hardware encoders, in the order in which they are tried.
pub open spec fn hardware_encoders() -> Seq<Seq<char>> {
    seq![
        "h264_videotoolbox"@,
        "h264_nvenc"@,
        "h264_qsv"@,
        "h264_vaapi"@,
        "h264_amf"@,
        "h264_v4l2m2m"@,
    ]
}

/// Software encoders, in the order in which they are tried.
pub open spec fn software_encoders() -> Seq<Seq<char>> {
    seq!["libx264"@, "h264"@]
}

/// The names of the encoders to try, in order.
pub open spec fn candidates(kind: Kind) -> Seq<Seq<char>> {
    match kind {
        Kind::Named(name) => seq![name@],
        Kind::Hardware => hardware_encoders(),
        Kind::Software => software_encoders(),
        Kind::Auto => hardware_encoders() + software_encoders(),
    }
}

fn hardware_names() -> (r: Vec<String>)
    ensures
        texts(r@) == hardware_encoders(),
{
    let r = vec![
        "h264_videotoolbox".to_string(),
        "h264_nvenc".to_string(),
        "h264_qsv".to_string(),
        "h264_vaapi".to_string(),
        "h264_amf".to_string(),
        "h264_v4l2m2m".to_string(),
    ];
    assert(texts(r@) =~= hardware_encoders());
    r
}

fn software_names() -> (r: Vec<String>)
    ensures
        texts(r@) == software_encoders(),
{
    let r = vec!["libx264".to_string(), "h264".to_string()];
    assert(texts(r@) =~= software_encoders());
    r
}

/// The names of the encoders to try, in order.
pub fn encoder_candidates(kind: &Kind) -> (r: Vec<String>)
    ensures
        texts(r@) == candidates(*kind),
{
    match kind {
        Kind::Named(name) => {
            let r = vec![name.clone()];
            assert(texts(r@) =~= candidates(*kind));
            r
        },
        Kind::Hardware => hardware_names(),
        Kind::Software => software_names(),
        Kind::Auto => {
            let mut names = hardware_names();
            let mut software = software_names();
            let ghost hardware = names@;
            let ghost rest = software@;
            names.append(&mut software);
            assert(texts(hardware + rest) =~= texts(hardware) + texts(rest));
            names
        },
    }
}

/// What an encoder is opened with.
#[derive(Debug)]
pub struct OpenSettings {
    pub width: u32,
    pub height: u32,
    /// Seconds per tick of a frame's timestamp, as numerator and denominator.
    pub time_base: (i32, i32),
    /// Frames per second, as numerator and denominator.
    pub frame_rate: (i32, i32),
    pub gop: u32,
    /// Frames that may be reordered; none, for low latency.
    pub max_b_frames: usize,
    pub bit_rate: usize,
    /// Options of the particular encoder.
    pub options: Vec<(String, String)>,
}

/// The options that are particular to an encoder.
pub open spec fn options_for(name: Seq<char>) -> Seq<(Seq<char>, Seq<char>)> {
    if name == "libx264"@ {
        seq![("preset"@, "ultrafast"@), ("tune"@, "zerolatency"@)]
    } else if name == "h264_videotoolbox"@ {
        seq![("realtime"@, "1"@), ("allow_sw"@, "1"@)]
    } else {
        Seq::empty()
    }
}

impl OpenSettings {
    /// The settings are those for opening the named encoder by a configuration.
    pub open spec fn serve(self, name: Seq<char>, config: Config) -> bool {
        &&& self.width == config.width
        &&& self.height == config.height
        &&& self.time_base == (1i32, config.framerate as i32)
        &&& self.frame_rate == (config.framerate as i32, 1i32)
        &&& self.gop == config.gop
        &&& self.max_b_frames == 0
        &&& self.bit_rate == (config.target_bitrate() as u64) as usize
        &&& self.options@.map_values(|o: (String, String)| (o.0@, o.1@)) == options_for(name)
    }
}

/// The settings for opening the named encoder.
pub fn open_settings(name: &str, config: &Config) -> (r: OpenSettings)
    requires
        config.bitrate_fits(),
    ensures
        r.serve(name@, *config),
{
    let mut options: Vec<(String, String)> = Vec::new();
    if same_text(name, "libx264") {
        options.push(("preset".to_string(), "ultrafast".to_string()));
        options.push(("tune".to_string(), "zerolatency".to_string()));
    } else if same_text(name, "h264_videotoolbox") {
        options.push(("realtime".to_string(), "1".to_string()));
        options.push(("allow_sw".to_string(), "1".to_string()));
    }
    assert(options@.map_values(|o: (String, String)| (o.0@, o.1@)) =~= options_for(name@));
    OpenSettings {
        width: config.width,
        height: config.height,
        time_base: (1, config.framerate as i32),
        frame_rate: (config.framerate as i32, 1),
        gop: config.gop,
        max_b_frames: 0,
        bit_rate: config.resolved_bitrate() as usize,
        options,
    }
}

/// The geometry that a scaler was built for.
#[derive(Clone, Copy, Debug, PartialEq, Eq, Structural)]
pub struct Geometry {
    /// The pixel format, by its number.
    pub format: i32,
    pub width: u32,
    pub height: u32,
}

/// An H.264 encoder: the codec in use and what is known of its progress.
pub struct Encoder<E> {
    /// The codec, as it was opened.
    pub codec: E,
    /// The input geometry of the scaler in use, once there is one.
    pub scaler: Option<Geometry>,
    /// The size of the encoded output.
    pub width: u32,
    pub height: u32,
    /// The number of frames stamped so far.
    pub frame_count: i64,
    /// The name of the encoder in use.
    pub name: String,
    /// The number of keyframes received so far.
    pub keyframe_count: u64,
}

/// `open` was asked for the named encoder by a configuration, and gave `r`.
pub open spec fn gave<E, F: Fn(&str, &OpenSettings) -> Option<E>>(
    open: F,
    name: Seq<char>,
    config: Config,
    r: Option<E>,
) -> bool {
    exists|n: &str, s: &OpenSettings|
        n@ == name && s.serve(name, config) && #[trigger] call_ensures(open, (n, s), r)
}

/// `open` was asked for every candidate, and opened none.
pub open spec fn none_opened<E, F: Fn(&str, &OpenSettings) -> Option<E>>(
    open: F,
    config: Config,
) -> bool {
    forall|j: int|
        0 <= j < candidates(config.kind).len() ==> #[trigger] gave::<E, F>(
            open,
            candidates(config.kind)[j],
            config,
            None,
        )
}

/// `open` can be asked for every encoder.
pub open spec fn can_open<E, F: Fn(&str, &OpenSettings) -> Option<E>>(open: F) -> bool {
    forall|n: &str, s: &OpenSettings| #[trigger] call_requires(open, (n, s))
}

/// The message on an output without pixels.
pub open spec fn dimensions_message(width: u32, height: u32) -> Seq<char> {
    "encoder dimensions must be non-zero (got "@ + decimal(width as nat) + "x"@ + decimal(
        height as nat,
    ) + ")"@
}

fn dimensions_text(width: u32, height: u32) -> (r: String)
    ensures
        r@ == dimensions_message(width, height),
{
    let mut out = joined(
        "encoder dimensions must be non-zero (got ",
        decimal_text(width as u64).as_str(),
    );
    out.append("x");
    out.append(decimal_text(height as u64).as_str());
    out.append(")");
    out
}

impl<E> Encoder<E> {
    /// Opens the first candidate that `open` can open.
    ///
    /// A zero framerate and an output without pixels are rejected before
    /// anything is opened.
    pub fn new<F: Fn(&str, &OpenSettings) -> Option<E>>(config: &Config, open: F) -> (r: Result<
        Self,
        Error,
    >)
        requires
            config.bitrate_fits(),
            can_open(open),
        ensures
            r matches Err(Error::InvalidFramerate(n)) ==> n == 0,
            r matches Err(Error::InvalidFramerate(n)) <==> config.framerate == 0,
            r matches Err(Error::Codec(m)) ==> m@ == dimensions_message(
                config.width,
                config.height,
            ),
            r matches Err(Error::Codec(m)) <==> config.framerate != 0 && (config.width == 0
                || config.height == 0),
            !(r matches Err(Error::Ffmpeg(m))),
            r matches Err(Error::NoEncoder(tried)) ==> {
                &&& tried@ == join(candidates(config.kind), ", "@)
                &&& forall|j: int|
                    0 <= j < candidates(config.kind).len() ==> #[trigger] gave::<E, F>(
                        open,
                        candidates(config.kind)[j],
                        *config,
                        None,
                    )
            },
            r matches Err(Error::NoEncoder(_)) ==> none_opened::<E, F>(open, *config),
            r matches Ok(e) ==> {
                &&& exists|i: int|
                    {
                        &&& 0 <= i < candidates(config.kind).len()
                        &&& e.name@ == candidates(config.kind)[i]
                        &&& #[trigger] gave::<E, F>(
                            open,
                            candidates(config.kind)[i],
                            *config,
                            Some(e.codec),
                        )
                        &&& forall|j: int|
                            0 <= j < i ==> #[trigger] gave::<E, F>(
                                open,
                                candidates(config.kind)[j],
                                *config,
                                None,
                            )
                    }
                &&& e.width == config.width
                &&& e.height == config.height
                &&& e.scaler is None
                &&& e.frame_count == 0
                &&& e.keyframe_count == 0
            },
    {
        if config.framerate == 0 {
            return Err(Error::InvalidFramerate(0));
        }
        if config.width == 0 || config.height == 0 {
            return Err(Error::Codec(dimensions_text(config.width, config.height)));
        }
        let names = encoder_candidates(&config.kind);
        let mut i: usize = 0;
        while i < names.len()
            invariant
                i <= names@.len(),
                texts(names@) == candidates(config.kind),
                config.framerate != 0,
                config.width != 0,
                config.height != 0,
                config.bitrate_fits(),
                can_open(open),
                forall|j: int|
                    0 <= j < i ==> #[trigger] gave::<E, F>(
                        open,
                        candidates(config.kind)[j],
                        *config,
                        None,
                    ),
            decreases names@.len() - i,
        {
            let name = names[i].as_str();
            let settings = open_settings(name, config);
            assert(name@ == candidates(config.kind)[i as int]);
            let opened = open(name, &settings);
            assert(gave::<E, F>(open, candidates(config.kind)[i as int], *config, opened));
            match opened {
                Some(codec) => {
                    let ghost chosen = candidates(config.kind)[i as int];
                    assert(gave::<E, F>(open, chosen, *config, Some(codec)));
                    let encoder = Encoder {
                        codec,
                        scaler: None,
                        width: config.width,
                        height: config.height,
                        frame_count: 0,
                        name: names[i].clone(),
                        keyframe_count: 0,
                    };
                    assert(encoder.name@ == chosen);
                    assert(gave::<E, F>(open, chosen, *config, Some(encoder.codec)));
                    return Ok(encoder);
                },
                None => {},
            }
            i += 1;
        }
        Err(Error::NoEncoder(join_texts(&names, ", ")))
    }

    /// The name of the encoder in use, e.g. `"h264_videotoolbox"`.
    pub fn name(&self) -> (r: &str)
        ensures
            r@ == self.name@,
    {
        self.name.as_str()
    }

    /// The number of keyframes received so far.
    pub fn keyframe_count(&self) -> (r: u64)
        ensures
            r == self.keyframe_count,
    {
        self.keyframe_count
    }

    /// Whether a frame of this geometry needs a scaler other than the one in
    /// use.
    pub fn needs_scaler(&self, geometry: Geometry) -> (r: bool)
        ensures
            r == (self.scaler != Some(geometry)),
    {
        match self.scaler {
            Some(s) => s != geometry,
            None => true,
        }
    }

    /// A scaler for frames of this geometry is now in use.
    pub fn scaler_built(&mut self, geometry: Geometry)
        ensures
            *final(self) == (Encoder { scaler: Some(geometry), ..*old(self) }),
    {
        self.scaler = Some(geometry);
    }

    /// The timestamp of the next frame to encode.
    ///
    /// Frames are timed off their count, not off the clock of their source;
    /// the presentation timestamp is attached when they are published.
    pub fn stamp(&mut self) -> (pts: i64)
        requires
            old(self).frame_count < i64::MAX,
        ensures
            pts == old(self).frame_count,
            *final(self) == (Encoder {
                frame_count: (old(self).frame_count + 1) as i64,
                ..*old(self)
            }),
    {
        let pts: i64 = self.frame_count;
        self.frame_count = pts + 1;
        pts
    }

    /// What taking in what the codec gave does: the keyframes are counted, and
    /// the packets that have data are the result, unless something failed.
    pub open spec fn drained(
        self,
        after: Self,
        sent: Result<(), String>,
        packets: Seq<ReceivedPacket>,
        end: DrainEnd,
        r: Result<Vec<Bytes>, Error>,
    ) -> bool {
        match sent {
            Err(why) => after == self && r == Err::<Vec<Bytes>, Error>(Error::Ffmpeg(why)),
            Ok(_) => {
                &&& after == (Encoder {
                    keyframe_count: (self.keyframe_count + key_count(packets)) as u64,
                    ..self
                })
                &&& match end {
                    DrainEnd::Failed(why) => r == Err::<Vec<Bytes>, Error>(Error::Ffmpeg(why)),
                    _ => r matches Ok(out) && out@.map_values(|b: Bytes| contents(b)) == payloads(
                        packets,
                    ),
                }
            },
        }
    }

    /// Fills a frame with one tightly packed RGBA picture (`width * height * 4`
    /// bytes), to be encoded as a keyframe if that is asked for.
    ///
    /// `plane` is the plane of a frame of this size, whose rows are `stride`
    /// bytes apart. A buffer that is shorter than the picture is rejected.
    pub fn encode_rgba(
        &self,
        rgba: &[u8],
        width: u32,
        height: u32,
        keyframe: bool,
        stride: usize,
        plane: Vec<u8>,
    ) -> (r: Result<Picture, Error>)
        requires
            rgba_size(width, height) <= usize::MAX,
            rgba@.len() >= rgba_size(width, height) && height > 0 ==> (height - 1) * stride + width
                * 4 <= plane@.len(),
        ensures
            r is Ok <==> rgba@.len() >= rgba_size(width, height),
            r matches Ok(picture) ==> {
                &&& picture.plane@ == with_rows(
                    plane@,
                    rgba@,
                    width * 4,
                    stride as int,
                    height as nat,
                )
                &&& picture.width == width
                &&& picture.height == height
                &&& picture.keyframe == keyframe
            },
            r matches Err(e) ==> {
                &&& e matches Error::Codec(m)
                &&& m@ == short_message(rgba@.len(), width, height)
            },
    {
        match rgba_frame(rgba, width, height, stride, plane) {
            Ok(plane) => Ok(Picture { plane, width, height, keyframe }),
            Err(e) => Err(e),
        }
    }

    /// Takes in what the codec gave after a frame was sent: the packets, and how
    /// it ended.
    ///
    /// Each packet that has data becomes an Annex-B packet of the result.
    /// Waiting for more input and having reached the end are no errors.
    pub fn encode_frame(
        &mut self,
        sent: Result<(), String>,
        packets: &Vec<ReceivedPacket>,
        end: DrainEnd,
    ) -> (r: Result<Vec<Bytes>, Error>)
        requires
            old(self).keyframe_count + packets@.len() <= u64::MAX,
        ensures
            old(self).drained(*final(self), sent, packets@, end, r),
    {
        self.drain(sent, packets, end)
    }

    /// Takes in what the codec gave after the end was sent: the packets that it
    /// held back.
    pub fn finish(
        &mut self,
        sent: Result<(), String>,
        packets: &Vec<ReceivedPacket>,
        end: DrainEnd,
    ) -> (r: Result<Vec<Bytes>, Error>)
        requires
            old(self).keyframe_count + packets@.len() <= u64::MAX,
        ensures
            old(self).drained(*final(self), sent, packets@, end, r),
    {
        self.drain(sent, packets, end)
    }

    fn drain(
        &mut self,
        sent: Result<(), String>,
        packets: &Vec<ReceivedPacket>,
        end: DrainEnd,
    ) -> (r: Result<Vec<Bytes>, Error>)
        requires
            old(self).keyframe_count + packets@.len() <= u64::MAX,
        ensures
            old(self).drained(*final(self), sent, packets@, end, r),
    {
        match sent {
            Err(why) => {
                return Err(Error::Ffmpeg(why));
            },
            Ok(_) => {},
        }
        let mut out: Vec<Bytes> = Vec::new();
        let mut i: usize = 0;
        let ghost before = *self;
        while i < packets.len()
            invariant
                i <= packets@.len(),
                before.keyframe_count + packets@.len() <= u64::MAX,
                key_count(packets@.take(i as int)) <= i,
                *self == (Encoder {
                    keyframe_count: (before.keyframe_count + key_count(packets@.take(i as int))) as u64,
                    ..before
                }),
                out@.map_values(|b: Bytes| contents(b)) == payloads(packets@.take(i as int)),
            decreases packets@.len() - i,
        {
            let ghost now = packets@.take(i + 1);
            assert(now.drop_last() == packets@.take(i as int));
            assert(now.last() == packets@[i as int]);
            if packets[i].key {
                self.keyframe_count = self.keyframe_count + 1;
            }
            match &packets[i].data {
                Some(data) => {
                    let ghost had = out@.map_values(|b: Bytes| contents(b));
                    let packet = copy_from_slice(data.as_slice());
                    out.push(packet);
                    assert(out@.map_values(|b: Bytes| contents(b)) =~= had.push(data@));
                },
                None => {},
            }
            i += 1;
        }
        assert(packets@.take(packets@.len() as int) == packets@);
        match end {
            DrainEnd::Again => Ok(out),
            DrainEnd::Eof => Ok(out),
            DrainEnd::Failed(why) => Err(Error::Ffmpeg(why)),
        }
    }
}

/// A picture to be encoded.
#[derive(Debug)]
pub struct Picture {
    pub plane: Vec<u8>,
    pub width: u32,
    pub height: u32,
    /// Whether it has to become a keyframe.
    pub keyframe: bool,
}

/// A packet that the codec gave.
#[derive(Debug)]
pub struct ReceivedPacket {
    pub key: bool,
    pub data: Option<Vec<u8>>,
}

/// Why the codec gives no further packet.
#[derive(Debug)]
pub enum DrainEnd {
    /// It waits for more input.
    Again,
    /// It has reached the end.
    Eof,
    /// It failed.
    Failed(String),
}

/// The number of keyframes among the packets.
pub open spec fn key_count(packets: Seq<ReceivedPacket>) -> nat
    decreases packets.len(),
{
    if packets.len() == 0 {
        0
    } else {
        key_count(packets.drop_last()) + if packets.last().key {
            1nat
        } else {
            0nat
        }
    }
}

/// The data of the packets that have data, in order.
pub open spec fn payloads(packets: Seq<ReceivedPacket>) -> Seq<Seq<u8>>
    decreases packets.len(),
{
    if packets.len() == 0 {
        Seq::empty()
    } else {
        let before = payloads(packets.drop_last());
        match packets.last().data {
            Some(data) => before.push(data@),
            None => before,
        }
    }
}

// RGBA frames

/// `plane` with `data` written at `at`.
pub open spec fn overwrite(plane: Seq<u8>, at: int, data: Seq<u8>) -> Seq<u8> {
    plane.take(at) + data + plane.skip(at + data.len())
}

/// `plane` with the first `rows` rows of a tightly packed picture written to
/// it, one every `stride` bytes.
pub open spec fn with_rows(
    plane: Seq<u8>,
    rgba: Seq<u8>,
    row_bytes: int,
    stride: int,
    rows: nat,
) -> Seq<u8>
    decreases rows,
{
    if rows == 0 {
        plane
    } else {
        let y = rows - 1;
        overwrite(
            with_rows(plane, rgba, row_bytes, stride, y as nat),
            y * stride,
            rgba.subrange(y * row_bytes, y * row_bytes + row_bytes),
        )
    }
}

/// The number of bytes of a tightly packed RGBA picture.
pub open spec fn rgba_size(width: u32, height: u32) -> int {
    width * 4 * height
}

/// The message on a buffer that is too short for its picture.
pub open spec fn short_message(len: nat, width: u32, height: u32) -> Seq<char> {
    "RGBA buffer too small: "@ + decimal(len) + " < "@ + decimal(rgba_size(width, height) as nat)
        + " for "@ + decimal(width as nat) + "x"@ + decimal(height as nat)
}

fn short_text(len: usize, width: u32, height: u32) -> (r: String)
    requires
        rgba_size(width, height) <= usize::MAX,
    ensures
        r@ == short_message(len as nat, width, height),
{
    let ghost size = rgba_size(width, height);
    assert(size >= 0) by (nonlinear_arith)
        requires
            size == width * 4 * height,
    ;
    let expected: usize = packed_size(width, height);
    let mut out = joined("RGBA buffer too small: ", decimal_text(len as u64).as_str());
    out.append(" < ");
    out.append(decimal_text(expected as u64).as_str());
    out.append(" for ");
    out.append(decimal_text(width as u64).as_str());
    out.append("x");
    out.append(decimal_text(height as u64).as_str());
    out
}

fn packed_size(width: u32, height: u32) -> (r: usize)
    requires
        rgba_size(width, height) <= usize::MAX,
    ensures
        r == rgba_size(width, height),
{
    if height == 0 {
        assert(width * 4 * 0 == 0);
        return 0;
    }
    assert(width * 4 <= width * 4 * height) by (nonlinear_arith)
        requires
            height >= 1,
    ;
    let row: usize = width as usize * 4;
    row * height as usize
}

/// Writes a tightly packed RGBA picture into the plane of a frame, whose rows
/// are `stride` bytes apart.
///
/// A buffer that is shorter than the picture is rejected, and nothing is
/// written.
pub fn rgba_frame(rgba: &[u8], width: u32, height: u32, stride: usize, plane: Vec<u8>) -> (r: Result<
    Vec<u8>,
    Error,
>)
    requires
        rgba_size(width, height) <= usize::MAX,
        rgba@.len() >= rgba_size(width, height) && height > 0 ==> (height - 1) * stride + width * 4
            <= plane@.len(),
    ensures
        r is Ok <==> rgba@.len() >= rgba_size(width, height),
        r matches Ok(data) ==> data@ == with_rows(
            plane@,
            rgba@,
            width * 4,
            stride as int,
            height as nat,
        ),
        r matches Err(e) ==> {
            &&& e matches Error::Codec(m)
            &&& m@ == short_message(rgba@.len(), width, height)
        },
{
    let expected: usize = packed_size(width, height);
    if rgba.len() < expected {
        return Err(Error::Codec(short_text(rgba.len(), width, height)));
    }
    let mut plane = plane;
    let ghost start = plane@;
    assert(plane.len() <= usize::MAX && rgba.len() <= usize::MAX);
    if height == 0 {
        return Ok(plane);
    }
    assert(width * 4 <= width * 4 * height) by (nonlinear_arith)
        requires
            height >= 1,
    ;
    let row_bytes: usize = width as usize * 4;
    let mut y: usize = 0;
    while y < height as usize
        invariant
            y <= height,
            row_bytes == width * 4,
            rgba_size(width, height) <= rgba@.len(),
            (height - 1) * stride + row_bytes <= start.len() <= usize::MAX,
            rgba@.len() <= usize::MAX,
            plane@.len() == start.len(),
            plane@ == with_rows(start, rgba@, row_bytes as int, stride as int, y as nat),
        decreases height - y,
    {
        proof {
            assert(y * stride <= (height - 1) * stride) by (nonlinear_arith)
                requires
                    y <= height - 1,
                    stride >= 0,
            ;
            assert(y * row_bytes + row_bytes <= row_bytes * height) by (nonlinear_arith)
                requires
                    y + 1 <= height,
            ;
            assert(width * 4 * height == row_bytes * height);
            assert(y * row_bytes >= 0 && y * stride >= 0) by (nonlinear_arith);
        }
        let src: usize = y * row_bytes;
        let dst: usize = y * stride;
        let ghost before = plane@;
        let ghost row = rgba@.subrange(src as int, src + row_bytes);
        assert(overwrite(before, dst as int, row.take(0)) =~= before);
        let mut x: usize = 0;
        while x < row_bytes
            invariant
                x <= row_bytes,
                src + row_bytes <= rgba@.len() <= usize::MAX,
                dst + row_bytes <= before.len() <= usize::MAX,
                plane@.len() == before.len(),
                row == rgba@.subrange(src as int, src + row_bytes),
                plane@ == overwrite(before, dst as int, row.take(x as int)),
            decreases row_bytes - x,
        {
            plane.set(dst + x, rgba[src + x]);
            assert(plane@ =~= overwrite(before, dst as int, row.take(x + 1)));
            x += 1;
        }
        assert(row.take(row_bytes as int) =~= row);
        y += 1;
    }
    Ok(plane)
}

/// Where rows do not overlap, every byte of the picture is found in its place,
/// and what lies between the rows is untouched.
pub proof fn law_rows_land(
    plane: Seq<u8>,
    rgba: Seq<u8>,
    row_bytes: int,
    stride: int,
    rows: nat,
    y: int,
    x: int,
)
    requires
        0 <= row_bytes <= stride,
        rows > 0 ==> (rows - 1) * stride + row_bytes <= plane.len(),
        rows * row_bytes <= rgba.len(),
        0 <= y < rows,
        0 <= x < stride,
        y * stride + x < plane.len(),
    ensures
        with_rows(plane, rgba, row_bytes, stride, rows).len() == plane.len(),
        with_rows(plane, rgba, row_bytes, stride, rows)[y * stride + x] == (if x < row_bytes {
            rgba[y * row_bytes + x]
        } else {
            plane[y * stride + x]
        }),
{
    lemma_rows_at(plane, rgba, row_bytes, stride, rows, y, x);
}

proof fn lemma_rows_at(
    plane: Seq<u8>,
    rgba: Seq<u8>,
    row_bytes: int,
    stride: int,
    rows: nat,
    y: int,
    x: int,
)
    requires
        0 <= row_bytes <= stride,
        rows > 0 ==> (rows - 1) * stride + row_bytes <= plane.len(),
        rows * row_bytes <= rgba.len(),
        0 <= y,
        0 <= x < stride,
        y * stride + x < plane.len(),
    ensures
        with_rows(plane, rgba, row_bytes, stride, rows).len() == plane.len(),
        with_rows(plane, rgba, row_bytes, stride, rows)[y * stride + x] == (if y < rows && x
            < row_bytes {
            rgba[y * row_bytes + x]
        } else {
            plane[y * stride + x]
        }),
    decreases rows,
{
    if rows > 0 {
        let last = rows - 1;
        assert((last - 1) * stride == last * stride - stride) by (nonlinear_arith);
        assert(last * row_bytes + row_bytes == rows * row_bytes) by (nonlinear_arith)
            requires
                last == rows - 1,
        ;
        assert(last * stride >= 0 && last * row_bytes >= 0) by (nonlinear_arith)
            requires
                last >= 0,
                stride >= 0,
                row_bytes >= 0,
        ;
        lemma_rows_at(plane, rgba, row_bytes, stride, last as nat, y, x);
        if y < last {
            assert(y * stride + stride <= last * stride) by (nonlinear_arith)
                requires
                    y + 1 <= last,
                    stride >= 0,
            ;
        } else if y > last {
            assert(last * stride + stride <= y * stride) by (nonlinear_arith)
                requires
                    last + 1 <= y,
                    stride >= 0,
            ;
        }
    }
    assert(y * stride >= 0) by (nonlinear_arith)
        requires
            y >= 0,
            stride >= 0,
    ;
}

// Laws

/// Whether settings run at a number of frames per second: one tick of a
/// timestamp lasts as long as one frame.
pub open spec fn runs_at(settings: OpenSettings, framerate: int) -> bool {
    &&& settings.time_base.0 > 0
    &&& settings.frame_rate.1 > 0
    &&& settings.time_base.1 == framerate * settings.time_base.0
    &&& settings.frame_rate.0 == framerate * settings.frame_rate.1
}

/// Whether settings have an option of this value.
pub open spec fn has_option(settings: OpenSettings, name: Seq<char>, value: Seq<char>) -> bool {
    exists|i: int|
        0 <= i < settings.options@.len() && (#[trigger] settings.options@[i]).0@ == name
            && settings.options@[i].1@ == value
}

/// Whether settings are right for a configuration: the size and the framerate of
/// the output, its keyframe interval, no reordering, and the bitrate that is set
/// or else 7% of a bit per pixel.
pub open spec fn fit(settings: OpenSettings, config: Config) -> bool {
    let pixels = config.width * config.height * config.framerate;
    &&& settings.width == config.width
    &&& settings.height == config.height
    &&& config.framerate <= i32::MAX ==> runs_at(settings, config.framerate as int)
    &&& settings.gop == config.gop
    &&& settings.max_b_frames == 0
    &&& config.bitrate matches Some(bits) ==> bits <= usize::MAX ==> settings.bit_rate == bits
    &&& config.bitrate is None && pixels < 0x1_0000_0000_0000 && pixels * 7 / 100 <= usize::MAX ==> {
        &&& settings.bit_rate * 100 <= pixels * 7
        &&& pixels * 7 < settings.bit_rate * 100 + 100
    }
}

/// Settings that serve a configuration are right for it.
pub proof fn lemma_fit(settings: OpenSettings, name: Seq<char>, config: Config)
    requires
        settings.serve(name, config),
    ensures
        fit(settings, config),
        name == "libx264"@ ==> has_option(settings, "preset"@, "ultrafast"@) && has_option(
            settings,
            "tune"@,
            "zerolatency"@,
        ),
        name == "h264_videotoolbox"@ ==> has_option(settings, "realtime"@, "1"@) && has_option(
            settings,
            "allow_sw"@,
            "1"@,
        ),
        name != "libx264"@ && name != "h264_videotoolbox"@ ==> settings.options@.len() == 0,
{
    let pixels = config.width * config.height * config.framerate;
    assert(pixels >= 0) by (nonlinear_arith)
        requires
            pixels == config.width * config.height * config.framerate,
    ;
    if config.bitrate is None && pixels < 0x1_0000_0000_0000 {
        law_default_bitrate_is_seven_percent(pixels as nat);
    }
    let (base, rate) = (settings.time_base, settings.frame_rate);
    assert(config.framerate * base.0 == config.framerate && config.framerate * rate.1
        == config.framerate) by (nonlinear_arith)
        requires
            base.0 == 1,
            rate.1 == 1,
    ;
    let options = settings.options@;
    let views = options.map_values(|o: (String, String)| (o.0@, o.1@));
    assert(views.len() == options.len());
    reveal_strlit("libx264");
    reveal_strlit("h264_videotoolbox");
    assert("libx264"@.len() == 7 && "h264_videotoolbox"@.len() == 17);
    if name == "libx264"@ || name == "h264_videotoolbox"@ {
        assert(options.len() == 2);
        assert(views[0] == (options[0].0@, options[0].1@));
        assert(views[1] == (options[1].0@, options[1].1@));
    }
}

/// An encoder is opened for the framerate that is configured, whatever it is,
/// and for the size, the keyframe interval and the bitrate.
pub proof fn law_encoders_are_opened_as_configured(name: &str, config: &Config, r: OpenSettings)
    requires
        call_ensures(open_settings, (name, config), r),
    ensures
        fit(r, *config),
        name@ == "libx264"@ ==> has_option(r, "preset"@, "ultrafast"@) && has_option(
            r,
            "tune"@,
            "zerolatency"@,
        ),
        name@ == "h264_videotoolbox"@ ==> has_option(r, "realtime"@, "1"@) && has_option(
            r,
            "allow_sw"@,
            "1"@,
        ),
        name@ != "libx264"@ && name@ != "h264_videotoolbox"@ ==> r.options@.len() == 0,
{
    lemma_fit(r, name@, *config);
}

/// Configurations of different framerates get different settings, and the
/// encoder's name makes no difference to them.
pub proof fn law_framerates_are_told_apart(
    names: (&str, &str),
    configs: (&Config, &Config),
    r: (OpenSettings, OpenSettings),
)
    requires
        call_ensures(open_settings, (names.0, configs.0), r.0),
        call_ensures(open_settings, (names.1, configs.1), r.1),
        configs.0.framerate <= i32::MAX,
        configs.1.framerate <= i32::MAX,
    ensures
        configs.0.framerate == configs.1.framerate <==> r.0.time_base == r.1.time_base,
        configs.0.framerate == configs.1.framerate <==> r.0.frame_rate == r.1.frame_rate,
{
    lemma_fit(r.0, names.0@, *configs.0);
    lemma_fit(r.1, names.1@, *configs.1);
}

/// A configuration has the size and the framerate that it is made for, a
/// keyframe every two seconds, and leaves the rest open.
pub proof fn law_keyframes_come_every_two_seconds(
    width: u32,
    height: u32,
    framerate: u32,
    r: Config,
)
    requires
        call_ensures(Config::new, (width, height, framerate), r),
    ensures
        r.width == width,
        r.height == height,
        r.framerate == framerate,
        r.bitrate is None,
        r.kind is Auto,
        r.gop > 0,
        0 < framerate && framerate + framerate <= u32::MAX ==> r.gop == framerate + framerate,
        framerate + framerate > u32::MAX ==> r.gop == u32::MAX,
{
}

/// The bitrate is the one that is set, and otherwise 7% of a bit per pixel.
pub proof fn law_bitrate_follows_the_pixels(config: &Config, r: u64)
    requires
        call_ensures(Config::resolved_bitrate, (config,), r),
        config.width * config.height * config.framerate < 0x1_0000_0000_0000,
    ensures
        config.bitrate matches Some(bits) ==> r == bits,
        config.bitrate is None ==> r * 100 <= config.width * config.height * config.framerate * 7
            < r * 100 + 100,
{
    let pixels = config.width * config.height * config.framerate;
    assert(pixels >= 0) by (nonlinear_arith)
        requires
            pixels == config.width * config.height * config.framerate,
    ;
    law_default_bitrate_is_seven_percent(pixels as nat);
}

/// Whether a name is that of a software encoder.
pub open spec fn is_software(name: Seq<char>) -> bool {
    name == "libx264"@ || name == "h264"@
}

/// Hardware is tried before software, unless one of the two or a single encoder
/// is asked for; then nothing else is tried.
pub proof fn law_hardware_comes_first(
    named: &Kind,
    name: String,
    kinds: (&Kind, &Kind, &Kind),
    r: (Vec<String>, Vec<String>, Vec<String>, Vec<String>),
    i: int,
)
    requires
        *named == Kind::Named(name),
        kinds.0 is Auto,
        kinds.1 is Hardware,
        kinds.2 is Software,
        call_ensures(encoder_candidates, (kinds.0,), r.0),
        call_ensures(encoder_candidates, (kinds.1,), r.1),
        call_ensures(encoder_candidates, (kinds.2,), r.2),
        call_ensures(encoder_candidates, (named,), r.3),
    ensures
        texts(r.0@) == texts(r.1@) + texts(r.2@),
        texts(r.2@) == seq!["libx264"@, "h264"@],
        texts(r.3@) == seq![name@],
        r.1@.len() == 6,
        0 <= i < r.1@.len() ==> !is_software(r.1@[i]@),
        texts(r.1@).contains("h264_videotoolbox"@),
        texts(r.1@).contains("h264_nvenc"@),
        texts(r.1@).contains("h264_qsv"@),
        texts(r.1@).contains("h264_vaapi"@),
        texts(r.1@).contains("h264_amf"@),
        texts(r.1@).contains("h264_v4l2m2m"@),
{
    lemma_hardware_is_not_software();
    let h = texts(r.1@);
    assert(h[0] == "h264_videotoolbox"@ && h[1] == "h264_nvenc"@ && h[2] == "h264_qsv"@ && h[3]
        == "h264_vaapi"@ && h[4] == "h264_amf"@ && h[5] == "h264_v4l2m2m"@);
    if 0 <= i < r.1@.len() {
        assert(r.1@[i]@ == h[i]);
    }
}

proof fn lemma_hardware_is_not_software()
    ensures
        forall|i: int| 0 <= i < 6 ==> !is_software(#[trigger] hardware_encoders()[i]),
{
    reveal_strlit("h264_videotoolbox");
    reveal_strlit("h264_nvenc");
    reveal_strlit("h264_qsv");
    reveal_strlit("h264_vaapi");
    reveal_strlit("h264_amf");
    reveal_strlit("h264_v4l2m2m");
    reveal_strlit("libx264");
    reveal_strlit("h264");
    let h = hardware_encoders();
    assert("libx264"@.len() == 7 && "h264"@.len() == 4 && "libx264"@[0] == 'l');
    assert(h[0].len() == 17 && h[1].len() == 10 && h[2].len() == 8 && h[3].len() == 10 && h[4].len()
        == 8 && h[5].len() == 12);
}

/// Whether `open` was asked for this encoder with settings that are right for the
/// configuration, and gave `r`.
pub open spec fn asked<E, F: Fn(&str, &OpenSettings) -> Option<E>>(
    open: F,
    name: Seq<char>,
    config: Config,
    r: Option<E>,
) -> bool {
    exists|n: &str, settings: &OpenSettings|
        n@ == name && fit(*settings, config) && #[trigger] call_ensures(open, (n, settings), r)
}

proof fn lemma_asked<E, F: Fn(&str, &OpenSettings) -> Option<E>>(
    open: F,
    name: Seq<char>,
    config: Config,
    r: Option<E>,
)
    requires
        gave::<E, F>(open, name, config, r),
    ensures
        asked::<E, F>(open, name, config, r),
{
    let (n, s) = choose|n: &str, s: &OpenSettings|
        n@ == name && s.serve(name, config) && #[trigger] call_ensures(open, (n, s), r);
    lemma_fit(*s, name, config);
}

/// The encoder in use is one that was asked for with settings that are right for
/// the configuration, and opened. A named one is the one of that name; where
/// software is asked for it is a software encoder, and where hardware is, it is
/// none. Software stands in only where all hardware encoders were asked first and
/// none opened. Without frames or pixels nothing is opened.
pub proof fn law_the_first_encoder_that_opens_is_used<
    E,
    F: Fn(&str, &OpenSettings) -> Option<E>,
>(config: &Config, open: F, r: Result<Encoder<E>, Error>, h: int)
    requires
        call_ensures(Encoder::<E>::new::<F>, (config, open), r),
        0 <= h < 6,
    ensures
        config.framerate == 0 || config.width == 0 || config.height == 0 ==> r is Err,
        r matches Err(e) ==> (e is InvalidFramerate <==> config.framerate == 0),
        r matches Ok(encoder) ==> {
            &&& asked::<E, F>(open, encoder.name@, *config, Some(encoder.codec))
            &&& encoder.width == config.width
            &&& encoder.height == config.height
            &&& encoder.frame_count == 0
            &&& encoder.keyframe_count == 0
            &&& encoder.scaler is None
            &&& config.kind matches Kind::Named(name) ==> encoder.name@ == name@
            &&& config.kind is Software ==> is_software(encoder.name@)
            &&& config.kind is Hardware ==> !is_software(encoder.name@)
            &&& config.kind is Auto && is_software(encoder.name@) ==> asked::<E, F>(
                open,
                hardware_encoders()[h],
                *config,
                None,
            )
        },
        r matches Err(Error::NoEncoder(_)) ==> {
            &&& config.kind matches Kind::Named(name) ==> asked::<E, F>(open, name@, *config, None)
            &&& config.kind is Software ==> asked::<E, F>(open, "libx264"@, *config, None)
                && asked::<E, F>(open, "h264"@, *config, None)
            &&& config.kind is Hardware || config.kind is Auto ==> asked::<E, F>(
                open,
                hardware_encoders()[h],
                *config,
                None,
            )
        },
{
    let all = candidates(config.kind);
    lemma_hardware_is_not_software();
    match r {
        Ok(encoder) => {
            let i = choose|i: int|
                {
                    &&& 0 <= i < all.len()
                    &&& encoder.name@ == all[i]
                    &&& #[trigger] gave::<E, F>(open, all[i], *config, Some(encoder.codec))
                    &&& forall|j: int|
                        0 <= j < i ==> #[trigger] gave::<E, F>(open, all[j], *config, None)
                };
            lemma_asked::<E, F>(open, all[i], *config, Some(encoder.codec));
            if config.kind is Auto && is_software(encoder.name@) {
                if i < 6 {
                    assert(all[i] == hardware_encoders()[i]);
                    assert(false);
                }
                assert(all[h] == hardware_encoders()[h]);
                assert(gave::<E, F>(open, all[h], *config, None));
                lemma_asked::<E, F>(open, all[h], *config, None);
            }
        },
        Err(Error::NoEncoder(_)) => {
            assert(none_opened::<E, F>(open, *config));
            assert forall|j: int| 0 <= j < all.len() implies asked::<E, F>(
                open,
                #[trigger] all[j],
                *config,
                None,
            ) by {
                assert(gave::<E, F>(open, candidates(config.kind)[j], *config, None));
                lemma_asked::<E, F>(open, all[j], *config, None);
            }
            match config.kind {
                Kind::Named(name) => {
                    assert(all[0] == name@);
                },
                Kind::Software => {
                    assert(all[0] == "libx264"@);
                    assert(all[1] == "h264"@);
                },
                _ => {
                    assert(all[h] == hardware_encoders()[h]);
                },
            }
        },
        _ => {},
    }
}

/// Every byte of a picture is found in its place, and nothing else is changed; a
/// picture that is too short is turned down.
pub proof fn law_pictures_are_copied(
    rgba: &[u8],
    width: u32,
    height: u32,
    stride: usize,
    plane: Vec<u8>,
    r: Result<Vec<u8>, Error>,
    y: int,
    x: int,
)
    requires
        call_ensures(rgba_frame, (rgba, width, height, stride, plane), r),
        width * 4 <= stride,
        height > 0 ==> (height - 1) * stride + width * 4 <= plane@.len(),
        0 <= y < height,
        0 <= x < stride,
        y * stride + x < plane@.len(),
    ensures
        r is Ok <==> rgba@.len() >= width * 4 * height,
        r matches Err(e) ==> e is Codec,
        r matches Ok(data) ==> {
            &&& data@.len() == plane@.len()
            &&& x < width * 4 ==> data@[y * stride + x] == rgba@[y * (width * 4) + x]
            &&& x >= width * 4 ==> data@[y * stride + x] == plane@[y * stride + x]
        },
{
    if rgba@.len() >= width * 4 * height {
        let row = width * 4;
        assert(height * row == width * 4 * height) by (nonlinear_arith)
            requires
                row == width * 4,
        ;
        law_rows_land(plane@, rgba@, row, stride as int, height as nat, y, x);
    }
}

/// A picture that is handed to the codec is the one that was given, of its size,
/// and a keyframe exactly if that was asked for.
pub proof fn law_pictures_are_handed_on<E>(
    encoder: &Encoder<E>,
    rgba: &[u8],
    width: u32,
    height: u32,
    keyframe: bool,
    stride: usize,
    plane: Vec<u8>,
    r: Result<Picture, Error>,
    y: int,
    x: int,
)
    requires
        call_ensures(
            Encoder::<E>::encode_rgba,
            (encoder, rgba, width, height, keyframe, stride, plane),
            r,
        ),
        width * 4 <= stride,
        height > 0 ==> (height - 1) * stride + width * 4 <= plane@.len(),
        0 <= y < height,
        0 <= x < width * 4,
        y * stride + x < plane@.len(),
    ensures
        r is Ok <==> rgba@.len() >= width * 4 * height,
        r matches Ok(picture) ==> {
            &&& picture.width == width
            &&& picture.height == height
            &&& picture.keyframe <==> keyframe
            &&& picture.plane@[y * stride + x] == rgba@[y * (width * 4) + x]
        },
{
    if rgba@.len() >= width * 4 * height {
        let row = width * 4;
        assert(height * row == width * 4 * height) by (nonlinear_arith)
            requires
                row == width * 4,
        ;
        law_rows_land(plane@, rgba@, row, stride as int, height as nat, y, x);
    }
}

proof fn lemma_packets(packets: Seq<ReceivedPacket>)
    ensures
        payloads(packets) == packets.filter_map(
            |p: ReceivedPacket|
                match p.data {
                    Some(data) => Some(data@),
                    None => None,
                },
        ),
        key_count(packets) == packets.filter(|p: ReceivedPacket| p.key).len(),
    decreases packets.len(),
{
    reveal(Seq::filter);
    let f = |p: ReceivedPacket|
        match p.data {
            Some(data) => Some(data@),
            None => None,
        };
    if packets.len() > 0 {
        lemma_packets(packets.drop_last());
        assert(payloads(packets) =~= packets.filter_map(f));
    } else {
        assert(payloads(packets) =~= packets.filter_map(f));
    }
}

/// Whether what the codec gave was taken in: all packets that have data come out,
/// in order and unchanged, and every keyframe is counted. A failure is told of by
/// what failed.
pub open spec fn taken_in<E>(
    before: Encoder<E>,
    after: Encoder<E>,
    sent: Result<(), String>,
    packets: Seq<ReceivedPacket>,
    end: DrainEnd,
    r: Result<Vec<Bytes>, Error>,
) -> bool {
    &&& r is Ok <==> sent is Ok && !(end is Failed)
    &&& r matches Ok(out) ==> out@.map_values(|b: Bytes| contents(b)) == packets.filter_map(
        |p: ReceivedPacket|
            match p.data {
                Some(data) => Some(data@),
                None => None,
            },
    )
    &&& sent is Ok ==> after.keyframe_count == before.keyframe_count + packets.filter(
        |p: ReceivedPacket| p.key,
    ).len()
    &&& sent matches Err(why) ==> (r matches Err(Error::Ffmpeg(told)) && told == why)
        && after.keyframe_count == before.keyframe_count
    &&& sent is Ok ==> (end matches DrainEnd::Failed(why) ==> (r matches Err(Error::Ffmpeg(told))
        && told == why))
    &&& after.frame_count == before.frame_count
    &&& after.codec == before.codec
    &&& after.name == before.name
    &&& after.scaler == before.scaler
    &&& after.width == before.width
    &&& after.height == before.height
}

/// What the codec gives after a frame, and what it held back until the end, comes
/// out complete and in order, and its keyframes are counted.
pub proof fn law_packets_come_out<E>(
    encoder: &mut Encoder<E>,
    sent: Result<(), String>,
    packets: &Vec<ReceivedPacket>,
    end: DrainEnd,
    r: Result<Vec<Bytes>, Error>,
)
    requires
        old(encoder).keyframe_count + packets@.len() <= u64::MAX,
        call_ensures(Encoder::<E>::encode_frame, (encoder, sent, packets, end), r)
            || call_ensures(Encoder::<E>::finish, (encoder, sent, packets, end), r),
    ensures
        taken_in(*old(encoder), *final(encoder), sent, packets@, end, r),
{
    lemma_packets(packets@);
    packets@.lemma_filter_len(|p: ReceivedPacket| p.key);
}

/// Frames are stamped by their count: each stamp is one more than the last.
pub proof fn law_stamps_count_frames<E>(encoder: &mut Encoder<E>, pts: i64)
    requires
        old(encoder).frame_count < i64::MAX,
        call_ensures(Encoder::<E>::stamp, (encoder,), pts),
    ensures
        pts == old(encoder).frame_count,
        final(encoder).frame_count == pts + 1,
        final(encoder).keyframe_count == old(encoder).keyframe_count,
        final(encoder).codec == old(encoder).codec,
{
}

/// A scaler is built anew exactly if the last one was built for other frames.
pub proof fn law_scalers_are_reused<E>(encoder: &mut Encoder<E>, geometry: Geometry, other: Geometry, r: bool)
    requires
        call_ensures(Encoder::<E>::scaler_built, (encoder, geometry), ()),
        call_ensures(Encoder::<E>::needs_scaler, (final(encoder), other), r),
    ensures
        r <==> geometry != other,
{
}

} // verus!
