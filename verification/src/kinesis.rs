//! Per-glyph animation effects and the label that carries them.
use crate::color::{opaque, Color};
use vstd::arithmetic::div_mod::{
    lemma_add_mod_noop,
    lemma_mod_bound,
    lemma_mod_sub_multiples_vanish,
    lemma_small_mod,
};
use vstd::arithmetic::mul::lemma_mul_is_distributive_add_other_way;
use vstd::prelude::*;

verus! {

/// Vertical sine displacement of the glyphs. The float parameters are carried
/// as their IEEE-754 single-precision bit patterns.
#[derive(Clone, Copy, PartialEq, Eq, Structural, Debug)]
pub struct SineWavify {
    pub amp_bits: u32,
    pub x_0_bits: u32,
    pub x_1_bits: u32,
    pub live: bool,
    pub live_dampen_bits: u32,
}

/// Random jitter of whole glyphs. This is way too dependent on fps and screen
/// dimensions and resolution to figure out good defaults.
#[derive(Clone, Copy, PartialEq, Eq, Structural, Debug)]
pub struct ShakeLetters {
    pub max_distortion: i32,
    pub dampen: u64,
}

/// Glyphs coloured in turn by the colours of a rainbow.
#[derive(Debug)]
pub struct Gay {
    pub rainbow: Vec<Color>,
    pub live: bool,
    pub live_dampen: u64,
}

/// One animation applied to the glyphs of a label.
#[derive(Debug)]
#[allow(inconsistent_fields)]
pub enum KineticEffect {
    SineWavify { params: SineWavify },
    ShakeLetters { params: ShakeLetters },
    Gay { params: Gay },
}

/// The mathematical content of an effect.
pub enum EffectModel {
    SineWavify(SineWavify),
    ShakeLetters(ShakeLetters),
    Gay(Seq<Color>, bool, u64),
}

impl View for KineticEffect {
    type V = EffectModel;

    open spec fn view(&self) -> EffectModel {
        match self {
            KineticEffect::SineWavify { params } => EffectModel::SineWavify(*params),
            KineticEffect::ShakeLetters { params } => EffectModel::ShakeLetters(*params),
            KineticEffect::Gay { params } => EffectModel::Gay(
                params.rainbow@,
                params.live,
                params.live_dampen,
            ),
        }
    }
}

/// Bit pattern of the single-precision float 10.0.
pub const AMP_DEFAULT_BITS: u32 = 0x4120_0000u32;

/// Bit pattern of the single-precision float 2π.
pub const TWO_PI_BITS: u32 = 0x40C9_0FDBu32;

/// Bit pattern of the single-precision float 1000.0.
pub const SINE_DAMPEN_DEFAULT_BITS: u32 = 0x447A_0000u32;

/// The default sine parameters: amplitude 10, one full period across the
/// label, animated, slowed down by a factor of 1000.
pub open spec fn sine_default() -> SineWavify {
    SineWavify {
        amp_bits: AMP_DEFAULT_BITS,
        x_0_bits: 0,
        x_1_bits: TWO_PI_BITS,
        live: true,
        live_dampen_bits: SINE_DAMPEN_DEFAULT_BITS,
    }
}

/// The default jitter: at most 10 pixels, active 5 frames out of 8.
pub open spec fn shake_default() -> ShakeLetters {
    ShakeLetters { max_distortion: 10, dampen: 8 }
}

/// The default rainbow: red, orange, yellow, green, blue, indigo, violet.
pub open spec fn rainbow_default() -> Seq<Color> {
    seq![
        opaque(255, 0, 0),
        opaque(255, 127, 0),
        opaque(255, 255, 0),
        opaque(0, 255, 0),
        opaque(0, 0, 255),
        opaque(63, 0, 127),
        opaque(127, 0, 255),
    ]
}

/// The model of each effect with its default parameters, by variant index.
pub open spec fn effect_default_model(index: int) -> EffectModel {
    if index == 1 {
        EffectModel::ShakeLetters(shake_default())
    } else if index == 2 {
        EffectModel::Gay(rainbow_default(), true, 20)
    } else {
        EffectModel::SineWavify(sine_default())
    }
}

impl SineWavify {
    /// The default sine parameters.
    pub fn default() -> (s: SineWavify)
        ensures
            s == sine_default(),
    {
        SineWavify {
            amp_bits: AMP_DEFAULT_BITS,
            x_0_bits: 0,
            x_1_bits: TWO_PI_BITS,
            live: true,
            live_dampen_bits: SINE_DAMPEN_DEFAULT_BITS,
        }
    }
}

impl ShakeLetters {
    /// The default jitter parameters.
    pub fn default() -> (s: ShakeLetters)
        ensures
            s == shake_default(),
    {
        ShakeLetters { max_distortion: 10, dampen: 8 }
    }
}

impl Gay {
    /// The default rainbow, animated with a dampening of 20 frames.
    pub fn default() -> (g: Gay)
        ensures
            g.rainbow@ == rainbow_default(),
            g.live,
            g.live_dampen == 20,
    {
        let mut rainbow: Vec<Color> = Vec::new();
        rainbow.push(Color::from_rgb(255, 0, 0));
        rainbow.push(Color::from_rgb(255, 127, 0));
        rainbow.push(Color::from_rgb(255, 255, 0));
        rainbow.push(Color::from_rgb(0, 255, 0));
        rainbow.push(Color::from_rgb(0, 0, 255));
        rainbow.push(Color::from_rgb(63, 0, 127));
        rainbow.push(Color::from_rgb(127, 0, 255));
        assert(rainbow@ =~= rainbow_default());
        Gay { rainbow, live: true, live_dampen: 20 }
    }

    /// A copy of these parameters.
    pub fn duplicate(&self) -> (g: Gay)
        ensures
            g.rainbow@ == self.rainbow@,
            g.live == self.live,
            g.live_dampen == self.live_dampen,
    {
        let mut rainbow: Vec<Color> = Vec::new();
        let n = self.rainbow.len();
        let mut i: usize = 0;
        while i < n
            invariant
                n == self.rainbow@.len(),
                i <= n,
                rainbow@ == self.rainbow@.take(i as int),
            decreases n - i,
        {
            rainbow.push(self.rainbow[i]);
            i = i + 1;
            assert(rainbow@ =~= self.rainbow@.take(i as int));
        }
        assert(self.rainbow@.take(n as int) =~= self.rainbow@);
        Gay { rainbow, live: self.live, live_dampen: self.live_dampen }
    }
}

impl KineticEffect {
    /// The default effect: a sine wave with default parameters.
    pub fn default() -> (e: KineticEffect)
        ensures
            e@ == EffectModel::SineWavify(sine_default()),
    {
        KineticEffect::SineWavify { params: SineWavify::default() }
    }

    /// The effect with default parameters whose variant has the given index
    /// (sine wave, shaking letters, rainbow); any other index gives the
    /// default effect.
    pub fn from_variant_index(index: usize) -> (e: KineticEffect)
        ensures
            e@ == effect_default_model(index as int),
    {
        if index == 1 {
            KineticEffect::ShakeLetters { params: ShakeLetters::default() }
        } else if index == 2 {
            KineticEffect::Gay { params: Gay::default() }
        } else {
            KineticEffect::SineWavify { params: SineWavify::default() }
        }
    }

    /// An effect variant drawn from the caller's generator, with default
    /// parameters.
    pub fn random(rng: &mut nanorand::WyRand) -> (e: KineticEffect)
        ensures
            exists|i: int| 0 <= i < 3 && e@ == effect_default_model(i),
    {
        let index = random_below(rng, 0, 3);
        let e = KineticEffect::from_variant_index(index);
        assert(e@ == effect_default_model(index as int));
        e
    }

    /// A copy of this effect.
    pub fn duplicate(&self) -> (e: KineticEffect)
        ensures
            e@ == self@,
    {
        match self {
            KineticEffect::SineWavify { params } => KineticEffect::SineWavify { params: *params },
            KineticEffect::ShakeLetters { params } => KineticEffect::ShakeLetters {
                params: *params,
            },
            KineticEffect::Gay { params } => KineticEffect::Gay { params: params.duplicate() },
        }
    }
}

/// The generator `nanorand::WyRand`, carried through as an opaque value.
#[verifier::external_type_specification]
#[verifier::external_body]
pub struct ExWyRand(nanorand::WyRand);

/// Calls `nanorand::Rng::generate_range` with the range `lo..hi` on the
/// caller's generator, which it advances. The contract claims what the
/// crate's range reduction gives: a value in `lo..hi` when that range is not
/// empty, and `lo` itself when it is empty. Which value comes out depends on
/// the generator's state and is not stated, nor how the state moves on.
#[verifier::external_body]
fn random_below(rng: &mut nanorand::WyRand, lo: usize, hi: usize) -> (r: usize)
    requires
        lo <= hi,
    ensures
        lo < hi ==> lo <= r < hi,
        lo == hi ==> r == lo,
{
    nanorand::Rng::generate_range(rng, lo..hi)
}

/// Calls `nanorand::Rng::generate_range` with the `i32` range `lo..hi` on
/// the thread-local generator `nanorand::tls_rng()`. The crate maps a signed
/// range onto the unsigned one and back by adding `i32::MAX`, which shifts
/// every result down by one: the contract claims a value in `lo - 1 ..= hi - 2`.
/// The crate panics on an empty range, which `requires` leaves out. Which
/// value comes out depends on the generator's state and is not stated.
#[verifier::external_body]
fn tls_random_i32(lo: i32, hi: i32) -> (r: i32)
    requires
        i32::MIN < lo < hi,
    ensures
        lo - 1 <= r <= hi - 2,
{
    nanorand::Rng::generate_range(&mut nanorand::tls_rng(), lo..hi)
}

/// A glyph's jitter: a vertical and a horizontal shift, each drawn from the
/// generator's range for `0..max` (that is `-1..=max - 2`), one of the two
/// negated.
pub open spec fn is_jitter(o: (i32, i32), max: i32) -> bool {
    ||| (2 - max <= o.0 <= 1 && -1 <= o.1 <= max - 2)
    ||| (-1 <= o.0 <= max - 2 && 2 - max <= o.1 <= 1)
}

/// Whether glyphs jitter in the given frame.
pub open spec fn shaking(frame: u64, dampen: u64) -> bool {
    frame % dampen < 5
}

/// A glyph's shift from its three draws: a vertical and a horizontal
/// amount, and a coin that decides which of the two is negated.
pub open spec fn jitter_of(d: (i32, i32, i32)) -> (i32, i32) {
    if d.2 > 50 {
        ((-d.0) as i32, d.1)
    } else {
        (d.0, (-d.1) as i32)
    }
}

/// The shifts of the vertices of a label's mesh, four vertices to a glyph,
/// from the draws made for each glyph; where the letters do not shake in
/// this frame, nothing moves.
pub fn jitter_from_draws(draws: &Vec<(i32, i32, i32)>, vertex_count: usize, shake: bool) -> (offsets: Vec<(i32, i32)>)
    requires
        shake ==> draws@.len() * 4 >= vertex_count,
        forall|k: int| 0 <= k < draws@.len() ==> #[trigger] draws@[k].0 > i32::MIN && draws@[k].1 > i32::MIN,
    ensures
        offsets@.len() == vertex_count,
        forall|i: int|
            0 <= i < vertex_count ==> #[trigger] offsets@[i] == if shake {
                jitter_of(draws@[i / 4])
            } else {
                (0i32, 0i32)
            },
{
    let mut out: Vec<(i32, i32)> = Vec::new();
    let mut vertical: i32 = 0;
    let mut horizontal: i32 = 0;
    for i in 0..vertex_count
        invariant
            out@.len() == i,
            shake ==> draws@.len() * 4 >= vertex_count,
            forall|k: int| 0 <= k < draws@.len() ==> #[trigger] draws@[k].0 > i32::MIN && draws@[k].1 > i32::MIN,
            i > 0 ==> (vertical, horizontal) == (if shake {
                jitter_of(draws@[(i - 1) / 4])
            } else {
                (0i32, 0i32)
            }),
            i == 0 ==> vertical == 0 && horizontal == 0,
            forall|j: int|
                0 <= j < i ==> #[trigger] out@[j] == if shake {
                    jitter_of(draws@[j / 4])
                } else {
                    (0i32, 0i32)
                },
    {
        if i % 4 == 0 && shake {
            let (a, b, coin) = draws[i / 4];
            if coin > 50 {
                vertical = -a;
                horizontal = b;
            } else {
                vertical = a;
                horizontal = -b;
            }
        } else if shake {
            assert(i / 4 == (i - 1) / 4);
        }
        out.push((vertical, horizontal));
    }
    out
}

/// The shifts that the jitter effect gives the vertices of a label's mesh in
/// one frame, four vertices to a glyph. In the frames in which the letters
/// shake, every glyph gets a jitter of its own, drawn from the thread-local
/// generator; in the others nothing moves.
pub fn shake_offsets(params: ShakeLetters, vertex_count: usize, frame: u64) -> (offsets: Vec<(i32, i32)>)
    requires
        vertex_count > 0 ==> params.dampen > 0,
        vertex_count > 0 && params.dampen > 0 && shaking(frame, params.dampen)
            ==> params.max_distortion >= 1,
    ensures
        offsets@.len() == vertex_count,
        forall|i: int| 0 <= i < vertex_count ==> #[trigger] offsets@[i] == offsets@[i - i % 4],
        forall|i: int|
            0 <= i < vertex_count ==> if shaking(frame, params.dampen) {
                is_jitter(#[trigger] offsets@[i], params.max_distortion)
            } else {
                offsets@[i] == (0i32, 0i32)
            },
{
    let shake = vertex_count > 0 && frame % params.dampen < 5;
    let mut draws: Vec<(i32, i32, i32)> = Vec::new();
    if shake {
        let glyphs = vertex_count / 4 + if vertex_count % 4 == 0 {
            0
        } else {
            1
        };
        assert(glyphs * 4 >= vertex_count);
        for k in 0..glyphs
            invariant
                draws@.len() == k,
                params.max_distortion >= 1,
                forall|m: int|
                    0 <= m < k ==> -1 <= #[trigger] draws@[m].0 <= params.max_distortion - 2 && -1
                        <= draws@[m].1 <= params.max_distortion - 2 && -1 <= draws@[m].2 <= 98,
        {
            let a = tls_random_i32(0, params.max_distortion);
            let b = tls_random_i32(0, params.max_distortion);
            let coin = tls_random_i32(0, 100);
            draws.push((a, b, coin));
        }
        assert(forall|k: int|
            0 <= k < draws@.len() ==> #[trigger] draws@[k].0 > i32::MIN && draws@[k].1 > i32::MIN);
    }
    proof {
        if shake {
            assert(draws@.len() * 4 >= vertex_count);
        }
    }
    let out = jitter_from_draws(&draws, vertex_count, shake);
    proof {
        assert forall|i: int| 0 <= i < vertex_count implies #[trigger] out@[i] == out@[i - i % 4] by {
            assert(i / 4 == (i - i % 4) / 4);
            assert(out@[i - i % 4] == if shake {
                jitter_of(draws@[(i - i % 4) / 4])
            } else {
                (0i32, 0i32)
            });
        }
        assert forall|i: int| 0 <= i < vertex_count implies if shaking(frame, params.dampen) {
            is_jitter(#[trigger] out@[i], params.max_distortion)
        } else {
            out@[i] == (0i32, 0i32)
        } by {
            if shake {
                let d = draws@[i / 4];
                assert(-1 <= d.0 <= params.max_distortion - 2 && -1 <= d.1 <= params.max_distortion - 2);
                assert(out@[i] == jitter_of(d));
            }
        }
    }
    out
}

/// How far the rainbow turns before each glyph: not at all when it stands
/// still, else by one to eight steps that change with the frame.
pub open spec fn rainbow_skip(live: bool, live_dampen: u64, frame: u64) -> int {
    if live {
        (frame / live_dampen) % 8 + 1
    } else {
        0
    }
}

/// The position in the rainbow of glyph `q`'s colour, for `n` colours.
pub open spec fn rainbow_index(q: int, skip: int, n: int) -> int {
    (q * (skip + 1) + skip) % n
}

/// `(a + b) % n`, for `a` and `b` below `n`, without overflow.
fn add_mod(a: usize, b: usize, n: usize) -> (r: usize)
    requires
        a < n,
        b < n,
    ensures
        r == (a + b) % (n as int),
{
    if a >= n - b {
        proof {
            lemma_mod_sub_multiples_vanish(a + b, n as int);
            lemma_small_mod((a + b - n) as nat, n as nat);
        }
        a - (n - b)
    } else {
        proof {
            lemma_small_mod((a + b) as nat, n as nat);
        }
        a + b
    }
}

/// The colours that the rainbow effect gives the vertices of a label's mesh
/// in one frame, four vertices to a glyph: the glyphs take the rainbow's
/// colours in turn, from the start and round again, turning it further
/// before each glyph while the rainbow is animated.
pub fn rainbow_colours(params: &Gay, vertex_count: usize, frame: u64) -> (colours: Vec<Color>)
    requires
        vertex_count > 0 ==> params.rainbow@.len() > 0,
        vertex_count > 0 && params.live ==> params.live_dampen > 0,
    ensures
        colours@.len() == vertex_count,
        forall|i: int|
            0 <= i < vertex_count ==> #[trigger] colours@[i] == params.rainbow@[rainbow_index(
                i / 4,
                rainbow_skip(params.live, params.live_dampen, frame),
                params.rainbow@.len() as int,
            )],
{
    let mut out: Vec<Color> = Vec::new();
    if vertex_count == 0 {
        return out;
    }
    let n = params.rainbow.len();
    let ghost skip = rainbow_skip(params.live, params.live_dampen, frame);
    let mut pos: usize = 0;
    let mut colour = Color::from_rgb(255, 255, 255);
    proof {
        assert((0int + 3) / 4 == 0);
        lemma_small_mod(0, n as nat);
    }
    for i in 0..vertex_count
        invariant
            n == params.rainbow@.len(),
            n > 0,
            params.live ==> params.live_dampen > 0,
            skip == rainbow_skip(params.live, params.live_dampen, frame),
            0 <= skip <= 8,
            out@.len() == i,
            pos < n,
            pos == ((i + 3) / 4 * (skip + 1)) % (n as int),
            i > 0 ==> colour == params.rainbow@[rainbow_index((i - 1) / 4, skip, n as int)],
            forall|j: int|
                0 <= j < i ==> #[trigger] out@[j] == params.rainbow@[rainbow_index(
                    j / 4,
                    skip,
                    n as int,
                )],
    {
        if i % 4 == 0 {
            let turns: u64 = if params.live {
                (frame / params.live_dampen) % 8 + 1
            } else {
                0
            };
            let ghost q: int = i as int / 4;
            assert((i + 3) / 4 == q);
            let step = (turns as usize) % n;
            let turned = add_mod(pos, step, n);
            proof {
                lemma_add_mod_noop(q * (skip + 1), skip, n as int);
                lemma_mod_bound(q * (skip + 1), n as int);
                assert(turned == rainbow_index(q, skip, n as int));
            }
            colour = params.rainbow[turned];
            pos = add_mod(turned, 1 % n, n);
            proof {
                let x = q * (skip + 1) + skip;
                assert(turned == x % (n as int));
                lemma_add_mod_noop(x, 1, n as int);
                assert(pos == (x + 1) % (n as int));
                lemma_mul_is_distributive_add_other_way(skip + 1, q, 1);
                assert(x + 1 == (q + 1) * (skip + 1));
                assert((i + 1 + 3) / 4 == q + 1);
                assert(pos == ((i + 1 + 3) / 4 * (skip + 1)) % (n as int));
            }
        } else {
            assert((i + 1 + 3) / 4 == (i + 3) / 4);
            assert(i / 4 == (i - 1) / 4);
        }
        out.push(colour);
    }
    out
}

/// How a label reacts to the pointer.
#[derive(Clone, Copy, PartialEq, Eq, Structural, Debug)]
pub struct Sense {
    pub click: bool,
    pub drag: bool,
    pub focusable: bool,
}

/// A text label whose glyphs may be animated by effects.
#[derive(Debug)]
pub struct KineticLabel {
    pub text: String,
    pub wrap: Option<bool>,
    pub truncate: bool,
    pub sense: Option<Sense>,
    pub kinesis: Option<Vec<KineticEffect>>,
}

impl KineticLabel {
    /// A plain label: no wrapping preference, no truncation, no sense, no effects.
    pub fn new(text: String) -> (l: KineticLabel)
        ensures
            l.text == text,
            l.wrap is None,
            !l.truncate,
            l.sense is None,
            l.kinesis is None,
    {
        KineticLabel { text, wrap: None, truncate: false, sense: None, kinesis: None }
    }

    /// The same label animated by the given effects.
    pub fn kinesis(self, kinesis: Vec<KineticEffect>) -> (l: KineticLabel)
        ensures
            l.kinesis == Some(kinesis),
            l.text == self.text,
            l.wrap == self.wrap,
            l.truncate == self.truncate,
            l.sense == self.sense,
    {
        let mut me = self;
        me.kinesis = Some(kinesis);
        me
    }

    /// The label's text.
    pub fn text(&self) -> (t: &str)
        ensures
            t@ == self.text@,
    {
        self.text.as_str()
    }

    /// If `true`, the text will wrap to stay within the available width.
    /// Calling `wrap` overrides `truncate`.
    pub fn wrap(self, wrap: bool) -> (l: KineticLabel)
        ensures
            l.wrap == Some(wrap),
            !l.truncate,
            l.text == self.text,
            l.sense == self.sense,
            l.kinesis == self.kinesis,
    {
        let mut me = self;
        me.wrap = Some(wrap);
        me.truncate = false;
        me
    }

    /// If `true`, the text stops at the available width and what does not fit
    /// is elided. Calling `truncate` overrides `wrap`.
    pub fn truncate(self, truncate: bool) -> (l: KineticLabel)
        ensures
            l.wrap is None,
            l.truncate == truncate,
            l.text == self.text,
            l.sense == self.sense,
            l.kinesis == self.kinesis,
    {
        let mut me = self;
        me.wrap = None;
        me.truncate = truncate;
        me
    }

    /// Makes the label respond to clicks and/or drags.
    pub fn sense(self, sense: Sense) -> (l: KineticLabel)
        ensures
            l.sense == Some(sense),
            l.text == self.text,
            l.wrap == self.wrap,
            l.truncate == self.truncate,
            l.kinesis == self.kinesis,
    {
        let mut me = self;
        me.sense = Some(sense);
        me
    }
}

} // verus!
