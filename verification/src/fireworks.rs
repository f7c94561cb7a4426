//! The "fireworks" text markup: plain text interleaved with `{name=args}`
//! tags that switch a text modifier on and `{/name}` tags that switch it off
//! again. Each run of plain text becomes a label carrying the modifiers that
//! are on at that point.
use crate::color::{known_color, lookup_known_color, opaque, transparent, Color};
use crate::kinesis::{
    rainbow_default, shake_default, sine_default, EffectModel, Gay, KineticEffect, KineticLabel,
    ShakeLetters, SineWavify,
};
use crate::text::{chars_between, chars_of, string_of};
use vstd::prelude::*;

verus! {

/// Font styles a tag can select.
#[derive(Clone, Copy, PartialEq, Eq, Structural, Debug)]
pub enum TextStyle {
    Small,
    Monospace,
    Heading,
}

/// Formatting options a tag can switch on.
#[derive(Clone, Copy, PartialEq, Eq, Structural, Debug)]
pub enum BuiltinOption {
    /// Indentation of the first row, in points.
    FirstRowIndentation(u16),
    Style(TextStyle),
    TextColor(Color),
    Italics,
}

/// What a tag names.
#[derive(Debug)]
pub enum TextModifier {
    /// The empty tag `{}` or `{/}`.
    PrevOpen,
    BuiltinOption(BuiltinOption),
    KineticEffect(KineticEffect),
    /// A name the markup does not know, with its arguments.
    Unknown((String, String)),
}

/// A tag: switch a modifier on or off.
#[derive(Debug)]
pub enum Transition {
    Enable(TextModifier),
    Disable(TextModifier),
}

/// The mathematical content of a modifier.
pub enum ModifierModel {
    PrevOpen,
    Builtin(BuiltinOption),
    Effect(EffectModel),
    Unknown(Seq<char>, Seq<char>),
}

/// The mathematical content of a tag.
pub enum TransitionModel {
    Enable(ModifierModel),
    Disable(ModifierModel),
}

impl View for TextModifier {
    type V = ModifierModel;

    open spec fn view(&self) -> ModifierModel {
        match self {
            TextModifier::PrevOpen => ModifierModel::PrevOpen,
            TextModifier::BuiltinOption(b) => ModifierModel::Builtin(*b),
            TextModifier::KineticEffect(e) => ModifierModel::Effect(e@),
            TextModifier::Unknown((n, a)) => ModifierModel::Unknown(n@, a@),
        }
    }
}

impl View for Transition {
    type V = TransitionModel;

    open spec fn view(&self) -> TransitionModel {
        match self {
            Transition::Enable(m) => TransitionModel::Enable(m@),
            Transition::Disable(m) => TransitionModel::Disable(m@),
        }
    }
}

/// The models of a sequence of modifiers.
pub open spec fn models(v: Seq<TextModifier>) -> Seq<ModifierModel> {
    v.map_values(|m: TextModifier| m@)
}

// ---------------------------------------------------------------------------
// Character classes and scanning
// ---------------------------------------------------------------------------
/// Characters a modifier name is made of: ASCII letters and `_`.
pub open spec fn is_name_char(c: char) -> bool {
    c == '_' || ('a' <= c && c <= 'z') || ('A' <= c && c <= 'Z')
}

/// ASCII decimal digits.
pub open spec fn is_digit(c: char) -> bool {
    '0' <= c && c <= '9'
}

/// The end of the run of name characters that starts at `i`.
pub open spec fn name_end(s: Seq<char>, i: int) -> int
    decreases s.len() - i,
{
    if 0 <= i < s.len() && is_name_char(s[i]) {
        name_end(s, i + 1)
    } else {
        i
    }
}

/// The position of the first `}` at or after `i`, or the end of `s`.
pub open spec fn brace_end(s: Seq<char>, i: int) -> int
    decreases s.len() - i,
{
    if 0 <= i < s.len() && s[i] != '}' {
        brace_end(s, i + 1)
    } else {
        i
    }
}

/// The position of the first `{` at or after `i`, or the end of `s`.
pub open spec fn text_end(s: Seq<char>, i: int) -> int
    decreases s.len() - i,
{
    if 0 <= i < s.len() && s[i] != '{' {
        text_end(s, i + 1)
    } else {
        i
    }
}

/// The end of the run of digits that starts at `i`.
pub open spec fn digit_end(s: Seq<char>, i: int) -> int
    decreases s.len() - i,
{
    if 0 <= i < s.len() && is_digit(s[i]) {
        digit_end(s, i + 1)
    } else {
        i
    }
}

/// The decimal value of the digits `s[i..j]`.
pub open spec fn digits_value(s: Seq<char>, i: int, j: int) -> nat
    decreases j - i,
{
    if j <= i {
        0
    } else {
        digits_value(s, i, j - 1) * 10 + ((s[j - 1] as int - '0' as int) as nat)
    }
}

/// A decimal byte at `i`: at least one digit, with a value of at most 255;
/// gives the value and the position after the digits.
pub open spec fn byte_number_at(s: Seq<char>, i: int) -> Option<(u8, int)> {
    let j = digit_end(s, i);
    if j > i && digits_value(s, i, j) <= 255 {
        Some((digits_value(s, i, j) as u8, j))
    } else {
        None
    }
}

/// Further `,`-separated bytes after position `i`, appended to `acc`; a comma
/// that is not followed by a byte ends the list before that comma.
pub open spec fn byte_list_tail(s: Seq<char>, i: int, acc: Seq<u8>) -> (Seq<u8>, int)
    decreases s.len() - i,
{
    if 0 <= i < s.len() && s[i] == ',' {
        match byte_number_at(s, i + 1) {
            Some((v, j)) => if i < j <= s.len() {
                byte_list_tail(s, j, acc.push(v))
            } else {
                (acc, i)
            },
            None => (acc, i),
        }
    } else {
        (acc, i)
    }
}

/// The bytes of an `rgb(..)` colour: `rgb(`, one or more bytes separated by
/// commas, then `)`. Anything after the `)` is ignored.
pub open spec fn rgb_bytes(a: Seq<char>) -> Option<Seq<u8>> {
    if a.len() >= 4 && a.subrange(0, 4) == "rgb("@ {
        match byte_number_at(a, 4) {
            Some((v, j)) => {
                let (vals, e) = byte_list_tail(a, j, seq![v]);
                if 0 <= e < a.len() && a[e] == ')' {
                    Some(vals)
                } else {
                    None
                }
            },
            None => None,
        }
    } else {
        None
    }
}

/// The string that `str::to_uppercase` returns for `s`.
pub uninterp spec fn str_to_uppercase(s: Seq<char>) -> Seq<char>;

/// Calls `str::to_uppercase`, which maps each character to its Unicode
/// upper-case form. The contract only names the result; the case mapping
/// itself is not stated.
#[verifier::external_body]
fn uppercase_of(s: &str) -> (u: String)
    ensures
        u@ == str_to_uppercase(s@),
{
    s.to_uppercase()
}

/// What reading a colour argument gives.
pub enum ColorOutcome {
    Parsed(Color),
    Rejected,
    /// An `rgb(..)` list of fewer than three bytes, which the colour reader
    /// cannot index.
    Aborts,
}

/// Reading a colour argument: an `rgb(r,g,b)` triple, or else a known colour
/// name in any case.
pub open spec fn color_spec(a: Seq<char>) -> ColorOutcome {
    match rgb_bytes(a) {
        Some(vals) => if vals.len() >= 3 {
            ColorOutcome::Parsed(opaque(vals[0], vals[1], vals[2]))
        } else {
            ColorOutcome::Aborts
        },
        None => if a.len() == 0 {
            ColorOutcome::Rejected
        } else {
            match known_color(str_to_uppercase(a)) {
                Some(c) => ColorOutcome::Parsed(c),
                None => ColorOutcome::Rejected,
            }
        },
    }
}

/// The arguments of a modifier `m` whose name ends at `n`: the rest of `m`
/// without one leading `=`.
pub open spec fn modifier_args(m: Seq<char>, n: int) -> Seq<char> {
    let rest = m.subrange(n, m.len() as int);
    if rest.len() > 0 && rest[0] == '=' {
        rest.drop_first()
    } else {
        rest
    }
}

/// What reading the inside of a tag gives.
pub enum ModifierOutcome {
    Parsed(ModifierModel),
    Aborts,
}

/// Reading the inside of a tag (without braces and slash): a name of letters
/// and `_`, then optional `=` and arguments.
pub open spec fn modifier_spec(m: Seq<char>) -> ModifierOutcome {
    let n = name_end(m, 0);
    if n == 0 {
        ModifierOutcome::Parsed(ModifierModel::PrevOpen)
    } else {
        let name = m.subrange(0, n);
        let args = modifier_args(m, n);
        if name == "color"@ {
            match color_spec(args) {
                ColorOutcome::Parsed(c) => ModifierOutcome::Parsed(
                    ModifierModel::Builtin(BuiltinOption::TextColor(c)),
                ),
                ColorOutcome::Rejected => ModifierOutcome::Parsed(
                    ModifierModel::Builtin(BuiltinOption::TextColor(transparent())),
                ),
                ColorOutcome::Aborts => ModifierOutcome::Aborts,
            }
        } else if name == "h"@ {
            ModifierOutcome::Parsed(
                ModifierModel::Builtin(BuiltinOption::Style(TextStyle::Heading)),
            )
        } else if name == "mono"@ {
            ModifierOutcome::Parsed(
                ModifierModel::Builtin(BuiltinOption::Style(TextStyle::Monospace)),
            )
        } else if name == "p"@ {
            ModifierOutcome::Parsed(ModifierModel::Builtin(BuiltinOption::FirstRowIndentation(10)))
        } else if name == "gay"@ {
            ModifierOutcome::Parsed(
                ModifierModel::Effect(EffectModel::Gay(rainbow_default(), true, 20)),
            )
        } else if name == "shakey"@ {
            ModifierOutcome::Parsed(
                ModifierModel::Effect(EffectModel::ShakeLetters(shake_default())),
            )
        } else if name == "wavy"@ {
            ModifierOutcome::Parsed(ModifierModel::Effect(EffectModel::SineWavify(sine_default())))
        } else if name == "i"@ {
            ModifierOutcome::Parsed(ModifierModel::Builtin(BuiltinOption::Italics))
        } else if name == "small"@ {
            ModifierOutcome::Parsed(
                ModifierModel::Builtin(BuiltinOption::Style(TextStyle::Small)),
            )
        } else {
            ModifierOutcome::Parsed(ModifierModel::Unknown(name, args))
        }
    }
}

/// What reading a tag at some position gives.
pub enum TagOutcome {
    /// A tag, and the position just after its closing brace.
    Tag(TransitionModel, int),
    NoTag,
    Aborts,
}

/// Reading a tag at position `p`: `{`, an optional `/`, the modifier, `}`.
/// The modifier is read up to the first `}` (or the end) before the closing
/// brace is looked for.
pub open spec fn tag_at(s: Seq<char>, p: int) -> TagOutcome {
    if 0 <= p < s.len() && s[p] == '{' {
        let closing = s.len() - p > 1 && s[p + 1] == '/';
        let q = if closing {
            p + 2
        } else {
            p + 1
        };
        let e = brace_end(s, q);
        match modifier_spec(s.subrange(q, e)) {
            ModifierOutcome::Aborts => TagOutcome::Aborts,
            ModifierOutcome::Parsed(m) => if e < s.len() {
                TagOutcome::Tag(
                    if closing {
                        TransitionModel::Disable(m)
                    } else {
                        TransitionModel::Enable(m)
                    },
                    e + 1,
                )
            } else {
                TagOutcome::NoTag
            },
        }
    } else {
        TagOutcome::NoTag
    }
}

// ---------------------------------------------------------------------------
// The stack of active modifiers
// ---------------------------------------------------------------------------
/// Whether closing modifier `m` may remove the active modifier `tm`: any
/// indentation or any colour closes by kind, effects and styles by equality,
/// unknown modifiers by name.
pub open spec fn closes(tm: ModifierModel, m: ModifierModel) -> bool {
    match m {
        ModifierModel::PrevOpen => false,
        ModifierModel::Builtin(BuiltinOption::FirstRowIndentation(_)) => tm matches ModifierModel::Builtin(
            BuiltinOption::FirstRowIndentation(_),
        ),
        ModifierModel::Builtin(BuiltinOption::TextColor(_)) => tm matches ModifierModel::Builtin(
            BuiltinOption::TextColor(_),
        ),
        ModifierModel::Builtin(b) => tm == ModifierModel::Builtin(b),
        ModifierModel::Effect(e) => tm == ModifierModel::Effect(e),
        ModifierModel::Unknown(name, _) => tm matches ModifierModel::Unknown(other, _) && other
            == name,
    }
}

/// The first position at or after `i` whose modifier `m` closes, or the length.
pub open spec fn first_closed(state: Seq<ModifierModel>, m: ModifierModel, i: int) -> int
    decreases state.len() - i,
{
    if 0 <= i < state.len() {
        if closes(state[i], m) {
            i
        } else {
            first_closed(state, m, i + 1)
        }
    } else {
        state.len() as int
    }
}

/// The active modifiers after a tag; `None` where closing finds nothing to
/// close, on which reading the markup aborts.
pub open spec fn apply_transition(state: Seq<ModifierModel>, t: TransitionModel) -> Option<
    Seq<ModifierModel>,
> {
    match t {
        TransitionModel::Enable(m) => Some(
            if m is PrevOpen {
                state
            } else {
                state.push(m)
            },
        ),
        TransitionModel::Disable(m) => if m is PrevOpen {
            Some(
                if state.len() > 0 {
                    state.drop_last()
                } else {
                    state
                },
            )
        } else {
            let k = first_closed(state, m, 0);
            if k < state.len() {
                Some(state.remove(k))
            } else {
                None
            }
        },
    }
}

// ---------------------------------------------------------------------------
// Whole documents
// ---------------------------------------------------------------------------
/// A run of text and the modifiers active over it.
pub struct LabelModel {
    pub text: Seq<char>,
    pub active: Seq<ModifierModel>,
}

/// What reading a whole document gives.
pub enum FireworksModel {
    Parsed(Seq<LabelModel>),
    /// A `{` at this position that does not start a complete tag.
    Stuck(int),
    Aborts,
}

pub proof fn lemma_brace_end_bounds(s: Seq<char>, i: int)
    requires
        0 <= i <= s.len(),
    ensures
        i <= brace_end(s, i) <= s.len(),
        brace_end(s, i) < s.len() ==> s[brace_end(s, i)] == '}',
        forall|k: int| i <= k < brace_end(s, i) ==> s[k] != '}',
    decreases s.len() - i,
{
    if i < s.len() && s[i] != '}' {
        lemma_brace_end_bounds(s, i + 1);
    }
}

pub proof fn lemma_text_end_bounds(s: Seq<char>, i: int)
    requires
        0 <= i <= s.len(),
    ensures
        i <= text_end(s, i) <= s.len(),
        text_end(s, i) < s.len() ==> s[text_end(s, i)] == '{',
        forall|k: int| i <= k < text_end(s, i) ==> s[k] != '{',
    decreases s.len() - i,
{
    if i < s.len() && s[i] != '{' {
        lemma_text_end_bounds(s, i + 1);
    }
}

pub proof fn lemma_tag_advances(s: Seq<char>, p: int)
    ensures
        tag_at(s, p) matches TagOutcome::Tag(_, end) ==> p < end <= s.len(),
{
    if 0 <= p < s.len() && s[p] == '{' {
        let closing = s.len() - p > 1 && s[p + 1] == '/';
        let q = if closing {
            p + 2
        } else {
            p + 1
        };
        lemma_brace_end_bounds(s, q);
    }
}

/// Reading the document `s` from position `p` with the given active
/// modifiers and the labels found so far.
pub open spec fn fireworks_from(
    s: Seq<char>,
    p: int,
    state: Seq<ModifierModel>,
    acc: Seq<LabelModel>,
) -> FireworksModel
    decreases s.len() - p,
{
    if p < 0 || p >= s.len() {
        FireworksModel::Parsed(acc)
    } else {
        proof {
            lemma_tag_advances(s, p);
            lemma_text_end_bounds(s, p);
        }
        match tag_at(s, p) {
            TagOutcome::Tag(t, end) => match apply_transition(state, t) {
                Some(next) => fireworks_from(s, end, next, acc),
                None => FireworksModel::Aborts,
            },
            TagOutcome::Aborts => FireworksModel::Aborts,
            TagOutcome::NoTag => if s[p] == '{' {
                FireworksModel::Stuck(p)
            } else {
                let e = text_end(s, p);
                fireworks_from(
                    s,
                    e,
                    state,
                    acc.push(LabelModel { text: s.subrange(p, e), active: state }),
                )
            },
        }
    }
}

/// Reading a whole document, starting with no modifier active.
pub open spec fn fireworks_spec(s: Seq<char>) -> FireworksModel {
    fireworks_from(s, 0, seq![], seq![])
}

// ---------------------------------------------------------------------------
// Reading, executably
// ---------------------------------------------------------------------------
fn is_name_char_exec(c: char) -> (b: bool)
    ensures
        b == is_name_char(c),
{
    c == '_' || ('a' <= c && c <= 'z') || ('A' <= c && c <= 'Z')
}

fn is_digit_exec(c: char) -> (b: bool)
    ensures
        b == is_digit(c),
{
    '0' <= c && c <= '9'
}

fn scan_name_end(s: &Vec<char>, i: usize) -> (e: usize)
    requires
        i <= s@.len(),
    ensures
        e as int == name_end(s@, i as int),
        i <= e <= s@.len(),
{
    let mut j = i;
    while j < s.len() && is_name_char_exec(s[j])
        invariant
            i <= j <= s@.len(),
            name_end(s@, j as int) == name_end(s@, i as int),
        decreases s@.len() - j,
    {
        j = j + 1;
    }
    j
}

fn scan_brace_end(s: &Vec<char>, i: usize) -> (e: usize)
    requires
        i <= s@.len(),
    ensures
        e as int == brace_end(s@, i as int),
        i <= e <= s@.len(),
{
    let mut j = i;
    while j < s.len() && s[j] != '}'
        invariant
            i <= j <= s@.len(),
            brace_end(s@, j as int) == brace_end(s@, i as int),
        decreases s@.len() - j,
    {
        j = j + 1;
    }
    j
}

fn scan_text_end(s: &Vec<char>, i: usize) -> (e: usize)
    requires
        i <= s@.len(),
    ensures
        e as int == text_end(s@, i as int),
        i <= e <= s@.len(),
{
    let mut j = i;
    while j < s.len() && s[j] != '{'
        invariant
            i <= j <= s@.len(),
            text_end(s@, j as int) == text_end(s@, i as int),
        decreases s@.len() - j,
    {
        j = j + 1;
    }
    j
}

fn scan_digit_end(s: &Vec<char>, i: usize) -> (e: usize)
    requires
        i <= s@.len(),
    ensures
        e as int == digit_end(s@, i as int),
        i <= e <= s@.len(),
        forall|k: int| i <= k < e ==> is_digit(#[trigger] s@[k]),
{
    let mut j = i;
    while j < s.len() && is_digit_exec(s[j])
        invariant
            i <= j <= s@.len(),
            digit_end(s@, j as int) == digit_end(s@, i as int),
            forall|k: int| i <= k < j ==> is_digit(#[trigger] s@[k]),
        decreases s@.len() - j,
    {
        j = j + 1;
    }
    j
}

/// Reads a decimal byte at `i`.
fn read_byte_number(s: &Vec<char>, i: usize) -> (r: Option<(u8, usize)>)
    requires
        i <= s@.len(),
    ensures
        match r {
            Some((v, j)) => byte_number_at(s@, i as int) == Some((v, j as int)) && i < j
                <= s@.len(),
            None => byte_number_at(s@, i as int) is None,
        },
{
    let j = scan_digit_end(s, i);
    if j == i {
        return None;
    }
    let mut val: u32 = 0;
    let mut k = i;
    while k < j
        invariant
            i <= k <= j <= s@.len(),
            forall|x: int| i <= x < j ==> is_digit(#[trigger] s@[x]),
            digits_value(s@, i as int, k as int) <= 255 ==> val as int == digits_value(
                s@,
                i as int,
                k as int,
            ),
            digits_value(s@, i as int, k as int) > 255 ==> val == 256,
        decreases j - k,
    {
        let c = s[k];
        assert(is_digit(s@[k as int]));
        let d = (c as u32) - ('0' as u32);
        if val != 256 {
            let nv = val * 10 + d;
            if nv > 255 {
                val = 256;
            } else {
                val = nv;
            }
        }
        k = k + 1;
    }
    if val > 255 {
        None
    } else {
        Some((val as u8, j))
    }
}

/// Reads an `rgb(..)` list of bytes.
fn read_rgb_bytes(a: &Vec<char>) -> (r: Option<Vec<u8>>)
    ensures
        match r {
            Some(v) => rgb_bytes(a@) == Some(v@),
            None => rgb_bytes(a@) is None,
        },
{
    if a.len() < 4 {
        return None;
    }
    if !crate::color::chars_match_literal(a, 0, 4, "rgb(") {
        return None;
    }
    match read_byte_number(a, 4) {
        None => None,
        Some((v0, j0)) => {
            let mut vals: Vec<u8> = Vec::new();
            vals.push(v0);
            assert(vals@ =~= seq![v0]);
            let mut pos = j0;
            loop
                invariant
                    j0 <= pos <= a@.len(),
                    byte_list_tail(a@, pos as int, vals@) == byte_list_tail(
                        a@,
                        j0 as int,
                        seq![v0],
                    ),
                ensures
                    byte_list_tail(a@, j0 as int, seq![v0]) == (vals@, pos as int),
                    pos <= a@.len(),
                decreases a@.len() - pos,
            {
                if pos < a.len() && a[pos] == ',' {
                    match read_byte_number(a, pos + 1) {
                        Some((v, j)) => {
                            vals.push(v);
                            pos = j;
                        },
                        None => {
                            break ;
                        },
                    }
                } else {
                    break ;
                }
            }
            if pos < a.len() && a[pos] == ')' {
                Some(vals)
            } else {
                None
            }
        },
    }
}

/// Reads a colour argument, telling apart the arguments that cannot be read
/// at all.
fn read_color(a: &Vec<char>) -> (r: ColorOutcome)
    ensures
        r == color_spec(a@),
{
    match read_rgb_bytes(a) {
        Some(vals) => {
            if vals.len() >= 3 {
                ColorOutcome::Parsed(Color::from_rgb(vals[0], vals[1], vals[2]))
            } else {
                ColorOutcome::Aborts
            }
        },
        None => {
            if a.len() == 0 {
                ColorOutcome::Rejected
            } else {
                let text = string_of(a, 0, a.len());
                assert(a@.subrange(0, a@.len() as int) =~= a@);
                let upper = uppercase_of(text.as_str());
                let upper_chars = chars_of(upper.as_str());
                match lookup_known_color(&upper_chars) {
                    Some(c) => ColorOutcome::Parsed(c),
                    None => ColorOutcome::Rejected,
                }
            }
        },
    }
}

/// Reads a colour argument: an `rgb(r,g,b)` triple (further bytes are
/// ignored), or a known colour name in any letter case. `None` where the
/// argument is neither; an `rgb(..)` list of fewer than three bytes is left
/// out, as the colour reader cannot index it.
pub fn parse_color(a: &Vec<char>) -> (r: Option<Color>)
    requires
        !(color_spec(a@) is Aborts),
    ensures
        match color_spec(a@) {
            ColorOutcome::Parsed(c) => r == Some(c),
            _ => r is None,
        },
{
    match read_color(a) {
        ColorOutcome::Parsed(c) => Some(c),
        _ => None,
    }
}

enum ModifierRead {
    Parsed(TextModifier),
    Aborts,
}

/// Reads the inside of a tag.
fn read_modifier(m: &Vec<char>) -> (r: ModifierRead)
    ensures
        match r {
            ModifierRead::Parsed(tm) => modifier_spec(m@) == ModifierOutcome::Parsed(tm@),
            ModifierRead::Aborts => modifier_spec(m@) is Aborts,
        },
{
    let n = scan_name_end(m, 0);
    if n == 0 {
        return ModifierRead::Parsed(TextModifier::PrevOpen);
    }
    let len = m.len();
    let start = if n < len && m[n] == '=' {
        n + 1
    } else {
        n
    };
    let args = chars_between(m, start, len);
    assert(args@ =~= modifier_args(m@, n as int));
    if crate::color::chars_match_literal(m, 0, n, "color") {
        match read_color(&args) {
            ColorOutcome::Parsed(c) => ModifierRead::Parsed(
                TextModifier::BuiltinOption(BuiltinOption::TextColor(c)),
            ),
            ColorOutcome::Rejected => ModifierRead::Parsed(
                TextModifier::BuiltinOption(BuiltinOption::TextColor(Color::transparent())),
            ),
            ColorOutcome::Aborts => ModifierRead::Aborts,
        }
    } else if crate::color::chars_match_literal(m, 0, n, "h") {
        ModifierRead::Parsed(TextModifier::BuiltinOption(BuiltinOption::Style(TextStyle::Heading)))
    } else if crate::color::chars_match_literal(m, 0, n, "mono") {
        ModifierRead::Parsed(
            TextModifier::BuiltinOption(BuiltinOption::Style(TextStyle::Monospace)),
        )
    } else if crate::color::chars_match_literal(m, 0, n, "p") {
        ModifierRead::Parsed(TextModifier::BuiltinOption(BuiltinOption::FirstRowIndentation(10)))
    } else if crate::color::chars_match_literal(m, 0, n, "gay") {
        ModifierRead::Parsed(
            TextModifier::KineticEffect(KineticEffect::Gay { params: Gay::default() }),
        )
    } else if crate::color::chars_match_literal(m, 0, n, "shakey") {
        ModifierRead::Parsed(
            TextModifier::KineticEffect(
                KineticEffect::ShakeLetters { params: ShakeLetters::default() },
            ),
        )
    } else if crate::color::chars_match_literal(m, 0, n, "wavy") {
        ModifierRead::Parsed(
            TextModifier::KineticEffect(KineticEffect::SineWavify { params: SineWavify::default() }),
        )
    } else if crate::color::chars_match_literal(m, 0, n, "i") {
        ModifierRead::Parsed(TextModifier::BuiltinOption(BuiltinOption::Italics))
    } else if crate::color::chars_match_literal(m, 0, n, "small") {
        ModifierRead::Parsed(TextModifier::BuiltinOption(BuiltinOption::Style(TextStyle::Small)))
    } else {
        let name = string_of(m, 0, n);
        let arg_text = string_of(&args, 0, args.len());
        assert(args@.subrange(0, args@.len() as int) =~= args@);
        ModifierRead::Parsed(TextModifier::Unknown((name, arg_text)))
    }
}

enum TagRead {
    Tag(Transition, usize),
    NoTag,
    Aborts,
}

/// Reads a tag at position `p`.
fn read_tag(s: &Vec<char>, p: usize) -> (r: TagRead)
    requires
        p < s@.len(),
    ensures
        match r {
            TagRead::Tag(t, end) => tag_at(s@, p as int) == TagOutcome::Tag(t@, end as int),
            TagRead::NoTag => tag_at(s@, p as int) is NoTag,
            TagRead::Aborts => tag_at(s@, p as int) is Aborts,
        },
{
    if s[p] != '{' {
        return TagRead::NoTag;
    }
    let closing = s.len() - p > 1 && s[p + 1] == '/';
    let q = if closing {
        p + 2
    } else {
        p + 1
    };
    let e = scan_brace_end(s, q);
    let m = chars_between(s, q, e);
    match read_modifier(&m) {
        ModifierRead::Aborts => TagRead::Aborts,
        ModifierRead::Parsed(tm) => {
            if e < s.len() {
                if closing {
                    TagRead::Tag(Transition::Disable(tm), e + 1)
                } else {
                    TagRead::Tag(Transition::Enable(tm), e + 1)
                }
            } else {
                TagRead::NoTag
            }
        },
    }
}

// ---------------------------------------------------------------------------
// The stack of active modifiers, executably
// ---------------------------------------------------------------------------
/// Whether two effects are equal, parameters included.
pub fn effects_equal(a: &KineticEffect, b: &KineticEffect) -> (r: bool)
    ensures
        r == (a@ == b@),
{
    match (a, b) {
        (KineticEffect::SineWavify { params: x }, KineticEffect::SineWavify { params: y }) => *x
            == *y,
        (KineticEffect::ShakeLetters { params: x }, KineticEffect::ShakeLetters { params: y }) => *x
            == *y,
        (KineticEffect::Gay { params: x }, KineticEffect::Gay { params: y }) => {
            if x.live != y.live || x.live_dampen != y.live_dampen {
                return false;
            }
            let n = x.rainbow.len();
            if n != y.rainbow.len() {
                return false;
            }
            let mut i: usize = 0;
            while i < n
                invariant
                    a@ == EffectModel::Gay(x.rainbow@, x.live, x.live_dampen),
                    b@ == EffectModel::Gay(y.rainbow@, y.live, y.live_dampen),
                    n == x.rainbow@.len(),
                    n == y.rainbow@.len(),
                    i <= n,
                    forall|j: int| 0 <= j < i ==> x.rainbow@[j] == y.rainbow@[j],
                decreases n - i,
            {
                if x.rainbow[i] != y.rainbow[i] {
                    assert(x.rainbow@[i as int] != y.rainbow@[i as int]);
                    assert(x.rainbow@ != y.rainbow@);
                    return false;
                }
                i = i + 1;
            }
            assert(x.rainbow@ =~= y.rainbow@);
            true
        },
        _ => false,
    }
}

impl TextModifier {
    /// A copy of this modifier.
    pub fn duplicate(&self) -> (m: TextModifier)
        ensures
            m@ == self@,
    {
        match self {
            TextModifier::PrevOpen => TextModifier::PrevOpen,
            TextModifier::BuiltinOption(b) => TextModifier::BuiltinOption(*b),
            TextModifier::KineticEffect(e) => TextModifier::KineticEffect(e.duplicate()),
            TextModifier::Unknown((n, a)) => TextModifier::Unknown((n.clone(), a.clone())),
        }
    }
}

/// A copy of a list of modifiers.
pub fn copy_modifiers(v: &Vec<TextModifier>) -> (w: Vec<TextModifier>)
    ensures
        models(w@) == models(v@),
{
    let mut w: Vec<TextModifier> = Vec::new();
    let n = v.len();
    let mut i: usize = 0;
    while i < n
        invariant
            n == v@.len(),
            i <= n,
            models(w@) == models(v@).take(i as int),
        decreases n - i,
    {
        let m = v[i].duplicate();
        let ghost w0 = w@;
        w.push(m);
        assert(w@ == w0.push(m));
        assert(models(w@) =~= models(w0).push(m@));
        i = i + 1;
        assert(models(w@) =~= models(v@).take(i as int));
    }
    assert(models(v@).take(n as int) =~= models(v@));
    w
}

/// Whether closing `m` removes the active modifier `tm`.
fn closes_exec(tm: &TextModifier, m: &TextModifier) -> (r: bool)
    ensures
        r == closes(tm@, m@),
{
    match m {
        TextModifier::PrevOpen => false,
        TextModifier::BuiltinOption(BuiltinOption::FirstRowIndentation(_)) => match tm {
            TextModifier::BuiltinOption(BuiltinOption::FirstRowIndentation(_)) => true,
            _ => false,
        },
        TextModifier::BuiltinOption(BuiltinOption::TextColor(_)) => match tm {
            TextModifier::BuiltinOption(BuiltinOption::TextColor(_)) => true,
            _ => false,
        },
        TextModifier::BuiltinOption(b) => match tm {
            TextModifier::BuiltinOption(b2) => *b2 == *b,
            _ => false,
        },
        TextModifier::KineticEffect(e) => match tm {
            TextModifier::KineticEffect(e2) => effects_equal(e2, e),
            _ => false,
        },
        TextModifier::Unknown((name, _)) => match tm {
            TextModifier::Unknown((other, _)) => *other == *name,
            _ => false,
        },
    }
}

/// Applies a tag to the active modifiers; `false` (and the modifiers
/// unchanged) where closing finds nothing to close.
pub fn apply_transition_to(state: &mut Vec<TextModifier>, t: Transition) -> (ok: bool)
    ensures
        ok == (apply_transition(models(old(state)@), t@) is Some),
        ok ==> apply_transition(models(old(state)@), t@) == Some(models(final(state)@)),
        !ok ==> final(state)@ == old(state)@,
{
    let ghost before = models(state@);
    match t {
        Transition::Enable(m) => {
            match m {
                TextModifier::PrevOpen => {},
                _ => {
                    let ghost mv = m@;
                    state.push(m);
                    assert(models(state@) =~= before.push(mv));
                },
            }
            true
        },
        Transition::Disable(m) => {
            match m {
                TextModifier::PrevOpen => {
                    let _ = state.pop();
                    assert(before.len() > 0 ==> models(state@) =~= before.drop_last());
                    true
                },
                _ => {
                    let n = state.len();
                    let mut i: usize = 0;
                    while i < n && !closes_exec(&state[i], &m)
                        invariant
                            n == state@.len(),
                            before == models(state@),
                            i <= n,
                            first_closed(before, m@, i as int) == first_closed(before, m@, 0),
                        decreases n - i,
                    {
                        i = i + 1;
                    }
                    if i < n {
                        let _ = state.remove(i);
                        assert(models(state@) =~= before.remove(i as int));
                        true
                    } else {
                        false
                    }
                },
            }
        },
    }
}

// ---------------------------------------------------------------------------
// Whole documents, executably
// ---------------------------------------------------------------------------
/// A run of text and the modifiers active over it.
#[derive(Debug)]
pub struct FireworksLabel {
    pub text: String,
    pub active: Vec<TextModifier>,
}

impl View for FireworksLabel {
    type V = LabelModel;

    open spec fn view(&self) -> LabelModel {
        LabelModel { text: self.text@, active: models(self.active@) }
    }
}

/// The models of a sequence of labels.
pub open spec fn label_models(v: Seq<FireworksLabel>) -> Seq<LabelModel> {
    v.map_values(|l: FireworksLabel| l@)
}

/// A `{` that does not start a complete tag, at this character position.
#[derive(Clone, Copy, PartialEq, Eq, Structural, Debug)]
pub struct FireworksError {
    pub position: usize,
}

/// What reading a document gives, including the inputs on which the
/// markup cannot be read at all.
#[derive(Debug)]
pub enum FireworksOutcome {
    Parsed(Vec<FireworksLabel>),
    Stuck(FireworksError),
    /// A closing tag with nothing to close, or an `rgb(..)` colour with fewer
    /// than three bytes.
    Aborts,
}

impl View for FireworksOutcome {
    type V = FireworksModel;

    open spec fn view(&self) -> FireworksModel {
        match self {
            FireworksOutcome::Parsed(v) => FireworksModel::Parsed(label_models(v@)),
            FireworksOutcome::Stuck(e) => FireworksModel::Stuck(e.position as int),
            FireworksOutcome::Aborts => FireworksModel::Aborts,
        }
    }
}

/// Reads a whole document, telling apart the inputs on which the markup
/// cannot be read at all.
pub fn try_parse_fireworks(input: &str) -> (r: FireworksOutcome)
    ensures
        r@ == fireworks_spec(input@),
{
    let s = chars_of(input);
    let mut state: Vec<TextModifier> = Vec::new();
    let mut out: Vec<FireworksLabel> = Vec::new();
    let mut p: usize = 0;
    assert(models(state@) =~= seq![]);
    assert(label_models(out@) =~= seq![]);
    while p < s.len()
        invariant
            p <= s@.len(),
            s@ == input@,
            fireworks_from(s@, p as int, models(state@), label_models(out@)) == fireworks_spec(
                input@,
            ),
        decreases s@.len() - p,
    {
        proof {
            lemma_tag_advances(s@, p as int);
            lemma_text_end_bounds(s@, p as int);
        }
        match read_tag(&s, p) {
            TagRead::Tag(t, end) => {
                let ok = apply_transition_to(&mut state, t);
                if !ok {
                    return FireworksOutcome::Aborts;
                }
                p = end;
            },
            TagRead::Aborts => {
                return FireworksOutcome::Aborts;
            },
            TagRead::NoTag => {
                if s[p] == '{' {
                    return FireworksOutcome::Stuck(FireworksError { position: p });
                }
                let e = scan_text_end(&s, p);
                let text = string_of(&s, p, e);
                let active = copy_modifiers(&state);
                let label = FireworksLabel { text, active };
                let ghost before = label_models(out@);
                out.push(label);
                assert(label_models(out@) =~= before.push(label@));
                p = e;
            },
        }
    }
    FireworksOutcome::Parsed(out)
}

/// Reads a whole document into its labels, handing the whole document back
/// beside them; the error gives the position of a `{` that does not start a
/// complete tag. The inputs on which the markup cannot be read at all are
/// excluded: see `try_parse_fireworks`.
pub fn parse_fireworks<'a>(input: &'a str) -> (r: Result<(&'a str, Vec<FireworksLabel>), FireworksError>)
    requires
        !(fireworks_spec(input@) is Aborts),
    ensures
        match r {
            Ok((rest, v)) => rest@ == input@ && fireworks_spec(input@) == FireworksModel::Parsed(
                label_models(v@),
            ),
            Err(e) => fireworks_spec(input@) == FireworksModel::Stuck(e.position as int),
        },
{
    match try_parse_fireworks(input) {
        FireworksOutcome::Parsed(v) => Ok((input, v)),
        FireworksOutcome::Stuck(e) => Err(e),
        FireworksOutcome::Aborts => {
            assert(false);
            Err(FireworksError { position: 0 })
        },
    }
}

/// Reads one tag at the start of `input`: `{`, an optional `/`, a modifier
/// and `}`. Gives the rest of the input and the tag, or `None` where the
/// input does not start with a complete tag.
pub fn parse_my_tag(input: &str) -> (r: Option<(String, Transition)>)
    requires
        !(tag_at(input@, 0) is Aborts),
    ensures
        match r {
            Some((rest, t)) => exists|end: int|
                #![trigger input@.subrange(end, input@.len() as int)]
                tag_at(input@, 0) == TagOutcome::Tag(t@, end) && rest@ == input@.subrange(
                    end,
                    input@.len() as int,
                ),
            None => tag_at(input@, 0) is NoTag,
        },
{
    let s = chars_of(input);
    if s.len() == 0 {
        return None;
    }
    proof {
        lemma_tag_advances(s@, 0);
    }
    match read_tag(&s, 0) {
        TagRead::Tag(t, end) => {
            let rest = string_of(&s, end, s.len());
            Some((rest, t))
        },
        TagRead::NoTag => None,
        TagRead::Aborts => {
            assert(false);
            None
        },
    }
}

// ---------------------------------------------------------------------------
// Formatting a label from its active modifiers
// ---------------------------------------------------------------------------
/// How a run of text is to be drawn: the last indentation and the last
/// colour win, each heading doubles and each `small` halves the font size,
/// `mono` selects the monospace family, and effects are applied in order.
#[derive(Debug)]
pub struct LabelStyle {
    pub leading_space: Option<u16>,
    pub headings: usize,
    pub smalls: usize,
    pub monospace: bool,
    pub color: Option<Color>,
    pub italics: bool,
    pub kinesis: Vec<KineticEffect>,
}

/// The mathematical content of a style.
pub struct StyleModel {
    pub leading_space: Option<u16>,
    pub headings: nat,
    pub smalls: nat,
    pub monospace: bool,
    pub color: Option<Color>,
    pub italics: bool,
    pub kinesis: Seq<EffectModel>,
}

/// The models of a sequence of effects.
pub open spec fn effect_models(v: Seq<KineticEffect>) -> Seq<EffectModel> {
    v.map_values(|e: KineticEffect| e@)
}

impl View for LabelStyle {
    type V = StyleModel;

    open spec fn view(&self) -> StyleModel {
        StyleModel {
            leading_space: self.leading_space,
            headings: self.headings as nat,
            smalls: self.smalls as nat,
            monospace: self.monospace,
            color: self.color,
            italics: self.italics,
            kinesis: effect_models(self.kinesis@),
        }
    }
}

/// The style of text with no modifier active.
pub open spec fn plain_style() -> StyleModel {
    StyleModel {
        leading_space: None,
        headings: 0,
        smalls: 0,
        monospace: false,
        color: None,
        italics: false,
        kinesis: seq![],
    }
}

/// The style after one more active modifier.
pub open spec fn style_step(st: StyleModel, m: ModifierModel) -> StyleModel {
    match m {
        ModifierModel::Builtin(BuiltinOption::FirstRowIndentation(n)) => StyleModel {
            leading_space: Some(n),
            ..st
        },
        ModifierModel::Builtin(BuiltinOption::Style(TextStyle::Small)) => StyleModel {
            smalls: st.smalls + 1,
            ..st
        },
        ModifierModel::Builtin(BuiltinOption::Style(TextStyle::Monospace)) => StyleModel {
            monospace: true,
            ..st
        },
        ModifierModel::Builtin(BuiltinOption::Style(TextStyle::Heading)) => StyleModel {
            headings: st.headings + 1,
            ..st
        },
        ModifierModel::Builtin(BuiltinOption::TextColor(c)) => StyleModel { color: Some(c), ..st },
        ModifierModel::Builtin(BuiltinOption::Italics) => StyleModel { italics: true, ..st },
        ModifierModel::Effect(e) => StyleModel { kinesis: st.kinesis.push(e), ..st },
        _ => st,
    }
}

/// The style of text under the given active modifiers, applied in order.
pub open spec fn style_of(active: Seq<ModifierModel>) -> StyleModel
    decreases active.len(),
{
    if active.len() == 0 {
        plain_style()
    } else {
        style_step(style_of(active.drop_last()), active.last())
    }
}

/// The effects among the active modifiers, in the order in which they are
/// listed.
pub open spec fn open_effects(active: Seq<ModifierModel>) -> Seq<EffectModel>
    decreases active.len(),
{
    if active.len() == 0 {
        seq![]
    } else {
        let rest = open_effects(active.drop_last());
        match active.last() {
            ModifierModel::Effect(e) => rest.push(e),
            _ => rest,
        }
    }
}

/// A style animates its text by exactly the effects among the active
/// modifiers, in their order.
pub proof fn lemma_style_effects_are_open_effects(active: Seq<ModifierModel>)
    ensures
        style_of(active).kinesis == open_effects(active),
    decreases active.len(),
{
    if active.len() > 0 {
        lemma_style_effects_are_open_effects(active.drop_last());
    }
}

/// The style of text under the given active modifiers.
pub fn label_style(active: &Vec<TextModifier>) -> (st: LabelStyle)
    ensures
        st@ == style_of(models(active@)),
{
    let mut st = LabelStyle {
        leading_space: None,
        headings: 0,
        smalls: 0,
        monospace: false,
        color: None,
        italics: false,
        kinesis: Vec::new(),
    };
    let n = active.len();
    let mut i: usize = 0;
    assert(effect_models(st.kinesis@) =~= seq![]);
    assert(models(active@).take(0) =~= seq![]);
    while i < n
        invariant
            n == active@.len(),
            i <= n,
            st.headings <= i,
            st.smalls <= i,
            st@ == style_of(models(active@).take(i as int)),
        decreases n - i,
    {
        let ghost prefix = models(active@).take(i as int);
        assert(models(active@).take(i + 1).drop_last() =~= prefix);
        assert(models(active@).take(i + 1).last() == active@[i as int]@);
        match &active[i] {
            TextModifier::BuiltinOption(BuiltinOption::FirstRowIndentation(len)) => {
                st.leading_space = Some(*len);
            },
            TextModifier::BuiltinOption(BuiltinOption::Style(TextStyle::Small)) => {
                st.smalls = st.smalls + 1;
            },
            TextModifier::BuiltinOption(BuiltinOption::Style(TextStyle::Monospace)) => {
                st.monospace = true;
            },
            TextModifier::BuiltinOption(BuiltinOption::Style(TextStyle::Heading)) => {
                st.headings = st.headings + 1;
            },
            TextModifier::BuiltinOption(BuiltinOption::TextColor(c)) => {
                st.color = Some(*c);
            },
            TextModifier::BuiltinOption(BuiltinOption::Italics) => {
                st.italics = true;
            },
            TextModifier::KineticEffect(e) => {
                let ghost k0 = st.kinesis@;
                let copy = e.duplicate();
                st.kinesis.push(copy);
                assert(effect_models(st.kinesis@) =~= effect_models(k0).push(e@));
            },
            _ => {},
        }
        i = i + 1;
    }
    assert(models(active@).take(n as int) =~= models(active@));
    st
}

impl FireworksLabel {
    /// How this label is to be drawn.
    pub fn style(&self) -> (st: LabelStyle)
        ensures
            st@ == style_of(self@.active),
    {
        label_style(&self.active)
    }

    /// This label as an animated label: its text, animated by the effects
    /// active over it (an empty list where there are none).
    pub fn kinetic_label(&self) -> (l: KineticLabel)
        ensures
            l.text@ == self.text@,
            l.kinesis matches Some(k) && effect_models(k@) == open_effects(self@.active),
            l.wrap is None,
            !l.truncate,
            l.sense is None,
    {
        let st = self.style();
        proof {
            lemma_style_effects_are_open_effects(self@.active);
        }
        KineticLabel::new(self.text.clone()).kinesis(st.kinesis)
    }
}

// ---------------------------------------------------------------------------
// Laws
// ---------------------------------------------------------------------------
proof fn lemma_text_end_plain(s: Seq<char>, i: int)
    requires
        0 <= i <= s.len(),
        forall|k: int| 0 <= k < s.len() ==> s[k] != '{',
    ensures
        text_end(s, i) == s.len(),
    decreases s.len() - i,
{
    if i < s.len() {
        lemma_text_end_plain(s, i + 1);
    }
}

/// Text without any `{` reads as one label with nothing active (or as no
/// label at all when it is empty).
pub proof fn lemma_plain_text_is_one_label(s: Seq<char>)
    requires
        forall|k: int| 0 <= k < s.len() ==> s[k] != '{',
    ensures
        s.len() == 0 ==> fireworks_spec(s) == FireworksModel::Parsed(seq![]),
        s.len() > 0 ==> fireworks_spec(s) == FireworksModel::Parsed(
            seq![LabelModel { text: s, active: seq![] }],
        ),
{
    if s.len() > 0 {
        lemma_text_end_plain(s, 0);
        assert(s.subrange(0, s.len() as int) =~= s);
        let acc = seq![].push(LabelModel { text: s, active: seq![] });
        assert(fireworks_from(s, s.len() as int, seq![], acc) == FireworksModel::Parsed(acc));
        assert(acc =~= seq![LabelModel { text: s, active: seq![] }]);
    }
}

proof fn lemma_first_closed_after_push(state: Seq<ModifierModel>, m: ModifierModel, i: int)
    requires
        0 <= i <= state.len(),
        forall|k: int| 0 <= k < state.len() ==> !closes(state[k], m),
        closes(m, m),
    ensures
        first_closed(state.push(m), m, i) == state.len(),
    decreases state.len() - i,
{
    if i < state.len() {
        lemma_first_closed_after_push(state, m, i + 1);
    }
}

/// Every modifier a tag can name closes itself.
pub proof fn lemma_modifier_closes_itself(m: ModifierModel)
    requires
        !(m is PrevOpen),
    ensures
        closes(m, m),
{
}

/// Opening a modifier and then closing it again gives back the modifiers
/// that were active before, provided none of those would be closed by it.
pub proof fn lemma_open_then_close(state: Seq<ModifierModel>, m: ModifierModel)
    requires
        !(m is PrevOpen),
        forall|k: int| 0 <= k < state.len() ==> !closes(state[k], m),
    ensures
        apply_transition(state, TransitionModel::Enable(m)) == Some(state.push(m)),
        apply_transition(state.push(m), TransitionModel::Disable(m)) == Some(state),
{
    lemma_first_closed_after_push(state, m, 0);
    assert(state.push(m).remove(state.len() as int) =~= state);
}

/// The empty closing tag `{/}` undoes the last opening tag, whatever it was.
pub proof fn lemma_empty_close_undoes_last_open(state: Seq<ModifierModel>, m: ModifierModel)
    requires
        !(m is PrevOpen),
    ensures
        apply_transition(state.push(m), TransitionModel::Disable(ModifierModel::PrevOpen))
            == Some(state),
{
    assert(state.push(m).drop_last() =~= state);
}

/// The empty opening tag `{}` changes nothing.
pub proof fn lemma_empty_open_is_inert(state: Seq<ModifierModel>)
    ensures
        apply_transition(state, TransitionModel::Enable(ModifierModel::PrevOpen)) == Some(state),
{
}

/// What holds of every label found: non-empty text without any `{`, taken
/// from the document, with no empty tag among the active modifiers.
pub open spec fn label_well_formed(s: Seq<char>, l: LabelModel) -> bool {
    &&& l.text.len() > 0
    &&& forall|k: int| 0 <= k < l.text.len() ==> l.text[k] != '{'
    &&& exists|a: int, b: int| 0 <= a < b <= s.len() && l.text == s.subrange(a, b)
    &&& forall|k: int| 0 <= k < l.active.len() ==> !(l.active[k] is PrevOpen)
}

proof fn lemma_first_closed_bounds(state: Seq<ModifierModel>, m: ModifierModel, i: int)
    requires
        0 <= i <= state.len(),
    ensures
        i <= first_closed(state, m, i) <= state.len(),
    decreases state.len() - i,
{
    if i < state.len() && !closes(state[i], m) {
        lemma_first_closed_bounds(state, m, i + 1);
    }
}

proof fn lemma_transition_keeps_no_empty(state: Seq<ModifierModel>, t: TransitionModel)
    requires
        forall|k: int| 0 <= k < state.len() ==> !(state[k] is PrevOpen),
    ensures
        apply_transition(state, t) matches Some(next) ==> forall|k: int|
            0 <= k < next.len() ==> !(next[k] is PrevOpen),
{
    match t {
        TransitionModel::Enable(m) => {},
        TransitionModel::Disable(m) => {
            if m is PrevOpen {
            } else {
                let k = first_closed(state, m, 0);
                lemma_first_closed_bounds(state, m, 0);
                if k < state.len() {
                    let next = state.remove(k);
                    assert forall|j: int| 0 <= j < next.len() implies !(next[j] is PrevOpen) by {
                        if j < k {
                            assert(next[j] == state[j]);
                        } else {
                            assert(next[j] == state[j + 1]);
                        }
                    }
                }
            }
        },
    }
}

proof fn lemma_reading_well_formed(
    s: Seq<char>,
    p: int,
    state: Seq<ModifierModel>,
    acc: Seq<LabelModel>,
)
    requires
        0 <= p,
        forall|k: int| 0 <= k < state.len() ==> !(state[k] is PrevOpen),
        forall|k: int| 0 <= k < acc.len() ==> label_well_formed(s, #[trigger] acc[k]),
    ensures
        fireworks_from(s, p, state, acc) matches FireworksModel::Parsed(labels) ==> forall|k: int|
            0 <= k < labels.len() ==> label_well_formed(s, #[trigger] labels[k]),
        fireworks_from(s, p, state, acc) matches FireworksModel::Stuck(q) ==> 0 <= q < s.len()
            && s[q] == '{',
    decreases s.len() - p,
{
    if p < s.len() {
        lemma_tag_advances(s, p);
        lemma_text_end_bounds(s, p);
        match tag_at(s, p) {
            TagOutcome::Tag(t, end) => {
                lemma_transition_keeps_no_empty(state, t);
                match apply_transition(state, t) {
                    Some(next) => lemma_reading_well_formed(s, end, next, acc),
                    None => {},
                }
            },
            TagOutcome::Aborts => {},
            TagOutcome::NoTag => {
                if s[p] != '{' {
                    let e = text_end(s, p);
                    let l = LabelModel { text: s.subrange(p, e), active: state };
                    assert(label_well_formed(s, l));
                    let acc2 = acc.push(l);
                    assert forall|k: int| 0 <= k < acc2.len() implies label_well_formed(
                        s,
                        #[trigger] acc2[k],
                    ) by {
                        if k < acc.len() {
                            assert(acc2[k] == acc[k]);
                        }
                    }
                    lemma_reading_well_formed(s, e, state, acc2);
                }
            },
        }
    }
}

/// Every label read from a document has non-empty text without any `{`,
/// taken from the document, and never carries an empty tag as a modifier;
/// a document that cannot be read stops at a `{`.
pub proof fn lemma_labels_well_formed(s: Seq<char>)
    ensures
        fireworks_spec(s) matches FireworksModel::Parsed(labels) ==> forall|k: int|
            0 <= k < labels.len() ==> label_well_formed(s, #[trigger] labels[k]),
        fireworks_spec(s) matches FireworksModel::Stuck(q) ==> 0 <= q < s.len() && s[q] == '{',
{
    lemma_reading_well_formed(s, 0, seq![], seq![]);
}

/// The document from position `p` on with every tag deleted: a tag is a `{`
/// with everything up to and including the next `}`; a `{` without a later
/// `}` starts no tag.
pub open spec fn untagged_from(s: Seq<char>, p: int) -> Seq<char>
    decreases s.len() - p,
{
    if p < 0 || p >= s.len() {
        Seq::empty()
    } else {
        proof {
            lemma_brace_end_bounds(s, p + 1);
        }
        if s[p] == '{' && brace_end(s, p + 1) < s.len() {
            untagged_from(s, brace_end(s, p + 1) + 1)
        } else {
            seq![s[p]] + untagged_from(s, p + 1)
        }
    }
}

/// The document with every tag deleted.
pub open spec fn untagged(s: Seq<char>) -> Seq<char> {
    untagged_from(s, 0)
}

/// The maximal runs of text between tags from position `p` on, in order; a
/// `{` without a later `}` ends them.
pub open spec fn text_runs_from(s: Seq<char>, p: int) -> Seq<Seq<char>>
    decreases s.len() - p,
{
    if p < 0 || p >= s.len() {
        Seq::empty()
    } else {
        proof {
            lemma_brace_end_bounds(s, p + 1);
            lemma_text_end_bounds(s, p);
        }
        if s[p] == '{' {
            if brace_end(s, p + 1) < s.len() {
                text_runs_from(s, brace_end(s, p + 1) + 1)
            } else {
                Seq::empty()
            }
        } else {
            seq![s.subrange(p, text_end(s, p))] + text_runs_from(s, text_end(s, p))
        }
    }
}

/// The maximal runs of text between the tags of a document, in order.
pub open spec fn text_runs(s: Seq<char>) -> Seq<Seq<char>> {
    text_runs_from(s, 0)
}

/// The texts of a sequence of labels, in order.
pub open spec fn label_texts(labels: Seq<LabelModel>) -> Seq<Seq<char>> {
    labels.map_values(|l: LabelModel| l.text)
}

proof fn lemma_untagged_run(s: Seq<char>, p: int)
    requires
        0 <= p <= s.len(),
    ensures
        untagged_from(s, p) == s.subrange(p, text_end(s, p)) + untagged_from(s, text_end(s, p)),
    decreases s.len() - p,
{
    lemma_text_end_bounds(s, p);
    if p < s.len() && s[p] != '{' {
        lemma_untagged_run(s, p + 1);
        assert(text_end(s, p) == text_end(s, p + 1));
        assert(s.subrange(p, text_end(s, p)) =~= seq![s[p]] + s.subrange(p + 1, text_end(s, p)));
        assert(untagged_from(s, p) == seq![s[p]] + untagged_from(s, p + 1));
        assert(untagged_from(s, p) =~= s.subrange(p, text_end(s, p)) + untagged_from(
            s,
            text_end(s, p),
        ));
    } else {
        assert(s.subrange(p, p) =~= Seq::<char>::empty());
        assert(s.subrange(p, text_end(s, p)) + untagged_from(s, text_end(s, p)) =~= untagged_from(
            s,
            p,
        ));
    }
}

proof fn lemma_tag_spans_to_brace(s: Seq<char>, p: int)
    requires
        0 <= p < s.len(),
    ensures
        tag_at(s, p) matches TagOutcome::Tag(_, end) ==> s[p] == '{' && brace_end(s, p + 1) < s.len()
            && end == brace_end(s, p + 1) + 1,
{
    if s[p] == '{' && s.len() - p > 1 && s[p + 1] == '/' {
        assert(brace_end(s, p + 1) == brace_end(s, p + 2));
    }
}

proof fn lemma_reading_keeps_text(
    s: Seq<char>,
    p: int,
    state: Seq<ModifierModel>,
    acc: Seq<LabelModel>,
)
    requires
        0 <= p <= s.len(),
    ensures
        fireworks_from(s, p, state, acc) matches FireworksModel::Parsed(labels) ==> {
            &&& label_texts(labels) == label_texts(acc) + text_runs_from(s, p)
            &&& label_texts(labels).flatten() == label_texts(acc).flatten() + untagged_from(s, p)
        },
    decreases s.len() - p,
{
    if p == s.len() {
        assert(label_texts(acc) + text_runs_from(s, p) =~= label_texts(acc));
        assert(label_texts(acc).flatten() + untagged_from(s, p) =~= label_texts(acc).flatten());
    } else {
        lemma_tag_advances(s, p);
        lemma_text_end_bounds(s, p);
        lemma_brace_end_bounds(s, p + 1);
        lemma_tag_spans_to_brace(s, p);
        match tag_at(s, p) {
            TagOutcome::Tag(t, end) => {
                match apply_transition(state, t) {
                    Some(next) => {
                        lemma_reading_keeps_text(s, end, next, acc);
                    },
                    None => {},
                }
            },
            TagOutcome::Aborts => {},
            TagOutcome::NoTag => {
                if s[p] != '{' {
                    let e = text_end(s, p);
                    let l = LabelModel { text: s.subrange(p, e), active: state };
                    let acc2 = acc.push(l);
                    lemma_reading_keeps_text(s, e, state, acc2);
                    assert(label_texts(acc2) =~= label_texts(acc).push(s.subrange(p, e)));
                    assert(text_runs_from(s, p) == seq![s.subrange(p, e)] + text_runs_from(s, e));
                    assert(label_texts(acc2) + text_runs_from(s, e) =~= label_texts(acc) + text_runs_from(s, p));
                    label_texts(acc).lemma_flatten_push(s.subrange(p, e));
                    lemma_untagged_run(s, p);
                    assert(label_texts(acc2).flatten() + untagged_from(s, e) =~= label_texts(acc).flatten()
                        + untagged_from(s, p));
                }
            },
        }
    }
}

/// Reading keeps the text: the labels of a document that reads are its
/// maximal runs of text between tags, one label to a run and in order, and
/// their texts put together give back the document with every tag deleted.
pub proof fn lemma_labels_keep_the_text(s: Seq<char>)
    ensures
        fireworks_spec(s) matches FireworksModel::Parsed(labels) ==> {
            &&& label_texts(labels) == text_runs(s)
            &&& label_texts(labels).flatten() == untagged(s)
        },
{
    lemma_reading_keeps_text(s, 0, seq![], seq![]);
    assert(label_texts(seq![]) =~= Seq::<Seq<char>>::empty());
    assert(label_texts(seq![]) + text_runs(s) =~= text_runs(s));
    assert(Seq::<Seq<char>>::empty().flatten() =~= Seq::<char>::empty());
    assert(Seq::<char>::empty() + untagged(s) =~= untagged(s));
}

/// The stack of open modifiers keeps the order in which they were opened:
/// an opening tag puts its modifier last, and a closing tag takes one entry
/// out and leaves the others in their order.
pub proof fn lemma_transitions_keep_opening_order(state: Seq<ModifierModel>, t: TransitionModel)
    ensures
        apply_transition(state, t) matches Some(next) ==> match t {
            TransitionModel::Enable(m) => if m is PrevOpen {
                next == state
            } else {
                next == state.push(m)
            },
            TransitionModel::Disable(_) => state.len() == 0 && next == state || exists|k: int|
                0 <= k < state.len() && next == state.remove(k),
        },
{
    if let TransitionModel::Disable(m) = t {
        if apply_transition(state, t) is Some && state.len() > 0 {
            if m is PrevOpen {
                assert(state.drop_last() =~= state.remove(state.len() - 1));
            } else {
                lemma_first_closed_bounds(state, m, 0);
                let k = first_closed(state, m, 0);
                assert(0 <= k < state.len() && state.remove(k) == state.remove(k));
            }
        }
    }
}

/// Each label of a document that reads is animated by the effects among the
/// modifiers open over its text, in the order in which they were opened.
pub proof fn lemma_labels_carry_open_effects(s: Seq<char>)
    ensures
        fireworks_spec(s) matches FireworksModel::Parsed(labels) ==> forall|k: int|
            0 <= k < labels.len() ==> #[trigger] style_of(labels[k].active).kinesis == open_effects(
                labels[k].active,
            ),
{
    if let FireworksModel::Parsed(labels) = fireworks_spec(s) {
        assert forall|k: int| 0 <= k < labels.len() implies #[trigger] style_of(
            labels[k].active,
        ).kinesis == open_effects(labels[k].active) by {
            lemma_style_effects_are_open_effects(labels[k].active);
        }
    }
}

/// The modifiers that a closing tag matches by equality: the styles,
/// italics and the effects.
pub open spec fn closes_by_equality(m: ModifierModel) -> bool {
    ||| m matches ModifierModel::Builtin(BuiltinOption::Style(_))
    ||| m matches ModifierModel::Builtin(BuiltinOption::Italics)
    ||| m is Effect
}

/// Closing a style, italics or an effect takes out only an active modifier
/// equal to it: a different style, for one, is left alone.
pub proof fn lemma_closing_matches_only_equal(tm: ModifierModel, m: ModifierModel)
    requires
        closes_by_equality(m),
    ensures
        closes(tm, m) <==> tm == m,
{
}

/// Closing a style, italics or an effect removes the earliest open modifier
/// equal to it and keeps the others in order; with no such modifier open,
/// the markup cannot be read.
pub proof fn lemma_closing_removes_first_equal(state: Seq<ModifierModel>, m: ModifierModel)
    requires
        closes_by_equality(m),
    ensures
        match apply_transition(state, TransitionModel::Disable(m)) {
            Some(next) => exists|k: int|
                0 <= k < state.len() && state[k] == m && (forall|j: int| 0 <= j < k ==> state[j] != m)
                    && next == state.remove(k),
            None => !state.contains(m),
        },
{
    lemma_first_closed_bounds(state, m, 0);
    lemma_first_closed_finds_first(state, m, 0);
    let k = first_closed(state, m, 0);
    if k < state.len() {
        assert(closes(state[k], m));
        assert forall|j: int| 0 <= j < k implies state[j] != m by {
            assert(!closes(state[j], m));
        }
    } else {
        assert forall|j: int| 0 <= j < state.len() implies state[j] != m by {
            assert(!closes(state[j], m));
        }
    }
}

proof fn lemma_first_closed_finds_first(state: Seq<ModifierModel>, m: ModifierModel, i: int)
    requires
        0 <= i <= state.len(),
    ensures
        first_closed(state, m, i) < state.len() ==> closes(state[first_closed(state, m, i)], m),
        forall|j: int| i <= j < first_closed(state, m, i) && j < state.len() ==> !closes(state[j], m),
    decreases state.len() - i,
{
    if i < state.len() && !closes(state[i], m) {
        lemma_first_closed_finds_first(state, m, i + 1);
    }
}

proof fn lemma_name_end_of_name(s: Seq<char>, i: int)
    requires
        0 <= i <= s.len(),
        forall|k: int| 0 <= k < s.len() ==> is_name_char(#[trigger] s[k]),
    ensures
        name_end(s, i) == s.len(),
    decreases s.len() - i,
{
    if i < s.len() {
        lemma_name_end_of_name(s, i + 1);
    }
}

proof fn lemma_whole_name(s: Seq<char>)
    requires
        forall|k: int| 0 <= k < s.len() ==> is_name_char(#[trigger] s[k]),
    ensures
        name_end(s, 0) == s.len(),
        modifier_args(s, s.len() as int) == Seq::<char>::empty(),
{
    lemma_name_end_of_name(s, 0);
    assert(s.subrange(s.len() as int, s.len() as int) =~= Seq::<char>::empty());
}

/// Each modifier name of the markup, without arguments, stands for its
/// modifier: `h` a heading, `mono` the monospace style, `small` the small
/// style, `i` italics, `p` the first-row indentation, and `gay`, `shakey`
/// and `wavy` the rainbow, jitter and sine effects with their defaults; an
/// empty name is the empty tag.
pub proof fn lemma_modifier_names()
    ensures
        modifier_spec("h"@) == ModifierOutcome::Parsed(ModifierModel::Builtin(BuiltinOption::Style(TextStyle::Heading))),
        modifier_spec("mono"@) == ModifierOutcome::Parsed(ModifierModel::Builtin(BuiltinOption::Style(TextStyle::Monospace))),
        modifier_spec("small"@) == ModifierOutcome::Parsed(ModifierModel::Builtin(BuiltinOption::Style(TextStyle::Small))),
        modifier_spec("i"@) == ModifierOutcome::Parsed(ModifierModel::Builtin(BuiltinOption::Italics)),
        modifier_spec("p"@) == ModifierOutcome::Parsed(ModifierModel::Builtin(BuiltinOption::FirstRowIndentation(10))),
        modifier_spec("gay"@) == ModifierOutcome::Parsed(ModifierModel::Effect(EffectModel::Gay(rainbow_default(), true, 20))),
        modifier_spec("shakey"@) == ModifierOutcome::Parsed(ModifierModel::Effect(EffectModel::ShakeLetters(shake_default()))),
        modifier_spec("wavy"@) == ModifierOutcome::Parsed(ModifierModel::Effect(EffectModel::SineWavify(sine_default()))),
        modifier_spec(Seq::<char>::empty()) == ModifierOutcome::Parsed(ModifierModel::PrevOpen),
{
    reveal_strlit("color");
    reveal_strlit("h");
    reveal_strlit("mono");
    reveal_strlit("p");
    reveal_strlit("gay");
    reveal_strlit("shakey");
    reveal_strlit("wavy");
    reveal_strlit("i");
    reveal_strlit("small");
    assert("h"@.len() != "color"@.len());
    assert("mono"@.len() != "color"@.len());
    assert("mono"@.len() != "h"@.len());
    assert("p"@.len() != "color"@.len());
    assert("p"@[0] != "h"@[0]);
    assert("p"@.len() != "mono"@.len());
    assert("gay"@.len() != "color"@.len());
    assert("gay"@.len() != "h"@.len());
    assert("gay"@.len() != "mono"@.len());
    assert("gay"@.len() != "p"@.len());
    assert("shakey"@.len() != "color"@.len());
    assert("shakey"@.len() != "h"@.len());
    assert("shakey"@.len() != "mono"@.len());
    assert("shakey"@.len() != "p"@.len());
    assert("shakey"@.len() != "gay"@.len());
    assert("wavy"@.len() != "color"@.len());
    assert("wavy"@.len() != "h"@.len());
    assert("wavy"@[0] != "mono"@[0]);
    assert("wavy"@.len() != "p"@.len());
    assert("wavy"@.len() != "gay"@.len());
    assert("wavy"@.len() != "shakey"@.len());
    assert("i"@.len() != "color"@.len());
    assert("i"@[0] != "h"@[0]);
    assert("i"@.len() != "mono"@.len());
    assert("i"@[0] != "p"@[0]);
    assert("i"@.len() != "gay"@.len());
    assert("i"@.len() != "shakey"@.len());
    assert("i"@.len() != "wavy"@.len());
    assert("small"@[0] != "color"@[0]);
    assert("small"@.len() != "h"@.len());
    assert("small"@.len() != "mono"@.len());
    assert("small"@.len() != "p"@.len());
    assert("small"@.len() != "gay"@.len());
    assert("small"@.len() != "shakey"@.len());
    assert("small"@.len() != "wavy"@.len());
    assert("small"@.len() != "i"@.len());
    lemma_whole_name("h"@);
    assert("h"@.subrange(0, "h"@.len() as int) =~= "h"@);
    lemma_whole_name("mono"@);
    assert("mono"@.subrange(0, "mono"@.len() as int) =~= "mono"@);
    lemma_whole_name("small"@);
    assert("small"@.subrange(0, "small"@.len() as int) =~= "small"@);
    lemma_whole_name("i"@);
    assert("i"@.subrange(0, "i"@.len() as int) =~= "i"@);
    lemma_whole_name("p"@);
    assert("p"@.subrange(0, "p"@.len() as int) =~= "p"@);
    lemma_whole_name("gay"@);
    assert("gay"@.subrange(0, "gay"@.len() as int) =~= "gay"@);
    lemma_whole_name("shakey"@);
    assert("shakey"@.subrange(0, "shakey"@.len() as int) =~= "shakey"@);
    lemma_whole_name("wavy"@);
    assert("wavy"@.subrange(0, "wavy"@.len() as int) =~= "wavy"@);
}

} // verus!
