//! Reading the values of the renderer's command-line options.
use crate::color::chars_match_literal;
use crate::text::{chars_of, string_of};
use vstd::prelude::*;

verus! {

/// A graphics backend.
#[derive(Clone, Copy, PartialEq, Eq, Structural, Debug)]
pub enum Backend {
    Vulkan,
    Dx12,
    Dx11,
    Metal,
    Gl,
}

/// Whether the CPU or the GPU drives rendering.
#[derive(Clone, Copy, PartialEq, Eq, Structural, Debug)]
pub enum RendererProfile {
    CpuDriven,
    GpuDriven,
}

/// The number of samples per pixel for antialiasing.
#[derive(Clone, Copy, PartialEq, Eq, Structural, Debug)]
pub enum SampleCount {
    One,
    Four,
}

/// How frames are handed to the display.
#[derive(Clone, Copy, PartialEq, Eq, Structural, Debug)]
pub enum PresentMode {
    Immediate,
    Fifo,
    FifoRelaxed,
    Mailbox,
}

/// Why an option's value was refused.
#[derive(Clone, Copy, PartialEq, Eq, Structural, Debug)]
pub enum SettingError {
    UnknownBackend,
    UnknownRenderMode,
    InvalidMsaaCount,
    /// The present mode is unknown; it is reported with the same words as a
    /// bad sample count.
    InvalidVsyncMode,
}

impl SettingError {
    /// The message shown for the error.
    pub fn message(&self) -> (m: &'static str)
        ensures
            m@ == match *self {
                SettingError::UnknownBackend => "unknown backend"@,
                SettingError::UnknownRenderMode => "unknown rendermode"@,
                SettingError::InvalidMsaaCount => "invalid msaa count"@,
                SettingError::InvalidVsyncMode => "invalid msaa count"@,
            },
    {
        match self {
            SettingError::UnknownBackend => "unknown backend",
            SettingError::UnknownRenderMode => "unknown rendermode",
            SettingError::InvalidMsaaCount => "invalid msaa count",
            SettingError::InvalidVsyncMode => "invalid msaa count",
        }
    }
}

/// The string that `str::to_lowercase` returns for `s`.
pub uninterp spec fn str_to_lowercase(s: Seq<char>) -> Seq<char>;

/// Calls `str::to_lowercase`, which maps each character to its Unicode
/// lower-case form. The contract only names the result; the case mapping
/// itself is not stated.
#[verifier::external_body]
fn lowercase_of(s: &str) -> (l: String)
    ensures
        l@ == str_to_lowercase(s@),
{
    s.to_lowercase()
}

/// The string that `str::trim` returns for `s`.
pub uninterp spec fn str_trim(s: Seq<char>) -> Seq<char>;

/// Calls `str::trim`, which drops leading and trailing Unicode white space,
/// and copies the result. The contract only names the result; which
/// characters count as white space is not stated.
#[verifier::external_body]
fn trimmed(s: &str) -> (t: String)
    ensures
        t@ == str_trim(s@),
{
    s.trim().to_string()
}

/// The backend that a lower-case name stands for.
pub open spec fn backend_named(name: Seq<char>) -> Option<Backend> {
    if name == "vulkan"@ || name == "vk"@ {
        Some(Backend::Vulkan)
    } else if name == "dx12"@ || name == "12"@ {
        Some(Backend::Dx12)
    } else if name == "dx11"@ || name == "11"@ {
        Some(Backend::Dx11)
    } else if name == "metal"@ || name == "mtl"@ {
        Some(Backend::Metal)
    } else if name == "opengl"@ || name == "gl"@ {
        Some(Backend::Gl)
    } else {
        None
    }
}

/// The rendering profile that a lower-case name stands for.
pub open spec fn profile_named(name: Seq<char>) -> Option<RendererProfile> {
    if name == "legacy"@ || name == "c"@ || name == "cpu"@ {
        Some(RendererProfile::CpuDriven)
    } else if name == "modern"@ || name == "g"@ || name == "gpu"@ {
        Some(RendererProfile::GpuDriven)
    } else {
        None
    }
}

/// The sample count that a value stands for, as it is written.
pub open spec fn samples_named(name: Seq<char>) -> Option<SampleCount> {
    if name == "1"@ {
        Some(SampleCount::One)
    } else if name == "4"@ {
        Some(SampleCount::Four)
    } else {
        None
    }
}

/// The present mode that a lower-case name stands for.
pub open spec fn present_mode_named(name: Seq<char>) -> Option<PresentMode> {
    if name == "immediate"@ {
        Some(PresentMode::Immediate)
    } else if name == "fifo"@ {
        Some(PresentMode::Fifo)
    } else if name == "fifo_relaxed"@ {
        Some(PresentMode::FifoRelaxed)
    } else if name == "mailbox"@ {
        Some(PresentMode::Mailbox)
    } else {
        None
    }
}

/// A found value, or the given error.
pub open spec fn found_or<T>(v: Option<T>, e: SettingError) -> Result<T, SettingError> {
    match v {
        Some(x) => Ok(x),
        None => Err(e),
    }
}

/// The backend named by an option value, in any letter case.
pub fn extract_backend(value: &str) -> (r: Result<Backend, SettingError>)
    ensures
        r == found_or(backend_named(str_to_lowercase(value@)), SettingError::UnknownBackend),
{
    let lower = lowercase_of(value);
    let v = chars_of(lower.as_str());
    let n = v.len();
    assert(v@.subrange(0, n as int) =~= v@);
    if chars_match_literal(&v, 0, n, "vulkan") || chars_match_literal(&v, 0, n, "vk") {
        Ok(Backend::Vulkan)
    } else if chars_match_literal(&v, 0, n, "dx12") || chars_match_literal(&v, 0, n, "12") {
        Ok(Backend::Dx12)
    } else if chars_match_literal(&v, 0, n, "dx11") || chars_match_literal(&v, 0, n, "11") {
        Ok(Backend::Dx11)
    } else if chars_match_literal(&v, 0, n, "metal") || chars_match_literal(&v, 0, n, "mtl") {
        Ok(Backend::Metal)
    } else if chars_match_literal(&v, 0, n, "opengl") || chars_match_literal(&v, 0, n, "gl") {
        Ok(Backend::Gl)
    } else {
        Err(SettingError::UnknownBackend)
    }
}

/// The rendering profile named by an option value, in any letter case.
pub fn extract_profile(value: &str) -> (r: Result<RendererProfile, SettingError>)
    ensures
        r == found_or(profile_named(str_to_lowercase(value@)), SettingError::UnknownRenderMode),
{
    let lower = lowercase_of(value);
    let v = chars_of(lower.as_str());
    let n = v.len();
    assert(v@.subrange(0, n as int) =~= v@);
    if chars_match_literal(&v, 0, n, "legacy") || chars_match_literal(&v, 0, n, "c")
        || chars_match_literal(&v, 0, n, "cpu") {
        Ok(RendererProfile::CpuDriven)
    } else if chars_match_literal(&v, 0, n, "modern") || chars_match_literal(&v, 0, n, "g")
        || chars_match_literal(&v, 0, n, "gpu") {
        Ok(RendererProfile::GpuDriven)
    } else {
        Err(SettingError::UnknownRenderMode)
    }
}

/// The sample count named by an option value, which must be written
/// exactly.
pub fn extract_msaa(value: &str) -> (r: Result<SampleCount, SettingError>)
    ensures
        r == found_or(samples_named(value@), SettingError::InvalidMsaaCount),
{
    let v = chars_of(value);
    let n = v.len();
    assert(v@.subrange(0, n as int) =~= v@);
    if chars_match_literal(&v, 0, n, "1") {
        Ok(SampleCount::One)
    } else if chars_match_literal(&v, 0, n, "4") {
        Ok(SampleCount::Four)
    } else {
        Err(SettingError::InvalidMsaaCount)
    }
}

/// The present mode named by an option value, in any letter case:
/// `immediate`, `fifo`, `fifo_relaxed` or `mailbox`.
pub fn extract_vsync(value: &str) -> (r: Result<PresentMode, SettingError>)
    ensures
        r == found_or(present_mode_named(str_to_lowercase(value@)), SettingError::InvalidVsyncMode),
{
    let lower = lowercase_of(value);
    let v = chars_of(lower.as_str());
    let n = v.len();
    assert(v@.subrange(0, n as int) =~= v@);
    if chars_match_literal(&v, 0, n, "immediate") {
        Ok(PresentMode::Immediate)
    } else if chars_match_literal(&v, 0, n, "fifo") {
        Ok(PresentMode::Fifo)
    } else if chars_match_literal(&v, 0, n, "fifo_relaxed") {
        Ok(PresentMode::FifoRelaxed)
    } else if chars_match_literal(&v, 0, n, "mailbox") {
        Ok(PresentMode::Mailbox)
    } else {
        Err(SettingError::InvalidVsyncMode)
    }
}

/// The device name that devices are matched against: the option value in
/// lower case, so that the match ignores letter case.
pub fn device_name_filter(name: &str) -> (f: String)
    ensures
        f@ == str_to_lowercase(name@),
{
    lowercase_of(name)
}

/// The pieces of `s` between commas, as splitting at every comma gives
/// them: one more piece than there are commas, empty pieces included.
pub open spec fn comma_fields(s: Seq<char>) -> Seq<Seq<char>>
    decreases s.len(),
{
    if s.len() == 0 {
        seq![Seq::empty()]
    } else {
        let init = comma_fields(s.drop_last());
        if s.last() == ',' {
            init.push(Seq::empty())
        } else {
            init.update(init.len() - 1, init.last().push(s.last()))
        }
    }
}

proof fn lemma_comma_fields_nonempty(s: Seq<char>)
    ensures
        comma_fields(s).len() >= 1,
    decreases s.len(),
{
    if s.len() > 0 {
        lemma_comma_fields_nonempty(s.drop_last());
    }
}

/// The comma-separated fields of a list option, each without surrounding
/// white space, where there are exactly `count` of them; `None` where the
/// count differs.
pub fn argument_fields(value: &str, count: usize) -> (r: Option<Vec<String>>)
    ensures
        match r {
            Some(fields) => {
                &&& comma_fields(value@).len() == count
                &&& fields@.len() == count
                &&& forall|i: int| 0 <= i < count ==> #[trigger] fields@[i]@ == str_trim(
                    comma_fields(value@)[i],
                )
            },
            None => comma_fields(value@).len() != count,
        },
{
    let v = chars_of(value);
    let mut done: Vec<Vec<char>> = Vec::new();
    let mut cur: Vec<char> = Vec::new();
    for i in 0..v.len()
        invariant
            v@ == value@,
            comma_fields(v@.take(i as int)) == done@.map_values(|f: Vec<char>| f@).push(cur@),
    {
        proof {
            assert(v@.take(i + 1).drop_last() =~= v@.take(i as int));
            lemma_comma_fields_nonempty(v@.take(i as int));
        }
        if v[i] == ',' {
            let finished = cur;
            cur = Vec::new();
            done.push(finished);
            assert(done@.map_values(|f: Vec<char>| f@).push(cur@) =~= comma_fields(v@.take(i as int)).push(Seq::empty()));
        } else {
            cur.push(v[i]);
            assert(done@.map_values(|f: Vec<char>| f@).push(cur@) =~= comma_fields(
                v@.take(i as int),
            ).update(
                comma_fields(v@.take(i as int)).len() - 1,
                comma_fields(v@.take(i as int)).last().push(v@[i as int]),
            ));
        }
    }
    assert(v@.take(v@.len() as int) =~= value@);
    let ghost all = comma_fields(value@);
    if done.len() >= count || done.len() + 1 != count {
        return None;
    }
    let mut fields: Vec<String> = Vec::new();
    for i in 0..done.len()
        invariant
            all == done@.map_values(|f: Vec<char>| f@).push(cur@),
            fields@.len() == i,
            forall|j: int| 0 <= j < i ==> #[trigger] fields@[j]@ == str_trim(all[j]),
    {
        let piece = string_of(&done[i], 0, done[i].len());
        assert(done@[i as int]@.subrange(0, done@[i as int]@.len() as int) =~= done@[i as int]@);
        fields.push(trimmed(piece.as_str()));
    }
    let last = string_of(&cur, 0, cur.len());
    assert(cur@.subrange(0, cur@.len() as int) =~= cur@);
    fields.push(trimmed(last.as_str()));
    Some(fields)
}

/// Each backend name that the help text lists, and its long or short
/// alias, reads as its backend, and no other name does.
pub proof fn lemma_backend_names(name: Seq<char>)
    ensures
        backend_named("vulkan"@) == Some(Backend::Vulkan),
        backend_named("vk"@) == Some(Backend::Vulkan),
        backend_named("dx12"@) == Some(Backend::Dx12),
        backend_named("12"@) == Some(Backend::Dx12),
        backend_named("dx11"@) == Some(Backend::Dx11),
        backend_named("11"@) == Some(Backend::Dx11),
        backend_named("metal"@) == Some(Backend::Metal),
        backend_named("mtl"@) == Some(Backend::Metal),
        backend_named("opengl"@) == Some(Backend::Gl),
        backend_named("gl"@) == Some(Backend::Gl),
        backend_named(name) is Some ==> (name == "vulkan"@ || name == "vk"@ || name == "dx12"@ || name == "12"@ || name == "dx11"@ || name == "11"@ || name == "metal"@ || name == "mtl"@ || name == "opengl"@ || name == "gl"@),
{
    reveal_strlit("vulkan");
    reveal_strlit("vk");
    reveal_strlit("dx12");
    reveal_strlit("12");
    reveal_strlit("dx11");
    reveal_strlit("11");
    reveal_strlit("metal");
    reveal_strlit("mtl");
    reveal_strlit("opengl");
    reveal_strlit("gl");
    assert("vk"@.len() != "vulkan"@.len());
    assert("dx12"@.len() != "vulkan"@.len());
    assert("dx12"@.len() != "vk"@.len());
    assert("12"@.len() != "vulkan"@.len());
    assert("12"@[0] != "vk"@[0]);
    assert("12"@.len() != "dx12"@.len());
    assert("dx11"@.len() != "vulkan"@.len());
    assert("dx11"@.len() != "vk"@.len());
    assert("dx11"@[3] != "dx12"@[3]);
    assert("dx11"@.len() != "12"@.len());
    assert("11"@.len() != "vulkan"@.len());
    assert("11"@[0] != "vk"@[0]);
    assert("11"@.len() != "dx12"@.len());
    assert("11"@[1] != "12"@[1]);
    assert("11"@.len() != "dx11"@.len());
    assert("metal"@.len() != "vulkan"@.len());
    assert("metal"@.len() != "vk"@.len());
    assert("metal"@.len() != "dx12"@.len());
    assert("metal"@.len() != "12"@.len());
    assert("metal"@.len() != "dx11"@.len());
    assert("metal"@.len() != "11"@.len());
    assert("mtl"@.len() != "vulkan"@.len());
    assert("mtl"@.len() != "vk"@.len());
    assert("mtl"@.len() != "dx12"@.len());
    assert("mtl"@.len() != "12"@.len());
    assert("mtl"@.len() != "dx11"@.len());
    assert("mtl"@.len() != "11"@.len());
    assert("mtl"@.len() != "metal"@.len());
    assert("opengl"@[0] != "vulkan"@[0]);
    assert("opengl"@.len() != "vk"@.len());
    assert("opengl"@.len() != "dx12"@.len());
    assert("opengl"@.len() != "12"@.len());
    assert("opengl"@.len() != "dx11"@.len());
    assert("opengl"@.len() != "11"@.len());
    assert("opengl"@.len() != "metal"@.len());
    assert("opengl"@.len() != "mtl"@.len());
    assert("gl"@.len() != "vulkan"@.len());
    assert("gl"@[0] != "vk"@[0]);
    assert("gl"@.len() != "dx12"@.len());
    assert("gl"@[0] != "12"@[0]);
    assert("gl"@.len() != "dx11"@.len());
    assert("gl"@[0] != "11"@[0]);
    assert("gl"@.len() != "metal"@.len());
    assert("gl"@.len() != "mtl"@.len());
    assert("gl"@.len() != "opengl"@.len());
}

/// The CPU-driven profile is `legacy`, `c` or `cpu`, the GPU-driven one
/// `modern`, `g` or `gpu`, and no other name is a profile.
pub proof fn lemma_profile_names(name: Seq<char>)
    ensures
        profile_named("legacy"@) == Some(RendererProfile::CpuDriven),
        profile_named("c"@) == Some(RendererProfile::CpuDriven),
        profile_named("cpu"@) == Some(RendererProfile::CpuDriven),
        profile_named("modern"@) == Some(RendererProfile::GpuDriven),
        profile_named("g"@) == Some(RendererProfile::GpuDriven),
        profile_named("gpu"@) == Some(RendererProfile::GpuDriven),
        profile_named(name) is Some ==> (name == "legacy"@ || name == "c"@ || name == "cpu"@ || name == "modern"@ || name == "g"@ || name == "gpu"@),
{
    reveal_strlit("legacy");
    reveal_strlit("c");
    reveal_strlit("cpu");
    reveal_strlit("modern");
    reveal_strlit("g");
    reveal_strlit("gpu");
    assert("c"@.len() != "legacy"@.len());
    assert("cpu"@.len() != "legacy"@.len());
    assert("cpu"@.len() != "c"@.len());
    assert("modern"@[0] != "legacy"@[0]);
    assert("modern"@.len() != "c"@.len());
    assert("modern"@.len() != "cpu"@.len());
    assert("g"@.len() != "legacy"@.len());
    assert("g"@[0] != "c"@[0]);
    assert("g"@.len() != "cpu"@.len());
    assert("g"@.len() != "modern"@.len());
    assert("gpu"@.len() != "legacy"@.len());
    assert("gpu"@.len() != "c"@.len());
    assert("gpu"@[0] != "cpu"@[0]);
    assert("gpu"@.len() != "modern"@.len());
    assert("gpu"@.len() != "g"@.len());
}

/// The sample counts are written `1` and `4`, and nothing else is one.
pub proof fn lemma_sample_counts(name: Seq<char>)
    ensures
        samples_named("1"@) == Some(SampleCount::One),
        samples_named("4"@) == Some(SampleCount::Four),
        samples_named(name) is Some ==> (name == "1"@ || name == "4"@),
{
    reveal_strlit("1");
    reveal_strlit("4");
    assert("4"@[0] != "1"@[0]);
}

/// Each vsync mode that the help text lists reads as its present mode, and
/// no other name does.
pub proof fn lemma_present_mode_names(name: Seq<char>)
    ensures
        present_mode_named("immediate"@) == Some(PresentMode::Immediate),
        present_mode_named("fifo"@) == Some(PresentMode::Fifo),
        present_mode_named("fifo_relaxed"@) == Some(PresentMode::FifoRelaxed),
        present_mode_named("mailbox"@) == Some(PresentMode::Mailbox),
        present_mode_named(name) is Some ==> (name == "immediate"@ || name == "fifo"@ || name == "fifo_relaxed"@ || name == "mailbox"@),
{
    reveal_strlit("immediate");
    reveal_strlit("fifo");
    reveal_strlit("fifo_relaxed");
    reveal_strlit("mailbox");
    assert("fifo"@.len() != "immediate"@.len());
    assert("fifo_relaxed"@.len() != "immediate"@.len());
    assert("fifo_relaxed"@.len() != "fifo"@.len());
    assert("mailbox"@.len() != "immediate"@.len());
    assert("mailbox"@.len() != "fifo"@.len());
    assert("mailbox"@.len() != "fifo_relaxed"@.len());
}

} // verus!
