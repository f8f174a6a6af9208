//! Model-client configuration: where the API key comes from.
//!
//! Resolving a key can require the environment, a dotenv file or a human
//! at a prompt — work the host performs.  The decisions, though, are all
//! here: which source to try first, what the fallback chain is after a
//! failed fetch, when to give up, and when a cached key short-circuits the
//! whole resolution.  The host runs a small loop: it asks `begin_key_resolution`
//! what to do, performs a `Fetch` with whatever I/O it takes, and feeds a
//! failure back into `key_failure_step` until the machine answers `Ready`
//! or `Abort`.

use vstd::prelude::*;
use vstd::string::*;

verus! {

/// The view of a key source.
pub enum KeySrcView {
    Dotenv,
    Sysenv,
    UserIn,
    Custom(Seq<char>),
}

/// Where an API key is taken from: a dotenv file, the process environment,
/// a human at a prompt, or a value supplied directly.
#[derive(Debug, PartialEq)]
pub enum OpenAIKeySrc {
    DOTENV,
    SYSENV,
    USERIN,
    CUSTOM(String),
}

impl View for OpenAIKeySrc {
    type V = KeySrcView;

    open spec fn view(&self) -> KeySrcView {
        match *self {
            OpenAIKeySrc::DOTENV => KeySrcView::Dotenv,
            OpenAIKeySrc::SYSENV => KeySrcView::Sysenv,
            OpenAIKeySrc::USERIN => KeySrcView::UserIn,
            OpenAIKeySrc::CUSTOM(s) => KeySrcView::Custom(s@),
        }
    }
}

impl OpenAIKeySrc {
    /// A copy of this source.
    pub fn dup(&self) -> (r: OpenAIKeySrc)
        ensures
            r@ == self@,
    {
        match self {
            OpenAIKeySrc::DOTENV => OpenAIKeySrc::DOTENV,
            OpenAIKeySrc::SYSENV => OpenAIKeySrc::SYSENV,
            OpenAIKeySrc::USERIN => OpenAIKeySrc::USERIN,
            OpenAIKeySrc::CUSTOM(s) => OpenAIKeySrc::CUSTOM(s.clone()),
        }
    }

    /// Whether two sources are the same, custom keys compared by value.
    pub fn same_as(&self, other: &OpenAIKeySrc) -> (r: bool)
        ensures
            r == (self@ == other@),
    {
        match (self, other) {
            (OpenAIKeySrc::DOTENV, OpenAIKeySrc::DOTENV) => true,
            (OpenAIKeySrc::SYSENV, OpenAIKeySrc::SYSENV) => true,
            (OpenAIKeySrc::USERIN, OpenAIKeySrc::USERIN) => true,
            (OpenAIKeySrc::CUSTOM(a), OpenAIKeySrc::CUSTOM(b)) => *a == *b,
            _ => false,
        }
    }
}

/// The view of an in-flight key resolution.
pub struct ResolutionView {
    pub pending: KeySrcView,
    pub fallback: Option<KeySrcView>,
    pub human: bool,
}

/// An in-flight key resolution: the source being fetched, the source to
/// fall back to if the fetch fails, and whether a human may be asked as
/// the fallback of last resort.
#[derive(Debug, PartialEq)]
pub struct KeyResolution {
    pub pending: OpenAIKeySrc,
    pub fallback: Option<OpenAIKeySrc>,
    pub human: bool,
}

impl View for KeyResolution {
    type V = ResolutionView;

    open spec fn view(&self) -> ResolutionView {
        ResolutionView {
            pending: self.pending@,
            fallback: match self.fallback {
                Some(s) => Some(s@),
                None => None,
            },
            human: self.human,
        }
    }
}

/// The view of a resolution step.
pub enum KeyStepView {
    Ready(Seq<char>),
    Fetch(ResolutionView),
    Abort,
}

/// What the host must do next to obtain a key: use the given one, fetch
/// from a source, or give up because the configuration offers no
/// fallback.
#[derive(Debug, PartialEq)]
pub enum KeyStep {
    Ready(String),
    Fetch(KeyResolution),
    Abort,
}

impl View for KeyStep {
    type V = KeyStepView;

    open spec fn view(&self) -> KeyStepView {
        match *self {
            KeyStep::Ready(k) => KeyStepView::Ready(k@),
            KeyStep::Fetch(res) => KeyStepView::Fetch(res@),
            KeyStep::Abort => KeyStepView::Abort,
        }
    }
}

/// The next step after a fetch failed: try the fallback source, or hand
/// over the custom key it holds, or give up when there is none.  A human
/// fallback retries the prompt until it yields a value.
pub open spec fn spec_failure_step(res: ResolutionView) -> KeyStepView {
    match res.fallback {
        None => KeyStepView::Abort,
        Some(KeySrcView::Custom(s)) => KeyStepView::Ready(s),
        Some(next) => KeyStepView::Fetch(
            ResolutionView {
                pending: next,
                fallback: if res.human {
                    Some(KeySrcView::UserIn)
                } else {
                    None
                },
                human: next is UserIn,
            },
        ),
    }
}

/// Decide what to do after a fetch of `resolution.pending` failed.
pub fn key_failure_step(resolution: KeyResolution) -> (r: KeyStep)
    ensures
        r@ == spec_failure_step(resolution@),
{
    match resolution.fallback {
        None => KeyStep::Abort,
        Some(OpenAIKeySrc::CUSTOM(s)) => KeyStep::Ready(s),
        Some(next) => {
            let human = match next {
                OpenAIKeySrc::USERIN => true,
                _ => false,
            };
            KeyStep::Fetch(
                KeyResolution {
                    pending: next,
                    fallback: if resolution.human {
                        Some(OpenAIKeySrc::USERIN)
                    } else {
                        None
                    },
                    human,
                },
            )
        },
    }
}

/// A model-client configuration: the key source to use, the cached key
/// from the last resolution, and the fallback policy.
pub struct GPT4 {
    pub api_src: OpenAIKeySrc,
    pub cached_src: Option<OpenAIKeySrc>,
    pub cached_key: String,
    pub fallback: Option<OpenAIKeySrc>,
    pub human_fallback_enabled: bool,
}

/// The first step of a key resolution for this configuration: the cached
/// key if the cached source still matches, a custom key directly, or a
/// fetch of the configured source with the configured fallback.
pub open spec fn spec_begin_resolution(g: GPT4) -> KeyStepView {
    if g.cached_src matches Some(c) && c@ == g.api_src@ {
        KeyStepView::Ready(g.cached_key@)
    } else {
        match g.api_src@ {
            KeySrcView::Custom(s) => KeyStepView::Ready(s),
            src => KeyStepView::Fetch(
                ResolutionView {
                    pending: src,
                    fallback: match g.fallback {
                        Some(f) => Some(f@),
                        None => None,
                    },
                    human: g.human_fallback_enabled,
                },
            ),
        }
    }
}

impl GPT4 {
    /// The default configuration: key from a dotenv file, nothing cached,
    /// no fallback, no human prompt.
    pub fn new() -> (r: GPT4)
        ensures
            r.api_src@ == KeySrcView::Dotenv,
            r.cached_src is None,
            r.cached_key@.len() == 0,
            r.fallback is None,
            !r.human_fallback_enabled,
    {
        GPT4 {
            api_src: OpenAIKeySrc::DOTENV,
            cached_src: None,
            cached_key: String::new(),
            fallback: None,
            human_fallback_enabled: false,
        }
    }

    /// Replace the key source.
    pub fn with_key(&mut self, key_src: OpenAIKeySrc)
        ensures
            final(self).api_src == key_src,
            final(self).cached_src == old(self).cached_src,
            final(self).cached_key == old(self).cached_key,
            final(self).fallback == old(self).fallback,
            final(self).human_fallback_enabled == old(self).human_fallback_enabled,
    {
        self.api_src = key_src;
    }

    /// Replace the fallback source.
    pub fn fallback_key(&mut self, fallback: Option<OpenAIKeySrc>)
        ensures
            final(self).api_src == old(self).api_src,
            final(self).cached_src == old(self).cached_src,
            final(self).cached_key == old(self).cached_key,
            final(self).fallback == fallback,
            final(self).human_fallback_enabled == old(self).human_fallback_enabled,
    {
        self.fallback = fallback;
    }

    /// Allow or forbid prompting a human as the fallback of last resort.
    pub fn human_fallback(&mut self, human_fallback: bool)
        ensures
            final(self).api_src == old(self).api_src,
            final(self).cached_src == old(self).cached_src,
            final(self).cached_key == old(self).cached_key,
            final(self).fallback == old(self).fallback,
            final(self).human_fallback_enabled == human_fallback,
    {
        self.human_fallback_enabled = human_fallback;
    }

    /// The model this configuration addresses.
    pub fn name(&self) -> (r: &str)
        ensures
            r@ == "gpt-4"@,
    {
        "gpt-4"
    }

    /// Start resolving a key for this configuration.
    pub fn begin_key_resolution(&self) -> (r: KeyStep)
        ensures
            r@ == spec_begin_resolution(*self),
    {
        let cached = match &self.cached_src {
            Some(c) => c.same_as(&self.api_src),
            None => false,
        };
        if cached {
            return KeyStep::Ready(self.cached_key.clone());
        }
        match &self.api_src {
            OpenAIKeySrc::CUSTOM(s) => KeyStep::Ready(s.clone()),
            src => KeyStep::Fetch(
                KeyResolution {
                    pending: src.dup(),
                    fallback: match &self.fallback {
                        Some(f) => Some(f.dup()),
                        None => None,
                    },
                    human: self.human_fallback_enabled,
                },
            ),
        }
    }

    /// Record a successfully resolved key: the cache now answers for the
    /// configured source.
    pub fn store_key(&mut self, key: String)
        ensures
            final(self).api_src == old(self).api_src,
            final(self).cached_src matches Some(c) && c@ == old(self).api_src@,
            final(self).cached_key == key,
            final(self).fallback == old(self).fallback,
            final(self).human_fallback_enabled == old(self).human_fallback_enabled,
    {
        self.cached_src = Some(self.api_src.dup());
        self.cached_key = key;
    }
}

/// Whether a character belongs to the Unicode white-space set — the set
/// `str::trim` strips.
pub open spec fn is_space(c: char) -> bool {
    (c as u32) == 9 || (c as u32) == 10 || (c as u32) == 11 || (c as u32) == 12 || (c as u32)
        == 13 || (c as u32) == 32 || (c as u32) == 0x85 || (c as u32) == 0xA0 || (c as u32)
        == 0x1680 || (0x2000 <= (c as u32) && (c as u32) <= 0x200A) || (c as u32) == 0x2028 || (
    c as u32) == 0x2029 || (c as u32) == 0x202F || (c as u32) == 0x205F || (c as u32) == 0x3000
}

/// Whether every character is whitespace — exactly the lines that
/// trimming would empty, the shape of an input that holds no key.
pub open spec fn blank(s: Seq<char>) -> bool {
    forall|i: int| 0 <= i < s.len() ==> is_space(#[trigger] s[i])
}

/// Whether a character belongs to the Unicode white-space set.
fn char_is_space(c: char) -> (r: bool)
    ensures
        r == is_space(c),
{
    let u = c as u32;
    u == 9 || u == 10 || u == 11 || u == 12 || u == 13 || u == 32 || u == 0x85 || u == 0xA0 || u
        == 0x1680 || (0x2000 <= u && u <= 0x200A) || u == 0x2028 || u == 0x2029 || u == 0x202F
        || u == 0x205F || u == 0x3000
}

/// The failure of reading a key from a human: what went wrong, in words.
#[derive(Debug, PartialEq)]
pub struct InputErr {
    pub report: &'static str,
}

impl InputErr {
    /// The input line held nothing but whitespace.
    pub fn empty_input() -> (r: InputErr)
        ensures
            r.report@ == "Empty string given"@,
    {
        InputErr { report: "Empty string given" }
    }

    /// The input line could not be read at all.
    pub fn read_failure() -> (r: InputErr)
        ensures
            r.report@ == "Error reading input to buffer"@,
    {
        InputErr { report: "Error reading input to buffer" }
    }

    /// What went wrong.
    pub fn report(&self) -> (r: &str)
        ensures
            r@ == self.report@,
    {
        self.report
    }
}

/// Validate a line a human entered at the key prompt: a line of nothing
/// but whitespace holds no key and is refused; any other line is the key,
/// kept exactly as entered.
pub fn validate_key_input(line: &str) -> (r: Result<String, InputErr>)
    ensures
        match r {
            Ok(s) => !blank(line@) && s@ == line@,
            Err(e) => blank(line@) && e.report@ == "Empty string given"@,
        },
{
    let n = line.unicode_len();
    let mut i: usize = 0;
    while i < n
        invariant
            i <= n,
            n as nat == line@.len(),
            forall|j: int| 0 <= j < i as int ==> is_space(#[trigger] line@[j]),
        decreases n - i,
    {
        if !char_is_space(line.get_char(i)) {
            return Ok(line.to_owned());
        }
        i = i + 1;
    }
    Err(InputErr::empty_input())
}

} // verus!
