//! Selection of the text-generation provider.  The providers themselves
//! perform network calls and live outside the library; only the choice of
//! provider from a configuration string is made here.

use vstd::prelude::*;
use crate::strutil::ascii_lowercase;
use crate::strutil::lower_seq;
use crate::strutil::str_eq;

verus! {

/// Available text-generation providers.
#[derive(Debug, Clone, Copy, PartialEq, Eq, Structural)]
pub enum LlmProviderType {
    Qwen,
    MiniMax,
    OpenAI,
}

/// The provider a configuration string names; unknown strings fall back to
/// the first provider.
pub open spec fn spec_provider_type(l: Seq<char>) -> LlmProviderType {
    if l == "minimax"@ {
        LlmProviderType::MiniMax
    } else if l == "openai"@ || l == "gpt"@ {
        LlmProviderType::OpenAI
    } else {
        LlmProviderType::Qwen
    }
}

impl LlmProviderType {
    /// Reads a provider name, case-insensitively; unknown names fall back
    /// to the first provider.
    pub fn from_str(s: &str) -> (r: LlmProviderType)
        ensures
            r == spec_provider_type(lower_seq(s@)),
    {
        let lower = ascii_lowercase(s);
        let l = lower.as_str();
        if str_eq(l, "minimax") {
            LlmProviderType::MiniMax
        } else if str_eq(l, "openai") || str_eq(l, "gpt") {
            LlmProviderType::OpenAI
        } else {
            LlmProviderType::Qwen
        }
    }
}

} // verus!
