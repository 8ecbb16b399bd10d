//! The backends that can answer.

use crate::encoding::{ascii_lower, lowercase, lowercased};
use crate::text::{is_space, same_text, trim, trimmed, trimmed_end, trimmed_start};
use vstd::prelude::*;
use vstd::utf8::is_ascii_chars;

verus! {

broadcast use vstd::string::group_string_axioms;

/// A backend that can answer.
#[derive(Debug, Clone, Copy, PartialEq, Eq, Structural)]
pub enum Backend {
    /// A local server with an OpenAI-compatible interface.
    Mi25,
    /// The OpenRouter service.
    OpenRouter,
    /// The `codex` command-line program.
    Codex,
}

/// The backend with exactly this name, or this short or long form of it.
pub open spec fn backend_for_key(key: Seq<char>) -> Option<Backend> {
    if key == "mi25"@ {
        Some(Backend::Mi25)
    } else if key == "openrouter"@ || key == "or"@ {
        Some(Backend::OpenRouter)
    } else if key == "codex"@ || key == "codex-cli"@ {
        Some(Backend::Codex)
    } else {
        None
    }
}

/// The backend that a name means, in any letter case and with any white space
/// around it.
pub open spec fn backend_named(name: Seq<char>) -> Option<Backend> {
    backend_for_key(lowercased(trimmed(name)))
}

impl Backend {
    /// The name of the backend.
    pub open spec fn label(self) -> Seq<char> {
        match self {
            Backend::Mi25 => "mi25"@,
            Backend::OpenRouter => "openrouter"@,
            Backend::Codex => "codex"@,
        }
    }

    /// The backend for a name in lower case without white space around it.
    pub fn from_key(key: &str) -> (backend: Option<Self>)
        ensures
            backend == backend_for_key(key@),
    {
        if same_text(key, "mi25") {
            Some(Backend::Mi25)
        } else if same_text(key, "openrouter") || same_text(key, "or") {
            Some(Backend::OpenRouter)
        } else if same_text(key, "codex") || same_text(key, "codex-cli") {
            Some(Backend::Codex)
        } else {
            None
        }
    }

    /// The backend that a name means.
    pub fn from_name(name: &str) -> (backend: Option<Self>)
        ensures
            backend == backend_named(name@),
    {
        let key = lowercase(trim(name));
        Self::from_key(key.as_str())
    }

    /// The name of the backend.
    pub fn name(self) -> (name: &'static str)
        ensures
            name@ == self.label(),
    {
        match self {
            Backend::Mi25 => "mi25",
            Backend::OpenRouter => "openrouter",
            Backend::Codex => "codex",
        }
    }
}

/// The name of a backend means that backend.
pub proof fn a_name_means_its_backend(backend: Backend)
    ensures
        backend_named(backend.label()) == Some(backend),
{
    reveal_strlit("mi25");
    reveal_strlit("openrouter");
    reveal_strlit("or");
    reveal_strlit("codex");
    reveal_strlit("codex-cli");
    let name = backend.label();
    assert forall|i: int| 0 <= i < name.len() implies !is_space(#[trigger] name[i]) && (
    name[i] as u32) < 128 && ascii_lower(name[i]) == name[i] by {}
    crate::text::trimming_keeps_inner_text(name);
    assert(is_ascii_chars(name));
    assert(lowercased(name) =~= name);
    assert(name[0] == "mi25"@[0] || name[0] == "openrouter"@[0] || name[0] == "codex"@[0]);
    assert("openrouter"@.len() != "mi25"@.len());
    assert("codex"@.len() != "openrouter"@.len());
}

/// Two ASCII names that differ in letter case only mean the same backend.
pub proof fn letter_case_does_not_matter(a: Seq<char>, b: Seq<char>)
    requires
        is_ascii_chars(a),
        is_ascii_chars(b),
        lowercased(a) == lowercased(b),
    ensures
        backend_named(a) == backend_named(b),
{
    lemma_trim_then_lower(a);
    lemma_trim_then_lower(b);
}

/// White space around a name does not matter.
pub proof fn outer_space_does_not_matter(name: Seq<char>)
    ensures
        backend_named(trimmed(name)) == backend_named(name),
{
    crate::text::trimming_is_idempotent(name);
}

proof fn lemma_trim_then_lower(s: Seq<char>)
    requires
        is_ascii_chars(s),
    ensures
        lowercased(trimmed(s)) == trimmed(lowercased(s)),
{
    lemma_trim_start_then_lower(s);
    lemma_trim_end_then_lower(trimmed_start(s));
}

proof fn lemma_trim_start_then_lower(s: Seq<char>)
    requires
        is_ascii_chars(s),
    ensures
        is_ascii_chars(trimmed_start(s)),
        lowercased(trimmed_start(s)) == trimmed_start(lowercased(s)),
    decreases s.len(),
{
    if s.len() > 0 && is_space(s[0]) {
        let rest = s.drop_first();
        assert forall|i: int| 0 <= i < rest.len() implies rest[i] == s[i + 1] by {}
        lemma_trim_start_then_lower(rest);
        assert(lowercased(s).drop_first() =~= lowercased(rest));
    } else if s.len() > 0 {
        assert(lowercased(s)[0] == ascii_lower(s[0]));
    }
}

proof fn lemma_trim_end_then_lower(s: Seq<char>)
    requires
        is_ascii_chars(s),
    ensures
        is_ascii_chars(trimmed_end(s)),
        lowercased(trimmed_end(s)) == trimmed_end(lowercased(s)),
    decreases s.len(),
{
    if s.len() > 0 && is_space(s.last()) {
        let rest = s.drop_last();
        assert forall|i: int| 0 <= i < rest.len() implies rest[i] == s[i] by {}
        lemma_trim_end_then_lower(rest);
        assert(lowercased(s).drop_last() =~= lowercased(rest));
    } else if s.len() > 0 {
        assert(lowercased(s).last() == ascii_lower(s.last()));
    }
}

/// A backend is meant by its name or by its short or long form and by nothing
/// else, and no name means two backends.
pub proof fn only_known_names_mean_a_backend(name: Seq<char>)
    ensures
        ({
            let key = lowercased(trimmed(name));
            &&& backend_named(name) == Some(Backend::Mi25) <==> key == "mi25"@
            &&& backend_named(name) == Some(Backend::OpenRouter) <==> key == "openrouter"@ || key
                == "or"@
            &&& backend_named(name) == Some(Backend::Codex) <==> key == "codex"@ || key
                == "codex-cli"@
        }),
{
    reveal_strlit("mi25");
    reveal_strlit("openrouter");
    reveal_strlit("or");
    reveal_strlit("codex");
    reveal_strlit("codex-cli");
    assert("mi25"@.len() == 4 && "openrouter"@.len() == 10 && "or"@.len() == 2);
    assert("codex"@.len() == 5 && "codex-cli"@.len() == 9);
}

} // verus!
