//! Choices that depend on the model provider: which kind of API it speaks, the model
//! name sent, the endpoint, the request headers and the token accounting.

use vstd::prelude::*;
use crate::agent::conversation::TokenUsage;
use crate::text::{
    chars_of, find_char, seq_contains, seq_starts_with, str_contains, str_eq, str_starts_with,
    str_to_string, string_from_chars, push_str, trim_end_char, trim_end_matches_char, concat3,
};

verus! {

/// The provider is exactly `ollama`.
pub open spec fn spec_is_ollama(provider: Option<Seq<char>>) -> bool {
    provider == Some("ollama"@)
}

/// The provider name mentions `anthropic`.
pub open spec fn spec_is_anthropic(provider: Option<Seq<char>>) -> bool {
    match provider {
        Some(p) => seq_contains(p, "anthropic"@),
        None => false,
    }
}

/// The provider name mentions `deepseek`.
pub open spec fn spec_is_deepseek(provider: Option<Seq<char>>) -> bool {
    match provider {
        Some(p) => seq_contains(p, "deepseek"@),
        None => false,
    }
}

/// The view of an optional string.
pub open spec fn opt_view(s: Option<String>) -> Option<Seq<char>> {
    match s {
        Some(x) => Some(x@),
        None => None,
    }
}

/// Whether the provider is a local Ollama server.
pub fn is_ollama_provider(provider: &Option<String>) -> (r: bool)
    ensures
        r == spec_is_ollama(opt_view(*provider)),
{
    match provider {
        Some(p) => str_eq(p.as_str(), "ollama"),
        None => false,
    }
}

/// Whether the provider speaks Anthropic's API.
pub fn is_anthropic_provider(provider: &Option<String>) -> (r: bool)
    ensures
        r == spec_is_anthropic(opt_view(*provider)),
{
    match provider {
        Some(p) => str_contains(p.as_str(), "anthropic"),
        None => false,
    }
}

/// Whether the provider is DeepSeek.
pub fn is_deepseek_provider(provider: &Option<String>) -> (r: bool)
    ensures
        r == spec_is_deepseek(opt_view(*provider)),
{
    match provider {
        Some(p) => str_contains(p.as_str(), "deepseek"),
        None => false,
    }
}

/// The model name sent to the API: a provider name with a `/` is used as it is;
/// otherwise the part of the model name after its first `/`, or the whole model name.
pub open spec fn spec_model_name(provider: Option<Seq<char>>, model: Seq<char>) -> Seq<char> {
    if provider matches Some(p) && seq_contains(p, "/"@) {
        provider->Some_0
    } else if exists|i: int| 0 <= i < model.len() && model[i] == '/' {
        let i = choose|i: int| 0 <= i < model.len() && model[i] == '/' && forall|j: int| 0 <= j < i ==> model[j] != '/';
        model.subrange(i + 1, model.len() as int)
    } else {
        model
    }
}

/// The model name to put in a request.
pub fn resolve_model_name(provider: &Option<String>, model: &str) -> (r: String)
    ensures
        r@ == spec_model_name(opt_view(*provider), model@),
{
    if let Some(p) = provider {
        if str_contains(p.as_str(), "/") {
            return p.clone();
        }
    }
    let m = chars_of(model);
    match find_char(&m, '/') {
        Some(pos) => {
            let ml = m.len();
            assert(pos < ml);
            let mut rest: Vec<char> = Vec::new();
            let mut k = pos + 1;
            while k < m.len()
                invariant
                    pos < k <= m@.len(),
                    rest@ == m@.subrange(pos + 1, k as int),
                decreases m.len() - k,
            {
                rest.push(m[k]);
                k = k + 1;
                assert(rest@ =~= m@.subrange(pos + 1, k as int));
            }
            proof {
                let i = choose|i: int| 0 <= i < m@.len() && m@[i] == '/' && forall|j: int| 0 <= j < i ==> m@[j] != '/';
                if i < pos {
                } else if i > pos {
                    assert(m@[pos as int] == '/');
                }
                assert(i == pos);
            }
            string_from_chars(&rest)
        },
        None => str_to_string(model),
    }
}

/// The base address when none is configured, chosen by the provider's name.
pub open spec fn default_base_url(provider: Option<Seq<char>>) -> Seq<char> {
    match provider {
        Some(p) => if seq_starts_with(p, "openai"@) {
            "https://api.openai.com/v1"@
        } else if seq_starts_with(p, "ollama"@) {
            "http://localhost:11434/v1"@
        } else if seq_starts_with(p, "deepseek"@) {
            "https://api.deepseek.com/v1"@
        } else {
            "http://localhost:11434/v1"@
        },
        None => "http://localhost:11434/v1"@,
    }
}

/// The address a chat request is posted to.
pub open spec fn spec_endpoint(provider: Option<Seq<char>>, api_base_url: Option<Seq<char>>) -> Seq<char> {
    if spec_is_anthropic(provider) {
        let base = match api_base_url {
            Some(u) => trim_end_char(u, '/'),
            None => "https://api.anthropic.com/v1"@,
        };
        base + "/messages"@
    } else {
        let base = match api_base_url {
            Some(u) => if spec_is_ollama(provider) && !seq_contains(u, "/v1"@) {
                trim_end_char(u, '/') + "/v1"@
            } else {
                u
            },
            None => default_base_url(provider),
        };
        base + "/chat/completions"@
    }
}

/// The address a chat request is posted to.
pub fn chat_endpoint(provider: &Option<String>, api_base_url: &Option<String>) -> (r: String)
    ensures
        r@ == spec_endpoint(opt_view(*provider), opt_view(*api_base_url)),
{
    if is_anthropic_provider(provider) {
        let mut base = match api_base_url {
            Some(u) => trim_end_matches_char(u.as_str(), '/'),
            None => str_to_string("https://api.anthropic.com/v1"),
        };
        push_str(&mut base, "/messages");
        base
    } else {
        let mut base = match api_base_url {
            Some(u) => if is_ollama_provider(provider) && !str_contains(u.as_str(), "/v1") {
                let mut b = trim_end_matches_char(u.as_str(), '/');
                push_str(&mut b, "/v1");
                b
            } else {
                u.clone()
            },
            None => match provider {
                Some(p) => if str_starts_with(p.as_str(), "openai") {
                    str_to_string("https://api.openai.com/v1")
                } else if str_starts_with(p.as_str(), "ollama") {
                    str_to_string("http://localhost:11434/v1")
                } else if str_starts_with(p.as_str(), "deepseek") {
                    str_to_string("https://api.deepseek.com/v1")
                } else {
                    str_to_string("http://localhost:11434/v1")
                },
                None => str_to_string("http://localhost:11434/v1"),
            },
        };
        push_str(&mut base, "/chat/completions");
        base
    }
}

/// The headers of a chat request, in order: the content type always; for Anthropic the
/// key and version when a key is given, and the tool-use beta flag; for other providers
/// but Ollama a bearer token when a key is given.
pub open spec fn spec_headers(provider: Option<Seq<char>>, api_key: Option<Seq<char>>) -> Seq<(Seq<char>, Seq<char>)> {
    let base = seq![("Content-Type"@, "application/json"@)];
    if spec_is_anthropic(provider) {
        let with_key = match api_key {
            Some(k) => base.push(("x-api-key"@, k)).push(("anthropic-version"@, "2023-06-01"@)),
            None => base,
        };
        with_key.push(("anthropic-beta"@, "tools-2024-05-16"@))
    } else if !spec_is_ollama(provider) {
        match api_key {
            Some(k) => base.push(("Authorization"@, "Bearer "@ + k)),
            None => base,
        }
    } else {
        base
    }
}

fn header(name: &str, value: String) -> (r: (String, String))
    ensures
        r.0@ == name@,
        r.1@ == value@,
{
    (str_to_string(name), value)
}

/// The headers of a chat request.
pub fn request_headers(provider: &Option<String>, api_key: &Option<String>) -> (r: Vec<(String, String)>)
    ensures
        r@.map_values(|h: (String, String)| (h.0@, h.1@)) == spec_headers(opt_view(*provider), opt_view(*api_key)),
{
    let mut r: Vec<(String, String)> = Vec::new();
    r.push(header("Content-Type", str_to_string("application/json")));
    if is_anthropic_provider(provider) {
        if let Some(k) = api_key {
            r.push(header("x-api-key", k.clone()));
            r.push(header("anthropic-version", str_to_string("2023-06-01")));
        }
        r.push(header("anthropic-beta", str_to_string("tools-2024-05-16")));
    } else if !is_ollama_provider(provider) {
        if let Some(k) = api_key {
            let mut v = str_to_string("Bearer ");
            push_str(&mut v, k.as_str());
            r.push(header("Authorization", v));
        }
    }
    assert(r@.map_values(|h: (String, String)| (h.0@, h.1@)) =~= spec_headers(opt_view(*provider), opt_view(*api_key)));
    r
}

/// The token counts reported by a response, as the agent keeps them: each count
/// truncated to 32 bits (a missing one counts 0); Anthropic reports no total, so it is the
/// wrapping sum of the other two.
pub open spec fn spec_usage(anthropic: bool, prompt: Option<u64>, completion: Option<u64>, total: Option<u64>) -> (u32, u32, u32) {
    let p = (match prompt { Some(x) => x, None => 0u64 }) as u32;
    let c = (match completion { Some(x) => x, None => 0u64 }) as u32;
    if anthropic {
        (p, c, ((p + c) % 0x1_0000_0000) as u32)
    } else {
        (p, c, (match total { Some(x) => x, None => 0u64 }) as u32)
    }
}

/// The token usage after a response with the given counts.
pub fn usage_from_counts(anthropic: bool, prompt: Option<u64>, completion: Option<u64>, total: Option<u64>) -> (r: TokenUsage)
    ensures
        (r.prompt_tokens, r.completion_tokens, r.total_tokens) == spec_usage(anthropic, prompt, completion, total),
{
    let p64: u64 = match prompt {
        Some(x) => x,
        None => 0,
    };
    let c64: u64 = match completion {
        Some(x) => x,
        None => 0,
    };
    let t64: u64 = match total {
        Some(x) => x,
        None => 0,
    };
    let p = p64 as u32;
    let c = c64 as u32;
    let t = if anthropic {
        ((p as u64 + c as u64) % 0x1_0000_0000) as u32
    } else {
        t64 as u32
    };
    TokenUsage { prompt_tokens: p, completion_tokens: c, total_tokens: t }
}

/// The text of a chat request's response, by its status: the body when the status code
/// is a success (200 to 299); else the error `API error {status}: {body}`, `status`
/// being the status as written (code and reason).
pub fn api_response(code: u16, status: &str, body: String) -> (r: Result<String, String>)
    ensures
        200 <= code < 300 ==> r is Ok && r->Ok_0@ == body@,
        !(200 <= code < 300) ==> r is Err && r->Err_0@ == "API error "@ + status@ + ": "@ + body@,
{
    if 200 <= code && code < 300 {
        Ok(body)
    } else {
        let mut e = concat3("API error ", status, ": ");
        push_str(&mut e, body.as_str());
        Err(e)
    }
}

} // verus!
