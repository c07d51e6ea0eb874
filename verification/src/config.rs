//! The application's settings and their defaults. Reading and writing the settings
//! file happens outside the library.

use vstd::prelude::*;
use crate::audit::{opt_view, pair_views};
use crate::constants::{DEFAULT_HOST, DEFAULT_PORT};
use crate::text::str_to_string;

verus! {

/// A model provider's settings.
#[derive(Debug)]
pub struct ModelConfig {
    pub enabled: bool,
    pub model: String,
    pub url: Option<String>,
    pub key: Option<String>,
}

/// The value of a model provider's settings.
pub struct ModelConfigView {
    pub enabled: bool,
    pub model: Seq<char>,
    pub url: Option<Seq<char>>,
    pub key: Option<Seq<char>>,
}

impl View for ModelConfig {
    type V = ModelConfigView;

    open spec fn view(&self) -> ModelConfigView {
        ModelConfigView { enabled: self.enabled, model: self.model@, url: opt_view(self.url), key: opt_view(self.key) }
    }
}

/// A messaging platform's settings.
#[derive(Debug)]
pub struct PlatformConfig {
    pub enabled: bool,
    pub config: Vec<(String, String)>,
}

/// A tool's settings.
#[derive(Debug)]
pub struct ToolConfig {
    pub enabled: bool,
    pub config: Vec<(String, String)>,
}

/// A skill's settings.
#[derive(Debug)]
pub struct SkillConfig {
    pub enabled: bool,
    pub path: Option<String>,
    pub config: Vec<(String, String)>,
}

/// A plugin's settings.
#[derive(Debug)]
pub struct PluginConfig {
    pub enabled: bool,
    pub path: Option<String>,
    pub config: Vec<(String, String)>,
}

/// A scheduled command.
#[derive(Debug)]
pub struct CronJobConfig {
    pub id: String,
    pub name: String,
    pub schedule: String,
    pub command: String,
    pub enabled: bool,
}

/// The application's settings. The sampling temperature is a floating-point number,
/// held by its IEEE-754 bit pattern (`f64::to_bits`). The tables are lists of pairs,
/// one per name.
#[derive(Debug)]
pub struct AppConfig {
    pub model: String,
    pub provider: Option<String>,
    pub api_base_url: Option<String>,
    pub api_key: Option<String>,
    pub temperature_bits: Option<u64>,
    pub max_tokens: Option<u32>,
    pub platform: Option<String>,
    pub language: String,
    pub theme: String,
    pub port: u16,
    pub host: String,
    pub workspace: Option<String>,
    pub models: Vec<(String, ModelConfig)>,
    pub platforms: Vec<(String, PlatformConfig)>,
    pub tools: Vec<(String, ToolConfig)>,
    pub skills: Vec<(String, SkillConfig)>,
    pub plugins: Vec<(String, PluginConfig)>,
    pub cron_jobs: Vec<CronJobConfig>,
}

/// The bits of the `f64` 0.7, the default temperature.
pub const DEFAULT_TEMPERATURE_BITS: u64 = 0x3FE6_6666_6666_6666;

/// The model providers configured by default: a local Ollama model enabled, and
/// OpenAI, Anthropic and DeepSeek disabled.
pub open spec fn default_models() -> Seq<(Seq<char>, ModelConfigView)> {
    seq![
        ("ollama"@, ModelConfigView { enabled: true, model: "llama3.2"@, url: Some("http://localhost:11434"@), key: None }),
        ("openai"@, ModelConfigView { enabled: false, model: "gpt-4o"@, url: Some("https://api.openai.com/v1"@), key: None }),
        ("anthropic"@, ModelConfigView {
            enabled: false,
            model: "sonnet-4-20250514"@,
            url: Some("https://api.anthropic.com/v1"@),
            key: None,
        }),
        ("deepseek"@, ModelConfigView { enabled: false, model: "deepseek-chat"@, url: Some("https://api.deepseek.com"@), key: None }),
    ]
}

fn model(enabled: bool, name: &str, url: &str) -> (r: ModelConfig)
    ensures
        r@ == (ModelConfigView { enabled, model: name@, url: Some(url@), key: None }),
{
    ModelConfig { enabled, model: str_to_string(name), url: Some(str_to_string(url)), key: None }
}

impl Default for AppConfig {
    fn default() -> (r: Self)
        ensures
            r.model@ == "llama3.2"@,
            opt_view(r.provider) == Some("ollama"@),
            opt_view(r.api_base_url) == Some("http://localhost:11434/v1"@),
            r.api_key is None,
            r.temperature_bits == Some(DEFAULT_TEMPERATURE_BITS),
            r.max_tokens == Some(2048u32),
            opt_view(r.platform) == Some("web"@),
            r.language@ == "zh"@,
            r.theme@ == "dark"@,
            r.port == DEFAULT_PORT,
            r.host@ == DEFAULT_HOST@,
            r.workspace is None,
            r.models@.map_values(|e: (String, ModelConfig)| (e.0@, e.1@)) == default_models(),
            r.platforms@.len() == 1,
            r.platforms@[0].0@ == "wechat"@,
            !r.platforms@[0].1.enabled,
            r.platforms@[0].1.config@.len() == 0,
            r.tools@.len() == 0,
            r.skills@.len() == 0,
            r.plugins@.len() == 0,
            r.cron_jobs@.len() == 0,
    {
        let mut models: Vec<(String, ModelConfig)> = Vec::new();
        models.push((str_to_string("ollama"), model(true, "llama3.2", "http://localhost:11434")));
        models.push((str_to_string("openai"), model(false, "gpt-4o", "https://api.openai.com/v1")));
        models.push((str_to_string("anthropic"), model(false, "sonnet-4-20250514", "https://api.anthropic.com/v1")));
        models.push((str_to_string("deepseek"), model(false, "deepseek-chat", "https://api.deepseek.com")));
        assert(models@.map_values(|e: (String, ModelConfig)| (e.0@, e.1@)) =~= default_models());
        let mut platforms: Vec<(String, PlatformConfig)> = Vec::new();
        platforms.push((str_to_string("wechat"), PlatformConfig { enabled: false, config: Vec::new() }));
        AppConfig {
            model: str_to_string("llama3.2"),
            provider: Some(str_to_string("ollama")),
            api_base_url: Some(str_to_string("http://localhost:11434/v1")),
            api_key: None,
            temperature_bits: Some(DEFAULT_TEMPERATURE_BITS),
            max_tokens: Some(2048),
            platform: Some(str_to_string("web")),
            language: str_to_string("zh"),
            theme: str_to_string("dark"),
            port: DEFAULT_PORT,
            host: str_to_string(DEFAULT_HOST),
            workspace: None,
            models,
            platforms,
            tools: Vec::new(),
            skills: Vec::new(),
            plugins: Vec::new(),
            cron_jobs: Vec::new(),
        }
    }
}

/// Whether the key for the model's provider is looked up in the environment: when
/// none is configured and the provider is named and is not the local Ollama.
pub open spec fn wants_env_key(provider: Option<Seq<char>>, api_key: Option<Seq<char>>) -> bool {
    let p = match provider {
        Some(p) => p,
        None => Seq::<char>::empty(),
    };
    api_key is None && p != "ollama"@ && p.len() != 0
}

/// Whether the key for the model's provider is to be looked up in the environment.
pub fn needs_env_api_key(provider: &Option<String>, api_key: &Option<String>) -> (r: bool)
    ensures
        r == wants_env_key(opt_view(*provider), opt_view(*api_key)),
{
    let p = match provider {
        Some(p) => p.as_str(),
        None => "",
    };
    proof {
        reveal_strlit("");
    }
    api_key.is_none() && !crate::text::str_eq(p, "ollama") && !p.is_empty()
}

/// The environment variables holding a provider key, in the order they are tried.
pub open spec fn env_key_names() -> Seq<Seq<char>> {
    seq!["OPENAI_API_KEY"@, "ANTHROPIC_API_KEY"@, "DEEPSEEK_API_KEY"@]
}

/// The names of the environment variables tried for a provider key, in order.
pub fn api_key_variables() -> (r: Vec<String>)
    ensures
        crate::text::string_views(r@) == env_key_names(),
{
    let r = vec![str_to_string("OPENAI_API_KEY"), str_to_string("ANTHROPIC_API_KEY"), str_to_string("DEEPSEEK_API_KEY")];
    assert(crate::text::string_views(r@) =~= env_key_names());
    r
}

/// Whether a chat may go to the model: a local model (Ollama, or no provider named)
/// needs no key; any other needs a non-empty one.
pub open spec fn chat_allowed(provider: Option<Seq<char>>, api_key: Option<Seq<char>>) -> bool {
    let p = match provider {
        Some(p) => p,
        None => Seq::<char>::empty(),
    };
    p == "ollama"@ || p.len() == 0 || match api_key {
        Some(k) => k.len() != 0,
        None => false,
    }
}

/// The error a chat is refused with when the model is not local and no key is set.
pub open spec fn missing_key_message() -> Seq<char> {
    "API Key not configured. Please configure your AI model in settings or pass apiKey in request."@
}

/// Why a chat may not go to the model, if it may not: a model other than a local one
/// needs a non-empty key.
pub fn chat_refusal(provider: &Option<String>, api_key: &Option<String>) -> (r: Option<String>)
    ensures
        r is None <==> chat_allowed(opt_view(*provider), opt_view(*api_key)),
        r matches Some(m) ==> m@ == missing_key_message(),
{
    let p = match provider {
        Some(p) => p.as_str(),
        None => "",
    };
    proof {
        reveal_strlit("");
    }
    let local = crate::text::str_eq(p, "ollama") || p.is_empty();
    let has_key = match api_key {
        Some(k) => !k.as_str().is_empty(),
        None => false,
    };
    if local || has_key {
        None
    } else {
        Some(str_to_string("API Key not configured. Please configure your AI model in settings or pass apiKey in request."))
    }
}

} // verus!
