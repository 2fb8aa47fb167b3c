//! Settings of the agent, chosen from the environment's values.

use vstd::prelude::*;
use crate::llm::opt_view;

verus! {

/// The agent's settings.  The sampling temperature, a constant `0.0`, is
/// supplied by the HTTP client that sends the request.
#[derive(Clone, Debug)]
pub struct Config {
    pub api_key: String,
    pub base_url: String,
    pub model: String,
    pub max_iterations: usize,
    pub data_dir: String,
}

/// The mathematical value of a [`Config`].
pub struct ConfigView {
    pub api_key: Seq<char>,
    pub base_url: Seq<char>,
    pub model: Seq<char>,
    pub max_iterations: nat,
    pub data_dir: Seq<char>,
}

impl View for Config {
    type V = ConfigView;

    open spec fn view(&self) -> ConfigView {
        ConfigView {
            api_key: self.api_key@,
            base_url: self.base_url@,
            model: self.model@,
            max_iterations: self.max_iterations as nat,
            data_dir: self.data_dir@,
        }
    }
}

/// The number of model rounds a query may take.
pub open spec fn round_limit() -> nat {
    15
}

/// The error given when no key is set.
pub open spec fn missing_key_message() -> Seq<char> {
    "Missing API key: set OPENROUTER_API_KEY or OPENAI_API_KEY"@
}

/// The settings chosen from `OPENROUTER_API_KEY`, `OPENAI_API_KEY`,
/// `OPENAI_BASE_URL` and `MODEL_NAME` (each possibly unset) and the data
/// directory: an OpenRouter key wins and selects the OpenRouter endpoint.
pub open spec fn chosen_config(
    openrouter_key: Option<Seq<char>>,
    openai_key: Option<Seq<char>>,
    openai_base_url: Option<Seq<char>>,
    model_name: Option<Seq<char>>,
    data_dir: Seq<char>,
) -> Result<ConfigView, Seq<char>> {
    if openrouter_key is None && openai_key is None {
        Err(missing_key_message())
    } else {
        Ok(
            ConfigView {
                api_key: if openrouter_key is Some {
                    openrouter_key->0
                } else {
                    openai_key->0
                },
                base_url: if openrouter_key is Some {
                    "https://openrouter.ai/api/v1"@
                } else if openai_base_url is Some {
                    openai_base_url->0
                } else {
                    "https://api.openai.com/v1"@
                },
                model: if model_name is Some {
                    model_name->0
                } else {
                    "google/gemini-2.5-flash"@
                },
                max_iterations: round_limit(),
                data_dir,
            },
        )
    }
}

/// The view of a settings result.
pub open spec fn config_result_view(r: Result<Config, String>) -> Result<ConfigView, Seq<char>> {
    match r {
        Ok(c) => Ok(c@),
        Err(e) => Err(e@),
    }
}

impl Config {
    /// Chooses the settings from the environment's values.
    pub fn from_settings(
        openrouter_key: Option<String>,
        openai_key: Option<String>,
        openai_base_url: Option<String>,
        model_name: Option<String>,
        data_dir: String,
    ) -> (r: Result<Config, String>)
        ensures
            config_result_view(r) == chosen_config(
                opt_view(openrouter_key),
                opt_view(openai_key),
                opt_view(openai_base_url),
                opt_view(model_name),
                data_dir@,
            ),
    {
        let uses_openrouter = openrouter_key.is_some();
        let api_key = match openrouter_key {
            Some(k) => k,
            None => match openai_key {
                Some(k) => k,
                None => {
                    return Err("Missing API key: set OPENROUTER_API_KEY or OPENAI_API_KEY".to_owned());
                },
            },
        };
        let base_url = if uses_openrouter {
            "https://openrouter.ai/api/v1".to_owned()
        } else {
            match openai_base_url {
                Some(u) => u,
                None => "https://api.openai.com/v1".to_owned(),
            }
        };
        let model = match model_name {
            Some(m) => m,
            None => "google/gemini-2.5-flash".to_owned(),
        };
        Ok(Config { api_key, base_url, model, max_iterations: 15, data_dir })
    }
}

/// The model is `MODEL_NAME` whenever it is set, and the default model
/// otherwise, whichever keys are set; a key of either kind is enough to get
/// settings, the OpenRouter key is preferred, and the other settings do not
/// depend on the model.
pub proof fn law_model_follows_model_name(
    openrouter_key: Option<Seq<char>>,
    openai_key: Option<Seq<char>>,
    openai_base_url: Option<Seq<char>>,
    model_name: Option<Seq<char>>,
    other_model: Option<Seq<char>>,
    data_dir: Seq<char>,
)
    ensures
        chosen_config(openrouter_key, openai_key, openai_base_url, model_name, data_dir) is Ok
            <==> (openrouter_key is Some || openai_key is Some),
        chosen_config(openrouter_key, openai_key, openai_base_url, model_name, data_dir) matches Ok(c)
            ==> c.model == (match model_name {
            Some(m) => m,
            None => "google/gemini-2.5-flash"@,
        }) && c.max_iterations == 15 && c.data_dir == data_dir,
        chosen_config(openrouter_key, openai_key, openai_base_url, model_name, data_dir) matches Ok(c)
            ==> c.api_key == (match openrouter_key {
            Some(k) => k,
            None => openai_key->0,
        }),
        chosen_config(openrouter_key, openai_key, openai_base_url, model_name, data_dir) matches Ok(c)
            ==> chosen_config(openrouter_key, openai_key, openai_base_url, other_model, data_dir)
            matches Ok(d) && d.api_key == c.api_key && d.base_url == c.base_url,
{
}

} // verus!
