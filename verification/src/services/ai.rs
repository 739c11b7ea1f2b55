//! AI-assisted routing: provider selection, API keys, the routing prompt and
//! the reading of the model's answer.
//!
//! Talking to the provider is the caller's part: it reads the API key
//! variable named by the plan from the environment, sends the prompt, and
//! hands the answer back to `parse_backend_index`.
use vstd::prelude::*;
use vstd::string::*;
use crate::models::router::{Backend, BackendView};
use crate::models::settings::{AiSettings, AiSettingsView};
use crate::patterns::{first_group, regex_first_group};
use crate::text::{concat2, concat4, dec, owned, str_eq, u64_to_decimal};

verus! {

/// Why a prompt could not be answered.
#[derive(Debug)]
pub enum AiServiceError {
    /// No API key in the settings nor in the named environment variable.
    ApiKeyNotFound(String),
    /// The provider is not one of those supported.
    UnsupportedProvider(String),
    /// The prompt failed at the provider (its message).
    RigError(String),
    /// The provider client could not be made (its message).
    ProviderError(String),
}

/// Why no backend could be predicted.
#[derive(Debug)]
pub enum PredictBackendError {
    /// The prompt failed.
    AiError(AiServiceError),
    /// The answer could not be read.
    ResponseParseError(String),
    /// The answer named no backend in range (the whole answer).
    InvalidIndex(String),
}

/// What `str::to_lowercase` makes of a text.
pub uninterp spec fn lowercase_of(s: Seq<char>) -> Seq<char>;

/// Lower-cases `s` with std's `str::to_lowercase` (Unicode rules); the
/// result is the named `lowercase_of`.
#[verifier::external_body]
fn to_lowercase(s: &str) -> (r: String)
    ensures
        r@ == lowercase_of(s@),
{
    s.to_lowercase()
}

/// The environment variable holding a supported provider's key, and the
/// provider's display name.
pub open spec fn provider_profile(p: Seq<char>) -> Option<(Seq<char>, Seq<char>)> {
    if p == "openai"@ {
        Some(("OPENAI_API_KEY"@, "OpenAI"@))
    } else if p == "anthropic"@ {
        Some(("ANTHROPIC_API_KEY"@, "Anthropic"@))
    } else if p == "cohere"@ {
        Some(("COHERE_API_KEY"@, "Cohere"@))
    } else if p == "perplexity"@ {
        Some(("PERPLEXITY_API_KEY"@, "Perplexity"@))
    } else if p == "mistral"@ {
        Some(("MISTRAL_API_KEY"@, "Mistral"@))
    } else if p == "groq"@ {
        Some(("GROQ_API_KEY"@, "Groq"@))
    } else if p == "xai"@ {
        Some(("XAI_API_KEY"@, "xAI"@))
    } else {
        None
    }
}

/// Which provider and model a prompt goes to.
#[derive(Debug)]
pub struct PromptPlan {
    /// The provider, lower-cased.
    pub provider: String,
    /// The provider's display name.
    pub provider_name: String,
    /// The model.
    pub model: String,
    /// The environment variable that may hold the key.
    pub key_env: String,
}

/// The decimal text of `n` when it fits a `usize` and the text is an
/// optional `+` followed by ASCII digits, as `str::parse::<usize>` accepts.
pub open spec fn digits_value(s: Seq<char>) -> Option<nat>
    decreases s.len(),
{
    if s.len() == 0 {
        None
    } else if !('0' <= s.last() && s.last() <= '9') {
        None
    } else if s.len() == 1 {
        Some((s.last() as nat - '0' as nat) as nat)
    } else {
        match digits_value(s.drop_last()) {
            Some(v) => Some(v * 10 + (s.last() as nat - '0' as nat) as nat),
            None => None,
        }
    }
}

/// The `usize` a text parses as.
pub open spec fn parsed_usize(s: Seq<char>) -> Option<usize> {
    let body = if s.len() > 0 && s[0] == '+' {
        s.skip(1)
    } else {
        s
    };
    match digits_value(body) {
        Some(v) => if v <= usize::MAX {
            Some(v as usize)
        } else {
            None
        },
        None => None,
    }
}

/// Parses a decimal `usize` as `str::parse` does.
pub fn parse_usize(s: &str) -> (r: Option<usize>)
    ensures
        r == parsed_usize(s@),
{
    let n = s.unicode_len();
    let start: usize = if n > 0 && s.get_char(0) == '+' {
        1
    } else {
        0
    };
    let ghost body = if s@.len() > 0 && s@[0] == '+' {
        s@.skip(1)
    } else {
        s@
    };
    assert(body =~= s@.skip(start as int));
    if start >= n {
        assert(body.len() == 0);
        return None;
    }
    let mut value: usize = 0;
    let mut i: usize = start;
    while i < n
        invariant
            start < n,
            start <= i <= n,
            n == s@.len(),
            body == s@.skip(start as int),
            body == (if s@.len() > 0 && s@[0] == '+' {
                s@.skip(1)
            } else {
                s@
            }),
            i > start ==> digits_value(body.take(i - start)) == Some(value as nat),
        decreases n - i,
    {
        let c = s.get_char(i);
        assert(body.take(i + 1 - start).drop_last() =~= body.take(i - start));
        assert(body.take(i + 1 - start).last() == c);
        assert(body[i - start] == c);
        if !('0' <= c && c <= '9') {
            proof {
                lemma_digits_prefix_none(body, (i + 1 - start) as int);
            }
            return None;
        }
        let d: usize = (c as u32 - '0' as u32) as usize;
        if i > start {
            if value > (usize::MAX - d) / 10 {
                proof {
                    assert(value * 10 + d > usize::MAX) by (nonlinear_arith)
                        requires
                            value > (usize::MAX - d) / 10,
                            d <= 9,
                    ;
                    assert(body.take(i + 1 - start).last() == c);
                    assert(digits_value(body.take(i + 1 - start)) == Some(
                        (value * 10 + d) as nat,
                    ));
                    lemma_digits_prefix_big(body, (i + 1 - start) as int);
                }
                return None;
            }
            assert(value * 10 + d <= usize::MAX) by (nonlinear_arith)
                requires
                    value <= (usize::MAX - d) / 10,
                    d <= 9,
            ;
            value = value * 10 + d;
        } else {
            value = d;
        }
        i = i + 1;
    }
    assert(body.take(n - start) =~= body);
    Some(value)
}

/// A text whose prefix has a non-digit has no value.
proof fn lemma_digits_prefix_none(s: Seq<char>, k: int)
    requires
        0 < k <= s.len(),
        !('0' <= s[k - 1] && s[k - 1] <= '9'),
    ensures
        digits_value(s) is None,
    decreases s.len(),
{
    if k < s.len() {
        assert(s.drop_last().take(k) =~= s.take(k));
        lemma_digits_prefix_none(s.drop_last(), k);
    }
}

/// A text whose prefix exceeds `usize::MAX` exceeds it too.
proof fn lemma_digits_prefix_big(s: Seq<char>, k: int)
    requires
        0 < k <= s.len(),
        digits_value(s.take(k)) is Some,
        digits_value(s.take(k))->0 > usize::MAX,
    ensures
        digits_value(s) is None || digits_value(s)->0 > usize::MAX,
    decreases s.len() - k,
{
    if k < s.len() {
        assert(s.take(k + 1).drop_last() =~= s.take(k));
        if digits_value(s.take(k + 1)) is Some {
            assert(digits_value(s.take(k + 1))->0 >= digits_value(s.take(k))->0 * 10);
            lemma_digits_prefix_big(s, k + 1);
        } else {
            lemma_digits_none_extends(s, k + 1);
        }
    } else {
        assert(s.take(k) =~= s);
    }
}

/// A prefix without a value leaves the whole text without one.
proof fn lemma_digits_none_extends(s: Seq<char>, k: int)
    requires
        0 < k <= s.len(),
        digits_value(s.take(k)) is None,
    ensures
        digits_value(s) is None,
    decreases s.len() - k,
{
    if k < s.len() {
        assert(s.take(k + 1).drop_last() =~= s.take(k));
        lemma_digits_none_extends(s, k + 1);
    } else {
        assert(s.take(k) =~= s);
    }
}

/// `s` with every non-overlapping occurrence of `p`, from the left, replaced
/// by `rep`, as `str::replace` does for a non-empty `p`.
pub open spec fn replaced(s: Seq<char>, p: Seq<char>, rep: Seq<char>) -> Seq<char>
    recommends
        p.len() > 0,
    decreases s.len(),
{
    if s.len() == 0 || p.len() == 0 {
        s
    } else if crate::text::starts_with(s, p) {
        rep + replaced(s.skip(p.len() as int), p, rep)
    } else {
        seq![s[0]] + replaced(s.skip(1), p, rep)
    }
}

/// Replaces every occurrence of `p` in `s` with `rep`.
fn str_replace(s: &str, p: &str, rep: &str) -> (r: String)
    requires
        p@.len() > 0,
    ensures
        r@ == replaced(s@, p@, rep@),
{
    let n = s.unicode_len();
    let m = p.unicode_len();
    let mut out = String::new();
    let mut i: usize = 0;
    assert(s@.skip(0) =~= s@);
    assert(out@ + replaced(s@, p@, rep@) =~= replaced(s@, p@, rep@));
    while i < n
        invariant
            i <= n,
            n == s@.len(),
            m == p@.len(),
            m > 0,
            out@ + replaced(s@.skip(i as int), p@, rep@) == replaced(s@, p@, rep@),
        decreases n - i,
    {
        let rest = s.substring_char(i, n);
        assert(rest@ =~= s@.skip(i as int));
        if crate::text::str_starts_with(rest, p) {
            out.append(rep);
            assert(s@.skip(i as int).skip(m as int) =~= s@.skip(i + m));
            i = i + m;
        } else {
            let c = s.get_char(i);
            out.push(c);
            assert(s@.skip(i as int).skip(1) =~= s@.skip(i + 1));
            i = i + 1;
        }
    }
    assert(s@.skip(n as int) =~= Seq::<char>::empty());
    assert(out@ + Seq::<char>::empty() =~= out@);
    out
}

/// One line of the backends list: index, host and port.
pub open spec fn backend_line(i: nat, b: BackendView) -> Seq<char> {
    dec(i) + ": "@ + b.host + " (port "@ + dec(b.port as nat) + ")"@
}

/// The backends list of the routing prompt, one line each.
pub open spec fn backends_list(bs: Seq<BackendView>) -> Seq<char>
    decreases bs.len(),
{
    if bs.len() == 0 {
        Seq::empty()
    } else if bs.len() == 1 {
        backend_line(0, bs[0])
    } else {
        backends_list(bs.drop_last()) + "\n"@ + backend_line((bs.len() - 1) as nat, bs.last())
    }
}

/// The routing prompt for a request and its candidate backends.
pub open spec fn routing_prompt(request_info: Seq<char>, bs: Seq<BackendView>) -> Seq<char> {
    let safe = replaced(replaced(request_info, "[REQUEST_START]"@, ""@), "[REQUEST_END]"@, ""@);
    let last = if bs.len() > 0 {
        (bs.len() - 1) as nat
    } else {
        0nat
    };
    "Analyze this HTTP request and select the most appropriate backend service index.\n\n[REQUEST_START]\n"@
        + safe + "\n[REQUEST_END]\n\nAvailable Backends:\n"@ + backends_list(bs)
        + "\n\nTask: Return ONLY a valid JSON object with a single field 'index' containing the integer index (0 to "@
        + dec(last)
        + ") of the best backend. Do not include any markdown formatting, explanation, or extra text."@
}

/// The instruction the routing model works under.
pub open spec fn routing_preamble() -> Seq<char> {
    "You are an intelligent API gateway routing engine. Your job is to strictly analyze request content and route it to the correct backend service."@
}

/// The instruction of a general prompt.
pub open spec fn general_preamble() -> Seq<char> {
    "You are a helpful AI assistant integrated into the Kairos-rs gateway."@
}

/// The pattern of a JSON `index` field.
pub open spec fn json_index_pattern() -> Seq<char> {
    "\"index\"\\s*:\\s*(\\d+)"@
}

/// The pattern of a bare number.
pub open spec fn number_pattern() -> Seq<char> {
    "\\b(\\d+)\\b"@
}

/// The backend an answer picks by `pattern`, when its first match's number
/// is a valid index below `n`.
pub open spec fn pick_by(pattern: Seq<char>, answer: Seq<char>, n: nat) -> Option<usize> {
    match regex_first_group(pattern, answer) {
        Some(Some(d)) => match parsed_usize(d) {
            Some(i) => if i < n {
                Some(i)
            } else {
                None
            },
            None => None,
        },
        _ => None,
    }
}

/// The backend an answer picks: by its JSON `index` field, else by its
/// first bare number.
pub open spec fn picked_backend(answer: Seq<char>, n: nat) -> Option<usize> {
    match pick_by(json_index_pattern(), answer, n) {
        Some(i) => Some(i),
        None => pick_by(number_pattern(), answer, n),
    }
}

fn pick_with(pattern: &str, answer: &str, n: usize) -> (r: Option<usize>)
    ensures
        r == pick_by(pattern@, answer@, n as nat),
{
    match first_group(pattern, answer) {
        Some(Some(d)) => match parse_usize(d.as_str()) {
            Some(i) => if i < n {
                Some(i)
            } else {
                None
            },
            None => None,
        },
        _ => None,
    }
}

/// The AI service.
#[derive(Debug)]
pub struct AiService {
    pub settings: AiSettings,
}

impl AiService {
    /// A service using `settings`.
    pub fn new(settings: AiSettings) -> (r: Self)
        ensures
            r.settings@ == settings@,
    {
        AiService { settings }
    }

    /// Where a prompt goes: the provider (given, else configured), lower-cased,
    /// must be supported; the model is the given one, else the configured one.
    pub fn prompt_plan(&self, provider_override: Option<&str>, model_override: Option<&str>) -> (r:
        Result<PromptPlan, AiServiceError>)
        ensures
            ({
                let p = lowercase_of(
                    match provider_override {
                        Some(p) => p@,
                        None => self.settings@.provider,
                    },
                );
                let m = match model_override {
                    Some(m) => m@,
                    None => self.settings@.model,
                };
                match provider_profile(p) {
                    Some(prof) => r matches Ok(plan) && plan.provider@ == p && plan.key_env@
                        == prof.0 && plan.provider_name@ == prof.1 && plan.model@ == m,
                    None => r matches Err(AiServiceError::UnsupportedProvider(q)) && q@ == p,
                }
            }),
    {
        let provider = match provider_override {
            Some(p) => to_lowercase(p),
            None => to_lowercase(self.settings.provider.as_str()),
        };
        let model = match model_override {
            Some(m) => owned(m),
            None => self.settings.model.clone(),
        };
        let p = provider.as_str();
        let (key_env, name) = if str_eq(p, "openai") {
            ("OPENAI_API_KEY", "OpenAI")
        } else if str_eq(p, "anthropic") {
            ("ANTHROPIC_API_KEY", "Anthropic")
        } else if str_eq(p, "cohere") {
            ("COHERE_API_KEY", "Cohere")
        } else if str_eq(p, "perplexity") {
            ("PERPLEXITY_API_KEY", "Perplexity")
        } else if str_eq(p, "mistral") {
            ("MISTRAL_API_KEY", "Mistral")
        } else if str_eq(p, "groq") {
            ("GROQ_API_KEY", "Groq")
        } else if str_eq(p, "xai") {
            ("XAI_API_KEY", "xAI")
        } else {
            return Err(AiServiceError::UnsupportedProvider(provider));
        };
        Ok(
            PromptPlan {
                provider_name: owned(name),
                key_env: owned(key_env),
                provider,
                model,
            },
        )
    }

    /// The API key: the configured one, else the value of the plan's
    /// environment variable (`env_value`), else an error naming the variable.
    pub fn api_key(&self, env_value: Option<String>, key_env: &str) -> (r: Result<
        String,
        AiServiceError,
    >)
        ensures
            match (self.settings@.api_key, env_value) {
                (Some(k), _) => r matches Ok(s) && s@ == k,
                (None, Some(v)) => r matches Ok(s) && s@ == v@,
                (None, None) => r matches Err(AiServiceError::ApiKeyNotFound(e)) && e@ == key_env@,
            },
    {
        match &self.settings.api_key {
            Some(k) => Ok(k.clone()),
            None => match env_value {
                Some(v) => Ok(v),
                None => Err(AiServiceError::ApiKeyNotFound(owned(key_env))),
            },
        }
    }

    /// The instruction of a general prompt.
    pub fn ask_preamble(&self) -> (r: String)
        ensures
            r@ == general_preamble(),
    {
        owned("You are a helpful AI assistant integrated into the Kairos-rs gateway.")
    }

    /// The instruction of a routing prompt.
    pub fn routing_preamble(&self) -> (r: String)
        ensures
            r@ == routing_preamble(),
    {
        owned(
            "You are an intelligent API gateway routing engine. Your job is to strictly analyze request content and route it to the correct backend service.",
        )
    }

    /// The routing prompt for a request among `backends`.
    pub fn routing_prompt(&self, request_info: &str, backends: &Vec<Backend>) -> (r: String)
        ensures
            r@ == routing_prompt(request_info@, backends@.map_values(|b: Backend| b@)),
    {
        proof {
            reveal_strlit("[REQUEST_START]");
            reveal_strlit("[REQUEST_END]");
        }
        let ghost bv = backends@.map_values(|b: Backend| b@);
        let mut list = String::new();
        let mut i: usize = 0;
        assert(bv.take(0) =~= Seq::<BackendView>::empty());
        while i < backends.len()
            invariant
                i <= backends.len(),
                bv == backends@.map_values(|b: Backend| b@),
                list@ == backends_list(bv.take(i as int)),
            decreases backends.len() - i,
        {
            assert(bv.take(i + 1).drop_last() =~= bv.take(i as int));
            assert(bv.take(i + 1).last() == backends@[i as int]@);
            if i > 0 {
                list.append("\n");
            } else {
                assert(bv.take(1)[0] == bv[0]);
            }
            let idx = u64_to_decimal(i as u64);
            let port = u64_to_decimal(backends[i].port as u64);
            list.append(idx.as_str());
            list.append(": ");
            list.append(backends[i].host.as_str());
            list.append(" (port ");
            list.append(port.as_str());
            list.append(")");
            i = i + 1;
        }
        assert(bv.take(backends.len() as int) =~= bv);
        let step = str_replace(request_info, "[REQUEST_START]", "");
        let safe = str_replace(step.as_str(), "[REQUEST_END]", "");
        let last: usize = if backends.len() > 0 {
            backends.len() - 1
        } else {
            0
        };
        let last_text = u64_to_decimal(last as u64);
        let mut prompt = owned(
            "Analyze this HTTP request and select the most appropriate backend service index.\n\n[REQUEST_START]\n",
        );
        prompt.append(safe.as_str());
        prompt.append("\n[REQUEST_END]\n\nAvailable Backends:\n");
        prompt.append(list.as_str());
        prompt.append(
            "\n\nTask: Return ONLY a valid JSON object with a single field 'index' containing the integer index (0 to ",
        );
        prompt.append(last_text.as_str());
        prompt.append(
            ") of the best backend. Do not include any markdown formatting, explanation, or extra text.",
        );
        prompt
    }

    /// The backend index an answer picks among `backend_count` backends: by
    /// its JSON `index` field, else by its first bare number; an answer
    /// naming none in range is refused with its text.
    pub fn parse_backend_index(&self, answer: &str, backend_count: usize) -> (r: Result<
        usize,
        PredictBackendError,
    >)
        ensures
            match picked_backend(answer@, backend_count as nat) {
                Some(i) => r == Ok::<usize, PredictBackendError>(i),
                None => r matches Err(PredictBackendError::InvalidIndex(s)) && s@ == answer@,
            },
    {
        match pick_with("\"index\"\\s*:\\s*(\\d+)", answer, backend_count) {
            Some(i) => {
                return Ok(i);
            },
            None => {},
        }
        match pick_with("\\b(\\d+)\\b", answer, backend_count) {
            Some(i) => Ok(i),
            None => Err(PredictBackendError::InvalidIndex(owned(answer))),
        }
    }
}

} // verus!
