//! Choosing how the backend is invoked, reading the local configuration,
//! and reading the HTTP reply of the remote API.

use crate::backend::{GenerateResponse, InvokeError, response_from_output};
use crate::extract::{extract_spec, extraction_fallback};
use crate::json::{api_blocks_of, api_usage_of, read_api_blocks, read_api_usage};
use crate::text::{contains_at, lines_of, matches_at, split_lines, str_eq, trim, trim_spec};
use vstd::prelude::*;

verus! {

/// How the backend is reached: the local command-line entry point, or the
/// remote HTTP API.
#[derive(Clone, Copy, Debug, PartialEq, Eq, Structural)]
pub enum InvocationMethod {
    Subprocess,
    Http,
}

/// The user's override of the invocation method, if any.
#[derive(Clone, Copy, Debug, PartialEq, Eq, Structural)]
pub enum ForceMethod {
    Auto,
    ForceSubprocess,
    ForceApi,
}

/// A configuration error, surfaced before any process or network
/// activity.
#[derive(Debug)]
pub enum ConfigError {
    /// The logical model name maps to no backend model identifier.
    UnknownModel(String),
    /// The HTTP API was forced but no API key is configured.
    MissingApiKey,
}

/// Choose the invocation method: an explicit override wins; otherwise the
/// HTTP API is used exactly when an API key is configured. Forcing the
/// API without a configured key is a configuration error, reported before
/// anything is attempted.
pub fn select_method(force: ForceMethod, api_key: &Option<String>) -> (r: Result<
    InvocationMethod,
    ConfigError,
>)
    ensures
        force == ForceMethod::ForceSubprocess ==> (r matches Ok(m) && m
            == InvocationMethod::Subprocess),
        force == ForceMethod::ForceApi && api_key is Some ==> (r matches Ok(m) && m
            == InvocationMethod::Http),
        force == ForceMethod::ForceApi && api_key is None ==> (r matches Err(e) && e
            is MissingApiKey),
        force == ForceMethod::Auto && api_key is Some ==> (r matches Ok(m) && m
            == InvocationMethod::Http),
        force == ForceMethod::Auto && api_key is None ==> (r matches Ok(m) && m
            == InvocationMethod::Subprocess),
{
    match force {
        ForceMethod::ForceSubprocess => Ok(InvocationMethod::Subprocess),
        ForceMethod::ForceApi => {
            match api_key {
                Some(_) => Ok(InvocationMethod::Http),
                None => Err(ConfigError::MissingApiKey),
            }
        },
        ForceMethod::Auto => {
            match api_key {
                Some(_) => Ok(InvocationMethod::Http),
                None => Ok(InvocationMethod::Subprocess),
            }
        },
    }
}

/// The API key the configuration lines hold: the value of the first line
/// of the shape `api-key=<value>`, trimmed.
pub open spec fn api_key_of_lines(ls: Seq<Seq<char>>) -> Option<Seq<char>>
    decreases ls.len(),
{
    if ls.len() == 0 {
        None
    } else if contains_at(ls[0], 0, "api-key="@) {
        Some(trim_spec(ls[0].skip("api-key="@.len() as int)))
    } else {
        api_key_of_lines(ls.drop_first())
    }
}

/// The API key a configuration file's text holds, if any.
pub open spec fn config_api_key_spec(s: Seq<char>) -> Option<Seq<char>> {
    api_key_of_lines(lines_of(s))
}

/// Read the API key out of the configuration file's text: one
/// `key=value` setting per line, `api-key=` being the one this tool
/// needs.
pub fn parse_config_api_key(content: &str) -> (r: Option<String>)
    ensures
        match r {
            Some(k) => config_api_key_spec(content@) == Some(k@),
            None => config_api_key_spec(content@) is None,
        },
{
    let pat = "api-key=";
    proof {
        reveal_strlit("api-key=");
    }
    let lines = split_lines(content);
    let ghost ls = lines_of(content@);
    let n = lines.len();
    let mut k: usize = 0;
    proof {
        assert(ls.skip(0) =~= ls);
    }
    while k < n
        invariant
            0 <= k <= n,
            n == lines@.len(),
            ls == lines_of(content@),
            lines@.map_values(|t: String| t@) == ls,
            pat@ == "api-key="@,
            api_key_of_lines(ls) == api_key_of_lines(ls.skip(k as int)),
        decreases n - k,
    {
        proof {
            reveal_strlit("api-key=");
            assert(ls.skip(k as int)[0] == lines@.map_values(|t: String| t@)[k as int]);
            assert(ls.skip(k as int).drop_first() =~= ls.skip(k + 1));
        }
        let line = &lines[k];
        let llen = line.as_str().unicode_len();
        if llen >= 8 && matches_at(line.as_str(), 0, pat) {
            let value = trim(line.as_str().substring_char(8, llen));
            proof {
                assert("api-key="@.len() == 8);
                assert(line@.subrange(8, llen as int) =~= ls.skip(k as int)[0].skip(8));
            }
            return Some(value);
        }
        proof {
            assert("api-key="@.len() == 8);
            if llen < 8 {
                assert(!contains_at(ls.skip(k as int)[0], 0, "api-key="@));
            }
        }
        k = k + 1;
    }
    proof {
        assert(ls.skip(n as int) =~= Seq::<Seq<char>>::empty());
    }
    None
}

/// The backend model identifier for a logical model name; unknown names
/// have none.
pub fn api_model_id(name: &str) -> (r: Option<&'static str>)
    ensures
        name@ == "haiku"@ ==> (r matches Some(id) && id@ == "haiku-latest"@),
        name@ == "sonnet"@ ==> (r matches Some(id) && id@ == "sonnet-latest"@),
        name@ == "opus"@ ==> (r matches Some(id) && id@ == "opus-latest"@),
        name@ != "haiku"@ && name@ != "sonnet"@ && name@ != "opus"@ ==> r is None,
{
    proof {
        reveal_strlit("haiku");
        reveal_strlit("sonnet");
        reveal_strlit("opus");
        assert("haiku"@.len() == 5);
        assert("sonnet"@.len() == 6);
        assert("opus"@.len() == 4);
    }
    if str_eq(name, "haiku") {
        Some("haiku-latest")
    } else if str_eq(name, "sonnet") {
        Some("sonnet-latest")
    } else if str_eq(name, "opus") {
        Some("opus-latest")
    } else {
        None
    }
}

/// Resolve a logical model name to its backend model identifier, or
/// report the unknown name as a configuration error.
pub fn require_model_id(name: &str) -> (r: Result<&'static str, ConfigError>)
    ensures
        name@ == "haiku"@ ==> (r matches Ok(id) && id@ == "haiku-latest"@),
        name@ == "sonnet"@ ==> (r matches Ok(id) && id@ == "sonnet-latest"@),
        name@ == "opus"@ ==> (r matches Ok(id) && id@ == "opus-latest"@),
        name@ != "haiku"@ && name@ != "sonnet"@ && name@ != "opus"@ ==> (r matches Err(e) && e
            matches ConfigError::UnknownModel(n) && n@ == name@),
{
    match api_model_id(name) {
        Some(id) => Ok(id),
        None => Err(ConfigError::UnknownModel(name.to_owned())),
    }
}

/// The text of the first content block of type `text`, if one carries a
/// text.
pub open spec fn first_text_block(bs: Seq<(Seq<char>, Option<Seq<char>>)>) -> Option<Seq<char>>
    decreases bs.len(),
{
    if bs.len() == 0 {
        None
    } else if bs[0].0 == "text"@ && bs[0].1 is Some {
        bs[0].1
    } else {
        first_text_block(bs.drop_first())
    }
}

/// Pick the first content block of type `text` out of the reply's block
/// list, handed as pairs of block type and block text.
pub fn pick_text_block(blocks: &Vec<(String, Option<String>)>) -> (r: Option<String>)
    ensures
        ({
            let bs = blocks@.map_values(
                |p: (String, Option<String>)|
                    (
                        p.0@,
                        match p.1 {
                            Some(t) => Some(t@),
                            None => None,
                        },
                    ),
            );
            match r {
                Some(t) => first_text_block(bs) == Some(t@),
                None => first_text_block(bs) is None,
            }
        }),
{
    let ghost bs = blocks@.map_values(
        |p: (String, Option<String>)|
            (
                p.0@,
                match p.1 {
                    Some(t) => Some(t@),
                    None => None,
                },
            ),
    );
    let n = blocks.len();
    let mut k: usize = 0;
    proof {
        assert(bs.skip(0) =~= bs);
    }
    while k < n
        invariant
            0 <= k <= n,
            n == blocks@.len(),
            bs == blocks@.map_values(
                |p: (String, Option<String>)|
                    (
                        p.0@,
                        match p.1 {
                            Some(t) => Some(t@),
                            None => None,
                        },
                    ),
            ),
            first_text_block(bs) == first_text_block(bs.skip(k as int)),
        decreases n - k,
    {
        proof {
            assert(bs.skip(k as int)[0] == bs[k as int]);
            assert(bs.skip(k as int).drop_first() =~= bs.skip(k + 1));
        }
        let is_text = str_eq(blocks[k].0.as_str(), "text");
        if is_text {
            match &blocks[k].1 {
                Some(t) => {
                    return Some(t.clone());
                },
                None => {},
            }
        }
        k = k + 1;
    }
    proof {
        assert(bs.skip(n as int) =~= Seq::<(Seq<char>, Option<Seq<char>>)>::empty());
    }
    None
}

/// The reported usage total of the HTTP reply: input plus output
/// counts, an absent count as zero, capped at the largest representable
/// count.
pub open spec fn api_token_total(u: (Option<u64>, Option<u64>)) -> u64 {
    let a: nat = match u.0 {
        Some(n) => n as nat,
        None => 0,
    };
    let b: nat = match u.1 {
        Some(n) => n as nat,
        None => 0,
    };
    if a + b <= u64::MAX as nat {
        (a + b) as u64
    } else {
        u64::MAX as u64
    }
}

/// Add the two usage counts, an absent count as zero, saturating.
fn total_api_tokens(u: (Option<u64>, Option<u64>)) -> (r: u64)
    ensures
        r == api_token_total(u),
{
    let a: u64 = match u.0 {
        Some(n) => n,
        None => 0,
    };
    let b: u64 = match u.1 {
        Some(n) => n,
        None => 0,
    };
    if a <= u64::MAX - b {
        a + b
    } else {
        u64::MAX
    }
}

/// Read the HTTP reply of the remote API: the first content block of type
/// `text` carries the message, and the usage's input and output token
/// counts are summed. A reply without such a block is a malformed
/// response: success is owed exactly when one of the reply's content
/// blocks is a text block. The remote path reports no cost.
pub fn parse_api_response(raw: &str) -> (r: Result<GenerateResponse, InvokeError>)
    ensures
        r is Ok <==> first_text_block(api_blocks_of(raw@)) is Some,
        r matches Ok(resp) ==> {
            &&& resp.message@ == extract_spec(first_text_block(api_blocks_of(raw@))->0)
            &&& resp.tokens == api_token_total(api_usage_of(raw@))
            &&& resp.fallback == extraction_fallback(first_text_block(api_blocks_of(raw@))->0)
        },
        r is Err ==> r->Err_0 is Malformed,
{
    let blocks = read_api_blocks(raw);
    match pick_text_block(&blocks) {
        None => Err(
            InvokeError::Malformed(
                String::from_str("api response carries no text content block"),
            ),
        ),
        Some(text) => {
            let tokens = total_api_tokens(read_api_usage(raw));
            Ok(response_from_output(text, tokens))
        },
    }
}

} // verus!
