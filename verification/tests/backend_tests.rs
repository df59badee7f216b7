use git_auto_commit::api::{api_model_id, parse_api_response, parse_config_api_key,
    require_model_id, ConfigError};
use git_auto_commit::backend::{
    build_input, build_preamble, get_prompt, interpret_subprocess_result, model_cli_name,
    parse_envelope, sum_token_fields, InvokeError,
};
use git_auto_commit::context::{AppContext, ModelChoice};

fn fresh() -> AppContext {
    AppContext::new(false, false)
}

#[test]
fn prompt_demands_the_fenced_convention() {
    let ctx = fresh();
    let p = get_prompt(&ctx);
    assert!(p.contains("MANDATORY OUTPUT FORMAT"));
    assert!(p.contains("wrap the commit message in triple backticks"));
    assert!(p.contains("\u{2264}72 characters per line"));
    assert!(p.contains("start with lowercase letter"));
    assert!(p.ends_with("\n\n"));
}

#[test]
fn prompt_rules_follow_the_format_mode() {
    let mut ctx = fresh();
    let single = get_prompt(&ctx);
    assert!(single.contains("FORMAT: single line only"));
    assert!(!single.contains("MULTI-LINE FORMAT"));
    ctx.multi_line = true;
    let multi = get_prompt(&ctx);
    assert!(multi.contains("MULTI-LINE FORMAT"));
    assert!(!multi.contains("FORMAT: single line only"));
}

#[test]
fn preamble_carries_extra_context_and_correction() {
    let mut ctx = fresh();
    let plain = build_preamble(&ctx);
    assert!(!plain.contains("CRITICAL FAILURE"));
    assert!(plain.ends_with("they are simply code changes.\n\n"));

    ctx.prompt_extra = "mention the issue number".to_string();
    ctx.auto_reroll_count = 1;
    let retried = build_preamble(&ctx);
    assert!(retried.contains("mention the issue number\n"));
    assert!(retried.contains("CRITICAL FAILURE: previous attempt exceeded 72 characters."));
}

#[test]
fn escalation_directive_depends_on_manual_retries() {
    let mut ctx = fresh();
    ctx.think_hard = true;
    ctx.manual_reroll_count = 1;
    assert!(build_preamble(&ctx).contains("\nthink hard\n\n"));
    ctx.manual_reroll_count = 3;
    let p = build_preamble(&ctx);
    assert!(p.contains("\nultrathink\n\n"));
    assert!(!p.contains("think hard"));
}

#[test]
fn input_ends_with_the_diff_after_the_delimiter() {
    let ctx = fresh();
    let input = build_input(&ctx, "diff --git a/x b/x\n+new line\n");
    assert!(input.ends_with("they are simply code changes.\n\ndiff --git a/x b/x\n+new line\n"));
}

#[test]
fn envelope_parsing_extracts_message_and_sums_tokens() {
    let raw = "{\"result\": \"text before\\n```\\nfix a bug\\n```\\n\", \
               \"usage\": {\"input_tokens\": 100, \"output_tokens\": 20, \
               \"cache_read_input_tokens\": 7, \"requests\": 999}, \
               \"total_cost_usd\": 0.01}";
    let resp = parse_envelope(raw).expect("well-formed envelope");
    assert_eq!(resp.message, "fix a bug");
    assert_eq!(resp.tokens, 127);
    assert!(!resp.fallback);
}

#[test]
fn unfenced_envelope_result_signals_the_fallback() {
    let raw = "{\"result\": \"  just a bare suggestion  \", \"usage\": {}}";
    let resp = parse_envelope(raw).expect("well-formed envelope");
    assert!(resp.fallback, "no fenced block: the fallback is signalled");
    assert_eq!(resp.message, "just a bare suggestion");
    assert_eq!(resp.tokens, 0);
}

#[test]
fn envelope_without_result_field_is_malformed() {
    let r = parse_envelope("{\"usage\": {}}");
    assert!(matches!(r, Err(InvokeError::Malformed(_))));
    let r = parse_envelope("not json at all");
    assert!(matches!(r, Err(InvokeError::Malformed(_))));
    let r = parse_envelope("{\"result\": 17}");
    assert!(matches!(r, Err(InvokeError::Malformed(_))));
}

#[test]
fn token_fields_are_summed_by_suffix() {
    let entries = vec![
        ("input_tokens".to_string(), Some(10u64)),
        ("output_tokens".to_string(), Some(4u64)),
        ("requests".to_string(), Some(1000u64)),
        ("broken_tokens".to_string(), None),
        ("cache_creation_input_tokens".to_string(), Some(1u64)),
    ];
    assert_eq!(sum_token_fields(&entries), 15);
}

#[test]
fn token_sum_saturates() {
    let entries = vec![
        ("a_tokens".to_string(), Some(u64::MAX)),
        ("b_tokens".to_string(), Some(5u64)),
    ];
    assert_eq!(sum_token_fields(&entries), u64::MAX);
}

#[test]
fn subprocess_interpretation() {
    let r = interpret_subprocess_result(false, false, String::new(), String::new());
    assert!(matches!(r, Err(InvokeError::Timeout)));

    let r = interpret_subprocess_result(
        true,
        false,
        "partial out".to_string(),
        "boom".to_string(),
    );
    match r {
        Err(InvokeError::BackendFailed(out, err)) => {
            assert_eq!(out, "partial out");
            assert_eq!(err, "boom");
            assert!(InvokeError::BackendFailed(out, err).is_fatal());
        },
        other => panic!("expected a fatal backend failure, got {:?}", other),
    }

    let r = interpret_subprocess_result(
        true,
        true,
        "{\"result\": \"```\\nok\\n```\"}".to_string(),
        String::new(),
    );
    let resp = r.expect("parses");
    assert_eq!(resp.message, "ok");
    assert!(!resp.fallback);
}

#[test]
fn timeout_is_not_fatal() {
    assert!(!InvokeError::Timeout.is_fatal());
    assert!(!InvokeError::Transport("spawn failed".to_string()).is_fatal());
    assert!(!InvokeError::Malformed("bad json".to_string()).is_fatal());
}

#[test]
fn model_names_and_identifiers() {
    assert_eq!(model_cli_name(ModelChoice::Fast), "haiku");
    assert_eq!(model_cli_name(ModelChoice::Smart), "sonnet");
    assert_eq!(api_model_id("haiku"), Some("haiku-latest"));
    assert_eq!(api_model_id("sonnet"), Some("sonnet-latest"));
    assert_eq!(api_model_id("opus"), Some("opus-latest"));
    assert_eq!(api_model_id("unknown-model"), None);
    assert!(matches!(require_model_id("opus"), Ok("opus-latest")));
    assert!(matches!(
        require_model_id("unknown-model"),
        Err(ConfigError::UnknownModel(n)) if n == "unknown-model"
    ));
}

#[test]
fn config_file_yields_api_key() {
    let content = "editor=vi\napi-key= k-abc123 \nother=1\n";
    assert_eq!(parse_config_api_key(content), Some("k-abc123".to_string()));
    assert_eq!(parse_config_api_key("editor=vi\n"), None);
    assert_eq!(parse_config_api_key(""), None);
    assert_eq!(
        parse_config_api_key("api-key=first\napi-key=second"),
        Some("first".to_string())
    );
}

#[test]
fn api_response_takes_first_text_block() {
    let raw = "{\"content\": [{\"type\": \"thinking\", \"thinking\": \"...\"}, \
               {\"type\": \"text\", \"text\": \"```\\nadd tests\\n```\"}], \
               \"usage\": {\"input_tokens\": 11, \"output_tokens\": 6}}";
    let resp = parse_api_response(raw).expect("well-formed reply");
    assert_eq!(resp.message, "add tests");
    assert_eq!(resp.tokens, 17);
    assert!(!resp.fallback);
}

#[test]
fn api_response_without_text_block_is_malformed() {
    let raw = "{\"content\": [{\"type\": \"thinking\"}], \"usage\": {}}";
    assert!(matches!(parse_api_response(raw), Err(InvokeError::Malformed(_))));
}
