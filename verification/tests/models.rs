//! The key-resolution state machine: caching, fallback chains, the human
//! prompt of last resort, and input validation.

use agents::models::{
    key_failure_step, validate_key_input, GPT4, InputErr, KeyResolution, KeyStep, OpenAIKeySrc,
};

#[test]
fn default_configuration_fetches_from_dotenv() {
    let g = GPT4::new();
    assert_eq!(g.name(), "gpt-4");
    match g.begin_key_resolution() {
        KeyStep::Fetch(res) => {
            assert_eq!(res.pending, OpenAIKeySrc::DOTENV);
            assert_eq!(res.fallback, None);
            assert!(!res.human);
        }
        _ => panic!("expected a fetch"),
    }
}

#[test]
fn custom_key_is_ready_immediately() {
    let mut g = GPT4::new();
    g.with_key(OpenAIKeySrc::CUSTOM("sk-local".to_string()));
    assert_eq!(
        g.begin_key_resolution(),
        KeyStep::Ready("sk-local".to_string())
    );
}

#[test]
fn cached_key_short_circuits_resolution() {
    let mut g = GPT4::new();
    g.with_key(OpenAIKeySrc::SYSENV);
    g.store_key("sk-cached".to_string());
    assert_eq!(
        g.begin_key_resolution(),
        KeyStep::Ready("sk-cached".to_string())
    );
    // Changing the source invalidates the cache.
    g.with_key(OpenAIKeySrc::DOTENV);
    match g.begin_key_resolution() {
        KeyStep::Fetch(res) => assert_eq!(res.pending, OpenAIKeySrc::DOTENV),
        _ => panic!("expected a fetch"),
    }
}

#[test]
fn fallback_chain_after_a_failed_fetch() {
    let mut g = GPT4::new();
    g.with_key(OpenAIKeySrc::DOTENV);
    g.fallback_key(Some(OpenAIKeySrc::SYSENV));
    g.human_fallback(true);
    let first = match g.begin_key_resolution() {
        KeyStep::Fetch(res) => res,
        _ => panic!("expected a fetch"),
    };
    assert_eq!(first.pending, OpenAIKeySrc::DOTENV);
    assert_eq!(first.fallback, Some(OpenAIKeySrc::SYSENV));
    assert!(first.human);

    // The dotenv fetch fails: try the system environment, with the human
    // prompt kept in reserve.
    let second = match key_failure_step(first) {
        KeyStep::Fetch(res) => res,
        _ => panic!("expected a fetch"),
    };
    assert_eq!(second.pending, OpenAIKeySrc::SYSENV);
    assert_eq!(second.fallback, Some(OpenAIKeySrc::USERIN));
    assert!(!second.human);

    // The environment fetch fails too: ask the human once; nothing is
    // left behind the prompt.
    let third = match key_failure_step(second) {
        KeyStep::Fetch(res) => res,
        _ => panic!("expected a fetch"),
    };
    assert_eq!(third.pending, OpenAIKeySrc::USERIN);
    assert_eq!(third.fallback, None);
    assert!(third.human);

    // A failed prompt with nothing behind it gives up.
    assert_eq!(key_failure_step(third), KeyStep::Abort);
}

#[test]
fn human_fallback_retries_the_prompt() {
    // With the prompt as the configured fallback and the human flag set,
    // a failed prompt asks the human again, indefinitely.
    let first = KeyResolution {
        pending: OpenAIKeySrc::DOTENV,
        fallback: Some(OpenAIKeySrc::USERIN),
        human: true,
    };
    let second = match key_failure_step(first) {
        KeyStep::Fetch(res) => res,
        _ => panic!("expected a fetch"),
    };
    assert_eq!(second.pending, OpenAIKeySrc::USERIN);
    assert_eq!(second.fallback, Some(OpenAIKeySrc::USERIN));
    assert!(second.human);
    let third = match key_failure_step(second) {
        KeyStep::Fetch(res) => res,
        _ => panic!("expected a fetch"),
    };
    assert_eq!(third.pending, OpenAIKeySrc::USERIN);
    assert_eq!(third.fallback, Some(OpenAIKeySrc::USERIN));
    assert!(third.human);
}

#[test]
fn no_fallback_aborts() {
    let res = KeyResolution {
        pending: OpenAIKeySrc::DOTENV,
        fallback: None,
        human: false,
    };
    assert_eq!(key_failure_step(res), KeyStep::Abort);
}

#[test]
fn custom_fallback_hands_over_its_key() {
    let res = KeyResolution {
        pending: OpenAIKeySrc::SYSENV,
        fallback: Some(OpenAIKeySrc::CUSTOM("sk-spare".to_string())),
        human: true,
    };
    assert_eq!(key_failure_step(res), KeyStep::Ready("sk-spare".to_string()));
}

#[test]
fn key_input_validation() {
    assert_eq!(validate_key_input("sk-abc"), Ok("sk-abc".to_string()));
    // The line is kept exactly as entered, whitespace included.
    assert_eq!(validate_key_input(" sk-abc\n"), Ok(" sk-abc\n".to_string()));
    assert_eq!(validate_key_input(""), Err(InputErr::empty_input()));
    assert_eq!(validate_key_input(" \t\r\n"), Err(InputErr::empty_input()));
    // Whitespace is the set trimming strips, not just its ASCII part.
    assert_eq!(
        validate_key_input("\u{a0}\u{2003}\u{3000}"),
        Err(InputErr::empty_input())
    );
    assert_eq!(
        validate_key_input("\u{a0}sk-abc"),
        Ok("\u{a0}sk-abc".to_string())
    );
    assert_eq!(InputErr::empty_input().report(), "Empty string given");
    assert_eq!(
        InputErr::read_failure().report(),
        "Error reading input to buffer"
    );
}
