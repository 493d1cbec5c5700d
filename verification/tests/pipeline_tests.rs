use scrape_core::codec::{serialize_result, deserialize_result};
use scrape_core::engine::{plan_element_capture, plan_full_page_capture, resolve_handle,
    shutdown_registry, BoundingBox, EngineRegistry, ScreenshotSpec};
use scrape_core::orchestrate::{execute_outcome, plan_fetch, resolve_scheme, validate_spec,
    FetchOutcome, FetchPlan};
use scrape_core::schema::{EngineError, ExtractionSpec, FieldRule, OutputKind, RenderPolicy,
    ScrapeResults, ScraperResult, WaitKind};
use scrape_core::wait::{wait_step, WaitAction, WaitEvent, WaitState, POLL_INTERVAL_MS};
use scrape_core::{CaptureAPIBuilder, Client, ScraperAPIBuilder};

fn sample_results() -> ScrapeResults {
    ScrapeResults {
        url: "https://x.test/page".to_string(),
        title: Some("a \"quoted\" title".to_string()),
        contents: vec![
            ("zeta".to_string(), vec!["v1".to_string(), "v2".to_string()]),
            ("alpha".to_string(), vec![]),
        ],
        lang: None,
        favicon: Some("https://x.test/favicon.ico".to_string()),
        links: vec!["https://x.test/a".to_string(), "https://x.test/b".to_string()],
        document: "<html>\n\tbody with \\ and \u{1} control</html>".to_string(),
        text: "line one\nline two".to_string(),
    }
}

#[test]
fn envelope_round_trip_success() {
    let original = ScraperResult::Success {
        status: 404,
        url: "https://x.test/page".to_string(),
        results: sample_results(),
    };
    let wire = serialize_result(&original);
    let back = deserialize_result(&wire).expect("canonical envelope must parse");
    // field ordering and exact string values survive the round trip
    assert_eq!(back, original);
}

#[test]
fn envelope_round_trip_failed() {
    let original = ScraperResult::Failed { error: "navigation failed".to_string() };
    let wire = serialize_result(&original);
    assert_eq!(wire, "{\"success\":\"false\",\"error\":\"navigation failed\"}");
    let back = deserialize_result(&wire).expect("canonical envelope must parse");
    assert_eq!(back, original);
}

#[test]
fn envelope_rejects_garbage() {
    assert!(deserialize_result("not json").is_none());
    assert!(deserialize_result("{\"success\":\"true\",\"status\":99999}").is_none());
    assert!(deserialize_result("").is_none());
}

fn selector_policy(timeout_ms: u64) -> RenderPolicy {
    RenderPolicy {
        enabled: true,
        wait_kind: WaitKind::SelectorWait { selector: "#app".to_string(), timeout_ms },
        quiet_period_ms: 0,
    }
}

#[test]
fn selector_wait_times_out_and_never_hangs() {
    let policy = selector_policy(250);
    let mut state = WaitState::Navigating;
    let mut steps: u32 = 0;
    let (s, _) = wait_step(&policy, &state, &WaitEvent::NavigationDone);
    state = s;
    // the selector never appears; the machine must fail, and promptly
    loop {
        let (next, action) = wait_step(&policy, &state, &WaitEvent::SelectorProbe { found: false });
        state = next;
        steps += 1;
        match action {
            WaitAction::Fail { error } => {
                assert_eq!(error, EngineError::SelectorTimeout);
                break;
            }
            WaitAction::Probe { delay_ms } => assert!(delay_ms <= POLL_INTERVAL_MS),
            other => panic!("unexpected action {:?}", other),
        }
        assert!(steps < 100, "selector wait must not hang");
    }
    assert_eq!(state, WaitState::TimedOut);
    // 250 ms timeout at 100 ms polls: bounded by timeout plus one interval
    assert!(steps <= 250 / POLL_INTERVAL_MS as u32 + 2);
}

#[test]
fn selector_found_settles_with_quiet_period() {
    let mut policy = selector_policy(1000);
    policy.quiet_period_ms = 50;
    let (s1, _) = wait_step(&policy, &WaitState::Navigating, &WaitEvent::NavigationDone);
    let (s2, a2) = wait_step(&policy, &s1, &WaitEvent::SelectorProbe { found: true });
    assert_eq!(s2, WaitState::QuietWait);
    assert_eq!(a2, WaitAction::Sleep { delay_ms: 50 });
    let (s3, a3) = wait_step(&policy, &s2, &WaitEvent::SleepDone);
    assert_eq!(s3, WaitState::Settled);
    assert_eq!(a3, WaitAction::Done);
}

#[test]
fn dom_idle_settles_on_quiescence() {
    let policy = RenderPolicy {
        enabled: true,
        wait_kind: WaitKind::DomIdle { idle_threshold_ms: 200, max_wait_ms: 10_000 },
        quiet_period_ms: 0,
    };
    let (mut state, _) = wait_step(&policy, &WaitState::Navigating, &WaitEvent::NavigationDone);
    for _ in 0..2 {
        let (next, _) = wait_step(&policy, &state, &WaitEvent::IdleProbe { mutated: false });
        state = next;
    }
    // after 200 ms without mutations the page settles
    let (settled, action) = wait_step(&policy, &state, &WaitEvent::IdleProbe { mutated: false });
    assert_eq!(settled, WaitState::Settled);
    assert_eq!(action, WaitAction::Done);
}

fn sample_spec(enabled: bool) -> ExtractionSpec {
    ExtractionSpec {
        url: "x.test/page".to_string(),
        timeout_ms: 5000,
        render_policy: RenderPolicy {
            enabled,
            wait_kind: WaitKind::Load,
            quiet_period_ms: 10,
        },
        normalize_default: true,
        field_rules: vec![FieldRule {
            name: "para".to_string(),
            selector: "p".to_string(),
            first_only: false,
            unique_only: false,
            output_kind: OutputKind::Text,
            normalize_override: None,
        }],
    }
}

#[test]
fn plain_fetch_404_still_succeeds() {
    let spec = sample_spec(false);
    let outcome = Ok(FetchOutcome {
        final_url: "https://x.test/page".to_string(),
        status: 404,
        body: "<html><body><p>not  found</p></body></html>".to_string(),
    });
    match execute_outcome(&spec, outcome) {
        ScraperResult::Success { status, url, results } => {
            assert_eq!(status, 404);
            assert_eq!(url, "https://x.test/page");
            // extraction still ran on the body that came back
            assert_eq!(results.contents[0].0, "para");
            assert_eq!(results.contents[0].1, vec!["not found".to_string()]);
        }
        other => panic!("expected success, got {:?}", other),
    }
}

#[test]
fn failed_fetch_becomes_failure_envelope() {
    let spec = sample_spec(false);
    match execute_outcome(&spec, Err(EngineError::NavigationError)) {
        ScraperResult::Failed { error } => assert_eq!(error, "navigation failed"),
        other => panic!("expected failure, got {:?}", other),
    }
}

#[test]
fn fetch_plan_follows_render_policy() {
    match plan_fetch(&sample_spec(false)) {
        FetchPlan::Plain { url, timeout_ms, quiet_period_ms } => {
            assert_eq!(url, "https://x.test/page");
            assert_eq!(timeout_ms, 5000);
            assert_eq!(quiet_period_ms, 10);
        }
        other => panic!("expected plain plan, got rendered: {:?}", matches!(other, FetchPlan::Rendered { .. })),
    }
    match plan_fetch(&sample_spec(true)) {
        FetchPlan::Rendered { url, policy } => {
            assert_eq!(url, "https://x.test/page");
            assert!(policy.enabled);
        }
        _ => panic!("expected rendered plan"),
    }
}

#[test]
fn scheme_defaults_to_https() {
    assert_eq!(resolve_scheme("x.test/a"), "https://x.test/a");
    assert_eq!(resolve_scheme("http://x.test/a"), "http://x.test/a");
    assert_eq!(resolve_scheme("https://x.test/a"), "https://x.test/a");
}

#[test]
fn empty_url_is_malformed_spec() {
    let mut spec = sample_spec(false);
    spec.url = String::new();
    assert_eq!(validate_spec(&spec), Err(EngineError::MalformedSpec));
    assert_eq!(validate_spec(&sample_spec(false)), Ok(()));
}

#[test]
fn capture_without_match_is_element_not_found() {
    assert_eq!(plan_element_capture(None), Err(EngineError::ElementNotFound));
    let b = BoundingBox { x: 10, y: 20, width: 300, height: 200 };
    assert_eq!(
        plan_element_capture(Some(b)),
        Ok(ScreenshotSpec { clip: Some(b), full_page: false })
    );
    assert_eq!(plan_full_page_capture(), ScreenshotSpec { clip: None, full_page: true });
}

#[test]
fn handle_resolves_unavailable_after_shutdown() {
    let mut reg = EngineRegistry { generation: 7, live: true };
    assert_eq!(resolve_handle(7, &reg), Ok(()));
    assert_eq!(resolve_handle(6, &reg), Err(EngineError::EngineUnavailable));
    shutdown_registry(&mut reg);
    assert_eq!(resolve_handle(7, &reg), Err(EngineError::EngineUnavailable));
    // idempotent
    shutdown_registry(&mut reg);
    assert_eq!(resolve_handle(7, &reg), Err(EngineError::EngineUnavailable));
}

#[test]
fn scraper_builder_builds_query() {
    let api = ScraperAPIBuilder::new("https://example.com/a b")
        .add_selector("p")
        .add_selector("h1")
        .set_text_selector(".main")
        .set_waiting_selector("#app")
        .build();
    assert_eq!(api.url, "https%3A%2F%2Fexample.com%2Fa%20b");
    assert_eq!(
        api.generate_url(),
        "/scraping?url=https%3A%2F%2Fexample.com%2Fa%20b&selector=p&selector=h1\
&text_selector=.main&waiting_selector=#app"
    );
}

#[test]
fn capture_builder_builds_query() {
    let api = CaptureAPIBuilder::new("https://example.com")
        .set_selector("#hero")
        .set_wait_millis(1500)
        .build();
    assert_eq!(
        api.generate_url(),
        "/capture?url=https%3A%2F%2Fexample.com&selector=#hero&wait=1500"
    );
    let api2 = CaptureAPIBuilder::new("x").set_wait_secs(2).build();
    assert_eq!(api2.generate_url(), "/capture?url=x&wait=2000");
    let api3 = CaptureAPIBuilder::new("x")
        .set_wait(std::time::Duration::from_millis(250))
        .build();
    assert_eq!(api3.generate_url(), "/capture?url=x&wait=250");
}

#[test]
fn client_joins_base_url() {
    let client = Client::new("http://localhost:3773");
    let api = CaptureAPIBuilder::new("x").build();
    assert_eq!(client.capture_url(&api), "http://localhost:3773/capture?url=x&wait=0");
    let sapi = ScraperAPIBuilder::new("x").build();
    assert_eq!(client.scrape_url(&sapi), "http://localhost:3773/scraping?url=x");
}

#[test]
fn error_messages_are_fixed() {
    assert_eq!(EngineError::EngineUnavailable.message(), "engine not available");
    assert_eq!(EngineError::LaunchError.message(), "browser backend failed to launch");
    assert_eq!(EngineError::InvalidSelector.message(), "malformed CSS selector");
    assert_eq!(EngineError::SelectorTimeout.message(), "selector did not appear within its timeout");
}

#[test]
fn envelope_round_trip_empty_fields() {
    let original = ScraperResult::Success {
        status: 200,
        url: String::new(),
        results: ScrapeResults {
            url: String::new(),
            title: None,
            contents: vec![],
            lang: None,
            favicon: None,
            links: vec![],
            document: String::new(),
            text: String::new(),
        },
    };
    let wire = serialize_result(&original);
    let back = deserialize_result(&wire).expect("canonical envelope must parse");
    assert_eq!(back, original);
}
