//! The extraction orchestrator: validates a spec, decides between the
//! rendered and the plain fetch path, and turns a fetch outcome into the
//! response envelope.  The fetches themselves — browser navigation or a
//! plain HTTP GET — happen in the unverified shell, which hands their
//! outcome back here; every decision around them is verified.

use vstd::prelude::*;
use vstd::string::StringExecFns;
use crate::schema::{ExtractionSpec, RenderPolicy, EngineError, ScraperResult,
    spec_engine_error_message};
use crate::utils::{str_has_prefix, spec_starts_with, spec_origin_of};
use crate::extract::{extract_fields, assemble_results, spec_extract, spec_rule_values,
    spec_scrape_links, first_opt, favicon_rule, title_rule, lang_rule};

verus! {

/// A URL with its scheme defaulted: an explicit `http`/`https` scheme is
/// kept, anything else gets `https://` in front.
pub open spec fn spec_resolve_scheme(u: Seq<char>) -> Seq<char> {
    if spec_starts_with(u, "http://"@) || spec_starts_with(u, "https://"@) {
        u
    } else {
        "https://"@ + u
    }
}

/// Defaults a URL's scheme to `https` when none is given.
pub fn resolve_scheme(url: &str) -> (r: String)
    ensures
        r@ == spec_resolve_scheme(url@),
{
    if str_has_prefix(url, "http://") || str_has_prefix(url, "https://") {
        String::from_str(url)
    } else {
        let mut out = String::from_str("https://");
        out.append(url);
        out
    }
}

/// Which fetch path a spec takes, with the resolved URL it targets.
pub enum FetchPlan {
    /// Navigate in the browser and run the readiness machine.
    Rendered { url: String, policy: RenderPolicy },
    /// One plain HTTP GET with bounded redirects and this timeout; sleep
    /// the quiet period afterwards.
    Plain { url: String, timeout_ms: u64, quiet_period_ms: u64 },
}

/// Chooses the fetch path: rendered exactly when the policy enables it.
pub fn plan_fetch(spec_req: &ExtractionSpec) -> (r: FetchPlan)
    ensures
        spec_req@.render_policy.enabled <==> r is Rendered,
        match r {
            FetchPlan::Rendered { url, policy } => url@ == spec_resolve_scheme(spec_req@.url)
                && policy@ == spec_req@.render_policy,
            FetchPlan::Plain { url, timeout_ms, quiet_period_ms } => url@ == spec_resolve_scheme(
                spec_req@.url,
            ) && timeout_ms == spec_req@.timeout_ms && quiet_period_ms
                == spec_req@.render_policy.quiet_period_ms,
        },
{
    let url = resolve_scheme(self_url(spec_req));
    if spec_req.render_policy.enabled {
        FetchPlan::Rendered { url, policy: clone_policy(&spec_req.render_policy) }
    } else {
        FetchPlan::Plain {
            url,
            timeout_ms: spec_req.timeout_ms,
            quiet_period_ms: spec_req.render_policy.quiet_period_ms,
        }
    }
}

/// A copy of a render policy whose view is the original's.
fn clone_policy(p: &RenderPolicy) -> (r: RenderPolicy)
    ensures
        r@ == p@,
{
    let wait_kind = match &p.wait_kind {
        crate::schema::WaitKind::Load => crate::schema::WaitKind::Load,
        crate::schema::WaitKind::DomContentLoaded => crate::schema::WaitKind::DomContentLoaded,
        crate::schema::WaitKind::SelectorWait { selector, timeout_ms } =>
            crate::schema::WaitKind::SelectorWait {
            selector: selector.clone(),
            timeout_ms: *timeout_ms,
        },
        crate::schema::WaitKind::DomIdle { idle_threshold_ms, max_wait_ms } =>
            crate::schema::WaitKind::DomIdle {
            idle_threshold_ms: *idle_threshold_ms,
            max_wait_ms: *max_wait_ms,
        },
    };
    RenderPolicy { enabled: p.enabled, wait_kind, quiet_period_ms: p.quiet_period_ms }
}

/// The spec's URL as a slice.
fn self_url(spec_req: &ExtractionSpec) -> (r: &str)
    ensures
        r@ == spec_req@.url,
{
    spec_req.url.as_str()
}

/// Accepts a spec exactly when its URL is non-empty; anything else is a
/// malformed spec, reported before any network activity.
pub fn validate_spec(spec_req: &ExtractionSpec) -> (r: Result<(), EngineError>)
    ensures
        r is Ok <==> spec_req@.url.len() > 0,
        r is Err ==> r == Err::<(), EngineError>(EngineError::MalformedSpec),
{
    if spec_req.url.as_str().is_empty() {
        Err(EngineError::MalformedSpec)
    } else {
        Ok(())
    }
}

/// What a fetch produced: the URL it ended on, the HTTP status, and the
/// body text.
pub struct FetchOutcome {
    pub final_url: String,
    pub status: u16,
    pub body: String,
}

/// Turns a fetch outcome into the response envelope.  A completed fetch is
/// a success whatever its HTTP status — a 404 still reports
/// `success` with `status: 404`, and extraction runs on whatever body came
/// back.  A failed fetch becomes the failure variant carrying the error's
/// message.  The visible-text field needs a live page to walk, so the
/// declarative path leaves it empty.
pub fn execute_outcome(spec_req: &ExtractionSpec, outcome: Result<FetchOutcome, EngineError>) -> (r:
    ScraperResult)
    ensures
        outcome is Ok <==> r is Success,
        match outcome {
            Ok(o) => match r {
                ScraperResult::Success { status, url, results } => {
                    &&& status == o.status
                    &&& url@ == o.final_url@
                    &&& results.url@ == o.final_url@
                    &&& results.document@ == o.body@
                    &&& results.text@.len() == 0
                    &&& results.contents.deep_view() == spec_extract(
                        o.body@,
                        spec_origin_of(o.final_url@),
                        spec_req@.field_rules,
                        spec_req@.normalize_default,
                        spec_req@.render_policy.enabled,
                    )
                    &&& results.links.deep_view() == spec_scrape_links(o.final_url@, o.body@)
                    &&& results.favicon.deep_view() == first_opt(
                        spec_rule_values(
                            o.body@,
                            spec_origin_of(o.final_url@),
                            favicon_rule(),
                            true,
                            false,
                        ),
                    )
                    &&& results.title.deep_view() == first_opt(
                        spec_rule_values(
                            o.body@,
                            spec_origin_of(o.final_url@),
                            title_rule(),
                            true,
                            false,
                        ),
                    )
                    &&& results.lang.deep_view() == first_opt(
                        spec_rule_values(
                            o.body@,
                            spec_origin_of(o.final_url@),
                            lang_rule(),
                            true,
                            false,
                        ),
                    )
                },
                ScraperResult::Failed { error } => false,
            },
            Err(e) => match r {
                ScraperResult::Success { status, url, results } => false,
                ScraperResult::Failed { error } => error@ == spec_engine_error_message(e),
            },
        },
{
    match outcome {
        Ok(o) => {
            let rendered = spec_req.render_policy.enabled;
            let base = origin_owned(&o.final_url);
            let contents = extract_fields(
                o.body.as_str(),
                base.as_str(),
                &spec_req.field_rules,
                spec_req.normalize_default,
                rendered,
            );
            let results = assemble_results(o.final_url.as_str(), o.body.as_str(), "", contents);
            proof {
                reveal_strlit("");
            }
            ScraperResult::Success { status: o.status, url: o.final_url, results }
        },
        Err(e) => {
            let msg = e.message();
            ScraperResult::Failed { error: String::from_str(msg) }
        },
    }
}

/// The origin of a URL held in a `String`.
fn origin_owned(url: &String) -> (r: String)
    ensures
        r@ == spec_origin_of(url@),
{
    crate::utils::origin_of(url.as_str())
}

} // verus!
