//! Data model of the extraction engine: field rules, render policies,
//! extraction specs, scrape results and the response envelope, with the
//! ghost views their contracts speak of.

use vstd::prelude::*;

verus! {

/// What a field rule extracts from each matched element.
#[derive(Debug, Clone, PartialEq)]
pub enum OutputKind {
    /// The element's concatenated text content.
    Text,
    /// The element's inner markup.
    Html,
    /// A named attribute's value, optionally absolutized against the final
    /// URL's origin.  A missing attribute yields no value, never an error.
    Attribute { attr: String, absolutize: bool },
}

/// Ghost view of an `OutputKind`.
pub enum OutputKindView {
    Text,
    Html,
    Attribute { attr: Seq<char>, absolutize: bool },
}

impl View for OutputKind {
    type V = OutputKindView;

    open spec fn view(&self) -> OutputKindView {
        match self {
            OutputKind::Text => OutputKindView::Text,
            OutputKind::Html => OutputKindView::Html,
            OutputKind::Attribute { attr, absolutize } => OutputKindView::Attribute {
                attr: attr@,
                absolutize: *absolutize,
            },
        }
    }
}

/// One declarative extraction instruction: a CSS selector plus the shape of
/// the output taken from each matched element.
#[derive(Debug, Clone, PartialEq)]
pub struct FieldRule {
    /// Key under which the values are accumulated in the result mapping.
    pub name: String,
    /// CSS selector run against the parsed document.
    pub selector: String,
    /// Keep only the first kept value.
    pub first_only: bool,
    /// Sort the collected values and drop adjacent duplicates.
    pub unique_only: bool,
    /// What to read from each matched element.
    pub output_kind: OutputKind,
    /// Field-level normalization override; `None` defers to the output
    /// kind's own default and then to the request-level default.
    pub normalize_override: Option<bool>,
}

/// Ghost view of a `FieldRule`.
pub struct FieldRuleView {
    pub name: Seq<char>,
    pub selector: Seq<char>,
    pub first_only: bool,
    pub unique_only: bool,
    pub output_kind: OutputKindView,
    pub normalize_override: Option<bool>,
}

impl View for FieldRule {
    type V = FieldRuleView;

    open spec fn view(&self) -> FieldRuleView {
        FieldRuleView {
            name: self.name@,
            selector: self.selector@,
            first_only: self.first_only,
            unique_only: self.unique_only,
            output_kind: self.output_kind@,
            normalize_override: self.normalize_override,
        }
    }
}

/// How long to wait for a rendered page to settle.
#[derive(Debug, Clone, PartialEq)]
pub enum WaitKind {
    /// Wait for the backend to report navigation completion.
    Load,
    /// Wait for the DOM-content-loaded report.
    DomContentLoaded,
    /// Poll for a selector, failing after its own bounded timeout.
    SelectorWait { selector: String, timeout_ms: u64 },
    /// Poll a mutation-quiescence probe until the DOM has been idle for
    /// `idle_threshold_ms`, force-settling after `max_wait_ms`.
    DomIdle { idle_threshold_ms: u64, max_wait_ms: u64 },
}

/// Ghost view of a `WaitKind`.
pub enum WaitKindView {
    Load,
    DomContentLoaded,
    SelectorWait { selector: Seq<char>, timeout_ms: u64 },
    DomIdle { idle_threshold_ms: u64, max_wait_ms: u64 },
}

impl View for WaitKind {
    type V = WaitKindView;

    open spec fn view(&self) -> WaitKindView {
        match self {
            WaitKind::Load => WaitKindView::Load,
            WaitKind::DomContentLoaded => WaitKindView::DomContentLoaded,
            WaitKind::SelectorWait { selector, timeout_ms } => WaitKindView::SelectorWait {
                selector: selector@,
                timeout_ms: *timeout_ms,
            },
            WaitKind::DomIdle { idle_threshold_ms, max_wait_ms } => WaitKindView::DomIdle {
                idle_threshold_ms: *idle_threshold_ms,
                max_wait_ms: *max_wait_ms,
            },
        }
    }
}

/// Whether and how to wait for client-side rendering before extraction.
#[derive(Debug, Clone, PartialEq)]
pub struct RenderPolicy {
    /// When false the page is fetched plainly and `wait_kind` is unused.
    pub enabled: bool,
    /// The readiness condition, meaningful only when `enabled`.
    pub wait_kind: WaitKind,
    /// Unconditional pause after the page settles, in milliseconds.
    pub quiet_period_ms: u64,
}

/// Ghost view of a `RenderPolicy`.
pub struct RenderPolicyView {
    pub enabled: bool,
    pub wait_kind: WaitKindView,
    pub quiet_period_ms: u64,
}

impl View for RenderPolicy {
    type V = RenderPolicyView;

    open spec fn view(&self) -> RenderPolicyView {
        RenderPolicyView {
            enabled: self.enabled,
            wait_kind: self.wait_kind@,
            quiet_period_ms: self.quiet_period_ms,
        }
    }
}

/// A whole declarative extraction request.
#[derive(Debug, Clone, PartialEq)]
pub struct ExtractionSpec {
    /// Target URL; a missing scheme defaults to `https`.
    pub url: String,
    /// Global request timeout in milliseconds.
    pub timeout_ms: u64,
    /// Render-and-wait configuration.
    pub render_policy: RenderPolicy,
    /// Request-level normalization default for text outputs.
    pub normalize_default: bool,
    /// The extraction rules, applied in declared order.
    pub field_rules: Vec<FieldRule>,
}

/// Ghost view of an `ExtractionSpec`.
pub struct ExtractionSpecView {
    pub url: Seq<char>,
    pub timeout_ms: u64,
    pub render_policy: RenderPolicyView,
    pub normalize_default: bool,
    pub field_rules: Seq<FieldRuleView>,
}

impl View for ExtractionSpec {
    type V = ExtractionSpecView;

    open spec fn view(&self) -> ExtractionSpecView {
        ExtractionSpecView {
            url: self.url@,
            timeout_ms: self.timeout_ms,
            render_policy: self.render_policy@,
            normalize_default: self.normalize_default,
            field_rules: self.field_rules@.map_values(|r: FieldRule| r@),
        }
    }
}

/// What one scrape produced: the resolved page plus the extracted fields.
/// `contents` is an insertion-ordered mapping from field name to the ordered
/// values collected for it.
#[derive(Debug, Clone, PartialEq)]
pub struct ScrapeResults {
    pub url: String,
    pub title: Option<String>,
    pub contents: Vec<(String, Vec<String>)>,
    pub lang: Option<String>,
    pub favicon: Option<String>,
    pub links: Vec<String>,
    pub document: String,
    pub text: String,
}

/// Ghost view of `ScrapeResults`.
pub struct ScrapeResultsView {
    pub url: Seq<char>,
    pub title: Option<Seq<char>>,
    pub contents: Seq<(Seq<char>, Seq<Seq<char>>)>,
    pub lang: Option<Seq<char>>,
    pub favicon: Option<Seq<char>>,
    pub links: Seq<Seq<char>>,
    pub document: Seq<char>,
    pub text: Seq<char>,
}

impl View for ScrapeResults {
    type V = ScrapeResultsView;

    open spec fn view(&self) -> ScrapeResultsView {
        ScrapeResultsView {
            url: self.url@,
            title: self.title.deep_view(),
            contents: self.contents.deep_view(),
            lang: self.lang.deep_view(),
            favicon: self.favicon.deep_view(),
            links: self.links.deep_view(),
            document: self.document@,
            text: self.text@,
        }
    }
}

/// The discriminated response envelope: a successful fetch-and-extract, or
/// the error that stopped it.
#[derive(Debug, Clone, PartialEq)]
pub enum ScraperResult {
    Success { status: u16, url: String, results: ScrapeResults },
    Failed { error: String },
}

/// Ghost view of `ScraperResult`.
pub enum ScraperResultView {
    Success { status: u16, url: Seq<char>, results: ScrapeResultsView },
    Failed { error: Seq<char> },
}

impl View for ScraperResult {
    type V = ScraperResultView;

    open spec fn view(&self) -> ScraperResultView {
        match self {
            ScraperResult::Success { status, url, results } => ScraperResultView::Success {
                status: *status,
                url: url@,
                results: results@,
            },
            ScraperResult::Failed { error } => ScraperResultView::Failed { error: error@ },
        }
    }
}

/// The error kinds of the engine.  Launch failure is fatal to the whole
/// session manager; every other kind is scoped to one call.
#[derive(Debug, Clone, PartialEq, Eq, Structural)]
pub enum EngineError {
    /// The automation backend process could not start.
    LaunchError,
    /// Navigation or an emulation step failed.
    NavigationError,
    /// A selector matched no element.
    ElementNotFound,
    /// A `SelectorWait` condition did not hold within its timeout.
    SelectorTimeout,
    /// Malformed CSS; skipped per rule, never fatal to an extraction.
    InvalidSelector,
    /// The engine handle resolved empty after shutdown.
    EngineUnavailable,
    /// The input spec is missing required fields.
    MalformedSpec,
    /// The waiting selector of a scrape call did not appear.
    TimeoutError,
}

impl EngineError {
    /// Short diagnostic text for the envelope's failure variant.
    pub fn message(&self) -> (r: &'static str)
        ensures
            r@ == spec_engine_error_message(*self),
    {
        match self {
            EngineError::LaunchError => "browser backend failed to launch",
            EngineError::NavigationError => "navigation failed",
            EngineError::ElementNotFound => "no element matches the selector",
            EngineError::SelectorTimeout => "selector did not appear within its timeout",
            EngineError::InvalidSelector => "malformed CSS selector",
            EngineError::EngineUnavailable => "engine not available",
            EngineError::MalformedSpec => "malformed extraction spec",
            EngineError::TimeoutError => "waiting selector did not appear",
        }
    }
}

/// The message each error kind carries.
pub open spec fn spec_engine_error_message(e: EngineError) -> Seq<char> {
    match e {
        EngineError::LaunchError => "browser backend failed to launch"@,
        EngineError::NavigationError => "navigation failed"@,
        EngineError::ElementNotFound => "no element matches the selector"@,
        EngineError::SelectorTimeout => "selector did not appear within its timeout"@,
        EngineError::InvalidSelector => "malformed CSS selector"@,
        EngineError::EngineUnavailable => "engine not available"@,
        EngineError::MalformedSpec => "malformed extraction spec"@,
        EngineError::TimeoutError => "waiting selector did not appear"@,
    }
}

} // verus!
