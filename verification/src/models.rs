//! The configuration and decision types that the library reads and produces,
//! with their mathematical views.
use vstd::prelude::*;

verus! {

/// Where a browser entry came from.
#[derive(Debug, Clone, Copy, PartialEq, Eq, Structural)]
pub enum BrowserSource {
    Detected,
    Manual,
}

/// How a rule's pattern is matched against a URL.
#[derive(Debug, Clone, Copy, PartialEq, Eq, Structural)]
pub enum RulePatternType {
    Hostname,
    HostnameSubdomains,
    Prefix,
    Contains,
    FullUrl,
    Glob,
    Regex,
}

/// The colour theme of the settings and picker windows.
#[derive(Debug, Clone, Copy, PartialEq, Eq, Structural)]
pub enum ThemePreference {
    Light,
    Dark,
}

/// How far a manually added browser is trusted to be launched.
#[derive(Debug, Clone, Copy, PartialEq, Eq, Structural)]
pub enum ManualBrowserTrust {
    Verified,
    UserConfirmed,
}

/// How an executable was recognised.
#[derive(Debug, Clone, Copy, PartialEq, Eq, Structural)]
pub enum BrowserRecognition {
    Known,
    RecognizedFamily,
    UnverifiedManual,
}

/// What happens to a routed URL.
#[derive(Debug, Clone, Copy, PartialEq, Eq, Structural)]
pub enum RouteAction {
    OpenBrowser,
    ShowPicker,
}

/// Whether a picker was opened by routing or by the user.
#[derive(Debug, Clone, Copy, PartialEq, Eq, Structural)]
pub enum PickerLaunchSource {
    Route,
    Manual,
}

/// One browser known to the configuration.
#[derive(Debug, Clone, PartialEq, Eq)]
pub struct BrowserConfig {
    pub id: String,
    pub name: String,
    pub path: String,
    pub private_flag: Option<String>,
    pub icon_key: Option<String>,
    pub manual_trust: Option<ManualBrowserTrust>,
    pub source: BrowserSource,
    pub is_hidden: bool,
}

/// One routing rule.
#[derive(Debug, Clone, PartialEq, Eq)]
pub struct RuleConfig {
    pub id: String,
    pub pattern: String,
    pub pattern_type: RulePatternType,
    pub browser_id: String,
    pub private_mode: bool,
    pub enabled: bool,
}

/// The whole configuration.
#[derive(Debug, Clone, PartialEq, Eq)]
pub struct AppConfig {
    pub version: u32,
    pub always_show_picker: bool,
    pub use_defaults_when_not_running: bool,
    pub disable_transparency: bool,
    pub theme_preference: ThemePreference,
    pub onboarding_completed: bool,
    pub default_browser_id: Option<String>,
    pub browsers: Vec<BrowserConfig>,
    pub rules: Vec<RuleConfig>,
}

/// What routing decided for one URL.
#[derive(Debug, Clone)]
pub struct RouteDecision {
    pub action: RouteAction,
    pub reason: String,
    pub browser_id: Option<String>,
    pub browser_name: Option<String>,
    pub private_mode: bool,
    pub matched_rule_id: Option<String>,
}

/// A request to open a URL in a given browser.
#[derive(Debug, Clone)]
pub struct OpenUrlRequest {
    pub browser_id: String,
    pub url: String,
    pub private_mode: bool,
}

/// A request to check a browser that the user adds by hand.
#[derive(Debug, Clone)]
pub struct ManualBrowserValidationRequest {
    pub name: String,
    pub path: String,
    pub private_flag: Option<String>,
    pub allow_user_confirmed: bool,
}

/// The outcome of checking a browser that the user adds by hand.
#[derive(Debug, Clone)]
pub struct ManualBrowserValidationResult {
    pub recognition: BrowserRecognition,
    pub manual_trust: Option<ManualBrowserTrust>,
    pub browser_name: String,
    pub private_flag: Option<String>,
    pub family: Option<String>,
    pub icon_key: Option<String>,
    pub requires_confirmation: bool,
    pub message: String,
}

/// Whether Hops is registered and chosen as the handler of http and https.
#[derive(Debug, Clone)]
pub struct BrowserRegistrationStatus {
    pub registered: bool,
    pub is_default_http: bool,
    pub is_default_https: bool,
    pub is_fully_default: bool,
    pub current_http_prog_id: Option<String>,
    pub current_https_prog_id: Option<String>,
}

/// One row of the picker window.
#[derive(Debug, Clone)]
pub struct PickerBrowserEntry {
    pub id: String,
    pub name: String,
    pub private_flag: Option<String>,
    pub icon_key: Option<String>,
    pub is_default: bool,
    pub is_running: bool,
}

/// Everything the picker window shows for one URL.
#[derive(Debug, Clone)]
pub struct PickerSession {
    pub url: String,
    pub reason: String,
    pub source: PickerLaunchSource,
    pub preferred_browser_id: Option<String>,
    pub preferred_private_mode: bool,
    pub disable_transparency: bool,
    pub theme_preference: ThemePreference,
    pub always_show_picker: bool,
    pub alt_pressed: bool,
    pub browsers: Vec<PickerBrowserEntry>,
}

/// The theme a configuration gets when it names none.
pub fn default_theme_preference() -> (t: ThemePreference)
    ensures
        t == ThemePreference::Light,
{
    ThemePreference::Light
}

/// The mathematical view of a browser entry.
pub struct BrowserView {
    pub id: Seq<char>,
    pub name: Seq<char>,
    pub path: Seq<char>,
    pub private_flag: Option<Seq<char>>,
    pub icon_key: Option<Seq<char>>,
    pub manual_trust: Option<ManualBrowserTrust>,
    pub source: BrowserSource,
    pub is_hidden: bool,
}

impl View for BrowserConfig {
    type V = BrowserView;

    open spec fn view(&self) -> BrowserView {
        BrowserView {
            id: self.id@,
            name: self.name@,
            path: self.path@,
            private_flag: self.private_flag.deep_view(),
            icon_key: self.icon_key.deep_view(),
            manual_trust: self.manual_trust,
            source: self.source,
            is_hidden: self.is_hidden,
        }
    }
}

/// The mathematical view of a rule.
pub struct RuleView {
    pub id: Seq<char>,
    pub pattern: Seq<char>,
    pub pattern_type: RulePatternType,
    pub browser_id: Seq<char>,
    pub private_mode: bool,
    pub enabled: bool,
}

impl View for RuleConfig {
    type V = RuleView;

    open spec fn view(&self) -> RuleView {
        RuleView {
            id: self.id@,
            pattern: self.pattern@,
            pattern_type: self.pattern_type,
            browser_id: self.browser_id@,
            private_mode: self.private_mode,
            enabled: self.enabled,
        }
    }
}

/// The views of a list of browsers.
pub open spec fn browsers_view(v: Seq<BrowserConfig>) -> Seq<BrowserView> {
    v.map_values(|b: BrowserConfig| b@)
}

/// The views of a list of rules.
pub open spec fn rules_view(v: Seq<RuleConfig>) -> Seq<RuleView> {
    v.map_values(|r: RuleConfig| r@)
}

/// The mathematical view of a configuration.
pub struct ConfigView {
    pub version: u32,
    pub always_show_picker: bool,
    pub use_defaults_when_not_running: bool,
    pub disable_transparency: bool,
    pub theme_preference: ThemePreference,
    pub onboarding_completed: bool,
    pub default_browser_id: Option<Seq<char>>,
    pub browsers: Seq<BrowserView>,
    pub rules: Seq<RuleView>,
}

impl View for AppConfig {
    type V = ConfigView;

    open spec fn view(&self) -> ConfigView {
        ConfigView {
            version: self.version,
            always_show_picker: self.always_show_picker,
            use_defaults_when_not_running: self.use_defaults_when_not_running,
            disable_transparency: self.disable_transparency,
            theme_preference: self.theme_preference,
            onboarding_completed: self.onboarding_completed,
            default_browser_id: self.default_browser_id.deep_view(),
            browsers: browsers_view(self.browsers@),
            rules: rules_view(self.rules@),
        }
    }
}

/// The mathematical view of a routing decision.
pub struct DecisionView {
    pub action: RouteAction,
    pub reason: Seq<char>,
    pub browser_id: Option<Seq<char>>,
    pub browser_name: Option<Seq<char>>,
    pub private_mode: bool,
    pub matched_rule_id: Option<Seq<char>>,
}

impl View for RouteDecision {
    type V = DecisionView;

    open spec fn view(&self) -> DecisionView {
        DecisionView {
            action: self.action,
            reason: self.reason@,
            browser_id: self.browser_id.deep_view(),
            browser_name: self.browser_name.deep_view(),
            private_mode: self.private_mode,
            matched_rule_id: self.matched_rule_id.deep_view(),
        }
    }
}

/// The mathematical view of a picker row.
pub struct PickerEntryView {
    pub id: Seq<char>,
    pub name: Seq<char>,
    pub private_flag: Option<Seq<char>>,
    pub icon_key: Option<Seq<char>>,
    pub is_default: bool,
    pub is_running: bool,
}

impl View for PickerBrowserEntry {
    type V = PickerEntryView;

    open spec fn view(&self) -> PickerEntryView {
        PickerEntryView {
            id: self.id@,
            name: self.name@,
            private_flag: self.private_flag.deep_view(),
            icon_key: self.icon_key.deep_view(),
            is_default: self.is_default,
            is_running: self.is_running,
        }
    }
}

/// A copy of a browser entry.
pub fn copy_browser(b: &BrowserConfig) -> (r: BrowserConfig)
    ensures
        r@ == b@,
{
    BrowserConfig {
        id: b.id.clone(),
        name: b.name.clone(),
        path: b.path.clone(),
        private_flag: crate::text::copy_opt_string(&b.private_flag),
        icon_key: crate::text::copy_opt_string(&b.icon_key),
        manual_trust: b.manual_trust,
        source: b.source,
        is_hidden: b.is_hidden,
    }
}

/// A copy of a rule.
pub fn copy_rule(r: &RuleConfig) -> (c: RuleConfig)
    ensures
        c@ == r@,
{
    RuleConfig {
        id: r.id.clone(),
        pattern: r.pattern.clone(),
        pattern_type: r.pattern_type,
        browser_id: r.browser_id.clone(),
        private_mode: r.private_mode,
        enabled: r.enabled,
    }
}

} // verus!
