//! Routing: which rule a URL matches and what is done with it.
use vstd::prelude::*;
use crate::browsers::{RunningProcessSnapshot, lowercase_chars, running_contains, strings_view};
use crate::models::{AppConfig, BrowserConfig, BrowserView, ConfigView, DecisionView, RouteAction, RouteDecision, RuleConfig, RulePatternType, RuleView, browsers_view};
use crate::text::{ascii_lower_seq, chars_equal, chars_of, concat_chars, contains_exec, contains_seq, copy_opt_string, ends_with, ends_with_exec, eq_ignore_ascii_case, eq_ignore_ascii_case_spec, first_index, has_char, join2, join3, lemma_first_index, owned, replace_char, replace_char_spec, starts_with, starts_with_exec, string_from_chars, strip_prefix_repeated, strip_prefix_repeated_exec, trim, trim_spec};
use crate::trusted::{ParsedUrl, glob_builds, glob_is_match, glob_match, parse_url, path_exists, regex_compiles, regex_is_match, regex_match, to_lowercase, unicode_lowercase, url_host, url_parse_error_text, url_parses, url_scheme, url_serialization};

verus! {

/// Indices of visible browsers with the given id.
pub open spec fn visible_pred(browsers: Seq<BrowserView>, id: Seq<char>) -> spec_fn(int) -> bool {
    |i: int| browsers[i].id == id && !browsers[i].is_hidden
}

/// The first visible browser with the given id.
pub open spec fn visible_browser_index(browsers: Seq<BrowserView>, id: Seq<char>) -> Option<int> {
    first_index(browsers.len() as int, visible_pred(browsers, id))
}

/// The first visible browser with the given id.
pub fn find_visible_browser(browsers: &Vec<BrowserConfig>, id: &str) -> (r: Option<usize>)
    ensures
        r matches Some(i) ==> i < browsers.len(),
        match r {
            Some(i) => visible_browser_index(browsers_view(browsers@), id@) == Some(i as int),
            None => visible_browser_index(browsers_view(browsers@), id@) is None,
        },
{
    let ghost bv = browsers_view(browsers@);
    let ghost pred = visible_pred(bv, id@);
    let target = chars_of(id);
    let mut i: usize = 0;
    while i < browsers.len()
        invariant
            i <= browsers.len(),
            bv == browsers_view(browsers@),
            pred == visible_pred(bv, id@),
            target@ == id@,
            forall|k: int| 0 <= k < i ==> !#[trigger] pred(k),
        decreases browsers.len() - i,
    {
        let b = &browsers[i];
        assert(bv[i as int] == b@);
        if !b.is_hidden && chars_equal(&chars_of(b.id.as_str()), &target) {
            proof {
                assert(pred(i as int));
                lemma_first_index(bv.len() as int, pred);
            }
            return Some(i);
        }
        assert(!pred(i as int));
        i = i + 1;
    }
    proof {
        lemma_first_index(bv.len() as int, pred);
    }
    None
}

pub open spec fn lower_opt(o: Option<Seq<char>>) -> Option<Seq<char>> {
    match o {
        Some(h) => Some(unicode_lowercase(h)),
        None => None,
    }
}

/// The lower-cased host of a URL; a text without `://` is read as an https URL.
pub open spec fn extract_hostname_spec(u: Seq<char>) -> Option<Seq<char>> {
    if url_parses(u) {
        lower_opt(url_host(u))
    } else if !contains_seq(u, "://"@) && url_parses("https://"@ + u) {
        lower_opt(url_host("https://"@ + u))
    } else {
        None
    }
}

fn lower_host(host: Option<String>) -> (r: Option<String>)
    ensures
        r.deep_view() == lower_opt(host.deep_view()),
{
    match host {
        Some(h) => Some(to_lowercase(h.as_str())),
        None => None,
    }
}

/// The lower-cased host of a URL; a text without `://` is read as an https URL.
pub fn extract_hostname(url: &str) -> (r: Option<String>)
    ensures
        r.deep_view() == extract_hostname_spec(url@),
{
    if let Ok(parsed) = parse_url(url) {
        return lower_host(parsed.host);
    }
    if !contains_exec(&chars_of(url), &chars_of("://")) {
        let prefixed = join2("https://", url);
        if let Ok(parsed) = parse_url(prefixed.as_str()) {
            return lower_host(parsed.host);
        }
    }
    None
}

/// Whether a rule's pattern matches a URL. A blank pattern matches nothing;
/// otherwise, by pattern type: the URL's host equals the pattern (ignoring
/// case); the host ends with `.` and the pattern without its leading `*.`;
/// the URL starts with the pattern; the lower-cased URL contains the
/// lower-cased pattern; the URL equals the pattern; the case-insensitive glob
/// matches (backslashes read as slashes); the regex matches.
pub open spec fn rule_matches_spec(rule: RuleView, url: Seq<char>) -> bool {
    let p = trim_spec(rule.pattern);
    if p.len() == 0 {
        false
    } else {
        match rule.pattern_type {
            RulePatternType::Hostname => match extract_hostname_spec(url) {
                Some(h) => eq_ignore_ascii_case_spec(h, unicode_lowercase(p)),
                None => false,
            },
            RulePatternType::HostnameSubdomains => match extract_hostname_spec(url) {
                Some(h) => ends_with(
                    h,
                    seq!['.'] + unicode_lowercase(strip_prefix_repeated(p, "*."@)),
                ),
                None => false,
            },
            RulePatternType::Prefix => starts_with(url, p),
            RulePatternType::Contains => contains_seq(unicode_lowercase(url), unicode_lowercase(p)),
            RulePatternType::FullUrl => url == p,
            RulePatternType::Glob => glob_builds(p) && glob_is_match(
                p,
                replace_char_spec(url, '\\', '/'),
            ),
            RulePatternType::Regex => regex_compiles(p) && regex_is_match(p, url),
        }
    }
}

/// Whether a rule's pattern matches a URL.
pub fn rule_matches(rule: &RuleConfig, url: &str) -> (r: bool)
    ensures
        r == rule_matches_spec(rule@, url@),
{
    let pattern_chars = trim(&chars_of(rule.pattern.as_str()));
    if pattern_chars.len() == 0 {
        return false;
    }
    let pattern = string_from_chars(&pattern_chars);
    match rule.pattern_type {
        RulePatternType::Hostname => {
            let lowered = lowercase_chars(&pattern_chars);
            match extract_hostname(url) {
                Some(h) => eq_ignore_ascii_case(&chars_of(h.as_str()), &lowered),
                None => false,
            }
        },
        RulePatternType::HostnameSubdomains => {
            let stripped = strip_prefix_repeated_exec(&pattern_chars, &chars_of("*."));
            let domain = lowercase_chars(&stripped);
            let dot: Vec<char> = vec!['.'];
            let suffix = concat_chars(&dot, &domain);
            assert(dot@ =~= seq!['.']);
            match extract_hostname(url) {
                Some(h) => ends_with_exec(&chars_of(h.as_str()), &suffix),
                None => false,
            }
        },
        RulePatternType::Prefix => starts_with_exec(&chars_of(url), &pattern_chars),
        RulePatternType::Contains => {
            let url_lower = to_lowercase(url);
            contains_exec(&chars_of(url_lower.as_str()), &lowercase_chars(&pattern_chars))
        },
        RulePatternType::FullUrl => chars_equal(&chars_of(url), &pattern_chars),
        RulePatternType::Glob => {
            let candidate = string_from_chars(&replace_char(&chars_of(url), '\\', '/'));
            proof {
                assert(!has_char(candidate@, '\\'));
            }
            match glob_match(pattern.as_str(), candidate.as_str()) {
                Some(b) => b,
                None => false,
            }
        },
        RulePatternType::Regex => match regex_match(pattern.as_str(), url) {
            Some(b) => b,
            None => false,
        },
    }
}

/// A URL that the library will hand to a browser: trimmed, parsed, with an
/// http or https scheme and a host.
pub open spec fn normalize_url_spec(u: Seq<char>) -> Result<Seq<char>, Seq<char>> {
    let t = trim_spec(u);
    if t.len() == 0 {
        Err("URL cannot be empty."@)
    } else if !url_parses(t) {
        Err("Invalid URL: "@ + url_parse_error_text(t))
    } else if url_scheme(t) != "http"@ && url_scheme(t) != "https"@ {
        Err("Unsupported URL scheme '"@ + url_scheme(t) + "'. Only http and https are allowed."@)
    } else if url_host(t) is None {
        Err("URL must include a hostname."@)
    } else {
        Ok(url_serialization(t))
    }
}

pub open spec fn parsed_url_result_view(r: Result<ParsedUrl, String>) -> Result<
    Seq<char>,
    Seq<char>,
> {
    match r {
        Ok(p) => Ok(p.serialization@),
        Err(e) => Err(e@),
    }
}

/// Checks and parses a URL that is to be opened in a browser.
pub fn normalize_http_url(url: &str) -> (r: Result<ParsedUrl, String>)
    ensures
        parsed_url_result_view(r) == normalize_url_spec(url@),
        r matches Ok(p) ==> {
            &&& p.scheme@ == url_scheme(trim_spec(url@))
            &&& (p.scheme@ == "http"@ || p.scheme@ == "https"@)
            &&& p.host.deep_view() == url_host(trim_spec(url@))
            &&& p.host is Some
        },
{
    let trimmed_chars = trim(&chars_of(url));
    if trimmed_chars.len() == 0 {
        return Err(owned("URL cannot be empty."));
    }
    let trimmed = string_from_chars(&trimmed_chars);
    let parsed = match parse_url(trimmed.as_str()) {
        Ok(p) => p,
        Err(error) => {
            return Err(join2("Invalid URL: ", error.as_str()));
        },
    };
    let scheme = chars_of(parsed.scheme.as_str());
    if !chars_equal(&scheme, &chars_of("http")) && !chars_equal(&scheme, &chars_of("https")) {
        return Err(
            join3(
                "Unsupported URL scheme '",
                parsed.scheme.as_str(),
                "'. Only http and https are allowed.",
            ),
        );
    }
    if parsed.host.is_none() {
        return Err(owned("URL must include a hostname."));
    }
    Ok(parsed)
}

/// A decision to open the URL in a browser.
pub open spec fn open_view(
    b: BrowserView,
    private_mode: bool,
    matched_rule_id: Option<Seq<char>>,
    reason: Seq<char>,
) -> DecisionView {
    DecisionView {
        action: RouteAction::OpenBrowser,
        reason,
        browser_id: Some(b.id),
        browser_name: Some(b.name),
        private_mode,
        matched_rule_id,
    }
}

/// A decision to show the picker with nothing preselected.
pub open spec fn picker_view(reason: Seq<char>) -> DecisionView {
    DecisionView {
        action: RouteAction::ShowPicker,
        reason,
        browser_id: None,
        browser_name: None,
        private_mode: false,
        matched_rule_id: None,
    }
}

/// A decision to show the picker with a browser preselected.
pub open spec fn picker_for_view(
    b: BrowserView,
    private_mode: bool,
    matched_rule_id: Option<Seq<char>>,
    reason: Seq<char>,
) -> DecisionView {
    DecisionView {
        action: RouteAction::ShowPicker,
        reason,
        browser_id: Some(b.id),
        browser_name: Some(b.name),
        private_mode,
        matched_rule_id,
    }
}

/// A decision to open the URL in a browser.
pub fn open_decision(
    browser: &BrowserConfig,
    private_mode: bool,
    matched_rule_id: Option<String>,
    reason: &str,
) -> (r: RouteDecision)
    ensures
        r@ == open_view(browser@, private_mode, matched_rule_id.deep_view(), reason@),
{
    RouteDecision {
        action: RouteAction::OpenBrowser,
        reason: owned(reason),
        browser_id: Some(browser.id.clone()),
        browser_name: Some(browser.name.clone()),
        private_mode,
        matched_rule_id,
    }
}

/// A decision to show the picker with nothing preselected.
pub fn picker_decision(reason: &str) -> (r: RouteDecision)
    ensures
        r@ == picker_view(reason@),
{
    RouteDecision {
        action: RouteAction::ShowPicker,
        reason: owned(reason),
        browser_id: None,
        browser_name: None,
        private_mode: false,
        matched_rule_id: None,
    }
}

/// A decision to show the picker with a browser preselected.
pub fn picker_decision_for_browser(
    browser: &BrowserConfig,
    private_mode: bool,
    matched_rule_id: Option<String>,
    reason: &str,
) -> (r: RouteDecision)
    ensures
        r@ == picker_for_view(browser@, private_mode, matched_rule_id.deep_view(), reason@),
{
    RouteDecision {
        action: RouteAction::ShowPicker,
        reason: owned(reason),
        browser_id: Some(browser.id.clone()),
        browser_name: Some(browser.name.clone()),
        private_mode,
        matched_rule_id,
    }
}

/// Rules that decide a URL: enabled, matching, and pointing at a visible browser.
pub open spec fn rule_applies(c: ConfigView, url: Seq<char>) -> spec_fn(int) -> bool {
    |i: int|
        c.rules[i].enabled && rule_matches_spec(c.rules[i], url) && visible_browser_index(
            c.browsers,
            c.rules[i].browser_id,
        ) is Some
}

/// The first rule that decides a URL.
pub open spec fn first_applicable_rule(c: ConfigView, url: Seq<char>) -> Option<int> {
    first_index(c.rules.len() as int, rule_applies(c, url))
}

/// The visible default browser, if one is configured.
pub open spec fn default_visible(c: ConfigView) -> Option<int> {
    match c.default_browser_id {
        Some(did) => visible_browser_index(c.browsers, did),
        None => None,
    }
}

/// What is done with a URL, given the paths of the running processes:
/// the picker when it is always asked for; else the first rule that decides
/// the URL opens its browser when that runs, or the default browser when
/// defaults are used while it does not run (the picker when there is no
/// default), or the picker with the rule's browser; with no such rule, the
/// default browser opens when it runs or defaults are used, and otherwise the
/// picker shows.
pub open spec fn route_spec(c: ConfigView, url: Seq<char>, running: Seq<Seq<char>>) -> DecisionView {
    if c.always_show_picker {
        picker_view("always_show_picker"@)
    } else {
        match first_applicable_rule(c, url) {
            Some(i) => {
                let rule = c.rules[i];
                let b = c.browsers[visible_browser_index(c.browsers, rule.browser_id)->0];
                if running_contains(running, b) {
                    open_view(b, rule.private_mode, Some(rule.id), "rule_match_running"@)
                } else if c.use_defaults_when_not_running {
                    match default_visible(c) {
                        Some(j) => open_view(
                            c.browsers[j],
                            rule.private_mode,
                            Some(rule.id),
                            "rule_browser_not_running_use_default"@,
                        ),
                        None => picker_for_view(
                            b,
                            rule.private_mode,
                            Some(rule.id),
                            "rule_browser_not_running_no_default"@,
                        ),
                    }
                } else {
                    picker_for_view(b, rule.private_mode, Some(rule.id), "rule_browser_not_running"@)
                }
            },
            None => match c.default_browser_id {
                Some(did) => match visible_browser_index(c.browsers, did) {
                    None => picker_view("default_browser_missing"@),
                    Some(j) => if c.use_defaults_when_not_running || running_contains(
                        running,
                        c.browsers[j],
                    ) {
                        open_view(c.browsers[j], false, None, "default_browser"@)
                    } else {
                        picker_view("default_browser_not_running"@)
                    },
                },
                None => picker_view("no_match"@),
            },
        }
    }
}

/// Whether routing the URL needs to know which processes run.
pub open spec fn route_needs_running(c: ConfigView, url: Seq<char>) -> bool {
    !c.always_show_picker && (first_applicable_rule(c, url) is Some || (default_visible(c) is Some
        && !c.use_defaults_when_not_running))
}

/// When routing does not need the running processes, they do not change the
/// decision.
pub proof fn lemma_route_ignores_running(
    c: ConfigView,
    url: Seq<char>,
    a: Seq<Seq<char>>,
    b: Seq<Seq<char>>,
)
    requires
        !route_needs_running(c, url),
    ensures
        route_spec(c, url, a) == route_spec(c, url, b),
{
}

pub open spec fn decision_result_view(r: Result<RouteDecision, String>) -> Result<
    DecisionView,
    Seq<char>,
> {
    match r {
        Ok(d) => Ok(d@),
        Err(e) => Err(e@),
    }
}

/// What routing promises of a snapshot it consulted: the reader is kept,
/// processes already read stay, processes are read only when routing needs
/// them, and what was read is what the reader returned.
pub open spec fn snapshot_kept<F: Fn() -> Vec<String>>(
    before: RunningProcessSnapshot<F>,
    after: RunningProcessSnapshot<F>,
    needed: bool,
) -> bool {
    &&& after.spec_loader() == before.spec_loader()
    &&& before.processes() is Some ==> after.processes() == before.processes()
    &&& needed ==> after.processes() is Some
    &&& after.processes() is Some ==> before.processes() is Some || needed
    &&& before.processes() is None && after.processes() is Some ==> exists|v: Vec<String>|
        call_ensures(before.spec_loader(), (), v) && after.processes() == Some(strings_view(v@))
}

proof fn lemma_snapshot_step<F: Fn() -> Vec<String>>(
    a: RunningProcessSnapshot<F>,
    b: RunningProcessSnapshot<F>,
)
    requires
        b.spec_loader() == a.spec_loader(),
        b.processes() is Some,
        a.processes() is Some ==> b.processes() == a.processes(),
        a.processes() is None ==> exists|v: Vec<String>|
            call_ensures(a.spec_loader(), (), v) && b.processes() == Some(strings_view(v@)),
    ensures
        snapshot_kept(a, b, true),
{
}

/// Routes a URL, reading the running processes through `running` only when a
/// decision depends on them.
pub fn resolve_route_with_running_processes<F: Fn() -> Vec<String>>(
    config: &AppConfig,
    url: &str,
    running: &mut RunningProcessSnapshot<F>,
) -> (r: Result<RouteDecision, String>)
    requires
        call_requires(old(running).spec_loader(), ()),
    ensures
        r is Ok,
        decision_result_view(r) == Ok::<DecisionView, Seq<char>>(
            route_spec(config@, url@, final(running).processes_or_empty()),
        ),
        snapshot_kept(*old(running), *final(running), route_needs_running(config@, url@)),
{
    let ghost c = config@;
    let ghost start = *running;
    if config.always_show_picker {
        return Ok(picker_decision("always_show_picker"));
    }
    let mut i: usize = 0;
    let mut found: Option<(usize, usize)> = None;
    while i < config.rules.len()
        invariant_except_break
            found is None,
        invariant
            c == config@,
            i <= config.rules.len(),
            forall|k: int| 0 <= k < i ==> !#[trigger] rule_applies(c, url@)(k),
        ensures
            match found {
                Some((ri, bi)) => ri < config.rules.len() && bi < config.browsers.len()
                    && first_applicable_rule(c, url@) == Some(ri as int)
                    && visible_browser_index(c.browsers, c.rules[ri as int].browser_id) == Some(
                    bi as int,
                ),
                None => forall|k: int|
                    0 <= k < c.rules.len() ==> !#[trigger] rule_applies(c, url@)(k),
            },
        decreases config.rules.len() - i,
    {
        let rule = &config.rules[i];
        assert(c.rules[i as int] == rule@);
        if rule.enabled && rule_matches(rule, url) {
            if let Some(bi) = find_visible_browser(&config.browsers, rule.browser_id.as_str()) {
                proof {
                    assert(rule_applies(c, url@)(i as int));
                    lemma_first_index(c.rules.len() as int, rule_applies(c, url@));
                }
                found = Some((i, bi));
                break;
            }
        }
        assert(!rule_applies(c, url@)(i as int));
        i = i + 1;
    }
    proof {
        if found is None {
            lemma_first_index(c.rules.len() as int, rule_applies(c, url@));
        }
    }
    if let Some((ri, bi)) = found {
        let rule = &config.rules[ri];
        let browser = &config.browsers[bi];
        assert(c.rules[ri as int] == rule@);
        assert(c.browsers[bi as int] == browser@);
        let is_running = running.is_browser_running(browser);
        proof {
            lemma_snapshot_step(start, *running);
        }
        if is_running {
            return Ok(
                open_decision(browser, rule.private_mode, Some(rule.id.clone()), "rule_match_running"),
            );
        }
        if config.use_defaults_when_not_running {
            if let Some(default_id) = &config.default_browser_id {
                if let Some(di) = find_visible_browser(&config.browsers, default_id.as_str()) {
                    assert(c.browsers[di as int] == config.browsers@[di as int]@);
                    return Ok(
                        open_decision(
                            &config.browsers[di],
                            rule.private_mode,
                            Some(rule.id.clone()),
                            "rule_browser_not_running_use_default",
                        ),
                    );
                }
            }
            return Ok(
                picker_decision_for_browser(
                    browser,
                    rule.private_mode,
                    Some(rule.id.clone()),
                    "rule_browser_not_running_no_default",
                ),
            );
        }
        return Ok(
            picker_decision_for_browser(
                browser,
                rule.private_mode,
                Some(rule.id.clone()),
                "rule_browser_not_running",
            ),
        );
    }
    if let Some(default_id) = &config.default_browser_id {
        let found_default = find_visible_browser(&config.browsers, default_id.as_str());
        match found_default {
            None => {
                return Ok(picker_decision("default_browser_missing"));
            },
            Some(di) => {
                let browser = &config.browsers[di];
                assert(c.browsers[di as int] == browser@);
                if config.use_defaults_when_not_running {
                    return Ok(open_decision(browser, false, None, "default_browser"));
                }
                let is_running = running.is_browser_running(browser);
                proof {
                    lemma_snapshot_step(start, *running);
                }
                if is_running {
                    return Ok(open_decision(browser, false, None, "default_browser"));
                }
                return Ok(picker_decision("default_browser_not_running"));
            },
        }
    }
    Ok(picker_decision("no_match"))
}

/// A copy of a list of strings.
pub fn copy_strings(v: &Vec<String>) -> (r: Vec<String>)
    ensures
        strings_view(r@) == strings_view(v@),
{
    let mut r: Vec<String> = Vec::new();
    let mut i: usize = 0;
    while i < v.len()
        invariant
            i <= v.len(),
            strings_view(r@) == strings_view(v@).take(i as int),
        decreases v.len() - i,
    {
        let ghost before = r@;
        let item = v[i].clone();
        r.push(item);
        assert(strings_view(r@) =~= strings_view(before).push(v@[i as int]@));
        assert(strings_view(r@) =~= strings_view(v@).take(i + 1));
        i = i + 1;
    }
    assert(strings_view(v@).take(i as int) =~= strings_view(v@));
    r
}

/// Routes a URL, given the (normalised) paths of the running processes.
pub fn resolve_route(config: &AppConfig, url: &str, running_processes: &Vec<String>) -> (r: Result<
    RouteDecision,
    String,
>)
    ensures
        decision_result_view(r) == Ok::<DecisionView, Seq<char>>(
            route_spec(config@, url@, strings_view(running_processes@)),
        ),
{
    let owned_processes = copy_strings(running_processes);
    let ghost expected = strings_view(running_processes@);
    let loader = move || -> (v: Vec<String>)
        ensures
            strings_view(v@) == strings_view(owned_processes@),
        { copy_strings(&owned_processes) };
    let mut snapshot = RunningProcessSnapshot::new(loader);
    let r = resolve_route_with_running_processes(config, url, &mut snapshot);
    proof {
        if snapshot.processes() is None {
            lemma_route_ignores_running(config@, url@, Seq::empty(), expected);
        }
    }
    r
}

/// The program and arguments that open a URL in a browser.
pub struct BrowserLaunchCommand {
    pub program: String,
    pub args: Vec<String>,
    pub browser_name: String,
}

pub struct LaunchCommandView {
    pub program: Seq<char>,
    pub args: Seq<Seq<char>>,
    pub browser_name: Seq<char>,
}

pub open spec fn launch_command_view(r: Result<BrowserLaunchCommand, String>) -> Result<
    LaunchCommandView,
    Seq<char>,
> {
    match r {
        Ok(c) => Ok(
            LaunchCommandView {
                program: c.program@,
                args: strings_view(c.args@),
                browser_name: c.browser_name@,
            },
        ),
        Err(e) => Err(e@),
    }
}

/// The arguments of a launch: the browser's private flag when private mode is
/// asked for and the flag is not blank, then the URL.
pub open spec fn launch_args_spec(b: BrowserView, private_mode: bool, url: Seq<char>) -> Seq<
    Seq<char>,
> {
    if private_mode && b.private_flag is Some && trim_spec(b.private_flag->0).len() > 0 {
        seq![b.private_flag->0, url]
    } else {
        seq![url]
    }
}

/// How a URL is opened in the browser with the given id, given whether the
/// browser's executable exists: the URL must pass `normalize_url_spec`, the
/// browser must be listed and not hidden, and its executable must exist; the
/// program is the browser's path.
pub open spec fn url_launch_spec(
    c: ConfigView,
    browser_id: Seq<char>,
    url: Seq<char>,
    private_mode: bool,
    exists: bool,
) -> Result<LaunchCommandView, Seq<char>> {
    match normalize_url_spec(url) {
        Err(e) => Err(e),
        Ok(u) => match visible_browser_index(c.browsers, browser_id) {
            None => Err("Browser '"@ + browser_id + "' was not found in config."@),
            Some(i) => if !exists {
                Err("Browser executable does not exist: "@ + c.browsers[i].path)
            } else {
                Ok(
                    LaunchCommandView {
                        program: c.browsers[i].path,
                        args: launch_args_spec(c.browsers[i], private_mode, u),
                        browser_name: c.browsers[i].name,
                    },
                )
            },
        },
    }
}

/// How a URL is opened in a browser, given whether the browser's executable
/// exists: see `url_launch_spec`.
pub fn check_url_launch(
    config: &AppConfig,
    browser_id: &str,
    url: &str,
    private_mode: bool,
    executable_exists: bool,
) -> (r: Result<BrowserLaunchCommand, String>)
    ensures
        launch_command_view(r) == url_launch_spec(
            config@,
            browser_id@,
            url@,
            private_mode,
            executable_exists,
        ),
{
    let normalized = match normalize_http_url(url) {
        Ok(parsed) => parsed.serialization,
        Err(error) => {
            return Err(error);
        },
    };
    let index = match find_visible_browser(&config.browsers, browser_id) {
        Some(i) => i,
        None => {
            return Err(join3("Browser '", browser_id, "' was not found in config."));
        },
    };
    let browser = &config.browsers[index];
    assert(config@.browsers[index as int] == browser@);
    if !executable_exists {
        return Err(join2("Browser executable does not exist: ", browser.path.as_str()));
    }
    let mut args: Vec<String> = Vec::new();
    if private_mode {
        if let Some(flag) = &browser.private_flag {
            if trim(&chars_of(flag.as_str())).len() > 0 {
                args.push(flag.clone());
            }
        }
    }
    args.push(normalized);
    let ghost expected = launch_args_spec(browser@, private_mode, args@.last()@);
    assert(strings_view(args@) =~= expected);
    Ok(
        BrowserLaunchCommand {
            program: browser.path.clone(),
            args,
            browser_name: browser.name.clone(),
        },
    )
}

/// How a URL is opened in the browser with the given id, asking the disk
/// whether the browser's executable exists once the URL and the browser have
/// been found. The result is that of `check_url_launch` for what the disk
/// answered.
pub fn prepare_url_launch(config: &AppConfig, browser_id: &str, url: &str, private_mode: bool) -> (r:
    Result<BrowserLaunchCommand, String>)
    ensures
        exists|e: bool|
            launch_command_view(r) == url_launch_spec(config@, browser_id@, url@, private_mode, e),
{
    let mut exists = false;
    if normalize_http_url(url).is_ok() {
        if let Some(index) = find_visible_browser(&config.browsers, browser_id) {
            exists = path_exists(config.browsers[index].path.as_str());
        }
    }
    check_url_launch(config, browser_id, url, private_mode, exists)
}

/// The browser that a decision opens: its browser when the action is to open
/// one.
pub fn browser_to_open(decision: &RouteDecision) -> (r: Option<String>)
    ensures
        r.deep_view() == if decision.action == RouteAction::OpenBrowser {
            decision.browser_id.deep_view()
        } else {
            None
        },
{
    if decision.action == RouteAction::OpenBrowser {
        copy_opt_string(&decision.browser_id)
    } else {
        None
    }
}

/// With the picker always asked for, every URL shows the picker, whatever
/// the rules, the default browser and the running processes.
pub proof fn lemma_always_show_picker_wins(c: ConfigView, url: Seq<char>, running: Seq<Seq<char>>)
    requires
        c.always_show_picker,
    ensures
        route_spec(c, url, running) == picker_view("always_show_picker"@),
{
}

/// Two predicates that agree below `n1` have the same first index when the
/// first one finds one below `n1`, however far the second one looks.
proof fn lemma_first_index_agree(
    n1: int,
    n2: int,
    p1: spec_fn(int) -> bool,
    p2: spec_fn(int) -> bool,
)
    requires
        0 <= n1 <= n2,
        forall|i: int| 0 <= i < n1 ==> #[trigger] p1(i) == p2(i),
        first_index(n1, p1) is Some,
    ensures
        first_index(n2, p2) == first_index(n1, p1),
{
    lemma_first_index(n1, p1);
    lemma_first_index(n2, p2);
    let k = first_index(n1, p1)->0;
    assert(p2(k));
    if let Some(k2) = first_index(n2, p2) {
        if k2 < k {
            assert(p1(k2));
        }
    }
}

/// The configuration with other rules.
pub open spec fn with_rules(c: ConfigView, rules: Seq<RuleView>) -> ConfigView {
    ConfigView { rules, ..c }
}

/// First match wins: once a rule decides a URL, rules added after the
/// existing ones change nothing.
pub proof fn lemma_later_rules_ignored(
    c: ConfigView,
    extra: Seq<RuleView>,
    url: Seq<char>,
    running: Seq<Seq<char>>,
)
    requires
        first_applicable_rule(c, url) is Some,
    ensures
        route_spec(with_rules(c, c.rules + extra), url, running) == route_spec(c, url, running),
{
    let c2 = with_rules(c, c.rules + extra);
    assert forall|i: int| 0 <= i < c.rules.len() implies #[trigger] rule_applies(c, url)(i) == rule_applies(
        c2,
        url,
    )(i) by {
        assert(c2.rules[i] == c.rules[i]);
    }
    lemma_first_index_agree(
        c.rules.len() as int,
        c2.rules.len() as int,
        rule_applies(c, url),
        rule_applies(c2, url),
    );
    let k = first_applicable_rule(c, url)->0;
    lemma_first_index(c.rules.len() as int, rule_applies(c, url));
    assert(c2.rules[k] == c.rules[k]);
}

/// A disabled rule decides nothing: inserting one anywhere among the rules
/// leaves every routing decision as it was.
pub proof fn lemma_disabled_rule_ignored(
    c: ConfigView,
    pos: int,
    rule: RuleView,
    url: Seq<char>,
    running: Seq<Seq<char>>,
)
    requires
        0 <= pos <= c.rules.len(),
        !rule.enabled,
    ensures
        route_spec(with_rules(c, c.rules.insert(pos, rule)), url, running) == route_spec(
            c,
            url,
            running,
        ),
{
    let c2 = with_rules(c, c.rules.insert(pos, rule));
    let p1 = rule_applies(c, url);
    let p2 = rule_applies(c2, url);
    let n = c.rules.len() as int;
    assert(c2.rules.len() == n + 1);
    assert forall|i: int| 0 <= i < pos implies #[trigger] c2.rules[i] == c.rules[i] by {}
    assert forall|i: int| pos < i <= n implies #[trigger] c2.rules[i] == c.rules[i - 1] by {}
    assert(!p2(pos));
    lemma_first_index(n, p1);
    lemma_first_index(n + 1, p2);
    match first_index(n, p1) {
        Some(k) => {
            let k2 = if k < pos {
                k
            } else {
                k + 1
            };
            assert(p2(k2));
            assert(c2.rules[k2] == c.rules[k]);
            match first_index(n + 1, p2) {
                Some(j) => {
                    if j < k2 {
                        if j < pos {
                            assert(p1(j));
                        } else if j > pos {
                            assert(p1(j - 1));
                        }
                    }
                    if j > k2 {
                        assert(!p2(k2));
                    }
                },
                None => {},
            }
        },
        None => {
            if let Some(j) = first_index(n + 1, p2) {
                if j < pos {
                    assert(p1(j));
                } else if j > pos {
                    assert(p1(j - 1));
                }
            }
        },
    }
}

/// The index of a visible browser is found again from its own id.
proof fn lemma_visible_index_of_own_id(browsers: Seq<BrowserView>, id: Seq<char>)
    requires
        visible_browser_index(browsers, id) is Some,
    ensures
        visible_browser_index(
            browsers,
            browsers[visible_browser_index(browsers, id)->0].id,
        ) == visible_browser_index(browsers, id),
{
    let pred = visible_pred(browsers, id);
    lemma_first_index(browsers.len() as int, pred);
    let j = visible_browser_index(browsers, id)->0;
    assert(browsers[j].id == id);
}

/// Routing opens only browsers of the configuration that are not hidden: an
/// open decision names a browser id under which a visible browser is listed.
pub proof fn lemma_open_names_visible_browser(
    c: ConfigView,
    url: Seq<char>,
    running: Seq<Seq<char>>,
)
    ensures
        route_spec(c, url, running).action == RouteAction::OpenBrowser ==> (route_spec(
            c,
            url,
            running,
        ).browser_id matches Some(id) && visible_browser_index(c.browsers, id) is Some),
{
    if !c.always_show_picker {
        match first_applicable_rule(c, url) {
            Some(i) => {
                lemma_first_index(c.rules.len() as int, rule_applies(c, url));
                lemma_visible_index_of_own_id(c.browsers, c.rules[i].browser_id);
                if let Some(did) = c.default_browser_id {
                    if visible_browser_index(c.browsers, did) is Some {
                        lemma_visible_index_of_own_id(c.browsers, did);
                    }
                }
            },
            None => {
                if let Some(did) = c.default_browser_id {
                    if visible_browser_index(c.browsers, did) is Some {
                        lemma_visible_index_of_own_id(c.browsers, did);
                    }
                }
            },
        }
    }
}

/// Running processes are read at most once across routing and the picker
/// that follows it on the same snapshot: what each call keeps, the two calls
/// keep together.
pub proof fn lemma_snapshot_reads_once<F: Fn() -> Vec<String>>(
    a: RunningProcessSnapshot<F>,
    b: RunningProcessSnapshot<F>,
    c: RunningProcessSnapshot<F>,
    first_needed: bool,
    second_needed: bool,
)
    requires
        snapshot_kept(a, b, first_needed),
        snapshot_kept(b, c, second_needed),
    ensures
        snapshot_kept(a, c, first_needed || second_needed),
{
}

/// A launch hands the browser the normalised URL as its last argument, and
/// its private flag before it only when private mode was asked for.
pub proof fn lemma_launch_ends_with_url(
    c: ConfigView,
    browser_id: Seq<char>,
    url: Seq<char>,
    private_mode: bool,
    exists: bool,
)
    ensures
        url_launch_spec(c, browser_id, url, private_mode, exists) matches Ok(cmd) ==> {
            &&& normalize_url_spec(url) is Ok
            &&& cmd.args.last() == normalize_url_spec(url)->Ok_0
            &&& 1 <= cmd.args.len() <= 2
            &&& (cmd.args.len() == 2 ==> private_mode)
        },
{
}

/// A rule that decides a URL hands its private mode and its id to the
/// decision, whatever the decision is; when the rule's browser runs, the URL
/// opens in that browser with the reason `rule_match_running`. When no rule
/// decides, the decision is not private and names no rule.
pub proof fn lemma_deciding_rule_sets_private_mode(
    c: ConfigView,
    url: Seq<char>,
    running: Seq<Seq<char>>,
)
    requires
        !c.always_show_picker,
    ensures
        match first_applicable_rule(c, url) {
            Some(i) => {
                let d = route_spec(c, url, running);
                let rule = c.rules[i];
                let b = c.browsers[visible_browser_index(c.browsers, rule.browser_id)->0];
                &&& d.private_mode == rule.private_mode
                &&& d.matched_rule_id == Some(rule.id)
                &&& running_contains(running, b) ==> {
                    &&& d.action == RouteAction::OpenBrowser
                    &&& d.browser_id == Some(rule.browser_id)
                    &&& d.reason == "rule_match_running"@
                }
            },
            None => {
                &&& !route_spec(c, url, running).private_mode
                &&& route_spec(c, url, running).matched_rule_id is None
            },
        },
{
    if let Some(i) = first_applicable_rule(c, url) {
        lemma_first_index(c.rules.len() as int, rule_applies(c, url));
        let pred = visible_pred(c.browsers, c.rules[i].browser_id);
        lemma_first_index(c.browsers.len() as int, pred);
    }
}

/// A `Contains` rule does not see the case of the URL: two URLs with the
/// same lower-cased form are matched alike, and the rule matches exactly
/// when its trimmed pattern is not blank and the lower-cased URL contains the
/// lower-cased trimmed pattern.
pub proof fn lemma_contains_rule_ignores_url_case(rule: RuleView, url: Seq<char>, other: Seq<char>)
    requires
        rule.pattern_type == RulePatternType::Contains,
    ensures
        rule_matches_spec(rule, url) == (trim_spec(rule.pattern).len() > 0 && contains_seq(
            unicode_lowercase(url),
            unicode_lowercase(trim_spec(rule.pattern)),
        )),
        unicode_lowercase(url) == unicode_lowercase(other) ==> rule_matches_spec(rule, url)
            == rule_matches_spec(rule, other),
{
}

/// What each kind of rule matches, in words of its own: no rule with a blank
/// pattern matches; a `Prefix` rule matches the URLs that start with the
/// trimmed pattern, case and all, and so every longer URL that starts like a
/// matching one; a `FullUrl` rule matches the trimmed pattern alone; a
/// `Hostname` rule matches exactly when the URL has a host that equals the
/// lower-cased pattern up to ASCII case.
pub proof fn lemma_rule_kinds_match_as_documented(rule: RuleView, url: Seq<char>, tail: Seq<char>)
    ensures
        trim_spec(rule.pattern).len() == 0 ==> !rule_matches_spec(rule, url),
        rule.pattern_type == RulePatternType::Prefix ==> {
            &&& rule_matches_spec(rule, url) == (trim_spec(rule.pattern).len() > 0 && url.len()
                >= trim_spec(rule.pattern).len() && url.take(trim_spec(rule.pattern).len() as int)
                == trim_spec(rule.pattern))
            &&& rule_matches_spec(rule, url) ==> rule_matches_spec(rule, url + tail)
        },
        rule.pattern_type == RulePatternType::FullUrl ==> rule_matches_spec(rule, url) == (
        trim_spec(rule.pattern).len() > 0 && url == trim_spec(rule.pattern)),
        rule.pattern_type == RulePatternType::Hostname ==> rule_matches_spec(rule, url) == (
        trim_spec(rule.pattern).len() > 0 && exists|h: Seq<char>|
            extract_hostname_spec(url) == Some(h) && #[trigger] ascii_lower_seq(h)
                == ascii_lower_seq(unicode_lowercase(trim_spec(rule.pattern)))),
{
    let p = trim_spec(rule.pattern);
    if rule.pattern_type == RulePatternType::Prefix && rule_matches_spec(rule, url) {
        assert((url + tail).subrange(0, p.len() as int) =~= url.subrange(0, p.len() as int));
    }
    if rule.pattern_type == RulePatternType::Prefix {
        assert(url.len() >= p.len() ==> url.take(p.len() as int) =~= url.subrange(0, p.len() as int));
    }
}

} // verus!
