//! The configuration: its defaults, its normalisation and its validation.
use vstd::prelude::*;
use crate::browsers::{check_browser_for_launch, classify_spec, executable_exists, hydrate_detected_browser_defaults, hydrated_browser, is_manual, keeps_detected, launch_check_spec, merge_detected_browsers, merge_unsorted, name_key_fn, normalize_manual_browser_entries, normalized_manual_browser, rehidden, strings_view, with_browsers};
use crate::models::{AppConfig, BrowserConfig, BrowserRecognition, BrowserSource, BrowserView, ConfigView, RouteDecision, RuleConfig, RulePatternType, RuleView, ThemePreference, browsers_view, copy_browser, copy_rule, rules_view};
use crate::routing::{resolve_route, route_spec};
use crate::sorting::{same_order_per_key, sorted_by};
use crate::text::{chars_equal, chars_of, copy_opt_string, first_index, join5, lemma_first_index, owned, trim_spec};
use crate::trusted::{regex_check, regex_compiles, regex_error_text};

verus! {

/// The configuration that a first start begins with.
pub open spec fn default_config_view() -> ConfigView {
    ConfigView {
        version: 1,
        always_show_picker: false,
        use_defaults_when_not_running: false,
        disable_transparency: false,
        theme_preference: ThemePreference::Light,
        onboarding_completed: false,
        default_browser_id: None,
        browsers: Seq::empty(),
        rules: Seq::empty(),
    }
}

/// The default configuration: version 1, every switch off, the light theme,
/// no default browser, no browsers and no rules.
pub fn default_config() -> (r: AppConfig)
    ensures
        r@ == default_config_view(),
{
    let r = AppConfig {
        version: 1,
        always_show_picker: false,
        use_defaults_when_not_running: false,
        disable_transparency: false,
        theme_preference: ThemePreference::Light,
        onboarding_completed: false,
        default_browser_id: None,
        browsers: Vec::new(),
        rules: Vec::new(),
    };
    assert(r@.browsers =~= Seq::<BrowserView>::empty());
    assert(r@.rules =~= Seq::<RuleView>::empty());
    r
}

/// Detected browsers as a fresh configuration lists them: none hidden.
pub open spec fn unhidden(detected: Seq<BrowserView>) -> Seq<BrowserView> {
    detected.map_values(|b: BrowserView| BrowserView { is_hidden: false, ..b })
}

/// A filter that every item passes keeps the sequence.
pub proof fn lemma_filter_keeps_all<A>(s: Seq<A>, pred: spec_fn(A) -> bool)
    requires
        forall|i: int| 0 <= i < s.len() ==> pred(#[trigger] s[i]),
    ensures
        s.filter(pred) == s,
    decreases s.len(),
{
    reveal(Seq::filter);
    if s.len() > 0 {
        lemma_filter_keeps_all(s.drop_last(), pred);
        assert(s.drop_last().push(s.last()) =~= s);
    }
}

/// Merging into a configuration with no browsers keeps every detected
/// browser, shown.
pub proof fn lemma_merge_into_empty(detected: Seq<BrowserView>)
    ensures
        merge_unsorted(Seq::empty(), detected) == unhidden(detected),
{
    let empty = Seq::<BrowserView>::empty();
    assert(empty.filter(|b: BrowserView| is_manual(b)) =~= empty) by {
        reveal(Seq::filter);
    }
    assert forall|i: int| 0 <= i < detected.len() implies #[trigger] keeps_detected(empty)(
        detected[i],
    ) by {}
    lemma_filter_keeps_all(detected, keeps_detected(empty));
    assert(detected.filter(keeps_detected(empty)).map_values(rehidden(empty)) =~= unhidden(
        detected,
    ));
    assert(merge_unsorted(empty, detected) =~= unhidden(detected));
}

/// A fresh configuration that lists the detected browsers: the defaults, with
/// the onboarding flag given, and the detected browsers shown and sorted
/// stably by lower-cased name.
pub fn reset_config_with_detected_browsers(
    detected_browsers: Vec<BrowserConfig>,
    onboarding_completed: bool,
) -> (r: AppConfig)
    ensures
        r@ == with_browsers(
            ConfigView { onboarding_completed, ..default_config_view() },
            r@.browsers,
        ),
        sorted_by(r@.browsers, name_key_fn()),
        same_order_per_key(r@.browsers, unhidden(browsers_view(detected_browsers@)), name_key_fn()),
{
    let ghost detected = browsers_view(detected_browsers@);
    let mut config = default_config();
    config.onboarding_completed = onboarding_completed;
    merge_detected_browsers(&mut config, detected_browsers);
    proof {
        lemma_merge_into_empty(detected);
    }
    config
}

/// Some browser of the list has the id.
pub open spec fn has_browser_id(browsers: Seq<BrowserView>, id: Seq<char>) -> bool {
    exists|k: int| 0 <= k < browsers.len() && #[trigger] browsers[k].id == id
}

/// Whether some browser of the list has the id.
pub fn contains_browser_id(browsers: &Vec<BrowserConfig>, id: &str) -> (r: bool)
    ensures
        r == has_browser_id(browsers_view(browsers@), id@),
{
    let ghost bv = browsers_view(browsers@);
    let target = chars_of(id);
    let mut i: usize = 0;
    while i < browsers.len()
        invariant
            i <= browsers.len(),
            bv == browsers_view(browsers@),
            target@ == id@,
            forall|k: int| 0 <= k < i ==> #[trigger] bv[k].id != id@,
        decreases browsers.len() - i,
    {
        assert(bv[i as int] == browsers@[i as int]@);
        if chars_equal(&chars_of(browsers[i].id.as_str()), &target) {
            assert(bv[i as int].id == id@);
            return true;
        }
        i = i + 1;
    }
    false
}

/// The browser list that normalisation gives: detected entries get their
/// default private flag, manual entries are brought in line with their
/// recognition.
pub open spec fn normalized_browsers(browsers: Seq<BrowserView>) -> Seq<BrowserView> {
    browsers.map_values(|b: BrowserView| hydrated_browser(b)).map_values(
        |b: BrowserView| normalized_manual_browser(b),
    )
}

/// Rules whose browser is in the list.
pub open spec fn references_listed(browsers: Seq<BrowserView>) -> spec_fn(RuleView) -> bool {
    |r: RuleView| has_browser_id(browsers, r.browser_id)
}

/// What normalisation makes of a configuration: version 0 becomes 1, the
/// browser entries are normalised, a default browser that no entry has is
/// dropped, and so is every rule whose browser no entry has. Nothing else
/// changes.
pub open spec fn normalized_config_spec(c: ConfigView) -> ConfigView {
    let browsers = normalized_browsers(c.browsers);
    ConfigView {
        version: if c.version == 0 {
            1
        } else {
            c.version
        },
        browsers,
        default_browser_id: match c.default_browser_id {
            Some(d) => if has_browser_id(browsers, d) {
                Some(d)
            } else {
                None
            },
            None => None,
        },
        rules: c.rules.filter(references_listed(browsers)),
        ..c
    }
}

/// The rules of the list that point at a browser of the list, in order.
fn rules_with_listed_browser(rules: &Vec<RuleConfig>, browsers: &Vec<BrowserConfig>) -> (r: Vec<
    RuleConfig,
>)
    ensures
        rules_view(r@) == rules_view(rules@).filter(references_listed(browsers_view(browsers@))),
{
    let ghost rv = rules_view(rules@);
    let ghost pred = references_listed(browsers_view(browsers@));
    let mut kept: Vec<RuleConfig> = Vec::new();
    let mut i: usize = 0;
    while i < rules.len()
        invariant
            i <= rules.len(),
            rv == rules_view(rules@),
            pred == references_listed(browsers_view(browsers@)),
            rules_view(kept@) == rv.take(i as int).filter(pred),
        decreases rules.len() - i,
    {
        let ghost before = kept@;
        let rule = &rules[i];
        assert(rv[i as int] == rule@);
        assert(rv.take(i + 1) =~= rv.take(i as int).push(rule@));
        proof {
            rv.take(i as int).lemma_filter_push(rule@, pred);
        }
        if contains_browser_id(browsers, rule.browser_id.as_str()) {
            kept.push(copy_rule(rule));
            assert(rules_view(kept@) =~= rules_view(before).push(rule@));
        }
        i = i + 1;
    }
    assert(rv.take(i as int) =~= rv);
    kept
}

/// Normalises a configuration: see `normalized_config_spec`.
pub fn normalize_config(config: &mut AppConfig)
    ensures
        final(config)@ == normalized_config_spec(old(config)@),
{
    let ghost c = config@;
    if config.version == 0 {
        config.version = 1;
    }
    hydrate_detected_browser_defaults(config);
    normalize_manual_browser_entries(config);
    assert(config@.browsers == normalized_browsers(c.browsers));
    let keep_default = match &config.default_browser_id {
        Some(id) => contains_browser_id(&config.browsers, id.as_str()),
        None => true,
    };
    if !keep_default {
        config.default_browser_id = None;
    }
    let kept = rules_with_listed_browser(&config.rules, &config.browsers);
    config.rules = kept;
    assert(config@ =~= normalized_config_spec(c));
}

/// After normalisation the default browser, when there is one, and the
/// browser of every rule are entries of the browser list.
pub proof fn lemma_normalized_references_exist(c: ConfigView)
    ensures
        ({
            let n = normalized_config_spec(c);
            &&& n.default_browser_id matches Some(d) ==> has_browser_id(n.browsers, d)
            &&& forall|j: int|
                0 <= j < n.rules.len() ==> has_browser_id(n.browsers, #[trigger] n.rules[j].browser_id)
        }),
{
    let n = normalized_config_spec(c);
    let pred = references_listed(n.browsers);
    assert forall|j: int| 0 <= j < n.rules.len() implies has_browser_id(
        n.browsers,
        #[trigger] n.rules[j].browser_id,
    ) by {
        c.rules.lemma_filter_pred(pred, j);
    }
}

/// A result without a value, as plain values.
pub open spec fn unit_result_view(r: Result<(), String>) -> Result<(), Seq<char>> {
    match r {
        Ok(_) => Ok(()),
        Err(e) => Err(e@),
    }
}

/// Browsers whose launch check fails, given whether each executable exists.
pub open spec fn launch_fails(browsers: Seq<BrowserView>, exists: Seq<bool>) -> spec_fn(int) -> bool {
    |k: int| launch_check_spec(browsers[k], exists[k]) is Err
}

/// Rules that point at a browser that is not listed, or whose regular
/// expression does not compile.
pub open spec fn rule_problem(c: ConfigView) -> spec_fn(int) -> bool {
    |j: int|
        !has_browser_id(c.browsers, c.rules[j].browser_id) || (c.rules[j].pattern_type
            == RulePatternType::Regex && !regex_compiles(c.rules[j].pattern))
}

/// The message for a rule with a problem.
pub open spec fn rule_error(browsers: Seq<BrowserView>, r: RuleView) -> Seq<char> {
    if !has_browser_id(browsers, r.browser_id) {
        "Rule '"@ + r.id + "' references browser '"@ + r.browser_id + "' which does not exist."@
    } else {
        "Rule '"@ + r.id + "' has an invalid regex pattern '"@ + r.pattern + "': "@
            + regex_error_text(r.pattern)
    }
}

/// The checks after the browsers: the default browser must be listed, and
/// every rule must point at a listed browser and, when it is a regular
/// expression, compile; the first rule that fails decides the message.
pub open spec fn references_check_spec(c: ConfigView) -> Result<(), Seq<char>> {
    if c.default_browser_id matches Some(d) && !has_browser_id(c.browsers, d) {
        Err("Default browser must reference an existing browser entry."@)
    } else {
        match first_index(c.rules.len() as int, rule_problem(c)) {
            Some(j) => Err(rule_error(c.browsers, c.rules[j])),
            None => Ok(()),
        }
    }
}

/// Whether a configuration may be saved, given whether each browser's
/// executable exists: the first browser that may not be launched gives its
/// message; then the references are checked.
pub open spec fn config_check_spec(c: ConfigView, exists: Seq<bool>) -> Result<(), Seq<char>> {
    match first_index(c.browsers.len() as int, launch_fails(c.browsers, exists)) {
        Some(k) => Err(launch_check_spec(c.browsers[k], exists[k])->Err_0),
        None => references_check_spec(c),
    }
}

/// The checks on the default browser and on the rules.
fn check_config_references(config: &AppConfig) -> (r: Result<(), String>)
    ensures
        unit_result_view(r) == references_check_spec(config@),
{
    let ghost c = config@;
    if let Some(default_id) = &config.default_browser_id {
        if !contains_browser_id(&config.browsers, default_id.as_str()) {
            return Err(owned("Default browser must reference an existing browser entry."));
        }
    }
    let ghost pred = rule_problem(c);
    let mut j: usize = 0;
    while j < config.rules.len()
        invariant
            c == config@,
            pred == rule_problem(c),
            j <= config.rules.len(),
            !(c.default_browser_id matches Some(d) && !has_browser_id(c.browsers, d)),
            forall|k: int| 0 <= k < j ==> !#[trigger] pred(k),
        decreases config.rules.len() - j,
    {
        let rule = &config.rules[j];
        assert(c.rules[j as int] == rule@);
        if !contains_browser_id(&config.browsers, rule.browser_id.as_str()) {
            proof {
                assert(pred(j as int));
                lemma_first_index(c.rules.len() as int, pred);
            }
            return Err(
                join5(
                    "Rule '",
                    rule.id.as_str(),
                    "' references browser '",
                    rule.browser_id.as_str(),
                    "' which does not exist.",
                ),
            );
        }
        if rule.pattern_type == RulePatternType::Regex {
            if let Err(error) = regex_check(rule.pattern.as_str()) {
                proof {
                    assert(pred(j as int));
                    lemma_first_index(c.rules.len() as int, pred);
                }
                let mut message = join5(
                    "Rule '",
                    rule.id.as_str(),
                    "' has an invalid regex pattern '",
                    rule.pattern.as_str(),
                    "': ",
                );
                message.append(error.as_str());
                return Err(message);
            }
        }
        assert(!pred(j as int));
        j = j + 1;
    }
    proof {
        lemma_first_index(c.rules.len() as int, pred);
    }
    Ok(())
}

/// Checks a configuration before it is saved, given whether each browser's
/// executable exists (one answer per browser, in order).
pub fn check_config(config: &AppConfig, executables_exist: &Vec<bool>) -> (r: Result<(), String>)
    requires
        executables_exist.len() == config.browsers.len(),
    ensures
        unit_result_view(r) == config_check_spec(config@, executables_exist@),
{
    let ghost c = config@;
    let ghost pred = launch_fails(c.browsers, executables_exist@);
    let mut k: usize = 0;
    while k < config.browsers.len()
        invariant
            c == config@,
            executables_exist.len() == config.browsers.len(),
            pred == launch_fails(c.browsers, executables_exist@),
            k <= config.browsers.len(),
            forall|i: int| 0 <= i < k ==> !#[trigger] pred(i),
        decreases config.browsers.len() - k,
    {
        assert(c.browsers[k as int] == config.browsers@[k as int]@);
        if let Err(error) = check_browser_for_launch(&config.browsers[k], executables_exist[k]) {
            proof {
                assert(pred(k as int));
                lemma_first_index(c.browsers.len() as int, pred);
            }
            return Err(error);
        }
        assert(!pred(k as int));
        k = k + 1;
    }
    proof {
        lemma_first_index(c.browsers.len() as int, pred);
    }
    check_config_references(config)
}

/// Checks a configuration before it is saved, asking the disk whether each
/// browser's executable exists, browser by browser, until one fails. The
/// result is that of `check_config` for some answers of the disk.
pub fn validate_config(config: &AppConfig) -> (r: Result<(), String>)
    ensures
        exists|e: Seq<bool>|
            e.len() == config@.browsers.len() && unit_result_view(r) == config_check_spec(
                config@,
                e,
            ),
{
    let ghost c = config@;
    let ghost mut answers: Seq<bool> = Seq::empty();
    let mut k: usize = 0;
    while k < config.browsers.len()
        invariant
            c == config@,
            k <= config.browsers.len(),
            answers.len() == k,
            forall|i: int| 0 <= i < k ==> launch_check_spec(c.browsers[i], #[trigger] answers[i]) is Ok,
        decreases config.browsers.len() - k,
    {
        let browser = &config.browsers[k];
        assert(c.browsers[k as int] == browser@);
        let exists = executable_exists(browser);
        let checked = check_browser_for_launch(browser, exists);
        let ghost full = answers.push(exists) + Seq::new(
            (c.browsers.len() - k - 1) as nat,
            |i: int| true,
        );
        if let Err(error) = checked {
            proof {
                let pred = launch_fails(c.browsers, full);
                assert forall|i: int| 0 <= i < k implies !#[trigger] pred(i) by {
                    assert(full[i] == answers[i]);
                }
                assert(full[k as int] == exists);
                assert(pred(k as int));
                lemma_first_index(c.browsers.len() as int, pred);
                assert(unit_result_view(Err(error)) == config_check_spec(c, full));
            }
            return Err(error);
        }
        proof {
            answers = answers.push(exists);
        }
        k = k + 1;
    }
    let r = check_config_references(config);
    proof {
        let pred = launch_fails(c.browsers, answers);
        assert forall|i: int| 0 <= i < c.browsers.len() implies !#[trigger] pred(i) by {
            assert(launch_check_spec(c.browsers[i], answers[i]) is Ok);
        }
        lemma_first_index(c.browsers.len() as int, pred);
        assert(unit_result_view(r) == config_check_spec(c, answers));
    }
    r
}

fn opt_strings_equal(a: &Option<String>, b: &Option<String>) -> (r: bool)
    ensures
        r == (a.deep_view() == b.deep_view()),
{
    match (a, b) {
        (Some(x), Some(y)) => chars_equal(&chars_of(x.as_str()), &chars_of(y.as_str())),
        (None, None) => true,
        _ => false,
    }
}

fn strings_equal(a: &String, b: &String) -> (r: bool)
    ensures
        r == (a@ == b@),
{
    chars_equal(&chars_of(a.as_str()), &chars_of(b.as_str()))
}

fn browsers_equal(a: &BrowserConfig, b: &BrowserConfig) -> (r: bool)
    ensures
        r == (a@ == b@),
{
    strings_equal(&a.id, &b.id) && strings_equal(&a.name, &b.name) && strings_equal(
        &a.path,
        &b.path,
    ) && opt_strings_equal(&a.private_flag, &b.private_flag) && opt_strings_equal(
        &a.icon_key,
        &b.icon_key,
    ) && a.manual_trust == b.manual_trust && a.source == b.source && a.is_hidden == b.is_hidden
}

fn rules_equal(a: &RuleConfig, b: &RuleConfig) -> (r: bool)
    ensures
        r == (a@ == b@),
{
    strings_equal(&a.id, &b.id) && strings_equal(&a.pattern, &b.pattern) && a.pattern_type
        == b.pattern_type && strings_equal(&a.browser_id, &b.browser_id) && a.private_mode
        == b.private_mode && a.enabled == b.enabled
}

/// Whether two configurations are equal, field by field.
pub fn configs_equal(a: &AppConfig, b: &AppConfig) -> (r: bool)
    ensures
        r == (a@ == b@),
{
    if !(a.version == b.version && a.always_show_picker == b.always_show_picker
        && a.use_defaults_when_not_running == b.use_defaults_when_not_running
        && a.disable_transparency == b.disable_transparency && a.theme_preference
        == b.theme_preference && a.onboarding_completed == b.onboarding_completed
        && opt_strings_equal(&a.default_browser_id, &b.default_browser_id)) {
        return false;
    }
    assert(a@.browsers.len() == a.browsers.len() && b@.browsers.len() == b.browsers.len());
    assert(a@.rules.len() == a.rules.len() && b@.rules.len() == b.rules.len());
    if a.browsers.len() != b.browsers.len() || a.rules.len() != b.rules.len() {
        return false;
    }
    let mut i: usize = 0;
    while i < a.browsers.len()
        invariant
            i <= a.browsers.len(),
            a.browsers.len() == b.browsers.len(),
            forall|k: int| 0 <= k < i ==> #[trigger] a@.browsers[k] == b@.browsers[k],
        decreases a.browsers.len() - i,
    {
        assert(a@.browsers[i as int] == a.browsers@[i as int]@);
        assert(b@.browsers[i as int] == b.browsers@[i as int]@);
        if !browsers_equal(&a.browsers[i], &b.browsers[i]) {
            return false;
        }
        i = i + 1;
    }
    let mut j: usize = 0;
    while j < a.rules.len()
        invariant
            j <= a.rules.len(),
            a.rules.len() == b.rules.len(),
            forall|k: int| 0 <= k < j ==> #[trigger] a@.rules[k] == b@.rules[k],
        decreases a.rules.len() - j,
    {
        assert(a@.rules[j as int] == a.rules@[j as int]@);
        assert(b@.rules[j as int] == b.rules@[j as int]@);
        if !rules_equal(&a.rules[j], &b.rules[j]) {
            return false;
        }
        j = j + 1;
    }
    assert(a@.browsers =~= b@.browsers);
    assert(a@.rules =~= b@.rules);
    true
}

/// A copy of a configuration.
pub fn copy_config(c: &AppConfig) -> (r: AppConfig)
    ensures
        r@ == c@,
{
    let mut browsers: Vec<BrowserConfig> = Vec::new();
    let mut i: usize = 0;
    while i < c.browsers.len()
        invariant
            i <= c.browsers.len(),
            browsers_view(browsers@) == c@.browsers.take(i as int),
        decreases c.browsers.len() - i,
    {
        let ghost before = browsers@;
        browsers.push(copy_browser(&c.browsers[i]));
        assert(c@.browsers[i as int] == c.browsers@[i as int]@);
        assert(browsers_view(browsers@) =~= browsers_view(before).push(c@.browsers[i as int]));
        assert(c@.browsers.take(i + 1) =~= c@.browsers.take(i as int).push(c@.browsers[i as int]));
        i = i + 1;
    }
    let mut rules: Vec<RuleConfig> = Vec::new();
    let mut j: usize = 0;
    while j < c.rules.len()
        invariant
            j <= c.rules.len(),
            rules_view(rules@) == c@.rules.take(j as int),
        decreases c.rules.len() - j,
    {
        let ghost before = rules@;
        rules.push(copy_rule(&c.rules[j]));
        assert(c@.rules[j as int] == c.rules@[j as int]@);
        assert(rules_view(rules@) =~= rules_view(before).push(c@.rules[j as int]));
        assert(c@.rules.take(j + 1) =~= c@.rules.take(j as int).push(c@.rules[j as int]));
        j = j + 1;
    }
    assert(c@.browsers.take(i as int) =~= c@.browsers);
    assert(c@.rules.take(j as int) =~= c@.rules);
    AppConfig {
        version: c.version,
        always_show_picker: c.always_show_picker,
        use_defaults_when_not_running: c.use_defaults_when_not_running,
        disable_transparency: c.disable_transparency,
        theme_preference: c.theme_preference,
        onboarding_completed: c.onboarding_completed,
        default_browser_id: copy_opt_string(&c.default_browser_id),
        browsers,
        rules,
    }
}

/// A configuration read from disk, made ready for use: normalised, and, when
/// asked to and no browser is left, filled with the browsers that `detect`
/// finds. The flag tells whether the result differs from what was read, that
/// is whether it must be written back.
pub fn settle_loaded_config<F: Fn() -> Vec<BrowserConfig>>(
    loaded: AppConfig,
    auto_populate_browsers: bool,
    detect: F,
) -> (r: (AppConfig, bool))
    requires
        call_requires(detect, ()),
    ensures
        r.1 == (r.0@ != loaded@),
        ({
            let n = normalized_config_spec(loaded@);
            if auto_populate_browsers && n.browsers.len() == 0 {
                &&& r.0@ == with_browsers(n, r.0@.browsers)
                &&& sorted_by(r.0@.browsers, name_key_fn())
                &&& exists|found: Vec<BrowserConfig>|
                    call_ensures(detect, (), found) && same_order_per_key(
                        r.0@.browsers,
                        unhidden(browsers_view(found@)),
                        name_key_fn(),
                    )
            } else {
                r.0@ == n
            }
        }),
{
    let as_loaded = copy_config(&loaded);
    let mut config = loaded;
    normalize_config(&mut config);
    if auto_populate_browsers && config.browsers.len() == 0 {
        let found = detect();
        let ghost fv = browsers_view(found@);
        let ghost before = config@;
        assert(before.browsers =~= Seq::<BrowserView>::empty());
        merge_detected_browsers(&mut config, found);
        proof {
            lemma_merge_into_empty(fv);
        }
    }
    let changed = !configs_equal(&config, &as_loaded);
    (config, changed)
}

/// A configuration as it is saved: normalised, then, when asked to, checked
/// with `validate_config`, whose error is handed on.
pub fn prepare_config_for_save(config: AppConfig, validate_before_write: bool) -> (r: Result<
    AppConfig,
    String,
>)
    ensures
        !validate_before_write ==> (r matches Ok(c) && c@ == normalized_config_spec(config@)),
        validate_before_write ==> exists|e: Seq<bool>|
            e.len() == normalized_config_spec(config@).browsers.len() && match #[trigger] config_check_spec(
                normalized_config_spec(config@),
                e,
            ) {
                Ok(_) => (r matches Ok(c) && c@ == normalized_config_spec(config@)),
                Err(m) => (r matches Err(x) && x@ == m),
            },
{
    let mut config = config;
    normalize_config(&mut config);
    if validate_before_write {
        if let Err(error) = validate_config(&config) {
            return Err(error);
        }
    }
    Ok(config)
}

/// Routes a URL with a configuration that has not been saved: the
/// configuration is normalised and checked as a save would check it (its
/// error is handed on), then the URL is routed with it. The normalised
/// configuration comes back with the decision.
pub fn route_with_config(config: AppConfig, url: &str, running_processes: &Vec<String>) -> (r:
    Result<(AppConfig, RouteDecision), String>)
    ensures
        exists|e: Seq<bool>|
            e.len() == normalized_config_spec(config@).browsers.len() && match #[trigger] config_check_spec(
                normalized_config_spec(config@),
                e,
            ) {
                Ok(_) => (r matches Ok((c, d)) && c@ == normalized_config_spec(config@) && d@
                    == route_spec(c@, url@, strings_view(running_processes@))),
                Err(m) => (r matches Err(x) && x@ == m),
            },
{
    let prepared = prepare_config_for_save(config, true);
    let normalized = match prepared {
        Ok(c) => c,
        Err(error) => {
            return Err(error);
        },
    };
    let routed = resolve_route(&normalized, url, running_processes);
    match routed {
        Ok(decision) => Ok((normalized, decision)),
        Err(error) => Err(error),
    }
}

/// A configuration that passes the checks launches every browser, names a
/// listed default browser if any, and has only rules that point at listed
/// browsers and, for regular expressions, compile.
pub proof fn lemma_checked_config_is_consistent(c: ConfigView, exists: Seq<bool>)
    requires
        exists.len() == c.browsers.len(),
        config_check_spec(c, exists) is Ok,
    ensures
        forall|k: int| 0 <= k < c.browsers.len() ==> launch_check_spec(#[trigger] c.browsers[k], exists[k]) is Ok,
        c.default_browser_id matches Some(d) ==> has_browser_id(c.browsers, d),
        forall|j: int|
            0 <= j < c.rules.len() ==> has_browser_id(c.browsers, #[trigger] c.rules[j].browser_id)
                && (c.rules[j].pattern_type == RulePatternType::Regex ==> regex_compiles(
                c.rules[j].pattern,
            )),
{
    lemma_first_index(c.browsers.len() as int, launch_fails(c.browsers, exists));
    lemma_first_index(c.rules.len() as int, rule_problem(c));
    assert(first_index(c.browsers.len() as int, launch_fails(c.browsers, exists)) is None);
    assert(references_check_spec(c) is Ok);
    assert(first_index(c.rules.len() as int, rule_problem(c)) is None);
    assert forall|k: int| 0 <= k < c.browsers.len() implies launch_check_spec(
        #[trigger] c.browsers[k],
        exists[k],
    ) is Ok by {
        assert(!launch_fails(c.browsers, exists)(k));
    }
    assert forall|j: int| 0 <= j < c.rules.len() implies has_browser_id(
        c.browsers,
        #[trigger] c.rules[j].browser_id,
    ) && (c.rules[j].pattern_type == RulePatternType::Regex ==> regex_compiles(
        c.rules[j].pattern,
    )) by {
        assert(!rule_problem(c)(j));
    }
}

/// Normalisation keeps every browser entry, in order, with its id, path,
/// source and hidden flag.
pub proof fn lemma_normalization_keeps_browsers(c: ConfigView)
    ensures
        normalized_config_spec(c).browsers.len() == c.browsers.len(),
        forall|i: int|
            0 <= i < c.browsers.len() ==> {
                let b = #[trigger] normalized_config_spec(c).browsers[i];
                &&& b.id == c.browsers[i].id
                &&& b.path == c.browsers[i].path
                &&& b.source == c.browsers[i].source
                &&& b.is_hidden == c.browsers[i].is_hidden
            },
{
}

/// A normalised configuration can fail the reference checks only on a
/// regular expression that does not compile.
pub proof fn lemma_normalized_config_fails_only_on_regex(c: ConfigView)
    ensures
        references_check_spec(normalized_config_spec(c)) is Err ==> exists|j: int|
            0 <= j < normalized_config_spec(c).rules.len() && (
            #[trigger] normalized_config_spec(c).rules[j]).pattern_type == RulePatternType::Regex
                && !regex_compiles(normalized_config_spec(c).rules[j].pattern),
{
    let n = normalized_config_spec(c);
    lemma_normalized_references_exist(c);
    lemma_first_index(n.rules.len() as int, rule_problem(n));
    if let Some(j) = first_index(n.rules.len() as int, rule_problem(n)) {
        assert(rule_problem(n)(j));
        assert(has_browser_id(n.browsers, n.rules[j].browser_id));
    }
}

/// A manual entry that a second normalisation leaves as the first left it:
/// one with a name that is not blank keeps its name and so its recognition.
/// One with a blank name takes the name it is recognised under; recognising
/// it again under that name must keep it recognised, with the same private
/// flag and, when that name is blank too, the same name.
pub open spec fn manual_entry_stable(b: BrowserView) -> bool {
    b.source == BrowserSource::Manual && trim_spec(b.name).len() == 0 ==> match classify_spec(
        b.path,
        Some(b.name),
    ) {
        Ok(rec) => rec.recognition == BrowserRecognition::UnverifiedManual || match classify_spec(
            b.path,
            Some(rec.name),
        ) {
            Ok(again) => again.recognition != BrowserRecognition::UnverifiedManual
                && again.private_flag == rec.private_flag && (trim_spec(rec.name).len() > 0
                || again.name == rec.name),
            Err(_) => false,
        },
        Err(_) => true,
    }
}

/// Every entry of the list is stable under a second normalisation.
pub open spec fn browsers_stable(browsers: Seq<BrowserView>) -> bool {
    forall|i: int| 0 <= i < browsers.len() ==> manual_entry_stable(#[trigger] browsers[i])
}

/// A second normalisation leaves a stable entry as the first left it.
pub proof fn lemma_browser_normalization_idempotent(b: BrowserView)
    requires
        manual_entry_stable(b),
    ensures
        normalized_manual_browser(hydrated_browser(normalized_manual_browser(hydrated_browser(b))))
            == normalized_manual_browser(hydrated_browser(b)),
{
    let h = hydrated_browser(b);
    let n = normalized_manual_browser(h);
    if b.source == BrowserSource::Manual {
        assert(h == b);
        assert(hydrated_browser(n) == n);
        assert(n.path == b.path);
    } else {
        assert(n == h);
        assert(hydrated_browser(h) == h);
    }
}

/// Normalising a normalised configuration changes nothing when every entry
/// is stable (`manual_entry_stable`); every entry whose name is not blank
/// is. Where an entry is not stable, the second pass changes that entry.
pub proof fn lemma_normalize_config_idempotent(c: ConfigView)
    requires
        browsers_stable(c.browsers),
    ensures
        normalized_config_spec(normalized_config_spec(c)) == normalized_config_spec(c),
{
    let n = normalized_config_spec(c);
    let m = normalized_config_spec(n);
    assert forall|i: int| 0 <= i < c.browsers.len() implies #[trigger] m.browsers[i]
        == n.browsers[i] by {
        lemma_browser_normalization_idempotent(c.browsers[i]);
    }
    assert(m.browsers =~= n.browsers);
    let pred = references_listed(n.browsers);
    assert forall|j: int| 0 <= j < n.rules.len() implies pred(#[trigger] n.rules[j]) by {
        c.rules.lemma_filter_pred(pred, j);
    }
    lemma_filter_keeps_all(n.rules, pred);
    assert(m.rules == n.rules);
    assert(m =~= n);
}

/// An entry that is not stable is changed by a second normalisation: the
/// stability condition is exactly what idempotence needs.
pub proof fn lemma_unstable_entry_changes(b: BrowserView)
    requires
        !manual_entry_stable(b),
    ensures
        normalized_manual_browser(hydrated_browser(normalized_manual_browser(hydrated_browser(b))))
            != normalized_manual_browser(hydrated_browser(b)),
{
    let h = hydrated_browser(b);
    assert(h == b);
    let n = normalized_manual_browser(b);
    assert(hydrated_browser(n) == n);
}

} // verus!
