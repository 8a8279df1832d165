//! The picker: the URL that a command line carries, the size and place of
//! the picker window, its rows and their order, and the Ctrl+Shift shortcut
//! that forces it.
use vstd::prelude::*;
use crate::browsers::{RunningProcessSnapshot, opt_str_ref_view, running_contains, strings_view};
use crate::models::{AppConfig, BrowserView, ConfigView, DecisionView, PickerBrowserEntry, PickerEntryView, PickerLaunchSource, PickerSession, RouteAction, RouteDecision};
use crate::routing::{decision_result_view, normalize_http_url, normalize_url_spec, picker_decision, picker_view, resolve_route_with_running_processes, route_needs_running, route_spec, snapshot_kept};
use crate::sorting::{SortKey, key_view, lemma_same_order_contains, lemma_stable_sort_view, same_order_per_key, sorted_by, stable_sort};
use crate::text::{chars_equal, chars_of, copy_opt_string, owned, starts_with, starts_with_exec, string_from_chars, trim, trim_by, trim_char, trim_spec};
use crate::trusted::{to_lowercase, unicode_lowercase};

verus! {

/// Width of the picker window, in logical pixels.
pub const PICKER_MENU_WIDTH: u32 = 280;

/// Smallest height of the picker window.
pub const PICKER_MENU_MIN_HEIGHT: u32 = 128;

/// Largest height of the picker window.
pub const PICKER_MENU_MAX_HEIGHT: u32 = 340;

/// Height of one browser row.
pub const PICKER_MENU_ROW_HEIGHT: u32 = 46;

/// Height of everything in the picker window but its rows.
pub const PICKER_MENU_CHROME_HEIGHT: u32 = 92;

/// How far right of the cursor the picker window opens.
pub const PICKER_CURSOR_OFFSET_X: i32 = 6;

/// How far below the cursor the picker window opens.
pub const PICKER_CURSOR_OFFSET_Y: i32 = 10;

/// How long a Ctrl+Shift press is remembered, in nanoseconds (two seconds).
pub const PICKER_SHORTCUT_LATCH_NANOS: u128 = 2_000_000_000;

/// A command-line value with surrounding whitespace, then surrounding double
/// quotes, removed.
pub open spec fn clean_cli_spec(value: Seq<char>) -> Seq<char> {
    trim_by(trim_spec(value), |x: char| x == '"')
}

/// Cleans a command-line value: see `clean_cli_spec`.
pub fn clean_cli_value(value: &str) -> (r: String)
    ensures
        r@ == clean_cli_spec(value@),
{
    let trimmed = trim(&chars_of(value));
    string_from_chars(&trim_char(&trimmed, '"'))
}

/// The text starts with `http://` or `https://`.
pub open spec fn is_http_candidate(s: Seq<char>) -> bool {
    starts_with(s, "http://"@) || starts_with(s, "https://"@)
}

/// The URL that the arguments from `i` on carry: the first argument that,
/// cleaned, starts with `http://` or `https://`; the value after a `--url`
/// is tried first, then looked at again as an argument of its own.
pub open spec fn url_from_args_spec(args: Seq<Seq<char>>, i: int) -> Option<Seq<char>>
    decreases args.len() - i,
{
    if i < 0 || i >= args.len() {
        None
    } else if args[i] == "--url"@ && i + 1 < args.len() && is_http_candidate(
        clean_cli_spec(args[i + 1]),
    ) {
        Some(clean_cli_spec(args[i + 1]))
    } else if args[i] != "--url"@ && is_http_candidate(clean_cli_spec(args[i])) {
        Some(clean_cli_spec(args[i]))
    } else {
        url_from_args_spec(args, i + 1)
    }
}

fn is_http_candidate_exec(candidate: &String) -> (r: bool)
    ensures
        r == is_http_candidate(candidate@),
{
    let chars = chars_of(candidate.as_str());
    starts_with_exec(&chars, &chars_of("http://")) || starts_with_exec(&chars, &chars_of("https://"))
}

/// The URL that a command line carries: see `url_from_args_spec`.
pub fn extract_url_from_args(args: &[String]) -> (r: Option<String>)
    ensures
        r.deep_view() == url_from_args_spec(strings_view(args@), 0),
{
    let ghost sv = strings_view(args@);
    let flag = chars_of("--url");
    let mut i: usize = 0;
    while i < args.len()
        invariant
            i <= args.len(),
            sv == strings_view(args@),
            flag@ == "--url"@,
            url_from_args_spec(sv, 0) == url_from_args_spec(sv, i as int),
        decreases args.len() - i,
    {
        assert(sv[i as int] == args@[i as int]@);
        let is_flag = chars_equal(&chars_of(args[i].as_str()), &flag);
        if is_flag {
            if i + 1 < args.len() {
                assert(sv[i + 1] == args@[i + 1]@);
                let candidate = clean_cli_value(args[i + 1].as_str());
                if is_http_candidate_exec(&candidate) {
                    return Some(candidate);
                }
            }
        } else {
            let candidate = clean_cli_value(args[i].as_str());
            if is_http_candidate_exec(&candidate) {
                return Some(candidate);
            }
        }
        i = i + 1;
    }
    None
}

/// `x` clamped into `[lo, hi]`, for `lo <= hi`.
pub open spec fn clamp_spec(x: int, lo: int, hi: int) -> int {
    if x < lo {
        lo
    } else if x > hi {
        hi
    } else {
        x
    }
}

/// The height of the picker window for a number of rows: the chrome and one
/// row per browser, kept between the smallest and the largest height.
pub open spec fn picker_height_spec(browser_count: int) -> int {
    clamp_spec(
        PICKER_MENU_CHROME_HEIGHT + browser_count * PICKER_MENU_ROW_HEIGHT,
        PICKER_MENU_MIN_HEIGHT as int,
        PICKER_MENU_MAX_HEIGHT as int,
    )
}

/// The height of the picker window for a number of browsers: see
/// `picker_height_spec`. The count is read as a `u32`, and the unclamped
/// height must fit one.
pub fn picker_window_height(browser_count: usize) -> (r: u32)
    requires
        (browser_count as u32) * PICKER_MENU_ROW_HEIGHT + PICKER_MENU_CHROME_HEIGHT <= u32::MAX,
    ensures
        r == picker_height_spec(browser_count as u32 as int),
{
    let count = browser_count as u32;
    let desired = PICKER_MENU_CHROME_HEIGHT + count * PICKER_MENU_ROW_HEIGHT;
    if desired < PICKER_MENU_MIN_HEIGHT {
        PICKER_MENU_MIN_HEIGHT
    } else if desired > PICKER_MENU_MAX_HEIGHT {
        PICKER_MENU_MAX_HEIGHT
    } else {
        desired
    }
}

/// The screen area of a monitor, in physical pixels.
#[derive(Debug, Clone, Copy, PartialEq, Eq, Structural)]
pub struct MonitorArea {
    pub x: i32,
    pub y: i32,
    pub width: u32,
    pub height: u32,
}

/// Where the picker window opens: just right of and below the cursor, kept
/// inside the cursor's monitor where that is known (its far edge may not
/// pass the monitor's, nor its near edge the monitor's origin), and kept off
/// negative coordinates where it is not.
pub open spec fn picker_position_spec(
    cursor_x: int,
    cursor_y: int,
    width: int,
    height: int,
    monitor: Option<MonitorArea>,
) -> (int, int) {
    let desired_x = cursor_x + PICKER_CURSOR_OFFSET_X;
    let desired_y = cursor_y + PICKER_CURSOR_OFFSET_Y;
    match monitor {
        Some(m) => {
            let max_x = if m.x + m.width - width < m.x {
                m.x as int
            } else {
                m.x + m.width - width
            };
            let max_y = if m.y + m.height - height < m.y {
                m.y as int
            } else {
                m.y + m.height - height
            };
            (clamp_spec(desired_x, m.x as int, max_x), clamp_spec(desired_y, m.y as int, max_y))
        },
        None => (
            if desired_x < 0 {
                0
            } else {
                desired_x
            },
            if desired_y < 0 {
                0
            } else {
                desired_y
            },
        ),
    }
}

/// The values that the position is computed from fit `i32` at every step.
pub open spec fn picker_position_fits(
    cursor_x: int,
    cursor_y: int,
    width: int,
    height: int,
    monitor: Option<MonitorArea>,
) -> bool {
    &&& cursor_x + PICKER_CURSOR_OFFSET_X <= i32::MAX
    &&& cursor_y + PICKER_CURSOR_OFFSET_Y <= i32::MAX
    &&& width <= i32::MAX
    &&& height <= i32::MAX
    &&& monitor matches Some(m) ==> {
        &&& m.width <= i32::MAX
        &&& m.height <= i32::MAX
        &&& i32::MIN <= m.x + m.width <= i32::MAX
        &&& i32::MIN <= m.y + m.height <= i32::MAX
        &&& i32::MIN <= m.x + m.width - width
        &&& i32::MIN <= m.y + m.height - height
    }
}

/// Where the picker window opens: see `picker_position_spec`.
pub fn picker_window_position(
    cursor_x: i32,
    cursor_y: i32,
    width: u32,
    height: u32,
    monitor: Option<MonitorArea>,
) -> (r: (i32, i32))
    requires
        picker_position_fits(cursor_x as int, cursor_y as int, width as int, height as int, monitor),
    ensures
        (r.0 as int, r.1 as int) == picker_position_spec(
            cursor_x as int,
            cursor_y as int,
            width as int,
            height as int,
            monitor,
        ),
{
    let desired_x = cursor_x + PICKER_CURSOR_OFFSET_X;
    let desired_y = cursor_y + PICKER_CURSOR_OFFSET_Y;
    match monitor {
        Some(m) => {
            let w = width as i32;
            let h = height as i32;
            let right = m.x + (m.width as i32) - w;
            let bottom = m.y + (m.height as i32) - h;
            let max_x = if right < m.x {
                m.x
            } else {
                right
            };
            let max_y = if bottom < m.y {
                m.y
            } else {
                bottom
            };
            let x = if desired_x < m.x {
                m.x
            } else if desired_x > max_x {
                max_x
            } else {
                desired_x
            };
            let y = if desired_y < m.y {
                m.y
            } else if desired_y > max_y {
                max_y
            } else {
                desired_y
            };
            (x, y)
        },
        None => {
            let x = if desired_x < 0 {
                0
            } else {
                desired_x
            };
            let y = if desired_y < 0 {
                0
            } else {
                desired_y
            };
            (x, y)
        },
    }
}

/// The last Ctrl+Shift press that no URL has used yet, as the number of
/// nanoseconds between a fixed origin of the monotonic clock and the press.
pub struct PickerShortcutLatch {
    pub last_ctrl_shift_seen: Option<u128>,
}

/// Whether a remembered press forces the picker at `now`: there is one, and
/// `now` lies before it or at most `max_age_nanos` after it.
pub open spec fn latch_fires(seen: Option<u128>, now: u128, max_age_nanos: u128) -> bool {
    match seen {
        Some(s) => now < s || now - s <= max_age_nanos,
        None => false,
    }
}

/// What consuming the latch does: the latch is empty afterwards, and the
/// answer is whether the press it held fires at `now`.
pub open spec fn latch_consumed(
    before: PickerShortcutLatch,
    after: PickerShortcutLatch,
    now: u128,
    max_age_nanos: u128,
    forced: bool,
) -> bool {
    &&& after.last_ctrl_shift_seen is None
    &&& forced == latch_fires(before.last_ctrl_shift_seen, now, max_age_nanos)
}

impl PickerShortcutLatch {
    /// An empty latch.
    pub fn new() -> (r: Self)
        ensures
            r.last_ctrl_shift_seen is None,
    {
        PickerShortcutLatch { last_ctrl_shift_seen: None }
    }

    /// Remembers a Ctrl+Shift press seen at `seen_at` (nanoseconds from the
    /// clock's origin).
    pub fn remember_at(&mut self, seen_at: u128)
        ensures
            final(self).last_ctrl_shift_seen == Some(seen_at),
    {
        self.last_ctrl_shift_seen = Some(seen_at);
    }

    /// Uses up the remembered press: true when there was one and `now` lies
    /// before it or at most `max_age_nanos` after it.
    pub fn consume_if_recent_at(&mut self, now: u128, max_age_nanos: u128) -> (r: bool)
        ensures
            latch_consumed(*old(self), *final(self), now, max_age_nanos, r),
    {
        let seen_at = match self.last_ctrl_shift_seen {
            Some(seen_at) => seen_at,
            None => {
                return false;
            },
        };
        self.last_ctrl_shift_seen = None;
        now < seen_at || now - seen_at <= max_age_nanos
    }
}

/// A press that forced the picker for one URL forces it for no other: after
/// the latch is consumed, consuming it again gives false, whenever it is.
pub proof fn lemma_latch_forces_once(
    a: PickerShortcutLatch,
    b: PickerShortcutLatch,
    c: PickerShortcutLatch,
    first_now: u128,
    second_now: u128,
    max_age_nanos: u128,
    first: bool,
    second: bool,
)
    requires
        latch_consumed(a, b, first_now, max_age_nanos, first),
        latch_consumed(b, c, second_now, max_age_nanos, second),
    ensures
        !second,
{
}

/// What the picker keeps between URLs: the session it shows, the token of
/// the pending idle teardown, and the shortcut latch.
pub struct PickerState {
    pub session: Option<PickerSession>,
    pub idle_destroy_token: u64,
    pub shortcut_latch: PickerShortcutLatch,
}

impl Default for PickerState {
    /// No session, token 0, and an empty latch.
    fn default() -> (r: Self)
        ensures
            r.session is None,
            r.idle_destroy_token == 0,
            r.shortcut_latch.last_ctrl_shift_seen is None,
    {
        PickerState { session: None, idle_destroy_token: 0, shortcut_latch: PickerShortcutLatch::new() }
    }
}

impl PickerState {
    /// Remembers a Ctrl+Shift press seen at `seen_at` (nanoseconds from the
    /// clock's origin); nothing else changes.
    pub fn remember_picker_shortcut_at(&mut self, seen_at: u128)
        ensures
            final(self).shortcut_latch.last_ctrl_shift_seen == Some(seen_at),
            final(self).session == old(self).session,
            final(self).idle_destroy_token == old(self).idle_destroy_token,
    {
        self.shortcut_latch.remember_at(seen_at);
    }

    /// Uses up the remembered press, which counts for two seconds; nothing
    /// else changes.
    pub fn consume_recent_picker_shortcut_at(&mut self, now: u128) -> (r: bool)
        ensures
            latch_consumed(
                old(self).shortcut_latch,
                final(self).shortcut_latch,
                now,
                PICKER_SHORTCUT_LATCH_NANOS,
                r,
            ),
            final(self).session == old(self).session,
            final(self).idle_destroy_token == old(self).idle_destroy_token,
    {
        self.shortcut_latch.consume_if_recent_at(now, PICKER_SHORTCUT_LATCH_NANOS)
    }

    /// A new idle-teardown token, which cancels every earlier one.
    pub fn next_picker_idle_destroy_token(&mut self) -> (r: u64)
        requires
            old(self).idle_destroy_token < u64::MAX,
        ensures
            r == old(self).idle_destroy_token + 1,
            final(self).idle_destroy_token == r,
            final(self).session == old(self).session,
            final(self).shortcut_latch == old(self).shortcut_latch,
    {
        self.idle_destroy_token = self.idle_destroy_token + 1;
        self.idle_destroy_token
    }

    /// Whether a teardown scheduled with `token` is still the pending one.
    pub fn is_current_idle_destroy_token(&self, token: u64) -> (r: bool)
        ensures
            r == (token == self.idle_destroy_token),
    {
        token == self.idle_destroy_token
    }

    /// Keeps the session that the picker shows.
    pub fn store_picker_session(&mut self, session: PickerSession)
        ensures
            final(self).session == Some(session),
            final(self).idle_destroy_token == old(self).idle_destroy_token,
            final(self).shortcut_latch == old(self).shortcut_latch,
    {
        self.session = Some(session);
    }
}

/// Whether the picker is forced at `now` (nanoseconds from the clock's
/// origin): the keys are held now, or else a press remembered at most two
/// seconds before `now` (or after it), which is then used up. When the keys
/// are held the state is left as it was.
pub fn is_ctrl_shift_picker_trigger_active_with_latch<F: Fn() -> bool>(
    state: &mut PickerState,
    is_currently_active: F,
    now: u128,
) -> (r: bool)
    requires
        call_requires(is_currently_active, ()),
    ensures
        (call_ensures(is_currently_active, (), true) && r && *final(state) == *old(state)) || (
        call_ensures(is_currently_active, (), false) && latch_consumed(
            old(state).shortcut_latch,
            final(state).shortcut_latch,
            now,
            PICKER_SHORTCUT_LATCH_NANOS,
            r,
        ) && final(state).session == old(state).session && final(state).idle_destroy_token == old(
            state,
        ).idle_destroy_token),
{
    if is_currently_active() {
        return true;
    }
    state.consume_recent_picker_shortcut_at(now)
}

/// Virtual-key code of either Shift key.
pub const VK_SHIFT: i32 = 0x10;

/// Virtual-key code of either Ctrl key.
pub const VK_CONTROL: i32 = 0x11;

/// Virtual-key code of the left Shift key.
pub const VK_LSHIFT: i32 = 0xA0;

/// Virtual-key code of the right Shift key.
pub const VK_RSHIFT: i32 = 0xA1;

/// Virtual-key code of the left Ctrl key.
pub const VK_LCONTROL: i32 = 0xA2;

/// Virtual-key code of the right Ctrl key.
pub const VK_RCONTROL: i32 = 0xA3;

/// Keyboard message: a key went down.
pub const WM_KEYDOWN: u32 = 0x0100;

/// Keyboard message: a key went up.
pub const WM_KEYUP: u32 = 0x0101;

/// Keyboard message: a key went down while Alt was held.
pub const WM_SYSKEYDOWN: u32 = 0x0104;

/// Keyboard message: a key went up while Alt was held.
pub const WM_SYSKEYUP: u32 = 0x0105;

pub open spec fn is_ctrl_key_spec(vk_code: i32) -> bool {
    vk_code == VK_CONTROL || vk_code == VK_LCONTROL || vk_code == VK_RCONTROL
}

pub open spec fn is_shift_key_spec(vk_code: i32) -> bool {
    vk_code == VK_SHIFT || vk_code == VK_LSHIFT || vk_code == VK_RSHIFT
}

/// Whether the key is one of the Ctrl keys.
pub fn is_ctrl_virtual_key(vk_code: i32) -> (r: bool)
    ensures
        r == is_ctrl_key_spec(vk_code),
{
    vk_code == VK_CONTROL || vk_code == VK_LCONTROL || vk_code == VK_RCONTROL
}

/// Whether the key is one of the Shift keys.
pub fn is_shift_virtual_key(vk_code: i32) -> (r: bool)
    ensures
        r == is_shift_key_spec(vk_code),
{
    vk_code == VK_SHIFT || vk_code == VK_LSHIFT || vk_code == VK_RSHIFT
}

/// Which of Ctrl and Shift are held, as seen by the keyboard hook.
pub struct PickerShortcutObserver {
    pub ctrl_down: bool,
    pub shift_down: bool,
}

/// One keyboard message seen by the hook: from the keys held before, the keys
/// held after and whether the press is to be remembered. Messages other than
/// key up and key down, and keys other than Ctrl and Shift, change nothing; a
/// press is remembered when a Ctrl or Shift key goes down and both are held.
pub open spec fn keyboard_step(
    ctrl_down: bool,
    shift_down: bool,
    vk_code: i32,
    message: u32,
) -> (bool, bool, bool) {
    let is_down = message == WM_KEYDOWN || message == WM_SYSKEYDOWN;
    let is_up = message == WM_KEYUP || message == WM_SYSKEYUP;
    if !is_down && !is_up {
        (ctrl_down, shift_down, false)
    } else if is_ctrl_key_spec(vk_code) {
        (is_down, shift_down, is_down && shift_down)
    } else if is_shift_key_spec(vk_code) {
        (ctrl_down, is_down, is_down && ctrl_down)
    } else {
        (ctrl_down, shift_down, false)
    }
}

impl PickerShortcutObserver {
    /// Neither key held.
    pub fn new() -> (r: Self)
        ensures
            !r.ctrl_down,
            !r.shift_down,
    {
        PickerShortcutObserver { ctrl_down: false, shift_down: false }
    }

    /// Takes one keyboard message: see `keyboard_step`. Returns whether the
    /// press is to be remembered in the latch.
    pub fn handle_keyboard_message(&mut self, vk_code: i32, message: u32) -> (remember: bool)
        ensures
            (final(self).ctrl_down, final(self).shift_down, remember) == keyboard_step(
                old(self).ctrl_down,
                old(self).shift_down,
                vk_code,
                message,
            ),
    {
        let is_down = message == WM_KEYDOWN || message == WM_SYSKEYDOWN;
        let is_up = message == WM_KEYUP || message == WM_SYSKEYUP;
        if !is_down && !is_up {
            return false;
        }
        if is_ctrl_virtual_key(vk_code) {
            self.ctrl_down = is_down;
        } else if is_shift_virtual_key(vk_code) {
            self.shift_down = is_down;
        } else {
            return false;
        }
        is_down && self.ctrl_down && self.shift_down
    }
}

/// A press is remembered only when, after it, both Ctrl and Shift are held.
pub proof fn lemma_remembered_press_holds_both(
    ctrl_down: bool,
    shift_down: bool,
    vk_code: i32,
    message: u32,
)
    ensures
        keyboard_step(ctrl_down, shift_down, vk_code, message).2 ==> keyboard_step(
            ctrl_down,
            shift_down,
            vk_code,
            message,
        ).0 && keyboard_step(ctrl_down, shift_down, vk_code, message).1,
{
}

/// The rank of a picker row: the preferred browser first, then the default
/// browser, then running browsers, then the others.
pub open spec fn picker_rank(e: PickerEntryView, preferred: Option<Seq<char>>) -> u8 {
    if preferred == Some(e.id) {
        0u8
    } else if e.is_default {
        1u8
    } else if e.is_running {
        2u8
    } else {
        3u8
    }
}

/// The order of picker rows: by rank, then by lower-cased name.
pub open spec fn picker_key(e: PickerEntryView, preferred: Option<Seq<char>>) -> (u8, Seq<char>) {
    (picker_rank(e, preferred), unicode_lowercase(e.name))
}

/// The picker order, as a function of a row's view.
pub open spec fn picker_key_fn(preferred: Option<Seq<char>>) -> spec_fn(PickerEntryView) -> (
    u8,
    Seq<char>,
) {
    |e: PickerEntryView| picker_key(e, preferred)
}

/// The picker order, as a function of a row.
pub open spec fn picker_row_key_fn(preferred: Option<Seq<char>>) -> spec_fn(PickerBrowserEntry) -> (
    u8,
    Seq<char>,
) {
    |e: PickerBrowserEntry| picker_key(e@, preferred)
}

/// The sort key of a picker row: see `picker_key`.
pub fn picker_browser_sort_key(browser: &PickerBrowserEntry, preferred_browser_id: Option<&str>) -> (r:
    SortKey)
    ensures
        key_view(r) == picker_key(browser@, opt_str_ref_view(preferred_browser_id)),
{
    let is_preferred = match preferred_browser_id {
        Some(id) => chars_equal(&chars_of(id), &chars_of(browser.id.as_str())),
        None => false,
    };
    let rank: u8 = if is_preferred {
        0
    } else if browser.is_default {
        1
    } else if browser.is_running {
        2
    } else {
        3
    };
    let lowered = to_lowercase(browser.name.as_str());
    SortKey { rank, text: chars_of(lowered.as_str()) }
}

/// Browsers that are not hidden.
pub open spec fn shown() -> spec_fn(BrowserView) -> bool {
    |b: BrowserView| !b.is_hidden
}

/// The picker row of a browser, given the running processes.
pub open spec fn picker_entry_spec(
    c: ConfigView,
    b: BrowserView,
    running: Seq<Seq<char>>,
) -> PickerEntryView {
    PickerEntryView {
        id: b.id,
        name: b.name,
        private_flag: b.private_flag,
        icon_key: b.icon_key,
        is_default: c.default_browser_id == Some(b.id),
        is_running: running_contains(running, b),
    }
}

/// The picker rows of the browsers that are not hidden, in list order.
pub open spec fn picker_entries_spec(
    c: ConfigView,
    browsers: Seq<BrowserView>,
    running: Seq<Seq<char>>,
) -> Seq<PickerEntryView> {
    browsers.filter(shown()).map_values(|b: BrowserView| picker_entry_spec(c, b, running))
}

/// The views of picker rows.
pub open spec fn entries_view(v: Seq<PickerBrowserEntry>) -> Seq<PickerEntryView> {
    v.map_values(|e: PickerBrowserEntry| e@)
}

/// What a picker session holds, given the URL it shows and the running
/// processes: the request's values, the configuration's display settings,
/// and the rows of the browsers that are not hidden, sorted stably by
/// `picker_key`.
pub open spec fn session_matches(
    s: PickerSession,
    c: ConfigView,
    url: Seq<char>,
    reason: Seq<char>,
    source: PickerLaunchSource,
    preferred: Option<Seq<char>>,
    preferred_private_mode: bool,
    alt_pressed: bool,
    running: Seq<Seq<char>>,
) -> bool {
    &&& s.url@ == url
    &&& s.reason@ == reason
    &&& s.source == source
    &&& s.preferred_browser_id.deep_view() == preferred
    &&& s.preferred_private_mode == preferred_private_mode
    &&& s.disable_transparency == c.disable_transparency
    &&& s.theme_preference == c.theme_preference
    &&& s.always_show_picker == c.always_show_picker
    &&& s.alt_pressed == alt_pressed
    &&& sorted_by(entries_view(s.browsers@), picker_key_fn(preferred))
    &&& same_order_per_key(
        entries_view(s.browsers@),
        picker_entries_spec(c, c.browsers, running),
        picker_key_fn(preferred),
    )
}

/// The rows of the picker in list order, reading the running processes
/// through `running` at the first row.
fn collect_picker_rows<F: Fn() -> Vec<String>>(
    config: &AppConfig,
    running: &mut RunningProcessSnapshot<F>,
) -> (r: Vec<PickerBrowserEntry>)
    requires
        call_requires(old(running).spec_loader(), ()),
    ensures
        entries_view(r@) == picker_entries_spec(
            config@,
            config@.browsers,
            final(running).processes_or_empty(),
        ),
        snapshot_kept(
            *old(running),
            *final(running),
            config@.browsers.filter(shown()).len() > 0,
        ),
{
    let ghost c = config@;
    let ghost start = *running;
    let mut rows: Vec<PickerBrowserEntry> = Vec::new();
    let mut i: usize = 0;
    while i < config.browsers.len()
        invariant
            c == config@,
            i <= config.browsers.len(),
            running.spec_loader() == start.spec_loader(),
            call_requires(start.spec_loader(), ()),
            start.processes() is Some ==> running.processes() == start.processes(),
            start.processes() is None && running.processes() is Some ==> exists|v: Vec<String>|
                call_ensures(start.spec_loader(), (), v) && running.processes() == Some(
                    strings_view(v@),
                ),
            c.browsers.take(i as int).filter(shown()).len() > 0 ==> running.processes() is Some,
            running.processes() is Some ==> start.processes() is Some || c.browsers.take(
                i as int,
            ).filter(shown()).len() > 0,
            entries_view(rows@) == picker_entries_spec(
                c,
                c.browsers.take(i as int),
                running.processes_or_empty(),
            ),
        decreases config.browsers.len() - i,
    {
        let browser = &config.browsers[i];
        let ghost b = browser@;
        let ghost prefix = c.browsers.take(i as int);
        assert(c.browsers[i as int] == b);
        assert(c.browsers.take(i + 1) =~= prefix.push(b));
        proof {
            prefix.lemma_filter_push(b, shown());
        }
        if !browser.is_hidden {
            let ghost rows_before = rows@;
            let ghost before = *running;
            let is_running = running.is_browser_running(browser);
            proof {
                if before.processes() is None {
                    assert(prefix.filter(shown()).len() == 0);
                    assert(picker_entries_spec(c, prefix, before.processes_or_empty())
                        =~= picker_entries_spec(c, prefix, running.processes_or_empty()));
                }
            }
            let is_default = match &config.default_browser_id {
                Some(id) => chars_equal(&chars_of(id.as_str()), &chars_of(browser.id.as_str())),
                None => false,
            };
            let row = PickerBrowserEntry {
                id: browser.id.clone(),
                name: browser.name.clone(),
                private_flag: copy_opt_string(&browser.private_flag),
                icon_key: copy_opt_string(&browser.icon_key),
                is_default,
                is_running,
            };
            assert(row@ == picker_entry_spec(c, b, running.processes_or_empty()));
            rows.push(row);
            assert(entries_view(rows@) =~= entries_view(rows_before).push(row@));
            assert(picker_entries_spec(c, prefix.push(b), running.processes_or_empty())
                =~= picker_entries_spec(c, prefix, running.processes_or_empty()).push(row@));
        } else {
            assert(picker_entries_spec(c, prefix.push(b), running.processes_or_empty())
                =~= picker_entries_spec(c, prefix, running.processes_or_empty()));
        }
        i = i + 1;
    }
    assert(c.browsers.take(i as int) =~= c.browsers);
    rows
}

/// The picker rows sorted stably by `picker_key`.
fn sort_picker_rows(rows: Vec<PickerBrowserEntry>, preferred_browser_id: Option<&str>) -> (r: Vec<
    PickerBrowserEntry,
>)
    ensures
        sorted_by(entries_view(r@), picker_key_fn(opt_str_ref_view(preferred_browser_id))),
        same_order_per_key(
            entries_view(r@),
            entries_view(rows@),
            picker_key_fn(opt_str_ref_view(preferred_browser_id)),
        ),
{
    let ghost preferred = opt_str_ref_view(preferred_browser_id);
    let mut keys: Vec<SortKey> = Vec::new();
    let mut i: usize = 0;
    while i < rows.len()
        invariant
            i <= rows.len(),
            keys.len() == i,
            preferred == opt_str_ref_view(preferred_browser_id),
            forall|j: int|
                0 <= j < i ==> key_view(#[trigger] keys@[j]) == picker_key(rows@[j]@, preferred),
        decreases rows.len() - i,
    {
        keys.push(picker_browser_sort_key(&rows[i], preferred_browser_id));
        i = i + 1;
    }
    let ghost kf = picker_row_key_fn(preferred);
    let ghost input = rows@;
    let r = stable_sort(rows, keys, Ghost(kf));
    proof {
        lemma_stable_sort_view(r@, input, kf, picker_key_fn(preferred));
        assert(r@.map_values(|x: PickerBrowserEntry| x.view()) =~= entries_view(r@));
        assert(input.map_values(|x: PickerBrowserEntry| x.view()) =~= entries_view(input));
    }
    r
}

/// Builds what the picker window shows for a URL: the URL checked and
/// normalised (its error when it is refused, before any process is read),
/// the request's values, the display settings of the configuration, and one
/// row per browser that is not hidden, sorted stably by `picker_key`. The
/// running processes are read through `running` at most once, and only when
/// there is a row.
pub fn build_picker_session_with_running_processes<F: Fn() -> Vec<String>>(
    config: &AppConfig,
    url: &str,
    source: PickerLaunchSource,
    reason: &str,
    preferred_browser_id: Option<&str>,
    preferred_private_mode: bool,
    alt_pressed: bool,
    running: &mut RunningProcessSnapshot<F>,
) -> (r: Result<PickerSession, String>)
    requires
        call_requires(old(running).spec_loader(), ()),
    ensures
        match normalize_url_spec(url@) {
            Err(e) => r matches Err(m) && m@ == e && *final(running) == *old(running),
            Ok(u) => r matches Ok(s) && session_matches(
                s,
                config@,
                u,
                reason@,
                source,
                opt_str_ref_view(preferred_browser_id),
                preferred_private_mode,
                alt_pressed,
                final(running).processes_or_empty(),
            ),
        },
        snapshot_kept(
            *old(running),
            *final(running),
            normalize_url_spec(url@) is Ok && config@.browsers.filter(shown()).len() > 0,
        ),
{
    let normalized_url = match normalize_http_url(url) {
        Ok(parsed) => parsed.serialization,
        Err(error) => {
            return Err(error);
        },
    };
    let rows = collect_picker_rows(config, running);
    let browsers = sort_picker_rows(rows, preferred_browser_id);
    let preferred = match preferred_browser_id {
        Some(id) => Some(owned(id)),
        None => None,
    };
    Ok(
        PickerSession {
            url: normalized_url,
            reason: owned(reason),
            source,
            preferred_browser_id: preferred,
            preferred_private_mode,
            disable_transparency: config.disable_transparency,
            theme_preference: config.theme_preference,
            always_show_picker: config.always_show_picker,
            alt_pressed,
            browsers,
        },
    )
}

/// Where loading the configuration with the picker trigger stands.
pub enum TriggerLoadPhase {
    /// Nothing asked yet.
    Start,
    /// The trigger was asked before the load.
    AwaitingFirstAnswer,
    /// The configuration is being loaded; the trigger's first answer.
    Loading(bool),
    /// The trigger said no before the load and is asked once more.
    AwaitingSecondAnswer(AppConfig),
    /// Done.
    Finished,
}

/// What came back from the last action.
pub enum TriggerLoadEvent {
    /// The run begins.
    Begin,
    /// The trigger answered.
    TriggerAnswered(bool),
    /// The configuration loaded.
    Loaded(AppConfig),
    /// The configuration did not load.
    LoadFailed(String),
}

/// What is to be done next.
pub enum TriggerLoadAction {
    /// Ask whether the picker trigger is active.
    AskTrigger,
    /// Load the configuration.
    LoadConfig,
    /// Hand back the configuration and whether the picker is forced.
    Finish(AppConfig, bool),
    /// Hand back the loader's error.
    Fail(String),
    /// The event does not belong to the phase; nothing is done.
    Ignore,
}

/// One step of loading the configuration with the picker trigger: at the
/// start the trigger is asked; after its answer the configuration is loaded;
/// after a successful load the run finishes with `true` when the trigger said
/// yes, and otherwise asks it again; after that second answer the run
/// finishes with it; after a failed load the run fails with the loader's
/// error. Any other event leaves the phase as it is.
pub open spec fn trigger_load_step_spec(phase: TriggerLoadPhase, event: TriggerLoadEvent) -> (
    TriggerLoadPhase,
    TriggerLoadAction,
) {
    match (phase, event) {
        (TriggerLoadPhase::Start, TriggerLoadEvent::Begin) => (
            TriggerLoadPhase::AwaitingFirstAnswer,
            TriggerLoadAction::AskTrigger,
        ),
        (TriggerLoadPhase::AwaitingFirstAnswer, TriggerLoadEvent::TriggerAnswered(b)) => (
            TriggerLoadPhase::Loading(b),
            TriggerLoadAction::LoadConfig,
        ),
        (TriggerLoadPhase::Loading(b), TriggerLoadEvent::Loaded(c)) => if b {
            (TriggerLoadPhase::Finished, TriggerLoadAction::Finish(c, true))
        } else {
            (TriggerLoadPhase::AwaitingSecondAnswer(c), TriggerLoadAction::AskTrigger)
        },
        (TriggerLoadPhase::Loading(_), TriggerLoadEvent::LoadFailed(e)) => (
            TriggerLoadPhase::Finished,
            TriggerLoadAction::Fail(e),
        ),
        (TriggerLoadPhase::AwaitingSecondAnswer(c), TriggerLoadEvent::TriggerAnswered(a)) => (
            TriggerLoadPhase::Finished,
            TriggerLoadAction::Finish(c, a),
        ),
        (phase, _) => (phase, TriggerLoadAction::Ignore),
    }
}

/// One step of loading the configuration with the picker trigger: see
/// `trigger_load_step_spec`.
pub fn trigger_load_step(phase: TriggerLoadPhase, event: TriggerLoadEvent) -> (r: (
    TriggerLoadPhase,
    TriggerLoadAction,
))
    ensures
        r == trigger_load_step_spec(phase, event),
{
    match (phase, event) {
        (TriggerLoadPhase::Start, TriggerLoadEvent::Begin) => (
            TriggerLoadPhase::AwaitingFirstAnswer,
            TriggerLoadAction::AskTrigger,
        ),
        (TriggerLoadPhase::AwaitingFirstAnswer, TriggerLoadEvent::TriggerAnswered(b)) => (
            TriggerLoadPhase::Loading(b),
            TriggerLoadAction::LoadConfig,
        ),
        (TriggerLoadPhase::Loading(b), TriggerLoadEvent::Loaded(c)) => if b {
            (TriggerLoadPhase::Finished, TriggerLoadAction::Finish(c, true))
        } else {
            (TriggerLoadPhase::AwaitingSecondAnswer(c), TriggerLoadAction::AskTrigger)
        },
        (TriggerLoadPhase::Loading(_), TriggerLoadEvent::LoadFailed(e)) => (
            TriggerLoadPhase::Finished,
            TriggerLoadAction::Fail(e),
        ),
        (TriggerLoadPhase::AwaitingSecondAnswer(c), TriggerLoadEvent::TriggerAnswered(a)) => (
            TriggerLoadPhase::Finished,
            TriggerLoadAction::Finish(c, a),
        ),
        (phase, _) => (phase, TriggerLoadAction::Ignore),
    }
}

/// How many steps at most are left from a phase.
pub open spec fn trigger_load_steps_left(phase: TriggerLoadPhase) -> nat {
    match phase {
        TriggerLoadPhase::Start => 4,
        TriggerLoadPhase::AwaitingFirstAnswer => 3,
        TriggerLoadPhase::Loading(_) => 2,
        TriggerLoadPhase::AwaitingSecondAnswer(_) => 1,
        TriggerLoadPhase::Finished => 0,
    }
}

/// Loads the configuration and tells whether the picker is forced, doing
/// what `trigger_load_step` asks: the trigger is asked before the
/// configuration is loaded and, when it said no, once more after; the picker
/// is forced when the first answer was yes, else as the second answer says.
/// An error of the loader is handed on.
pub fn load_config_with_picker_trigger_snapshot<
    F: Fn() -> bool,
    L: Fn() -> Result<AppConfig, String>,
>(is_picker_trigger_active: F, load_config: L) -> (r: Result<(AppConfig, bool), String>)
    requires
        call_requires(is_picker_trigger_active, ()),
        call_requires(load_config, ()),
    ensures
        match r {
            Err(e) => call_ensures(load_config, (), Err::<AppConfig, String>(e)) && exists|
                first: bool,
            | #[trigger] call_ensures(is_picker_trigger_active, (), first),
            Ok((config, force_picker)) => {
                &&& call_ensures(load_config, (), Ok::<AppConfig, String>(config))
                &&& exists|first: bool|
                    #[trigger] call_ensures(is_picker_trigger_active, (), first) && (first
                        ==> force_picker) && (!first ==> call_ensures(
                        is_picker_trigger_active,
                        (),
                        force_picker,
                    ))
            },
        },
{
    let mut phase = TriggerLoadPhase::Start;
    let mut event = TriggerLoadEvent::Begin;
    loop
        invariant
            call_requires(is_picker_trigger_active, ()),
            call_requires(load_config, ()),
            phase is Start ==> event is Begin,
            phase is AwaitingFirstAnswer ==> (event matches TriggerLoadEvent::TriggerAnswered(b)
                && call_ensures(is_picker_trigger_active, (), b)),
            phase matches TriggerLoadPhase::Loading(b) ==> {
                &&& call_ensures(is_picker_trigger_active, (), b)
                &&& (event is Loaded || event is LoadFailed)
                &&& event matches TriggerLoadEvent::Loaded(c) ==> call_ensures(
                    load_config,
                    (),
                    Ok::<AppConfig, String>(c),
                )
                &&& event matches TriggerLoadEvent::LoadFailed(e) ==> call_ensures(
                    load_config,
                    (),
                    Err::<AppConfig, String>(e),
                )
            },
            phase matches TriggerLoadPhase::AwaitingSecondAnswer(c) ==> {
                &&& call_ensures(load_config, (), Ok::<AppConfig, String>(c))
                &&& call_ensures(is_picker_trigger_active, (), false)
                &&& event matches TriggerLoadEvent::TriggerAnswered(a) && call_ensures(
                    is_picker_trigger_active,
                    (),
                    a,
                )
            },
            !(phase is Finished),
        decreases trigger_load_steps_left(phase),
    {
        let ghost before = phase;
        let (next, action) = trigger_load_step(phase, event);
        match action {
            TriggerLoadAction::AskTrigger => {
                event = TriggerLoadEvent::TriggerAnswered(is_picker_trigger_active());
            },
            TriggerLoadAction::LoadConfig => {
                event = match load_config() {
                    Ok(config) => TriggerLoadEvent::Loaded(config),
                    Err(error) => TriggerLoadEvent::LoadFailed(error),
                };
            },
            TriggerLoadAction::Finish(config, force_picker) => {
                return Ok((config, force_picker));
            },
            TriggerLoadAction::Fail(error) => {
                return Err(error);
            },
            TriggerLoadAction::Ignore => {
                proof {
                    assert(false);
                }
                event = TriggerLoadEvent::Begin;
            },
        }
        phase = next;
    }
}

/// Routes an incoming URL: a forced picker shows without reading anything;
/// otherwise the URL is routed as `resolve_route_with_running_processes`
/// routes it.
pub fn resolve_incoming_url_decision_with_running_processes<F: Fn() -> Vec<String>>(
    config: &AppConfig,
    url: &str,
    force_picker: bool,
    running: &mut RunningProcessSnapshot<F>,
) -> (r: Result<RouteDecision, String>)
    requires
        call_requires(old(running).spec_loader(), ()),
    ensures
        r is Ok,
        force_picker ==> decision_result_view(r) == Ok::<DecisionView, Seq<char>>(
            picker_view("ctrl_shift_click"@),
        ) && *final(running) == *old(running),
        !force_picker ==> decision_result_view(r) == Ok::<DecisionView, Seq<char>>(
            route_spec(config@, url@, final(running).processes_or_empty()),
        ) && snapshot_kept(*old(running), *final(running), route_needs_running(config@, url@)),
{
    if force_picker {
        return Ok(picker_decision("ctrl_shift_click"));
    }
    resolve_route_with_running_processes(config, url, running)
}

/// What the application does with a routed incoming URL.
#[derive(Debug, Clone, Copy, PartialEq, Eq, Structural)]
pub enum IncomingUrlAction {
    /// Show the picker with a fresh reading of the running processes.
    ShowForcedPicker,
    /// Hide the picker and open the decided browser.
    OpenBrowser,
    /// Show the picker, reusing the processes that routing read.
    ShowPicker,
}

/// What is done with a routed incoming URL: a picker forced by the shortcut
/// shows with a fresh reading, an open decision opens its browser, and any
/// other picker reuses what routing read.
pub open spec fn incoming_url_action_spec(d: DecisionView) -> IncomingUrlAction {
    if d.action == RouteAction::ShowPicker && d.reason == "ctrl_shift_click"@ {
        IncomingUrlAction::ShowForcedPicker
    } else if d.action == RouteAction::OpenBrowser {
        IncomingUrlAction::OpenBrowser
    } else {
        IncomingUrlAction::ShowPicker
    }
}

/// What is done with a routed incoming URL: see `incoming_url_action_spec`.
pub fn incoming_url_action(decision: &RouteDecision) -> (r: IncomingUrlAction)
    ensures
        r == incoming_url_action_spec(decision@),
{
    if decision.action == RouteAction::ShowPicker && chars_equal(
        &chars_of(decision.reason.as_str()),
        &chars_of("ctrl_shift_click"),
    ) {
        IncomingUrlAction::ShowForcedPicker
    } else if decision.action == RouteAction::OpenBrowser {
        IncomingUrlAction::OpenBrowser
    } else {
        IncomingUrlAction::ShowPicker
    }
}

/// The picker window is never shorter than the smallest height nor taller
/// than the largest, however many browsers it lists.
pub proof fn lemma_picker_height_bounds(browser_count: int)
    requires
        browser_count >= 0,
    ensures
        PICKER_MENU_MIN_HEIGHT <= picker_height_spec(browser_count) <= PICKER_MENU_MAX_HEIGHT,
{
}

/// A URL taken from a command line always starts with `http://` or
/// `https://`.
pub proof fn lemma_extracted_url_is_http(args: Seq<Seq<char>>, i: int)
    ensures
        url_from_args_spec(args, i) matches Some(u) ==> is_http_candidate(u),
    decreases args.len() - i,
{
    if 0 <= i < args.len() {
        lemma_extracted_url_is_http(args, i + 1);
    }
}

/// On a known monitor that the window fits on, the picker window lies wholly
/// inside the monitor.
pub proof fn lemma_picker_inside_monitor(
    cursor_x: int,
    cursor_y: int,
    width: int,
    height: int,
    m: MonitorArea,
)
    requires
        0 <= width <= m.width,
        0 <= height <= m.height,
    ensures
        ({
            let (x, y) = picker_position_spec(cursor_x, cursor_y, width, height, Some(m));
            &&& m.x <= x && x + width <= m.x + m.width
            &&& m.y <= y && y + height <= m.y + m.height
        }),
{
}

/// The picker lists only browsers that are not hidden: every row of a
/// session is the row of a shown browser of the configuration.
pub proof fn lemma_picker_rows_are_shown_browsers(
    s: PickerSession,
    c: ConfigView,
    url: Seq<char>,
    reason: Seq<char>,
    source: PickerLaunchSource,
    preferred: Option<Seq<char>>,
    preferred_private_mode: bool,
    alt_pressed: bool,
    running: Seq<Seq<char>>,
)
    requires
        session_matches(
            s,
            c,
            url,
            reason,
            source,
            preferred,
            preferred_private_mode,
            alt_pressed,
            running,
        ),
    ensures
        forall|j: int|
            0 <= j < s.browsers.len() ==> exists|b: int|
                0 <= b < c.browsers.len() && !c.browsers[b].is_hidden && (#[trigger] s.browsers@[j])@
                    == picker_entry_spec(c, c.browsers[b], running),
{
    let rows = entries_view(s.browsers@);
    let expected = picker_entries_spec(c, c.browsers, running);
    let shown_list = c.browsers.filter(shown());
    assert forall|j: int| 0 <= j < s.browsers.len() implies exists|b: int|
        0 <= b < c.browsers.len() && !c.browsers[b].is_hidden && (#[trigger] s.browsers@[j])@
            == picker_entry_spec(c, c.browsers[b], running) by {
        assert(rows[j] == s.browsers@[j]@);
        assert(rows.contains(rows[j]));
        lemma_same_order_contains(expected, rows, picker_key_fn(preferred), rows[j]);
        let k = choose|k: int| 0 <= k < expected.len() && expected[k] == rows[j];
        let v = shown_list[k];
        c.browsers.lemma_filter_pred(shown(), k);
        assert(shown_list.contains(v));
        c.browsers.lemma_filter_contains_rev(shown(), v);
        let b = choose|b: int| 0 <= b < c.browsers.len() && c.browsers[b] == v;
        assert(!c.browsers[b].is_hidden);
    }
}

/// Every Ctrl key code (either, left, right: 0x11, 0xA2, 0xA3) is read as
/// Ctrl and every Shift key code (0x10, 0xA0, 0xA1) as Shift: from no key
/// held, any Ctrl key going down and then any Shift key going down (or the
/// other way round) is remembered as a press, whether the key-down message
/// is plain or a system one; the key going up again releases it.
pub proof fn lemma_every_ctrl_and_shift_key_counts(ctrl: i32, shift: i32, down: u32)
    requires
        ctrl == 0x11 || ctrl == 0xA2 || ctrl == 0xA3,
        shift == 0x10 || shift == 0xA0 || shift == 0xA1,
        down == 0x0100 || down == 0x0104,
    ensures
        is_ctrl_key_spec(ctrl) && !is_shift_key_spec(ctrl),
        is_shift_key_spec(shift) && !is_ctrl_key_spec(shift),
        ({
            let (c1, s1, first) = keyboard_step(false, false, ctrl, down);
            let (c2, s2, second) = keyboard_step(c1, s1, shift, down);
            !first && second && c2 && s2
        }),
        ({
            let (c1, s1, first) = keyboard_step(false, false, shift, down);
            let (c2, s2, second) = keyboard_step(c1, s1, ctrl, down);
            !first && second && c2 && s2
        }),
        !keyboard_step(true, true, ctrl, 0x0101).0 && keyboard_step(true, true, ctrl, 0x0101).1,
        keyboard_step(true, true, shift, 0x0101).0 && !keyboard_step(true, true, shift, 0x0101).1,
{
}

} // verus!
