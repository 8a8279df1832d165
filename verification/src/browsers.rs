//! Browser knowledge: the table of known browsers, recognition of an
//! executable, the checks before a launch, and the merge of detected browsers
//! into the configuration.
use vstd::prelude::*;
use std::collections::hash_map::DefaultHasher;
use std::hash::Hasher;
use vstd::std_specs::hash::DefaultHasherAdditionalSpecFns;
use vstd::utf8::encode_utf8;
use crate::models::{AppConfig, BrowserConfig, BrowserRecognition, BrowserSource, BrowserView, ConfigView, ManualBrowserTrust, ManualBrowserValidationRequest, ManualBrowserValidationResult, browsers_view, copy_browser};
use crate::sorting::{SortKey, key_class, key_view, lemma_same_order_contains, same_order_per_key, sorted_by, stable_sort};
use crate::text::{all_ascii, ascii_lower, ascii_lower_seq, ascii_lowercase, chars_equal, chars_of, concat_chars, contains_exec, contains_seq, copy_opt_string, ends_with, ends_with_exec, eq_ignore_ascii_case, eq_ignore_ascii_case_spec, find_first, first_index, first_occurrence, has_char, join2, join3, join5, last_index_where, lemma_first_index, lemma_last_index_where, no_ascii_capitals, owned, replace_char, replace_char_spec, slice_chars, string_from_chars, trim, trim_by, trim_char, trim_end_by, trim_spec};
use crate::trusted::{path_exists, to_lowercase, unicode_lowercase};

verus! {

/// The family of a browser, which decides its private-mode flag.
#[derive(Debug, Clone, Copy, PartialEq, Eq, Structural)]
pub enum BrowserFamily {
    Chromium,
    Firefox,
    Edge,
    Opera,
    Unknown,
}

/// One entry of the table of known browsers.
pub struct KnownBrowserDefinition {
    pub executable_aliases: Vec<&'static str>,
    pub display_name: &'static str,
    pub family: BrowserFamily,
    pub private_flag_override: Option<&'static str>,
    pub use_family_private_flag: bool,
    pub known_install_path_suffixes: Vec<&'static str>,
}

/// The mathematical view of a table entry.
pub struct DefinitionView {
    pub aliases: Seq<Seq<char>>,
    pub display_name: Seq<char>,
    pub family: BrowserFamily,
    pub private_flag_override: Option<Seq<char>>,
    pub use_family_private_flag: bool,
    pub suffixes: Seq<Seq<char>>,
}

pub open spec fn strs_view(v: Seq<&'static str>) -> Seq<Seq<char>> {
    v.map_values(|s: &'static str| s@)
}

pub open spec fn opt_str_view(o: Option<&'static str>) -> Option<Seq<char>> {
    match o {
        Some(s) => Some(s@),
        None => None,
    }
}

impl View for KnownBrowserDefinition {
    type V = DefinitionView;

    open spec fn view(&self) -> DefinitionView {
        DefinitionView {
            aliases: strs_view(self.executable_aliases@),
            display_name: self.display_name@,
            family: self.family,
            private_flag_override: opt_str_view(self.private_flag_override),
            use_family_private_flag: self.use_family_private_flag,
            suffixes: strs_view(self.known_install_path_suffixes@),
        }
    }
}

pub open spec fn definitions_view(v: Seq<KnownBrowserDefinition>) -> Seq<DefinitionView> {
    v.map_values(|d: KnownBrowserDefinition| d@)
}

pub open spec fn def_spec(
    aliases: Seq<Seq<char>>,
    display_name: Seq<char>,
    family: BrowserFamily,
    suffixes: Seq<Seq<char>>,
) -> DefinitionView {
    DefinitionView {
        aliases,
        display_name,
        family,
        private_flag_override: None,
        use_family_private_flag: true,
        suffixes,
    }
}

/// The browsers that Hops knows by name, in the order in which they are tried.
pub open spec fn known_definitions() -> Seq<DefinitionView> {
    seq![
        def_spec(
            seq!["chrome"@, "chromium"@, "chrome_proxy"@],
            "Google Chrome"@,
            BrowserFamily::Chromium,
            seq!["Google\\Chrome\\Application\\chrome.exe"@],
        ),
        DefinitionView {
            aliases: seq![],
            display_name: "Tor Browser"@,
            family: BrowserFamily::Firefox,
            private_flag_override: None,
            use_family_private_flag: false,
            suffixes: seq!["Tor Browser\\Browser\\firefox.exe"@],
        },
        def_spec(
            seq!["firefox"@],
            "Mozilla Firefox"@,
            BrowserFamily::Firefox,
            seq!["Mozilla Firefox\\firefox.exe"@],
        ),
        def_spec(
            seq!["librewolf"@],
            "LibreWolf"@,
            BrowserFamily::Firefox,
            seq!["LibreWolf\\librewolf.exe"@],
        ),
        def_spec(
            seq!["waterfox"@],
            "Waterfox"@,
            BrowserFamily::Firefox,
            seq!["Waterfox\\waterfox.exe"@],
        ),
        def_spec(seq!["floorp"@], "Floorp"@, BrowserFamily::Firefox, seq!["Floorp\\floorp.exe"@]),
        def_spec(seq!["zen"@], "Zen"@, BrowserFamily::Firefox, seq!["Zen Browser\\zen.exe"@]),
        def_spec(
            seq!["msedge"@],
            "Microsoft Edge"@,
            BrowserFamily::Edge,
            seq!["Microsoft\\Edge\\Application\\msedge.exe"@],
        ),
        def_spec(
            seq!["brave"@, "bravebrowser"@, "brave-browser"@],
            "Brave"@,
            BrowserFamily::Chromium,
            seq!["BraveSoftware\\Brave-Browser\\Application\\brave.exe"@],
        ),
        def_spec(
            seq!["opera"@, "launcher"@],
            "Opera"@,
            BrowserFamily::Opera,
            seq!["Programs\\Opera\\opera.exe"@, "Opera\\launcher.exe"@],
        ),
        def_spec(
            seq!["vivaldi"@],
            "Vivaldi"@,
            BrowserFamily::Chromium,
            seq!["Vivaldi\\Application\\vivaldi.exe"@],
        ),
        def_spec(
            seq!["arc"@],
            "Arc"@,
            BrowserFamily::Chromium,
            seq!["The Browser Company\\Arc\\Arc.exe"@],
        ),
        def_spec(
            seq!["helium"@],
            "Helium"@,
            BrowserFamily::Chromium,
            seq!["imput\\Helium\\Application\\chrome.exe"@],
        ),
    ]
}

fn definition(
    executable_aliases: Vec<&'static str>,
    display_name: &'static str,
    family: BrowserFamily,
    known_install_path_suffixes: Vec<&'static str>,
) -> (d: KnownBrowserDefinition)
    ensures
        d@ == def_spec(
            strs_view(executable_aliases@),
            display_name@,
            family,
            strs_view(known_install_path_suffixes@),
        ),
{
    KnownBrowserDefinition {
        executable_aliases,
        display_name,
        family,
        private_flag_override: None,
        use_family_private_flag: true,
        known_install_path_suffixes,
    }
}

/// The table of known browsers.
pub fn known_browser_definitions() -> (r: Vec<KnownBrowserDefinition>)
    ensures
        definitions_view(r@) == known_definitions(),
{
    let chrome_aliases = vec!["chrome", "chromium", "chrome_proxy"];
    assert(strs_view(chrome_aliases@) =~= seq!["chrome"@, "chromium"@, "chrome_proxy"@]);
    let chrome_suffixes = vec!["Google\\Chrome\\Application\\chrome.exe"];
    assert(strs_view(chrome_suffixes@) =~= seq!["Google\\Chrome\\Application\\chrome.exe"@]);
    let chrome = definition(chrome_aliases, "Google Chrome", BrowserFamily::Chromium, chrome_suffixes);
    assert(chrome@ == known_definitions()[0]);
    let tor_suffixes = vec!["Tor Browser\\Browser\\firefox.exe"];
    let tor_aliases: Vec<&'static str> = vec![];
    let tor = KnownBrowserDefinition {
        executable_aliases: tor_aliases,
        display_name: "Tor Browser",
        family: BrowserFamily::Firefox,
        private_flag_override: None,
        use_family_private_flag: false,
        known_install_path_suffixes: tor_suffixes,
    };
    assert(strs_view(tor.executable_aliases@) =~= Seq::<Seq<char>>::empty());
    assert(strs_view(tor.known_install_path_suffixes@) =~= seq!["Tor Browser\\Browser\\firefox.exe"@]);
    assert(tor@ == known_definitions()[1]);
    let firefox_aliases = vec!["firefox"];
    assert(strs_view(firefox_aliases@) =~= seq!["firefox"@]);
    let firefox_suffixes = vec!["Mozilla Firefox\\firefox.exe"];
    assert(strs_view(firefox_suffixes@) =~= seq!["Mozilla Firefox\\firefox.exe"@]);
    let firefox = definition(firefox_aliases, "Mozilla Firefox", BrowserFamily::Firefox, firefox_suffixes);
    assert(firefox@ == known_definitions()[2]);
    let librewolf_aliases = vec!["librewolf"];
    assert(strs_view(librewolf_aliases@) =~= seq!["librewolf"@]);
    let librewolf_suffixes = vec!["LibreWolf\\librewolf.exe"];
    assert(strs_view(librewolf_suffixes@) =~= seq!["LibreWolf\\librewolf.exe"@]);
    let librewolf = definition(librewolf_aliases, "LibreWolf", BrowserFamily::Firefox, librewolf_suffixes);
    assert(librewolf@ == known_definitions()[3]);
    let waterfox_aliases = vec!["waterfox"];
    assert(strs_view(waterfox_aliases@) =~= seq!["waterfox"@]);
    let waterfox_suffixes = vec!["Waterfox\\waterfox.exe"];
    assert(strs_view(waterfox_suffixes@) =~= seq!["Waterfox\\waterfox.exe"@]);
    let waterfox = definition(waterfox_aliases, "Waterfox", BrowserFamily::Firefox, waterfox_suffixes);
    assert(waterfox@ == known_definitions()[4]);
    let floorp_aliases = vec!["floorp"];
    assert(strs_view(floorp_aliases@) =~= seq!["floorp"@]);
    let floorp_suffixes = vec!["Floorp\\floorp.exe"];
    assert(strs_view(floorp_suffixes@) =~= seq!["Floorp\\floorp.exe"@]);
    let floorp = definition(floorp_aliases, "Floorp", BrowserFamily::Firefox, floorp_suffixes);
    assert(floorp@ == known_definitions()[5]);
    let zen_aliases = vec!["zen"];
    assert(strs_view(zen_aliases@) =~= seq!["zen"@]);
    let zen_suffixes = vec!["Zen Browser\\zen.exe"];
    assert(strs_view(zen_suffixes@) =~= seq!["Zen Browser\\zen.exe"@]);
    let zen = definition(zen_aliases, "Zen", BrowserFamily::Firefox, zen_suffixes);
    assert(zen@ == known_definitions()[6]);
    let edge_aliases = vec!["msedge"];
    assert(strs_view(edge_aliases@) =~= seq!["msedge"@]);
    let edge_suffixes = vec!["Microsoft\\Edge\\Application\\msedge.exe"];
    assert(strs_view(edge_suffixes@) =~= seq!["Microsoft\\Edge\\Application\\msedge.exe"@]);
    let edge = definition(edge_aliases, "Microsoft Edge", BrowserFamily::Edge, edge_suffixes);
    assert(edge@ == known_definitions()[7]);
    let brave_aliases = vec!["brave", "bravebrowser", "brave-browser"];
    assert(strs_view(brave_aliases@) =~= seq!["brave"@, "bravebrowser"@, "brave-browser"@]);
    let brave_suffixes = vec!["BraveSoftware\\Brave-Browser\\Application\\brave.exe"];
    assert(strs_view(brave_suffixes@) =~= seq!["BraveSoftware\\Brave-Browser\\Application\\brave.exe"@]);
    let brave = definition(brave_aliases, "Brave", BrowserFamily::Chromium, brave_suffixes);
    assert(brave@ == known_definitions()[8]);
    let opera_aliases = vec!["opera", "launcher"];
    assert(strs_view(opera_aliases@) =~= seq!["opera"@, "launcher"@]);
    let opera_suffixes = vec!["Programs\\Opera\\opera.exe", "Opera\\launcher.exe"];
    assert(strs_view(opera_suffixes@) =~= seq!["Programs\\Opera\\opera.exe"@, "Opera\\launcher.exe"@]);
    let opera = definition(opera_aliases, "Opera", BrowserFamily::Opera, opera_suffixes);
    assert(opera@ == known_definitions()[9]);
    let vivaldi_aliases = vec!["vivaldi"];
    assert(strs_view(vivaldi_aliases@) =~= seq!["vivaldi"@]);
    let vivaldi_suffixes = vec!["Vivaldi\\Application\\vivaldi.exe"];
    assert(strs_view(vivaldi_suffixes@) =~= seq!["Vivaldi\\Application\\vivaldi.exe"@]);
    let vivaldi = definition(vivaldi_aliases, "Vivaldi", BrowserFamily::Chromium, vivaldi_suffixes);
    assert(vivaldi@ == known_definitions()[10]);
    let arc_aliases = vec!["arc"];
    assert(strs_view(arc_aliases@) =~= seq!["arc"@]);
    let arc_suffixes = vec!["The Browser Company\\Arc\\Arc.exe"];
    assert(strs_view(arc_suffixes@) =~= seq!["The Browser Company\\Arc\\Arc.exe"@]);
    let arc = definition(arc_aliases, "Arc", BrowserFamily::Chromium, arc_suffixes);
    assert(arc@ == known_definitions()[11]);
    let helium_aliases = vec!["helium"];
    assert(strs_view(helium_aliases@) =~= seq!["helium"@]);
    let helium_suffixes = vec!["imput\\Helium\\Application\\chrome.exe"];
    assert(strs_view(helium_suffixes@) =~= seq!["imput\\Helium\\Application\\chrome.exe"@]);
    let helium = definition(helium_aliases, "Helium", BrowserFamily::Chromium, helium_suffixes);
    assert(helium@ == known_definitions()[12]);
    let r = vec![
        chrome,
        tor,
        firefox,
        librewolf,
        waterfox,
        floorp,
        zen,
        edge,
        brave,
        opera,
        vivaldi,
        arc,
        helium,
    ];
    assert(definitions_view(r@) =~= known_definitions());
    r
}

/// A path separator on Windows.
pub open spec fn is_path_separator(c: char) -> bool {
    c == '\\' || c == '/'
}

/// The path starts with a drive letter and a colon, as in `C:`.
pub open spec fn has_drive_prefix(t: Seq<char>) -> bool {
    t.len() >= 2 && t[1] == ':' && (('a' <= t[0] && t[0] <= 'z') || ('A' <= t[0] && t[0] <= 'Z'))
}

/// Where the last component of a path (without trailing separators) starts.
pub open spec fn file_name_start(t: Seq<char>) -> int {
    let k = last_index_where(t, |c: char| is_path_separator(c));
    if k >= 0 {
        k + 1
    } else if has_drive_prefix(t) {
        2
    } else {
        0
    }
}

/// The file name of a Windows path: its last component, ignoring trailing
/// separators and trailing `.` components (as `Path::components` drops a `.`
/// that follows a separator); none when that component is empty, `.` or
/// `..`. (The bounds in the first test always hold there; they only show
/// that the path shrinks.)
pub open spec fn file_name_spec(p: Seq<char>) -> Option<Seq<char>>
    decreases p.len(),
{
    let t = trim_end_by(p, |c: char| is_path_separator(c));
    let start = file_name_start(t);
    let name = t.subrange(start, t.len() as int);
    if 0 < start < t.len() && t.len() <= p.len() && name == seq!['.'] && is_path_separator(
        t[start - 1],
    ) {
        file_name_spec(t.subrange(0, start))
    } else if name.len() == 0 || name == seq!['.'] || name == seq!['.', '.'] {
        None
    } else {
        Some(name)
    }
}

/// The file stem of a Windows path: the file name without its last extension
/// (a name whose only dot leads keeps it).
pub open spec fn file_stem_spec(p: Seq<char>) -> Option<Seq<char>> {
    match file_name_spec(p) {
        None => None,
        Some(name) => {
            let d = last_index_where(name, |c: char| c == '.');
            if d > 0 {
                Some(name.subrange(0, d))
            } else {
                Some(name)
            }
        },
    }
}

/// A path with `/` turned into `\` and lower-cased: the form in which paths
/// are compared.
pub open spec fn normalize_path_spec(p: Seq<char>) -> Seq<char> {
    unicode_lowercase(replace_char_spec(p, '/', '\\'))
}

/// The lower-cased executable name of a path, `browser` when it has none.
pub open spec fn exe_name_spec(p: Seq<char>) -> Seq<char> {
    unicode_lowercase(
        match file_stem_spec(p) {
            Some(s) => s,
            None => "browser"@,
        },
    )
}

/// The lower-cased form of a character sequence.
pub fn lowercase_chars(v: &Vec<char>) -> (r: Vec<char>)
    ensures
        r@ == unicode_lowercase(v@),
{
    let s = string_from_chars(v);
    let l = to_lowercase(s.as_str());
    chars_of(l.as_str())
}

/// The path with `/` turned into `\` and lower-cased.
/// For an ASCII path the result is ASCII, holds no `/` and no capital, and
/// normalising it again changes nothing.
pub fn normalize_path(path: &str) -> (r: String)
    ensures
        r@ == normalize_path_spec(path@),
        all_ascii(path@) ==> {
            &&& all_ascii(r@)
            &&& !has_char(r@, '/')
            &&& no_ascii_capitals(r@)
            &&& normalize_path_spec(r@) == r@
        },
{
    let v = chars_of(path);
    let replaced = replace_char(&v, '/', '\\');
    let s = string_from_chars(&replaced);
    let r = to_lowercase(s.as_str());
    proof {
        if all_ascii(path@) {
            assert(all_ascii(s@)) by {
                assert forall|i: int| 0 <= i < s@.len() implies #[trigger] s@[i] <= '\u{7F}' by {
                    assert(s@[i] == (if path@[i] == '/' { '\\' } else { path@[i] }));
                }
            }
            assert(r@ == ascii_lower_seq(s@));
            assert(forall|i: int| 0 <= i < r@.len() ==> r@[i] == ascii_lower(s@[i]));
            assert(forall|i: int| 0 <= i < s@.len() ==> s@[i] != '/');
            assert(all_ascii(r@));
            assert(no_ascii_capitals(r@));
            assert(!has_char(r@, '/'));
            assert(replace_char_spec(r@, '/', '\\') =~= r@);
        }
    }
    r
}

fn last_index_of_separator(t: &Vec<char>) -> (r: Option<usize>)
    ensures
        match r {
            Some(j) => j < t.len() && last_index_where(t@, |c: char| is_path_separator(c)) == j,
            None => last_index_where(t@, |c: char| is_path_separator(c)) == -1,
        },
{
    let mut j: usize = t.len();
    while j > 0
        invariant
            j <= t.len(),
            forall|k: int| j <= k < t.len() ==> !is_path_separator(t@[k]),
        decreases j,
    {
        let c = t[j - 1];
        if c == '\\' || c == '/' {
            proof {
                lemma_last_index_where(t@, |c: char| is_path_separator(c), j - 1);
            }
            return Some(j - 1);
        }
        j = j - 1;
    }
    proof {
        lemma_last_index_where(t@, |c: char| is_path_separator(c), -1);
    }
    None
}

fn last_index_of_dot(t: &Vec<char>) -> (r: Option<usize>)
    ensures
        match r {
            Some(j) => j < t.len() && last_index_where(t@, |c: char| c == '.') == j,
            None => last_index_where(t@, |c: char| c == '.') == -1,
        },
{
    let mut j: usize = t.len();
    while j > 0
        invariant
            j <= t.len(),
            forall|k: int| j <= k < t.len() ==> t@[k] != '.',
        decreases j,
    {
        if t[j - 1] == '.' {
            proof {
                lemma_last_index_where(t@, |c: char| c == '.', j - 1);
            }
            return Some(j - 1);
        }
        j = j - 1;
    }
    proof {
        lemma_last_index_where(t@, |c: char| c == '.', -1);
    }
    None
}

proof fn lemma_trim_end_sep_at(s: Seq<char>, j: int)
    requires
        0 <= j <= s.len(),
        forall|k: int| j <= k < s.len() ==> is_path_separator(s[k]),
        j == 0 || !is_path_separator(s[j - 1]),
    ensures
        trim_end_by(s, |c: char| is_path_separator(c)) == s.subrange(0, j),
    decreases s.len() - j,
{
    if j == s.len() {
        assert(s.subrange(0, s.len() as int) =~= s);
    } else {
        lemma_trim_end_sep_at(s.drop_last(), j);
        assert(s.drop_last().subrange(0, j) =~= s.subrange(0, j));
    }
}

/// The file name of a Windows path: see `file_name_spec`.
fn file_name_chars(p: &Vec<char>) -> (r: Option<Vec<char>>)
    ensures
        match r {
            Some(name) => file_name_spec(p@) == Some(name@),
            None => file_name_spec(p@) is None,
        },
    decreases p.len(),
{
    let mut end: usize = p.len();
    while end > 0
        invariant
            end <= p.len(),
            forall|k: int| end <= k < p.len() ==> is_path_separator(p@[k]),
        ensures
            end <= p.len(),
            forall|k: int| end <= k < p.len() ==> is_path_separator(p@[k]),
            end == 0 || !is_path_separator(p@[end - 1]),
        decreases end,
    {
        let c = p[end - 1];
        if c != '\\' && c != '/' {
            break;
        }
        end = end - 1;
    }
    proof {
        lemma_trim_end_sep_at(p@, end as int);
    }
    let t = slice_chars(p, 0, end);
    let k = last_index_of_separator(&t);
    let start: usize = if let Some(sep) = k {
        sep + 1
    } else if t.len() >= 2 && t[1] == ':' && (('a' <= t[0] && t[0] <= 'z') || ('A' <= t[0]
        && t[0] <= 'Z')) {
        2
    } else {
        0
    };
    assert(t@ == trim_end_by(p@, |c: char| is_path_separator(c)));
    assert(start == file_name_start(t@));
    let name = slice_chars(&t, start, t.len());
    let dot: Vec<char> = vec!['.'];
    let dotdot: Vec<char> = vec!['.', '.'];
    assert(dot@ =~= seq!['.']);
    assert(dotdot@ =~= seq!['.', '.']);
    if 0 < start && start < t.len() && chars_equal(&name, &dot) && (t[start - 1] == '\\' || t[
        start - 1] == '/') {
        let head = slice_chars(&t, 0, start);
        assert(head@ == t@.subrange(0, start as int));
        return file_name_chars(&head);
    }
    if name.len() == 0 || chars_equal(&name, &dot) || chars_equal(&name, &dotdot) {
        return None;
    }
    Some(name)
}

/// The file stem of a Windows path (what `Path::file_stem` gives on Windows
/// for drive-letter and relative paths).
pub fn executable_name_from_path(path: &str) -> (r: Option<String>)
    ensures
        r.deep_view() == file_stem_spec(path@),
{
    let p = chars_of(path);
    let name = match file_name_chars(&p) {
        Some(name) => name,
        None => {
            return None;
        },
    };
    match last_index_of_dot(&name) {
        Some(d) if d > 0 => {
            let stem = slice_chars(&name, 0, d);
            Some(string_from_chars(&stem))
        },
        _ => Some(string_from_chars(&name)),
    }
}

/// The private-mode flag of a browser family.
pub open spec fn family_flag(f: BrowserFamily) -> Option<Seq<char>> {
    match f {
        BrowserFamily::Chromium => Some("--incognito"@),
        BrowserFamily::Firefox => Some("--private-window"@),
        BrowserFamily::Edge => Some("--inprivate"@),
        BrowserFamily::Opera => Some("--private"@),
        BrowserFamily::Unknown => None,
    }
}

/// The private-mode flag of a table entry: its own, else its family's when it
/// uses that.
pub open spec fn definition_flag(d: DefinitionView) -> Option<Seq<char>> {
    match d.private_flag_override {
        Some(f) => Some(f),
        None => if d.use_family_private_flag {
            family_flag(d.family)
        } else {
            None
        },
    }
}

/// What is resolved about a browser from its path and hints.
#[derive(Debug, Clone, PartialEq, Eq)]
pub struct ResolvedBrowserMetadata {
    pub name: String,
    pub family: BrowserFamily,
    pub private_flag: Option<String>,
}

pub struct MetadataView {
    pub name: Seq<char>,
    pub family: BrowserFamily,
    pub private_flag: Option<Seq<char>>,
}

impl View for ResolvedBrowserMetadata {
    type V = MetadataView;

    open spec fn view(&self) -> MetadataView {
        MetadataView {
            name: self.name@,
            family: self.family,
            private_flag: self.private_flag.deep_view(),
        }
    }
}

pub open spec fn display_name_matches(d: DefinitionView, name: Seq<char>) -> bool {
    eq_ignore_ascii_case_spec(d.display_name, name)
}

pub open spec fn suffix_matches(d: DefinitionView, normalized_path: Seq<char>) -> bool {
    exists|j: int|
        0 <= j < d.suffixes.len() && ends_with(
            normalized_path,
            normalize_path_spec(#[trigger] d.suffixes[j]),
        )
}

pub open spec fn alias_matches(d: DefinitionView, exe: Seq<char>) -> bool {
    exists|j: int| 0 <= j < d.aliases.len() && #[trigger] d.aliases[j] == exe
}

/// Table indices whose entry has the display name `h` (ignoring ASCII case).
pub open spec fn name_pred(h: Seq<char>) -> spec_fn(int) -> bool {
    |i: int| display_name_matches(known_definitions()[i], h)
}

/// Table indices whose entry has an install-path suffix that ends the path.
pub open spec fn suffix_pred(path: Seq<char>) -> spec_fn(int) -> bool {
    |i: int| suffix_matches(known_definitions()[i], normalize_path_spec(path))
}

/// Table indices whose entry has the path's executable name as an alias.
pub open spec fn alias_pred(path: Seq<char>) -> spec_fn(int) -> bool {
    |i: int| alias_matches(known_definitions()[i], exe_name_spec(path))
}

/// The first table entry whose display name matches the hint, ignoring ASCII case.
pub open spec fn definition_by_name(hint: Option<Seq<char>>) -> Option<int> {
    match hint {
        Some(h) => first_index(known_definitions().len() as int, name_pred(h)),
        None => None,
    }
}

/// The first table entry with an install-path suffix that ends the path.
pub open spec fn definition_by_suffix(path: Seq<char>) -> Option<int> {
    first_index(known_definitions().len() as int, suffix_pred(path))
}

/// The first table entry with an alias equal to the executable name of the path.
pub open spec fn definition_by_alias(path: Seq<char>) -> Option<int> {
    first_index(known_definitions().len() as int, alias_pred(path))
}

pub open spec fn metadata_of_definition(d: DefinitionView) -> MetadataView {
    MetadataView { name: d.display_name, family: d.family, private_flag: definition_flag(d) }
}

/// What is known of a browser: from the entry named by the display-name hint,
/// else the entry whose install path ends the path, else the entry with the
/// executable's name as an alias; otherwise an unknown browser named by the
/// hint, else the registry key (underscores read as spaces), else the
/// executable name.
pub open spec fn resolve_metadata_spec(
    path: Seq<char>,
    display_name_hint: Option<Seq<char>>,
    registry_key_hint: Option<Seq<char>>,
) -> MetadataView {
    let defs = known_definitions();
    match definition_by_name(display_name_hint) {
        Some(i) => metadata_of_definition(defs[i]),
        None => match definition_by_suffix(path) {
            Some(i) => metadata_of_definition(defs[i]),
            None => match definition_by_alias(path) {
                Some(i) => metadata_of_definition(defs[i]),
                None => MetadataView {
                    name: match (if display_name_hint is Some {
                        display_name_hint
                    } else {
                        registry_key_hint
                    }) {
                        Some(v) => replace_char_spec(v, '_', ' '),
                        None => exe_name_spec(path),
                    },
                    family: BrowserFamily::Unknown,
                    private_flag: None,
                },
            },
        },
    }
}

/// The path matches a known browser exactly: by install path, display name
/// or executable alias.
pub open spec fn known_match_spec(path: Seq<char>, display_name_hint: Option<Seq<char>>) -> bool {
    definition_by_suffix(path) is Some || definition_by_name(display_name_hint) is Some
        || definition_by_alias(path) is Some
}

/// The private-mode flag of a family.
pub fn default_private_flag_for_family(family: BrowserFamily) -> (r: Option<String>)
    ensures
        r.deep_view() == family_flag(family),
{
    match family {
        BrowserFamily::Chromium => Some(owned("--incognito")),
        BrowserFamily::Firefox => Some(owned("--private-window")),
        BrowserFamily::Edge => Some(owned("--inprivate")),
        BrowserFamily::Opera => Some(owned("--private")),
        BrowserFamily::Unknown => None,
    }
}

/// The private-mode flag of a table entry.
pub fn resolved_private_flag_for_definition(definition: &KnownBrowserDefinition) -> (r: Option<
    String,
>)
    ensures
        r.deep_view() == definition_flag(definition@),
{
    match definition.private_flag_override {
        Some(flag) => Some(owned(flag)),
        None => if definition.use_family_private_flag {
            default_private_flag_for_family(definition.family)
        } else {
            None
        },
    }
}

fn metadata_from_definition(definition: &KnownBrowserDefinition) -> (r: ResolvedBrowserMetadata)
    ensures
        r@ == metadata_of_definition(definition@),
{
    ResolvedBrowserMetadata {
        name: owned(definition.display_name),
        family: definition.family,
        private_flag: resolved_private_flag_for_definition(definition),
    }
}

/// Index in the table of the entry whose display name matches `name`,
/// ignoring ASCII case.
pub fn find_known_browser_definition_by_display_name(name: &str) -> (r: Option<usize>)
    ensures
        r matches Some(i) ==> i < known_definitions().len(),
        match r {
            Some(i) => definition_by_name(Some(name@)) == Some(i as int),
            None => definition_by_name(Some(name@)) is None,
        },
{
    let defs = known_browser_definitions();
    let target = chars_of(name);
    let ghost pred = name_pred(name@);
    let mut i: usize = 0;
    while i < defs.len()
        invariant
            definitions_view(defs@) == known_definitions(),
            pred == name_pred(name@),
            target@ == name@,
            i <= defs.len(),
            forall|k: int| 0 <= k < i ==> !#[trigger] pred(k),
        decreases defs.len() - i,
    {
        let display = chars_of(defs[i].display_name);
        assert(defs@[i as int]@ == known_definitions()[i as int]);
        assert(pred(i as int) == display_name_matches(known_definitions()[i as int], name@));
        if eq_ignore_ascii_case(&display, &target) {
            proof {
                lemma_first_index(known_definitions().len() as int, pred);
            }
            return Some(i);
        }
        i = i + 1;
    }
    proof {
        lemma_first_index(known_definitions().len() as int, pred);
    }
    None
}

fn definition_has_suffix(definition: &KnownBrowserDefinition, normalized: &Vec<char>) -> (r: bool)
    ensures
        r == suffix_matches(definition@, normalized@),
{
    let suffixes = &definition.known_install_path_suffixes;
    let mut j: usize = 0;
    while j < suffixes.len()
        invariant
            j <= suffixes.len(),
            suffixes == &definition.known_install_path_suffixes,
            forall|k: int|
                0 <= k < j ==> !ends_with(
                    normalized@,
                    normalize_path_spec(#[trigger] definition@.suffixes[k]),
                ),
        decreases suffixes.len() - j,
    {
        let suffix = normalize_path(suffixes[j]);
        let suffix_chars = chars_of(suffix.as_str());
        assert(definition@.suffixes[j as int] == suffixes@[j as int]@);
        if ends_with_exec(normalized, &suffix_chars) {
            return true;
        }
        j = j + 1;
    }
    false
}

fn definition_has_alias(definition: &KnownBrowserDefinition, exe: &Vec<char>) -> (r: bool)
    ensures
        r == alias_matches(definition@, exe@),
{
    let aliases = &definition.executable_aliases;
    let mut j: usize = 0;
    while j < aliases.len()
        invariant
            j <= aliases.len(),
            aliases == &definition.executable_aliases,
            forall|k: int| 0 <= k < j ==> #[trigger] definition@.aliases[k] != exe@,
        decreases aliases.len() - j,
    {
        let alias = chars_of(aliases[j]);
        assert(definition@.aliases[j as int] == aliases@[j as int]@);
        if chars_equal(&alias, exe) {
            return true;
        }
        j = j + 1;
    }
    false
}

fn find_definition_by_suffix(defs: &Vec<KnownBrowserDefinition>, path: &str) -> (r: Option<usize>)
    requires
        definitions_view(defs@) == known_definitions(),
    ensures
        r matches Some(i) ==> i < defs.len(),
        match r {
            Some(i) => definition_by_suffix(path@) == Some(i as int),
            None => definition_by_suffix(path@) is None,
        },
{
    let normalized = normalize_path(path);
    let np = chars_of(normalized.as_str());
    let ghost pred = suffix_pred(path@);
    let mut i: usize = 0;
    while i < defs.len()
        invariant
            definitions_view(defs@) == known_definitions(),
            np@ == normalize_path_spec(path@),
            pred == suffix_pred(path@),
            i <= defs.len(),
            forall|k: int| 0 <= k < i ==> !#[trigger] pred(k),
        decreases defs.len() - i,
    {
        assert(defs@[i as int]@ == known_definitions()[i as int]);
        assert(pred(i as int) == suffix_matches(known_definitions()[i as int], np@));
        if definition_has_suffix(&defs[i], &np) {
            proof {
                lemma_first_index(known_definitions().len() as int, pred);
            }
            return Some(i);
        }
        i = i + 1;
    }
    proof {
        lemma_first_index(known_definitions().len() as int, pred);
    }
    None
}

/// The lower-cased executable name of a path, `browser` when it has none.
pub fn lowercase_executable_name(path: &str) -> (r: Vec<char>)
    ensures
        r@ == exe_name_spec(path@),
{
    let stem = match executable_name_from_path(path) {
        Some(s) => s,
        None => owned("browser"),
    };
    let lowered = to_lowercase(stem.as_str());
    chars_of(lowered.as_str())
}

fn find_definition_by_alias(defs: &Vec<KnownBrowserDefinition>, path: &str) -> (r: Option<usize>)
    requires
        definitions_view(defs@) == known_definitions(),
    ensures
        r matches Some(i) ==> i < defs.len(),
        match r {
            Some(i) => definition_by_alias(path@) == Some(i as int),
            None => definition_by_alias(path@) is None,
        },
{
    let exe = lowercase_executable_name(path);
    let ghost pred = alias_pred(path@);
    let mut i: usize = 0;
    while i < defs.len()
        invariant
            definitions_view(defs@) == known_definitions(),
            exe@ == exe_name_spec(path@),
            pred == alias_pred(path@),
            i <= defs.len(),
            forall|k: int| 0 <= k < i ==> !#[trigger] pred(k),
        decreases defs.len() - i,
    {
        assert(defs@[i as int]@ == known_definitions()[i as int]);
        assert(pred(i as int) == alias_matches(known_definitions()[i as int], exe@));
        if definition_has_alias(&defs[i], &exe) {
            proof {
                lemma_first_index(known_definitions().len() as int, pred);
            }
            return Some(i);
        }
        i = i + 1;
    }
    proof {
        lemma_first_index(known_definitions().len() as int, pred);
    }
    None
}

fn find_definition_by_hint(display_name_hint: Option<&str>) -> (r: Option<usize>)
    ensures
        r matches Some(i) ==> i < known_definitions().len(),
        match r {
            Some(i) => definition_by_name(opt_str_view(display_name_hint)) == Some(i as int),
            None => definition_by_name(opt_str_view(display_name_hint)) is None,
        },
{
    match display_name_hint {
        Some(name) => find_known_browser_definition_by_display_name(name),
        None => None,
    }
}

/// Everything known of a browser from its path, display-name hint and
/// registry-key hint.
pub fn resolve_browser_metadata(
    path: &str,
    display_name_hint: Option<&str>,
    registry_key_hint: Option<&str>,
) -> (r: ResolvedBrowserMetadata)
    ensures
        r@ == resolve_metadata_spec(
            path@,
            opt_str_view(display_name_hint),
            opt_str_view(registry_key_hint),
        ),
{
    let defs = known_browser_definitions();
    if let Some(i) = find_definition_by_hint(display_name_hint) {
        assert(defs@[i as int]@ == known_definitions()[i as int]);
        return metadata_from_definition(&defs[i]);
    }
    if let Some(i) = find_definition_by_suffix(&defs, path) {
        assert(defs@[i as int]@ == known_definitions()[i as int]);
        return metadata_from_definition(&defs[i]);
    }
    if let Some(i) = find_definition_by_alias(&defs, path) {
        assert(defs@[i as int]@ == known_definitions()[i as int]);
        return metadata_from_definition(&defs[i]);
    }
    let name_source = if display_name_hint.is_some() {
        display_name_hint
    } else {
        registry_key_hint
    };
    let name = match name_source {
        Some(value) => {
            let v = chars_of(value);
            let replaced = replace_char(&v, '_', ' ');
            string_from_chars(&replaced)
        },
        None => {
            let exe = lowercase_executable_name(path);
            string_from_chars(&exe)
        },
    };
    ResolvedBrowserMetadata { name, family: BrowserFamily::Unknown, private_flag: None }
}

/// Whether the path is an exact match for a known browser.
pub fn is_known_browser_match(path: &str, display_name_hint: Option<&str>) -> (r: bool)
    ensures
        r == known_match_spec(path@, opt_str_view(display_name_hint)),
{
    let defs = known_browser_definitions();
    if find_definition_by_suffix(&defs, path).is_some() {
        return true;
    }
    if find_definition_by_hint(display_name_hint).is_some() {
        return true;
    }
    find_definition_by_alias(&defs, path).is_some()
}

pub open spec fn chromium_tokens() -> Seq<Seq<char>> {
    seq!["chromium"@, "chrome"@, "brave"@, "vivaldi"@, "arc"@, "helium"@]
}

pub open spec fn firefox_tokens() -> Seq<Seq<char>> {
    seq!["firefox"@, "librewolf"@, "waterfox"@, "floorp"@, "zen"@, "tor browser"@]
}

pub open spec fn edge_tokens() -> Seq<Seq<char>> {
    seq!["msedge"@, "microsoft edge"@, "\\edge\\"@]
}

pub open spec fn opera_tokens() -> Seq<Seq<char>> {
    seq!["opera"@, "\\opera\\"@]
}

/// Some token occurs in the text.
pub open spec fn any_token_in(hay: Seq<char>, tokens: Seq<Seq<char>>) -> bool {
    exists|i: int| 0 <= i < tokens.len() && contains_seq(hay, #[trigger] tokens[i])
}

/// Words that mark a Chromium-family browser.
pub fn chromium_family_tokens() -> (r: Vec<&'static str>)
    ensures
        strs_view(r@) == chromium_tokens(),
{
    let r = vec!["chromium", "chrome", "brave", "vivaldi", "arc", "helium"];
    assert(strs_view(r@) =~= chromium_tokens());
    r
}

/// Words that mark a Firefox-family browser.
pub fn firefox_family_tokens() -> (r: Vec<&'static str>)
    ensures
        strs_view(r@) == firefox_tokens(),
{
    let r = vec!["firefox", "librewolf", "waterfox", "floorp", "zen", "tor browser"];
    assert(strs_view(r@) =~= firefox_tokens());
    r
}

/// Words that mark an Edge-family browser.
pub fn edge_family_tokens() -> (r: Vec<&'static str>)
    ensures
        strs_view(r@) == edge_tokens(),
{
    let r = vec!["msedge", "microsoft edge", "\\edge\\"];
    assert(strs_view(r@) =~= edge_tokens());
    r
}

/// Words that mark an Opera-family browser.
pub fn opera_family_tokens() -> (r: Vec<&'static str>)
    ensures
        strs_view(r@) == opera_tokens(),
{
    let r = vec!["opera", "\\opera\\"];
    assert(strs_view(r@) =~= opera_tokens());
    r
}

fn any_token(hay: &Vec<char>, tokens: &Vec<&'static str>) -> (r: bool)
    ensures
        r == any_token_in(hay@, strs_view(tokens@)),
{
    let mut i: usize = 0;
    while i < tokens.len()
        invariant
            i <= tokens.len(),
            forall|k: int| 0 <= k < i ==> !contains_seq(hay@, #[trigger] strs_view(tokens@)[k]),
        decreases tokens.len() - i,
    {
        let token = chars_of(tokens[i]);
        assert(strs_view(tokens@)[i as int] == token@);
        if contains_exec(hay, &token) {
            return true;
        }
        i = i + 1;
    }
    false
}

/// The key under which a family is reported.
pub open spec fn family_key_spec(f: BrowserFamily) -> Option<Seq<char>> {
    match f {
        BrowserFamily::Chromium => Some("chromium"@),
        BrowserFamily::Firefox => Some("firefox"@),
        BrowserFamily::Edge => Some("edge"@),
        BrowserFamily::Opera => Some("opera"@),
        BrowserFamily::Unknown => None,
    }
}

/// The key under which a family is reported.
pub fn browser_family_key(family: BrowserFamily) -> (r: Option<&'static str>)
    ensures
        opt_str_view(r) == family_key_spec(family),
{
    match family {
        BrowserFamily::Chromium => Some("chromium"),
        BrowserFamily::Firefox => Some("firefox"),
        BrowserFamily::Edge => Some("edge"),
        BrowserFamily::Opera => Some("opera"),
        BrowserFamily::Unknown => None,
    }
}

/// The family name shown to the user.
pub open spec fn family_label_spec(f: Option<BrowserFamily>) -> Seq<char> {
    match f {
        Some(BrowserFamily::Chromium) => "Chromium"@,
        Some(BrowserFamily::Firefox) => "Firefox"@,
        Some(BrowserFamily::Edge) => "Edge"@,
        Some(BrowserFamily::Opera) => "Opera"@,
        _ => "supported"@,
    }
}

/// The family name shown to the user.
pub fn browser_family_label(family: Option<BrowserFamily>) -> (r: &'static str)
    ensures
        r@ == family_label_spec(family),
{
    match family {
        Some(BrowserFamily::Chromium) => "Chromium",
        Some(BrowserFamily::Firefox) => "Firefox",
        Some(BrowserFamily::Edge) => "Edge",
        Some(BrowserFamily::Opera) => "Opera",
        _ => "supported",
    }
}

/// The name given to a browser: the trimmed hint, else the executable's file
/// stem, else `Browser`.
pub open spec fn preferred_name_spec(hint: Seq<char>, path: Seq<char>) -> Seq<char> {
    let t = trim_spec(hint);
    if t.len() > 0 {
        t
    } else {
        match file_stem_spec(path) {
            Some(s) => s,
            None => "Browser"@,
        }
    }
}

/// The name given to a browser: the trimmed hint, else the executable's file
/// stem, else `Browser`.
pub fn preferred_browser_name(display_name_hint: &str, path: &str) -> (r: String)
    ensures
        r@ == preferred_name_spec(display_name_hint@, path@),
{
    let hint = chars_of(display_name_hint);
    let trimmed = trim(&hint);
    if trimmed.len() > 0 {
        return string_from_chars(&trimmed);
    }
    match executable_name_from_path(path) {
        Some(stem) => stem,
        None => owned("Browser"),
    }
}

/// How an executable was recognised.
#[derive(Debug, Clone, PartialEq, Eq)]
pub struct BrowserRecognitionResult {
    pub recognition: BrowserRecognition,
    pub name: String,
    pub family: Option<BrowserFamily>,
    pub private_flag: Option<String>,
}

pub struct RecognitionView {
    pub recognition: BrowserRecognition,
    pub name: Seq<char>,
    pub family: Option<BrowserFamily>,
    pub private_flag: Option<Seq<char>>,
}

impl View for BrowserRecognitionResult {
    type V = RecognitionView;

    open spec fn view(&self) -> RecognitionView {
        RecognitionView {
            recognition: self.recognition,
            name: self.name@,
            family: self.family,
            private_flag: self.private_flag.deep_view(),
        }
    }
}

pub open spec fn recognition_result_view(r: Result<BrowserRecognitionResult, String>) -> Result<
    RecognitionView,
    Seq<char>,
> {
    match r {
        Ok(v) => Ok(v@),
        Err(e) => Err(e@),
    }
}

pub open spec fn hint_or_empty(h: Option<Seq<char>>) -> Seq<char> {
    match h {
        Some(v) => v,
        None => Seq::empty(),
    }
}

/// The text searched for family words: normalised path, lower-cased hint and
/// executable name, separated by spaces.
pub open spec fn haystack_spec(path: Seq<char>, hint: Option<Seq<char>>) -> Seq<char> {
    normalize_path_spec(path) + seq![' '] + unicode_lowercase(hint_or_empty(hint)) + seq![' ']
        + exe_name_spec(path)
}

pub open spec fn family_recognition(
    name: Seq<char>,
    family: BrowserFamily,
    private_flag: Option<Seq<char>>,
) -> RecognitionView {
    RecognitionView {
        recognition: BrowserRecognition::RecognizedFamily,
        name,
        family: Some(family),
        private_flag,
    }
}

/// How an executable is recognised: as a known browser or one of a known
/// family by the table; else by family words in its path, hint or name (Tor
/// first, then Firefox, Edge, Opera and Chromium words); else as an
/// unverified manual browser. A blank path is refused.
pub open spec fn classify_spec(path: Seq<char>, hint: Option<Seq<char>>) -> Result<
    RecognitionView,
    Seq<char>,
> {
    if trim_spec(path).len() == 0 {
        Err("Browser executable path cannot be empty."@)
    } else {
        let m = resolve_metadata_spec(path, hint, None);
        if m.family != BrowserFamily::Unknown {
            Ok(
                RecognitionView {
                    recognition: if known_match_spec(path, hint) {
                        BrowserRecognition::Known
                    } else {
                        BrowserRecognition::RecognizedFamily
                    },
                    name: m.name,
                    family: Some(m.family),
                    private_flag: m.private_flag,
                },
            )
        } else {
            let hay = haystack_spec(path, hint);
            let preferred = preferred_name_spec(hint_or_empty(hint), path);
            if contains_seq(hay, "tor browser"@) || contains_seq(
                hay,
                "\\tor\\browser\\firefox.exe"@,
            ) {
                Ok(family_recognition("Tor Browser"@, BrowserFamily::Firefox, None))
            } else if any_token_in(hay, firefox_tokens()) {
                Ok(
                    family_recognition(
                        preferred,
                        BrowserFamily::Firefox,
                        family_flag(BrowserFamily::Firefox),
                    ),
                )
            } else if any_token_in(hay, edge_tokens()) {
                Ok(
                    family_recognition(
                        preferred,
                        BrowserFamily::Edge,
                        family_flag(BrowserFamily::Edge),
                    ),
                )
            } else if any_token_in(hay, opera_tokens()) {
                Ok(
                    family_recognition(
                        preferred,
                        BrowserFamily::Opera,
                        family_flag(BrowserFamily::Opera),
                    ),
                )
            } else if any_token_in(hay, chromium_tokens()) {
                Ok(
                    family_recognition(
                        preferred,
                        BrowserFamily::Chromium,
                        family_flag(BrowserFamily::Chromium),
                    ),
                )
            } else {
                Ok(
                    RecognitionView {
                        recognition: BrowserRecognition::UnverifiedManual,
                        name: preferred,
                        family: None,
                        private_flag: None,
                    },
                )
            }
        }
    }
}

fn family_result(name: String, family: BrowserFamily) -> (r: BrowserRecognitionResult)
    ensures
        r@ == family_recognition(name@, family, family_flag(family)),
{
    BrowserRecognitionResult {
        recognition: BrowserRecognition::RecognizedFamily,
        name,
        family: Some(family),
        private_flag: default_private_flag_for_family(family),
    }
}

/// Recognises the executable at `path`, with an optional display-name hint.
pub fn classify_browser_path(path: &str, display_name_hint: Option<&str>) -> (r: Result<
    BrowserRecognitionResult,
    String,
>)
    ensures
        recognition_result_view(r) == classify_spec(path@, opt_str_view(display_name_hint)),
{
    let path_chars = chars_of(path);
    let trimmed = trim(&path_chars);
    if trimmed.len() == 0 {
        return Err(owned("Browser executable path cannot be empty."));
    }
    let metadata = resolve_browser_metadata(path, display_name_hint, None);
    if metadata.family != BrowserFamily::Unknown {
        let known = is_known_browser_match(path, display_name_hint);
        return Ok(
            BrowserRecognitionResult {
                recognition: if known {
                    BrowserRecognition::Known
                } else {
                    BrowserRecognition::RecognizedFamily
                },
                name: metadata.name,
                family: Some(metadata.family),
                private_flag: metadata.private_flag,
            },
        );
    }
    let normalized = normalize_path(path);
    let empty: Vec<char> = Vec::new();
    let hint_chars = match display_name_hint {
        Some(h) => chars_of(h),
        None => empty,
    };
    assert(hint_chars@ == hint_or_empty(opt_str_view(display_name_hint)));
    let hint_string = string_from_chars(&hint_chars);
    let hint_lower = to_lowercase(hint_string.as_str());
    let stem = lowercase_executable_name(path);
    let space: Vec<char> = vec![' '];
    let hay = concat_chars(&chars_of(normalized.as_str()), &space);
    let hay = concat_chars(&hay, &chars_of(hint_lower.as_str()));
    let hay = concat_chars(&hay, &space);
    let hay = concat_chars(&hay, &stem);
    assert(hay@ =~= haystack_spec(path@, opt_str_view(display_name_hint)));
    let preferred = preferred_browser_name(hint_string.as_str(), path);
    if contains_exec(&hay, &chars_of("tor browser")) || contains_exec(
        &hay,
        &chars_of("\\tor\\browser\\firefox.exe"),
    ) {
        return Ok(
            BrowserRecognitionResult {
                recognition: BrowserRecognition::RecognizedFamily,
                name: owned("Tor Browser"),
                family: Some(BrowserFamily::Firefox),
                private_flag: None,
            },
        );
    }
    if any_token(&hay, &firefox_family_tokens()) {
        return Ok(family_result(preferred, BrowserFamily::Firefox));
    }
    if any_token(&hay, &edge_family_tokens()) {
        return Ok(family_result(preferred, BrowserFamily::Edge));
    }
    if any_token(&hay, &opera_family_tokens()) {
        return Ok(family_result(preferred, BrowserFamily::Opera));
    }
    if any_token(&hay, &chromium_family_tokens()) {
        return Ok(family_result(preferred, BrowserFamily::Chromium));
    }
    Ok(
        BrowserRecognitionResult {
            recognition: BrowserRecognition::UnverifiedManual,
            name: preferred,
            family: None,
            private_flag: None,
        },
    )
}

/// A configured private flag, trimmed; none when it is blank.
pub open spec fn trimmed_flag_spec(f: Option<Seq<char>>) -> Option<Seq<char>> {
    match f {
        Some(v) => if trim_spec(v).len() > 0 {
            Some(trim_spec(v))
        } else {
            None
        },
        None => None,
    }
}

/// The private flag that a browser may be launched with: a recognised browser
/// gets its own flag and accepts no other; an unverified browser gets none and
/// accepts none.
pub open spec fn private_flag_check_spec(
    flag: Option<Seq<char>>,
    rec: RecognitionView,
    name: Seq<char>,
) -> Result<Option<Seq<char>>, Seq<char>> {
    let t = trimmed_flag_spec(flag);
    if rec.recognition == BrowserRecognition::UnverifiedManual {
        if t is Some {
            Err("Unverified manual browser '"@ + name + "' cannot use a private flag."@)
        } else {
            Ok(None)
        }
    } else {
        match (t, rec.private_flag) {
            (Some(f), Some(e)) => if f != e {
                Err("Browser '"@ + name + "' only allows the private flag '"@ + e + "'."@)
            } else {
                Ok(Some(e))
            },
            (None, Some(e)) => Ok(Some(e)),
            (Some(_), None) => Err(
                "Browser '"@ + name + "' does not support a configured private flag."@,
            ),
            (None, None) => Ok(None),
        }
    }
}

pub open spec fn flag_result_view(r: Result<Option<String>, String>) -> Result<
    Option<Seq<char>>,
    Seq<char>,
> {
    match r {
        Ok(v) => Ok(v.deep_view()),
        Err(e) => Err(e@),
    }
}

/// Checks a configured private flag against what the recognised browser allows.
pub fn validate_private_flag_value(
    private_flag: Option<&str>,
    recognition: &BrowserRecognitionResult,
    browser_name: &str,
    manual_trust: Option<ManualBrowserTrust>,
) -> (r: Result<Option<String>, String>)
    ensures
        flag_result_view(r) == private_flag_check_spec(
            opt_str_view(private_flag),
            recognition@,
            browser_name@,
        ),
{
    let trimmed: Option<Vec<char>> = match private_flag {
        Some(f) => {
            let t = trim(&chars_of(f));
            if t.len() > 0 {
                Some(t)
            } else {
                None
            }
        },
        None => None,
    };
    if recognition.recognition == BrowserRecognition::UnverifiedManual {
        if trimmed.is_some() {
            return Err(
                join3("Unverified manual browser '", browser_name, "' cannot use a private flag."),
            );
        }
        if manual_trust == Some(ManualBrowserTrust::UserConfirmed) {
            return Ok(None);
        } else {
            return Ok(None);
        }
    }
    match (trimmed, &recognition.private_flag) {
        (Some(flag), Some(expected)) => {
            let expected_chars = chars_of(expected.as_str());
            if !chars_equal(&flag, &expected_chars) {
                Err(
                    join5(
                        "Browser '",
                        browser_name,
                        "' only allows the private flag '",
                        expected.as_str(),
                        "'.",
                    ),
                )
            } else {
                Ok(Some(expected.clone()))
            }
        },
        (None, Some(expected)) => Ok(Some(expected.clone())),
        (Some(_), None) => Err(
            join3("Browser '", browser_name, "' does not support a configured private flag."),
        ),
        (None, None) => Ok(None),
    }
}

fn opt_as_str(o: &Option<String>) -> (r: Option<&str>)
    ensures
        opt_str_ref_view(r) == o.deep_view(),
{
    match o {
        Some(s) => Some(s.as_str()),
        None => None,
    }
}

pub open spec fn opt_str_ref_view(o: Option<&str>) -> Option<Seq<char>> {
    match o {
        Some(s) => Some(s@),
        None => None,
    }
}

/// Checks the private flag configured for a browser entry.
pub fn validate_private_flag(
    browser: &BrowserConfig,
    recognition: &BrowserRecognitionResult,
) -> (r: Result<Option<String>, String>)
    ensures
        flag_result_view(r) == private_flag_check_spec(
            browser@.private_flag,
            recognition@,
            browser@.name,
        ),
{
    let flag = opt_as_str(&browser.private_flag);
    proof {
        assert(opt_str_view(flag) == opt_str_ref_view(flag));
    }
    validate_private_flag_value(flag, recognition, browser.name.as_str(), browser.manual_trust)
}

/// Checks the private flag of a request to add a browser by hand.
pub fn validate_private_flag_for_request(
    request: &ManualBrowserValidationRequest,
    recognition: &BrowserRecognitionResult,
) -> (r: Result<Option<String>, String>)
    ensures
        flag_result_view(r) == private_flag_check_spec(
            request.private_flag.deep_view(),
            recognition@,
            request.name@,
        ),
{
    let flag = opt_as_str(&request.private_flag);
    proof {
        assert(opt_str_view(flag) == opt_str_ref_view(flag));
    }
    validate_private_flag_value(
        flag,
        recognition,
        request.name.as_str(),
        if request.allow_user_confirmed {
            Some(ManualBrowserTrust::UserConfirmed)
        } else {
            None
        },
    )
}

/// What a browser is launched with once it passes the checks.
#[derive(Debug, Clone, PartialEq, Eq)]
pub struct ValidatedBrowserLaunch {
    pub executable_path: String,
    pub private_flag: Option<String>,
}

pub struct LaunchView {
    pub executable_path: Seq<char>,
    pub private_flag: Option<Seq<char>>,
}

pub open spec fn launch_result_view(r: Result<ValidatedBrowserLaunch, String>) -> Result<
    LaunchView,
    Seq<char>,
> {
    match r {
        Ok(v) => Ok(
            LaunchView { executable_path: v.executable_path@, private_flag: v.private_flag.deep_view() },
        ),
        Err(e) => Err(e@),
    }
}

/// The path ends in `.exe`, ignoring ASCII case.
pub open spec fn is_exe_path(path: Seq<char>) -> bool {
    ends_with(ascii_lower_seq(path), ".exe"@)
}

/// Whether a browser entry may be launched, given whether its executable
/// exists: its trimmed path must be a `.exe` that exists, its private flag
/// must be the one its recognition allows, and a manual entry that is not
/// recognised must have been confirmed by the user.
pub open spec fn launch_check_spec(b: BrowserView, exists: bool) -> Result<LaunchView, Seq<char>> {
    let path = trim_spec(b.path);
    if path.len() == 0 {
        Err("Browser '"@ + b.name + "' is missing an executable path."@)
    } else if !is_exe_path(path) {
        Err("Browser '"@ + b.name + "' must point to a .exe executable."@)
    } else if !exists {
        Err("Browser executable does not exist: "@ + path)
    } else {
        match classify_spec(path, Some(b.name)) {
            Err(e) => Err(e),
            Ok(rec) => match private_flag_check_spec(b.private_flag, rec, b.name) {
                Err(e) => Err(e),
                Ok(flag) => if b.source == BrowserSource::Manual && rec.recognition
                    == BrowserRecognition::UnverifiedManual && b.manual_trust != Some(
                    ManualBrowserTrust::UserConfirmed,
                ) {
                    Err(
                        "Manual browser '"@ + b.name
                            + "' needs explicit confirmation before Hops can launch it."@,
                    )
                } else {
                    Ok(LaunchView { executable_path: path, private_flag: flag })
                },
            },
        }
    }
}

/// The checks before a launch, given whether the executable exists.
pub fn check_browser_for_launch(browser: &BrowserConfig, executable_exists: bool) -> (r: Result<
    ValidatedBrowserLaunch,
    String,
>)
    ensures
        launch_result_view(r) == launch_check_spec(browser@, executable_exists),
{
    let path = trim(&chars_of(browser.path.as_str()));
    if path.len() == 0 {
        return Err(join3("Browser '", browser.name.as_str(), "' is missing an executable path."));
    }
    if !ends_with_exec(&ascii_lowercase(&path), &chars_of(".exe")) {
        return Err(join3("Browser '", browser.name.as_str(), "' must point to a .exe executable."));
    }
    let path_string = string_from_chars(&path);
    if !executable_exists {
        return Err(join2("Browser executable does not exist: ", path_string.as_str()));
    }
    let recognition = classify_browser_path(path_string.as_str(), Some(browser.name.as_str()))?;
    let private_flag = validate_private_flag(browser, &recognition)?;
    if browser.source == BrowserSource::Manual && recognition.recognition
        == BrowserRecognition::UnverifiedManual && browser.manual_trust != Some(
        ManualBrowserTrust::UserConfirmed,
    ) {
        return Err(
            join3(
                "Manual browser '",
                browser.name.as_str(),
                "' needs explicit confirmation before Hops can launch it.",
            ),
        );
    }
    Ok(ValidatedBrowserLaunch { executable_path: path_string, private_flag })
}

/// Whether the trimmed path is a non-blank `.exe` path, so that asking the
/// disk whether it exists is needed.
fn needs_existence_check(path: &str) -> (r: Option<String>)
    ensures
        match r {
            Some(p) => p@ == trim_spec(path@) && trim_spec(path@).len() > 0 && is_exe_path(
                trim_spec(path@),
            ),
            None => trim_spec(path@).len() == 0 || !is_exe_path(trim_spec(path@)),
        },
{
    let trimmed = trim(&chars_of(path));
    if trimmed.len() == 0 || !ends_with_exec(&ascii_lowercase(&trimmed), &chars_of(".exe")) {
        None
    } else {
        Some(string_from_chars(&trimmed))
    }
}

/// The checks before a browser is launched. Whether the executable exists is
/// read from the disk; the result is that of `check_browser_for_launch` for
/// what the disk answered.
pub fn validate_browser_for_launch(browser: &BrowserConfig) -> (r: Result<
    ValidatedBrowserLaunch,
    String,
>)
    ensures
        exists|e: bool| launch_result_view(r) == launch_check_spec(browser@, e),
{
    check_browser_for_launch(browser, executable_exists(browser))
}

/// Asks the disk whether the browser's trimmed executable path exists, where
/// that path is a non-blank `.exe` path; elsewhere the launch checks fail
/// before they look, and the answer is false.
pub(crate) fn executable_exists(browser: &BrowserConfig) -> (r: bool)
    ensures
        r ==> trim_spec(browser.path@).len() > 0 && is_exe_path(trim_spec(browser.path@)),
{
    match needs_existence_check(browser.path.as_str()) {
        Some(p) => path_exists(p.as_str()),
        None => false,
    }
}

pub struct ManualResultView {
    pub recognition: BrowserRecognition,
    pub manual_trust: Option<ManualBrowserTrust>,
    pub browser_name: Seq<char>,
    pub private_flag: Option<Seq<char>>,
    pub family: Option<Seq<char>>,
    pub icon_key: Option<Seq<char>>,
    pub requires_confirmation: bool,
    pub message: Seq<char>,
}

pub open spec fn manual_result_view(r: Result<ManualBrowserValidationResult, String>) -> Result<
    ManualResultView,
    Seq<char>,
> {
    match r {
        Ok(v) => Ok(
            ManualResultView {
                recognition: v.recognition,
                manual_trust: v.manual_trust,
                browser_name: v.browser_name@,
                private_flag: v.private_flag.deep_view(),
                family: v.family.deep_view(),
                icon_key: v.icon_key.deep_view(),
                requires_confirmation: v.requires_confirmation,
                message: v.message@,
            },
        ),
        Err(e) => Err(e@),
    }
}

pub open spec fn unrecognized_message() -> Seq<char> {
    "This executable is not recognized as a supported browser. Confirm to allow Hops to launch it as a manual browser."@
}

/// The outcome of checking a browser that the user adds by hand, given
/// whether its executable exists.
pub open spec fn manual_request_spec(
    name: Seq<char>,
    raw_path: Seq<char>,
    private_flag: Option<Seq<char>>,
    allow_user_confirmed: bool,
    exists: bool,
) -> Result<ManualResultView, Seq<char>> {
    let path = trim_spec(raw_path);
    if path.len() == 0 {
        Err("Manual browser needs an executable path."@)
    } else if !is_exe_path(path) {
        Err("Manual browser executable must be a .exe file."@)
    } else if !exists {
        Err("Browser executable does not exist: "@ + path)
    } else {
        match classify_spec(path, Some(name)) {
            Err(e) => Err(e),
            Ok(rec) => match private_flag_check_spec(private_flag, rec, name) {
                Err(e) => Err(e),
                Ok(flag) => {
                    let preferred = preferred_name_spec(name, path);
                    Ok(
                        ManualResultView {
                            recognition: rec.recognition,
                            manual_trust: match rec.recognition {
                                BrowserRecognition::UnverifiedManual => if allow_user_confirmed {
                                    Some(ManualBrowserTrust::UserConfirmed)
                                } else {
                                    None
                                },
                                _ => Some(ManualBrowserTrust::Verified),
                            },
                            browser_name: match rec.recognition {
                                BrowserRecognition::UnverifiedManual => preferred,
                                _ => rec.name,
                            },
                            private_flag: flag,
                            family: match rec.family {
                                Some(f) => family_key_spec(f),
                                None => None,
                            },
                            icon_key: None,
                            requires_confirmation: rec.recognition
                                == BrowserRecognition::UnverifiedManual && !allow_user_confirmed,
                            message: match rec.recognition {
                                BrowserRecognition::Known => "Recognized as "@ + rec.name + "."@,
                                BrowserRecognition::RecognizedFamily => "Recognized as a "@
                                    + family_label_spec(rec.family) + "-family browser."@,
                                BrowserRecognition::UnverifiedManual => if allow_user_confirmed {
                                    "Saved '"@ + preferred + "' as a user-confirmed manual browser."@
                                } else {
                                    unrecognized_message()
                                },
                            },
                        },
                    )
                },
            },
        }
    }
}

/// Checks a browser that the user adds by hand, given whether its executable
/// exists.
pub fn check_manual_browser_request(
    request: &ManualBrowserValidationRequest,
    executable_exists: bool,
) -> (r: Result<ManualBrowserValidationResult, String>)
    ensures
        manual_result_view(r) == manual_request_spec(
            request.name@,
            request.path@,
            request.private_flag.deep_view(),
            request.allow_user_confirmed,
            executable_exists,
        ),
{
    let path = trim(&chars_of(request.path.as_str()));
    if path.len() == 0 {
        return Err(owned("Manual browser needs an executable path."));
    }
    if !ends_with_exec(&ascii_lowercase(&path), &chars_of(".exe")) {
        return Err(owned("Manual browser executable must be a .exe file."));
    }
    let path_string = string_from_chars(&path);
    if !executable_exists {
        return Err(join2("Browser executable does not exist: ", path_string.as_str()));
    }
    let recognition = classify_browser_path(path_string.as_str(), Some(request.name.as_str()))?;
    let private_flag = validate_private_flag_for_request(request, &recognition)?;
    let preferred = preferred_browser_name(request.name.as_str(), path_string.as_str());
    let (manual_trust, requires_confirmation, message) = match recognition.recognition {
        BrowserRecognition::Known => (
            Some(ManualBrowserTrust::Verified),
            false,
            join3("Recognized as ", recognition.name.as_str(), "."),
        ),
        BrowserRecognition::RecognizedFamily => (
            Some(ManualBrowserTrust::Verified),
            false,
            join3("Recognized as a ", browser_family_label(recognition.family), "-family browser."),
        ),
        BrowserRecognition::UnverifiedManual => if request.allow_user_confirmed {
            (
                Some(ManualBrowserTrust::UserConfirmed),
                false,
                join3("Saved '", preferred.as_str(), "' as a user-confirmed manual browser."),
            )
        } else {
            (
                None,
                true,
                owned(
                    "This executable is not recognized as a supported browser. Confirm to allow Hops to launch it as a manual browser.",
                ),
            )
        },
    };
    let family = match recognition.family {
        Some(f) => match browser_family_key(f) {
            Some(key) => Some(owned(key)),
            None => None,
        },
        None => None,
    };
    let browser_name = match recognition.recognition {
        BrowserRecognition::UnverifiedManual => preferred,
        _ => recognition.name,
    };
    Ok(
        ManualBrowserValidationResult {
            recognition: recognition.recognition,
            manual_trust,
            browser_name,
            private_flag,
            family,
            icon_key: None,
            requires_confirmation,
            message,
        },
    )
}

/// Checks a browser that the user adds by hand. Whether the executable exists
/// is read from the disk; the result is that of `check_manual_browser_request`
/// for what the disk answered.
pub fn validate_manual_browser_request(request: &ManualBrowserValidationRequest) -> (r: Result<
    ManualBrowserValidationResult,
    String,
>)
    ensures
        exists|e: bool|
            manual_result_view(r) == manual_request_spec(
                request.name@,
                request.path@,
                request.private_flag.deep_view(),
                request.allow_user_confirmed,
                e,
            ),
{
    let exists = match needs_existence_check(request.path.as_str()) {
        Some(p) => path_exists(p.as_str()),
        None => false,
    };
    check_manual_browser_request(request, exists)
}

/// The hexadecimal digit of a value below 16, lower case.
pub open spec fn hex_digit(d: int) -> char {
    if d < 10 {
        (48 + d) as char
    } else {
        (87 + d) as char
    }
}

/// The last `count` hexadecimal digits of `n`, most significant first.
pub open spec fn hex_digits(n: nat, count: nat) -> Seq<char>
    decreases count,
{
    if count == 0 {
        Seq::empty()
    } else {
        hex_digits(n / 16, (count - 1) as nat).push(hex_digit((n % 16) as int))
    }
}

fn hex_char(d: u64) -> (r: char)
    requires
        d < 16,
    ensures
        r == hex_digit(d as int),
{
    if d < 10 {
        let b: u8 = (48 + d) as u8;
        b as char
    } else {
        let b: u8 = (87 + d) as u8;
        b as char
    }
}

fn hex_digits_exec(n: u64, count: usize) -> (r: Vec<char>)
    ensures
        r@ == hex_digits(n as nat, count as nat),
    decreases count,
{
    if count == 0 {
        Vec::new()
    } else {
        let mut v = hex_digits_exec(n / 16, count - 1);
        v.push(hex_char(n % 16));
        v
    }
}

/// The id of an entry derived from a key: the prefix, a dash and the sixteen
/// hexadecimal digits of the `DefaultHasher` hash of the lower-cased key (its
/// UTF-8 bytes followed by `0xff`, as `str` is hashed).
pub open spec fn stable_id_spec(prefix: Seq<char>, key: Seq<char>) -> Seq<char> {
    prefix + seq!['-'] + hex_digits(
        DefaultHasher::spec_finish(seq![encode_utf8(unicode_lowercase(key)), seq![0xffu8]]) as nat,
        16,
    )
}

/// The id of an entry derived from a key.
pub fn stable_id(prefix: &str, key: &str) -> (r: String)
    ensures
        r@ == stable_id_spec(prefix@, key@),
{
    let lowered = to_lowercase(key);
    let mut hasher = DefaultHasher::new();
    hasher.write(lowered.as_str().as_bytes());
    let terminator: [u8; 1] = [0xffu8];
    hasher.write(&terminator);
    assert(terminator@ =~= seq![0xffu8]);
    assert(hasher@ =~= seq![encode_utf8(unicode_lowercase(key@)), seq![0xffu8]]);
    let hash = hasher.finish();
    let digits = hex_digits_exec(hash, 16);
    let mut id = chars_of(prefix);
    id.push('-');
    let id = concat_chars(&id, &digits);
    string_from_chars(&id)
}

/// The entry made for a browser found on the system.
pub open spec fn detected_browser_spec(
    path: Seq<char>,
    display_name_hint: Option<Seq<char>>,
    registry_key_hint: Option<Seq<char>>,
) -> BrowserView {
    let m = resolve_metadata_spec(path, display_name_hint, registry_key_hint);
    BrowserView {
        id: stable_id_spec("detected"@, normalize_path_spec(path)),
        name: m.name,
        path,
        private_flag: m.private_flag,
        icon_key: None,
        manual_trust: None,
        source: BrowserSource::Detected,
        is_hidden: false,
    }
}

/// The entry made for a browser found on the system.
pub fn build_detected_browser(
    path: &str,
    display_name_hint: Option<&str>,
    registry_key_hint: Option<&str>,
) -> (r: BrowserConfig)
    ensures
        r@ == detected_browser_spec(
            path@,
            opt_str_view(display_name_hint),
            opt_str_view(registry_key_hint),
        ),
{
    let normalized = normalize_path(path);
    let metadata = resolve_browser_metadata(path, display_name_hint, registry_key_hint);
    BrowserConfig {
        id: stable_id("detected", normalized.as_str()),
        name: metadata.name,
        path: owned(path),
        private_flag: metadata.private_flag,
        icon_key: None,
        manual_trust: None,
        source: BrowserSource::Detected,
        is_hidden: false,
    }
}

/// A detected entry without a private flag gets the flag of the browser that
/// its path and name resolve to, when there is one; other entries stay.
pub open spec fn hydrated_browser(b: BrowserView) -> BrowserView {
    if b.source != BrowserSource::Detected || b.private_flag is Some {
        b
    } else {
        let m = resolve_metadata_spec(b.path, Some(b.name), None);
        if m.private_flag is Some {
            BrowserView { private_flag: m.private_flag, ..b }
        } else {
            b
        }
    }
}

/// The configuration with only its browser list replaced.
pub open spec fn with_browsers(c: ConfigView, browsers: Seq<BrowserView>) -> ConfigView {
    ConfigView { browsers, ..c }
}

/// Fills in the private flag of detected entries that lack one.
pub fn hydrate_detected_browser_defaults(config: &mut AppConfig)
    ensures
        final(config)@ == with_browsers(
            old(config)@,
            old(config)@.browsers.map_values(|b: BrowserView| hydrated_browser(b)),
        ),
{
    let ghost old_view = config@;
    let mut updated: Vec<BrowserConfig> = Vec::new();
    let mut i: usize = 0;
    while i < config.browsers.len()
        invariant
            config@ == old_view,
            i <= config.browsers.len(),
            browsers_view(updated@) == old_view.browsers.take(i as int).map_values(
                |b: BrowserView| hydrated_browser(b),
            ),
        decreases config.browsers.len() - i,
    {
        let browser = &config.browsers[i];
        let mut copy = copy_browser(browser);
        if browser.source == BrowserSource::Detected && browser.private_flag.is_none() {
            let resolved = resolve_browser_metadata(
                browser.path.as_str(),
                Some(browser.name.as_str()),
                None,
            );
            if resolved.private_flag.is_some() {
                copy.private_flag = resolved.private_flag;
            }
        }
        proof {
            assert(old_view.browsers[i as int] == browser@);
            assert(copy@ == hydrated_browser(browser@));
        }
        let ghost before = updated@;
        updated.push(copy);
        proof {
            assert(old_view.browsers.take(i + 1) =~= old_view.browsers.take(i as int).push(
                old_view.browsers[i as int],
            ));
            assert(browsers_view(updated@) =~= browsers_view(before).push(copy@));
            assert(browsers_view(updated@) =~= old_view.browsers.take(i + 1).map_values(
                |b: BrowserView| hydrated_browser(b),
            ));
        }
        i = i + 1;
    }
    assert(old_view.browsers.take(i as int) =~= old_view.browsers);
    config.browsers = updated;
}

/// A manual entry is brought in line with what its path is recognised as: a
/// recognised browser is verified and gets the flag of its recognition (and
/// its recognised name when its own is blank); an unrecognised one loses its
/// flag, and its trust unless the user confirmed it. Other entries stay.
pub open spec fn normalized_manual_browser(b: BrowserView) -> BrowserView {
    if b.source != BrowserSource::Manual {
        b
    } else {
        match classify_spec(b.path, Some(b.name)) {
            Err(_) => b,
            Ok(rec) => if rec.recognition != BrowserRecognition::UnverifiedManual {
                BrowserView {
                    manual_trust: Some(ManualBrowserTrust::Verified),
                    private_flag: rec.private_flag,
                    name: if trim_spec(b.name).len() == 0 {
                        rec.name
                    } else {
                        b.name
                    },
                    ..b
                }
            } else {
                BrowserView {
                    manual_trust: if b.manual_trust != Some(ManualBrowserTrust::UserConfirmed) {
                        None
                    } else {
                        b.manual_trust
                    },
                    private_flag: None,
                    ..b
                }
            },
        }
    }
}

/// Brings every manual entry in line with what its path is recognised as.
pub fn normalize_manual_browser_entries(config: &mut AppConfig)
    ensures
        final(config)@ == with_browsers(
            old(config)@,
            old(config)@.browsers.map_values(|b: BrowserView| normalized_manual_browser(b)),
        ),
{
    let ghost old_view = config@;
    let mut updated: Vec<BrowserConfig> = Vec::new();
    let mut i: usize = 0;
    while i < config.browsers.len()
        invariant
            config@ == old_view,
            i <= config.browsers.len(),
            browsers_view(updated@) == old_view.browsers.take(i as int).map_values(
                |b: BrowserView| normalized_manual_browser(b),
            ),
        decreases config.browsers.len() - i,
    {
        let browser = &config.browsers[i];
        let mut copy = copy_browser(browser);
        if browser.source == BrowserSource::Manual {
            match classify_browser_path(browser.path.as_str(), Some(browser.name.as_str())) {
                Err(_) => {},
                Ok(recognition) => {
                    if recognition.recognition != BrowserRecognition::UnverifiedManual {
                        copy.manual_trust = Some(ManualBrowserTrust::Verified);
                        copy.private_flag = copy_opt_string(&recognition.private_flag);
                        let name_chars = chars_of(browser.name.as_str());
                        if trim(&name_chars).len() == 0 {
                            copy.name = recognition.name;
                        }
                    } else {
                        if browser.manual_trust != Some(ManualBrowserTrust::UserConfirmed) {
                            copy.manual_trust = None;
                        }
                        copy.private_flag = None;
                    }
                },
            }
        }
        proof {
            assert(old_view.browsers[i as int] == browser@);
            assert(copy@ == normalized_manual_browser(browser@));
        }
        let ghost before = updated@;
        updated.push(copy);
        proof {
            assert(old_view.browsers.take(i + 1) =~= old_view.browsers.take(i as int).push(
                old_view.browsers[i as int],
            ));
            assert(browsers_view(updated@) =~= browsers_view(before).push(copy@));
            assert(browsers_view(updated@) =~= old_view.browsers.take(i + 1).map_values(
                |b: BrowserView| normalized_manual_browser(b),
            ));
        }
        i = i + 1;
    }
    assert(old_view.browsers.take(i as int) =~= old_view.browsers);
    config.browsers = updated;
}

/// The hidden flag that a detected browser with this id had: that of the last
/// detected entry with the id, false when there is none.
pub open spec fn hidden_flag_for(old: Seq<BrowserView>, id: Seq<char>) -> bool
    decreases old.len(),
{
    if old.len() == 0 {
        false
    } else if old.last().source == BrowserSource::Detected && old.last().id == id {
        old.last().is_hidden
    } else {
        hidden_flag_for(old.drop_last(), id)
    }
}

pub open spec fn is_manual(b: BrowserView) -> bool {
    b.source == BrowserSource::Manual
}

/// Some manual entry has this normalised path.
pub open spec fn manual_path_taken(old: Seq<BrowserView>, normalized: Seq<char>) -> bool {
    exists|k: int|
        0 <= k < old.len() && is_manual(old[k]) && normalize_path_spec(#[trigger] old[k].path)
            == normalized
}

/// A detected browser is kept unless a manual entry has its path.
pub open spec fn keeps_detected(old: Seq<BrowserView>) -> spec_fn(BrowserView) -> bool {
    |d: BrowserView| !manual_path_taken(old, normalize_path_spec(d.path))
}

/// A kept detected browser takes the hidden flag of its earlier entry.
pub open spec fn rehidden(old: Seq<BrowserView>) -> spec_fn(BrowserView) -> BrowserView {
    |d: BrowserView| BrowserView { is_hidden: hidden_flag_for(old, d.id), ..d }
}

/// The merged list before sorting: the manual entries in their order, then
/// the detected browsers whose path no manual entry has, with their earlier
/// hidden flags.
pub open spec fn merge_unsorted(old: Seq<BrowserView>, detected: Seq<BrowserView>) -> Seq<
    BrowserView,
> {
    old.filter(|b: BrowserView| is_manual(b)) + detected.filter(keeps_detected(old)).map_values(
        rehidden(old),
    )
}

/// Browsers are listed by lower-cased name.
pub open spec fn browser_name_key(b: BrowserView) -> (u8, Seq<char>) {
    (0u8, unicode_lowercase(b.name))
}

/// The listing key, as a function of a browser's view.
pub open spec fn name_key_fn() -> spec_fn(BrowserView) -> (u8, Seq<char>) {
    |b: BrowserView| browser_name_key(b)
}

/// The listing key, as a function of a browser entry.
pub open spec fn entry_name_key_fn() -> spec_fn(BrowserConfig) -> (u8, Seq<char>) {
    |b: BrowserConfig| browser_name_key(b@)
}

fn hidden_flag_lookup(browsers: &Vec<BrowserConfig>, id: &String) -> (r: bool)
    ensures
        r == hidden_flag_for(browsers_view(browsers@), id@),
{
    let ghost bv = browsers_view(browsers@);
    let mut j: usize = browsers.len();
    assert(bv.take(j as int) =~= bv);
    while j > 0
        invariant
            j <= browsers.len(),
            bv == browsers_view(browsers@),
            hidden_flag_for(bv, id@) == hidden_flag_for(bv.take(j as int), id@),
        decreases j,
    {
        let b = &browsers[j - 1];
        let ghost prefix = bv.take(j as int);
        assert(prefix.last() == b@);
        assert(prefix.drop_last() =~= bv.take(j - 1));
        if b.source == BrowserSource::Detected && b.id == *id {
            return b.is_hidden;
        }
        j = j - 1;
    }
    assert(bv.take(0) =~= Seq::<BrowserView>::empty());
    false
}

fn manual_path_lookup(old: &Vec<BrowserConfig>, normalized: &Vec<char>) -> (r: bool)
    ensures
        r == manual_path_taken(browsers_view(old@), normalized@),
{
    let ghost bv = browsers_view(old@);
    let mut k: usize = 0;
    while k < old.len()
        invariant
            k <= old.len(),
            bv == browsers_view(old@),
            forall|m: int|
                0 <= m < k ==> !(is_manual(bv[m]) && normalize_path_spec(#[trigger] bv[m].path)
                    == normalized@),
        decreases old.len() - k,
    {
        if old[k].source == BrowserSource::Manual {
            let p = normalize_path(old[k].path.as_str());
            if chars_equal(&chars_of(p.as_str()), normalized) {
                assert(is_manual(bv[k as int]));
                assert(bv[k as int].path == old@[k as int].path@);
                assert(normalize_path_spec(bv[k as int].path) == normalized@);
                return true;
            }
        }
        k = k + 1;
    }
    false
}

proof fn lemma_browser_filter_view<T>(s: Seq<BrowserConfig>, k: (u8, Seq<char>))
    ensures
        browsers_view(s).filter(crate::sorting::key_class(name_key_fn(), k))
            == browsers_view(
            s.filter(
                crate::sorting::key_class(entry_name_key_fn(), k),
            ),
        ),
{
    vstd::seq_lib::lemma_filter_view_commute(
        s,
        crate::sorting::key_class(entry_name_key_fn(), k),
        crate::sorting::key_class(name_key_fn(), k),
    );
    assert(s.map_values(|x: BrowserConfig| x.view()) =~= browsers_view(s));
    assert(s.filter(crate::sorting::key_class(entry_name_key_fn(), k)).map_values(
        |x: BrowserConfig| x.view(),
    ) =~= browsers_view(
        s.filter(crate::sorting::key_class(entry_name_key_fn(), k)),
    ));
}

/// The browsers sorted stably by lower-cased name.
pub fn sort_browsers_by_name(browsers: Vec<BrowserConfig>) -> (r: Vec<BrowserConfig>)
    ensures
        crate::sorting::sorted_by(browsers_view(r@), name_key_fn()),
        crate::sorting::same_order_per_key(
            browsers_view(r@),
            browsers_view(browsers@),
            name_key_fn(),
        ),
{
    let mut keys: Vec<crate::sorting::SortKey> = Vec::new();
    let mut i: usize = 0;
    while i < browsers.len()
        invariant
            i <= browsers.len(),
            keys.len() == i,
            forall|j: int|
                0 <= j < i ==> crate::sorting::key_view(#[trigger] keys@[j]) == browser_name_key(
                    browsers@[j]@,
                ),
        decreases browsers.len() - i,
    {
        let lowered = to_lowercase(browsers[i].name.as_str());
        keys.push(crate::sorting::SortKey { rank: 0, text: chars_of(lowered.as_str()) });
        i = i + 1;
    }
    let ghost kf = entry_name_key_fn();
    let ghost input = browsers@;
    let r = crate::sorting::stable_sort(browsers, keys, Ghost(kf));
    proof {
        assert forall|k: (u8, Seq<char>)|
            #[trigger] browsers_view(r@).filter(
                crate::sorting::key_class(name_key_fn(), k),
            ) == browsers_view(input).filter(
                crate::sorting::key_class(name_key_fn(), k),
            ) by {
            lemma_browser_filter_view::<BrowserConfig>(r@, k);
            lemma_browser_filter_view::<BrowserConfig>(input, k);
            assert(r@.filter(crate::sorting::key_class(kf, k)) == input.filter(
                crate::sorting::key_class(kf, k),
            ));
        }
    }
    r
}

/// The detected browsers merged into the configuration: manual entries stay,
/// detected browsers whose path a manual entry has are dropped, the others
/// keep the hidden flag of their earlier entry, and the list is sorted stably
/// by lower-cased name. Nothing else changes.
pub fn merge_detected_browsers(config: &mut AppConfig, detected_browsers: Vec<BrowserConfig>)
    ensures
        final(config)@ == with_browsers(old(config)@, final(config)@.browsers),
        crate::sorting::sorted_by(final(config)@.browsers, name_key_fn()),
        crate::sorting::same_order_per_key(
            final(config)@.browsers,
            merge_unsorted(old(config)@.browsers, browsers_view(detected_browsers@)),
            name_key_fn(),
        ),
{
    let ghost old_view = config@;
    let ghost ob = old_view.browsers;
    let ghost dv = browsers_view(detected_browsers@);
    let mut merged: Vec<BrowserConfig> = Vec::new();
    let mut i: usize = 0;
    while i < config.browsers.len()
        invariant
            config@ == old_view,
            ob == old_view.browsers,
            i <= config.browsers.len(),
            browsers_view(merged@) == ob.take(i as int).filter(|b: BrowserView| is_manual(b)),
        decreases config.browsers.len() - i,
    {
        let ghost before = merged@;
        if config.browsers[i].source == BrowserSource::Manual {
            merged.push(copy_browser(&config.browsers[i]));
        }
        proof {
            assert(ob[i as int] == config.browsers@[i as int]@);
            assert(ob.take(i + 1) =~= ob.take(i as int).push(ob[i as int]));
            ob.take(i as int).lemma_filter_push(ob[i as int], |b: BrowserView| is_manual(b));
            assert(browsers_view(merged@) =~= ob.take(i + 1).filter(|b: BrowserView| is_manual(b)));
        }
        i = i + 1;
    }
    assert(ob.take(i as int) =~= ob);
    let ghost manual_part = browsers_view(merged@);
    let mut j: usize = 0;
    while j < detected_browsers.len()
        invariant
            config@ == old_view,
            ob == old_view.browsers,
            dv == browsers_view(detected_browsers@),
            j <= detected_browsers.len(),
            manual_part == ob.filter(|b: BrowserView| is_manual(b)),
            browsers_view(merged@) == manual_part + dv.take(j as int).filter(
                keeps_detected(ob),
            ).map_values(rehidden(ob)),
        decreases detected_browsers.len() - j,
    {
        let ghost before = merged@;
        let candidate = &detected_browsers[j];
        let normalized = normalize_path(candidate.path.as_str());
        let taken = manual_path_lookup(&config.browsers, &chars_of(normalized.as_str()));
        proof {
            assert(config@.browsers == browsers_view(config.browsers@));
            assert(dv[j as int] == candidate@);
            assert(taken == !keeps_detected(ob)(dv[j as int]));
        }
        if !taken {
            let mut kept = copy_browser(candidate);
            kept.is_hidden = hidden_flag_lookup(&config.browsers, &candidate.id);
            assert(kept@ == rehidden(ob)(dv[j as int]));
            merged.push(kept);
            assert(browsers_view(merged@) =~= browsers_view(before).push(rehidden(ob)(dv[j as int])));
        } else {
            assert(browsers_view(merged@) == browsers_view(before));
        }
        proof {
            let d = dv[j as int];
            assert(dv.take(j + 1) =~= dv.take(j as int).push(d));
            dv.take(j as int).lemma_filter_push(d, keeps_detected(ob));
            let f = dv.take(j as int).filter(keeps_detected(ob));
            if keeps_detected(ob)(d) {
                assert(f.push(d).map_values(rehidden(ob)) =~= f.map_values(rehidden(ob)).push(
                    rehidden(ob)(d),
                ));
            }
            assert(browsers_view(merged@) =~= manual_part + dv.take(j + 1).filter(
                keeps_detected(ob),
            ).map_values(rehidden(ob)));
        }
        j = j + 1;
    }
    assert(dv.take(j as int) =~= dv);
    let sorted = sort_browsers_by_name(merged);
    config.browsers = sorted;
}

/// The views of a list of strings.
pub open spec fn strings_view(v: Seq<String>) -> Seq<Seq<char>> {
    v.map_values(|s: String| s@)
}

/// The browser's normalised path is among the running processes' paths.
pub open spec fn running_contains(running: Seq<Seq<char>>, browser: BrowserView) -> bool {
    exists|i: int| 0 <= i < running.len() && #[trigger] running[i] == normalize_path_spec(browser.path)
}

/// Whether the browser is running: its normalised path is among the
/// (normalised) paths of the running processes.
pub fn is_browser_running(browser: &BrowserConfig, running_processes: &Vec<String>) -> (r: bool)
    ensures
        r == running_contains(strings_view(running_processes@), browser@),
{
    let normalized = normalize_path(browser.path.as_str());
    let mut i: usize = 0;
    while i < running_processes.len()
        invariant
            i <= running_processes.len(),
            normalized@ == normalize_path_spec(browser@.path),
            forall|k: int|
                0 <= k < i ==> #[trigger] strings_view(running_processes@)[k] != normalized@,
        decreases running_processes.len() - i,
    {
        assert(strings_view(running_processes@)[i as int] == running_processes@[i as int]@);
        if running_processes[i] == normalized {
            return true;
        }
        i = i + 1;
    }
    false
}

/// The paths of the running processes, read at most once and only when first
/// needed.
pub struct RunningProcessSnapshot<F: Fn() -> Vec<String>> {
    loader: F,
    loaded: Option<Vec<String>>,
}

impl<F: Fn() -> Vec<String>> RunningProcessSnapshot<F> {
    /// The function that reads the running processes.
    pub closed spec fn spec_loader(&self) -> F {
        self.loader
    }

    /// The running processes read so far: none before the first read.
    pub closed spec fn processes(&self) -> Option<Seq<Seq<char>>> {
        match self.loaded {
            Some(v) => Some(strings_view(v@)),
            None => None,
        }
    }

    /// The running processes read so far, or none read.
    pub open spec fn processes_or_empty(&self) -> Seq<Seq<char>> {
        match self.processes() {
            Some(p) => p,
            None => Seq::empty(),
        }
    }

    /// A snapshot that reads with `loader` when first asked.
    pub fn new(loader: F) -> (r: Self)
        ensures
            r.spec_loader() == loader,
            r.processes() is None,
    {
        RunningProcessSnapshot { loader, loaded: None }
    }

    /// Whether the browser is running, reading the processes if they have not
    /// been read yet; once read, they are never read again.
    pub fn is_browser_running(&mut self, browser: &BrowserConfig) -> (r: bool)
        requires
            call_requires(old(self).spec_loader(), ()),
        ensures
            final(self).spec_loader() == old(self).spec_loader(),
            final(self).processes() is Some,
            old(self).processes() is Some ==> final(self).processes() == old(self).processes(),
            old(self).processes() is None ==> exists|v: Vec<String>|
                call_ensures(old(self).spec_loader(), (), v) && final(self).processes() == Some(
                    strings_view(v@),
                ),
            r == running_contains(final(self).processes()->0, browser@),
    {
        if self.loaded.is_none() {
            let v = (self.loader)();
            self.loaded = Some(v);
        }
        match &self.loaded {
            Some(v) => is_browser_running(browser, v),
            None => false,
        }
    }
}

/// Browsers that are shown and running.
pub open spec fn shown_and_running(running: Seq<Seq<char>>) -> spec_fn(BrowserView) -> bool {
    |b: BrowserView| !b.is_hidden && running_contains(running, b)
}

/// The ids of the browsers that are not hidden and run, in list order.
pub fn running_browser_ids(config: &AppConfig, running_processes: &Vec<String>) -> (r: Vec<String>)
    ensures
        strings_view(r@) == config@.browsers.filter(
            shown_and_running(strings_view(running_processes@)),
        ).map_values(|b: BrowserView| b.id),
{
    let ghost bv = config@.browsers;
    let ghost pred = shown_and_running(strings_view(running_processes@));
    let mut ids: Vec<String> = Vec::new();
    let mut i: usize = 0;
    while i < config.browsers.len()
        invariant
            i <= config.browsers.len(),
            bv == config@.browsers,
            pred == shown_and_running(strings_view(running_processes@)),
            strings_view(ids@) == bv.take(i as int).filter(pred).map_values(|b: BrowserView| b.id),
        decreases config.browsers.len() - i,
    {
        let browser = &config.browsers[i];
        let ghost before = ids@;
        assert(bv[i as int] == browser@);
        assert(bv.take(i + 1) =~= bv.take(i as int).push(browser@));
        proof {
            bv.take(i as int).lemma_filter_push(browser@, pred);
        }
        if !browser.is_hidden && is_browser_running(browser, running_processes) {
            ids.push(browser.id.clone());
            assert(strings_view(ids@) =~= strings_view(before).push(browser@.id));
            assert(bv.take(i + 1).filter(pred).map_values(|b: BrowserView| b.id)
                =~= bv.take(i as int).filter(pred).map_values(|b: BrowserView| b.id).push(browser@.id));
        }
        i = i + 1;
    }
    assert(bv.take(i as int) =~= bv);
    ids
}

/// The text between a leading double quote and the next one, when the text
/// starts with a double quote.
pub open spec fn quoted_prefix(t: Seq<char>) -> Option<Seq<char>> {
    let s = t.drop_first();
    match first_occurrence(s, "\""@) {
        Some(e) => Some(s.take(e)),
        None => None,
    }
}

/// The executable of a registry `shell\open\command` value: after trimming,
/// the quoted text when the value starts with a double quote; otherwise the
/// text up to and including the first `.exe` (in any ASCII case), trimmed.
/// The `.exe` is looked for with ASCII case folding. On text whose Unicode
/// lower-case form changes the UTF-8 length of a character before the
/// `.exe` (such as `İ`), this differs from finding it in the Unicode
/// lower-cased text and slicing the original at that byte offset, which
/// gives another string there or panics; on all other text the two agree.
pub open spec fn extract_executable_spec(command: Seq<char>) -> Option<Seq<char>> {
    let t = trim_spec(command);
    if t.len() > 0 && t[0] == '"' {
        quoted_prefix(t)
    } else {
        match first_occurrence(ascii_lower_seq(t), ".exe"@) {
            Some(e) => Some(trim_spec(t.take(e + 4))),
            None => None,
        }
    }
}

fn quoted_prefix_exec(t: &Vec<char>) -> (r: Option<Vec<char>>)
    requires
        t.len() > 0,
    ensures
        match r {
            Some(v) => quoted_prefix(t@) == Some(v@),
            None => quoted_prefix(t@) is None,
        },
{
    let s = slice_chars(t, 1, t.len());
    assert(s@ == t@.drop_first());
    match find_first(&s, &chars_of("\"")) {
        Some(e) => {
            let v = slice_chars(&s, 0, e);
            assert(v@ == s@.take(e as int));
            Some(v)
        },
        None => None,
    }
}

/// The executable of a registry command value: see `extract_executable_spec`.
pub fn extract_executable_path(command: &str) -> (r: Option<String>)
    ensures
        r.deep_view() == extract_executable_spec(command@),
{
    let trimmed = trim(&chars_of(command));
    if trimmed.len() > 0 && trimmed[0] == '"' {
        return match quoted_prefix_exec(&trimmed) {
            Some(v) => Some(string_from_chars(&v)),
            None => None,
        };
    }
    let lowered = ascii_lowercase(&trimmed);
    let extension = chars_of(".exe");
    proof {
        reveal_strlit(".exe");
        assert(extension@.len() == 4);
        assert(lowered@.len() == trimmed@.len());
    }
    match find_first(&lowered, &extension) {
        Some(e) => {
            let head = slice_chars(&trimmed, 0, e + 4);
            assert(head@ == trimmed@.take(e + 4));
            Some(string_from_chars(&trim(&head)))
        },
        None => None,
    }
}

/// The first column of a line of CSV as `tasklist` prints it: nothing for a
/// blank line; the quoted text when the trimmed line starts with a double
/// quote (nothing when the quote is not closed); otherwise the text before
/// the first comma, with surrounding double quotes removed.
pub open spec fn first_csv_column_spec(line: Seq<char>) -> Option<Seq<char>> {
    let t = trim_spec(line);
    if t.len() == 0 {
        None
    } else if t[0] == '"' {
        quoted_prefix(t)
    } else {
        let first = match first_occurrence(t, ","@) {
            Some(e) => t.take(e),
            None => t,
        };
        Some(trim_by(first, |x: char| x == '"'))
    }
}

/// The first column of a CSV line: see `first_csv_column_spec`.
pub fn parse_first_csv_column(line: &str) -> (r: Option<String>)
    ensures
        r.deep_view() == first_csv_column_spec(line@),
{
    let trimmed = trim(&chars_of(line));
    if trimmed.len() == 0 {
        return None;
    }
    if trimmed[0] == '"' {
        return match quoted_prefix_exec(&trimmed) {
            Some(v) => Some(string_from_chars(&v)),
            None => None,
        };
    }
    let first = match find_first(&trimmed, &chars_of(",")) {
        Some(e) => {
            let v = slice_chars(&trimmed, 0, e);
            assert(v@ == trimmed@.take(e as int));
            v
        },
        None => trimmed,
    };
    Some(string_from_chars(&trim_char(&first, '"')))
}

/// A line without the carriage return that ended it.
pub open spec fn strip_cr(line: Seq<char>) -> Seq<char> {
    if line.len() > 0 && line.last() == '\r' {
        line.drop_last()
    } else {
        line
    }
}

/// The lines ended so far and the line being read, after reading `s`.
pub open spec fn line_state(s: Seq<char>) -> (Seq<Seq<char>>, Seq<char>)
    decreases s.len(),
{
    if s.len() == 0 {
        (Seq::empty(), Seq::empty())
    } else {
        let (done, current) = line_state(s.drop_last());
        if s.last() == '\n' {
            (done.push(strip_cr(current)), Seq::empty())
        } else {
            (done, current.push(s.last()))
        }
    }
}

/// The lines of a text as `str::lines` gives them: split after each `\n`,
/// which is dropped together with a `\r` before it; a last line without `\n`
/// counts when it is not empty.
pub open spec fn lines_spec(s: Seq<char>) -> Seq<Seq<char>> {
    let (done, current) = line_state(s);
    if current.len() > 0 {
        done.push(current)
    } else {
        done
    }
}

/// The lines of a text: see `lines_spec`.
pub fn split_lines(text: &str) -> (r: Vec<String>)
    ensures
        strings_view(r@) == lines_spec(text@),
{
    let chars = chars_of(text);
    let mut done: Vec<String> = Vec::new();
    let mut current: Vec<char> = Vec::new();
    let mut i: usize = 0;
    while i < chars.len()
        invariant
            i <= chars.len(),
            chars@ == text@,
            (strings_view(done@), current@) == line_state(chars@.take(i as int)),
        decreases chars.len() - i,
    {
        let c = chars[i];
        assert(chars@.take(i + 1).drop_last() =~= chars@.take(i as int));
        assert(chars@.take(i + 1).last() == c);
        if c == '\n' {
            let ghost before = done@;
            let mut line = current;
            if line.len() > 0 && line[line.len() - 1] == '\r' {
                line.pop();
            }
            assert(line@ == strip_cr(current@));
            done.push(string_from_chars(&line));
            assert(strings_view(done@) =~= strings_view(before).push(line@));
            current = Vec::new();
            assert(current@ =~= Seq::<char>::empty());
        } else {
            current.push(c);
        }
        i = i + 1;
    }
    assert(chars@.take(i as int) =~= text@);
    if current.len() > 0 {
        let ghost before = done@;
        done.push(string_from_chars(&current));
        assert(strings_view(done@) =~= strings_view(before).push(current@));
    }
    done
}

/// Lines whose first column can be read.
pub open spec fn has_first_column() -> spec_fn(Seq<char>) -> bool {
    |l: Seq<char>| first_csv_column_spec(l) is Some
}

/// The process names that `tasklist` output lists: the first column of each
/// line that has one, lower-cased.
pub open spec fn tasklist_names_spec(output: Seq<char>) -> Seq<Seq<char>> {
    lines_spec(output).filter(has_first_column()).map_values(
        |l: Seq<char>| unicode_lowercase(first_csv_column_spec(l)->0),
    )
}

/// The process names that `tasklist` output lists: see `tasklist_names_spec`.
pub fn tasklist_process_names(output: &str) -> (r: Vec<String>)
    ensures
        strings_view(r@) == tasklist_names_spec(output@),
{
    let lines = split_lines(output);
    let ghost lv = strings_view(lines@);
    let mut names: Vec<String> = Vec::new();
    let mut i: usize = 0;
    while i < lines.len()
        invariant
            i <= lines.len(),
            lv == strings_view(lines@),
            lv == lines_spec(output@),
            strings_view(names@) == lv.take(i as int).filter(has_first_column()).map_values(
                |l: Seq<char>| unicode_lowercase(first_csv_column_spec(l)->0),
            ),
        decreases lines.len() - i,
    {
        let ghost before = names@;
        let ghost line = lv[i as int];
        assert(line == lines@[i as int]@);
        assert(lv.take(i + 1) =~= lv.take(i as int).push(line));
        proof {
            lv.take(i as int).lemma_filter_push(line, has_first_column());
        }
        if let Some(name) = parse_first_csv_column(lines[i].as_str()) {
            names.push(to_lowercase(name.as_str()));
            assert(strings_view(names@) =~= strings_view(before).push(
                unicode_lowercase(first_csv_column_spec(line)->0),
            ));
            assert(lv.take(i + 1).filter(has_first_column()).map_values(
                |l: Seq<char>| unicode_lowercase(first_csv_column_spec(l)->0),
            ) =~= lv.take(i as int).filter(has_first_column()).map_values(
                |l: Seq<char>| unicode_lowercase(first_csv_column_spec(l)->0),
            ).push(unicode_lowercase(first_csv_column_spec(line)->0)));
        }
        i = i + 1;
    }
    assert(lv.take(i as int) =~= lv);
    names
}

/// A relative path appended to a directory, as a Windows path join does it:
/// a separator goes between them unless the directory is empty, a bare drive
/// such as `C:`, or already ends with a separator.
pub open spec fn join_path_spec(root: Seq<char>, suffix: Seq<char>) -> Seq<char> {
    if root.len() == 0 || (root.len() == 2 && has_drive_prefix(root)) || is_path_separator(
        root.last(),
    ) {
        root + suffix
    } else {
        root + "\\"@ + suffix
    }
}

/// A relative path appended to a directory: see `join_path_spec`.
pub fn join_path(root: &str, suffix: &str) -> (r: String)
    ensures
        r@ == join_path_spec(root@, suffix@),
{
    let chars = chars_of(root);
    let n = chars.len();
    let bare_drive = n == 2 && chars[1] == ':' && (('a' <= chars[0] && chars[0] <= 'z') || (
    'A' <= chars[0] && chars[0] <= 'Z'));
    if n == 0 || bare_drive || chars[n - 1] == '\\' || chars[n - 1] == '/' {
        join2(root, suffix)
    } else {
        join3(root, "\\", suffix)
    }
}

/// The places where a known browser may be installed: each install suffix of
/// the definition under each root, root by root.
pub open spec fn install_paths_spec(d: DefinitionView, roots: Seq<Seq<char>>) -> Seq<Seq<char>>
    decreases roots.len(),
{
    if roots.len() == 0 {
        Seq::empty()
    } else {
        install_paths_spec(d, roots.drop_last()) + d.suffixes.map_values(
            |s: Seq<char>| join_path_spec(roots.last(), s),
        )
    }
}

/// The places where a known browser may be installed: see
/// `install_paths_spec`.
pub fn known_install_paths(definition: &KnownBrowserDefinition, roots: &Vec<String>) -> (r: Vec<
    String,
>)
    ensures
        strings_view(r@) == install_paths_spec(definition@, strings_view(roots@)),
{
    let ghost d = definition@;
    let ghost rv = strings_view(roots@);
    let mut paths: Vec<String> = Vec::new();
    let mut i: usize = 0;
    while i < roots.len()
        invariant
            i <= roots.len(),
            d == definition@,
            rv == strings_view(roots@),
            strings_view(paths@) == install_paths_spec(d, rv.take(i as int)),
        decreases roots.len() - i,
    {
        let root = roots[i].as_str();
        let ghost base = strings_view(paths@);
        let mut j: usize = 0;
        while j < definition.known_install_path_suffixes.len()
            invariant
                i < roots.len(),
                root@ == rv[i as int],
                d == definition@,
                j <= definition.known_install_path_suffixes.len(),
                strings_view(paths@) == base + d.suffixes.take(j as int).map_values(
                    |s: Seq<char>| join_path_spec(rv[i as int], s),
                ),
            decreases definition.known_install_path_suffixes.len() - j,
        {
            let ghost before = strings_view(paths@);
            let suffix = definition.known_install_path_suffixes[j];
            assert(d.suffixes[j as int] == suffix@);
            let joined = join_path(root, suffix);
            paths.push(joined);
            assert(strings_view(paths@) =~= before.push(joined@));
            assert(d.suffixes.take(j + 1) =~= d.suffixes.take(j as int).push(suffix@));
            assert(base + d.suffixes.take(j + 1).map_values(
                |s: Seq<char>| join_path_spec(rv[i as int], s),
            ) =~= (base + d.suffixes.take(j as int).map_values(
                |s: Seq<char>| join_path_spec(rv[i as int], s),
            )).push(joined@));
            j = j + 1;
        }
        assert(d.suffixes.take(j as int) =~= d.suffixes);
        assert(rv.take(i + 1).drop_last() =~= rv.take(i as int));
        assert(rv.take(i + 1).last() == rv[i as int]);
        i = i + 1;
    }
    assert(rv.take(i as int) =~= rv);
    paths
}

/// Whether the list holds the text.
pub fn strings_contain(v: &Vec<String>, x: &str) -> (r: bool)
    ensures
        r == strings_view(v@).contains(x@),
{
    let ghost sv = strings_view(v@);
    let target = chars_of(x);
    let mut i: usize = 0;
    while i < v.len()
        invariant
            i <= v.len(),
            sv == strings_view(v@),
            target@ == x@,
            forall|k: int| 0 <= k < i ==> #[trigger] sv[k] != x@,
        decreases v.len() - i,
    {
        assert(sv[i as int] == v@[i as int]@);
        if chars_equal(&chars_of(v[i].as_str()), &target) {
            assert(sv[i as int] == x@);
            return true;
        }
        i = i + 1;
    }
    false
}

/// Candidates that exist and whose normalised path has not been seen.
pub open spec fn candidate_ok(
    candidates: Seq<Seq<char>>,
    existing: Seq<Seq<char>>,
    seen: Seq<Seq<char>>,
) -> spec_fn(int) -> bool {
    |k: int|
        existing.contains(candidates[k]) && !seen.contains(normalize_path_spec(candidates[k]))
}

/// The first candidate that exists and whose normalised path has not been
/// seen.
pub open spec fn pick_candidate(
    candidates: Seq<Seq<char>>,
    existing: Seq<Seq<char>>,
    seen: Seq<Seq<char>>,
) -> Option<Seq<char>> {
    match first_index(candidates.len() as int, candidate_ok(candidates, existing, seen)) {
        Some(k) => Some(candidates[k]),
        None => None,
    }
}

/// The browsers found at the install places of the known browsers from the
/// `k`-th on, given the paths that exist and the normalised paths already
/// seen: for each known browser, the first install place that exists and was
/// not seen yet, named after the known browser; each path found is seen from
/// then on.
pub open spec fn known_path_browsers_spec(
    defs: Seq<DefinitionView>,
    k: int,
    roots: Seq<Seq<char>>,
    existing: Seq<Seq<char>>,
    seen: Seq<Seq<char>>,
) -> Seq<BrowserView>
    decreases defs.len() - k,
{
    if k < 0 || k >= defs.len() {
        Seq::empty()
    } else {
        match pick_candidate(install_paths_spec(defs[k], roots), existing, seen) {
            Some(p) => seq![detected_browser_spec(p, Some(defs[k].display_name), None)]
                + known_path_browsers_spec(
                defs,
                k + 1,
                roots,
                existing,
                seen.push(normalize_path_spec(p)),
            ),
            None => known_path_browsers_spec(defs, k + 1, roots, existing, seen),
        }
    }
}

fn pick_candidate_exec(candidates: &Vec<String>, existing: &Vec<String>, seen: &Vec<String>) -> (r:
    Option<usize>)
    ensures
        match r {
            Some(k) => k < candidates.len() && pick_candidate(
                strings_view(candidates@),
                strings_view(existing@),
                strings_view(seen@),
            ) == Some(candidates@[k as int]@),
            None => pick_candidate(
                strings_view(candidates@),
                strings_view(existing@),
                strings_view(seen@),
            ) is None,
        },
{
    let ghost cv = strings_view(candidates@);
    let ghost pred = candidate_ok(cv, strings_view(existing@), strings_view(seen@));
    let mut k: usize = 0;
    while k < candidates.len()
        invariant
            k <= candidates.len(),
            cv == strings_view(candidates@),
            pred == candidate_ok(cv, strings_view(existing@), strings_view(seen@)),
            forall|j: int| 0 <= j < k ==> !#[trigger] pred(j),
        decreases candidates.len() - k,
    {
        let candidate = candidates[k].as_str();
        assert(cv[k as int] == candidate@);
        if strings_contain(existing, candidate) {
            let normalized = normalize_path(candidate);
            if !strings_contain(seen, normalized.as_str()) {
                proof {
                    assert(pred(k as int));
                    lemma_first_index(cv.len() as int, pred);
                }
                return Some(k);
            }
        }
        assert(!pred(k as int));
        k = k + 1;
    }
    proof {
        lemma_first_index(cv.len() as int, pred);
    }
    None
}

/// The browsers found at the install places of the known browsers, given the
/// paths that exist: see `known_path_browsers_spec`.
pub fn select_known_path_browsers(
    seen_paths: &Vec<String>,
    roots: &Vec<String>,
    existing_paths: &Vec<String>,
) -> (r: Vec<BrowserConfig>)
    ensures
        browsers_view(r@) == known_path_browsers_spec(
            known_definitions(),
            0,
            strings_view(roots@),
            strings_view(existing_paths@),
            strings_view(seen_paths@),
        ),
{
    let defs = known_browser_definitions();
    let ghost dv = known_definitions();
    let ghost rv = strings_view(roots@);
    let ghost ev = strings_view(existing_paths@);
    let ghost goal = known_path_browsers_spec(dv, 0, rv, ev, strings_view(seen_paths@));
    let mut seen = crate::routing::copy_strings(seen_paths);
    let mut found: Vec<BrowserConfig> = Vec::new();
    let mut k: usize = 0;
    while k < defs.len()
        invariant
            k <= defs.len(),
            definitions_view(defs@) == dv,
            rv == strings_view(roots@),
            ev == strings_view(existing_paths@),
            browsers_view(found@) + known_path_browsers_spec(dv, k as int, rv, ev, strings_view(seen@))
                == goal,
        decreases defs.len() - k,
    {
        let definition = &defs[k];
        assert(dv[k as int] == definition@);
        let candidates = known_install_paths(definition, roots);
        match pick_candidate_exec(&candidates, existing_paths, &seen) {
            Some(j) => {
                let ghost before_found = browsers_view(found@);
                let ghost before_seen = strings_view(seen@);
                let path = candidates[j].as_str();
                let normalized = normalize_path(path);
                seen.push(normalized);
                assert(strings_view(seen@) =~= before_seen.push(normalize_path_spec(path@)));
                let browser = build_detected_browser(path, Some(definition.display_name), None);
                found.push(browser);
                assert(browsers_view(found@) =~= before_found.push(browser@));
                assert(before_found.push(browser@) + known_path_browsers_spec(
                    dv,
                    k + 1,
                    rv,
                    ev,
                    strings_view(seen@),
                ) =~= before_found + (seq![browser@] + known_path_browsers_spec(
                    dv,
                    k + 1,
                    rv,
                    ev,
                    strings_view(seen@),
                )));
            },
            None => {},
        }
        k = k + 1;
    }
    assert(browsers_view(found@) + Seq::<BrowserView>::empty() =~= browsers_view(found@));
    found
}

/// The browsers found at the install places of the known browsers, asking
/// the disk which places exist (every place is asked once). The result is
/// that of `select_known_path_browsers` for some set of existing paths.
pub fn detect_browsers_from_known_paths(seen_paths: &Vec<String>, roots: &Vec<String>) -> (r: Vec<
    BrowserConfig,
>)
    ensures
        exists|existing: Seq<Seq<char>>|
            browsers_view(r@) == known_path_browsers_spec(
                known_definitions(),
                0,
                strings_view(roots@),
                existing,
                strings_view(seen_paths@),
            ),
{
    let defs = known_browser_definitions();
    let mut existing: Vec<String> = Vec::new();
    let mut k: usize = 0;
    while k < defs.len()
        invariant
            k <= defs.len(),
        decreases defs.len() - k,
    {
        let candidates = known_install_paths(&defs[k], roots);
        let mut j: usize = 0;
        while j < candidates.len()
            invariant
                j <= candidates.len(),
            decreases candidates.len() - j,
        {
            if path_exists(candidates[j].as_str()) {
                existing.push(candidates[j].clone());
            }
            j = j + 1;
        }
        k = k + 1;
    }
    select_known_path_browsers(seen_paths, roots, &existing)
}

/// One browser listed in the registry: the name of its key and the command
/// under `shell\open\command`.
pub struct RegistryBrowserEntry {
    pub key_name: String,
    pub command: String,
}

pub open spec fn registry_entries_view(v: Seq<RegistryBrowserEntry>) -> Seq<(Seq<char>, Seq<char>)> {
    v.map_values(|e: RegistryBrowserEntry| (e.key_name@, e.command@))
}

/// The browsers that the registry entries from the `k`-th on give, given
/// whether each entry's executable exists and the normalised paths already
/// seen: an entry counts when its command names an executable that exists
/// and was not seen yet, and is named with its key's name as a hint; each
/// path found is seen from then on.
pub open spec fn registry_browsers_spec(
    entries: Seq<(Seq<char>, Seq<char>)>,
    exists: Seq<bool>,
    k: int,
    seen: Seq<Seq<char>>,
) -> Seq<BrowserView>
    decreases entries.len() - k,
{
    if k < 0 || k >= entries.len() {
        Seq::empty()
    } else {
        match extract_executable_spec(entries[k].1) {
            Some(p) => if exists[k] && !seen.contains(normalize_path_spec(p)) {
                seq![detected_browser_spec(p, None, Some(entries[k].0))] + registry_browsers_spec(
                    entries,
                    exists,
                    k + 1,
                    seen.push(normalize_path_spec(p)),
                )
            } else {
                registry_browsers_spec(entries, exists, k + 1, seen)
            },
            None => registry_browsers_spec(entries, exists, k + 1, seen),
        }
    }
}

/// The browsers that the registry entries give, given whether each entry's
/// executable exists (one answer per entry) and the normalised paths already
/// found: see `registry_browsers_spec`.
pub fn select_registry_browsers(
    entries: &Vec<RegistryBrowserEntry>,
    executables_exist: &Vec<bool>,
    seen_paths: &Vec<String>,
) -> (r: Vec<BrowserConfig>)
    requires
        executables_exist.len() == entries.len(),
    ensures
        browsers_view(r@) == registry_browsers_spec(
            registry_entries_view(entries@),
            executables_exist@,
            0,
            strings_view(seen_paths@),
        ),
{
    let ghost ev = registry_entries_view(entries@);
    let ghost goal = registry_browsers_spec(ev, executables_exist@, 0, strings_view(seen_paths@));
    let mut seen = crate::routing::copy_strings(seen_paths);
    let mut found: Vec<BrowserConfig> = Vec::new();
    let mut k: usize = 0;
    while k < entries.len()
        invariant
            k <= entries.len(),
            executables_exist.len() == entries.len(),
            ev == registry_entries_view(entries@),
            browsers_view(found@) + registry_browsers_spec(
                ev,
                executables_exist@,
                k as int,
                strings_view(seen@),
            ) == goal,
        decreases entries.len() - k,
    {
        let entry = &entries[k];
        assert(ev[k as int] == (entry.key_name@, entry.command@));
        if let Some(path) = extract_executable_path(entry.command.as_str()) {
            if executables_exist[k] {
                let normalized = normalize_path(path.as_str());
                if !strings_contain(&seen, normalized.as_str()) {
                    let ghost before_found = browsers_view(found@);
                    let ghost before_seen = strings_view(seen@);
                    seen.push(normalized);
                    assert(strings_view(seen@) =~= before_seen.push(normalize_path_spec(path@)));
                    let browser = build_detected_browser(
                        path.as_str(),
                        None,
                        Some(entry.key_name.as_str()),
                    );
                    found.push(browser);
                    assert(browsers_view(found@) =~= before_found.push(browser@));
                    assert(before_found.push(browser@) + registry_browsers_spec(
                        ev,
                        executables_exist@,
                        k + 1,
                        strings_view(seen@),
                    ) =~= before_found + (seq![browser@] + registry_browsers_spec(
                        ev,
                        executables_exist@,
                        k + 1,
                        strings_view(seen@),
                    )));
                }
            }
        }
        k = k + 1;
    }
    assert(browsers_view(found@) + Seq::<BrowserView>::empty() =~= browsers_view(found@));
    found
}

/// The browsers that the registry entries give beside the normalised paths
/// already found, asking the disk whether each entry's executable exists.
/// The result is that of `select_registry_browsers` for some answers of the
/// disk.
pub fn detect_browsers_from_registry(
    entries: &Vec<RegistryBrowserEntry>,
    seen_paths: &Vec<String>,
) -> (r: Vec<BrowserConfig>)
    ensures
        exists|e: Seq<bool>|
            e.len() == entries.len() && browsers_view(r@) == registry_browsers_spec(
                registry_entries_view(entries@),
                e,
                0,
                strings_view(seen_paths@),
            ),
{
    let mut exists: Vec<bool> = Vec::new();
    let mut k: usize = 0;
    while k < entries.len()
        invariant
            k <= entries.len(),
            exists.len() == k,
        decreases entries.len() - k,
    {
        let answer = match extract_executable_path(entries[k].command.as_str()) {
            Some(path) => path_exists(path.as_str()),
            None => false,
        };
        exists.push(answer);
        k = k + 1;
    }
    select_registry_browsers(entries, &exists, seen_paths)
}

/// Some earlier browser of the list has this normalised path.
pub open spec fn path_listed(s: Seq<BrowserView>, normalized: Seq<char>) -> bool {
    exists|j: int| 0 <= j < s.len() && normalize_path_spec(#[trigger] s[j].path) == normalized
}

/// The browsers of the list, each normalised path kept at its first entry.
pub open spec fn dedup_by_path(s: Seq<BrowserView>) -> Seq<BrowserView>
    decreases s.len(),
{
    if s.len() == 0 {
        s
    } else if path_listed(s.drop_last(), normalize_path_spec(s.last().path)) {
        dedup_by_path(s.drop_last())
    } else {
        dedup_by_path(s.drop_last()).push(s.last())
    }
}

fn path_listed_exec(list: &Vec<BrowserConfig>, end: usize, normalized: &String) -> (r: bool)
    requires
        end <= list.len(),
    ensures
        r == path_listed(browsers_view(list@).take(end as int), normalized@),
{
    let ghost s = browsers_view(list@).take(end as int);
    let mut j: usize = 0;
    while j < end
        invariant
            j <= end,
            end <= list.len(),
            s == browsers_view(list@).take(end as int),
            forall|m: int| 0 <= m < j ==> normalize_path_spec(#[trigger] s[m].path) != normalized@,
        decreases end - j,
    {
        assert(s[j as int] == list@[j as int]@);
        let p = normalize_path(list[j].path.as_str());
        if chars_equal(&chars_of(p.as_str()), &chars_of(normalized.as_str())) {
            assert(normalize_path_spec(s[j as int].path) == normalized@);
            return true;
        }
        j = j + 1;
    }
    false
}

/// The browsers found on the system, from the known install places'
/// findings and the registry's: each normalised path kept at its first
/// entry, the known install places' entries first, then sorted stably by
/// lower-cased name.
pub fn combine_detected_browsers(
    known_path_browsers: Vec<BrowserConfig>,
    registry_browsers: Vec<BrowserConfig>,
) -> (r: Vec<BrowserConfig>)
    ensures
        sorted_by(browsers_view(r@), name_key_fn()),
        same_order_per_key(
            browsers_view(r@),
            dedup_by_path(browsers_view(known_path_browsers@) + browsers_view(registry_browsers@)),
            name_key_fn(),
        ),
{
    let mut all = known_path_browsers;
    let mut rest = registry_browsers;
    let ghost joined = browsers_view(all@) + browsers_view(rest@);
    all.append(&mut rest);
    assert(browsers_view(all@) =~= joined);
    let mut kept: Vec<BrowserConfig> = Vec::new();
    let mut i: usize = 0;
    while i < all.len()
        invariant
            i <= all.len(),
            browsers_view(all@) == joined,
            browsers_view(kept@) == dedup_by_path(joined.take(i as int)),
        decreases all.len() - i,
    {
        let ghost before = browsers_view(kept@);
        let browser = &all[i];
        assert(joined[i as int] == browser@);
        assert(joined.take(i + 1).drop_last() =~= joined.take(i as int));
        assert(joined.take(i + 1).last() == browser@);
        let normalized = normalize_path(browser.path.as_str());
        if !path_listed_exec(&all, i, &normalized) {
            kept.push(copy_browser(browser));
            assert(browsers_view(kept@) =~= before.push(browser@));
        }
        i = i + 1;
    }
    assert(joined.take(i as int) =~= joined);
    sort_browsers_by_name(kept)
}

/// What detection on Windows finds before sorting, given which install
/// places exist and whether each registry entry's executable exists: the
/// known install places are looked at first, and the registry then adds
/// only the paths they did not give; each normalised path is kept at its
/// first entry.
pub open spec fn windows_detection_spec(
    entries: Seq<(Seq<char>, Seq<char>)>,
    exists: Seq<bool>,
    roots: Seq<Seq<char>>,
    existing: Seq<Seq<char>>,
) -> Seq<BrowserView> {
    let known_found = known_path_browsers_spec(known_definitions(), 0, roots, existing, Seq::empty());
    dedup_by_path(
        known_found + registry_browsers_spec(
            entries,
            exists,
            0,
            known_found.map_values(|b: BrowserView| normalize_path_spec(b.path)),
        ),
    )
}

/// The browsers found on Windows: see `windows_detection_spec`, sorted
/// stably by lower-cased name. The disk is asked which executables exist.
pub fn detect_browsers_windows(
    registry_entries: &Vec<RegistryBrowserEntry>,
    install_roots: &Vec<String>,
) -> (r: Vec<BrowserConfig>)
    ensures
        sorted_by(browsers_view(r@), name_key_fn()),
        exists|e: Seq<bool>, existing: Seq<Seq<char>>|
            e.len() == registry_entries.len() && same_order_per_key(
                browsers_view(r@),
                #[trigger] windows_detection_spec(
                    registry_entries_view(registry_entries@),
                    e,
                    strings_view(install_roots@),
                    existing,
                ),
                name_key_fn(),
            ),
{
    let nothing_seen: Vec<String> = Vec::new();
    assert(strings_view(nothing_seen@) =~= Seq::<Seq<char>>::empty());
    let from_known_paths = detect_browsers_from_known_paths(&nothing_seen, install_roots);
    let mut seen: Vec<String> = Vec::new();
    let mut i: usize = 0;
    while i < from_known_paths.len()
        invariant
            i <= from_known_paths.len(),
            strings_view(seen@) == browsers_view(from_known_paths@).take(i as int).map_values(
                |b: BrowserView| normalize_path_spec(b.path),
            ),
        decreases from_known_paths.len() - i,
    {
        let ghost before = strings_view(seen@);
        let normalized = normalize_path(from_known_paths[i].path.as_str());
        seen.push(normalized);
        assert(strings_view(seen@) =~= before.push(normalized@));
        assert(browsers_view(from_known_paths@).take(i + 1) =~= browsers_view(
            from_known_paths@,
        ).take(i as int).push(from_known_paths@[i as int]@));
        assert(browsers_view(from_known_paths@).take(i + 1).map_values(
            |b: BrowserView| normalize_path_spec(b.path),
        ) =~= browsers_view(from_known_paths@).take(i as int).map_values(
            |b: BrowserView| normalize_path_spec(b.path),
        ).push(normalized@));
        i = i + 1;
    }
    assert(browsers_view(from_known_paths@).take(i as int) =~= browsers_view(from_known_paths@));
    let from_registry = detect_browsers_from_registry(registry_entries, &seen);
    let ghost known_found = browsers_view(from_known_paths@);
    let ghost registry_found = browsers_view(from_registry@);
    let r = combine_detected_browsers(from_known_paths, from_registry);
    proof {
        let ev = registry_entries_view(registry_entries@);
        let existing = choose|existing: Seq<Seq<char>>|
            known_found == known_path_browsers_spec(
                known_definitions(),
                0,
                strings_view(install_roots@),
                existing,
                strings_view(nothing_seen@),
            );
        let e = choose|e: Seq<bool>|
            e.len() == registry_entries.len() && registry_found == registry_browsers_spec(
                ev,
                e,
                0,
                strings_view(seen@),
            );
        assert(windows_detection_spec(ev, e, strings_view(install_roots@), existing)
            == dedup_by_path(known_found + registry_found));
    }
    r
}

/// A refresh keeps every manual entry: each manual entry of the list before
/// the merge is in the merged list.
pub proof fn lemma_merge_keeps_manual_entries(
    old: Seq<BrowserView>,
    detected: Seq<BrowserView>,
    merged: Seq<BrowserView>,
)
    requires
        same_order_per_key(merged, merge_unsorted(old, detected), name_key_fn()),
    ensures
        forall|i: int| 0 <= i < old.len() && is_manual(old[i]) ==> merged.contains(#[trigger] old[i]),
{
    assert forall|i: int| 0 <= i < old.len() && is_manual(old[i]) implies merged.contains(
        #[trigger] old[i],
    ) by {
        let manual = old.filter(|b: BrowserView| is_manual(b));
        old.lemma_filter_contains(|b: BrowserView| is_manual(b), i);
        let j = choose|j: int| 0 <= j < manual.len() && manual[j] == old[i];
        let unsorted = merge_unsorted(old, detected);
        assert(unsorted[j] == old[i]);
        lemma_same_order_contains(merged, unsorted, name_key_fn(), old[i]);
    }
}

/// Every entry of a merged list is a manual entry of the list before the
/// merge, or a detected browser whose path no manual entry has, carrying the
/// hidden flag that its id had before.
pub proof fn lemma_merged_entries_origin(
    old: Seq<BrowserView>,
    detected: Seq<BrowserView>,
    merged: Seq<BrowserView>,
)
    requires
        same_order_per_key(merged, merge_unsorted(old, detected), name_key_fn()),
    ensures
        forall|j: int|
            0 <= j < merged.len() ==> (is_manual(#[trigger] merged[j]) && old.contains(merged[j]))
                || exists|d: int|
                0 <= d < detected.len() && keeps_detected(old)(detected[d]) && merged[j] == rehidden(
                    old,
                )(detected[d]),
{
    let unsorted = merge_unsorted(old, detected);
    assert(same_order_per_key(unsorted, merged, name_key_fn()));
    assert forall|j: int| 0 <= j < merged.len() implies (is_manual(#[trigger] merged[j])
        && old.contains(merged[j])) || exists|d: int|
        0 <= d < detected.len() && keeps_detected(old)(detected[d]) && merged[j] == rehidden(old)(
            detected[d],
        ) by {
        let x = merged[j];
        assert(merged.contains(x));
        lemma_same_order_contains(unsorted, merged, name_key_fn(), x);
        let manual = old.filter(|b: BrowserView| is_manual(b));
        let kept = detected.filter(keeps_detected(old));
        let k = choose|k: int| 0 <= k < unsorted.len() && unsorted[k] == x;
        if k < manual.len() {
            assert(manual[k] == x);
            assert(manual.contains(x));
            old.lemma_filter_pred(|b: BrowserView| is_manual(b), k);
            old.lemma_filter_contains_rev(|b: BrowserView| is_manual(b), x);
        } else {
            let m = k - manual.len();
            assert(x == rehidden(old)(kept[m]));
            detected.lemma_filter_pred(keeps_detected(old), m);
            assert(kept.contains(kept[m]));
            detected.lemma_filter_contains_rev(keeps_detected(old), kept[m]);
            let d = choose|d: int| 0 <= d < detected.len() && detected[d] == kept[m];
            assert(keeps_detected(old)(detected[d]) && x == rehidden(old)(detected[d]));
        }
    }
}

/// A detected browser's id depends on its normalised path alone, so the same
/// browser found again, whatever the case or separators of its path, gets
/// the same id (and keeps its hidden flag).
pub proof fn lemma_detected_id_stable(
    path_a: Seq<char>,
    path_b: Seq<char>,
    hint_a: Option<Seq<char>>,
    hint_b: Option<Seq<char>>,
    key_a: Option<Seq<char>>,
    key_b: Option<Seq<char>>,
)
    requires
        normalize_path_spec(path_a) == normalize_path_spec(path_b),
    ensures
        detected_browser_spec(path_a, hint_a, key_a).id == detected_browser_spec(
            path_b,
            hint_b,
            key_b,
        ).id,
{
}

/// Detection lists each normalised path once: no two entries of a
/// deduplicated list share a normalised path.
pub proof fn lemma_dedup_paths_distinct(s: Seq<BrowserView>)
    ensures
        forall|i: int, j: int|
            0 <= i < j < dedup_by_path(s).len() ==> normalize_path_spec(
                #[trigger] dedup_by_path(s)[i].path,
            ) != normalize_path_spec(#[trigger] dedup_by_path(s)[j].path),
        forall|i: int|
            0 <= i < dedup_by_path(s).len() ==> s.contains(#[trigger] dedup_by_path(s)[i]),
    decreases s.len(),
{
    if s.len() > 0 {
        let rest = s.drop_last();
        lemma_dedup_paths_distinct(rest);
        let d = dedup_by_path(rest);
        assert forall|i: int| 0 <= i < d.len() implies s.contains(#[trigger] d[i]) by {
            assert(rest.contains(d[i]));
            let k = choose|k: int| 0 <= k < rest.len() && rest[k] == d[i];
            assert(s[k] == d[i]);
        }
        if !path_listed(rest, normalize_path_spec(s.last().path)) {
            let full = d.push(s.last());
            assert(s[s.len() - 1] == s.last());
            assert forall|i: int| 0 <= i < d.len() implies normalize_path_spec(
                #[trigger] full[i].path,
            ) != normalize_path_spec(s.last().path) by {
                assert(full[i] == d[i]);
                assert(rest.contains(d[i]));
                let k = choose|k: int| 0 <= k < rest.len() && rest[k] == d[i];
                assert(normalize_path_spec(rest[k].path) != normalize_path_spec(s.last().path));
            }
        }
    }
}

/// A manual entry overrides a detected browser with the same path up to
/// separators and case: every entry of a merged list that is not one of the
/// manual entries from before has a normalised path (`/` read as `\\`,
/// lower-cased) that no manual entry from before has; and two detected
/// browsers whose paths normalise alike are kept or dropped together.
pub proof fn lemma_manual_entry_overrides_same_path(
    old: Seq<BrowserView>,
    detected: Seq<BrowserView>,
    merged: Seq<BrowserView>,
    a: BrowserView,
    b: BrowserView,
)
    requires
        same_order_per_key(merged, merge_unsorted(old, detected), name_key_fn()),
    ensures
        forall|j: int, k: int|
            0 <= j < merged.len() && 0 <= k < old.len() && is_manual(old[k]) && !(is_manual(
                #[trigger] merged[j],
            ) && old.contains(merged[j])) ==> normalize_path_spec(#[trigger] old[k].path)
                != normalize_path_spec(merged[j].path),
        normalize_path_spec(a.path) == normalize_path_spec(b.path) ==> keeps_detected(old)(a)
            == keeps_detected(old)(b),
{
    lemma_merged_entries_origin(old, detected, merged);
    assert forall|j: int, k: int|
        0 <= j < merged.len() && 0 <= k < old.len() && is_manual(old[k]) && !(is_manual(
            #[trigger] merged[j],
        ) && old.contains(merged[j])) implies normalize_path_spec(#[trigger] old[k].path)
        != normalize_path_spec(merged[j].path) by {
        let d = choose|d: int|
            0 <= d < detected.len() && keeps_detected(old)(detected[d]) && merged[j] == rehidden(
                old,
            )(detected[d]);
        assert(merged[j].path == detected[d].path);
        if normalize_path_spec(old[k].path) == normalize_path_spec(merged[j].path) {
            assert(manual_path_taken(old, normalize_path_spec(detected[d].path)));
        }
    }
}

} // verus!
