//! Registration of Hops as a browser: the registry values it writes, the keys
//! it removes, and how the registration status is read back.
use vstd::prelude::*;
use crate::models::{BrowserRegistrationStatus};
use crate::text::{chars_equal, chars_of, eq_ignore_ascii_case, eq_ignore_ascii_case_spec, join3, owned, starts_with};

verus! {

/// The name Hops registers under.
pub const HOPS_APP_NAME: &'static str = "Hops";

/// The class that handles http and https URLs.
pub const HOPS_PROTOCOL_PROG_ID: &'static str = "HopsURL";

/// The class that handles HTML files.
pub const HOPS_HTML_PROG_ID: &'static str = "HopsHTML";

/// The custom URI scheme of Hops.
pub const HOPS_CUSTOM_URI_SCHEME: &'static str = "Hops";

/// The capabilities key that `RegisteredApplications` points at.
pub open spec fn capabilities_path() -> Seq<char> {
    "Software\\Hops\\Capabilities"@
}

/// Whether the registration status reads a class as the Hops URL handler:
/// its name equals `HopsURL`, ignoring ASCII case.
pub open spec fn is_hops_prog_id(prog_id: Option<Seq<char>>) -> bool {
    match prog_id {
        Some(v) => eq_ignore_ascii_case_spec(v, "HopsURL"@),
        None => false,
    }
}

/// The registration status, from what the registry holds: Hops is registered
/// when `RegisteredApplications` names its capabilities key, and it is the
/// default for a scheme when that scheme's class is `HopsURL`.
pub fn browser_registration_status(
    registered_value: Option<String>,
    current_http_prog_id: Option<String>,
    current_https_prog_id: Option<String>,
) -> (r: BrowserRegistrationStatus)
    ensures
        r.registered == (registered_value.deep_view() == Some(capabilities_path())),
        r.is_default_http == is_hops_prog_id(current_http_prog_id.deep_view()),
        r.is_default_https == is_hops_prog_id(current_https_prog_id.deep_view()),
        r.is_fully_default == (r.is_default_http && r.is_default_https),
        r.current_http_prog_id.deep_view() == current_http_prog_id.deep_view(),
        r.current_https_prog_id.deep_view() == current_https_prog_id.deep_view(),
{
    let registered = match &registered_value {
        Some(v) => chars_equal(&chars_of(v.as_str()), &chars_of("Software\\Hops\\Capabilities")),
        None => false,
    };
    let is_default_http = match &current_http_prog_id {
        Some(v) => eq_ignore_ascii_case(&chars_of(v.as_str()), &chars_of("HopsURL")),
        None => false,
    };
    let is_default_https = match &current_https_prog_id {
        Some(v) => eq_ignore_ascii_case(&chars_of(v.as_str()), &chars_of("HopsURL")),
        None => false,
    };
    BrowserRegistrationStatus {
        registered,
        is_default_http,
        is_default_https,
        is_fully_default: is_default_http && is_default_https,
        current_http_prog_id,
        current_https_prog_id,
    }
}

/// One named value under a registry key, with the context of the error that
/// a failed write reports.
pub struct RegistryValue {
    pub name: String,
    pub data: String,
    pub error_context: String,
}

/// A registry key under the current user to create, with the context of the
/// error that a failed creation reports, and the values to write under it.
pub struct RegistryKeyWrite {
    pub path: String,
    pub error_context: String,
    pub values: Vec<RegistryValue>,
}

pub open spec fn value_view(v: RegistryValue) -> (Seq<char>, Seq<char>, Seq<char>) {
    (v.name@, v.data@, v.error_context@)
}

pub open spec fn key_write_view(k: RegistryKeyWrite) -> (
    Seq<char>,
    Seq<char>,
    Seq<(Seq<char>, Seq<char>, Seq<char>)>,
) {
    (k.path@, k.error_context@, k.values@.map_values(|v: RegistryValue| value_view(v)))
}

pub open spec fn plan_view(p: Seq<RegistryKeyWrite>) -> Seq<
    (Seq<char>, Seq<char>, Seq<(Seq<char>, Seq<char>, Seq<char>)>),
> {
    p.map_values(|k: RegistryKeyWrite| key_write_view(k))
}

/// The command that opens a URL with Hops: the quoted executable, `--url` and
/// the quoted placeholder.
pub open spec fn open_command_spec(executable: Seq<char>) -> Seq<char> {
    "\""@ + executable + "\" --url \"%1\""@
}

/// The icon of the URL class: the quoted executable's first icon.
pub open spec fn icon_value_spec(executable: Seq<char>) -> Seq<char> {
    "\""@ + executable + "\",0"@
}

/// Everything registration writes, key by key, in order.
pub open spec fn registration_plan_spec(executable: Seq<char>) -> Seq<
    (Seq<char>, Seq<char>, Seq<(Seq<char>, Seq<char>, Seq<char>)>),
> {
    let command = open_command_spec(executable);
    seq![
        ("Software\\Classes\\HopsURL"@, "Could not create Hops URL class key"@, seq![
            (""@, "Hops URL Handler"@, "Could not write HopsURL default value"@),
            ("URL Protocol"@, ""@, "Could not write HopsURL protocol marker"@),
        ]),
        ("Software\\Classes\\HopsURL\\DefaultIcon"@, "Could not create HopsURL icon key"@, seq![
            (""@, icon_value_spec(executable), "Could not write HopsURL icon value"@),
        ]),
        (
            "Software\\Classes\\HopsURL\\shell\\open\\command"@,
            "Could not create HopsURL command key"@,
            seq![(""@, command, "Could not write HopsURL command value"@)],
        ),
        ("Software\\Classes\\HopsHTML"@, "Could not create Hops HTML class key"@, seq![
            (""@, "Hops HTML Document"@, "Could not write HopsHTML default value"@),
        ]),
        (
            "Software\\Classes\\HopsHTML\\shell\\open\\command"@,
            "Could not create HopsHTML command key"@,
            seq![(""@, command, "Could not write HopsHTML command value"@)],
        ),
        ("Software\\Classes\\Hops"@, "Could not create Hops custom scheme key"@, seq![
            (""@, "Hops Custom URI"@, "Could not write Hops custom scheme name"@),
            ("URL Protocol"@, ""@, "Could not write Hops custom scheme marker"@),
        ]),
        (
            "Software\\Classes\\Hops\\shell\\open\\command"@,
            "Could not create Hops custom scheme command key"@,
            seq![(""@, command, "Could not write Hops custom scheme command"@)],
        ),
        ("Software\\Hops\\Capabilities"@, "Could not create Hops capabilities key"@, seq![
            ("ApplicationName"@, "Hops"@, "Could not write ApplicationName"@),
            (
                "ApplicationDescription"@,
                "Hops routes external links to the right browser."@,
                "Could not write ApplicationDescription"@,
            ),
        ]),
        (
            "Software\\Hops\\Capabilities\\URLAssociations"@,
            "Could not create URLAssociations key"@,
            seq![
                ("http"@, "HopsURL"@, "Could not write HTTP association"@),
                ("https"@, "HopsURL"@, "Could not write HTTPS association"@),
            ],
        ),
        (
            "Software\\Hops\\Capabilities\\FileAssociations"@,
            "Could not create FileAssociations key"@,
            seq![
                (".htm"@, "HopsHTML"@, "Could not write .htm association"@),
                (".html"@, "HopsHTML"@, "Could not write .html association"@),
            ],
        ),
        (
            "Software\\RegisteredApplications"@,
            "Could not create RegisteredApplications key"@,
            seq![
                (
                    "Hops"@,
                    "Software\\Hops\\Capabilities"@,
                    "Could not register Hops in RegisteredApplications"@,
                ),
            ],
        ),
    ]
}

fn value(name: &str, data: String, error_context: &str) -> (r: RegistryValue)
    ensures
        value_view(r) == (name@, data@, error_context@),
{
    RegistryValue { name: owned(name), data, error_context: owned(error_context) }
}

fn key_write(path: &str, error_context: &str, values: Vec<RegistryValue>) -> (r: RegistryKeyWrite)
    ensures
        key_write_view(r) == (
            path@,
            error_context@,
            values@.map_values(|v: RegistryValue| value_view(v)),
        ),
{
    RegistryKeyWrite { path: owned(path), error_context: owned(error_context), values }
}

/// The command that opens a URL with Hops: see `open_command_spec`.
pub fn open_command(executable: &str) -> (r: String)
    ensures
        r@ == open_command_spec(executable@),
{
    join3("\"", executable, "\" --url \"%1\"")
}

/// Everything registration writes for the given executable: see
/// `registration_plan_spec`.
pub fn registration_plan(executable: &str) -> (r: Vec<RegistryKeyWrite>)
    ensures
        plan_view(r@) == registration_plan_spec(executable@),
{
    let command = open_command(executable);
    let icon = join3("\"", executable, "\",0");
    let plan = vec![
        key_write("Software\\Classes\\HopsURL", "Could not create Hops URL class key", vec![
            value("", owned("Hops URL Handler"), "Could not write HopsURL default value"),
            value("URL Protocol", owned(""), "Could not write HopsURL protocol marker"),
        ]),
        key_write("Software\\Classes\\HopsURL\\DefaultIcon", "Could not create HopsURL icon key", vec![
            value("", icon, "Could not write HopsURL icon value"),
        ]),
        key_write(
            "Software\\Classes\\HopsURL\\shell\\open\\command",
            "Could not create HopsURL command key",
            vec![value("", command.clone(), "Could not write HopsURL command value")],
        ),
        key_write("Software\\Classes\\HopsHTML", "Could not create Hops HTML class key", vec![
            value("", owned("Hops HTML Document"), "Could not write HopsHTML default value"),
        ]),
        key_write(
            "Software\\Classes\\HopsHTML\\shell\\open\\command",
            "Could not create HopsHTML command key",
            vec![value("", command.clone(), "Could not write HopsHTML command value")],
        ),
        key_write("Software\\Classes\\Hops", "Could not create Hops custom scheme key", vec![
            value("", owned("Hops Custom URI"), "Could not write Hops custom scheme name"),
            value("URL Protocol", owned(""), "Could not write Hops custom scheme marker"),
        ]),
        key_write(
            "Software\\Classes\\Hops\\shell\\open\\command",
            "Could not create Hops custom scheme command key",
            vec![value("", command, "Could not write Hops custom scheme command")],
        ),
        key_write("Software\\Hops\\Capabilities", "Could not create Hops capabilities key", vec![
            value("ApplicationName", owned("Hops"), "Could not write ApplicationName"),
            value(
                "ApplicationDescription",
                owned("Hops routes external links to the right browser."),
                "Could not write ApplicationDescription",
            ),
        ]),
        key_write(
            "Software\\Hops\\Capabilities\\URLAssociations",
            "Could not create URLAssociations key",
            vec![
                value("http", owned("HopsURL"), "Could not write HTTP association"),
                value("https", owned("HopsURL"), "Could not write HTTPS association"),
            ],
        ),
        key_write(
            "Software\\Hops\\Capabilities\\FileAssociations",
            "Could not create FileAssociations key",
            vec![
                value(".htm", owned("HopsHTML"), "Could not write .htm association"),
                value(".html", owned("HopsHTML"), "Could not write .html association"),
            ],
        ),
        key_write(
            "Software\\RegisteredApplications",
            "Could not create RegisteredApplications key",
            vec![
                value(
                    "Hops",
                    owned("Software\\Hops\\Capabilities"),
                    "Could not register Hops in RegisteredApplications",
                ),
            ],
        ),
    ];
    assert(plan_view(plan@) =~~= registration_plan_spec(executable@));
    plan
}

/// The keys under the current user that unregistering removes, whole.
pub open spec fn unregistration_keys_spec() -> Seq<Seq<char>> {
    seq![
        "Software\\Hops"@,
        "Software\\Classes\\HopsURL"@,
        "Software\\Classes\\HopsHTML"@,
        "Software\\Classes\\Hops"@,
    ]
}

/// The keys that unregistering removes: see `unregistration_keys_spec`. The
/// value `Hops` under `Software\RegisteredApplications` goes first.
pub fn unregistration_keys() -> (r: Vec<String>)
    ensures
        r@.map_values(|s: String| s@) == unregistration_keys_spec(),
{
    let keys = vec![
        owned("Software\\Hops"),
        owned("Software\\Classes\\HopsURL"),
        owned("Software\\Classes\\HopsHTML"),
        owned("Software\\Classes\\Hops"),
    ];
    assert(keys@.map_values(|s: String| s@) =~= unregistration_keys_spec());
    keys
}

/// What registration writes is what the status reads back: the value under
/// `RegisteredApplications` names the capabilities key that the status looks
/// for, and the class associated with http and with https is the one that
/// the status counts as Hops.
pub proof fn lemma_registration_is_recognized(executable: Seq<char>)
    ensures
        ({
            let plan = registration_plan_spec(executable);
            &&& plan[10].0 == "Software\\RegisteredApplications"@
            &&& plan[10].2[0].0 == "Hops"@
            &&& plan[10].2[0].1 == capabilities_path()
            &&& plan[8].0 == "Software\\Hops\\Capabilities\\URLAssociations"@
            &&& plan[8].2[0].0 == "http"@ && is_hops_prog_id(Some(plan[8].2[0].1))
            &&& plan[8].2[1].0 == "https"@ && is_hops_prog_id(Some(plan[8].2[1].1))
        }),
{
}

/// The key itself, or a key below it.
pub open spec fn under_key(path: Seq<char>, key: Seq<char>) -> bool {
    path == key || starts_with(path, key + "\\"@)
}

/// Unregistering removes everything registration wrote: every key that
/// registration creates lies under a key that unregistering removes, except
/// `Software\RegisteredApplications`, whose `Hops` value alone it deletes.
pub proof fn lemma_unregistration_covers_registration(executable: Seq<char>)
    ensures
        forall|i: int|
            0 <= i < registration_plan_spec(executable).len() ==> #[trigger] registration_plan_spec(
                executable,
            )[i].0 == "Software\\RegisteredApplications"@ || exists|k: int|
                0 <= k < unregistration_keys_spec().len() && under_key(
                    registration_plan_spec(executable)[i].0,
                    #[trigger] unregistration_keys_spec()[k],
                ),
{
    reveal_strlit("\\");
    reveal_strlit("Software\\Hops");
    reveal_strlit("Software\\Classes\\HopsURL");
    reveal_strlit("Software\\Classes\\HopsHTML");
    reveal_strlit("Software\\Classes\\Hops");
    reveal_strlit("Software\\Classes\\HopsURL\\DefaultIcon");
    reveal_strlit("Software\\Classes\\HopsURL\\shell\\open\\command");
    reveal_strlit("Software\\Classes\\HopsHTML\\shell\\open\\command");
    reveal_strlit("Software\\Classes\\Hops\\shell\\open\\command");
    reveal_strlit("Software\\Hops\\Capabilities");
    reveal_strlit("Software\\Hops\\Capabilities\\URLAssociations");
    reveal_strlit("Software\\Hops\\Capabilities\\FileAssociations");
    let plan = registration_plan_spec(executable);
    let keys = unregistration_keys_spec();
    let sep = "\\"@;
    assert(under_key(plan[0].0, keys[1]));
    assert((keys[1] + sep) =~= plan[1].0.subrange(0, (keys[1] + sep).len() as int));
    assert(under_key(plan[1].0, keys[1]));
    assert((keys[1] + sep) =~= plan[2].0.subrange(0, (keys[1] + sep).len() as int));
    assert(under_key(plan[2].0, keys[1]));
    assert(under_key(plan[3].0, keys[2]));
    assert((keys[2] + sep) =~= plan[4].0.subrange(0, (keys[2] + sep).len() as int));
    assert(under_key(plan[4].0, keys[2]));
    assert(under_key(plan[5].0, keys[3]));
    assert((keys[3] + sep) =~= plan[6].0.subrange(0, (keys[3] + sep).len() as int));
    assert(under_key(plan[6].0, keys[3]));
    assert((keys[0] + sep) =~= plan[7].0.subrange(0, (keys[0] + sep).len() as int));
    assert(under_key(plan[7].0, keys[0]));
    assert((keys[0] + sep) =~= plan[8].0.subrange(0, (keys[0] + sep).len() as int));
    assert(under_key(plan[8].0, keys[0]));
    assert((keys[0] + sep) =~= plan[9].0.subrange(0, (keys[0] + sep).len() as int));
    assert(under_key(plan[9].0, keys[0]));
    assert forall|i: int| 0 <= i < plan.len() implies #[trigger] plan[i].0
        == "Software\\RegisteredApplications"@ || exists|k: int|
        0 <= k < keys.len() && under_key(plan[i].0, #[trigger] keys[k]) by {
        if i == 0 || i == 1 || i == 2 {
            assert(under_key(plan[i].0, keys[1]));
        } else if i == 3 || i == 4 {
            assert(under_key(plan[i].0, keys[2]));
        } else if i == 5 || i == 6 {
            assert(under_key(plan[i].0, keys[3]));
        } else if i == 7 || i == 8 || i == 9 {
            assert(under_key(plan[i].0, keys[0]));
        }
    }
}

/// The plan writes the value `name` with the data `data` under the key at
/// `path`.
pub open spec fn plan_writes(
    plan: Seq<(Seq<char>, Seq<char>, Seq<(Seq<char>, Seq<char>, Seq<char>)>)>,
    path: Seq<char>,
    name: Seq<char>,
    data: Seq<char>,
) -> bool {
    exists|k: int, j: int|
        0 <= k < plan.len() && 0 <= j < plan[k].2.len() && #[trigger] plan[k].0 == path
            && #[trigger] plan[k].2[j].0 == name && plan[k].2[j].1 == data
}

/// Registration claims what Hops handles, each for the class that handles
/// it: `http` and `https` for `HopsURL`, `.htm` and `.html` for `HopsHTML`,
/// and it lists Hops under `RegisteredApplications`.
pub proof fn lemma_registration_claims_every_association(executable: Seq<char>)
    ensures
        ({
            let plan = registration_plan_spec(executable);
            let urls = "Software\\Hops\\Capabilities\\URLAssociations"@;
            let files = "Software\\Hops\\Capabilities\\FileAssociations"@;
            &&& plan_writes(plan, urls, "http"@, "HopsURL"@)
            &&& plan_writes(plan, urls, "https"@, "HopsURL"@)
            &&& plan_writes(plan, files, ".htm"@, "HopsHTML"@)
            &&& plan_writes(plan, files, ".html"@, "HopsHTML"@)
            &&& plan_writes(
                plan,
                "Software\\RegisteredApplications"@,
                "Hops"@,
                "Software\\Hops\\Capabilities"@,
            )
        }),
{
    let plan = registration_plan_spec(executable);
    let urls = "Software\\Hops\\Capabilities\\URLAssociations"@;
    let files = "Software\\Hops\\Capabilities\\FileAssociations"@;
    assert(plan[8].0 == urls && plan[8].2[0].0 == "http"@ && plan[8].2[0].1 == "HopsURL"@);
    assert(plan_writes(plan, urls, "http"@, "HopsURL"@));
    assert(plan[8].0 == urls && plan[8].2[1].0 == "https"@ && plan[8].2[1].1 == "HopsURL"@);
    assert(plan_writes(plan, urls, "https"@, "HopsURL"@));
    assert(plan[9].0 == files && plan[9].2[0].0 == ".htm"@ && plan[9].2[0].1 == "HopsHTML"@);
    assert(plan_writes(plan, files, ".htm"@, "HopsHTML"@));
    assert(plan[9].0 == files && plan[9].2[1].0 == ".html"@ && plan[9].2[1].1 == "HopsHTML"@);
    assert(plan_writes(plan, files, ".html"@, "HopsHTML"@));
    assert(plan[10].0 == "Software\\RegisteredApplications"@ && plan[10].2[0].0 == "Hops"@
        && plan[10].2[0].1 == "Software\\Hops\\Capabilities"@);
}

/// Every class that registration creates opens URLs with Hops: the open
/// command of `HopsURL`, `HopsHTML` and the `Hops` scheme is the quoted
/// executable with `--url` and the quoted placeholder, and the two URL
/// classes are marked as URL protocols.
pub proof fn lemma_registration_commands_run_hops(executable: Seq<char>)
    ensures
        ({
            let plan = registration_plan_spec(executable);
            let command = "\""@ + executable + "\" --url \"%1\""@;
            &&& plan_writes(plan, "Software\\Classes\\HopsURL\\shell\\open\\command"@, ""@, command)
            &&& plan_writes(plan, "Software\\Classes\\HopsHTML\\shell\\open\\command"@, ""@, command)
            &&& plan_writes(plan, "Software\\Classes\\Hops\\shell\\open\\command"@, ""@, command)
            &&& plan_writes(plan, "Software\\Classes\\HopsURL"@, "URL Protocol"@, ""@)
            &&& plan_writes(plan, "Software\\Classes\\Hops"@, "URL Protocol"@, ""@)
        }),
{
    let plan = registration_plan_spec(executable);
    assert(plan[2].2[0].0 == ""@ && plan[2].2[0].1 == open_command_spec(executable));
    assert(plan_writes(plan, plan[2].0, ""@, open_command_spec(executable)));
    assert(plan[4].2[0].0 == ""@ && plan[4].2[0].1 == open_command_spec(executable));
    assert(plan_writes(plan, plan[4].0, ""@, open_command_spec(executable)));
    assert(plan[6].2[0].0 == ""@ && plan[6].2[0].1 == open_command_spec(executable));
    assert(plan_writes(plan, plan[6].0, ""@, open_command_spec(executable)));
    assert(plan[0].2[1].0 == "URL Protocol"@ && plan[0].2[1].1 == ""@);
    assert(plan_writes(plan, plan[0].0, "URL Protocol"@, ""@));
    assert(plan[5].2[1].0 == "URL Protocol"@ && plan[5].2[1].1 == ""@);
    assert(plan_writes(plan, plan[5].0, "URL Protocol"@, ""@));
}

} // verus!
