//! The script that makes GRUB ask Home Assistant what to boot.

use vstd::prelude::*;

use crate::client::{webhook_address, webhook_url};
use crate::command::{command, words2, Command, CommandResult};
use crate::config::{
    default_network_wait, find_grub_file, grub_file, Config, ConfigModel, GrubConfig, GrubModel,
    DEFAULT_NETWORK_WAIT,
};
use crate::text::{
    concat, concat3, concat4, decimal, decimal_text, join, joined, position, replace, replaced,
    split_at_first, strip_prefixes, trim_start_copies,
};

verus! {

/// Where the script stands unless the environment says otherwise.
pub const DEFAULT_HOOK_PATH: &'static str = "/etc/grub.d/99_grubstation";

/// The address of the boot target in the template of the script.
pub const URL_MARK: &'static str = "(http,{{HOST}})/api/grubstation/{{MAC_ADDRESS}}?token={{WEBHOOK_ID}}";

/// The number of seconds to wait in the template of the script.
pub const WAIT_SECONDS_MARK: &'static str = "{{WAIT_TIME_SECONDS}}";

/// The seconds, counted one by one, in the template of the script.
pub const WAIT_LIST_MARK: &'static str = "{{WAIT_LIST}}";

/// A script to be installed.
pub struct HookPlan {
    pub grub: GrubConfig,
    pub boot_url: String,
    pub update_grub: bool,
}

/// A script to be installed.
pub struct HookModel {
    pub grub: GrubModel,
    pub boot_url: Seq<char>,
    pub update_grub: bool,
}

impl View for HookPlan {
    type V = HookModel;

    open spec fn view(&self) -> HookModel {
        HookModel {
            grub: self.grub@,
            boot_url: self.boot_url@,
            update_grub: self.update_grub,
        }
    }
}

/// The view of a script to be installed, if there is one.
pub open spec fn hook_view(plan: Option<HookPlan>) -> Option<HookModel> {
    match plan {
        Some(plan) => Some(plan@),
        None => None,
    }
}

/// A copy of a script to be installed, if there is one.
pub fn copy_plan(plan: &Option<HookPlan>) -> (r: Option<HookPlan>)
    ensures
        r == *plan,
{
    match plan {
        Some(plan) => Some(
            HookPlan {
                grub: plan.grub.clone(),
                boot_url: plan.boot_url.clone(),
                update_grub: plan.update_grub,
            },
        ),
        None => None,
    }
}

/// The script that a pairing installs: one for the GRUB configuration that is
/// configured or found, which asks the webhook of the pairing; none where there
/// is no GRUB configuration.
pub open spec fn pairing_hook(
    c: ConfigModel,
    present: Seq<bool>,
    ha_url: Seq<char>,
    webhook_id: Seq<char>,
    update_grub: bool,
) -> Option<HookModel> {
    match grub_file(c, present) {
        Some(path) => Some(
            HookModel {
                grub: GrubModel {
                    path,
                    network_wait: match c.grub {
                        Some(grub) => grub.network_wait,
                        None => DEFAULT_NETWORK_WAIT,
                    },
                    webhook_id,
                },
                boot_url: webhook_address(ha_url, webhook_id),
                update_grub,
            },
        ),
        None => None,
    }
}

/// The script that a pairing installs, where `present` says at which of the
/// default places there is a GRUB configuration.
pub fn plan_pairing_hook(
    config: &Config,
    present: &Vec<bool>,
    ha_url: &str,
    webhook_id: &str,
    update_grub: bool,
) -> (r: Option<HookPlan>)
    ensures
        hook_view(r) == pairing_hook(config@, present@, ha_url@, webhook_id@, update_grub),
{
    match find_grub_file(config, present) {
        Some(path) => Some(
            HookPlan {
                grub: GrubConfig {
                    path,
                    network_wait: match &config.grub {
                        Some(grub) => grub.network_wait,
                        None => default_network_wait(),
                    },
                    webhook_id: webhook_id.to_string(),
                },
                boot_url: webhook_url(ha_url, webhook_id),
                update_grub,
            },
        ),
        None => None,
    }
}

/// The numbers from one to `n`.
pub open spec fn counted(n: nat) -> Seq<Seq<char>> {
    Seq::new(n, |i: int| decimal((i + 1) as nat))
}

/// The numbers from one to `n`, with blanks in between.
pub open spec fn wait_list(n: nat) -> Seq<char> {
    joined(counted(n), " "@)
}

/// An address as GRUB writes it: the scheme is left out, and the host stands in
/// brackets in front of the path.
pub open spec fn grub_address(url: Seq<char>) -> Seq<char> {
    let rest = strip_prefixes(strip_prefixes(url, "http://"@), "https://"@);
    let end = position(rest, '/');
    if end < rest.len() {
        "(http,"@ + rest.take(end) + ")"@ + rest.skip(end)
    } else {
        "(http,"@ + rest + ")"@
    }
}

/// The address that the script asks: the given one, or one on the host itself.
pub open spec fn boot_address(
    given: Option<Seq<char>>,
    address: Seq<char>,
    mac: Seq<char>,
    webhook_id: Seq<char>,
) -> Seq<char> {
    match given {
        Some(url) => grub_address(url),
        None => "(http,"@ + address + ")/api/grubstation/"@ + mac + "?token="@ + webhook_id,
    }
}

/// The script: the template with its marks filled in.
pub open spec fn hook_script(template: Seq<char>, boot_url: Seq<char>, wait: nat) -> Seq<char> {
    replaced(
        replaced(replaced(template, URL_MARK@, boot_url), WAIT_SECONDS_MARK@, decimal(wait)),
        WAIT_LIST_MARK@,
        wait_list(wait),
    )
}

/// The numbers from one to `n`, with blanks in between.
pub fn wait_list_text(n: u32) -> (r: String)
    ensures
        r@ == wait_list(n as nat),
{
    let mut parts: Vec<String> = Vec::new();
    let mut i: u32 = 0;
    while i < n
        invariant
            i <= n,
            parts.deep_view() == counted(i as nat),
        decreases n - i,
    {
        let ghost before = parts.deep_view();
        parts.push(decimal_text(i + 1));
        assert(parts.deep_view() =~= before.push(decimal((i + 1) as nat)));
        i += 1;
        assert(parts.deep_view() =~= counted(i as nat));
    }
    join(&parts, " ")
}

/// An address as GRUB writes it.
pub fn grub_url(url: &str) -> (r: String)
    ensures
        r@ == grub_address(url@),
{
    let without_http = trim_start_copies(url, "http://");
    let rest = trim_start_copies(without_http.as_str(), "https://");
    match split_at_first(rest.as_str(), '/') {
        Some((host, path)) => concat4("(http,", host.as_str(), ")", path.as_str()),
        None => concat3("(http,", rest.as_str(), ")"),
    }
}

/// The script for the host with this MAC address and address, from its template:
/// it asks the given address, or the host itself, for as long as is configured.
pub open spec fn installed_script(
    template: Seq<char>,
    mac: Seq<char>,
    address: Seq<char>,
    grub: GrubModel,
    given: Option<Seq<char>>,
) -> Seq<char> {
    hook_script(
        template,
        boot_address(given, address, mac, grub.webhook_id),
        grub.network_wait as nat,
    )
}

/// The script for the host with this MAC address and address, from its template.
pub fn install_grub_hook_to_path(
    template: &str,
    mac: &str,
    address: &str,
    grub_config: &GrubConfig,
    grub_boot_url: Option<&str>,
) -> (r: String)
    ensures
        r@ == installed_script(
            template@,
            mac@,
            address@,
            grub_config@,
            match grub_boot_url {
                Some(url) => Some(url@),
                None => None,
            },
        ),
{
    let boot_url = match grub_boot_url {
        Some(url) => grub_url(url),
        None => concat4(
            concat("(http,", address).as_str(),
            concat(")/api/grubstation/", mac).as_str(),
            "?token=",
            grub_config.webhook_id.as_str(),
        ),
    };
    assert(grub_boot_url is None ==> boot_url@ =~= "(http,"@ + address@ + ")/api/grubstation/"@
        + mac@ + "?token="@ + grub_config.webhook_id@);
    let with_url = replace(template, URL_MARK, boot_url.as_str());
    let with_wait = replace(
        with_url.as_str(),
        WAIT_SECONDS_MARK,
        decimal_text(grub_config.network_wait).as_str(),
    );
    replace(with_wait.as_str(), WAIT_LIST_MARK, wait_list_text(grub_config.network_wait).as_str())
}

/// Where the script stands: where the environment says, or at the default place.
pub open spec fn hook_place(from_environment: Option<Seq<char>>) -> Seq<char> {
    match from_environment {
        Some(path) => path,
        None => DEFAULT_HOOK_PATH@,
    }
}

/// Where the script stands: where the environment says, or at the default place.
pub fn hook_path(from_environment: Option<String>) -> (r: String)
    ensures
        r@ == hook_place(from_environment.deep_view()),
{
    match from_environment {
        Some(path) => path,
        None => DEFAULT_HOOK_PATH.to_string(),
    }
}

/// A tool that makes GRUB take up the script.
#[derive(Clone, Copy, Debug, PartialEq, Eq, Structural)]
pub enum Attempt {
    UpdateGrub,
    GrubMkconfig,
    Grub2Mkconfig,
}

/// How bringing GRUB up to date ended.
pub enum UpdateEnd {
    /// It was not asked for.
    Skipped,
    /// A tool did it.
    Updated,
    /// A tool ran and failed.
    Failed { status: String },
    /// There is no tool for it.
    NoTool,
}

/// What comes next in bringing GRUB up to date.
pub enum UpdateStep {
    Run(Attempt),
    End(UpdateEnd),
    Error { message: String },
}

/// The tools, in the order in which they are tried.
pub open spec fn next_attempt(attempt: Attempt) -> Option<Attempt> {
    match attempt {
        Attempt::UpdateGrub => Some(Attempt::GrubMkconfig),
        Attempt::GrubMkconfig => Some(Attempt::Grub2Mkconfig),
        Attempt::Grub2Mkconfig => None,
    }
}

/// The name of a tool.
pub open spec fn tool_name(attempt: Attempt) -> Seq<char> {
    match attempt {
        Attempt::UpdateGrub => "update-grub"@,
        Attempt::GrubMkconfig => "grub-mkconfig"@,
        Attempt::Grub2Mkconfig => "grub2-mkconfig"@,
    }
}

/// The name of a tool.
fn tool(attempt: Attempt) -> (r: &'static str)
    ensures
        r@ == tool_name(attempt),
{
    match attempt {
        Attempt::UpdateGrub => "update-grub",
        Attempt::GrubMkconfig => "grub-mkconfig",
        Attempt::Grub2Mkconfig => "grub2-mkconfig",
    }
}

/// The arguments of a tool that writes the GRUB configuration at `path`.
pub open spec fn tool_args(attempt: Attempt, path: Seq<char>) -> Seq<Seq<char>> {
    if attempt is UpdateGrub {
        Seq::empty()
    } else {
        seq!["-o"@, path]
    }
}

/// The command line of a tool that writes the GRUB configuration at `path`.
pub fn update_command(attempt: Attempt, path: &str) -> (r: Command)
    ensures
        r.is(tool_name(attempt), tool_args(attempt, path@)),
{
    match attempt {
        Attempt::UpdateGrub => {
            let r = command(tool(attempt), Vec::new());
            assert(r.args.deep_view() =~= Seq::<Seq<char>>::empty());
            r
        },
        _ => command(tool(attempt), words2("-o", path)),
    }
}

/// What comes first once the script is written.
pub open spec fn first_step(run_update_grub: bool, on_linux: bool) -> UpdateStep {
    if run_update_grub && on_linux {
        UpdateStep::Run(Attempt::UpdateGrub)
    } else {
        UpdateStep::End(UpdateEnd::Skipped)
    }
}

/// What comes first once the script is written: GRUB is brought up to date on
/// Linux, where it is asked for.
pub fn install_grub_hook(run_update_grub: bool, on_linux: bool) -> (r: UpdateStep)
    ensures
        r == first_step(run_update_grub, on_linux),
{
    if run_update_grub && on_linux {
        UpdateStep::Run(Attempt::UpdateGrub)
    } else {
        UpdateStep::End(UpdateEnd::Skipped)
    }
}

/// Whether this step comes after a tool of which that came.
pub open spec fn comes_after(attempt: Attempt, result: CommandResult, step: UpdateStep) -> bool {
    match result {
        CommandResult::Ran { success, status } => step == UpdateStep::End(
            if success {
                UpdateEnd::Updated
            } else {
                UpdateEnd::Failed { status }
            },
        ),
        CommandResult::NotRun { reason, not_found } => if not_found {
            step == match next_attempt(attempt) {
                Some(next) => UpdateStep::Run(next),
                None => UpdateStep::End(UpdateEnd::NoTool),
            }
        } else {
            step matches UpdateStep::Error { message } && message@ == "Failed to run "@ + tool_name(
                attempt,
            ) + ": "@ + reason@
        },
    }
}

/// What comes after a tool: the next one only where this one is not there; any
/// other failure to run it is an error.
pub fn after_attempt(attempt: Attempt, result: CommandResult) -> (r: UpdateStep)
    ensures
        comes_after(attempt, result, r),
{
    match result {
        CommandResult::Ran { success, status } => if success {
            UpdateStep::End(UpdateEnd::Updated)
        } else {
            UpdateStep::End(UpdateEnd::Failed { status })
        },
        CommandResult::NotRun { reason, not_found } => if not_found {
            match attempt {
                Attempt::UpdateGrub => UpdateStep::Run(Attempt::GrubMkconfig),
                Attempt::GrubMkconfig => UpdateStep::Run(Attempt::Grub2Mkconfig),
                Attempt::Grub2Mkconfig => UpdateStep::End(UpdateEnd::NoTool),
            }
        } else {
            UpdateStep::Error {
                message: concat4("Failed to run ", tool(attempt), ": ", reason.as_str()),
            }
        },
    }
}

/// Whether the text is the scheme of an address.
pub open spec fn is_scheme(scheme: Seq<char>) -> bool {
    scheme == "http://"@ || scheme == "https://"@
}

/// GRUB asks the webhook of Home Assistant: the host stands in brackets,
/// whatever the scheme, and the path of the webhook behind it.
pub proof fn grub_asks_the_webhook(scheme: Seq<char>, host: Seq<char>, webhook_id: Seq<char>)
    requires
        is_scheme(scheme),
        host.len() > 0,
        forall|i: int| 0 <= i < host.len() ==> host[i] != '/',
    ensures
        grub_address(webhook_address(scheme + host, webhook_id)) == "(http,"@ + host
            + ")/api/webhook/"@ + webhook_id,
{
    reveal_strlit("http://");
    reveal_strlit("https://");
    reveal_strlit("/api/webhook/");
    reveal_strlit(")");
    reveal_strlit(")/api/webhook/");
    let base = scheme + host;
    assert(base.last() == host.last());
    let rest = host + "/api/webhook/"@ + webhook_id;
    let url = webhook_address(base, webhook_id);
    assert(url =~= scheme + rest);
    let n = host.len() as int;
    assert(rest[n] == '/');
    assert(rest[n + 1] == 'a');
    assert forall|i: int| 0 <= i < n implies rest[i] != '/' by {
        assert(rest[i] == host[i]);
    }
    no_scheme_inside(rest, n, "http://"@);
    no_scheme_inside(rest, n, "https://"@);
    assert(url.skip(scheme.len() as int) =~= rest);
    if scheme == "http://"@ {
        assert("http://"@.is_prefix_of(url));
        assert(strip_prefixes(url, "http://"@) == strip_prefixes(rest, "http://"@));
    } else {
        assert(url[4] == 's');
        assert(!"http://"@.is_prefix_of(url)) by {
            if "http://"@.is_prefix_of(url) {
                assert(url.subrange(0, 7)[4] == url[4]);
            }
        }
        assert("https://"@.is_prefix_of(url));
        assert(strip_prefixes(url, "https://"@) == strip_prefixes(rest, "https://"@));
    }
    position_of_first(rest, n);
    assert(rest.take(n) =~= host);
    assert(rest.skip(n) =~= "/api/webhook/"@ + webhook_id);
    assert(")"@ + "/api/webhook/"@ =~= ")/api/webhook/"@);
    assert("(http,"@ + rest.take(n) + ")"@ + rest.skip(n) =~= "(http,"@ + host + ")/api/webhook/"@
        + webhook_id);
}

/// A text whose first slash is a single one does not start with a scheme.
proof fn no_scheme_inside(rest: Seq<char>, n: int, scheme: Seq<char>)
    requires
        is_scheme(scheme),
        0 <= n,
        n + 1 < rest.len(),
        forall|i: int| 0 <= i < n ==> rest[i] != '/',
        rest[n] == '/',
        rest[n + 1] != '/',
    ensures
        !scheme.is_prefix_of(rest),
        strip_prefixes(rest, scheme) == rest,
{
    reveal_strlit("http://");
    reveal_strlit("https://");
    if scheme.is_prefix_of(rest) {
        let m = scheme.len() as int;
        let start = rest.subrange(0, m);
        assert(start == scheme);
        assert(start[m - 2] == rest[m - 2]);
        assert(start[m - 1] == rest[m - 1]);
        assert(rest[m - 2] == '/' && rest[m - 1] == '/');
        if n < m - 2 {
            assert(start[n] == rest[n]);
        }
        assert(false);
    }
}

proof fn position_of_first(s: Seq<char>, n: int)
    requires
        0 <= n < s.len(),
        s[n] == '/',
        forall|i: int| 0 <= i < n ==> s[i] != '/',
    ensures
        position(s, '/') == n,
    decreases n,
{
    if n > 0 {
        assert(s[0] != '/');
        position_of_first(s.drop_first(), n - 1);
    }
}

} // verus!
