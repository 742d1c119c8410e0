//! What GRUB is asked and told.

use vstd::prelude::*;

use crate::client::webhook_address;
use crate::command::CommandResult;
use crate::config::{default_grub_file, grub_file, ConfigModel, GrubModel};
use crate::daemon::PersistedModel;
use crate::grub::{boot_entries, is_quote};
use crate::hook::{
    boot_address, comes_after, counted, first_step, grub_address, hook_place, hook_script,
    installed_script, next_attempt, pairing_hook, tool_args, tool_name, wait_list, Attempt,
    UpdateEnd, UpdateStep, URL_MARK, WAIT_LIST_MARK, WAIT_SECONDS_MARK,
};
use crate::laws::text::{
    copies_are_taken_off_the_end, decimal_spells_the_number, lists_are_joined, nothing_is_replaced,
    number_spelled, only_part_is_replaced, prefixes_are_stripped, stands_nowhere, stands_only_at,
};
use crate::menu::{
    are_commands, as_text, brace_level, can_write, entries_of_written_menu, header_line, is_header,
    paths, text_of_sum, written, Header, MenuItem,
};
use crate::service::{
    hooks_shutdown, starts_service, unit_text, windows_command_line, Platform, ServicePlan, Step,
};
use crate::shutdown::{
    first_way, goes_on, next_way, note_of, way_args, way_program, worked, ShutdownStep, Way,
};
use crate::text::{decimal, is_white, joined, position, position_bounds};
use crate::update::{changed_boot_url, changed_hook, changed_sync, changed_url, planned_hook};

verus! {

/// Whether the text can be the title of an entry or a submenu.
pub open spec fn can_be_title(title: Seq<char>) -> bool {
    title.len() > 0 && forall|i: int|
        0 <= i < title.len() ==> #[trigger] title[i] != '\'' && title[i] != '"' && title[i] != '\n'
}

/// The menu with one entry below submenus, each inside the one before it.
pub open spec fn chain_text(submenus: Seq<Seq<char>>, entry: Seq<char>) -> Seq<char>
    decreases submenus.len(),
{
    if submenus.len() == 0 {
        "menuentry '"@ + entry + "' {\n}\n"@
    } else {
        "submenu '"@ + submenus[0] + "' {\n"@ + chain_text(submenus.drop_first(), entry) + "}\n"@
    }
}

/// The titles of the submenus, each with `>` behind it, and the title of the entry.
pub open spec fn chain_path(submenus: Seq<Seq<char>>, entry: Seq<char>) -> Seq<char>
    decreases submenus.len(),
{
    if submenus.len() == 0 {
        entry
    } else {
        submenus[0] + seq!['>'] + chain_path(submenus.drop_first(), entry)
    }
}

spec fn plain_header(title: Seq<char>) -> Header {
    Header {
        indent: Seq::empty(),
        gap: seq![' '],
        open: '\'',
        title,
        close: '\'',
        rest: seq![' ', '{'],
    }
}

spec fn chain_items(submenus: Seq<Seq<char>>, entry: Seq<char>) -> Seq<MenuItem>
    decreases submenus.len(),
{
    if submenus.len() == 0 {
        seq![MenuItem::Entry(plain_header(entry), Seq::empty(), "}"@)]
    } else {
        seq![
            MenuItem::Submenu(
                plain_header(submenus[0]),
                chain_items(submenus.drop_first(), entry),
                "}"@,
            ),
        ]
    }
}

proof fn plain_header_is_one(title: Seq<char>)
    requires
        can_be_title(title),
    ensures
        is_header(plain_header(title)),
{
    let h = plain_header(title);
    assert(is_white(' '));
    assert(h.rest[1] == '{');
    assert forall|i: int| 0 <= i < title.len() implies !is_quote(#[trigger] title[i]) by {}
    assert(!title.contains('\n'));
    assert(!h.rest.contains('\n'));
    assert(!h.gap.contains('\n'));
}

proof fn end_is_one()
    ensures
        crate::menu::is_end("}"@),
        are_commands(Seq::<Seq<char>>::empty()),
{
    reveal_strlit("}");
    crate::text::trimmed_already("}"@);
    let nothing = as_text(Seq::<Seq<char>>::empty());
    assert forall|k: int| 0 <= k <= nothing.len() implies 0 + brace_level(
        #[trigger] nothing.take(k),
    ) >= 0 by {
        assert(nothing.take(k) =~= Seq::<char>::empty());
    }
}

proof fn text_of_block(first: Seq<char>, body: Seq<Seq<char>>, end: Seq<char>)
    ensures
        as_text(seq![first] + body + seq![end]) == first.push('\n') + as_text(body) + end.push(
            '\n',
        ),
{
    text_of_sum(seq![first] + body, seq![end]);
    text_of_sum(seq![first], body);
    assert(seq![first].drop_first() =~= Seq::<Seq<char>>::empty());
    assert(seq![end].drop_first() =~= Seq::<Seq<char>>::empty());
    reveal_with_fuel(as_text, 2);
    assert(as_text(seq![first]) =~= first.push('\n'));
    assert(as_text(seq![end]) =~= end.push('\n'));
}

proof fn chain_is_written(submenus: Seq<Seq<char>>, entry: Seq<char>, parents: Seq<Seq<char>>)
    requires
        can_be_title(entry),
        forall|i: int| 0 <= i < submenus.len() ==> can_be_title(#[trigger] submenus[i]),
    ensures
        can_write(chain_items(submenus, entry)),
        as_text(written(chain_items(submenus, entry))) == chain_text(submenus, entry),
        paths(parents, chain_items(submenus, entry)) == seq![
            joined(parents + submenus.push(entry), ">"@),
        ],
    decreases submenus.len(),
{
    reveal_strlit("menuentry");
    reveal_strlit("submenu");
    reveal_strlit("menuentry '");
    reveal_strlit("submenu '");
    reveal_strlit("' {\n}\n");
    reveal_strlit("' {\n");
    reveal_strlit("}\n");
    reveal_strlit("}");
    end_is_one();
    let items = chain_items(submenus, entry);
    assert(items.drop_last() =~= Seq::<MenuItem>::empty());
    reveal_with_fuel(written, 2);
    reveal_with_fuel(paths, 2);
    if submenus.len() == 0 {
        plain_header_is_one(entry);
        let first = header_line("menuentry"@, plain_header(entry));
        text_of_block(first, Seq::empty(), "}"@);
        assert(written(items) =~= seq![first] + Seq::empty() + seq!["}"@]);
        assert(as_text(Seq::<Seq<char>>::empty()) =~= Seq::<char>::empty());
        assert(first.push('\n') + Seq::<char>::empty() + "}"@.push('\n') =~= chain_text(
            submenus,
            entry,
        ));
        assert(parents.push(entry) =~= parents + submenus.push(entry));
        assert(paths(parents, items) =~= seq![joined(parents + submenus.push(entry), ">"@)]);
    } else {
        let rest = submenus.drop_first();
        assert forall|i: int| 0 <= i < rest.len() implies can_be_title(#[trigger] rest[i]) by {
            assert(rest[i] == submenus[i + 1]);
        }
        assert(can_be_title(submenus[0]));
        plain_header_is_one(submenus[0]);
        let inside = parents.push(submenus[0]);
        chain_is_written(rest, entry, inside);
        let inner = chain_items(rest, entry);
        let first = header_line("submenu"@, plain_header(submenus[0]));
        text_of_block(first, written(inner), "}"@);
        assert(written(items) =~= seq![first] + written(inner) + seq!["}"@]);
        assert(first.push('\n') + as_text(written(inner)) + "}"@.push('\n') =~= chain_text(
            submenus,
            entry,
        ));
        assert(inside + rest.push(entry) =~= parents + submenus.push(entry));
        assert(paths(parents, items) =~= paths(inside, inner));
    }
}

proof fn chain_is_joined(submenus: Seq<Seq<char>>, entry: Seq<char>)
    ensures
        joined(submenus.push(entry), ">"@) == chain_path(submenus, entry),
    decreases submenus.len(),
{
    reveal_strlit(">");
    assert(">"@ =~= seq!['>']);
    let all = submenus.push(entry);
    if submenus.len() == 0 {
        assert(all =~= seq![entry]);
        lists_are_joined(all, all, entry, ">"@);
    } else {
        let rest = submenus.drop_first();
        let first = seq![submenus[0]];
        chain_is_joined(rest, entry);
        assert(all =~= first + rest.push(entry));
        lists_are_joined(first, rest.push(entry), submenus[0], ">"@);
        assert(first =~= seq![submenus[0]]);
    }
}

/// An entry is listed under the whole titles of the submenus around it, the
/// outermost first, each with `>` behind it, and its own whole title.
pub proof fn entry_is_listed_under_whole_titles(submenus: Seq<Seq<char>>, entry: Seq<char>)
    requires
        can_be_title(entry),
        forall|i: int| 0 <= i < submenus.len() ==> can_be_title(#[trigger] submenus[i]),
    ensures
        boot_entries(chain_text(submenus, entry)) == seq![chain_path(submenus, entry)],
{
    let none = Seq::<Seq<char>>::empty();
    chain_is_written(submenus, entry, none);
    entries_of_written_menu(chain_items(submenus, entry));
    assert(none + submenus.push(entry) =~= submenus.push(entry));
    chain_is_joined(submenus, entry);
}

/// The seconds are counted from one, each number once, up to the last: the list
/// for one second more has one number more.
pub proof fn seconds_are_counted_one_by_one(n: nat)
    ensures
        wait_list(0) == Seq::<char>::empty(),
        number_spelled(wait_list(1)) == 1,
        n > 0 ==> exists|next: Seq<char>|
            wait_list(n + 1) == wait_list(n) + seq![' '] + next && #[trigger] number_spelled(next)
                == n + 1 && next == decimal(n + 1),
        counted(n).len() == n,
        forall|i: int| 0 <= i < n ==> number_spelled(#[trigger] counted(n)[i]) == i + 1,
{
    reveal_strlit(" ");
    assert(" "@ =~= seq![' ']);
    assert(counted(0) =~= Seq::empty());
    assert(counted(1) =~= seq![decimal(1)]);
    decimal_spells_the_number(1);
    decimal_spells_the_number(n + 1);
    if n > 0 {
        assert(counted(n + 1) =~= counted(n).push(decimal(n + 1)));
        lists_are_joined(counted(n), counted(n), decimal(n + 1), " "@);
        assert(number_spelled(decimal(n + 1)) == n + 1);
    }
    assert forall|i: int| 0 <= i < n implies number_spelled(#[trigger] counted(n)[i]) == i + 1 by {
        decimal_spells_the_number((i + 1) as nat);
    }
}

proof fn marks_are_marks()
    ensures
        URL_MARK@.len() > 0,
        WAIT_SECONDS_MARK@.len() > 0,
        WAIT_LIST_MARK@.len() > 0,
{
    reveal_strlit("(http,{{HOST}})/api/grubstation/{{MAC_ADDRESS}}?token={{WEBHOOK_ID}}");
    reveal_strlit("{{WAIT_TIME_SECONDS}}");
    reveal_strlit("{{WAIT_LIST}}");
}

/// In a template with the mark of the list alone, the list of all the seconds
/// takes its place, and the rest stays.
pub proof fn list_takes_the_place_of_its_mark(
    a: Seq<char>,
    b: Seq<char>,
    url: Seq<char>,
    wait: nat,
)
    requires
        stands_only_at(a + "{{WAIT_LIST}}"@ + b, "{{WAIT_LIST}}"@, a.len() as int),
        stands_nowhere(a + "{{WAIT_LIST}}"@ + b, "{{WAIT_TIME_SECONDS}}"@),
        stands_nowhere(
            a + "{{WAIT_LIST}}"@ + b,
            "(http,{{HOST}})/api/grubstation/{{MAC_ADDRESS}}?token={{WEBHOOK_ID}}"@,
        ),
    ensures
        hook_script(a + "{{WAIT_LIST}}"@ + b, url, wait) == a + joined(
            Seq::new(wait, |i: int| decimal((i + 1) as nat)),
            " "@,
        ) + b,
{
    marks_are_marks();
    let t = a + "{{WAIT_LIST}}"@ + b;
    nothing_is_replaced(t, URL_MARK@, url);
    nothing_is_replaced(t, WAIT_SECONDS_MARK@, decimal(wait));
    let list = joined(Seq::new(wait, |i: int| decimal((i + 1) as nat)), " "@);
    assert(counted(wait) =~= Seq::new(wait, |i: int| decimal((i + 1) as nat)));
    only_part_is_replaced(a, WAIT_LIST_MARK@, b, list);
}

/// In a template with the mark of the seconds alone, their number takes its
/// place, and the rest stays.
pub proof fn seconds_take_the_place_of_their_mark(
    a: Seq<char>,
    b: Seq<char>,
    url: Seq<char>,
    wait: nat,
)
    requires
        stands_only_at(a + "{{WAIT_TIME_SECONDS}}"@ + b, "{{WAIT_TIME_SECONDS}}"@, a.len() as int),
        stands_nowhere(a + decimal(wait) + b, "{{WAIT_LIST}}"@),
        stands_nowhere(
            a + "{{WAIT_TIME_SECONDS}}"@ + b,
            "(http,{{HOST}})/api/grubstation/{{MAC_ADDRESS}}?token={{WEBHOOK_ID}}"@,
        ),
    ensures
        hook_script(a + "{{WAIT_TIME_SECONDS}}"@ + b, url, wait) == a + decimal(wait) + b,
{
    marks_are_marks();
    nothing_is_replaced(a + WAIT_SECONDS_MARK@ + b, URL_MARK@, url);
    only_part_is_replaced(a, WAIT_SECONDS_MARK@, b, decimal(wait));
    nothing_is_replaced(a + decimal(wait) + b, WAIT_LIST_MARK@, wait_list(wait));
}

/// In a template with all the marks, the address, the number of seconds and the
/// list of the same seconds each take the place of their mark, and the rest stays.
pub proof fn every_mark_is_filled_in(
    a: Seq<char>,
    b: Seq<char>,
    c: Seq<char>,
    d: Seq<char>,
    url: Seq<char>,
    wait: nat,
)
    requires
        stands_only_at(
            a + URL_MARK@ + (b + WAIT_SECONDS_MARK@ + c + WAIT_LIST_MARK@ + d),
            URL_MARK@,
            a.len() as int,
        ),
        stands_only_at(
            (a + url + b) + WAIT_SECONDS_MARK@ + (c + WAIT_LIST_MARK@ + d),
            WAIT_SECONDS_MARK@,
            (a + url + b).len() as int,
        ),
        stands_only_at(
            (a + url + b + decimal(wait) + c) + WAIT_LIST_MARK@ + d,
            WAIT_LIST_MARK@,
            (a + url + b + decimal(wait) + c).len() as int,
        ),
    ensures
        hook_script(
            a + URL_MARK@ + (b + WAIT_SECONDS_MARK@ + c + WAIT_LIST_MARK@ + d),
            url,
            wait,
        ) == a + url + b + decimal(wait) + c + joined(
            Seq::new(wait, |i: int| decimal((i + 1) as nat)),
            " "@,
        ) + d,
{
    marks_are_marks();
    let list = joined(Seq::new(wait, |i: int| decimal((i + 1) as nat)), " "@);
    assert(counted(wait) =~= Seq::new(wait, |i: int| decimal((i + 1) as nat)));
    only_part_is_replaced(a, URL_MARK@, b + WAIT_SECONDS_MARK@ + c + WAIT_LIST_MARK@ + d, url);
    assert(a + url + (b + WAIT_SECONDS_MARK@ + c + WAIT_LIST_MARK@ + d) =~= (a + url + b)
        + WAIT_SECONDS_MARK@ + (c + WAIT_LIST_MARK@ + d));
    only_part_is_replaced(a + url + b, WAIT_SECONDS_MARK@, c + WAIT_LIST_MARK@ + d, decimal(wait));
    assert((a + url + b) + decimal(wait) + (c + WAIT_LIST_MARK@ + d) =~= (a + url + b + decimal(
        wait,
    ) + c) + WAIT_LIST_MARK@ + d);
    only_part_is_replaced(a + url + b + decimal(wait) + c, WAIT_LIST_MARK@, d, list);
}

/// The script that is installed waits for as many seconds as GRUB is configured
/// to, and counts each of them.
pub proof fn script_waits_as_configured(
    a: Seq<char>,
    b: Seq<char>,
    c: Seq<char>,
    mac: Seq<char>,
    address: Seq<char>,
    grub: GrubModel,
    given: Option<Seq<char>>,
)
    requires
        stands_nowhere(a + "{{WAIT_TIME_SECONDS}}"@ + (b + "{{WAIT_LIST}}"@ + c), URL_MARK@),
        stands_only_at(
            a + "{{WAIT_TIME_SECONDS}}"@ + (b + "{{WAIT_LIST}}"@ + c),
            "{{WAIT_TIME_SECONDS}}"@,
            a.len() as int,
        ),
        stands_only_at(
            (a + decimal(grub.network_wait as nat) + b) + "{{WAIT_LIST}}"@ + c,
            "{{WAIT_LIST}}"@,
            (a + decimal(grub.network_wait as nat) + b).len() as int,
        ),
    ensures
        installed_script(
            a + "{{WAIT_TIME_SECONDS}}"@ + (b + "{{WAIT_LIST}}"@ + c),
            mac,
            address,
            grub,
            given,
        ) == a + decimal(grub.network_wait as nat) + b + joined(
            Seq::new(grub.network_wait as nat, |i: int| decimal((i + 1) as nat)),
            " "@,
        ) + c,
{
    marks_are_marks();
    let wait = grub.network_wait as nat;
    let url = boot_address(given, address, mac, grub.webhook_id);
    let template = a + WAIT_SECONDS_MARK@ + (b + WAIT_LIST_MARK@ + c);
    let list = joined(Seq::new(wait, |i: int| decimal((i + 1) as nat)), " "@);
    assert(counted(wait) =~= Seq::new(wait, |i: int| decimal((i + 1) as nat)));
    nothing_is_replaced(template, URL_MARK@, url);
    only_part_is_replaced(a, WAIT_SECONDS_MARK@, b + WAIT_LIST_MARK@ + c, decimal(wait));
    assert(a + decimal(wait) + (b + WAIT_LIST_MARK@ + c) =~= (a + decimal(wait) + b)
        + WAIT_LIST_MARK@ + c);
    only_part_is_replaced(a + decimal(wait) + b, WAIT_LIST_MARK@, c, list);
}

/// The script that is installed asks the given address, whole and as GRUB
/// writes it, and else the host itself.
pub proof fn script_asks_the_given_address(
    a: Seq<char>,
    b: Seq<char>,
    mac: Seq<char>,
    address: Seq<char>,
    grub: GrubModel,
    given: Option<Seq<char>>,
    asked: Seq<char>,
)
    requires
        given is Some ==> asked == grub_address(given->0),
        given is None ==> asked == "(http,"@ + address + ")/api/grubstation/"@ + mac + "?token="@
            + grub.webhook_id,
        stands_only_at(a + URL_MARK@ + b, URL_MARK@, a.len() as int),
        stands_nowhere(a + asked + b, "{{WAIT_TIME_SECONDS}}"@),
        stands_nowhere(a + asked + b, "{{WAIT_LIST}}"@),
    ensures
        installed_script(a + URL_MARK@ + b, mac, address, grub, given) == a + asked + b,
{
    marks_are_marks();
    let wait = grub.network_wait as nat;
    only_part_is_replaced(a, URL_MARK@, b, asked);
    nothing_is_replaced(a + asked + b, WAIT_SECONDS_MARK@, decimal(wait));
    nothing_is_replaced(a + asked + b, WAIT_LIST_MARK@, wait_list(wait));
}

/// Where the boot menu is: at the configured place, else at the first of the
/// two default places that is there.
pub proof fn menu_is_configured_or_found(c: ConfigModel, present: Seq<bool>)
    ensures
        c.grub is Some ==> grub_file(c, present) == Some(c.grub->0.path),
        c.grub is None ==> grub_file(c, present) == default_grub_file(present),
        present.len() > 0 && present[0] ==> default_grub_file(present) == Some(
            "/boot/grub/grub.cfg"@,
        ),
        present.len() > 1 && !present[0] && present[1] ==> default_grub_file(present) == Some(
            "/boot/grub2/grub.cfg"@,
        ),
        (forall|i: int| 0 <= i < present.len() ==> !present[i]) ==> default_grub_file(
            present,
        ) is None,
{
}

/// A pairing keeps the configured GRUB section but for the webhook; only
/// without one does it wait the default time, for the menu that was found.
pub proof fn pairing_keeps_the_grub_section(
    c: ConfigModel,
    present: Seq<bool>,
    ha_url: Seq<char>,
    webhook_id: Seq<char>,
    update_grub: bool,
)
    ensures
        ({
            let plan = pairing_hook(c, present, ha_url, webhook_id, update_grub);
            &&& plan is Some <==> c.grub is Some || default_grub_file(present) is Some
            &&& c.grub is Some ==> plan->0.grub.path == c.grub->0.path && plan->0.grub.network_wait
                == c.grub->0.network_wait
            &&& c.grub is None && plan is Some ==> Some(plan->0.grub.path) == default_grub_file(
                present,
            ) && plan->0.grub.network_wait == 10
            &&& plan is Some ==> plan->0.grub.webhook_id == webhook_id && plan->0.boot_url
                == webhook_address(ha_url, webhook_id) && plan->0.update_grub == update_grub
        }),
{
}

/// A pairing and a change with the same configuration install a script for the
/// same menu with the same wait.
pub proof fn change_waits_as_long_as_pairing(
    c: ConfigModel,
    present: Seq<bool>,
    ha_url: Seq<char>,
    webhook_id: Seq<char>,
    boot_url: Seq<char>,
)
    requires
        c.grub is Some,
    ensures
        changed_hook(c, boot_url, true)->0.grub.network_wait == pairing_hook(
            c,
            present,
            ha_url,
            webhook_id,
            true,
        )->0.grub.network_wait,
        changed_hook(c, boot_url, true)->0.grub.path == pairing_hook(
            c,
            present,
            ha_url,
            webhook_id,
            true,
        )->0.grub.path,
{
}

/// A change installs a script exactly where it is asked for and GRUB is
/// configured: for the configured section as it stands, with the given address.
pub proof fn change_installs_what_is_asked_for(
    c: ConfigModel,
    boot_url: Seq<char>,
    update_grub: bool,
)
    ensures
        changed_hook(c, boot_url, update_grub) is Some <==> update_grub && c.grub is Some,
        changed_hook(c, boot_url, update_grub) matches Some(plan) ==> plan.grub == c.grub->0
            && plan.boot_url == boot_url && plan.update_grub,
{
}

/// A change keeps the address that it names, else the one from before, and asks
/// the webhook from before there.
pub proof fn change_keeps_the_address(
    new: Option<Seq<char>>,
    kept: PersistedModel,
    ha_url: Seq<char>,
)
    ensures
        new is Some ==> changed_url(new, kept) == new->0,
        new is None && kept.ha_url is Some ==> changed_url(new, kept) == kept.ha_url->0,
        new is None && kept.ha_url is None ==> changed_url(new, kept).len() == 0,
        kept.webhook_id is Some ==> changed_boot_url(ha_url, kept) == webhook_address(
            ha_url,
            kept.webhook_id->0,
        ),
        kept.webhook_id is None ==> changed_boot_url(ha_url, kept).len() == 0,
        changed_sync(kept) is Some <==> kept.webhook_id is Some && kept.api_key is Some
            && kept.ha_url is Some,
        changed_sync(kept) matches Some(job) ==> Some(job.ha_url) == kept.ha_url && Some(
            job.webhook_id,
        ) == kept.webhook_id && Some(job.api_key) == kept.api_key,
{
}

/// A webhook stands below `/api/webhook/` of its base, whole, and slashes at the
/// end of the base do not matter.
pub proof fn webhook_stands_below_its_base(base: Seq<char>, slashes: Seq<char>, id: Seq<char>)
    requires
        base.len() > 0 ==> base.last() != '/',
        forall|i: int| 0 <= i < slashes.len() ==> slashes[i] == '/',
    ensures
        webhook_address(base + slashes, id) == base + "/api/webhook/"@ + id,
{
    let s = base + slashes;
    let m = copies_are_taken_off_the_end(s, '/');
    if m > base.len() {
        assert(s[m - 1] == slashes[m - 1 - base.len()]);
    }
    if m < base.len() {
        assert(s[base.len() - 1] == '/');
        assert(s[base.len() - 1] == base.last());
    }
    assert(s.take(m) =~= base);
}

/// An address as GRUB writes it has the whole host in brackets and the whole
/// path behind it; the scheme is left out.
pub proof fn grub_address_keeps_host_and_path(
    scheme: Seq<char>,
    host: Seq<char>,
    path: Seq<char>,
)
    requires
        scheme == "http://"@ || scheme == "https://"@ || scheme.len() == 0,
        forall|i: int| 0 <= i < host.len() ==> host[i] != '/',
        path.len() > 0 ==> path[0] == '/',
        !"http://"@.is_prefix_of(host + path),
        !"https://"@.is_prefix_of(host + path),
    ensures
        grub_address(scheme + (host + path)) == "(http,"@ + host + ")"@ + path,
{
    reveal_strlit("http://");
    reveal_strlit("https://");
    let rest = host + path;
    let url = scheme + rest;
    prefixes_are_stripped(rest, "http://"@);
    prefixes_are_stripped(rest, "https://"@);
    if scheme.len() == 0 {
        assert(url =~= rest);
    } else if scheme == "https://"@ {
        assert(!"http://"@.is_prefix_of(url)) by {
            if "http://"@.is_prefix_of(url) {
                assert(url.subrange(0, 7)[4] == url[4]);
                assert(url[4] == 's');
            }
        }
        prefixes_are_stripped(url, "http://"@);
    }
    position_bounds(rest, '/');
    let n = host.len() as int;
    if path.len() > 0 {
        assert(rest[n] == '/');
    }
    let at = position(rest, '/');
    if at < n {
        assert(rest[at] == host[at]);
    }
    assert(at == n);
    assert(rest.take(n) =~= host);
    assert(rest.skip(n) =~= path);
    if path.len() == 0 {
        assert(rest =~= host);
        assert("(http,"@ + rest + ")"@ =~= "(http,"@ + host + ")"@ + path);
    }
}

/// Without a given address, GRUB asks the host itself, by its MAC address and webhook.
pub proof fn own_address_is_asked_without_another(
    given: Option<Seq<char>>,
    address: Seq<char>,
    mac: Seq<char>,
    webhook_id: Seq<char>,
)
    ensures
        given is Some ==> boot_address(given, address, mac, webhook_id) == grub_address(given->0),
        boot_address(None, address, mac, webhook_id) == "(http,"@ + address + ")/api/grubstation/"@
            + mac + "?token="@ + webhook_id,
{
}

/// A unit file names the program and the configuration file in place of their
/// marks, and the rest stays.
pub proof fn unit_names_program_and_configuration(
    a: Seq<char>,
    b: Seq<char>,
    c: Seq<char>,
    exe: Seq<char>,
    config: Seq<char>,
)
    requires
        stands_only_at(
            a + "{{EXE_PATH}}"@ + (b + "{{CONFIG_PATH}}"@ + c),
            "{{EXE_PATH}}"@,
            a.len() as int,
        ),
        stands_only_at(
            (a + exe + b) + "{{CONFIG_PATH}}"@ + c,
            "{{CONFIG_PATH}}"@,
            (a + exe + b).len() as int,
        ),
    ensures
        unit_text(a + "{{EXE_PATH}}"@ + (b + "{{CONFIG_PATH}}"@ + c), exe, config) == a + exe + b
            + config + c,
{
    reveal_strlit("{{EXE_PATH}}");
    reveal_strlit("{{CONFIG_PATH}}");
    only_part_is_replaced(a, "{{EXE_PATH}}"@, b + "{{CONFIG_PATH}}"@ + c, exe);
    assert(a + exe + (b + "{{CONFIG_PATH}}"@ + c) =~= (a + exe + b) + "{{CONFIG_PATH}}"@ + c);
    only_part_is_replaced(a + exe + b, "{{CONFIG_PATH}}"@, c, config);
}

/// The command line of the service has the whole path of the program and of the
/// configuration file, each in quotes.
pub proof fn service_runs_program_with_configuration(exe: Seq<char>, config: Seq<char>)
    ensures
        windows_command_line(exe, config) == "binPath= "@ + seq!['"'] + exe + seq!['"']
            + " --config "@ + seq!['"'] + config + seq!['"'] + " run"@,
{
    reveal_strlit("binPath= \"");
    reveal_strlit("binPath= ");
    reveal_strlit("\" --config \"");
    reveal_strlit(" --config ");
    reveal_strlit("\" run");
    reveal_strlit(" run");
    assert(windows_command_line(exe, config) =~= "binPath= "@ + seq!['"'] + exe + seq!['"']
        + " --config "@ + seq!['"'] + config + seq!['"'] + " run"@);
}

/// A way to shut down has worked where its command succeeded, or ran on
/// Windows; what is noted of one that has not ends in the whole status or reason.
pub proof fn shutdown_is_noted(way: Way, result: CommandResult)
    ensures
        result matches CommandResult::Ran { success, status } ==> (worked(way, result) <==> success
            || way == Way::Windows || way == Way::WindowsForced) && status@.is_suffix_of(
            note_of(way, result),
        ) && (way == Way::Shutdown ==> note_of(way, result)
            == "shutdown -h now exited with status: "@ + status@) && (way == Way::Poweroff
            ==> note_of(way, result) == "poweroff exited with status: "@ + status@) && (way
            == Way::Systemctl ==> note_of(way, result)
            == "systemctl poweroff exited with status: "@ + status@) && (way == Way::Init
            ==> note_of(way, result) == "init 0 exited with status: "@ + status@),
        result matches CommandResult::NotRun { reason, not_found } ==> !worked(way, result)
            && reason@.is_suffix_of(note_of(way, result)) && (way == Way::Shutdown ==> note_of(
            way,
            result,
        ) == "failed to run shutdown: "@ + reason@) && (way == Way::Poweroff ==> note_of(
            way,
            result,
        ) == "failed to run poweroff: "@ + reason@) && (way == Way::Systemctl ==> note_of(
            way,
            result,
        ) == "failed to run systemctl: "@ + reason@) && (way == Way::Init ==> note_of(way, result)
            == "failed to run init: "@ + reason@),
{
    let note = note_of(way, result);
    match result {
        CommandResult::Ran { success, status } => {
            assert(note.subrange(note.len() - status@.len(), note.len() as int) =~= status@);
        },
        CommandResult::NotRun { reason, not_found } => {
            assert(note.subrange(note.len() - reason@.len(), note.len() as int) =~= reason@);
        },
    }
}

/// The script stands where the environment says, and else at its default place.
pub proof fn script_stands_where_it_is_told(place: Seq<char>)
    ensures
        hook_place(Some(place)) == place,
        hook_place(None) == "/etc/grub.d/99_grubstation"@,
{
}

/// The tools are tried in this order, each under its name; all but the first are
/// told the whole path that they write.
pub proof fn tools_are_tried_in_order(path: Seq<char>)
    ensures
        next_attempt(Attempt::UpdateGrub) == Some(Attempt::GrubMkconfig),
        next_attempt(Attempt::GrubMkconfig) == Some(Attempt::Grub2Mkconfig),
        next_attempt(Attempt::Grub2Mkconfig) is None,
        tool_name(Attempt::UpdateGrub) == "update-grub"@,
        tool_name(Attempt::GrubMkconfig) == "grub-mkconfig"@,
        tool_name(Attempt::Grub2Mkconfig) == "grub2-mkconfig"@,
        tool_args(Attempt::UpdateGrub, path).len() == 0,
        tool_args(Attempt::GrubMkconfig, path) == seq!["-o"@, path],
        tool_args(Attempt::Grub2Mkconfig, path) == seq!["-o"@, path],
{
}

/// GRUB is brought up to date exactly where that is asked for, on Linux.
pub proof fn grub_is_updated_where_asked(asked: bool, on_linux: bool)
    ensures
        first_step(asked, on_linux) == UpdateStep::Run(Attempt::UpdateGrub) <==> asked && on_linux,
        first_step(asked, on_linux) == UpdateStep::End(UpdateEnd::Skipped) <==> !asked || !on_linux,
{
}

/// A tool that ran ends the update, well or with its status; one that is not
/// there leads to the next, and after the last there is none; one that cannot be
/// run for another reason is an error that names the tool and the whole reason.
pub proof fn tools_lead_to_one_another(attempt: Attempt, result: CommandResult, step: UpdateStep)
    requires
        comes_after(attempt, result, step),
    ensures
        result matches CommandResult::Ran { success, status } ==> (success ==> step
            == UpdateStep::End(UpdateEnd::Updated)) && (!success ==> step == UpdateStep::End(
            UpdateEnd::Failed { status },
        )),
        result matches CommandResult::NotRun { reason, not_found } ==> (not_found
            ==> match attempt {
            Attempt::UpdateGrub => step == UpdateStep::Run(Attempt::GrubMkconfig),
            Attempt::GrubMkconfig => step == UpdateStep::Run(Attempt::Grub2Mkconfig),
            Attempt::Grub2Mkconfig => step == UpdateStep::End(UpdateEnd::NoTool),
        }) && (!not_found ==> (step matches UpdateStep::Error { message } && message@
            == "Failed to run "@ + tool_name(attempt) + ": "@ + reason@)),
{
}

/// The ways to shut down are tried in this order, each with its command.
pub proof fn ways_are_tried_in_order()
    ensures
        first_way(true) == Way::Windows,
        first_way(false) == Way::Shutdown,
        next_way(Way::Windows) == Some(Way::WindowsForced),
        next_way(Way::WindowsForced) is None,
        next_way(Way::Shutdown) == Some(Way::Poweroff),
        next_way(Way::Poweroff) == Some(Way::Systemctl),
        next_way(Way::Systemctl) == Some(Way::Init),
        next_way(Way::Init) is None,
        way_program(Way::Windows) == "shutdown"@,
        way_args(Way::Windows) == seq!["/s"@, "/t"@, "0"@],
        way_program(Way::WindowsForced) == "shutdown"@,
        way_args(Way::WindowsForced) == seq!["/s"@, "/f"@, "/t"@, "0"@],
        way_program(Way::Shutdown) == "shutdown"@,
        way_args(Way::Shutdown) == seq!["-h"@, "now"@],
        way_program(Way::Poweroff) == "poweroff"@,
        way_args(Way::Poweroff).len() == 0,
        way_program(Way::Systemctl) == "systemctl"@,
        way_args(Way::Systemctl) == seq!["poweroff"@],
        way_program(Way::Init) == "init"@,
        way_args(Way::Init) == seq!["0"@],
{
}

/// A way that worked ends the shutdown; one that did not adds one note behind
/// those before it, and the next way comes, or the notes are told after the last.
pub proof fn every_failed_way_is_noted(
    way: Way,
    notes: Seq<Seq<char>>,
    result: CommandResult,
    step: ShutdownStep,
)
    requires
        goes_on(way, notes, result, step),
    ensures
        step is Done <==> worked(way, result),
        step matches ShutdownStep::Next(run) ==> Some(run.way) == next_way(way)
            && run.notes.deep_view().len() == notes.len() + 1 && run.notes.deep_view().last()
            == note_of(way, result) && notes.is_prefix_of(run.notes.deep_view()),
        step matches ShutdownStep::Failed(told) ==> next_way(way) is None && told.deep_view().len()
            == notes.len() + 1 && told.deep_view().last() == note_of(way, result)
            && notes.is_prefix_of(told.deep_view()),
{
    let more = notes.push(note_of(way, result));
    assert(more.subrange(0, notes.len() as int) =~= notes);
}

/// The daemon is made a service of its program and configuration file: by a unit
/// file and the service manager on Linux, by a command line on Windows.
pub proof fn service_is_of_the_program(
    platform: Platform,
    template: Seq<char>,
    exe: Seq<char>,
    config: Seq<char>,
    r: Result<ServicePlan, String>,
)
    requires
        starts_service(platform, template, exe, config, r),
    ensures
        r is Ok <==> platform != Platform::Other,
        platform == Platform::Linux ==> r->Ok_0.unit is Some && r->Ok_0.unit->0.path@
            == "/etc/systemd/system/grubstation.service"@ && r->Ok_0.unit->0.content@ == unit_text(
            template,
            exe,
            config,
        ) && r->Ok_0.steps@.len() == 3 && runs(
            r->Ok_0.steps@[0],
            "systemctl"@,
            seq!["daemon-reload"@],
        ) && runs(
            r->Ok_0.steps@[1],
            "systemctl"@,
            seq!["enable"@, "grubstation.service"@],
        ) && runs(r->Ok_0.steps@[2], "systemctl"@, seq!["start"@, "grubstation.service"@]),
        platform == Platform::Windows ==> r->Ok_0.unit is None && r->Ok_0.steps@.len() == 2 && runs(
            r->Ok_0.steps@[0],
            "sc"@,
            seq![
                "create"@,
                "grubstation"@,
                windows_command_line(exe, config),
                "start= auto"@,
            ],
        ) && runs(r->Ok_0.steps@[1], "sc"@, seq!["start"@, "grubstation"@]),
{
}

/// Whether the step runs the program with these arguments.
pub open spec fn runs(step: Step, program: Seq<char>, args: Seq<Seq<char>>) -> bool {
    step.command.program@ == program && step.command.args.deep_view() == args
}

/// The program is made to run at shutdown by a unit file of its own, on Linux only.
pub proof fn shutdown_hook_is_of_the_program(
    platform: Platform,
    template: Seq<char>,
    exe: Seq<char>,
    config: Seq<char>,
    r: Result<ServicePlan, String>,
)
    requires
        hooks_shutdown(platform, template, exe, config, r),
    ensures
        r is Ok <==> platform == Platform::Linux,
        platform == Platform::Linux ==> r->Ok_0.unit is Some && r->Ok_0.unit->0.path@
            == "/etc/systemd/system/grubstation-shutdown.service"@ && r->Ok_0.unit->0.content@
            == unit_text(template, exe, config) && r->Ok_0.steps@.len() == 2 && runs(
            r->Ok_0.steps@[0],
            "systemctl"@,
            seq!["daemon-reload"@],
        ) && runs(
            r->Ok_0.steps@[1],
            "systemctl"@,
            seq!["enable"@, "grubstation-shutdown.service"@],
        ),
{
}

/// A scheme more in front of an address does not matter.
pub proof fn schemes_are_left_out(url: Seq<char>)
    ensures
        grub_address("http://"@ + url) == grub_address(url),
{
    reveal_strlit("http://");
    prefixes_are_stripped(url, "http://"@);
}

/// The script of a change asks the webhook that was kept, below the address that
/// the change names, else the one that was kept, and keeps the configured section.
pub proof fn changed_script_asks_the_new_address(
    c: ConfigModel,
    base: Seq<char>,
    slashes: Seq<char>,
    kept: PersistedModel,
    update_grub: bool,
)
    requires
        base.len() > 0 ==> base.last() != '/',
        forall|i: int| 0 <= i < slashes.len() ==> slashes[i] == '/',
    ensures
        planned_hook(c, Some(base + slashes), kept, update_grub) is Some <==> update_grub
            && c.grub is Some,
        planned_hook(c, Some(base + slashes), kept, update_grub) matches Some(plan) ==> {
            &&& plan.grub.path == c.grub->0.path
            &&& plan.grub.network_wait == c.grub->0.network_wait
            &&& plan.grub.webhook_id == c.grub->0.webhook_id
            &&& kept.webhook_id matches Some(id) ==> plan.boot_url == base + "/api/webhook/"@ + id
            &&& kept.webhook_id is None ==> plan.boot_url.len() == 0
        },
        kept.ha_url is Some ==> planned_hook(c, None, kept, update_grub) == planned_hook(
            c,
            kept.ha_url,
            kept,
            update_grub,
        ),
{
    if let Some(id) = kept.webhook_id {
        webhook_stands_below_its_base(base, slashes, id);
    }
}

} // verus!
