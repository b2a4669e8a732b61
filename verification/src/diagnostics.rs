//! What `hrc doctor` found.
//!
//! Every check reports its own result rather than the command stopping at
//! the first failure: a user diagnosing a broken installation wants the
//! whole picture, not one symptom at a time. The result is typed, so the
//! exit code and the daemon's health summary are computed from the checks
//! themselves rather than read back out of the printed report.
use vstd::prelude::*;

use crate::json::{
    array, items, items_view, jview, members, members_view, object, push_item, push_member,
    string, text, Json, JsonView,
};
use crate::channel::ChannelRecord;
use crate::inbox::opt_json;
use crate::text::{extend_str, opt_view, string_of};

verus! {

/// One thing `hrc doctor` verified.
pub struct Check {
    /// What was checked, as the report names it.
    pub name: &'static str,
    /// Whether it passed.
    pub ok: bool,
    /// What was found.
    pub detail: String,
}

/// What `hrc doctor` found.
pub struct Diagnosis {
    /// Every check, in the order it ran.
    pub checks: Vec<Check>,
}

/// Whether every check passed.
pub open spec fn all_passed(checks: Seq<Check>) -> bool {
    forall|i: int| 0 <= i < checks.len() ==> (#[trigger] checks[i]).ok
}

/// How one check appears in the report.
pub open spec fn check_view(c: Check) -> JsonView {
    JsonView::Object(
        seq![
            ("check"@, JsonView::Str(c.name@)),
            ("ok"@, JsonView::Bool(c.ok)),
            ("detail"@, JsonView::Str(c.detail@)),
        ],
    )
}

/// The report `hrc doctor` prints.
pub open spec fn report_view(checks: Seq<Check>) -> JsonView {
    JsonView::Object(
        seq![
            ("status"@, JsonView::Str(
                if all_passed(checks) {
                    "ok"@
                } else {
                    "unhealthy"@
                },
            )),
            ("healthy"@, JsonView::Bool(all_passed(checks))),
            ("checks"@, JsonView::Array(Seq::new(checks.len(), |i: int| check_view(checks[i])))),
        ],
    )
}

impl Diagnosis {
    /// Whether every check passed.
    pub fn healthy(&self) -> (r: bool)
        ensures
            r == all_passed(self.checks@),
    {
        let mut k: usize = 0;
        while k < self.checks.len()
            invariant
                k <= self.checks.len(),
                forall|i: int| 0 <= i < k ==> (#[trigger] self.checks@[i]).ok,
            decreases self.checks.len() - k,
        {
            if !self.checks[k].ok {
                return false;
            }
            k = k + 1;
        }
        true
    }

    /// The report `hrc doctor` prints.
    pub fn report(&self) -> (r: Json)
        ensures
            jview(r) == report_view(self.checks@),
    {
        let healthy = self.healthy();
        let mut list = items();
        let mut k: usize = 0;
        while k < self.checks.len()
            invariant
                k <= self.checks.len(),
                items_view(list@) == Seq::new(k as nat, |i: int| check_view(self.checks@[i])),
            decreases self.checks.len() - k,
        {
            let check = &self.checks[k];
            let mut entry = members();
            push_member(&mut entry, "check", text(check.name));
            push_member(&mut entry, "ok", Json::Bool(check.ok));
            push_member(&mut entry, "detail", string(check.detail.clone()));
            assert(members_view(entry@) =~= seq![
                ("check"@, JsonView::Str(check.name@)),
                ("ok"@, JsonView::Bool(check.ok)),
                ("detail"@, JsonView::Str(check.detail@)),
            ]);
            push_item(&mut list, object(entry));
            k = k + 1;
            assert(items_view(list@) =~= Seq::new(
                k as nat,
                |i: int| check_view(self.checks@[i]),
            ));
        }
        let mut top = members();
        push_member(
            &mut top,
            "status",
            text(
                if healthy {
                    "ok"
                } else {
                    "unhealthy"
                },
            ),
        );
        push_member(&mut top, "healthy", Json::Bool(healthy));
        push_member(&mut top, "checks", array(list));
        assert(members_view(top@) =~= match report_view(self.checks@) {
            JsonView::Object(m) => m,
            _ => Seq::empty(),
        });
        object(top)
    }
}

/// What one local probe found: a pass or failure, or an error message.
pub enum Probe {
    /// The probe ran and the thing checked holds.
    Holds,
    /// The probe ran and the thing checked does not hold.
    Fails,
    /// The probe could not run; the message says why.
    Broken(String),
}

/// The checks of a diagnosis, in order, from what the probes found.
pub open spec fn diagnosis_checks(
    protocol_version: Seq<char>,
    git_version: Option<Seq<char>>,
    home: Seq<char>,
    home_exists: bool,
    database: Probe,
    device_keys: Probe,
) -> Seq<(Seq<char>, bool, Seq<char>)> {
    seq![
        ("protocol_version"@, true, "protocol "@ + protocol_version),
        match git_version {
            Some(v) => ("git"@, true, v),
            None => ("git"@, false, "the git executable was not found on PATH"@),
        },
        ("state_directory"@, home_exists, home),
        match database {
            Probe::Holds => ("database"@, true, "integrity check passed"@),
            Probe::Fails => ("database"@, false, "integrity check failed"@),
            Probe::Broken(m) => ("database"@, false, m@),
        },
        match device_keys {
            Probe::Holds => ("device_keys"@, true, "device keys are present"@),
            Probe::Fails => ("device_keys"@, false, "no device keys; run `hrc init`"@),
            Probe::Broken(m) => ("device_keys"@, false, m@),
        },
    ]
}

/// Whether a diagnosis holds exactly the given checks.
pub open spec fn has_checks(d: Diagnosis, expected: Seq<(Seq<char>, bool, Seq<char>)>) -> bool {
    d.checks.len() == expected.len() && forall|i: int|
        0 <= i < expected.len() ==> (#[trigger] d.checks@[i]).name@ == expected[i].0
            && d.checks@[i].ok == expected[i].1 && d.checks@[i].detail@ == expected[i].2
}

fn probe_check(name: &'static str, probe: Probe, holds: &str, fails: &str) -> (c: Check)
    ensures
        c.name@ == name@,
        c.ok == (probe is Holds),
        c.detail@ == match probe {
            Probe::Holds => holds@,
            Probe::Fails => fails@,
            Probe::Broken(m) => m@,
        },
{
    match probe {
        Probe::Holds => Check { name, ok: true, detail: holds.to_owned() },
        Probe::Fails => Check { name, ok: false, detail: fails.to_owned() },
        Probe::Broken(m) => Check { name, ok: false, detail: m },
    }
}

/// Assembles the diagnosis from what each local probe found.
///
/// Every check is reported, whatever the others found.
pub fn diagnosis(
    protocol_version: &str,
    git_version: Option<String>,
    home: &str,
    home_exists: bool,
    database: Probe,
    device_keys: Probe,
) -> (d: Diagnosis)
    ensures
        has_checks(
            d,
            diagnosis_checks(
                protocol_version@,
                opt_view(git_version),
                home@,
                home_exists,
                database,
                device_keys,
            ),
        ),
{
    let ghost expected = diagnosis_checks(
        protocol_version@,
        opt_view(git_version),
        home@,
        home_exists,
        database,
        device_keys,
    );
    let mut checks: Vec<Check> = Vec::new();
    let mut detail: Vec<char> = Vec::new();
    extend_str(&mut detail, "protocol ");
    extend_str(&mut detail, protocol_version);
    checks.push(Check { name: "protocol_version", ok: true, detail: string_of(detail.as_slice()) });
    match git_version {
        Some(v) => checks.push(Check { name: "git", ok: true, detail: v }),
        None => checks.push(
            Check {
                name: "git",
                ok: false,
                detail: "the git executable was not found on PATH".to_owned(),
            },
        ),
    }
    checks.push(Check { name: "state_directory", ok: home_exists, detail: home.to_owned() });
    checks.push(
        probe_check("database", database, "integrity check passed", "integrity check failed"),
    );
    checks.push(
        probe_check(
            "device_keys",
            device_keys,
            "device keys are present",
            "no device keys; run `hrc init`",
        ),
    );
    let d = Diagnosis { checks };
    assert forall|i: int| 0 <= i < expected.len() implies (#[trigger] d.checks@[i]).name@
        == expected[i].0 && d.checks@[i].ok == expected[i].1 && d.checks@[i].detail@
        == expected[i].2 by {
        if i == 0 {
            assert(d.checks@[0].detail@ =~= "protocol "@ + protocol_version@);
        }
    }
    d
}

/// Doctor reports every check rather than stopping at the first failure,
/// and the installation is healthy exactly when every probe passed.
pub proof fn law_doctor_reports_every_check(
    d: Diagnosis,
    protocol_version: Seq<char>,
    git_version: Option<Seq<char>>,
    home: Seq<char>,
    home_exists: bool,
    database: Probe,
    device_keys: Probe,
)
    requires
        has_checks(
            d,
            diagnosis_checks(
                protocol_version,
                git_version,
                home,
                home_exists,
                database,
                device_keys,
            ),
        ),
    ensures
        d.checks.len() == 5,
        all_passed(d.checks@) <==> (git_version is Some && home_exists && database is Holds
            && device_keys is Holds),
{
    let expected = diagnosis_checks(
        protocol_version,
        git_version,
        home,
        home_exists,
        database,
        device_keys,
    );
    if all_passed(d.checks@) {
        assert(d.checks@[1].ok);
        assert(d.checks@[2].ok);
        assert(d.checks@[3].ok);
        assert(d.checks@[4].ok);
    }
    if git_version is Some && home_exists && database is Holds && device_keys is Holds {
        assert forall|i: int| 0 <= i < d.checks.len() implies (#[trigger] d.checks@[i]).ok by {
            assert(d.checks@[i].ok == expected[i].1);
        }
    }
}

/// What `hrc status` reports of one channel: its record and its counters.
pub struct ChannelState {
    /// The channel as recorded.
    pub channel: ChannelRecord,
    /// The control log position reached.
    pub control_sequence: u64,
    /// The last revision fetched, if any.
    pub sync_cursor: Option<String>,
    /// Messages waiting in the outbox.
    pub outbox_pending: u64,
    /// Messages not yet read.
    pub unread: u64,
    /// Messages awaiting a human decision.
    pub pending_approval: u64,
    /// The last transport failure, if any.
    pub last_error: Option<String>,
}

/// How `hrc status` reports one channel.
pub open spec fn channel_state_json(c: ChannelState) -> JsonView {
    JsonView::Object(
        seq![
            ("channelId"@, JsonView::Str(c.channel.channel_id@)),
            ("localName"@, JsonView::Str(c.channel.local_name@)),
            ("transport"@, JsonView::Str(c.channel.transport_kind@)),
            ("locator"@, JsonView::Str(c.channel.transport_locator@)),
            ("rosterEpoch"@, JsonView::UInt(c.channel.roster_epoch)),
            ("controlSequence"@, JsonView::UInt(c.control_sequence)),
            ("lastFetchedRevision"@, opt_json(c.sync_cursor)),
            ("outboxPending"@, JsonView::UInt(c.outbox_pending)),
            ("unread"@, JsonView::UInt(c.unread)),
            ("pendingApproval"@, JsonView::UInt(c.pending_approval)),
            ("lastTransportError"@, opt_json(c.last_error)),
            ("haltedReason"@, opt_json(c.channel.halted_reason)),
        ],
    )
}

/// The report of `hrc status`.
pub open spec fn status_json(home: Seq<char>, channels: Seq<ChannelState>) -> JsonView {
    JsonView::Object(
        seq![
            ("status"@, JsonView::Str("ok"@)),
            ("home"@, JsonView::Str(home)),
            ("channels"@, JsonView::Array(channels.map_values(|c: ChannelState| channel_state_json(c)))),
        ],
    )
}

fn opt_value(o: &Option<String>) -> (r: Json)
    ensures
        jview(r) == opt_json(*o),
{
    match o {
        Some(s) => text(s.as_str()),
        None => Json::Null,
    }
}

fn channel_state_value(c: &ChannelState) -> (r: Json)
    ensures
        jview(r) == channel_state_json(*c),
{
    let mut m = members();
    push_member(&mut m, "channelId", text(c.channel.channel_id.as_str()));
    push_member(&mut m, "localName", text(c.channel.local_name.as_str()));
    push_member(&mut m, "transport", text(c.channel.transport_kind.as_str()));
    push_member(&mut m, "locator", text(c.channel.transport_locator.as_str()));
    push_member(&mut m, "rosterEpoch", Json::UInt(c.channel.roster_epoch));
    push_member(&mut m, "controlSequence", Json::UInt(c.control_sequence));
    push_member(&mut m, "lastFetchedRevision", opt_value(&c.sync_cursor));
    push_member(&mut m, "outboxPending", Json::UInt(c.outbox_pending));
    push_member(&mut m, "unread", Json::UInt(c.unread));
    push_member(&mut m, "pendingApproval", Json::UInt(c.pending_approval));
    push_member(&mut m, "lastTransportError", opt_value(&c.last_error));
    push_member(&mut m, "haltedReason", opt_value(&c.channel.halted_reason));
    assert(members_view(m@) =~= match channel_state_json(*c) {
        JsonView::Object(p) => p,
        _ => Seq::empty(),
    });
    object(m)
}

/// What `hrc status` reports: where state lives, and each channel.
pub fn status_report(home: &str, channels: &Vec<ChannelState>) -> (r: Json)
    ensures
        jview(r) == status_json(home@, channels@),
{
    let mut list = items();
    let mut k: usize = 0;
    while k < channels.len()
        invariant
            k <= channels.len(),
            items_view(list@) == channels@.take(k as int).map_values(
                |c: ChannelState| channel_state_json(c),
            ),
        decreases channels.len() - k,
    {
        let ghost before = items_view(list@);
        push_item(&mut list, channel_state_value(&channels[k]));
        assert(channels@.take(k + 1).map_values(|c: ChannelState| channel_state_json(c))
            =~= before.push(channel_state_json(channels@[k as int])));
        k = k + 1;
    }
    assert(channels@.take(channels.len() as int) =~= channels@);
    let mut top = members();
    push_member(&mut top, "status", text("ok"));
    push_member(&mut top, "home", text(home));
    push_member(&mut top, "channels", array(list));
    assert(members_view(top@) =~= match status_json(home@, channels@) {
        JsonView::Object(p) => p,
        _ => Seq::empty(),
    });
    object(top)
}

} // verus!
