//! Who is in the channel, and who this installation is.
//!
//! A principal and a device are different keys. `hrc init` generates both,
//! and the roster lists principals; each device belongs to one of them.
//! The roster itself is read and verified from the published control log;
//! what the commands report is computed here from its entries.
use vstd::prelude::*;

use crate::error::CliError;
use crate::json::{
    array, items, items_view, jview, members, members_view, object, push_item, push_member, string,
    text, Json, JsonView,
};
use crate::text::{chars_of, equals_str};

verus! {

/// Who this installation is, as the rest of the crate should read it.
pub struct LocalIdentity {
    /// The principal this installation acts as: what the roster lists.
    pub principal_id: String,
    /// This device's signing key.
    pub device_signing_key: String,
    /// This device's encryption recipient.
    pub encryption_recipient: String,
}

/// One member as the roster records it.
pub struct MemberEntry {
    /// The member's principal.
    pub principal_id: String,
    /// Whether they administer the channel.
    pub is_administrator: bool,
    /// Whether they are still a member.
    pub is_active: bool,
}

/// One device as the roster records it.
pub struct DeviceEntry {
    /// The device identifier.
    pub device_id: String,
    /// The principal the device belongs to.
    pub principal_id: String,
    /// The device's signing key.
    pub signing_key: String,
    /// Whether the device's status is active.
    pub active: bool,
    /// The epoch it was added in.
    pub added_in_epoch: u64,
}

/// One device in the roster.
pub struct RosterDevice {
    /// The device identifier.
    pub device_id: String,
    /// Whether it is still active.
    pub active: bool,
    /// The epoch it was added in.
    pub added_in_epoch: u64,
}

/// One member of the roster.
pub struct RosterMember {
    /// The member's principal.
    pub principal_id: String,
    /// Whether they administer the channel.
    pub administrator: bool,
    /// Whether they are still a member.
    pub active: bool,
    /// Their devices.
    pub devices: Vec<RosterDevice>,
}

/// The channel's current roster.
pub struct RosterListing {
    /// The channel.
    pub channel_id: String,
    /// The roster epoch.
    pub epoch: u64,
    /// Every member, in roster order.
    pub members: Vec<RosterMember>,
}

/// A device as it is listed: identifier, whether active, epoch added.
pub type DeviceRow = (Seq<char>, bool, u64);

/// A member as it is listed: principal, administrator, active, devices.
pub type MemberRow = (Seq<char>, bool, bool, Seq<DeviceRow>);

/// The devices that belong to `principal`, in roster order.
pub open spec fn devices_of(devices: Seq<DeviceEntry>, principal: Seq<char>) -> Seq<DeviceEntry>
    decreases devices.len(),
{
    if devices.len() == 0 {
        Seq::empty()
    } else {
        let rest = devices_of(devices.drop_last(), principal);
        if devices.last().principal_id@ == principal {
            rest.push(devices.last())
        } else {
            rest
        }
    }
}

/// How a recorded device is listed.
pub open spec fn entry_row(d: DeviceEntry) -> DeviceRow {
    (d.device_id@, d.active, d.added_in_epoch)
}

/// How a listed device reads.
pub open spec fn device_row(d: RosterDevice) -> DeviceRow {
    (d.device_id@, d.active, d.added_in_epoch)
}

/// How a listed member reads.
pub open spec fn member_row(m: RosterMember) -> MemberRow {
    (m.principal_id@, m.administrator, m.active, m.devices@.map_values(|d: RosterDevice| device_row(d)))
}

/// The devices of `principal`, as listed.
pub open spec fn device_rows(devices: Seq<DeviceEntry>, principal: Seq<char>) -> Seq<DeviceRow> {
    devices_of(devices, principal).map_values(|d: DeviceEntry| entry_row(d))
}

/// How a recorded member is listed, with their devices.
pub open spec fn expected_member(e: MemberEntry, devices: Seq<DeviceEntry>) -> MemberRow {
    (e.principal_id@, e.is_administrator, e.is_active, device_rows(devices, e.principal_id@))
}

/// The listing of a roster: every member in order, each with their devices.
pub open spec fn lists(
    l: RosterListing,
    channel_id: Seq<char>,
    epoch: u64,
    member_entries: Seq<MemberEntry>,
    devices: Seq<DeviceEntry>,
) -> bool {
    &&& l.channel_id@ == channel_id
    &&& l.epoch == epoch
    &&& l.members@.map_values(|m: RosterMember| member_row(m)) == member_entries.map_values(
        |e: MemberEntry| expected_member(e, devices),
    )
}

/// The devices recorded for `principal`, as a listing.
fn devices_for(devices: &Vec<DeviceEntry>, principal: &str) -> (r: Vec<RosterDevice>)
    ensures
        r@.map_values(|d: RosterDevice| device_row(d)) == device_rows(devices@, principal@),
{
    let key = chars_of(principal);
    let mut out: Vec<RosterDevice> = Vec::new();
    let mut k: usize = 0;
    while k < devices.len()
        invariant
            k <= devices.len(),
            key@ == principal@,
            out@.map_values(|d: RosterDevice| device_row(d)) == device_rows(
                devices@.take(k as int),
                principal@,
            ),
        decreases devices.len() - k,
    {
        let d = &devices[k];
        let ghost before = out@;
        assert(devices@.take(k + 1).drop_last() =~= devices@.take(k as int));
        assert(devices@.take(k + 1).last() == d);
        if equals_str(&key, d.principal_id.as_str()) {
            out.push(
                RosterDevice {
                    device_id: d.device_id.clone(),
                    active: d.active,
                    added_in_epoch: d.added_in_epoch,
                },
            );
            assert(out@.map_values(|x: RosterDevice| device_row(x)) =~= before.map_values(
                |x: RosterDevice| device_row(x),
            ).push(entry_row(*d)));
        }
        k = k + 1;
    }
    assert(devices@.take(devices.len() as int) =~= devices@);
    out
}

/// The roster as `hrc members` and the screens read it: each member in
/// roster order, with the devices that belong to them.
pub fn roster_listing(
    channel_id: String,
    epoch: u64,
    member_entries: &Vec<MemberEntry>,
    devices: &Vec<DeviceEntry>,
) -> (r: RosterListing)
    ensures
        lists(r, channel_id@, epoch, member_entries@, devices@),
{
    let mut out: Vec<RosterMember> = Vec::new();
    let mut k: usize = 0;
    while k < member_entries.len()
        invariant
            k <= member_entries.len(),
            out@.map_values(|m: RosterMember| member_row(m)) == member_entries@.take(
                k as int,
            ).map_values(|e: MemberEntry| expected_member(e, devices@)),
        decreases member_entries.len() - k,
    {
        let e = &member_entries[k];
        let ghost before = out@;
        let owned = devices_for(devices, e.principal_id.as_str());
        let m = RosterMember {
            principal_id: e.principal_id.clone(),
            administrator: e.is_administrator,
            active: e.is_active,
            devices: owned,
        };
        assert(member_row(m) == expected_member(*e, devices@));
        out.push(m);
        assert(out@.map_values(|x: RosterMember| member_row(x)) =~= before.map_values(
            |x: RosterMember| member_row(x),
        ).push(member_row(m)));
        assert(member_entries@.take(k + 1).map_values(|x: MemberEntry| expected_member(x, devices@))
            =~= member_entries@.take(k as int).map_values(
            |x: MemberEntry| expected_member(x, devices@),
        ).push(expected_member(*e, devices@)));
        k = k + 1;
    }
    assert(member_entries@.take(member_entries.len() as int) =~= member_entries@);
    RosterListing { channel_id, epoch, members: out }
}


/// How a listed device is reported.
pub open spec fn device_json(d: DeviceRow) -> JsonView {
    JsonView::Object(
        seq![
            ("deviceId"@, JsonView::Str(d.0)),
            ("active"@, JsonView::Bool(d.1)),
            ("addedInEpoch"@, JsonView::UInt(d.2)),
        ],
    )
}

/// How a listed member is reported.
pub open spec fn member_json(m: MemberRow) -> JsonView {
    JsonView::Object(
        seq![
            ("principalId"@, JsonView::Str(m.0)),
            ("administrator"@, JsonView::Bool(m.1)),
            ("active"@, JsonView::Bool(m.2)),
            ("devices"@, JsonView::Array(m.3.map_values(|d: DeviceRow| device_json(d)))),
        ],
    )
}

/// The report of `hrc members`.
pub open spec fn members_json(l: RosterListing) -> JsonView {
    JsonView::Object(
        seq![
            ("status"@, JsonView::Str("ok"@)),
            ("channelId"@, JsonView::Str(l.channel_id@)),
            ("rosterEpoch"@, JsonView::UInt(l.epoch)),
            (
                "members"@,
                JsonView::Array(
                    l.members@.map_values(|m: RosterMember| member_json(member_row(m))),
                ),
            ),
        ],
    )
}

/// The report of `hrc device list` for `principal`.
pub open spec fn device_list_json(principal: Seq<char>, devices: Seq<DeviceEntry>) -> JsonView {
    JsonView::Object(
        seq![
            ("status"@, JsonView::Str("ok"@)),
            ("principalId"@, JsonView::Str(principal)),
            (
                "devices"@,
                JsonView::Array(device_rows(devices, principal).map_values(|d: DeviceRow| device_json(d))),
            ),
        ],
    )
}

/// The devices of a listing, as JSON.
fn devices_json(devices: &Vec<RosterDevice>) -> (r: Json)
    ensures
        jview(r) == JsonView::Array(
            devices@.map_values(|d: RosterDevice| device_row(d)).map_values(|d: DeviceRow| device_json(d)),
        ),
{
    let mut list = items();
    let mut k: usize = 0;
    while k < devices.len()
        invariant
            k <= devices.len(),
            items_view(list@) == devices@.take(k as int).map_values(|d: RosterDevice| device_row(d)).map_values(
                |d: DeviceRow| device_json(d),
            ),
        decreases devices.len() - k,
    {
        let d = &devices[k];
        let mut entry = members();
        push_member(&mut entry, "deviceId", string(d.device_id.clone()));
        push_member(&mut entry, "active", Json::Bool(d.active));
        push_member(&mut entry, "addedInEpoch", Json::UInt(d.added_in_epoch));
        assert(members_view(entry@) =~= seq![
            ("deviceId"@, JsonView::Str(d.device_id@)),
            ("active"@, JsonView::Bool(d.active)),
            ("addedInEpoch"@, JsonView::UInt(d.added_in_epoch)),
        ]);
        let ghost before = items_view(list@);
        push_item(&mut list, object(entry));
        assert(devices@.take(k + 1).map_values(|x: RosterDevice| device_row(x)).map_values(
            |x: DeviceRow| device_json(x),
        ) =~= before.push(device_json(device_row(*d))));
        k = k + 1;
    }
    assert(devices@.take(devices.len() as int) =~= devices@);
    array(list)
}

/// What `hrc members` reports of a listing.
pub fn members_report(listing: &RosterListing) -> (r: Json)
    ensures
        jview(r) == members_json(*listing),
{
    let mut list = items();
    let mut k: usize = 0;
    while k < listing.members.len()
        invariant
            k <= listing.members.len(),
            items_view(list@) == listing.members@.take(k as int).map_values(
                |m: RosterMember| member_json(member_row(m)),
            ),
        decreases listing.members.len() - k,
    {
        let m = &listing.members[k];
        let mut entry = members();
        push_member(&mut entry, "principalId", string(m.principal_id.clone()));
        push_member(&mut entry, "administrator", Json::Bool(m.administrator));
        push_member(&mut entry, "active", Json::Bool(m.active));
        push_member(&mut entry, "devices", devices_json(&m.devices));
        assert(members_view(entry@) =~= match member_json(member_row(*m)) {
            JsonView::Object(p) => p,
            _ => Seq::empty(),
        });
        let ghost before = items_view(list@);
        push_item(&mut list, object(entry));
        assert(listing.members@.take(k + 1).map_values(|x: RosterMember| member_json(member_row(x)))
            =~= before.push(member_json(member_row(*m))));
        k = k + 1;
    }
    assert(listing.members@.take(listing.members.len() as int) =~= listing.members@);
    let mut top = members();
    push_member(&mut top, "status", text("ok"));
    push_member(&mut top, "channelId", string(listing.channel_id.clone()));
    push_member(&mut top, "rosterEpoch", Json::UInt(listing.epoch));
    push_member(&mut top, "members", array(list));
    assert(members_view(top@) =~= match members_json(*listing) {
        JsonView::Object(p) => p,
        _ => Seq::empty(),
    });
    object(top)
}

/// What `hrc device list` reports: the devices of `principal_id`.
pub fn device_list_report(principal_id: &str, devices: &Vec<DeviceEntry>) -> (r: Json)
    ensures
        jview(r) == device_list_json(principal_id@, devices@),
{
    let owned = devices_for(devices, principal_id);
    let list = devices_json(&owned);
    let mut top = members();
    push_member(&mut top, "status", text("ok"));
    push_member(&mut top, "principalId", text(principal_id));
    push_member(&mut top, "devices", list);
    assert(members_view(top@) =~= match device_list_json(principal_id@, devices@) {
        JsonView::Object(p) => p,
        _ => Seq::empty(),
    });
    object(top)
}


/// A member's devices, as `hrc members` and `hrc device list` both report
/// them, are the same list: the ones the roster records for that principal,
/// in roster order.
pub proof fn law_device_list_agrees_with_members(
    l: RosterListing,
    channel_id: Seq<char>,
    epoch: u64,
    member_entries: Seq<MemberEntry>,
    devices: Seq<DeviceEntry>,
    i: int,
)
    requires
        lists(l, channel_id, epoch, member_entries, devices),
        0 <= i < member_entries.len(),
    ensures
        l.members@[i].principal_id@ == member_entries[i].principal_id@,
        member_json(member_row(l.members@[i])) matches JsonView::Object(pairs) && pairs[3].1
            == (match device_list_json(member_entries[i].principal_id@, devices) {
            JsonView::Object(q) => q[2].1,
            _ => JsonView::Null,
        }),
{
    let rows_l = l.members@.map_values(|m: RosterMember| member_row(m));
    let rows_e = member_entries.map_values(|e: MemberEntry| expected_member(e, devices));
    assert(rows_l.len() == rows_e.len());
    assert(rows_l[i] == rows_e[i]);
}

/// Whether no device before `upto` has signing key `key`.
pub open spec fn no_key_before(devices: Seq<DeviceEntry>, key: Seq<char>, upto: int) -> bool {
    forall|j: int| 0 <= j < upto ==> (#[trigger] devices[j]).signing_key@ != key
}

/// This installation's device, as the roster knows it: the first device
/// whose signing key is this device's.
pub fn local_device_id(devices: &Vec<DeviceEntry>, signing_key: &str) -> (r: Result<String, CliError>)
    ensures
        match r {
            Ok(id) => exists|i: int|
                0 <= i < devices.len() && #[trigger] devices@[i].signing_key@ == signing_key@
                    && no_key_before(devices@, signing_key@, i) && id@ == devices@[i].device_id@,
            Err(e) => e is LocalDeviceNotInChannel && no_key_before(
                devices@,
                signing_key@,
                devices.len() as int,
            ),
        },
{
    let key = chars_of(signing_key);
    let mut k: usize = 0;
    while k < devices.len()
        invariant
            k <= devices.len(),
            key@ == signing_key@,
            no_key_before(devices@, signing_key@, k as int),
        decreases devices.len() - k,
    {
        if equals_str(&key, devices[k].signing_key.as_str()) {
            assert(devices@[k as int].signing_key@ == signing_key@);
            return Ok(devices[k].device_id.clone());
        }
        k = k + 1;
    }
    Err(CliError::LocalDeviceNotInChannel)
}

/// The report of `hrc whoami`: this device's public keys.
pub open spec fn whoami_json(identity: LocalIdentity) -> JsonView {
    JsonView::Object(
        seq![
            ("status"@, JsonView::Str("ok"@)),
            ("signingKey"@, JsonView::Str(identity.device_signing_key@)),
            ("encryptionRecipient"@, JsonView::Str(identity.encryption_recipient@)),
        ],
    )
}

/// What `hrc whoami` reports: the device's signing key and encryption
/// recipient.
pub fn whoami_report(identity: &LocalIdentity) -> (r: Json)
    ensures
        jview(r) == whoami_json(*identity),
{
    let mut top = members();
    push_member(&mut top, "status", text("ok"));
    push_member(&mut top, "signingKey", string(identity.device_signing_key.clone()));
    push_member(&mut top, "encryptionRecipient", string(identity.encryption_recipient.clone()));
    assert(members_view(top@) =~= match whoami_json(*identity) {
        JsonView::Object(p) => p,
        _ => Seq::empty(),
    });
    object(top)
}

/// The report of `hrc init`.
pub open spec fn init_json(home: Seq<char>, identity: LocalIdentity) -> JsonView {
    JsonView::Object(
        seq![
            ("status"@, JsonView::Str("ok"@)),
            ("home"@, JsonView::Str(home)),
            ("principalKey"@, JsonView::Str(identity.principal_id@)),
            ("signingKey"@, JsonView::Str(identity.device_signing_key@)),
            ("encryptionRecipient"@, JsonView::Str(identity.encryption_recipient@)),
        ],
    )
}

/// What `hrc init` reports once the keys and state exist.
pub fn init_report(home: &str, identity: &LocalIdentity) -> (r: Json)
    ensures
        jview(r) == init_json(home@, *identity),
{
    let mut top = members();
    push_member(&mut top, "status", text("ok"));
    push_member(&mut top, "home", text(home));
    push_member(&mut top, "principalKey", string(identity.principal_id.clone()));
    push_member(&mut top, "signingKey", string(identity.device_signing_key.clone()));
    push_member(&mut top, "encryptionRecipient", string(identity.encryption_recipient.clone()));
    assert(members_view(top@) =~= match init_json(home@, *identity) {
        JsonView::Object(p) => p,
        _ => Seq::empty(),
    });
    object(top)
}

/// Whoever `hrc init` creates, `hrc whoami` reports the same device keys.
pub proof fn law_whoami_reports_what_init_created(home: Seq<char>, identity: LocalIdentity)
    ensures
        init_json(home, identity) matches JsonView::Object(i) && whoami_json(identity) matches JsonView::Object(
            w,
        ) && i[3] == w[1] && i[4] == w[2],
{
}

#[verifier::external_type_specification]
#[verifier::external_body]
pub struct ExRandomError(getrandom::Error);

/// Fills `dest` from the operating system's random source with
/// `getrandom::fill`. Nothing is claimed of the bytes, nor of when the call
/// fails: that rests on the operating system.
#[verifier::external_body]
fn fill_random(dest: &mut [u8; 16]) -> (r: Result<(), getrandom::Error>) {
    getrandom::fill(dest)
}

/// A fresh descriptor nonce.
///
/// Two devices created in the same second with the same keys would otherwise
/// share a descriptor, and therefore a device identifier.
pub fn random_nonce() -> (r: Result<[u8; 16], CliError>)
    ensures
        r matches Err(e) ==> e is Entropy,
{
    let mut nonce = [0u8; 16];
    match fill_random(&mut nonce) {
        Ok(()) => Ok(nonce),
        Err(_) => Err(CliError::Entropy),
    }
}

} // verus!
