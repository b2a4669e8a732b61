use hrc_cli::error::CliError;
use hrc_cli::json::{get, get_bool, get_str, get_u64, Json};
use hrc_cli::roster::{
    device_list_report, init_report, local_device_id, members_report, random_nonce,
    roster_listing, whoami_report, DeviceEntry, LocalIdentity, MemberEntry,
};

fn member(principal: &str, admin: bool, active: bool) -> MemberEntry {
    MemberEntry { principal_id: principal.to_owned(), is_administrator: admin, is_active: active }
}

fn device(id: &str, principal: &str, key: &str, active: bool, epoch: u64) -> DeviceEntry {
    DeviceEntry {
        device_id: id.to_owned(),
        principal_id: principal.to_owned(),
        signing_key: key.to_owned(),
        active,
        added_in_epoch: epoch,
    }
}

fn items(v: &Json) -> &Vec<Json> {
    match v {
        Json::Array(items) => items,
        _ => panic!("not an array: {v:?}"),
    }
}

#[test]
fn each_member_is_listed_with_exactly_their_devices() {
    let members = vec![member("alice", true, true), member("bob", false, true)];
    let devices = vec![
        device("d-a1", "alice", "ka1", true, 0),
        device("d-b1", "bob", "kb1", true, 1),
        device("d-a2", "alice", "ka2", false, 2),
    ];
    let listing = roster_listing("chan".to_owned(), 3, &members, &devices);

    assert_eq!(listing.channel_id, "chan");
    assert_eq!(listing.epoch, 3);
    assert_eq!(listing.members.len(), 2);
    assert_eq!(listing.members[0].principal_id, "alice");
    assert!(listing.members[0].administrator);
    let alice: Vec<&str> = listing.members[0].devices.iter().map(|d| d.device_id.as_str()).collect();
    assert_eq!(alice, vec!["d-a1", "d-a2"]);
    assert!(!listing.members[0].devices[1].active);
    assert_eq!(listing.members[0].devices[1].added_in_epoch, 2);
    let bob: Vec<&str> = listing.members[1].devices.iter().map(|d| d.device_id.as_str()).collect();
    assert_eq!(bob, vec!["d-b1"]);
}

#[test]
fn the_members_report_has_the_documented_shape() {
    let members = vec![member("alice", true, false)];
    let devices = vec![device("d-a1", "alice", "ka1", true, 4)];
    let listing = roster_listing("chan".to_owned(), 7, &members, &devices);
    let report = members_report(&listing);

    assert_eq!(get_str(&report, "status").unwrap(), "ok");
    assert_eq!(get_str(&report, "channelId").unwrap(), "chan");
    assert_eq!(get_u64(&report, "rosterEpoch"), Some(7));
    let listed = items(get(&report, "members").unwrap());
    assert_eq!(get_str(&listed[0], "principalId").unwrap(), "alice");
    assert_eq!(get_bool(&listed[0], "administrator"), Some(true));
    assert_eq!(get_bool(&listed[0], "active"), Some(false));
    let devs = items(get(&listed[0], "devices").unwrap());
    assert_eq!(get_str(&devs[0], "deviceId").unwrap(), "d-a1");
    assert_eq!(get_u64(&devs[0], "addedInEpoch"), Some(4));
}

#[test]
fn the_device_list_shows_only_this_principals_devices() {
    let devices = vec![
        device("d-a1", "alice", "ka1", true, 0),
        device("d-b1", "bob", "kb1", true, 1),
    ];
    let report = device_list_report("bob", &devices);
    assert_eq!(get_str(&report, "principalId").unwrap(), "bob");
    let devs = items(get(&report, "devices").unwrap());
    assert_eq!(devs.len(), 1);
    assert_eq!(get_str(&devs[0], "deviceId").unwrap(), "d-b1");
}

#[test]
fn this_device_is_found_by_its_signing_key() {
    let devices = vec![
        device("d-a1", "alice", "ka1", true, 0),
        device("d-a2", "alice", "ka2", true, 1),
        device("d-a3", "alice", "ka2", true, 2),
    ];
    assert_eq!(local_device_id(&devices, "ka2").unwrap(), "d-a2");
    match local_device_id(&devices, "nobody") {
        Err(CliError::LocalDeviceNotInChannel) => {}
        other => panic!("unexpected {other:?}"),
    }
}

#[test]
fn whoami_reports_the_device_keys_that_init_reported() {
    let identity = LocalIdentity {
        principal_id: "principal-key".to_owned(),
        device_signing_key: "device-key".to_owned(),
        encryption_recipient: "age1recipient".to_owned(),
    };
    let init = init_report("/tmp/hrc", &identity);
    let who = whoami_report(&identity);

    assert_eq!(get_str(&init, "principalKey").unwrap(), "principal-key");
    assert_eq!(get_str(&init, "signingKey").unwrap(), get_str(&who, "signingKey").unwrap());
    assert_eq!(
        get_str(&init, "encryptionRecipient").unwrap(),
        get_str(&who, "encryptionRecipient").unwrap()
    );
    assert_eq!(get_str(&who, "signingKey").unwrap(), "device-key");
    assert!(get(&who, "principalKey").is_none());
}

#[test]
fn two_nonces_differ() {
    let a = random_nonce().unwrap();
    let b = random_nonce().unwrap();
    assert_ne!(a, b);
}
