//! Turning a command's result into the text a person reads.
//!
//! Both output modes render the same value, so they cannot drift: `--json`
//! prints the value, and this formats it. Nothing here relies on color:
//! states and urgency are words. A field that is missing reads as empty,
//! zero or an empty list rather than stopping the command.
use vstd::prelude::*;

use crate::decimal::{decimal, digits_chars, digits_of, push_decimal_u64};
use crate::json::{at, bool_of, get, str_at, str_of, u64_of, Json};
use crate::text::{chars_of, equals_str, extend, extend_str, string_of};

verus! {

broadcast use vstd::string::group_string_axioms;

/// A string field, or empty.
pub open spec fn text_at(v: Json, key: Seq<char>) -> Seq<char> {
    match str_at(v, key) {
        Some(s) => s,
        None => Seq::empty(),
    }
}

/// A string field, or `fallback` when it is absent or not a string.
pub open spec fn optional_at(v: Json, key: Seq<char>, fallback: Seq<char>) -> Seq<char> {
    match str_at(v, key) {
        Some(s) => s,
        None => fallback,
    }
}

/// A numeric field, or zero.
pub open spec fn number_at(v: Json, key: Seq<char>) -> u64 {
    match u64_of(at(v, key)) {
        Some(n) => n,
        None => 0,
    }
}

/// An array field, or an empty list.
pub open spec fn array_at(v: Json, key: Seq<char>) -> Seq<Json> {
    match at(v, key) {
        Json::Array(items) => items@,
        _ => Seq::empty(),
    }
}

/// A boolean field that is `true`; absent or anything else reads as false.
pub open spec fn flag_at(v: Json, key: Seq<char>) -> bool {
    bool_of(at(v, key)) == Some(true)
}

/// One line of output.
pub open spec fn line(s: Seq<char>) -> Seq<char> {
    s + seq!['\n']
}

/// `n` spaces.
pub open spec fn spaces(n: int) -> Seq<char> {
    Seq::new(if n > 0 { n as nat } else { 0 }, |_i: int| ' ')
}

/// `s` padded with spaces on the right to `width` characters (`{:<width}`).
pub open spec fn left_aligned(s: Seq<char>, width: int) -> Seq<char> {
    s + spaces(width - s.len())
}

/// `n` padded with spaces on the left to `width` characters (`{:>width}`).
pub open spec fn right_aligned(n: u64, width: int) -> Seq<char> {
    spaces(width - decimal(n as int).len()) + decimal(n as int)
}

/// A string field, or empty (`value[key].as_str().unwrap_or_default()`).
pub fn text_field<'a>(v: &'a Json, key: &str) -> (r: &'a str)
    ensures
        r@ == text_at(*v, key@),
{
    proof {
        reveal_strlit("");
    }
    match crate::json::get_str(v, key) {
        Some(s) => s.as_str(),
        None => "",
    }
}

/// A string field, or `fallback`.
pub fn optional_field<'a>(v: &'a Json, key: &str, fallback: &'a str) -> (r: &'a str)
    ensures
        r@ == optional_at(*v, key@, fallback@),
{
    match crate::json::get_str(v, key) {
        Some(s) => s.as_str(),
        None => fallback,
    }
}

/// A numeric field, or zero.
pub fn number_field(v: &Json, key: &str) -> (r: u64)
    ensures
        r == number_at(*v, key@),
{
    match crate::json::get_u64(v, key) {
        Some(n) => n,
        None => 0,
    }
}

/// An array field's items, when it is an array.
pub fn array_field<'a>(v: &'a Json, key: &str) -> (r: Option<&'a Vec<Json>>)
    ensures
        match r {
            Some(items) => at(*v, key@) == Json::Array(*items) && array_at(*v, key@) == items@,
            None => !(at(*v, key@) is Array) && array_at(*v, key@) == Seq::<Json>::empty(),
        },
{
    match get(v, key) {
        Some(Json::Array(items)) => Some(items),
        _ => None,
    }
}

/// A boolean field that is `true`.
pub fn flag_field(v: &Json, key: &str) -> (r: bool)
    ensures
        r == flag_at(*v, key@),
{
    match crate::json::get_bool(v, key) {
        Some(b) => b,
        None => false,
    }
}

/// How many items an array field holds.
fn array_len(v: &Json, key: &str) -> (r: u64)
    ensures
        r == array_at(*v, key@).len(),
{
    match array_field(v, key) {
        Some(items) => items.len() as u64,
        None => 0,
    }
}

fn push_spaces(out: &mut Vec<char>, n: usize)
    ensures
        final(out)@ == old(out)@ + spaces(n as int),
{
    let mut k: usize = 0;
    while k < n
        invariant
            k <= n,
            out@ == old(out)@ + spaces(k as int),
        decreases n - k,
    {
        out.push(' ');
        k = k + 1;
        assert(out@ =~= old(out)@ + spaces(k as int));
    }
}

fn push_left_aligned(out: &mut Vec<char>, s: &str, width: usize)
    ensures
        final(out)@ == old(out)@ + left_aligned(s@, width as int),
{
    let c = chars_of(s);
    extend(out, &c);
    let pad: usize = if c.len() < width { width - c.len() } else { 0 };
    push_spaces(out, pad);
    assert(spaces(pad as int) =~= spaces(width - s@.len()));
    assert(out@ =~= old(out)@ + left_aligned(s@, width as int));
}

fn push_right_aligned(out: &mut Vec<char>, n: u64, width: usize)
    ensures
        final(out)@ == old(out)@ + right_aligned(n, width as int),
{
    let d = digits_chars(n);
    proof {
        assert(crate::decimal::zeros(0 - digits_of(n as nat).len()) =~= Seq::<char>::empty());
        assert(decimal(n as int) =~= digits_of(n as nat));
    }
    let pad: usize = if d.len() < width { width - d.len() } else { 0 };
    push_spaces(out, pad);
    extend(out, &d);
    assert(spaces(pad as int) =~= spaces(width - decimal(n as int).len()));
    assert(out@ =~= old(out)@ + right_aligned(n, width as int));
}

/// `hrc herdr manifest`: the manifest file itself, so the command can be
/// redirected into one.
pub open spec fn herdr_manifest_text(v: Json) -> Seq<char> {
    text_at(v, "toml"@)
}

/// `hrc init`.
pub open spec fn init_text(v: Json) -> Seq<char> {
    line("Initialized "@ + text_at(v, "home"@)) + line(
        "  signing key         "@ + text_at(v, "signingKey"@),
    ) + line("  encryption recipient "@ + text_at(v, "encryptionRecipient"@))
}

/// `hrc whoami`.
pub open spec fn whoami_text(v: Json) -> Seq<char> {
    line("signing key          "@ + text_at(v, "signingKey"@)) + line(
        "encryption recipient "@ + text_at(v, "encryptionRecipient"@),
    )
}

/// `hrc herdr startup`.
pub open spec fn herdr_startup_text(v: Json) -> Seq<char> {
    line(text_at(v, "sidebar"@))
}

/// `hrc send`, `ask` and `reply`: what was sent, and whether it is only
/// queued.
pub open spec fn sent_text(v: Json) -> Seq<char> {
    line(
        optional_at(v, "kind"@, "message"@) + " "@ + optional_at(v, "messageId"@, "?"@)
            + " in thread "@ + optional_at(v, "threadId"@, "?"@),
    ) + if bool_of(at(v, "published"@)) == Some(false) {
        line("Queued locally; it will publish on the next synchronization."@)
    } else {
        Seq::empty()
    }
}

fn push_line_end(out: &mut Vec<char>)
    ensures
        final(out)@ == old(out)@ + seq!['\n'],
{
    out.push('\n');
}

fn render_init(v: &Json, out: &mut Vec<char>)
    ensures
        final(out)@ == old(out)@ + init_text(*v),
{
    extend_str(out, "Initialized ");
    extend_str(out, text_field(v, "home"));
    push_line_end(out);
    extend_str(out, "  signing key         ");
    extend_str(out, text_field(v, "signingKey"));
    push_line_end(out);
    extend_str(out, "  encryption recipient ");
    extend_str(out, text_field(v, "encryptionRecipient"));
    push_line_end(out);
    assert(out@ =~= old(out)@ + init_text(*v));
}

fn render_whoami(v: &Json, out: &mut Vec<char>)
    ensures
        final(out)@ == old(out)@ + whoami_text(*v),
{
    extend_str(out, "signing key          ");
    extend_str(out, text_field(v, "signingKey"));
    push_line_end(out);
    extend_str(out, "encryption recipient ");
    extend_str(out, text_field(v, "encryptionRecipient"));
    push_line_end(out);
    assert(out@ =~= old(out)@ + whoami_text(*v));
}

fn render_sent(v: &Json, out: &mut Vec<char>)
    ensures
        final(out)@ == old(out)@ + sent_text(*v),
{
    extend_str(out, optional_field(v, "kind", "message"));
    extend_str(out, " ");
    extend_str(out, optional_field(v, "messageId", "?"));
    extend_str(out, " in thread ");
    extend_str(out, optional_field(v, "threadId", "?"));
    push_line_end(out);
    let ghost mid = out@;
    let queued = match crate::json::get_bool(v, "published") {
        Some(b) => !b,
        None => false,
    };
    if queued {
        extend_str(out, "Queued locally; it will publish on the next synchronization.");
        push_line_end(out);
    }
    assert(out@ =~= old(out)@ + sent_text(*v));
}

/// How one channel is listed by `hrc channels`.
pub open spec fn channel_line(c: Json) -> Seq<char> {
    line(
        text_at(c, "localName"@) + "  "@ + text_at(c, "locator"@) + " ("@ + text_at(
            c,
            "transport"@,
        ) + ")"@ + if flag_at(c, "halted"@) {
            "  [HALTED]"@
        } else {
            Seq::empty()
        },
    )
}

/// Every channel, listed.
pub open spec fn channel_lines(items: Seq<Json>) -> Seq<char>
    decreases items.len(),
{
    if items.len() == 0 {
        Seq::empty()
    } else {
        channel_lines(items.drop_last()) + channel_line(items.last())
    }
}

/// `hrc channels`.
pub open spec fn channels_text(v: Json) -> Seq<char> {
    if array_at(v, "channels"@).len() == 0 {
        line("No channels. Create one with `hrc create --repo <owner/name>`."@)
    } else {
        channel_lines(array_at(v, "channels"@))
    }
}

fn render_channels(v: &Json, out: &mut Vec<char>)
    ensures
        final(out)@ == old(out)@ + channels_text(*v),
{
    let items = match array_field(v, "channels") {
        Some(items) => items,
        None => {
            extend_str(out, "No channels. Create one with `hrc create --repo <owner/name>`.");
            push_line_end(out);
            return;
        },
    };
    if items.len() == 0 {
        extend_str(out, "No channels. Create one with `hrc create --repo <owner/name>`.");
        push_line_end(out);
        return;
    }
    let mut k: usize = 0;
    while k < items.len()
        invariant
            k <= items.len(),
            out@ == old(out)@ + channel_lines(items@.take(k as int)),
        decreases items.len() - k,
    {
        let c = &items[k];
        let ghost before = out@;
        extend_str(out, text_field(c, "localName"));
        extend_str(out, "  ");
        extend_str(out, text_field(c, "locator"));
        extend_str(out, " (");
        extend_str(out, text_field(c, "transport"));
        extend_str(out, ")");
        if flag_field(c, "halted") {
            extend_str(out, "  [HALTED]");
        }
        push_line_end(out);
        assert(out@ =~= before + channel_line(*c));
        assert(items@.take(k + 1).drop_last() =~= items@.take(k as int));
        k = k + 1;
    }
    assert(items@.take(items.len() as int) =~= items@);
}

/// How one check is listed by `hrc doctor`: its mark in words, then its
/// name padded to 18 columns, then what it found.
pub open spec fn check_line(c: Json) -> Seq<char> {
    line(
        (if flag_at(c, "ok"@) {
            "ok    "@
        } else {
            "FAILED"@
        }) + "  "@ + left_aligned(text_at(c, "check"@), 18) + "  "@ + text_at(c, "detail"@),
    )
}

/// Every check, listed.
pub open spec fn check_lines(items: Seq<Json>) -> Seq<char>
    decreases items.len(),
{
    if items.len() == 0 {
        Seq::empty()
    } else {
        check_lines(items.drop_last()) + check_line(items.last())
    }
}

/// `hrc doctor`: every check, then a verdict.
pub open spec fn doctor_text(v: Json) -> Seq<char> {
    check_lines(array_at(v, "checks"@)) + line(Seq::empty()) + if flag_at(v, "healthy"@) {
        line("All checks passed."@)
    } else {
        line("Some checks failed. See the lines marked FAILED above."@)
    }
}

fn render_doctor(v: &Json, out: &mut Vec<char>)
    ensures
        final(out)@ == old(out)@ + doctor_text(*v),
{
    match array_field(v, "checks") {
        Some(items) => {
            let mut k: usize = 0;
            while k < items.len()
                invariant
                    k <= items.len(),
                    out@ == old(out)@ + check_lines(items@.take(k as int)),
                decreases items.len() - k,
            {
                let c = &items[k];
                let ghost before = out@;
                extend_str(out, if flag_field(c, "ok") { "ok    " } else { "FAILED" });
                extend_str(out, "  ");
                push_left_aligned(out, text_field(c, "check"), 18);
                extend_str(out, "  ");
                extend_str(out, text_field(c, "detail"));
                push_line_end(out);
                assert(out@ =~= before + check_line(*c));
                assert(items@.take(k + 1).drop_last() =~= items@.take(k as int));
                k = k + 1;
            }
            assert(items@.take(items.len() as int) =~= items@);
        },
        None => {
            assert(out@ =~= old(out)@ + check_lines(Seq::<Json>::empty()));
        },
    }
    let ghost mid = out@;
    push_line_end(out);
    if flag_field(v, "healthy") {
        extend_str(out, "All checks passed.");
    } else {
        extend_str(out, "Some checks failed. See the lines marked FAILED above.");
    }
    push_line_end(out);
    assert(out@ =~= old(out)@ + doctor_text(*v));
}

/// A line that is there only when the field is a string.
pub open spec fn when_text(v: Json, key: Seq<char>, label: Seq<char>) -> Seq<char> {
    match str_at(v, key) {
        Some(t) => line(label + t),
        None => Seq::empty(),
    }
}

fn push_when_text(out: &mut Vec<char>, v: &Json, key: &str, label: &str)
    ensures
        final(out)@ == old(out)@ + when_text(*v, key@, label@),
{
    match crate::json::get_str(v, key) {
        Some(t) => {
            extend_str(out, label);
            extend_str(out, t.as_str());
            push_line_end(out);
            assert(out@ =~= old(out)@ + when_text(*v, key@, label@));
        },
        None => {
            assert(out@ =~= old(out)@ + when_text(*v, key@, label@));
        },
    }
}

/// The identity lines of a channel in `hrc status`.
pub open spec fn status_head(c: Json) -> Seq<char> {
    line(Seq::empty()) + line(text_at(c, "localName"@)) + line(
        "  channel        "@ + text_at(c, "channelId"@),
    ) + line("  transport      "@ + text_at(c, "transport"@) + " "@ + text_at(c, "locator"@))
}

/// The counters of a channel in `hrc status`.
pub open spec fn status_counts(c: Json) -> Seq<char> {
    line("  roster epoch   "@ + decimal(number_at(c, "rosterEpoch"@) as int)) + line(
        "  last fetched   "@ + optional_at(c, "lastFetchedRevision"@, "never"@),
    ) + line("  outbox pending "@ + decimal(number_at(c, "outboxPending"@) as int)) + line(
        "  unread         "@ + decimal(number_at(c, "unread"@) as int),
    ) + line("  approvals      "@ + decimal(number_at(c, "pendingApproval"@) as int))
}

/// The trouble a channel reports in `hrc status`, stated in words: its last
/// transport error, and a halt that will not clear on its own.
pub open spec fn status_trouble(c: Json) -> Seq<char> {
    when_text(c, "lastTransportError"@, "  last error     "@) + match str_at(c, "haltedReason"@) {
        Some(reason) => line("  HALTED         "@ + reason) + line(
            "                 synchronization will not resume on its own"@,
        ),
        None => Seq::empty(),
    }
}

/// One channel as `hrc status` shows it.
pub open spec fn status_block(c: Json) -> Seq<char> {
    status_head(c) + status_counts(c) + status_trouble(c)
}

/// Every channel, as `hrc status` shows them.
pub open spec fn status_blocks(items: Seq<Json>) -> Seq<char>
    decreases items.len(),
{
    if items.len() == 0 {
        Seq::empty()
    } else {
        status_blocks(items.drop_last()) + status_block(items.last())
    }
}

/// `hrc status`.
pub open spec fn status_text(v: Json) -> Seq<char> {
    line("state directory "@ + text_at(v, "home"@)) + if array_at(v, "channels"@).len() == 0 {
        line("no channels configured"@)
    } else {
        status_blocks(array_at(v, "channels"@))
    }
}

fn render_status_head(c: &Json, out: &mut Vec<char>)
    ensures
        final(out)@ == old(out)@ + status_head(*c),
{
    push_line_end(out);
    extend_str(out, text_field(c, "localName"));
    push_line_end(out);
    extend_str(out, "  channel        ");
    extend_str(out, text_field(c, "channelId"));
    push_line_end(out);
    extend_str(out, "  transport      ");
    extend_str(out, text_field(c, "transport"));
    extend_str(out, " ");
    extend_str(out, text_field(c, "locator"));
    push_line_end(out);
    assert(out@ =~= old(out)@ + status_head(*c));
}

fn render_status_counts(c: &Json, out: &mut Vec<char>)
    ensures
        final(out)@ == old(out)@ + status_counts(*c),
{
    extend_str(out, "  roster epoch   ");
    push_decimal_u64(out, number_field(c, "rosterEpoch"));
    push_line_end(out);
    extend_str(out, "  last fetched   ");
    extend_str(out, optional_field(c, "lastFetchedRevision", "never"));
    push_line_end(out);
    extend_str(out, "  outbox pending ");
    push_decimal_u64(out, number_field(c, "outboxPending"));
    push_line_end(out);
    extend_str(out, "  unread         ");
    push_decimal_u64(out, number_field(c, "unread"));
    push_line_end(out);
    extend_str(out, "  approvals      ");
    push_decimal_u64(out, number_field(c, "pendingApproval"));
    push_line_end(out);
    assert(out@ =~= old(out)@ + status_counts(*c));
}

fn render_status_trouble(c: &Json, out: &mut Vec<char>)
    ensures
        final(out)@ == old(out)@ + status_trouble(*c),
{
    push_when_text(out, c, "lastTransportError", "  last error     ");
    match crate::json::get_str(c, "haltedReason") {
        Some(reason) => {
            extend_str(out, "  HALTED         ");
            extend_str(out, reason.as_str());
            push_line_end(out);
            extend_str(out, "                 synchronization will not resume on its own");
            push_line_end(out);
        },
        None => {},
    }
    assert(out@ =~= old(out)@ + status_trouble(*c));
}

fn render_status_block(c: &Json, out: &mut Vec<char>)
    ensures
        final(out)@ == old(out)@ + status_block(*c),
{
    render_status_head(c, out);
    render_status_counts(c, out);
    render_status_trouble(c, out);
    assert(out@ =~= old(out)@ + status_block(*c));
}

fn render_status(v: &Json, out: &mut Vec<char>)
    ensures
        final(out)@ == old(out)@ + status_text(*v),
{
    extend_str(out, "state directory ");
    extend_str(out, text_field(v, "home"));
    push_line_end(out);
    let ghost head = out@;
    let items = match array_field(v, "channels") {
        Some(items) => items,
        None => {
            extend_str(out, "no channels configured");
            push_line_end(out);
            assert(out@ =~= old(out)@ + status_text(*v));
            return;
        },
    };
    if items.len() == 0 {
        extend_str(out, "no channels configured");
        push_line_end(out);
        assert(out@ =~= old(out)@ + status_text(*v));
        return;
    }
    let mut k: usize = 0;
    while k < items.len()
        invariant
            k <= items.len(),
            out@ == head + status_blocks(items@.take(k as int)),
        decreases items.len() - k,
    {
        render_status_block(&items[k], out);
        assert(items@.take(k + 1).drop_last() =~= items@.take(k as int));
        k = k + 1;
    }
    assert(items@.take(items.len() as int) =~= items@);
    assert(out@ =~= old(out)@ + status_text(*v));
}

/// One audit entry as `hrc audit` shows it.
pub open spec fn audit_block(e: Json) -> Seq<char> {
    line(text_at(e, "occurredAt"@) + "  "@ + text_at(e, "action"@)) + when_text(
        e,
        "channelId"@,
        "  channel "@,
    ) + when_text(e, "messageId"@, "  message "@) + when_text(e, "detail"@, "  detail  "@)
}

/// Every audit entry.
pub open spec fn audit_blocks(items: Seq<Json>) -> Seq<char>
    decreases items.len(),
{
    if items.len() == 0 {
        Seq::empty()
    } else {
        audit_blocks(items.drop_last()) + audit_block(items.last())
    }
}

/// `hrc audit`.
pub open spec fn audit_text(v: Json) -> Seq<char> {
    if array_at(v, "entries"@).len() == 0 {
        line("No audit entries."@)
    } else {
        audit_blocks(array_at(v, "entries"@))
    }
}

fn render_audit(v: &Json, out: &mut Vec<char>)
    ensures
        final(out)@ == old(out)@ + audit_text(*v),
{
    let items = match array_field(v, "entries") {
        Some(items) => items,
        None => {
            extend_str(out, "No audit entries.");
            push_line_end(out);
            return;
        },
    };
    if items.len() == 0 {
        extend_str(out, "No audit entries.");
        push_line_end(out);
        return;
    }
    let mut k: usize = 0;
    while k < items.len()
        invariant
            k <= items.len(),
            out@ == old(out)@ + audit_blocks(items@.take(k as int)),
        decreases items.len() - k,
    {
        let e = &items[k];
        let ghost before = out@;
        extend_str(out, text_field(e, "occurredAt"));
        extend_str(out, "  ");
        extend_str(out, text_field(e, "action"));
        push_line_end(out);
        push_when_text(out, e, "channelId", "  channel ");
        push_when_text(out, e, "messageId", "  message ");
        push_when_text(out, e, "detail", "  detail  ");
        assert(out@ =~= before + audit_block(*e));
        assert(items@.take(k + 1).drop_last() =~= items@.take(k as int));
        k = k + 1;
    }
    assert(items@.take(items.len() as int) =~= items@);
}

/// `yes` or `no`.
pub open spec fn yes_no(b: bool) -> Seq<char> {
    if b {
        "yes"@
    } else {
        "no"@
    }
}

/// Where a synchronized channel's transport is, and whether it changed.
pub open spec fn transport_lines(c: Json) -> Seq<char> {
    line("  transport       "@ + text_at(c, "transport"@) + " "@ + text_at(c, "locator"@)) + line(
        "  remote changed  "@ + yes_no(flag_at(c, "remoteChanged"@)),
    )
}

/// What a synchronized channel fetched.
pub open spec fn fetched_line(c: Json) -> Seq<char> {
    line(
        "  fetched         "@ + decimal(number_at(c, "fetchedPublications"@) as int)
            + " publications, "@ + decimal(number_at(c, "fetchedControlObjects"@) as int)
            + " control, "@ + decimal(number_at(c, "fetchedMessageObjects"@) as int) + " messages"@,
    )
}

/// The lines a synchronized channel shows in both `hrc sync` and the
/// daemon's report: transport, whether the remote changed, and what was
/// fetched and published.
pub open spec fn synced_lines(c: Json) -> Seq<char> {
    transport_lines(c) + fetched_line(c) + line(
        "  published       "@ + decimal(array_at(c, "publishedMessages"@).len() as int),
    )
}

fn render_transport_lines(c: &Json, out: &mut Vec<char>)
    ensures
        final(out)@ == old(out)@ + transport_lines(*c),
{
    extend_str(out, "  transport       ");
    extend_str(out, text_field(c, "transport"));
    extend_str(out, " ");
    extend_str(out, text_field(c, "locator"));
    push_line_end(out);
    extend_str(out, "  remote changed  ");
    extend_str(out, if flag_field(c, "remoteChanged") { "yes" } else { "no" });
    push_line_end(out);
    assert(out@ =~= old(out)@ + transport_lines(*c));
}

fn render_fetched_line(c: &Json, out: &mut Vec<char>)
    ensures
        final(out)@ == old(out)@ + fetched_line(*c),
{
    extend_str(out, "  fetched         ");
    push_decimal_u64(out, number_field(c, "fetchedPublications"));
    extend_str(out, " publications, ");
    push_decimal_u64(out, number_field(c, "fetchedControlObjects"));
    extend_str(out, " control, ");
    push_decimal_u64(out, number_field(c, "fetchedMessageObjects"));
    extend_str(out, " messages");
    push_line_end(out);
    assert(out@ =~= old(out)@ + fetched_line(*c));
}

fn render_synced_lines(c: &Json, out: &mut Vec<char>)
    ensures
        final(out)@ == old(out)@ + synced_lines(*c),
{
    render_transport_lines(c, out);
    render_fetched_line(c, out);
    extend_str(out, "  published       ");
    push_decimal_u64(out, array_len(c, "publishedMessages"));
    push_line_end(out);
    assert(out@ =~= old(out)@ + synced_lines(*c));
}

/// One channel as `hrc sync` shows it.
pub open spec fn sync_block(c: Json) -> Seq<char> {
    line(Seq::empty()) + line(text_at(c, "channelId"@)) + synced_lines(c) + line(
        "  deferred        "@ + decimal(array_at(c, "deferredMessages"@).len() as int),
    ) + line(
        "  recovered       "@ + decimal(number_at(c, "recoveredReservations"@) as int)
            + " reserved slots"@,
    )
}

/// Every channel, as `hrc sync` shows them.
pub open spec fn sync_blocks(items: Seq<Json>) -> Seq<char>
    decreases items.len(),
{
    if items.len() == 0 {
        Seq::empty()
    } else {
        sync_blocks(items.drop_last()) + sync_block(items.last())
    }
}

/// `hrc sync`.
pub open spec fn sync_text(v: Json) -> Seq<char> {
    line("synchronized at "@ + text_at(v, "syncedAt"@)) + if array_at(v, "channels"@).len() == 0 {
        line("no channels configured"@)
    } else {
        sync_blocks(array_at(v, "channels"@))
    }
}

fn render_sync_block(c: &Json, out: &mut Vec<char>)
    ensures
        final(out)@ == old(out)@ + sync_block(*c),
{
    push_line_end(out);
    extend_str(out, text_field(c, "channelId"));
    push_line_end(out);
    render_synced_lines(c, out);
    let ghost mid = out@;
    extend_str(out, "  deferred        ");
    push_decimal_u64(out, array_len(c, "deferredMessages"));
    push_line_end(out);
    extend_str(out, "  recovered       ");
    push_decimal_u64(out, number_field(c, "recoveredReservations"));
    extend_str(out, " reserved slots");
    push_line_end(out);
    assert(out@ =~= old(out)@ + sync_block(*c));
}

fn render_sync(v: &Json, out: &mut Vec<char>)
    ensures
        final(out)@ == old(out)@ + sync_text(*v),
{
    extend_str(out, "synchronized at ");
    extend_str(out, text_field(v, "syncedAt"));
    push_line_end(out);
    let ghost head = out@;
    let items = match array_field(v, "channels") {
        Some(items) => items,
        None => {
            extend_str(out, "no channels configured");
            push_line_end(out);
            assert(out@ =~= old(out)@ + sync_text(*v));
            return;
        },
    };
    if items.len() == 0 {
        extend_str(out, "no channels configured");
        push_line_end(out);
        assert(out@ =~= old(out)@ + sync_text(*v));
        return;
    }
    let mut k: usize = 0;
    while k < items.len()
        invariant
            k <= items.len(),
            out@ == head + sync_blocks(items@.take(k as int)),
        decreases items.len() - k,
    {
        render_sync_block(&items[k], out);
        assert(items@.take(k + 1).drop_last() =~= items@.take(k as int));
        k = k + 1;
    }
    assert(items@.take(items.len() as int) =~= items@);
    assert(out@ =~= old(out)@ + sync_text(*v));
}

/// One channel as the daemon's report shows it: a failed one by its error.
pub open spec fn daemon_block(c: Json) -> Seq<char> {
    line(Seq::empty()) + line(text_at(c, "channelId"@)) + if str_at(c, "status"@) == Some(
        "error"@,
    ) {
        line("  ERROR           "@ + text_at(c, "message"@))
    } else {
        synced_lines(c)
    }
}

/// Every channel, as the daemon's report shows them.
pub open spec fn daemon_blocks(items: Seq<Json>) -> Seq<char>
    decreases items.len(),
{
    if items.len() == 0 {
        Seq::empty()
    } else {
        daemon_blocks(items.drop_last()) + daemon_block(items.last())
    }
}

/// `hrc daemon`'s report of one pass.
pub open spec fn daemon_text(v: Json) -> Seq<char> {
    line("daemon synchronized at "@ + text_at(v, "syncedAt"@)) + line(
        "next poll in "@ + decimal(number_at(v, "nextPollSeconds"@) as int) + " seconds"@,
    ) + if array_at(v, "channels"@).len() == 0 {
        line("no channels configured"@)
    } else {
        daemon_blocks(array_at(v, "channels"@))
    }
}

fn is_error_status(c: &Json) -> (r: bool)
    ensures
        r == (str_at(*c, "status"@) == Some("error"@)),
{
    match crate::json::get_str(c, "status") {
        Some(s) => {
            let sc = chars_of(s.as_str());
            equals_str(&sc, "error")
        },
        None => false,
    }
}

fn render_daemon_block(c: &Json, out: &mut Vec<char>)
    ensures
        final(out)@ == old(out)@ + daemon_block(*c),
{
    push_line_end(out);
    extend_str(out, text_field(c, "channelId"));
    push_line_end(out);
    if is_error_status(c) {
        extend_str(out, "  ERROR           ");
        extend_str(out, text_field(c, "message"));
        push_line_end(out);
    } else {
        render_synced_lines(c, out);
    }
    assert(out@ =~= old(out)@ + daemon_block(*c));
}

fn render_daemon(v: &Json, out: &mut Vec<char>)
    ensures
        final(out)@ == old(out)@ + daemon_text(*v),
{
    extend_str(out, "daemon synchronized at ");
    extend_str(out, text_field(v, "syncedAt"));
    push_line_end(out);
    extend_str(out, "next poll in ");
    push_decimal_u64(out, number_field(v, "nextPollSeconds"));
    extend_str(out, " seconds");
    push_line_end(out);
    let ghost head = out@;
    let items = match array_field(v, "channels") {
        Some(items) => items,
        None => {
            extend_str(out, "no channels configured");
            push_line_end(out);
            assert(out@ =~= old(out)@ + daemon_text(*v));
            return;
        },
    };
    if items.len() == 0 {
        extend_str(out, "no channels configured");
        push_line_end(out);
        assert(out@ =~= old(out)@ + daemon_text(*v));
        return;
    }
    let mut k: usize = 0;
    while k < items.len()
        invariant
            k <= items.len(),
            out@ == head + daemon_blocks(items@.take(k as int)),
        decreases items.len() - k,
    {
        render_daemon_block(&items[k], out);
        assert(items@.take(k + 1).drop_last() =~= items@.take(k as int));
        k = k + 1;
    }
    assert(items@.take(items.len() as int) =~= items@);
    assert(out@ =~= old(out)@ + daemon_text(*v));
}

/// One notification in the plugin pane: urgency is a mark, not a color.
pub open spec fn notification_line(n: Json) -> Seq<char> {
    line((if flag_at(n, "urgent"@) { "! "@ } else { "  "@ }) + text_at(n, "text"@))
}

/// Every notification.
pub open spec fn notification_lines(items: Seq<Json>) -> Seq<char>
    decreases items.len(),
{
    if items.len() == 0 {
        Seq::empty()
    } else {
        notification_lines(items.drop_last()) + notification_line(items.last())
    }
}

/// A text field, or `none` when it is empty.
pub open spec fn or_none(t: Seq<char>) -> Seq<char> {
    if t.len() == 0 {
        "none"@
    } else {
        t
    }
}

/// Where an inbox row in the plugin pane came from and what thread it is.
pub open spec fn pane_row_head(r: Json) -> Seq<char> {
    line(
        text_at(r, "arrival_at"@) + "  "@ + text_at(r, "kind"@) + " from "@ + text_at(
            r,
            "sender_local_name"@,
        ),
    ) + line(
        "  thread "@ + text_at(r, "thread_label"@) + "  endpoint "@ + or_none(
            text_at(r, "endpoint_label"@),
        ),
    )
}

/// What an inbox row in the plugin pane carries and what can be done.
pub open spec fn pane_row_tail(r: Json) -> Seq<char> {
    line(
        "  "@ + text_at(r, "verification"@) + "  attachments "@ + decimal(
            number_at(r, "attachment_count"@) as int,
        ) + " ("@ + decimal(number_at(r, "attachment_bytes"@) as int) + " bytes)"@,
    ) + when_text(r, "expires_at"@, "  expires "@) + if array_at(r, "decisions"@).len() == 0 {
        line("  no decision available"@)
    } else {
        line("  awaiting your decision in `hrc review`"@)
    }
}

/// One inbox row in the plugin pane: no body, only locally resolved names
/// and validated identifiers.
pub open spec fn pane_row(r: Json) -> Seq<char> {
    pane_row_head(r) + pane_row_tail(r)
}

/// Every inbox row in the plugin pane.
pub open spec fn pane_rows(items: Seq<Json>) -> Seq<char>
    decreases items.len(),
{
    if items.len() == 0 {
        Seq::empty()
    } else {
        pane_rows(items.drop_last()) + pane_row(items.last())
    }
}

/// The rows of the plugin pane, or that the inbox is empty.
pub open spec fn pane_body(v: Json) -> Seq<char> {
    if array_at(v, "rows"@).len() == 0 {
        line("Inbox is empty."@)
    } else {
        line(Seq::empty()) + pane_rows(array_at(v, "rows"@)) + line(Seq::empty()) + line(
            decimal(number_at(v, "pending"@) as int) + " awaiting a decision"@,
        )
    }
}

/// `hrc herdr action` and `hrc herdr pane`: the plugin inbox pane.
pub open spec fn herdr_pane_text(v: Json) -> Seq<char> {
    notification_lines(array_at(v, "notifications"@)) + pane_body(v)
}

fn render_pane_row_head(r: &Json, out: &mut Vec<char>)
    ensures
        final(out)@ == old(out)@ + pane_row_head(*r),
{
    extend_str(out, text_field(r, "arrival_at"));
    extend_str(out, "  ");
    extend_str(out, text_field(r, "kind"));
    extend_str(out, " from ");
    extend_str(out, text_field(r, "sender_local_name"));
    push_line_end(out);
    extend_str(out, "  thread ");
    extend_str(out, text_field(r, "thread_label"));
    extend_str(out, "  endpoint ");
    let endpoint = text_field(r, "endpoint_label");
    if endpoint.is_empty() {
        extend_str(out, "none");
    } else {
        extend_str(out, endpoint);
    }
    push_line_end(out);
    assert(out@ =~= old(out)@ + pane_row_head(*r));
}

fn render_pane_row_tail(r: &Json, out: &mut Vec<char>)
    ensures
        final(out)@ == old(out)@ + pane_row_tail(*r),
{
    extend_str(out, "  ");
    extend_str(out, text_field(r, "verification"));
    extend_str(out, "  attachments ");
    push_decimal_u64(out, number_field(r, "attachment_count"));
    extend_str(out, " (");
    push_decimal_u64(out, number_field(r, "attachment_bytes"));
    extend_str(out, " bytes)");
    push_line_end(out);
    let ghost c = out@;
    push_when_text(out, r, "expires_at", "  expires ");
    if array_len(r, "decisions") == 0 {
        extend_str(out, "  no decision available");
    } else {
        extend_str(out, "  awaiting your decision in `hrc review`");
    }
    push_line_end(out);
    assert(out@ =~= old(out)@ + pane_row_tail(*r));
}

fn render_pane_row(r: &Json, out: &mut Vec<char>)
    ensures
        final(out)@ == old(out)@ + pane_row(*r),
{
    render_pane_row_head(r, out);
    render_pane_row_tail(r, out);
    assert(out@ =~= old(out)@ + pane_row(*r));
}

fn render_notifications(v: &Json, out: &mut Vec<char>)
    ensures
        final(out)@ == old(out)@ + notification_lines(array_at(*v, "notifications"@)),
{
    match array_field(v, "notifications") {
        Some(items) => {
            let mut k: usize = 0;
            while k < items.len()
                invariant
                    k <= items.len(),
                    out@ == old(out)@ + notification_lines(items@.take(k as int)),
                decreases items.len() - k,
            {
                let n = &items[k];
                let ghost before = out@;
                extend_str(out, if flag_field(n, "urgent") { "! " } else { "  " });
                extend_str(out, text_field(n, "text"));
                push_line_end(out);
                assert(out@ =~= before + notification_line(*n));
                assert(items@.take(k + 1).drop_last() =~= items@.take(k as int));
                k = k + 1;
            }
            assert(items@.take(items.len() as int) =~= items@);
        },
        None => {
            assert(out@ =~= old(out)@ + notification_lines(Seq::<Json>::empty()));
        },
    }
}

fn render_pane_body(v: &Json, out: &mut Vec<char>)
    ensures
        final(out)@ == old(out)@ + pane_body(*v),
{
    let rows = match array_field(v, "rows") {
        Some(rows) => rows,
        None => {
            extend_str(out, "Inbox is empty.");
            push_line_end(out);
            return;
        },
    };
    if rows.len() == 0 {
        extend_str(out, "Inbox is empty.");
        push_line_end(out);
        return;
    }
    push_line_end(out);
    let ghost start = out@;
    let mut k: usize = 0;
    while k < rows.len()
        invariant
            k <= rows.len(),
            out@ == start + pane_rows(rows@.take(k as int)),
        decreases rows.len() - k,
    {
        render_pane_row(&rows[k], out);
        assert(rows@.take(k + 1).drop_last() =~= rows@.take(k as int));
        k = k + 1;
    }
    assert(rows@.take(rows.len() as int) =~= rows@);
    let ghost body = out@;
    push_line_end(out);
    push_decimal_u64(out, number_field(v, "pending"));
    extend_str(out, " awaiting a decision");
    push_line_end(out);
    assert(out@ =~= old(out)@ + pane_body(*v));
}

fn render_herdr_pane(v: &Json, out: &mut Vec<char>)
    ensures
        final(out)@ == old(out)@ + herdr_pane_text(*v),
{
    render_notifications(v, out);
    render_pane_body(v, out);
    assert(out@ =~= old(out)@ + herdr_pane_text(*v));
}

/// One invite as `hrc invite list` shows it.
pub open spec fn invite_line(i: Json) -> Seq<char> {
    line(
        optional_at(i, "state"@, "?"@) + "  "@ + optional_at(i, "inviteId"@, "?"@)
            + "  expires "@ + optional_at(i, "expiresAt"@, "?"@) + "  for "@ + optional_at(
            i,
            "intendedFor"@,
            "?"@,
        ),
    )
}

/// Every invite.
pub open spec fn invite_lines(items: Seq<Json>) -> Seq<char>
    decreases items.len(),
{
    if items.len() == 0 {
        Seq::empty()
    } else {
        invite_lines(items.drop_last()) + invite_line(items.last())
    }
}

/// `hrc invite create`, `list` and `revoke`. A created invite's code is
/// printed on its own line, with what to do with it.
pub open spec fn invite_text(v: Json) -> Seq<char> {
    match at(v, "invites"@) {
        Json::Array(invites) => if invites.len() == 0 {
            line("No invites."@)
        } else {
            invite_lines(invites@)
        },
        _ => match str_at(v, "inviteCode"@) {
            Some(code) => line(
                "Invite for "@ + optional_at(v, "intendedFor"@, "?"@) + " expires "@ + optional_at(
                    v,
                    "expiresAt"@,
                    "?"@,
                ),
            ) + line(Seq::empty()) + line(code) + line(Seq::empty()) + line(
                "Give this to them through a channel you trust. It works once."@,
            ),
            None => line(optional_at(v, "inviteId"@, "done"@)),
        },
    }
}

fn render_invite(v: &Json, out: &mut Vec<char>)
    ensures
        final(out)@ == old(out)@ + invite_text(*v),
{
    match array_field(v, "invites") {
        Some(items) => {
            if items.len() == 0 {
                extend_str(out, "No invites.");
                push_line_end(out);
                return;
            }
            let mut k: usize = 0;
            while k < items.len()
                invariant
                    k <= items.len(),
                    out@ == old(out)@ + invite_lines(items@.take(k as int)),
                decreases items.len() - k,
            {
                let i = &items[k];
                let ghost before = out@;
                extend_str(out, optional_field(i, "state", "?"));
                extend_str(out, "  ");
                extend_str(out, optional_field(i, "inviteId", "?"));
                extend_str(out, "  expires ");
                extend_str(out, optional_field(i, "expiresAt", "?"));
                extend_str(out, "  for ");
                extend_str(out, optional_field(i, "intendedFor", "?"));
                push_line_end(out);
                assert(out@ =~= before + invite_line(*i));
                assert(items@.take(k + 1).drop_last() =~= items@.take(k as int));
                k = k + 1;
            }
            assert(items@.take(items.len() as int) =~= items@);
            return;
        },
        None => {},
    }
    match crate::json::get_str(v, "inviteCode") {
        Some(code) => {
            extend_str(out, "Invite for ");
            extend_str(out, optional_field(v, "intendedFor", "?"));
            extend_str(out, " expires ");
            extend_str(out, optional_field(v, "expiresAt", "?"));
            push_line_end(out);
            push_line_end(out);
            extend_str(out, code.as_str());
            push_line_end(out);
            push_line_end(out);
            extend_str(out, "Give this to them through a channel you trust. It works once.");
            push_line_end(out);
            assert(out@ =~= old(out)@ + invite_text(*v));
        },
        None => {
            extend_str(out, optional_field(v, "inviteId", "done"));
            push_line_end(out);
            assert(out@ =~= old(out)@ + invite_text(*v));
        },
    }
}

/// One pending join request.
pub open spec fn join_request_lines(r: Json) -> Seq<char> {
    line(optional_at(r, "requestId"@, "?"@) + "  from "@ + optional_at(r, "principalId"@, "?"@))
        + line("  safety phrase: "@ + optional_at(r, "safetyPhrase"@, "?"@))
}

/// Every pending join request.
pub open spec fn join_request_blocks(items: Seq<Json>) -> Seq<char>
    decreases items.len(),
{
    if items.len() == 0 {
        Seq::empty()
    } else {
        join_request_blocks(items.drop_last()) + join_request_lines(items.last())
    }
}

/// `hrc join` and `hrc join pending`. A joiner is told to compare the
/// safety phrase out loud.
pub open spec fn join_text(v: Json) -> Seq<char> {
    match at(v, "pending"@) {
        Json::Array(pending) => if pending.len() == 0 {
            line("No join requests."@)
        } else {
            join_request_blocks(pending@)
        },
        _ => line("Join requested on channel "@ + optional_at(v, "channelId"@, "?"@)) + line(
            Seq::empty(),
        ) + line("Safety phrase: "@ + optional_at(v, "safetyPhrase"@, "?"@)) + line(
            "Compare it with the administrator out loud before they approve."@,
        ),
    }
}

fn render_join(v: &Json, out: &mut Vec<char>)
    ensures
        final(out)@ == old(out)@ + join_text(*v),
{
    match array_field(v, "pending") {
        Some(items) => {
            if items.len() == 0 {
                extend_str(out, "No join requests.");
                push_line_end(out);
                return;
            }
            let mut k: usize = 0;
            while k < items.len()
                invariant
                    k <= items.len(),
                    out@ == old(out)@ + join_request_blocks(items@.take(k as int)),
                decreases items.len() - k,
            {
                let r = &items[k];
                let ghost before = out@;
                extend_str(out, optional_field(r, "requestId", "?"));
                extend_str(out, "  from ");
                extend_str(out, optional_field(r, "principalId", "?"));
                push_line_end(out);
                extend_str(out, "  safety phrase: ");
                extend_str(out, optional_field(r, "safetyPhrase", "?"));
                push_line_end(out);
                assert(out@ =~= before + join_request_lines(*r));
                assert(items@.take(k + 1).drop_last() =~= items@.take(k as int));
                k = k + 1;
            }
            assert(items@.take(items.len() as int) =~= items@);
        },
        None => {
            extend_str(out, "Join requested on channel ");
            extend_str(out, optional_field(v, "channelId", "?"));
            push_line_end(out);
            push_line_end(out);
            extend_str(out, "Safety phrase: ");
            extend_str(out, optional_field(v, "safetyPhrase", "?"));
            push_line_end(out);
            extend_str(out, "Compare it with the administrator out loud before they approve.");
            push_line_end(out);
            assert(out@ =~= old(out)@ + join_text(*v));
        },
    }
}

/// One inbox entry as `hrc inbox` lists it, with its expiry when it has
/// one: a lapsed message says why no action is offered.
pub open spec fn inbox_entry_lines(e: Json) -> Seq<char> {
    inbox_entry_head(e) + inbox_expiry(e)
}

/// The summary line of an inbox entry.
pub open spec fn inbox_entry_head(e: Json) -> Seq<char> {
    line(
        right_aligned(number_at(e, "arrival"@), 4) + "  "@ + optional_at(e, "messageId"@, "?"@)
            + "  "@ + optional_at(e, "kind"@, "?"@) + " from "@ + optional_at(e, "sender"@, "?"@)
            + "  ["@ + optional_at(e, "disposition"@, "?"@) + "]"@,
    )
}

/// The expiry line of an inbox entry, when it has an expiry.
pub open spec fn inbox_expiry(e: Json) -> Seq<char> {
    match str_at(e, "expiresAt"@) {
        Some(x) => if str_at(e, "disposition"@) == Some("expired"@) {
            line("      expired "@ + x + "; no action is available"@)
        } else {
            line("      expires "@ + x)
        },
        None => Seq::empty(),
    }
}

/// Every inbox entry.
pub open spec fn inbox_entry_blocks(items: Seq<Json>) -> Seq<char>
    decreases items.len(),
{
    if items.len() == 0 {
        Seq::empty()
    } else {
        inbox_entry_blocks(items.drop_last()) + inbox_entry_lines(items.last())
    }
}

/// `hrc inbox`.
pub open spec fn inbox_text(v: Json) -> Seq<char> {
    if array_at(v, "entries"@).len() == 0 {
        line("Inbox is empty."@)
    } else {
        inbox_entry_blocks(array_at(v, "entries"@))
    }
}

fn is_str_field(v: &Json, key: &str, expected: &str) -> (r: bool)
    ensures
        r == (str_at(*v, key@) == Some(expected@)),
{
    match crate::json::get_str(v, key) {
        Some(s) => {
            let c = chars_of(s.as_str());
            equals_str(&c, expected)
        },
        None => false,
    }
}

fn render_inbox_entry_head(e: &Json, out: &mut Vec<char>)
    ensures
        final(out)@ == old(out)@ + inbox_entry_head(*e),
{
    push_right_aligned(out, number_field(e, "arrival"), 4);
    extend_str(out, "  ");
    extend_str(out, optional_field(e, "messageId", "?"));
    extend_str(out, "  ");
    extend_str(out, optional_field(e, "kind", "?"));
    extend_str(out, " from ");
    extend_str(out, optional_field(e, "sender", "?"));
    extend_str(out, "  [");
    extend_str(out, optional_field(e, "disposition", "?"));
    extend_str(out, "]");
    push_line_end(out);
    assert(out@ =~= old(out)@ + inbox_entry_head(*e));
}

fn render_inbox_expiry(e: &Json, out: &mut Vec<char>)
    ensures
        final(out)@ == old(out)@ + inbox_expiry(*e),
{
    match crate::json::get_str(e, "expiresAt") {
        Some(x) => {
            if is_str_field(e, "disposition", "expired") {
                extend_str(out, "      expired ");
                extend_str(out, x.as_str());
                extend_str(out, "; no action is available");
            } else {
                extend_str(out, "      expires ");
                extend_str(out, x.as_str());
            }
            push_line_end(out);
        },
        None => {},
    }
    assert(out@ =~= old(out)@ + inbox_expiry(*e));
}

fn render_inbox_entry(e: &Json, out: &mut Vec<char>)
    ensures
        final(out)@ == old(out)@ + inbox_entry_lines(*e),
{
    render_inbox_entry_head(e, out);
    render_inbox_expiry(e, out);
    assert(out@ =~= old(out)@ + inbox_entry_lines(*e));
}

fn render_inbox(v: &Json, out: &mut Vec<char>)
    ensures
        final(out)@ == old(out)@ + inbox_text(*v),
{
    let items = match array_field(v, "entries") {
        Some(items) => items,
        None => {
            extend_str(out, "Inbox is empty.");
            push_line_end(out);
            return;
        },
    };
    if items.len() == 0 {
        extend_str(out, "Inbox is empty.");
        push_line_end(out);
        return;
    }
    let mut k: usize = 0;
    while k < items.len()
        invariant
            k <= items.len(),
            out@ == old(out)@ + inbox_entry_blocks(items@.take(k as int)),
        decreases items.len() - k,
    {
        render_inbox_entry(&items[k], out);
        assert(items@.take(k + 1).drop_last() =~= items@.take(k as int));
        k = k + 1;
    }
    assert(items@.take(items.len() as int) =~= items@);
}

/// One message of a thread, with its body only when the value carries one.
pub open spec fn thread_entry_lines(e: Json) -> Seq<char> {
    line(
        right_aligned(number_at(e, "arrival"@), 4) + "  "@ + optional_at(e, "kind"@, "?"@)
            + " from "@ + optional_at(e, "sender"@, "?"@),
    ) + when_text(e, "body"@, "      "@)
}

/// Every message of a thread.
pub open spec fn thread_entry_blocks(items: Seq<Json>) -> Seq<char>
    decreases items.len(),
{
    if items.len() == 0 {
        Seq::empty()
    } else {
        thread_entry_blocks(items.drop_last()) + thread_entry_lines(items.last())
    }
}

/// `hrc thread`.
pub open spec fn thread_text(v: Json) -> Seq<char> {
    if array_at(v, "entries"@).len() == 0 {
        line("No messages in that thread."@)
    } else {
        thread_entry_blocks(array_at(v, "entries"@))
    }
}

fn render_thread(v: &Json, out: &mut Vec<char>)
    ensures
        final(out)@ == old(out)@ + thread_text(*v),
{
    let items = match array_field(v, "entries") {
        Some(items) => items,
        None => {
            extend_str(out, "No messages in that thread.");
            push_line_end(out);
            return;
        },
    };
    if items.len() == 0 {
        extend_str(out, "No messages in that thread.");
        push_line_end(out);
        return;
    }
    let mut k: usize = 0;
    while k < items.len()
        invariant
            k <= items.len(),
            out@ == old(out)@ + thread_entry_blocks(items@.take(k as int)),
        decreases items.len() - k,
    {
        let e = &items[k];
        let ghost before = out@;
        push_right_aligned(out, number_field(e, "arrival"), 4);
        extend_str(out, "  ");
        extend_str(out, optional_field(e, "kind", "?"));
        extend_str(out, " from ");
        extend_str(out, optional_field(e, "sender", "?"));
        push_line_end(out);
        push_when_text(out, e, "body", "      ");
        assert(out@ =~= before + thread_entry_lines(*e));
        assert(items@.take(k + 1).drop_last() =~= items@.take(k as int));
        k = k + 1;
    }
    assert(items@.take(items.len() as int) =~= items@);
}

/// One device under a member in `hrc members`.
pub open spec fn member_device_line(d: Json) -> Seq<char> {
    line(
        "    "@ + (if flag_at(d, "active"@) {
            "active "@
        } else {
            "revoked"@
        }) + "  "@ + optional_at(d, "deviceId"@, "?"@),
    )
}

/// Every device of a member.
pub open spec fn member_device_lines(items: Seq<Json>) -> Seq<char>
    decreases items.len(),
{
    if items.len() == 0 {
        Seq::empty()
    } else {
        member_device_lines(items.drop_last()) + member_device_line(items.last())
    }
}

/// One member in `hrc members`: role and state are words.
pub open spec fn member_lines(m: Json) -> Seq<char> {
    line(
        (if flag_at(m, "active"@) {
            "active  "@
        } else {
            "removed "@
        }) + "  "@ + (if flag_at(m, "administrator"@) {
            "admin "@
        } else {
            "member"@
        }) + "  "@ + optional_at(m, "principalId"@, "?"@),
    ) + member_device_lines(array_at(m, "devices"@))
}

/// Every member.
pub open spec fn member_blocks(items: Seq<Json>) -> Seq<char>
    decreases items.len(),
{
    if items.len() == 0 {
        Seq::empty()
    } else {
        member_blocks(items.drop_last()) + member_lines(items.last())
    }
}

/// `hrc members`.
pub open spec fn members_text(v: Json) -> Seq<char> {
    line("Roster epoch "@ + decimal(number_at(v, "rosterEpoch"@) as int)) + member_blocks(
        array_at(v, "members"@),
    )
}

fn render_member(m: &Json, out: &mut Vec<char>)
    ensures
        final(out)@ == old(out)@ + member_lines(*m),
{
    extend_str(out, if flag_field(m, "active") { "active  " } else { "removed " });
    extend_str(out, "  ");
    extend_str(out, if flag_field(m, "administrator") { "admin " } else { "member" });
    extend_str(out, "  ");
    extend_str(out, optional_field(m, "principalId", "?"));
    push_line_end(out);
    let ghost head = out@;
    match array_field(m, "devices") {
        Some(items) => {
            let mut k: usize = 0;
            while k < items.len()
                invariant
                    k <= items.len(),
                    out@ == head + member_device_lines(items@.take(k as int)),
                decreases items.len() - k,
            {
                let d = &items[k];
                let ghost before = out@;
                extend_str(out, "    ");
                extend_str(out, if flag_field(d, "active") { "active " } else { "revoked" });
                extend_str(out, "  ");
                extend_str(out, optional_field(d, "deviceId", "?"));
                push_line_end(out);
                assert(out@ =~= before + member_device_line(*d));
                assert(items@.take(k + 1).drop_last() =~= items@.take(k as int));
                k = k + 1;
            }
            assert(items@.take(items.len() as int) =~= items@);
        },
        None => {
            assert(member_device_lines(Seq::<Json>::empty()) =~= Seq::<char>::empty());
        },
    }
    assert(out@ =~= old(out)@ + member_lines(*m));
}

fn render_members(v: &Json, out: &mut Vec<char>)
    ensures
        final(out)@ == old(out)@ + members_text(*v),
{
    extend_str(out, "Roster epoch ");
    push_decimal_u64(out, number_field(v, "rosterEpoch"));
    push_line_end(out);
    let ghost head = out@;
    match array_field(v, "members") {
        Some(items) => {
            let mut k: usize = 0;
            while k < items.len()
                invariant
                    k <= items.len(),
                    out@ == head + member_blocks(items@.take(k as int)),
                decreases items.len() - k,
            {
                render_member(&items[k], out);
                assert(items@.take(k + 1).drop_last() =~= items@.take(k as int));
                k = k + 1;
            }
            assert(items@.take(items.len() as int) =~= items@);
        },
        None => {},
    }
    assert(out@ =~= old(out)@ + members_text(*v));
}

/// One device in `hrc device list`.
pub open spec fn device_line(d: Json) -> Seq<char> {
    line(
        (if flag_at(d, "active"@) {
            "active "@
        } else {
            "revoked"@
        }) + "  "@ + optional_at(d, "deviceId"@, "?"@) + "  added in epoch "@ + decimal(
            number_at(d, "addedInEpoch"@) as int,
        ),
    )
}

/// Every device.
pub open spec fn device_lines(items: Seq<Json>) -> Seq<char>
    decreases items.len(),
{
    if items.len() == 0 {
        Seq::empty()
    } else {
        device_lines(items.drop_last()) + device_line(items.last())
    }
}

/// `hrc device list`.
pub open spec fn devices_text(v: Json) -> Seq<char> {
    if array_at(v, "devices"@).len() == 0 {
        line("No devices in this channel."@)
    } else {
        device_lines(array_at(v, "devices"@))
    }
}

fn render_devices(v: &Json, out: &mut Vec<char>)
    ensures
        final(out)@ == old(out)@ + devices_text(*v),
{
    let items = match array_field(v, "devices") {
        Some(items) => items,
        None => {
            extend_str(out, "No devices in this channel.");
            push_line_end(out);
            return;
        },
    };
    if items.len() == 0 {
        extend_str(out, "No devices in this channel.");
        push_line_end(out);
        return;
    }
    let mut k: usize = 0;
    while k < items.len()
        invariant
            k <= items.len(),
            out@ == old(out)@ + device_lines(items@.take(k as int)),
        decreases items.len() - k,
    {
        let d = &items[k];
        let ghost before = out@;
        extend_str(out, if flag_field(d, "active") { "active " } else { "revoked" });
        extend_str(out, "  ");
        extend_str(out, optional_field(d, "deviceId", "?"));
        extend_str(out, "  added in epoch ");
        push_decimal_u64(out, number_field(d, "addedInEpoch"));
        push_line_end(out);
        assert(out@ =~= before + device_line(*d));
        assert(items@.take(k + 1).drop_last() =~= items@.take(k as int));
        k = k + 1;
    }
    assert(items@.take(items.len() as int) =~= items@);
}

/// What a command prints for a person, by the command's path; `None` for a
/// command without a human form, whose value is printed as JSON.
pub open spec fn human_text(command: Seq<char>, v: Json) -> Option<Seq<char>> {
    if command == "init"@ {
        Some(init_text(v))
    } else if command == "whoami"@ {
        Some(whoami_text(v))
    } else if command == "channels"@ {
        Some(channels_text(v))
    } else if command == "status"@ {
        Some(status_text(v))
    } else if command == "doctor"@ {
        Some(doctor_text(v))
    } else if command == "sync"@ {
        Some(sync_text(v))
    } else if command == "daemon"@ {
        Some(daemon_text(v))
    } else if command == "audit"@ {
        Some(audit_text(v))
    } else if command == "invite create"@ || command == "invite list"@ || command
        == "invite revoke"@ {
        Some(invite_text(v))
    } else if command == "join"@ || command == "join pending"@ {
        Some(join_text(v))
    } else if command == "send"@ || command == "ask"@ || command == "reply"@ {
        Some(sent_text(v))
    } else if command == "inbox"@ {
        Some(inbox_text(v))
    } else if command == "members"@ {
        Some(members_text(v))
    } else if command == "device list"@ {
        Some(devices_text(v))
    } else if command == "thread"@ {
        Some(thread_text(v))
    } else if command == "herdr startup"@ {
        Some(herdr_startup_text(v))
    } else if command == "herdr manifest"@ {
        Some(herdr_manifest_text(v))
    } else if command == "herdr action"@ || command == "herdr pane"@ {
        Some(herdr_pane_text(v))
    } else {
        None
    }
}

/// What a successful command prints for a person: its human form, or
/// `None` when the value is to be printed as JSON.
pub fn render(command: &str, value: &Json) -> (r: Option<String>)
    ensures
        match human_text(command@, *value) {
            Some(t) => r matches Some(s) && s@ == t,
            None => r is None,
        },
{
    let c = chars_of(command);
    let mut out: Vec<char> = Vec::new();
    if equals_str(&c, "init") {
        render_init(value, &mut out);
    } else if equals_str(&c, "whoami") {
        render_whoami(value, &mut out);
    } else if equals_str(&c, "channels") {
        render_channels(value, &mut out);
    } else if equals_str(&c, "status") {
        render_status(value, &mut out);
    } else if equals_str(&c, "doctor") {
        render_doctor(value, &mut out);
    } else if equals_str(&c, "sync") {
        render_sync(value, &mut out);
    } else if equals_str(&c, "daemon") {
        render_daemon(value, &mut out);
    } else if equals_str(&c, "audit") {
        render_audit(value, &mut out);
    } else if equals_str(&c, "invite create") || equals_str(&c, "invite list") || equals_str(
        &c,
        "invite revoke",
    ) {
        render_invite(value, &mut out);
    } else if equals_str(&c, "join") || equals_str(&c, "join pending") {
        render_join(value, &mut out);
    } else if equals_str(&c, "send") || equals_str(&c, "ask") || equals_str(&c, "reply") {
        render_sent(value, &mut out);
    } else if equals_str(&c, "inbox") {
        render_inbox(value, &mut out);
    } else if equals_str(&c, "members") {
        render_members(value, &mut out);
    } else if equals_str(&c, "device list") {
        render_devices(value, &mut out);
    } else if equals_str(&c, "thread") {
        render_thread(value, &mut out);
    } else if equals_str(&c, "herdr startup") {
        extend_str(&mut out, text_field(value, "sidebar"));
        push_line_end(&mut out);
    } else if equals_str(&c, "herdr manifest") {
        extend_str(&mut out, text_field(value, "toml"));
    } else if equals_str(&c, "herdr action") || equals_str(&c, "herdr pane") {
        render_herdr_pane(value, &mut out);
    } else {
        return None;
    }
    assert(Seq::<char>::empty() + out@ =~= out@);
    Some(string_of(out.as_slice()))
}

} // verus!
