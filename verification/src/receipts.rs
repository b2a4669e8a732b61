//! Which delivery receipts are still owed, grouped by the device that sent
//! the messages.
//!
//! Every message that arrived and has not expired is owed one `delivered`
//! report, unless the audit log says one was already queued. Reports go to
//! the sending device, so the owed messages are grouped by sender principal
//! and sender device, the groups in key order and each group in arrival
//! order. Text is ordered character by character, which for UTF-8 is the
//! order of its bytes.
use vstd::prelude::*;

use crate::inbox::InboxEntry;
use crate::text::{
    chars_of, equals_str, lemma_str_before_asymmetric, lemma_str_before_irreflexive,
    lemma_str_before_transitive, str_before,
};

verus! {

broadcast use vstd::string::group_string_axioms;

/// Who a receipt goes to: the sender principal and the sending device.
pub type ReceiptKey = (Seq<char>, Seq<char>);

/// Whether key `a` sorts before key `b`: by principal, then by device.
pub open spec fn key_before(a: ReceiptKey, b: ReceiptKey) -> bool {
    str_before(a.0, b.0) || (a.0 == b.0 && str_before(a.1, b.1))
}

proof fn lemma_key_before_irreflexive(a: ReceiptKey)
    ensures
        !key_before(a, a),
{
    lemma_str_before_irreflexive(a.0);
    lemma_str_before_irreflexive(a.1);
}

proof fn lemma_key_before_transitive(a: ReceiptKey, b: ReceiptKey, c: ReceiptKey)
    requires
        key_before(a, b),
        key_before(b, c),
    ensures
        key_before(a, c),
{
    if str_before(a.0, b.0) && str_before(b.0, c.0) {
        lemma_str_before_transitive(a.0, b.0, c.0);
    } else if a.0 == b.0 && b.0 == c.0 {
        lemma_str_before_transitive(a.1, b.1, c.1);
    }
}

/// The delivery receipts owed to one sending device.
pub struct ReceiptObligation {
    /// The sender principal.
    pub sender: String,
    /// The sending device.
    pub sender_device: String,
    /// The messages to report as delivered, in arrival order.
    pub message_ids: Vec<String>,
}

/// Who an inbound message's receipt goes to.
pub open spec fn entry_key(e: InboxEntry) -> ReceiptKey {
    (e.sender_principal@, e.sender_device@)
}

/// Who an obligation is owed to.
pub open spec fn obligation_key(o: ReceiptObligation) -> ReceiptKey {
    (o.sender@, o.sender_device@)
}

/// The messages an obligation reports.
pub open spec fn obligation_ids(o: ReceiptObligation) -> Seq<Seq<char>> {
    o.message_ids@.map_values(|s: String| s@)
}

/// Whether a message is still owed a receipt: it did not expire, and no
/// receipt was queued for it.
pub open spec fn owes_receipt(e: InboxEntry, reported: Seq<Seq<char>>) -> bool {
    e.disposition@ != "expired"@ && !reported.contains(e.message_id@)
}

/// The messages owed a receipt that go to `key`, in arrival order.
pub open spec fn owed_to(entries: Seq<InboxEntry>, reported: Seq<Seq<char>>, key: ReceiptKey) -> Seq<
    Seq<char>,
>
    decreases entries.len(),
{
    if entries.len() == 0 {
        Seq::empty()
    } else {
        let rest = owed_to(entries.drop_last(), reported, key);
        let e = entries.last();
        if owes_receipt(e, reported) && entry_key(e) == key {
            rest.push(e.message_id@)
        } else {
            rest
        }
    }
}

/// Whether `groups` are the receipts owed for `entries`: one group per
/// sending device that is owed any, in key order, each holding exactly the
/// messages owed to that device in arrival order.
pub open spec fn groups_owed(
    groups: Seq<ReceiptObligation>,
    entries: Seq<InboxEntry>,
    reported: Seq<Seq<char>>,
) -> bool {
    &&& forall|i: int, j: int|
        0 <= i < j < groups.len() ==> key_before(
            obligation_key(#[trigger] groups[i]),
            obligation_key(#[trigger] groups[j]),
        )
    &&& forall|i: int|
        0 <= i < groups.len() ==> obligation_ids(#[trigger] groups[i]) == owed_to(
            entries,
            reported,
            obligation_key(groups[i]),
        ) && obligation_ids(groups[i]).len() > 0
    &&& forall|key: ReceiptKey|
        (forall|i: int| 0 <= i < groups.len() ==> obligation_key(#[trigger] groups[i]) != key)
            ==> #[trigger] owed_to(entries, reported, key).len() == 0
}

proof fn lemma_owed_to_push(
    entries: Seq<InboxEntry>,
    e: InboxEntry,
    reported: Seq<Seq<char>>,
    key: ReceiptKey,
)
    ensures
        owed_to(entries.push(e), reported, key) == if owes_receipt(e, reported) && entry_key(e)
            == key {
            owed_to(entries, reported, key).push(e.message_id@)
        } else {
            owed_to(entries, reported, key)
        },
{
    assert(entries.push(e).drop_last() =~= entries);
    assert(entries.push(e).last() == e);
}

/// How two strings' characters sort.
pub enum Place {
    /// The first sorts before the second.
    Before,
    /// They are the same.
    Same,
    /// The first sorts after the second.
    After,
}

proof fn lemma_str_before_skip(a: Seq<char>, b: Seq<char>, i: int)
    requires
        0 <= i <= a.len(),
        i <= b.len(),
        a.take(i) == b.take(i),
    ensures
        str_before(a, b) == str_before(a.skip(i), b.skip(i)),
    decreases i,
{
    if i > 0 {
        assert(a[0] == a.take(i)[0]);
        assert(b[0] == b.take(i)[0]);
        assert(a.drop_first().take(i - 1) =~= a.take(i).drop_first());
        assert(b.drop_first().take(i - 1) =~= b.take(i).drop_first());
        lemma_str_before_skip(a.drop_first(), b.drop_first(), i - 1);
        assert(a.drop_first().skip(i - 1) =~= a.skip(i));
        assert(b.drop_first().skip(i - 1) =~= b.skip(i));
    } else {
        assert(a.skip(0) =~= a);
        assert(b.skip(0) =~= b);
    }
}

/// How `a` sorts against `b`.
pub fn place_of(a: &Vec<char>, b: &Vec<char>) -> (r: Place)
    ensures
        r is Before <==> str_before(a@, b@),
        r is Same <==> a@ == b@,
        r is After <==> str_before(b@, a@),
{
    let mut i: usize = 0;
    while i < a.len() && i < b.len() && a[i] == b[i]
        invariant
            i <= a.len(),
            i <= b.len(),
            a@.take(i as int) == b@.take(i as int),
        decreases a.len() - i,
    {
        assert(a@.take(i + 1) =~= a@.take(i as int).push(a@[i as int]));
        assert(b@.take(i + 1) =~= b@.take(i as int).push(b@[i as int]));
        i = i + 1;
    }
    proof {
        lemma_str_before_skip(a@, b@, i as int);
        lemma_str_before_skip(b@, a@, i as int);
        lemma_str_before_irreflexive(a@);
        if str_before(a@, b@) {
            lemma_str_before_asymmetric(a@, b@);
        }
    }
    if i == a.len() && i == b.len() {
        assert(a@ =~= a@.take(i as int));
        assert(b@ =~= b@.take(i as int));
        Place::Same
    } else if i == a.len() {
        assert(a@.skip(i as int).len() == 0);
        assert(a@ != b@);
        Place::Before
    } else if i == b.len() {
        assert(b@.skip(i as int).len() == 0);
        assert(a@ != b@);
        Place::After
    } else {
        assert(a@.skip(i as int)[0] == a@[i as int]);
        assert(b@.skip(i as int)[0] == b@[i as int]);
        assert(a@ != b@) by {
            if a@ == b@ {
                assert(a@[i as int] == b@[i as int]);
            }
        }
        if a[i] < b[i] {
            Place::Before
        } else {
            Place::After
        }
    }
}

/// How key `(a0, a1)` sorts against key `(b0, b1)`.
fn key_place(a0: &Vec<char>, a1: &Vec<char>, b0: &Vec<char>, b1: &Vec<char>) -> (r: Place)
    ensures
        r is Before <==> key_before((a0@, a1@), (b0@, b1@)),
        r is Same <==> (a0@, a1@) == (b0@, b1@),
        r is After <==> key_before((b0@, b1@), (a0@, a1@)),
{
    proof {
        lemma_str_before_irreflexive(a0@);
        lemma_str_before_irreflexive(a1@);
    }
    match place_of(a0, b0) {
        Place::Before => {
            proof {
                lemma_str_before_asymmetric(a0@, b0@);
            }
            Place::Before
        },
        Place::After => {
            proof {
                lemma_str_before_asymmetric(b0@, a0@);
            }
            Place::After
        },
        Place::Same => place_of(a1, b1),
    }
}

/// Whether `id` is among the reported messages.
fn was_reported(reported: &Vec<String>, id: &str) -> (r: bool)
    ensures
        r == reported@.map_values(|s: String| s@).contains(id@),
{
    let c = chars_of(id);
    let ghost rv = reported@.map_values(|s: String| s@);
    let mut k: usize = 0;
    while k < reported.len()
        invariant
            k <= reported.len(),
            c@ == id@,
            rv == reported@.map_values(|s: String| s@),
            forall|j: int| 0 <= j < k ==> rv[j] != id@,
        decreases reported.len() - k,
    {
        if equals_str(&c, reported[k].as_str()) {
            assert(rv[k as int] == id@);
            return true;
        }
        k = k + 1;
    }
    false
}

/// The delivery receipts still owed, one group per sending device in key
/// order, each listing its messages in arrival order. Expired messages and
/// messages a receipt was already queued for owe nothing.
pub fn delivery_receipt_obligations(entries: Vec<InboxEntry>, reported: &Vec<String>) -> (r: Vec<
    ReceiptObligation,
>)
    ensures
        groups_owed(r@, entries@, reported@.map_values(|s: String| s@)),
{
    let ghost rv = reported@.map_values(|s: String| s@);
    let mut out: Vec<ReceiptObligation> = Vec::new();
    let mut k: usize = 0;
    assert(entries@.take(0) =~= Seq::<InboxEntry>::empty());
    while k < entries.len()
        invariant
            k <= entries.len(),
            rv == reported@.map_values(|s: String| s@),
            groups_owed(out@, entries@.take(k as int), rv),
        decreases entries.len() - k,
    {
        let e = &entries[k];
        let ghost prefix = entries@.take(k as int);
        assert(entries@.take(k + 1) =~= prefix.push(*e));
        let d = chars_of(e.disposition.as_str());
        let owes = !equals_str(&d, "expired") && !was_reported(reported, e.message_id.as_str());
        assert(owes == owes_receipt(*e, rv));
        if !owes {
            assert forall|key: ReceiptKey| #[trigger]
                owed_to(prefix.push(*e), rv, key) == owed_to(prefix, rv, key) by {
                lemma_owed_to_push(prefix, *e, rv, key);
            }
            assert(groups_owed(out@, prefix.push(*e), rv));
        } else {
            let ghost ke = entry_key(*e);
            let p0 = chars_of(e.sender_principal.as_str());
            let p1 = chars_of(e.sender_device.as_str());
            let mut p: usize = 0;
            let mut found = false;
            while p < out.len()
                invariant_except_break
                    !found,
                invariant
                    p <= out.len(),
                    (p0@, p1@) == ke,
                    forall|j: int| 0 <= j < p ==> key_before(obligation_key(#[trigger] out@[j]), ke),
                ensures
                    p <= out.len(),
                    forall|j: int| 0 <= j < p ==> key_before(obligation_key(#[trigger] out@[j]), ke),
                    found ==> p < out.len() && obligation_key(out@[p as int]) == ke,
                    !found ==> (p == out.len() || key_before(ke, obligation_key(out@[p as int]))),
                decreases out.len() - p,
            {
                let g0 = chars_of(out[p].sender.as_str());
                let g1 = chars_of(out[p].sender_device.as_str());
                match key_place(&g0, &g1, &p0, &p1) {
                    Place::Before => {
                        p = p + 1;
                    },
                    Place::Same => {
                        found = true;
                        break;
                    },
                    Place::After => {
                        break;
                    },
                }
            }
            // found: out[p] has key ke; otherwise every key from p on sorts after ke
            let ghost old_out = out@;
            proof {
                if !found && p < out.len() {
                    assert(key_before(ke, obligation_key(old_out[p as int])));
                }
                assert forall|j: int| p < j < old_out.len() implies key_before(
                    ke,
                    obligation_key(#[trigger] old_out[j]),
                ) by {
                    assert(key_before(obligation_key(old_out[p as int]), obligation_key(old_out[j])));
                    if found {
                    } else {
                        lemma_key_before_transitive(
                            ke,
                            obligation_key(old_out[p as int]),
                            obligation_key(old_out[j]),
                        );
                    }
                }
                assert forall|key: ReceiptKey| #[trigger]
                    owed_to(prefix.push(*e), rv, key) == if key == ke {
                        owed_to(prefix, rv, key).push(e.message_id@)
                    } else {
                        owed_to(prefix, rv, key)
                    } by {
                    lemma_owed_to_push(prefix, *e, rv, key);
                }
            }
            if found {
                let mut g = out.remove(p);
                g.message_ids.push(e.message_id.clone());
                out.insert(p, g);
                proof {
                    assert(out@ =~= old_out.update(p as int, g));
                    assert(obligation_ids(g) =~= obligation_ids(old_out[p as int]).push(
                        e.message_id@,
                    ));
                    assert forall|i: int| 0 <= i < old_out.len() && i != p implies obligation_key(
                        #[trigger] old_out[i],
                    ) != ke by {
                        if i < p {
                            lemma_key_before_irreflexive(ke);
                        } else {
                            lemma_key_before_irreflexive(ke);
                        }
                    }
                    assert forall|i: int, j: int| 0 <= i < j < out@.len() implies key_before(
                        obligation_key(#[trigger] out@[i]),
                        obligation_key(#[trigger] out@[j]),
                    ) by {
                        assert(key_before(obligation_key(old_out[i]), obligation_key(old_out[j])));
                    }
                    assert forall|i: int| 0 <= i < out@.len() implies obligation_ids(
                        #[trigger] out@[i],
                    ) == owed_to(prefix.push(*e), rv, obligation_key(out@[i])) && obligation_ids(
                        out@[i],
                    ).len() > 0 by {
                        if i != p {
                            assert(out@[i] == old_out[i]);
                        }
                    }
                    assert forall|key: ReceiptKey|
                        (forall|i: int|
                            0 <= i < out@.len() ==> obligation_key(#[trigger] out@[i]) != key)
                            implies #[trigger] owed_to(prefix.push(*e), rv, key).len() == 0 by {
                        assert(obligation_key(out@[p as int]) != key);
                        assert forall|i: int| 0 <= i < old_out.len() implies obligation_key(
                            #[trigger] old_out[i],
                        ) != key by {
                            if i != p {
                                assert(out@[i] == old_out[i]);
                            }
                        }
                    }
                }
            } else {
                let mut ids: Vec<String> = Vec::new();
                ids.push(e.message_id.clone());
                let g = ReceiptObligation {
                    sender: e.sender_principal.clone(),
                    sender_device: e.sender_device.clone(),
                    message_ids: ids,
                };
                out.insert(p, g);
                proof {
                    assert(obligation_key(g) == ke);
                    assert forall|i: int| 0 <= i < old_out.len() implies obligation_key(
                        #[trigger] old_out[i],
                    ) != ke by {
                        if i < p {
                            lemma_key_before_irreflexive(ke);
                        } else {
                            lemma_key_before_irreflexive(ke);
                            if i > p {
                            } else {
                                assert(key_before(ke, obligation_key(old_out[p as int])));
                            }
                        }
                    }
                    assert(owed_to(prefix, rv, ke).len() == 0);
                    assert(obligation_ids(g) =~= owed_to(prefix, rv, ke).push(e.message_id@));
                    assert forall|i: int| 0 <= i < out@.len() implies #[trigger] out@[i] == if i < p {
                        old_out[i]
                    } else if i == p {
                        g
                    } else {
                        old_out[i - 1]
                    } by {}
                    assert forall|i: int, j: int| 0 <= i < j < out@.len() implies key_before(
                        obligation_key(#[trigger] out@[i]),
                        obligation_key(#[trigger] out@[j]),
                    ) by {
                        if j < p {
                            assert(key_before(obligation_key(old_out[i]), obligation_key(old_out[j])));
                        } else if j == p {
                        } else if i < p {
                            lemma_key_before_transitive(
                                obligation_key(old_out[i]),
                                ke,
                                obligation_key(old_out[j - 1]),
                            );
                        } else if i == p {
                        } else {
                            assert(key_before(
                                obligation_key(old_out[i - 1]),
                                obligation_key(old_out[j - 1]),
                            ));
                        }
                    }
                    assert forall|i: int| 0 <= i < out@.len() implies obligation_ids(
                        #[trigger] out@[i],
                    ) == owed_to(prefix.push(*e), rv, obligation_key(out@[i])) && obligation_ids(
                        out@[i],
                    ).len() > 0 by {
                        if i < p {
                            assert(out@[i] == old_out[i]);
                        } else if i > p {
                            assert(out@[i] == old_out[i - 1]);
                        }
                    }
                    assert forall|key: ReceiptKey|
                        (forall|i: int|
                            0 <= i < out@.len() ==> obligation_key(#[trigger] out@[i]) != key)
                            implies #[trigger] owed_to(prefix.push(*e), rv, key).len() == 0 by {
                        assert(obligation_key(out@[p as int]) != key);
                        assert forall|i: int| 0 <= i < old_out.len() implies obligation_key(
                            #[trigger] old_out[i],
                        ) != key by {
                            if i < p {
                                assert(out@[i] == old_out[i]);
                            } else {
                                assert(out@[i + 1] == old_out[i]);
                            }
                        }
                    }
                }
            }
        }
        k = k + 1;
    }
    assert(entries@.take(entries.len() as int) =~= entries@);
    out
}

/// Batches laid end to end.
pub open spec fn flatten_batches(batches: Seq<Seq<Seq<char>>>) -> Seq<Seq<char>>
    decreases batches.len(),
{
    if batches.len() == 0 {
        Seq::empty()
    } else {
        flatten_batches(batches.drop_last()) + batches.last()
    }
}

/// The messages of each batch.
pub open spec fn batch_views(batches: Seq<Vec<String>>) -> Seq<Seq<Seq<char>>> {
    batches.map_values(|b: Vec<String>| b@.map_values(|s: String| s@))
}

/// Splits messages into receipts of at most `size` each, in order
/// (`slice::chunks`): every batch but the last holds exactly `size`, and
/// the batches laid end to end are the messages again.
pub fn receipt_batches(ids: &Vec<String>, size: usize) -> (r: Vec<Vec<String>>)
    requires
        size > 0,
    ensures
        flatten_batches(batch_views(r@)) == ids@.map_values(|s: String| s@),
        forall|i: int| 0 <= i < r.len() ==> (#[trigger] r@[i]).len() > 0 && r@[i].len() <= size,
        forall|i: int| 0 <= i < r.len() - 1 ==> (#[trigger] r@[i]).len() == size,
{
    let ghost iv = ids@.map_values(|s: String| s@);
    let mut out: Vec<Vec<String>> = Vec::new();
    let mut k: usize = 0;
    assert(iv.take(0) =~= Seq::<Seq<char>>::empty());
    while k < ids.len()
        invariant
            k <= ids.len(),
            size > 0,
            iv == ids@.map_values(|s: String| s@),
            flatten_batches(batch_views(out@)) == iv.take(k as int),
            forall|i: int| 0 <= i < out.len() ==> (#[trigger] out@[i]).len() > 0 && out@[i].len() <= size,
            forall|i: int|
                0 <= i < out.len() && (i < out.len() - 1 || k < ids.len()) ==> (#[trigger] out@[i]).len()
                    == size,
        decreases ids.len() - k,
    {
        let end: usize = if ids.len() - k > size { k + size } else { ids.len() };
        let mut batch: Vec<String> = Vec::new();
        let mut j: usize = k;
        while j < end
            invariant
                k <= j <= end <= ids.len(),
                batch@.map_values(|s: String| s@) == iv.subrange(k as int, j as int),
                iv == ids@.map_values(|s: String| s@),
                batch.len() == j - k,
            decreases end - j,
        {
            let ghost before = batch@.map_values(|s: String| s@);
            batch.push(ids[j].clone());
            assert(batch@.map_values(|s: String| s@) =~= before.push(ids@[j as int]@));
            j = j + 1;
            assert(iv.subrange(k as int, j as int) =~= iv.subrange(k as int, j - 1).push(iv[j - 1]));
        }
        let ghost before = batch_views(out@);
        out.push(batch);
        assert(batch_views(out@) =~= before.push(iv.subrange(k as int, end as int)));
        assert(batch_views(out@).drop_last() =~= before);
        assert(iv.take(end as int) =~= iv.take(k as int) + iv.subrange(k as int, end as int));
        k = end;
    }
    out
}

/// The receipts a device is sent report every owed message once and in
/// order, whatever the batch size.
pub proof fn law_batches_lose_nothing(batches: Seq<Seq<Seq<char>>>, ids: Seq<Seq<char>>)
    requires
        flatten_batches(batches) == ids,
    ensures
        forall|i: int| 0 <= i < ids.len() ==> flatten_batches(batches).contains(#[trigger] ids[i]),
        flatten_batches(batches).len() == ids.len(),
{
    assert forall|i: int| 0 <= i < ids.len() implies flatten_batches(batches).contains(
        #[trigger] ids[i],
    ) by {
        assert(flatten_batches(batches)[i] == ids[i]);
    }
}

} // verus!
