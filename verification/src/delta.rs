//! Merging an incremental change-set into an ordered list of messages.
//!
//! Every incoming message either replaces the message with the same id or is
//! added as a new one. The list is then ordered by creation time, oldest
//! first; messages with equal times keep their order. An empty change-set
//! changes nothing.
use vstd::prelude::*;
use vstd::string::*;
use crate::models::Message;
use crate::text::{chars_of, str_eq};

verus! {

/// Whether a text comes before another, or equals it, in the order of their
/// characters.
pub open spec fn text_le(a: Seq<char>, b: Seq<char>) -> bool
    decreases a.len(),
{
    if a.len() == 0 {
        true
    } else if b.len() == 0 {
        false
    } else if a[0] != b[0] {
        (a[0] as int) < (b[0] as int)
    } else {
        text_le(a.skip(1), b.skip(1))
    }
}

/// Whether a creation time is no later than another. A message without a time
/// counts as older than any message with one; times are compared as texts,
/// which orders timestamps of one format and zone by time.
pub open spec fn time_le(a: Option<String>, b: Option<String>) -> bool {
    match (a, b) {
        (None, _) => true,
        (Some(_), None) => false,
        (Some(x), Some(y)) => text_le(x@, y@),
    }
}

/// Of two texts, one comes before the other or equals it.
pub proof fn lemma_text_le_total(a: Seq<char>, b: Seq<char>)
    ensures
        text_le(a, b) || text_le(b, a),
    decreases a.len(),
{
    if a.len() > 0 && b.len() > 0 && a[0] == b[0] {
        lemma_text_le_total(a.skip(1), b.skip(1));
    }
}

/// The order of texts is transitive.
pub proof fn lemma_text_le_trans(a: Seq<char>, b: Seq<char>, c: Seq<char>)
    requires
        text_le(a, b),
        text_le(b, c),
    ensures
        text_le(a, c),
    decreases a.len(),
{
    if a.len() > 0 && b.len() > 0 && c.len() > 0 && a[0] == b[0] && b[0] == c[0] {
        lemma_text_le_trans(a.skip(1), b.skip(1), c.skip(1));
    }
}

/// Of two creation times, one is no later than the other.
pub proof fn lemma_time_le_total(a: Option<String>, b: Option<String>)
    ensures
        time_le(a, b) || time_le(b, a),
{
    if a is Some && b is Some {
        lemma_text_le_total(a->0@, b->0@);
    }
}

/// The order of creation times is transitive.
pub proof fn lemma_time_le_trans(a: Option<String>, b: Option<String>, c: Option<String>)
    requires
        time_le(a, b),
        time_le(b, c),
    ensures
        time_le(a, c),
{
    if a is Some && b is Some && c is Some {
        lemma_text_le_trans(a->0@, b->0@, c->0@);
    }
}

/// The position of the first message with the given id.
pub open spec fn position_of(msgs: Seq<Message>, id: Seq<char>) -> Option<int>
    decreases msgs.len(),
{
    if msgs.len() == 0 {
        None
    } else {
        match position_of(msgs.drop_last(), id) {
            Some(j) => Some(j),
            None => if msgs.last().id@ == id {
                Some(msgs.len() - 1)
            } else {
                None
            },
        }
    }
}

/// The list after one incoming message: it replaces the first message with
/// its id, or is added at the end when no message has its id.
pub open spec fn absorb(existing: Seq<Message>, m: Message) -> Seq<Message> {
    match position_of(existing, m.id@) {
        Some(j) => existing.update(j, m),
        None => existing.push(m),
    }
}

/// The list after all incoming messages, taken in order.
pub open spec fn absorb_all(existing: Seq<Message>, incoming: Seq<Message>) -> Seq<Message>
    decreases incoming.len(),
{
    if incoming.len() == 0 {
        existing
    } else {
        absorb(absorb_all(existing, incoming.drop_last()), incoming.last())
    }
}

/// An ordered list with one more message, placed behind every message that is
/// no later than it.
pub open spec fn insert_sorted(sorted: Seq<Message>, m: Message) -> Seq<Message>
    decreases sorted.len(),
{
    if sorted.len() == 0 {
        seq![m]
    } else if time_le(sorted.last().created_date_time, m.created_date_time) {
        sorted.push(m)
    } else {
        insert_sorted(sorted.drop_last(), m).push(sorted.last())
    }
}

/// The messages ordered by creation time, oldest first; messages with equal
/// times keep their order.
pub open spec fn sort_by_time(s: Seq<Message>) -> Seq<Message>
    decreases s.len(),
{
    if s.len() == 0 {
        Seq::<Message>::empty()
    } else {
        insert_sorted(sort_by_time(s.drop_last()), s.last())
    }
}

/// Whether no message stands before an older one.
pub open spec fn is_sorted(s: Seq<Message>) -> bool {
    forall|i: int, j: int|
        0 <= i < j < s.len() ==> time_le(
            (#[trigger] s[i]).created_date_time,
            (#[trigger] s[j]).created_date_time,
        )
}

/// The merged list: the existing one when nothing comes in, else the list
/// after all incoming messages, ordered by creation time.
pub open spec fn merged(existing: Seq<Message>, incoming: Seq<Message>) -> Seq<Message> {
    if incoming.len() == 0 {
        existing
    } else {
        sort_by_time(absorb_all(existing, incoming))
    }
}

/// Whether an incoming message was added rather than replacing one.
pub open spec fn has_new(existing: Seq<Message>, incoming: Seq<Message>) -> bool {
    absorb_all(existing, incoming).len() > existing.len()
}

/// A position found in a prefix is the position in the whole list.
proof fn lemma_position_stable(msgs: Seq<Message>, id: Seq<char>, k: int, j: int)
    requires
        0 <= k <= msgs.len(),
        position_of(msgs.take(k), id) == Some(j),
    ensures
        position_of(msgs, id) == Some(j),
    decreases msgs.len() - k,
{
    if k == msgs.len() {
        assert(msgs.take(k) =~= msgs);
    } else {
        assert(msgs.take(k + 1).drop_last() =~= msgs.take(k));
        lemma_position_stable(msgs, id, k + 1, j);
    }
}

/// A position, where there is one, points into the list at a message with the
/// id; where there is none, no message has the id.
pub proof fn lemma_position_of(msgs: Seq<Message>, id: Seq<char>)
    ensures
        match position_of(msgs, id) {
            Some(j) => 0 <= j < msgs.len() && msgs[j].id@ == id,
            None => forall|i: int| 0 <= i < msgs.len() ==> (#[trigger] msgs[i]).id@ != id,
        },
    decreases msgs.len(),
{
    if msgs.len() > 0 {
        lemma_position_of(msgs.drop_last(), id);
        if position_of(msgs.drop_last(), id) is None {
            assert forall|i: int| 0 <= i < msgs.len() - 1 implies (#[trigger] msgs[i]).id@ != id by {
                assert(msgs.drop_last()[i] == msgs[i]);
            }
        }
    }
}

/// Taking in messages never makes the list shorter.
pub proof fn lemma_absorb_all_len(existing: Seq<Message>, incoming: Seq<Message>)
    ensures
        existing.len() <= absorb_all(existing, incoming).len() <= existing.len() + incoming.len(),
    decreases incoming.len(),
{
    if incoming.len() > 0 {
        lemma_absorb_all_len(existing, incoming.drop_last());
        lemma_position_of(absorb_all(existing, incoming.drop_last()), incoming.last().id@);
    }
}

/// Where `insert_sorted` puts a message: behind the last message that is no
/// later than it.
proof fn lemma_insert_position(s: Seq<Message>, m: Message, i: int)
    requires
        0 <= i <= s.len(),
        forall|j: int|
            i <= j < s.len() ==> !time_le((#[trigger] s[j]).created_date_time, m.created_date_time),
        i == 0 || time_le(s[i - 1].created_date_time, m.created_date_time),
    ensures
        insert_sorted(s, m) == s.insert(i, m),
    decreases s.len() - i,
{
    if s.len() == 0 {
        assert(s.insert(0, m) =~= seq![m]);
    } else if i == s.len() {
        assert(s.insert(i, m) =~= s.push(m));
    } else {
        let init = s.drop_last();
        assert(!time_le(s[s.len() - 1].created_date_time, m.created_date_time));
        assert forall|j: int| i <= j < init.len() implies !time_le(
            (#[trigger] init[j]).created_date_time,
            m.created_date_time,
        ) by {
            assert(init[j] == s[j]);
        }
        lemma_insert_position(init, m, i);
        assert(init.insert(i, m).push(s.last()) =~= s.insert(i, m));
    }
}

/// `insert_sorted` adds the message at some position and moves nothing else.
pub proof fn lemma_insert_sorted_is_insert(s: Seq<Message>, m: Message) -> (i: int)
    ensures
        0 <= i <= s.len(),
        insert_sorted(s, m) == s.insert(i, m),
        forall|j: int|
            i <= j < s.len() ==> !time_le((#[trigger] s[j]).created_date_time, m.created_date_time),
        i == 0 || time_le(s[i - 1].created_date_time, m.created_date_time),
    decreases s.len(),
{
    if s.len() == 0 {
        assert(s.insert(0, m) =~= seq![m]);
        0
    } else if time_le(s.last().created_date_time, m.created_date_time) {
        assert(s.insert(s.len() as int, m) =~= s.push(m));
        s.len() as int
    } else {
        let init = s.drop_last();
        let i = lemma_insert_sorted_is_insert(init, m);
        assert(init.insert(i, m).push(s.last()) =~= s.insert(i, m));
        assert forall|j: int| i <= j < s.len() implies !time_le(
            (#[trigger] s[j]).created_date_time,
            m.created_date_time,
        ) by {
            if j < init.len() {
                assert(init[j] == s[j]);
            }
        }
        if i > 0 {
            assert(init[i - 1] == s[i - 1]);
        }
        i
    }
}

/// Adding a message to an ordered list leaves it ordered.
pub proof fn lemma_insert_sorted_sorted(s: Seq<Message>, m: Message)
    requires
        is_sorted(s),
    ensures
        is_sorted(insert_sorted(s, m)),
        insert_sorted(s, m).len() == s.len() + 1,
{
    let i = lemma_insert_sorted_is_insert(s, m);
    let r = s.insert(i, m);
    assert forall|a: int, b: int| 0 <= a < b < r.len() implies time_le(
        (#[trigger] r[a]).created_date_time,
        (#[trigger] r[b]).created_date_time,
    ) by {
        if b < i {
            assert(r[a] == s[a] && r[b] == s[b]);
        } else if b == i {
            assert(r[a] == s[a]);
            if a < i - 1 {
                assert(time_le(s[a].created_date_time, s[i - 1].created_date_time));
                lemma_time_le_trans(
                    s[a].created_date_time,
                    s[i - 1].created_date_time,
                    m.created_date_time,
                );
            }
        } else if a == i {
            assert(r[b] == s[b - 1]);
            lemma_time_le_total(s[b - 1].created_date_time, m.created_date_time);
        } else if a < i {
            assert(r[a] == s[a] && r[b] == s[b - 1]);
        } else {
            assert(r[a] == s[a - 1] && r[b] == s[b - 1]);
        }
    }
}

/// Ordering yields an ordered list of the same length.
pub proof fn lemma_sort_sorted(s: Seq<Message>)
    ensures
        is_sorted(sort_by_time(s)),
        sort_by_time(s).len() == s.len(),
    decreases s.len(),
{
    if s.len() > 0 {
        lemma_sort_sorted(s.drop_last());
        lemma_insert_sorted_sorted(sort_by_time(s.drop_last()), s.last());
    }
}

/// Ordering keeps every message, as often as it occurs.
pub proof fn lemma_sort_permutes(s: Seq<Message>)
    ensures
        sort_by_time(s).to_multiset() == s.to_multiset(),
    decreases s.len(),
{
    if s.len() > 0 {
        let init = s.drop_last();
        lemma_sort_permutes(init);
        let i = lemma_insert_sorted_is_insert(sort_by_time(init), s.last());
        vstd::seq_lib::to_multiset_insert(sort_by_time(init), i, s.last());
        vstd::seq_lib::to_multiset_build(init, s.last());
        assert(init.push(s.last()) =~= s);
    } else {
        assert(sort_by_time(s) =~= s);
    }
}

/// Merging an empty change-set gives back the list and reports nothing new.
pub proof fn lemma_merge_empty(existing: Seq<Message>)
    ensures
        merged(existing, Seq::<Message>::empty()) == existing,
        !has_new(existing, Seq::<Message>::empty()),
{
}

/// Merging one message whose id is present replaces the content of that
/// message, keeps the length of the list and reports nothing new.
pub proof fn lemma_merge_update(existing: Seq<Message>, m: Message)
    requires
        position_of(existing, m.id@) is Some,
    ensures
        absorb_all(existing, seq![m]) == existing.update(position_of(existing, m.id@)->0, m),
        merged(existing, seq![m]).len() == existing.len(),
        merged(existing, seq![m]).to_multiset().contains(m),
        !has_new(existing, seq![m]),
{
    let one = seq![m];
    assert(one.drop_last() =~= Seq::<Message>::empty());
    assert(absorb_all(existing, one.drop_last()) == existing);
    lemma_position_of(existing, m.id@);
    let j = position_of(existing, m.id@)->0;
    let after = existing.update(j, m);
    lemma_sort_sorted(after);
    lemma_sort_permutes(after);
    assert(after[j] == m);
    vstd::seq_lib::to_multiset_contains(after, m);
}

/// Merging one message whose id is new makes the list one longer and reports
/// a new message.
pub proof fn lemma_merge_new(existing: Seq<Message>, m: Message)
    requires
        position_of(existing, m.id@) is None,
    ensures
        absorb_all(existing, seq![m]) == existing.push(m),
        merged(existing, seq![m]).len() == existing.len() + 1,
        merged(existing, seq![m]).to_multiset() == existing.to_multiset().insert(m),
        has_new(existing, seq![m]),
{
    let one = seq![m];
    assert(one.drop_last() =~= Seq::<Message>::empty());
    assert(absorb_all(existing, one.drop_last()) == existing);
    lemma_sort_sorted(existing.push(m));
    lemma_sort_permutes(existing.push(m));
    vstd::seq_lib::to_multiset_build(existing, m);
}

/// Whatever comes in, in whatever order, the merged list of a non-empty
/// change-set is ordered by creation time.
pub proof fn lemma_merge_sorted(existing: Seq<Message>, incoming: Seq<Message>)
    requires
        incoming.len() > 0,
    ensures
        is_sorted(merged(existing, incoming)),
        merged(existing, incoming).len() == absorb_all(existing, incoming).len(),
{
    lemma_sort_sorted(absorb_all(existing, incoming));
}

/// The code of a character.
fn code_of(c: char) -> (r: u32)
    ensures
        r == c as int,
{
    c as u32
}

/// Whether a list holds a message with the given id.
pub open spec fn has_id(msgs: Seq<Message>, id: Seq<char>) -> bool {
    position_of(msgs, id) is Some
}

/// A list holds an id exactly when one of its messages has it.
pub proof fn lemma_has_id(msgs: Seq<Message>, id: Seq<char>)
    ensures
        has_id(msgs, id) <==> exists|i: int| 0 <= i < msgs.len() && (#[trigger] msgs[i]).id@ == id,
{
    lemma_position_of(msgs, id);
}

/// After one incoming message the list holds the ids it held, and the id of
/// that message.
pub proof fn lemma_absorb_ids(existing: Seq<Message>, m: Message, id: Seq<char>)
    ensures
        has_id(absorb(existing, m), id) <==> has_id(existing, id) || m.id@ == id,
{
    let after = absorb(existing, m);
    lemma_has_id(existing, id);
    lemma_has_id(after, id);
    lemma_position_of(existing, m.id@);
    match position_of(existing, m.id@) {
        Some(j) => {
            if has_id(after, id) {
                let i = choose|i: int| 0 <= i < after.len() && (#[trigger] after[i]).id@ == id;
                if i != j {
                    assert(existing[i].id@ == id);
                }
            }
            if has_id(existing, id) {
                let i = choose|i: int| 0 <= i < existing.len() && (#[trigger] existing[i]).id@ == id;
                if i != j {
                    assert(after[i].id@ == id);
                } else {
                    assert(after[j].id@ == id);
                }
            }
            if m.id@ == id {
                assert(after[j].id@ == id);
            }
        },
        None => {
            if has_id(after, id) {
                let i = choose|i: int| 0 <= i < after.len() && (#[trigger] after[i]).id@ == id;
                if i < existing.len() {
                    assert(existing[i].id@ == id);
                }
            }
            if has_id(existing, id) {
                let i = choose|i: int| 0 <= i < existing.len() && (#[trigger] existing[i]).id@ == id;
                assert(after[i].id@ == id);
            }
            if m.id@ == id {
                assert(after[existing.len() as int].id@ == id);
            }
        },
    }
}

/// After all incoming messages the list holds the ids it held, and the ids of
/// those messages.
pub proof fn lemma_absorb_all_ids(existing: Seq<Message>, incoming: Seq<Message>, id: Seq<char>)
    ensures
        has_id(absorb_all(existing, incoming), id) <==> has_id(existing, id) || exists|i: int|
            0 <= i < incoming.len() && (#[trigger] incoming[i]).id@ == id,
    decreases incoming.len(),
{
    if incoming.len() > 0 {
        let init = incoming.drop_last();
        let m = incoming.last();
        lemma_absorb_all_ids(existing, init, id);
        lemma_absorb_ids(absorb_all(existing, init), m, id);
        if exists|i: int| 0 <= i < init.len() && (#[trigger] init[i]).id@ == id {
            let i = choose|i: int| 0 <= i < init.len() && (#[trigger] init[i]).id@ == id;
            assert(incoming[i].id@ == id);
        }
        if exists|i: int| 0 <= i < incoming.len() && (#[trigger] incoming[i]).id@ == id {
            let i = choose|i: int| 0 <= i < incoming.len() && (#[trigger] incoming[i]).id@ == id;
            if i < init.len() {
                assert(init[i].id@ == id);
            }
        }
    }
}

/// A merge reports a new message exactly when the id of some incoming message
/// is not among the ids of the existing ones.
pub proof fn lemma_has_new_iff(existing: Seq<Message>, incoming: Seq<Message>)
    ensures
        has_new(existing, incoming) <==> exists|i: int|
            0 <= i < incoming.len() && !has_id(existing, (#[trigger] incoming[i]).id@),
    decreases incoming.len(),
{
    if incoming.len() > 0 {
        let init = incoming.drop_last();
        let m = incoming.last();
        let so_far = absorb_all(existing, init);
        lemma_has_new_iff(existing, init);
        lemma_absorb_all_len(existing, init);
        lemma_absorb_all_ids(existing, init, m.id@);
        lemma_position_of(so_far, m.id@);
        if exists|i: int| 0 <= i < init.len() && !has_id(existing, (#[trigger] init[i]).id@) {
            let i = choose|i: int| 0 <= i < init.len() && !has_id(existing, (#[trigger] init[i]).id@);
            assert(incoming[i] == init[i]);
        }
        if has_id(so_far, m.id@) {
            if exists|i: int|
                0 <= i < incoming.len() && !has_id(existing, (#[trigger] incoming[i]).id@) {
                let i = choose|i: int|
                    0 <= i < incoming.len() && !has_id(existing, (#[trigger] incoming[i]).id@);
                if i < init.len() {
                    assert(init[i] == incoming[i]);
                } else {
                    let k = choose|k: int| 0 <= k < init.len() && (#[trigger] init[k]).id@ == m.id@;
                    assert(!has_id(existing, init[k].id@));
                }
            }
        } else {
            assert(!has_id(existing, incoming[incoming.len() - 1].id@));
        }
    }
}

/// Whether a text comes before another or equals it.
fn chars_le(a: &Vec<char>, b: &Vec<char>) -> (r: bool)
    ensures
        r == text_le(a@, b@),
{
    let mut i: usize = 0;
    assert(a@.skip(0) =~= a@);
    assert(b@.skip(0) =~= b@);
    while i < a.len()
        invariant
            i <= a.len(),
            i <= b.len(),
            text_le(a@.skip(i as int), b@.skip(i as int)) == text_le(a@, b@),
        decreases a.len() - i,
    {
        if i >= b.len() {
            return false;
        }
        let x = a[i];
        let y = b[i];
        assert(a@.skip(i as int)[0] == x);
        assert(b@.skip(i as int)[0] == y);
        if x != y {
            return code_of(x) < code_of(y);
        }
        assert(a@.skip(i as int).skip(1) =~= a@.skip(i + 1));
        assert(b@.skip(i as int).skip(1) =~= b@.skip(i + 1));
        i += 1;
    }
    true
}

/// Whether a creation time is no later than another.
pub fn time_no_later(a: &Option<String>, b: &Option<String>) -> (r: bool)
    ensures
        r == time_le(*a, *b),
{
    match a {
        None => true,
        Some(x) => match b {
            None => false,
            Some(y) => {
                let p = chars_of(x.as_str());
                let q = chars_of(y.as_str());
                chars_le(&p, &q)
            },
        },
    }
}

/// The position of the first message with the given id.
pub fn find_by_id(msgs: &Vec<Message>, id: &str) -> (r: Option<usize>)
    ensures
        match r {
            Some(j) => position_of(msgs@, id@) == Some(j as int) && j < msgs.len(),
            None => position_of(msgs@, id@) is None,
        },
{
    let mut i: usize = 0;
    assert(msgs@.take(0) =~= Seq::<Message>::empty());
    while i < msgs.len()
        invariant
            i <= msgs.len(),
            position_of(msgs@.take(i as int), id@) is None,
        decreases msgs.len() - i,
    {
        proof {
            assert(msgs@.take(i + 1).drop_last() =~= msgs@.take(i as int));
            assert(msgs@.take(i + 1).last() == msgs@[i as int]);
        }
        if str_eq(msgs[i].id.as_str(), id) {
            proof {
                lemma_position_stable(msgs@, id@, i + 1, i as int);
            }
            return Some(i);
        }
        i += 1;
    }
    assert(msgs@.take(i as int) =~= msgs@);
    None
}

/// Puts a message into an ordered list, behind every message that is no later
/// than it.
pub fn insert_by_time(v: &mut Vec<Message>, m: Message)
    ensures
        final(v)@ == insert_sorted(old(v)@, m),
{
    let mut i: usize = v.len();
    while i > 0 && !time_no_later(&v[i - 1].created_date_time, &m.created_date_time)
        invariant
            i <= v.len(),
            v@ == old(v)@,
            forall|j: int|
                i <= j < v@.len() ==> !time_le(
                    (#[trigger] v@[j]).created_date_time,
                    m.created_date_time,
                ),
        decreases i,
    {
        i -= 1;
    }
    proof {
        lemma_insert_position(v@, m, i as int);
    }
    v.insert(i, m);
}

/// Orders messages by creation time, oldest first.
pub fn sort_messages(v: Vec<Message>) -> (r: Vec<Message>)
    ensures
        r@ == sort_by_time(v@),
{
    let ghost all = v@;
    let mut rest = v;
    let mut out: Vec<Message> = Vec::new();
    let ghost mut k: int = 0;
    assert(all.take(0) =~= Seq::<Message>::empty());
    assert(all.skip(0) =~= all);
    while rest.len() > 0
        invariant
            0 <= k <= all.len(),
            rest@ == all.skip(k),
            out@ == sort_by_time(all.take(k)),
        decreases rest@.len(),
    {
        let m = rest.remove(0);
        proof {
            assert(m == all[k]);
            assert(all.take(k + 1).drop_last() =~= all.take(k));
            assert(all.take(k + 1).last() == all[k]);
            assert(rest@ =~= all.skip(k + 1));
            k = k + 1;
        }
        insert_by_time(&mut out, m);
    }
    assert(all.take(k) =~= all);
    out
}

/// Merges a change-set into a list of messages. Returns the merged list and
/// whether one of the incoming messages was new to the list.
pub fn merge(existing: Vec<Message>, incoming: Vec<Message>) -> (r: (Vec<Message>, bool))
    ensures
        r.0@ == merged(existing@, incoming@),
        r.1 == has_new(existing@, incoming@),
{
    if incoming.len() == 0 {
        return (existing, false);
    }
    let ghost base = existing@;
    let ghost all = incoming@;
    let mut acc = existing;
    let mut rest = incoming;
    let mut any_new: bool = false;
    let ghost mut k: int = 0;
    assert(all.take(0) =~= Seq::<Message>::empty());
    assert(all.skip(0) =~= all);
    while rest.len() > 0
        invariant
            0 <= k <= all.len(),
            rest@ == all.skip(k),
            acc@ == absorb_all(base, all.take(k)),
            any_new == (acc@.len() > base.len()),
        decreases rest@.len(),
    {
        let m = rest.remove(0);
        proof {
            assert(m == all[k]);
            assert(all.take(k + 1).drop_last() =~= all.take(k));
            assert(all.take(k + 1).last() == all[k]);
            assert(rest@ =~= all.skip(k + 1));
            lemma_absorb_all_len(base, all.take(k));
            k = k + 1;
        }
        match find_by_id(&acc, m.id.as_str()) {
            Some(j) => {
                acc.set(j, m);
            },
            None => {
                acc.push(m);
                any_new = true;
            },
        }
    }
    assert(all.take(k) =~= all);
    let sorted = sort_messages(acc);
    (sorted, any_new)
}

} // verus!
