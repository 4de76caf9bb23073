//! FIX messages as lists of (tag, value) fields, ready to be framed and sent.

use vstd::prelude::*;

verus! {

/// FIX tag of the message type.
pub const TAG_MSG_TYPE: u32 = 35;

/// FIX tag of the sending time.
pub const TAG_SENDING_TIME: u32 = 52;

/// FIX tag of the transaction time.
pub const TAG_TRANSACT_TIME: u32 = 60;

/// FIX tag of a test request id.
pub const TAG_TEST_REQ_ID: u32 = 112;

/// The (tag, value) fields of a message, in order.
pub type FixFields = Vec<(u32, String)>;

/// The view of a field list.
pub open spec fn fields_view(v: Seq<(u32, String)>) -> Seq<(u32, Seq<char>)> {
    v.map_values(|f: (u32, String)| (f.0, f.1@))
}

/// Appends a field.
pub fn push_field(v: &mut FixFields, tag: u32, value: &str)
    ensures
        fields_view(final(v)@) == fields_view(old(v)@).push((tag, value@)),
{
    v.push((tag, value.to_string()));
    assert(fields_view(v@) =~= fields_view(old(v)@).push((tag, value@)));
}

/// Appends a field whose value is an owned string.
pub fn push_field_string(v: &mut FixFields, tag: u32, value: String)
    ensures
        fields_view(final(v)@) == fields_view(old(v)@).push((tag, value@)),
{
    let ghost s = value@;
    v.push((tag, value));
    assert(fields_view(v@) =~= fields_view(old(v)@).push((tag, s)));
}

/// A new, empty field list.
pub fn new_fields() -> (v: FixFields)
    ensures
        fields_view(v@) == Seq::<(u32, Seq<char>)>::empty(),
{
    let v: FixFields = Vec::new();
    assert(fields_view(v@) =~= Seq::<(u32, Seq<char>)>::empty());
    v
}

/// The fields of a heartbeat that answers a test request.
pub open spec fn heartbeat_fields(sending_time: Seq<char>, test_req_id: Seq<char>) -> Seq<(u32, Seq<char>)> {
    seq![(TAG_MSG_TYPE, "0"@), (TAG_SENDING_TIME, sending_time), (TAG_TEST_REQ_ID, test_req_id)]
}

/// Builds the heartbeat that answers a test request (35=1).
pub fn build_heartbeat(sending_time: &str, test_req_id: &str) -> (v: FixFields)
    ensures
        fields_view(v@) == heartbeat_fields(sending_time@, test_req_id@),
{
    let mut v = new_fields();
    push_field(&mut v, TAG_MSG_TYPE, "0");
    push_field(&mut v, TAG_SENDING_TIME, sending_time);
    push_field(&mut v, TAG_TEST_REQ_ID, test_req_id);
    assert(fields_view(v@) =~= heartbeat_fields(sending_time@, test_req_id@));
    v
}

/// Whether a tag carries a time that is read when the message is sent
/// (sending time or transaction time).
pub open spec fn is_time_tag(tag: u32) -> bool {
    tag == TAG_SENDING_TIME || tag == TAG_TRANSACT_TIME
}

/// A field list with every sending-time and transaction-time value set to
/// `now`; the other fields are kept.
pub open spec fn stamped(fields: Seq<(u32, Seq<char>)>, now: Seq<char>) -> Seq<(u32, Seq<char>)> {
    fields.map_values(|f: (u32, Seq<char>)| if is_time_tag(f.0) { (f.0, now) } else { f })
}

/// Stamps a message with the time it is sent (see `stamped`).
pub fn stamp_message(msg: &mut FixFields, now: &str)
    ensures
        fields_view(final(msg)@) == stamped(fields_view(old(msg)@), now@),
{
    let ghost m0 = fields_view(msg@);
    let n = msg.len();
    let mut out: FixFields = Vec::new();
    let mut i: usize = 0;
    while i < n
        invariant
            n == msg@.len(),
            m0 == fields_view(msg@),
            i <= n,
            fields_view(out@) == stamped(m0.take(i as int), now@),
        decreases n - i,
    {
        let tag = msg[i].0;
        let ghost before = fields_view(out@);
        if tag == TAG_SENDING_TIME || tag == TAG_TRANSACT_TIME {
            out.push((tag, now.to_string()));
        } else {
            out.push((tag, msg[i].1.clone()));
        }
        assert(fields_view(out@) =~= before.push(fields_view(out@).last()));
        assert(m0.take(i + 1) =~= m0.take(i as int).push(m0[i as int]));
        assert(stamped(m0.take(i + 1), now@) =~= stamped(m0.take(i as int), now@).push(stamped(m0.take(i + 1), now@).last()));
        i = i + 1;
    }
    assert(m0.take(n as int) =~= m0);
    *msg = out;
}

/// Law: stamping again replaces the earlier stamp; the other fields stay.
pub proof fn law_stamp_replaces_stamp(fields: Seq<(u32, Seq<char>)>, a: Seq<char>, b: Seq<char>)
    ensures
        stamped(stamped(fields, a), b) == stamped(fields, b),
        stamped(fields, a).len() == fields.len(),
{
    assert(stamped(stamped(fields, a), b) =~= stamped(fields, b));
}

/// Law: fields without a time tag are left as they are, and stamping
/// distributes over concatenation.
pub proof fn law_stamp_parts(x: Seq<(u32, Seq<char>)>, y: Seq<(u32, Seq<char>)>, now: Seq<char>)
    ensures
        stamped(x + y, now) == stamped(x, now) + stamped(y, now),
        (forall|i: int| 0 <= i < x.len() ==> !is_time_tag(#[trigger] x[i].0)) ==> stamped(x, now) == x,
{
    assert(stamped(x + y, now) =~= stamped(x, now) + stamped(y, now));
    if forall|i: int| 0 <= i < x.len() ==> !is_time_tag(#[trigger] x[i].0) {
        assert(stamped(x, now) =~= x);
    }
}

/// Whether a field list carries `tag`, and every field with that tag has
/// the value `v`.
pub open spec fn field_is(m: Seq<(u32, Seq<char>)>, tag: u32, v: Seq<char>) -> bool {
    &&& exists|i: int| 0 <= i < m.len() && #[trigger] m[i] == (tag, v)
    &&& forall|i: int| 0 <= i < m.len() && (#[trigger] m[i]).0 == tag ==> m[i].1 == v
}

/// Whether no field of a list has `tag`.
pub open spec fn field_absent(m: Seq<(u32, Seq<char>)>, tag: u32) -> bool {
    forall|i: int| 0 <= i < m.len() ==> (#[trigger] m[i]).0 != tag
}

/// A tag carried by the middle part of a list, and by no other part, is
/// carried by the whole list with the same value.
pub proof fn lemma_field_is_middle(a: Seq<(u32, Seq<char>)>, b: Seq<(u32, Seq<char>)>, c: Seq<(u32, Seq<char>)>, tag: u32, v: Seq<char>)
    requires
        field_absent(a, tag),
        field_is(b, tag, v),
        field_absent(c, tag),
    ensures
        field_is(a + b + c, tag, v),
{
    let m = a + b + c;
    let j = choose|j: int| 0 <= j < b.len() && #[trigger] b[j] == (tag, v);
    assert(m[a.len() + j] == b[j]);
    assert forall|i: int| 0 <= i < m.len() && (#[trigger] m[i]).0 == tag implies m[i].1 == v by {
        if i < a.len() {
            assert(m[i] == a[i]);
        } else if i < a.len() + b.len() {
            assert(m[i] == b[i - a.len()]);
        } else {
            assert(m[i] == c[i - a.len() - b.len()]);
        }
    }
}

/// Concatenating lists without a tag gives a list without it.
pub proof fn lemma_field_absent_concat(a: Seq<(u32, Seq<char>)>, b: Seq<(u32, Seq<char>)>, tag: u32)
    requires
        field_absent(a, tag),
        field_absent(b, tag),
    ensures
        field_absent(a + b, tag),
{
    assert forall|i: int| 0 <= i < (a + b).len() implies (#[trigger] (a + b)[i]).0 != tag by {
        if i < a.len() {
            assert((a + b)[i] == a[i]);
        } else {
            assert((a + b)[i] == b[i - a.len()]);
        }
    }
}

} // verus!
