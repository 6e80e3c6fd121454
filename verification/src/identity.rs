//! The device's own identity keys, and what this library will say about the
//! trust of one device.

use vstd::prelude::*;

use crate::machine::MachineError;
use crate::text::{compare_text, lemma_text_less_total, lemma_text_less_transitive, text_less, TextOrder};

verus! {

/// The device's own public identity keys, unpadded base64.
#[derive(Debug, Clone, PartialEq, Eq)]
pub struct IdentityKeys {
    pub curve25519: String,
    pub ed25519: String,
}

/// What this library is prepared to say about one device.
#[derive(Debug, Clone, Copy, PartialEq, Eq, Structural)]
pub enum TrustState {
    /// This machine holds the device's keys and no more than that.
    Unverified,
    /// Reserved: a device believed without a comparison. Not produced.
    Recognized,
    /// A comparison of short authentication strings completed for this
    /// device, or a cross-signature this machine can follow vouches for it.
    Verified,
}

/// One device of one user, and what this library will say about it.
#[derive(Debug, Clone, PartialEq, Eq)]
pub struct DeviceStatus {
    pub device_id: String,
    pub trust: TrustState,
}


/// Whether the identifiers a caller asserted are the live machine's own.
pub open spec fn identifiers_match(
    active_user_id: Seq<char>,
    active_device_id: Seq<char>,
    user_id: Seq<char>,
    device_id: Seq<char>,
) -> bool {
    active_user_id == user_id && active_device_id == device_id
}

/// The live machine's own identity keys, handed only to a caller that
/// names the machine's own user and device: the identifiers are an
/// assertion checked against the machine, not an input.
pub fn device_identity_keys(
    active_user_id: &String,
    active_device_id: &String,
    user_id: &String,
    device_id: &String,
    keys: IdentityKeys,
) -> (r: Result<IdentityKeys, MachineError>)
    ensures
        identifiers_match(active_user_id@, active_device_id@, user_id@, device_id@) ==> r == Ok::<IdentityKeys, MachineError>(keys),
        !identifiers_match(active_user_id@, active_device_id@, user_id@, device_id@) ==> (r->Err_0 matches MachineError::MalformedIdentifier { detail }
            && detail@ == "identifiers do not match the active machine"@) && r is Err,
{
    if *active_user_id != *user_id || *active_device_id != *device_id {
        return Err(MachineError::MalformedIdentifier {
            detail: String::from_str("identifiers do not match the active machine"),
        });
    }
    Ok(keys)
}

/// The trust this library reports for a device upstream does or does not
/// call verified.
pub open spec fn trust_for(is_verified: bool) -> TrustState {
    if is_verified { TrustState::Verified } else { TrustState::Unverified }
}

/// One device as a caller sees it.
pub open spec fn status_view(status: DeviceStatus) -> (Seq<char>, TrustState) {
    (status.device_id@, status.trust)
}

/// One device as the store reported it: its id, and whether it is verified.
pub open spec fn reported_view(device: (String, bool)) -> (Seq<char>, TrustState) {
    (device.0@, trust_for(device.1))
}

/// A list of statuses as a caller sees it.
pub open spec fn status_views(statuses: Seq<DeviceStatus>) -> Seq<(Seq<char>, TrustState)> {
    statuses.map_values(|s: DeviceStatus| status_view(s))
}

/// A list of devices as the store reported it.
pub open spec fn reported_views(devices: Seq<(String, bool)>) -> Seq<(Seq<char>, TrustState)> {
    devices.map_values(|d: (String, bool)| reported_view(d))
}

/// Sorted by device id, each id before every larger one.
pub open spec fn strictly_ascending(statuses: Seq<(Seq<char>, TrustState)>) -> bool {
    forall|i: int, j: int| 0 <= i < j < statuses.len() ==> text_less(#[trigger] statuses[i].0, #[trigger] statuses[j].0)
}

/// Sorted by device id, equal ids in any order.
pub open spec fn sorted_by_device(statuses: Seq<(Seq<char>, TrustState)>) -> bool {
    forall|i: int, j: int| 0 <= i < j < statuses.len() ==> !text_less(#[trigger] statuses[j].0, #[trigger] statuses[i].0)
}

/// The trust this library reports for a device.
pub fn trust_of(is_verified: bool) -> (trust: TrustState)
    ensures
        trust == trust_for(is_verified),
{
    if is_verified { TrustState::Verified } else { TrustState::Unverified }
}

/// Every device this machine has been told about for one user, with the
/// trust reported for each, sorted by device id so that two calls that saw
/// the same store answer in the same order. Distinct ids, as the devices
/// of one user have, come out strictly ascending.
pub fn device_statuses(devices: Vec<(String, bool)>) -> (statuses: Vec<DeviceStatus>)
    ensures
        statuses@.len() == devices@.len(),
        sorted_by_device(status_views(statuses@)),
        status_views(statuses@).to_multiset() == reported_views(devices@).to_multiset(),
        (forall|i: int, j: int| 0 <= i < j < devices@.len() ==> #[trigger] devices@[i].0@ != #[trigger] devices@[j].0@)
            ==> strictly_ascending(status_views(statuses@)),
{
    broadcast use vstd::seq_lib::to_multiset_build, vstd::seq_lib::to_multiset_insert;

    let ghost input = devices@;
    let mut devices = devices;
    let mut sorted: Vec<DeviceStatus> = Vec::new();
    let ghost mut k: nat = 0;
    proof {
        assert(sorted@.map_values(|s: DeviceStatus| status_view(s)) =~= Seq::<(Seq<char>, TrustState)>::empty());
        assert(input.take(0).map_values(|d: (String, bool)| reported_view(d)) =~= Seq::<(Seq<char>, TrustState)>::empty());
    }
    while devices.len() > 0
        invariant
            k <= input.len(),
            devices@ == input.skip(k as int),
            sorted@.len() == k,
            sorted_by_device(sorted@.map_values(|s: DeviceStatus| status_view(s))),
            sorted@.map_values(|s: DeviceStatus| status_view(s)).to_multiset()
                == input.take(k as int).map_values(|d: (String, bool)| reported_view(d)).to_multiset(),
        decreases input.len() - k,
    {
        proof {
            assert(input.skip(k as int)[0] == input[k as int]);
        }
        let (device_id, verified) = devices.remove(0);
        let status = DeviceStatus { device_id, trust: trust_of(verified) };
        let ghost x = status_view(status);
        let ghost old_views = sorted@.map_values(|s: DeviceStatus| status_view(s));
        let mut p: usize = 0;
        let mut searching = true;
        while searching
            invariant
                p <= sorted@.len(),
                old_views == sorted@.map_values(|s: DeviceStatus| status_view(s)),
                sorted_by_device(old_views),
                x == status_view(status),
                forall|i: int| 0 <= i < p ==> !text_less(x.0, #[trigger] old_views[i].0),
                !searching ==> (p == sorted@.len() || text_less(x.0, old_views[p as int].0)),
            decreases sorted@.len() - p + (if searching { 1int } else { 0int }),
        {
            if p < sorted.len() {
                match compare_text(&status.device_id, &sorted[p].device_id) {
                    TextOrder::Less => {
                        searching = false;
                    },
                    _ => {
                        p = p + 1;
                    },
                }
            } else {
                searching = false;
            }
        }
        sorted.insert(p, status);
        proof {
            let nv = sorted@.map_values(|s: DeviceStatus| status_view(s));
            assert(nv =~= old_views.insert(p as int, x));
            assert forall|i: int, j: int| 0 <= i < j < nv.len() implies !text_less(#[trigger] nv[j].0, #[trigger] nv[i].0) by {
                if j < p {
                    assert(nv[i] == old_views[i] && nv[j] == old_views[j]);
                } else if j == p {
                    assert(nv[i] == old_views[i]);
                } else if i < p {
                    assert(nv[i] == old_views[i] && nv[j] == old_views[j - 1]);
                } else if i == p {
                    assert(nv[j] == old_views[j - 1]);
                    // x < old[p] <= old[j-1], so old[j-1] < x would give old[j-1] < old[p]
                    if text_less(nv[j].0, x.0) {
                        lemma_text_less_transitive(nv[j].0, x.0, old_views[p as int].0);
                        if j - 1 > p {
                            assert(!text_less(old_views[j - 1].0, old_views[p as int].0));
                        }
                        crate::text::lemma_text_less_irreflexive(old_views[p as int].0);
                    }
                } else {
                    assert(nv[i] == old_views[i - 1] && nv[j] == old_views[j - 1]);
                }
            }
            assert(input.take((k + 1) as int).map_values(|d: (String, bool)| reported_view(d))
                =~= input.take(k as int).map_values(|d: (String, bool)| reported_view(d)).push(reported_view(input[k as int])));
            assert(reported_view(input[k as int]) == x);
            vstd::seq_lib::to_multiset_insert(old_views, p as int, x);
            vstd::seq_lib::to_multiset_build(input.take(k as int).map_values(|d: (String, bool)| reported_view(d)), x);
            assert(input.skip(k as int).drop_first() =~= input.skip((k + 1) as int));
            k = k + 1;
        }
    }
    proof {
        assert(input.take(k as int) =~= input);
        if forall|i: int, j: int| 0 <= i < j < input.len() ==> #[trigger] input[i].0@ != #[trigger] input[j].0@ {
            lemma_distinct_ids_carry(input, sorted@);
            let v = status_views(sorted@);
            assert forall|i: int, j: int| 0 <= i < j < v.len() implies text_less(#[trigger] v[i].0, #[trigger] v[j].0) by {
                lemma_text_less_total(v[i].0, v[j].0);
            }
        }
    }
    sorted
}

/// Sorted lists of the same elements, no two with the same device id, are
/// the same list.
proof fn lemma_sorted_alike(a: Seq<(Seq<char>, TrustState)>, b: Seq<(Seq<char>, TrustState)>)
    requires
        sorted_by_device(a),
        sorted_by_device(b),
        a.to_multiset() == b.to_multiset(),
        forall|i: int, j: int| 0 <= i < j < a.len() ==> #[trigger] a[i].0 != #[trigger] a[j].0,
    ensures
        a == b,
    decreases a.len(),
{
    broadcast use vstd::seq_lib::group_to_multiset_ensures;

    if a.len() == 0 {
        vstd::seq_lib::to_multiset_len(a);
        vstd::seq_lib::to_multiset_len(b);
        assert(b.to_multiset().len() == 0);
        assert(b =~= a);
    } else {
        vstd::seq_lib::to_multiset_len(a);
        vstd::seq_lib::to_multiset_len(b);
        assert(b.len() == a.len());
        assert(a.contains(a[0]));
        assert(b.to_multiset().count(a[0]) > 0);
        let k = choose|k: int| 0 <= k < b.len() && b[k] == a[0];
        assert(b.contains(b[0]));
        assert(a.to_multiset().count(b[0]) > 0);
        let m = choose|m: int| 0 <= m < a.len() && a[m] == b[0];
        lemma_text_less_total(a[0].0, b[0].0);
        if k > 0 {
            assert(!text_less(b[k].0, b[0].0));
        }
        if m > 0 {
            assert(!text_less(a[m].0, a[0].0));
        }
        assert(a[0].0 == b[0].0);
        assert(m == 0);
        assert(a[0] == b[0]);
        assert(a.remove(0).to_multiset() == a.to_multiset().remove(a[0]));
        assert(b.remove(0).to_multiset() == b.to_multiset().remove(b[0]));
        assert(a.remove(0) =~= a.drop_first());
        assert(b.remove(0) =~= b.drop_first());
        let ra = a.drop_first();
        let rb = b.drop_first();
        assert forall|i: int, j: int| 0 <= i < j < ra.len() implies !text_less(#[trigger] ra[j].0, #[trigger] ra[i].0) by {
            assert(ra[i] == a[i + 1] && ra[j] == a[j + 1]);
        }
        assert forall|i: int, j: int| 0 <= i < j < rb.len() implies !text_less(#[trigger] rb[j].0, #[trigger] rb[i].0) by {
            assert(rb[i] == b[i + 1] && rb[j] == b[j + 1]);
        }
        assert forall|i: int, j: int| 0 <= i < j < ra.len() implies #[trigger] ra[i].0 != #[trigger] ra[j].0 by {
            assert(ra[i] == a[i + 1] && ra[j] == a[j + 1]);
        }
        lemma_sorted_alike(ra, rb);
        assert(a =~= seq![a[0]] + ra);
        assert(b =~= seq![b[0]] + rb);
    }
}

/// Distinct device ids among the reported devices stay distinct in any
/// list holding the same devices.
proof fn lemma_distinct_ids_carry(devices: Seq<(String, bool)>, answer: Seq<DeviceStatus>)
    requires
        forall|i: int, j: int| 0 <= i < j < devices.len() ==> #[trigger] devices[i].0@ != #[trigger] devices[j].0@,
        status_views(answer).to_multiset() == reported_views(devices).to_multiset(),
    ensures
        forall|i: int, j: int| 0 <= i < j < answer.len() ==> #[trigger] status_views(answer)[i].0 != #[trigger] status_views(answer)[j].0,
{
    broadcast use vstd::seq_lib::group_to_multiset_ensures;

    let a = status_views(answer);
    let r = reported_views(devices);
    assert forall|i: int, j: int| 0 <= i < j < r.len() implies r[i] != r[j] by {
        assert(r[i].0 == devices[i].0@ && r[j].0 == devices[j].0@);
    }
    assert(r.no_duplicates());
    r.lemma_multiset_has_no_duplicates();
    a.lemma_multiset_has_no_duplicates_conv();
    assert forall|i: int, j: int| 0 <= i < j < a.len() implies #[trigger] a[i].0 != #[trigger] a[j].0 by {
        if a[i].0 == a[j].0 {
            assert(a[i] != a[j]);
            assert(a.contains(a[i]) && a.contains(a[j]));
            assert(r.to_multiset().count(a[i]) > 0 && r.to_multiset().count(a[j]) > 0);
            let p = choose|p: int| 0 <= p < r.len() && r[p] == a[i];
            let q = choose|q: int| 0 <= q < r.len() && r[q] == a[j];
            assert(r[p].0 == devices[p].0@ && r[q].0 == devices[q].0@);
            if p < q {
                assert(devices[p].0@ != devices[q].0@);
            } else {
                assert(devices[q].0@ != devices[p].0@);
            }
        }
    }
}

/// Two calls that saw the same devices, in whatever order the store handed
/// them out, answer with the same list: with device ids that are distinct,
/// as they are within one user's devices, the sorted answer is determined
/// by the devices alone.
pub proof fn the_same_devices_are_listed_alike(
    first: Seq<(String, bool)>,
    second: Seq<(String, bool)>,
    first_answer: Seq<DeviceStatus>,
    second_answer: Seq<DeviceStatus>,
)
    requires
        reported_views(first).to_multiset() == reported_views(second).to_multiset(),
        forall|i: int, j: int| 0 <= i < j < first.len() ==> #[trigger] first[i].0@ != #[trigger] first[j].0@,
        sorted_by_device(status_views(first_answer)),
        status_views(first_answer).to_multiset() == reported_views(first).to_multiset(),
        sorted_by_device(status_views(second_answer)),
        status_views(second_answer).to_multiset() == reported_views(second).to_multiset(),
    ensures
        status_views(first_answer) == status_views(second_answer),
{
    lemma_distinct_ids_carry(first, first_answer);
    let a = status_views(first_answer);
    let b = status_views(second_answer);
    lemma_sorted_alike(a, b);
}

} // verus!
