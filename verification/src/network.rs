use vstd::prelude::*;

verus! {

/// One network interface's counters as the host reports them: the
/// interface's name and the bytes received and transmitted since the
/// previous refresh.
pub struct TrafficEntry {
    pub name: String,
    pub received: u64,
    pub transmitted: u64,
}

/// `name` names one of the configured devices.
pub open spec fn selected(devices: Seq<String>, name: String) -> bool {
    exists|i: int| 0 <= i < devices.len() && devices[i]@ == name@
}

/// Total bytes received over the interfaces whose names are configured.
pub open spec fn received_sum(entries: Seq<TrafficEntry>, devices: Seq<String>) -> int
    decreases entries.len(),
{
    if entries.len() == 0 {
        0
    } else {
        received_sum(entries.drop_last(), devices) + (if selected(devices, entries.last().name) {
            entries.last().received as int
        } else {
            0
        })
    }
}

/// Total bytes transmitted over the interfaces whose names are configured.
pub open spec fn transmitted_sum(entries: Seq<TrafficEntry>, devices: Seq<String>) -> int
    decreases entries.len(),
{
    if entries.len() == 0 {
        0
    } else {
        transmitted_sum(entries.drop_last(), devices) + (if selected(
            devices,
            entries.last().name,
        ) {
            entries.last().transmitted as int
        } else {
            0
        })
    }
}

/// Counter sums only grow as more entries are taken in.
proof fn lemma_sums_monotone(entries: Seq<TrafficEntry>, devices: Seq<String>, k: int)
    requires
        0 <= k <= entries.len(),
    ensures
        received_sum(entries.take(k), devices) <= received_sum(entries, devices),
        transmitted_sum(entries.take(k), devices) <= transmitted_sum(entries, devices),
    decreases entries.len() - k,
{
    if k == entries.len() {
        assert(entries.take(k) =~= entries);
    } else {
        assert(entries.take(k + 1).drop_last() =~= entries.take(k));
        assert(entries.take(k + 1).last() == entries[k]);
        lemma_sums_monotone(entries, devices, k + 1);
    }
}

/// Whether `name` is one of the configured device names.
fn is_selected(devices: &Vec<String>, name: &String) -> (r: bool)
    ensures
        r == selected(devices@, *name),
{
    let mut found = false;
    let mut i: usize = 0;
    while i < devices.len()
        invariant
            i <= devices@.len(),
            found <==> (exists|j: int| 0 <= j < i as int && devices@[j]@ == name@),
        decreases devices@.len() - i,
    {
        if devices[i] == *name {
            found = true;
            proof {
                assert(devices@[i as int]@ == name@);
            }
        }
        i = i + 1;
    }
    found
}

/// Add up the received and transmitted counters of every configured
/// interface, in entry order, with overflow-checked additions. Succeeds
/// exactly when both totals fit in a counter; an overflowing total reports
/// nothing rather than a wrapped number.
pub fn accumulate_traffic(entries: &Vec<TrafficEntry>, devices: &Vec<String>) -> (r: Option<
    (u64, u64),
>)
    ensures
        r is Some <==> (received_sum(entries@, devices@) <= u64::MAX && transmitted_sum(
            entries@,
            devices@,
        ) <= u64::MAX),
        r is Some ==> (r->0).0 == received_sum(entries@, devices@) && (r->0).1
            == transmitted_sum(entries@, devices@),
{
    let mut download: u64 = 0;
    let mut upload: u64 = 0;
    proof {
        assert(entries@.take(0) =~= Seq::<TrafficEntry>::empty());
    }
    let mut k: usize = 0;
    while k < entries.len()
        invariant
            k <= entries@.len(),
            download == received_sum(entries@.take(k as int), devices@),
            upload == transmitted_sum(entries@.take(k as int), devices@),
        decreases entries@.len() - k,
    {
        let ghost pre = entries@.take(k as int);
        let ghost post = entries@.take(k as int + 1);
        proof {
            assert(post.drop_last() =~= pre);
            assert(post.last() == entries@[k as int]);
        }
        let entry = &entries[k];
        let sel = is_selected(devices, &entry.name);
        if sel {
            download = match download.checked_add(entry.received) {
                Some(d) => d,
                None => {
                    proof {
                        lemma_sums_monotone(entries@, devices@, k as int + 1);
                        assert(received_sum(post, devices@) > u64::MAX);
                    }
                    return None;
                },
            };
            upload = match upload.checked_add(entry.transmitted) {
                Some(u) => u,
                None => {
                    proof {
                        lemma_sums_monotone(entries@, devices@, k as int + 1);
                        assert(transmitted_sum(post, devices@) > u64::MAX);
                    }
                    return None;
                },
            };
        }
        k = k + 1;
    }
    proof {
        assert(entries@.take(entries@.len() as int) =~= entries@);
    }
    Some((download, upload))
}

} // verus!
