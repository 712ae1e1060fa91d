use vstd::prelude::*;

verus! {

use crate::widget::Shape;
use crate::widget::OFF;
use crate::widget::ON_FULL;

/// The extent of the CPU usage widget: one row per core, or a fixed eight
/// rows when sibling threads are merged pairwise into one bar.
pub fn cpu_shape(num_cpus: usize, merge_threads: bool) -> (s: Shape)
    ensures
        s == (if merge_threads {
            Shape { x: 9, y: 8 }
        } else {
            Shape { x: 9, y: num_cpus }
        }),
{
    if merge_threads {
        Shape { x: 9, y: 8 }
    } else {
        Shape { x: 9, y: num_cpus }
    }
}

/// The merged usage of core pair `idx`: the mean of the two paired
/// per-core percentages.
pub open spec fn merged_usage(usages: Seq<u8>, idx: int) -> int {
    (usages[2 * idx] + usages[2 * idx + 1]) / 2
}

/// Cell `k` of the merged CPU bitmap (nine cells wide, eight rows tall):
/// in row `idy`, the cell of core pair `idx` lights up when the pair's
/// merged usage reaches the row's threshold, rows standing for 70 percent
/// at the top down to 0 percent at the bottom.
pub open spec fn cpu_merged_cell(usages: Seq<u8>, k: int) -> u8 {
    let idy = k / 9;
    let idx = k % 9;
    if idx < usages.len() / 2 && merged_usage(usages, idx) >= (7 - idy) * 10 {
        ON_FULL
    } else {
        OFF
    }
}

/// Render the merged-threads CPU bitmap from the latest per-core usage
/// percentages: cores are paired in order, each pair drives one vertical
/// bar that fills bottom-up with its mean usage.
pub fn render_cpu_merged(usages: &Vec<u8>) -> (m: Vec<u8>)
    requires
        usages@.len() % 2 == 0,
        usages@.len() <= 18,
        forall|i: int| 0 <= i < usages@.len() ==> usages@[i] <= 100,
    ensures
        m@.len() == 72,
        forall|k: int| 0 <= k < 72 ==> m@[k] == cpu_merged_cell(usages@, k),
{
    let mut m: Vec<u8> = Vec::new();
    while m.len() < 72
        invariant
            m@.len() <= 72,
            forall|k: int| 0 <= k < m@.len() ==> m@[k] == OFF,
        decreases 72 - m.len(),
    {
        m.push(OFF);
    }
    let pairs = usages.len() / 2;
    let mut idy: usize = 0;
    while idy < 8
        invariant
            idy <= 8,
            pairs == usages@.len() / 2,
            usages@.len() % 2 == 0,
            usages@.len() <= 18,
            forall|i: int| 0 <= i < usages@.len() ==> usages@[i] <= 100,
            m@.len() == 72,
            forall|k: int| 0 <= k < 9 * idy as int ==> m@[k] == cpu_merged_cell(usages@, k),
            forall|k: int| 9 * idy as int <= k < 72 ==> m@[k] == OFF,
        decreases 8 - idy,
    {
        let inverse_y = 8 - (idy + 1);
        let mut idx: usize = 0;
        while idx < pairs
            invariant
                idy < 8,
                idx <= pairs,
                inverse_y == 7 - idy,
                pairs == usages@.len() / 2,
                usages@.len() % 2 == 0,
                usages@.len() <= 18,
                forall|i: int| 0 <= i < usages@.len() ==> usages@[i] <= 100,
                m@.len() == 72,
                forall|k: int| 0 <= k < 9 * idy as int ==> m@[k] == cpu_merged_cell(usages@, k),
                forall|k: int|
                    9 * idy as int <= k < 9 * idy as int + idx as int ==> m@[k] == cpu_merged_cell(
                        usages@,
                        k,
                    ),
                forall|k: int| 9 * idy as int + idx as int <= k < 72 ==> m@[k] == OFF,
            decreases pairs - idx,
        {
            proof {
                assert(2 * idx as int + 1 < usages@.len());
            }
            let usage = (usages[2 * idx] + usages[2 * idx + 1]) / 2;
            let k = idy * 9 + idx;
            proof {
                vstd::arithmetic::div_mod::lemma_fundamental_div_mod_converse(
                    k as int,
                    9,
                    idy as int,
                    idx as int,
                );
            }
            if usage as usize >= inverse_y * 10 {
                m[k] = ON_FULL;
            }
            proof {
                assert(m@[k as int] == cpu_merged_cell(usages@, k as int));
            }
            idx = idx + 1;
        }
        proof {
            assert forall|k: int|
                9 * idy as int + pairs as int <= k < 9 * (idy as int + 1) implies m@[k]
                == cpu_merged_cell(usages@, k) by {
                vstd::arithmetic::div_mod::lemma_fundamental_div_mod(k, 9);
                vstd::arithmetic::div_mod::lemma_mod_bound(k, 9);
                assert(k / 9 == idy as int && k % 9 >= pairs as int) by {
                    vstd::arithmetic::div_mod::lemma_fundamental_div_mod_converse(
                        k,
                        9,
                        idy as int,
                        k - 9 * idy as int,
                    );
                }
            }
        }
        idy = idy + 1;
    }
    m
}

} // verus!
