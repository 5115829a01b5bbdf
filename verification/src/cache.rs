//! A read-only index over a register-write log: for each address, its writes
//! ordered by time, answering "the last value written to this address at or
//! before a given time".

use vstd::prelude::*;
use crate::events::RegisterWrite;

verus! {

/// Insert a (time, value) entry into a row sorted by time, after every entry
/// with the same or an earlier time, so that insertion order breaks ties.
pub open spec fn spec_insert_by_time(row: Seq<(u64, u8)>, e: (u64, u8)) -> Seq<(u64, u8)>
    decreases row.len(),
{
    if row.len() == 0 {
        seq![e]
    } else if row.last().0 <= e.0 {
        row.push(e)
    } else {
        spec_insert_by_time(row.drop_last(), e).push(row.last())
    }
}

/// The row an address gets from a log: the log's writes to that address, in
/// time order, writes at equal times kept in log order.
pub open spec fn spec_cache_row(log: Seq<RegisterWrite>, addr: u8) -> Seq<(u64, u8)>
    decreases log.len(),
{
    if log.len() == 0 {
        Seq::<(u64, u8)>::empty()
    } else {
        let prev = spec_cache_row(log.drop_last(), addr);
        let w = log.last();
        if w.addr == addr {
            spec_insert_by_time(prev, (w.time, w.data))
        } else {
            prev
        }
    }
}

/// The value of the latest entry at or before `t`: the last entry of the row
/// (searched from the back) whose time is at or before `t`.
pub open spec fn spec_latest(row: Seq<(u64, u8)>, t: u64) -> Option<u8>
    decreases row.len(),
{
    if row.len() == 0 {
        None
    } else if row.last().0 <= t {
        Some(row.last().1)
    } else {
        spec_latest(row.drop_last(), t)
    }
}

/// The index: one row per address, each row the address's writes in time
/// order.
#[derive(Debug)]
pub struct RegisterStateCache {
    by_addr: Vec<Vec<(u64, u8)>>,
}

impl RegisterStateCache {
    /// The rows, indexed by address.
    pub closed spec fn view(&self) -> Seq<Seq<(u64, u8)>> {
        Seq::new(self.by_addr@.len(), |a: int| self.by_addr@[a]@)
    }

    /// A well-formed cache has one row per address.
    pub open spec fn wf(&self) -> bool {
        self@.len() == 256
    }

    /// The last value written to `addr` at or before `time`, or nothing when
    /// no write lies at or before it.
    pub fn latest_value(&self, addr: u8, time: u64) -> (r: Option<u8>)
        requires
            self.wf(),
        ensures
            r == spec_latest(self@[addr as int], time),
    {
        let row = &self.by_addr[addr as usize];
        let ghost rowv = self@[addr as int];
        proof {
            assert(rowv.subrange(0, rowv.len() as int) =~= rowv);
        }
        let mut k: usize = row.len();
        while k > 0
            invariant
                rowv == self@[addr as int],
                rowv == row@,
                0 <= k <= row@.len(),
                spec_latest(rowv, time) == spec_latest(rowv.subrange(0, k as int), time),
            decreases k,
        {
            proof {
                assert(rowv.subrange(0, k as int).last() == rowv[k - 1]);
                assert(rowv.subrange(0, k as int).drop_last() =~= rowv.subrange(0, k - 1));
            }
            if row[k - 1].0 <= time {
                return Some(row[k - 1].1);
            }
            k = k - 1;
        }
        proof {
            assert(rowv.subrange(0, 0) =~= Seq::<(u64, u8)>::empty());
        }
        None
    }
}

/// Insert an entry into a row sorted by time, after every entry at or before
/// its time.
fn insert_by_time(row: &mut Vec<(u64, u8)>, e: (u64, u8))
    ensures
        final(row)@ == spec_insert_by_time(old(row)@, e),
    decreases old(row)@.len(),
{
    let n = row.len();
    if n == 0 {
        row.push(e);
        assert(row@ =~= spec_insert_by_time(old(row)@, e));
    } else if row[n - 1].0 <= e.0 {
        row.push(e);
        assert(row@ =~= spec_insert_by_time(old(row)@, e));
    } else {
        let last = row[n - 1];
        let _ = row.pop();
        assert(row@ =~= old(row)@.drop_last());
        insert_by_time(row, e);
        row.push(last);
        assert(row@ =~= spec_insert_by_time(old(row)@, e));
    }
}

/// Build the index for a log: group the writes by address and order each
/// address's writes by time, writes at equal times kept in log order.
pub fn build_register_state_cache(events: &Vec<RegisterWrite>) -> (r: RegisterStateCache)
    ensures
        r.wf(),
        forall|a: int| 0 <= a < 256 ==> r@[a] == spec_cache_row(events@, a as u8),
{
    let mut by_addr: Vec<Vec<(u64, u8)>> = Vec::new();
    let mut setup: usize = 0;
    while setup < 256
        invariant
            by_addr@.len() == setup,
            0 <= setup <= 256,
            forall|a: int| 0 <= a < setup ==> by_addr@[a]@ =~= Seq::<(u64, u8)>::empty(),
        decreases 256 - setup,
    {
        by_addr.push(Vec::new());
        setup = setup + 1;
    }
    let n = events.len();
    let mut i: usize = 0;
    while i < n
        invariant
            n == events@.len(),
            0 <= i <= n,
            by_addr@.len() == 256,
            forall|a: int|
                0 <= a < 256 ==> #[trigger] by_addr@[a]@ == spec_cache_row(
                    events@.subrange(0, i as int),
                    a as u8,
                ),
        decreases n - i,
    {
        let ghost pre = events@.subrange(0, i as int);
        let ghost post = events@.subrange(0, i + 1 as int);
        proof {
            assert(post.drop_last() =~= pre);
            assert(post.last() == events@[i as int]);
        }
        let w = events[i];
        let ghost rows0 = by_addr@;
        let a = w.addr as usize;
        let mut row = by_addr.remove(a);
        insert_by_time(&mut row, (w.time, w.data));
        let ghost newrow = row@;
        by_addr.insert(a, row);
        proof {
            assert(by_addr@ =~= rows0.update(a as int, by_addr@[a as int]));
            assert(by_addr@[a as int]@ == newrow);
            assert forall|x: int| 0 <= x < 256 implies #[trigger] by_addr@[x]@
                == spec_cache_row(post, x as u8) by {
                if x == a {
                } else {
                    assert(by_addr@[x] == rows0[x]);
                    assert((x as u8) != w.addr);
                }
            }
        }
        i = i + 1;
    }
    proof {
        assert(events@.subrange(0, n as int) =~= events@);
    }
    RegisterStateCache { by_addr }
}

} // verus!
