//! Disk-utilization reporting around a purge.
//!
//! Usage is measured before and after the purge by a fallible storage-size
//! query.  An observability event is produced only when both measurements
//! succeeded; a failed measurement is swallowed and never affects the
//! cleanup outcome.

use vstd::prelude::*;

verus! {

/// The disk-utilization observability event of one purge: usage before and
/// after, their signed difference (negative when the store grew), and the
/// shred total the triggering scan accumulated.
#[derive(Clone, Copy, PartialEq, Eq, Structural, Debug)]
pub struct DiskUtilization {
    pub pre: u64,
    pub post: u64,
    pub delta: i64,
    pub total_shreds: u64,
}

/// Builds the disk-utilization event of one purge, or nothing when either
/// usage measurement failed.
pub fn report_disk_metrics<E>(
    pre: Result<u64, E>,
    post: Result<u64, E>,
    total_shreds: u64,
) -> (r: Option<DiskUtilization>)
    requires
        pre is Ok ==> pre->Ok_0 <= i64::MAX,
        post is Ok ==> post->Ok_0 <= i64::MAX,
    ensures
        r is Some <==> (pre is Ok && post is Ok),
        r is Some ==> {
            let ev = r->0;
            &&& ev.pre == pre->Ok_0
            &&& ev.post == post->Ok_0
            &&& ev.delta == pre->Ok_0 - post->Ok_0
            &&& ev.total_shreds == total_shreds
        },
{
    match (pre, post) {
        (Ok(pre), Ok(post)) => Some(
            DiskUtilization {
                pre,
                post,
                delta: pre as i64 - post as i64,
                total_shreds,
            },
        ),
        _ => None,
    }
}

} // verus!
