//! Which of the sorted sector scores the statistics of one file name.

use vstd::prelude::*;

verus! {

/// The entries of a list of scores, sorted in ascending order, that a report
/// names. The lowest score is entry 0.
#[derive(Clone, Copy, Debug, PartialEq, Eq, Structural)]
pub enum ReportPlan {
    /// There is no score: the file is empty.
    Empty,
    /// There is one score and nothing to rank.
    Single,
    /// The median is entry `median`. The scores that mark the top tenth and
    /// the top hundredth are named where the list is long enough to have
    /// them, the second only together with the first.
    Ranked { median: usize, top_tenth: Option<usize>, top_hundredth: Option<usize> },
}

/// The entry behind which `percent` of `count` sorted scores lie.
pub open spec fn rank_behind(count: nat, percent: nat) -> nat {
    count * percent / 100 + 1
}

/// The plan of the report on `count` scores.
pub open spec fn report_plan(count: nat) -> ReportPlan {
    if count == 0 {
        ReportPlan::Empty
    } else if count == 1 {
        ReportPlan::Single
    } else {
        let tenth = rank_behind(count, 90);
        let hundredth = rank_behind(count, 99);
        ReportPlan::Ranked {
            median: (count * 50 / 100) as usize,
            top_tenth: if tenth < count {
                Some(tenth as usize)
            } else {
                None
            },
            top_hundredth: if tenth < count && hundredth != tenth && hundredth < count {
                Some(hundredth as usize)
            } else {
                None
            },
        }
    }
}

/// `count * percent / 100`, computed without the product.
fn share(count: usize, percent: usize) -> (share: usize)
    requires
        percent <= 100,
    ensures
        share == count * percent / 100,
        share <= count,
{
    let whole: usize = count / 100;
    let rest: usize = count % 100;
    assert(count * percent == (whole * percent) * 100 + rest * percent) by (nonlinear_arith)
        requires
            count == whole * 100 + rest,
    ;
    assert(whole * percent <= whole * 100 && rest * percent <= rest * 100) by (nonlinear_arith)
        requires
            percent <= 100,
    ;
    whole * percent + rest * percent / 100
}

/// Plans the report on `count` scores. Every entry that the plan names
/// exists.
pub fn plan_report(count: usize) -> (plan: ReportPlan)
    ensures
        plan == report_plan(count as nat),
        plan matches ReportPlan::Ranked { median, top_tenth, top_hundredth } ==> {
            &&& median < count
            &&& top_tenth matches Some(entry) ==> median < entry < count
            &&& top_hundredth matches Some(entry) ==> entry < count
        },
{
    if count == 0 {
        ReportPlan::Empty
    } else if count == 1 {
        ReportPlan::Single
    } else {
        let median: usize = share(count, 50);
        let tenth: usize = share(count, 90);
        let hundredth: usize = share(count, 99);
        if tenth + 1 < count {
            let top_hundredth = if hundredth != tenth && hundredth + 1 < count {
                Some(hundredth + 1)
            } else {
                None
            };
            ReportPlan::Ranked { median, top_tenth: Some(tenth + 1), top_hundredth }
        } else {
            ReportPlan::Ranked { median, top_tenth: None, top_hundredth: None }
        }
    }
}

} // verus!
