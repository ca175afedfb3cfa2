use enthunter::report::{plan_report, ReportPlan};

#[test]
fn report_on_no_score() {
    assert_eq!(plan_report(0), ReportPlan::Empty);
}

#[test]
fn report_on_one_score() {
    assert_eq!(plan_report(1), ReportPlan::Single);
}

#[test]
fn short_lists_have_a_median_only() {
    assert_eq!(
        plan_report(2),
        ReportPlan::Ranked { median: 1, top_tenth: None, top_hundredth: None }
    );
    assert_eq!(
        plan_report(10),
        ReportPlan::Ranked { median: 5, top_tenth: None, top_hundredth: None }
    );
}

#[test]
fn top_tenth_needs_eleven_scores() {
    assert_eq!(
        plan_report(11),
        ReportPlan::Ranked { median: 5, top_tenth: Some(10), top_hundredth: None }
    );
    assert_eq!(
        plan_report(100),
        ReportPlan::Ranked { median: 50, top_tenth: Some(91), top_hundredth: None }
    );
}

#[test]
fn top_hundredth_needs_a_hundred_and_one_scores() {
    assert_eq!(
        plan_report(101),
        ReportPlan::Ranked { median: 50, top_tenth: Some(91), top_hundredth: Some(100) }
    );
    assert_eq!(
        plan_report(1000),
        ReportPlan::Ranked { median: 500, top_tenth: Some(901), top_hundredth: Some(991) }
    );
}

#[test]
fn top_hundredth_is_left_out_where_it_is_the_top_tenth() {
    // 11 * 99 / 100 == 11 * 90 / 100 + 1: both ranks would be entry 11, which is none.
    assert_eq!(
        plan_report(12),
        ReportPlan::Ranked { median: 6, top_tenth: Some(11), top_hundredth: None }
    );
}

#[test]
fn ranks_of_the_longest_list_do_not_overflow() {
    match plan_report(usize::MAX) {
        ReportPlan::Ranked { median, top_tenth, top_hundredth } => {
            assert_eq!(median, usize::MAX / 2);
            assert!(top_tenth.unwrap() < top_hundredth.unwrap());
            assert!(top_hundredth.unwrap() < usize::MAX);
        },
        _ => panic!("a long list is ranked"),
    }
}

#[test]
fn every_named_entry_exists() {
    for count in 2..2000usize {
        match plan_report(count) {
            ReportPlan::Ranked { median, top_tenth, top_hundredth } => {
                assert_eq!(median, count * 50 / 100);
                assert!(median < count);
                let tenth = count * 90 / 100 + 1;
                let hundredth = count * 99 / 100 + 1;
                assert_eq!(top_tenth, if tenth < count { Some(tenth) } else { None });
                let want = if tenth < count && hundredth != tenth && hundredth < count {
                    Some(hundredth)
                } else {
                    None
                };
                assert_eq!(top_hundredth, want);
            },
            _ => panic!("{} scores are ranked", count),
        }
    }
}
