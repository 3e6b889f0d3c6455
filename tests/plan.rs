use bezier::plan::{plan_path, plan_segment, ControlSite, SegmentPlan};

#[test]
fn two_point_plan_uses_anchors_at_both_ends() {
    let p = plan_segment(2, 1);
    assert_eq!(
        p,
        SegmentPlan {
            start_control: ControlSite { anchor: 0, previous: None, next: Some(1), reverse: false },
            end_control: ControlSite { anchor: 1, previous: Some(0), next: None, reverse: true },
            end: 1,
        }
    );
    assert_eq!(p.start_control.opposed_ends(), (0, 1));
    assert_eq!(p.end_control.opposed_ends(), (0, 1));
}

#[test]
fn inner_segment_sees_both_neighbours() {
    let p = plan_segment(4, 2);
    assert_eq!(p.start_control, ControlSite { anchor: 1, previous: Some(0), next: Some(2), reverse: false });
    assert_eq!(p.end_control, ControlSite { anchor: 2, previous: Some(1), next: Some(3), reverse: true });
    assert_eq!(p.end, 2);
    assert_eq!(p.start_control.opposed_ends(), (0, 2));
    assert_eq!(p.end_control.opposed_ends(), (1, 3));
}

#[test]
fn missing_neighbour_is_the_anchor() {
    let first = plan_segment(3, 1).start_control;
    assert_eq!(first.opposed_ends(), (0, 1));
    let last = plan_segment(3, 2).end_control;
    assert_eq!(last.next, None);
    assert_eq!(last.opposed_ends(), (1, 2));
}

#[test]
fn one_plan_per_point_after_the_first() {
    assert!(plan_path(0).is_empty());
    assert!(plan_path(1).is_empty());
    let plans = plan_path(5);
    assert_eq!(plans.len(), 4);
    for (k, p) in plans.iter().enumerate() {
        assert_eq!(*p, plan_segment(5, k + 1));
    }
}
