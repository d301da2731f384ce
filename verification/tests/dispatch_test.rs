use replay::{decide, is_bodiless, Decision, DropReason};

#[test]
fn bodiless_methods() {
    assert!(is_bodiless(http::Method::GET.as_str()));
    assert!(is_bodiless(http::Method::HEAD.as_str()));
    assert!(!is_bodiless(http::Method::POST.as_str()));
    assert!(!is_bodiless(http::Method::PUT.as_str()));
    assert!(!is_bodiless(http::Method::DELETE.as_str()));
}

#[test]
fn other_method_tokens_are_not_bodiless() {
    assert!(!is_bodiless("OPTIONS"));
    assert!(!is_bodiless("PATCH"));
    assert!(!is_bodiless("get"));
    assert!(!is_bodiless(""));
    assert!(!is_bodiless("GETX"));
}

#[test]
fn get_with_one_target_is_mirrored() {
    assert_eq!(decide("GET", true, 1, 50), Decision::Mirror { fan_out: 1 });
}

#[test]
fn fan_out_to_every_target() {
    assert_eq!(decide("GET", true, 3, 50), Decision::Mirror { fan_out: 3 });
}

#[test]
fn head_is_mirrored() {
    assert_eq!(decide("HEAD", true, 1, 50), Decision::Mirror { fan_out: 1 });
}

#[test]
fn post_is_dropped_whatever_else() {
    assert_eq!(decide("POST", true, 1, 50), Decision::Drop(DropReason::MethodHasBody));
    assert_eq!(decide("POST", false, 0, 0), Decision::Drop(DropReason::MethodHasBody));
}

#[test]
fn unsampled_is_dropped() {
    assert_eq!(decide("GET", false, 1, 50), Decision::Drop(DropReason::NotSampled));
}

#[test]
fn no_targets_is_dropped() {
    assert_eq!(decide("GET", true, 0, 50), Decision::Drop(DropReason::NoTargets));
}

#[test]
fn more_targets_than_slots_is_dropped_whole() {
    assert_eq!(decide("GET", true, 3, 2), Decision::Drop(DropReason::OverCapacity));
    assert_eq!(decide("GET", true, 2, 2), Decision::Mirror { fan_out: 2 });
}

#[test]
fn no_free_slot_drops() {
    assert_eq!(decide("HEAD", true, 1, 0), Decision::Drop(DropReason::OverCapacity));
}

#[test]
fn freeing_slots_keeps_a_mirrored_request_mirrored() {
    assert_eq!(decide("GET", true, 2, 2), decide("GET", true, 2, 40));
}

#[test]
fn more_targets_than_the_limit_are_never_mirrored() {
    // limit 2: free slots never exceed it, so three targets never fit
    for free in 0..=2 {
        assert_eq!(decide("GET", true, 3, free), Decision::Drop(DropReason::OverCapacity));
    }
}
