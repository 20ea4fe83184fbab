use gig_board::GigError;
use gig_board::GigPayload;
use gig_board::GigService;
use gig_board::GigStatus;

fn payload(title: &str, description: &str, deadline: u64) -> GigPayload {
    GigPayload { title: title.to_string(), description: description.to_string(), deadline }
}

#[test]
fn scenario_full_lifecycle() {
    let mut s = GigService::new().unwrap();

    let g = s.post_gig(payload("Fix bug", "desc", 1000), "A".to_string(), 1).unwrap();
    assert_eq!(g.id, 1);
    assert_eq!(g.status, GigStatus::Open);
    assert_eq!(g.employer, "A");
    assert_eq!(g.title, "Fix bug");
    assert_eq!(g.description, "desc");
    assert_eq!(g.deadline, 1000);
    assert_eq!(g.assigned_to, None);
    assert_eq!(g.created_at, 1);
    assert_eq!(g.updated_at, None);

    let g = s.assign_gig(1, "B".to_string(), "A".to_string(), 2).unwrap();
    assert_eq!(g.id, 1);
    assert_eq!(g.status, GigStatus::Assigned);
    assert_eq!(g.assigned_to, Some("B".to_string()));
    assert_eq!(g.updated_at, Some(2));

    let e = s.assign_gig(1, "C".to_string(), "A".to_string(), 3).unwrap_err();
    assert_eq!(e, GigError::InvalidState);

    let e = s.update_gig(1, payload("x", "y", 9), "B".to_string(), 4).unwrap_err();
    assert_eq!(e, GigError::Unauthorized);

    let g = s.approve_gig(1, "A".to_string(), 5).unwrap();
    assert_eq!(g.id, 1);
    assert_eq!(g.status, GigStatus::Approved);

    let e = s.update_gig(1, payload("x", "y", 9), "A".to_string(), 6).unwrap_err();
    assert_eq!(e, GigError::InvalidState);
}

#[test]
fn post_ids_are_monotonic_from_one() {
    let mut s = GigService::new().unwrap();
    for expected in 1..=5u64 {
        let g = s.post_gig(payload("t", "d", 7), "emp".to_string(), 10).unwrap();
        assert_eq!(g.id, expected);
    }
}

#[test]
fn deleted_id_is_never_reused() {
    let mut s = GigService::new().unwrap();
    for _ in 0..3 {
        s.post_gig(payload("t", "d", 7), "emp".to_string(), 10).unwrap();
    }
    let msg = s.delete_gig(2, "emp".to_string()).unwrap();
    assert_eq!(msg, "Gig deleted successfully");
    assert!(s.get_gig(2).is_none());
    let ids: Vec<u64> = s.get_all_gigs().iter().map(|g| g.id).collect();
    assert_eq!(ids, vec![1, 3]);
    let g = s.post_gig(payload("t", "d", 7), "emp".to_string(), 10).unwrap();
    assert_eq!(g.id, 4);
}

#[test]
fn strangers_are_unauthorized_and_change_nothing() {
    let mut s = GigService::new().unwrap();
    s.post_gig(payload("t", "d", 7), "owner".to_string(), 10).unwrap();

    let e = s.assign_gig(1, "w".to_string(), "intruder".to_string(), 11).unwrap_err();
    assert_eq!(e, GigError::Unauthorized);
    let e = s.approve_gig(1, "intruder".to_string(), 12).unwrap_err();
    assert_eq!(e, GigError::Unauthorized);
    let e = s.update_gig(1, payload("x", "y", 9), "intruder".to_string(), 13).unwrap_err();
    assert_eq!(e, GigError::Unauthorized);
    let e = s.delete_gig(1, "intruder".to_string()).unwrap_err();
    assert_eq!(e, GigError::Unauthorized);

    let g = s.get_gig(1).unwrap();
    assert_eq!(g.title, "t");
    assert_eq!(g.description, "d");
    assert_eq!(g.deadline, 7);
    assert_eq!(g.status, GigStatus::Open);
    assert_eq!(g.assigned_to, None);
    assert_eq!(g.updated_at, None);
}

#[test]
fn missing_ids_report_not_found() {
    let mut s = GigService::new().unwrap();
    assert!(s.get_gig(1).is_none());
    assert_eq!(s.assign_gig(1, "w".to_string(), "a".to_string(), 1).unwrap_err(), GigError::NotFound);
    assert_eq!(s.approve_gig(1, "a".to_string(), 1).unwrap_err(), GigError::NotFound);
    assert_eq!(s.update_gig(1, payload("x", "y", 9), "a".to_string(), 1).unwrap_err(), GigError::NotFound);
    assert_eq!(s.delete_gig(1, "a".to_string()).unwrap_err(), GigError::NotFound);
}

#[test]
fn oversized_record_is_rejected_and_consumes_no_id() {
    let mut s = GigService::new().unwrap();
    let big = "x".repeat(3000);
    let e = s.post_gig(payload(&big, "d", 7), "emp".to_string(), 10).unwrap_err();
    assert_eq!(e, GigError::RecordTooLarge);
    let g = s.post_gig(payload("small", "d", 7), "emp".to_string(), 10).unwrap();
    assert_eq!(g.id, 1);
    let e = s.update_gig(1, payload(&big, "d", 7), "emp".to_string(), 11).unwrap_err();
    assert_eq!(e, GigError::RecordTooLarge);
    assert_eq!(s.get_gig(1).unwrap().title, "small");
}

#[test]
fn approve_is_permissive_about_status() {
    let mut s = GigService::new().unwrap();
    s.post_gig(payload("t", "d", 7), "emp".to_string(), 10).unwrap();
    let g = s.approve_gig(1, "emp".to_string(), 11).unwrap();
    assert_eq!(g.status, GigStatus::Approved);
    let g = s.approve_gig(1, "emp".to_string(), 12).unwrap();
    assert_eq!(g.status, GigStatus::Approved);
    assert_eq!(g.updated_at, Some(12));
}

#[test]
fn update_replaces_fields_and_stamps_time() {
    let mut s = GigService::new().unwrap();
    s.post_gig(payload("t", "d", 7), "emp".to_string(), 10).unwrap();
    let g = s.update_gig(1, payload("t2", "d2", 99), "emp".to_string(), 20).unwrap();
    assert_eq!(g.title, "t2");
    assert_eq!(g.description, "d2");
    assert_eq!(g.deadline, 99);
    assert_eq!(g.updated_at, Some(20));
    assert_eq!(g.status, GigStatus::Open);
    let back = s.get_gig(1).unwrap();
    assert_eq!(back.title, "t2");
    assert_eq!(back.updated_at, Some(20));
}

#[test]
fn list_returns_all_records_in_id_order() {
    let mut s = GigService::new().unwrap();
    s.post_gig(payload("a", "1", 1), "emp".to_string(), 1).unwrap();
    s.post_gig(payload("b", "2", 2), "emp".to_string(), 2).unwrap();
    s.post_gig(payload("c", "3", 3), "emp".to_string(), 3).unwrap();
    let all = s.get_all_gigs();
    assert_eq!(all.len(), 3);
    assert_eq!(all[0].id, 1);
    assert_eq!(all[0].title, "a");
    assert_eq!(all[1].id, 2);
    assert_eq!(all[1].title, "b");
    assert_eq!(all[2].id, 3);
    assert_eq!(all[2].title, "c");
}

#[test]
fn unicode_fields_survive_the_store() {
    let mut s = GigService::new().unwrap();
    let title = "Grüße 你好 🚀";
    let desc = "naïve café";
    s.post_gig(payload(title, desc, 7), "Ωwner".to_string(), 10).unwrap();
    let g = s.get_gig(1).unwrap();
    assert_eq!(g.title, title);
    assert_eq!(g.description, desc);
    assert_eq!(g.employer, "Ωwner");
}

#[test]
fn empty_text_fields_are_accepted() {
    let mut s = GigService::new().unwrap();
    let g = s.post_gig(payload("", "", 0), "emp".to_string(), 0).unwrap();
    assert_eq!(g.title, "");
    assert_eq!(g.description, "");
    let back = s.get_gig(1).unwrap();
    assert_eq!(back.title, "");
    assert_eq!(back.description, "");
    assert_eq!(g.id, 1);
}

#[test]
fn default_status_is_open() {
    assert_eq!(GigStatus::default(), GigStatus::Open);
}

#[test]
fn assigned_worker_is_stored() {
    let mut s = GigService::new().unwrap();
    s.post_gig(payload("t", "d", 7), "emp".to_string(), 10).unwrap();
    s.assign_gig(1, "worker".to_string(), "emp".to_string(), 11).unwrap();
    let g = s.get_gig(1).unwrap();
    assert_eq!(g.status, GigStatus::Assigned);
    assert_eq!(g.assigned_to, Some("worker".to_string()));
    assert_eq!(g.updated_at, Some(11));
}
