use gig_board::codec::decode_gig;
use gig_board::codec::encode_gig;
use gig_board::Gig;
use gig_board::GigStatus;

fn sample() -> Gig {
    Gig {
        id: 42,
        title: "Fix the 🚪".to_string(),
        description: "hinge squeaks".to_string(),
        employer: "Alice".to_string(),
        deadline: 123456789,
        assigned_to: Some("Bob".to_string()),
        status: GigStatus::Assigned,
        created_at: 11,
        updated_at: Some(22),
    }
}

#[test]
fn encode_then_decode_returns_the_record() {
    let g = sample();
    let bytes = encode_gig(&g);
    let back = decode_gig(&bytes).unwrap();
    assert_eq!(back.id, g.id);
    assert_eq!(back.title, g.title);
    assert_eq!(back.description, g.description);
    assert_eq!(back.employer, g.employer);
    assert_eq!(back.deadline, g.deadline);
    assert_eq!(back.assigned_to, g.assigned_to);
    assert_eq!(back.status, g.status);
    assert_eq!(back.created_at, g.created_at);
    assert_eq!(back.updated_at, g.updated_at);
}

#[test]
fn encode_then_decode_with_absent_options() {
    let mut g = sample();
    g.assigned_to = None;
    g.updated_at = None;
    g.status = GigStatus::Disputed;
    let bytes = encode_gig(&g);
    let back = decode_gig(&bytes).unwrap();
    assert_eq!(back.assigned_to, None);
    assert_eq!(back.updated_at, None);
    assert_eq!(back.status, GigStatus::Disputed);
}

#[test]
fn truncated_or_garbled_bytes_are_rejected() {
    let g = sample();
    let bytes = encode_gig(&g);
    let truncated: Vec<u8> = bytes[..bytes.len() - 1].to_vec();
    assert!(decode_gig(&truncated).is_none());
    let mut extended = bytes.clone();
    extended.push(0);
    assert!(decode_gig(&extended).is_none());
    assert!(decode_gig(&Vec::new()).is_none());
}
