use nanvix_bench::breakdown::{break_down, breakdown_lines, raw_payload_line, request, step_line, Step};

#[test]
fn request_has_room_for_all_steps() {
    assert_eq!(request(), vec![0u8; 33]);
}

#[test]
fn steps_are_set_out() {
    let breakdown = break_down(&[2, 5, 0, 3, 1]);
    assert_eq!(
        breakdown.steps,
        vec![
            Step { timestamp: 5, delta: None },
            Step { timestamp: 259, delta: Some(254) },
        ]
    );
    assert_eq!(breakdown.total, Some(254));
}

#[test]
fn clock_may_wrap_around() {
    let breakdown = break_down(&[2, 0xff, 0xff, 0x04, 0x00]);
    assert_eq!(breakdown.steps[1].delta, Some(5));
    assert_eq!(breakdown.total, Some(5));
}

#[test]
fn deltas_add_up_to_the_total() {
    let response: Vec<u8> = (0..33u32).map(|i| (i * 97 % 256) as u8).collect();
    let mut response = response;
    response[0] = 16;
    let breakdown = break_down(&response);
    assert_eq!(breakdown.steps.len(), 16);
    let sum: u32 = breakdown.steps.iter().map(|s| s.delta.unwrap_or(0) as u32).sum();
    assert_eq!(breakdown.total, Some((sum % 65536) as u16));
}

#[test]
fn announced_steps_are_shown_as_far_as_they_are_held() {
    assert_eq!(break_down(&[200, 1, 0, 2, 0, 3]).steps.len(), 2);
    assert_eq!(break_down(&[1, 1, 0, 2, 0]).steps.len(), 1);
    assert_eq!(break_down(&[255; 33]).steps.len(), 16);
}

#[test]
fn no_steps_have_no_total() {
    let breakdown = break_down(&[0, 1, 0]);
    assert!(breakdown.steps.is_empty());
    assert_eq!(breakdown.total, None);
    assert_eq!(break_down(&[3]).total, None);
    assert_eq!(breakdown_lines(&[0]), vec!["Raw Payload: []"]);
}

#[test]
fn step_lines_are_aligned() {
    assert_eq!(
        step_line(0, Step { timestamp: 41, delta: None }),
        "0  | Timestamp    41 us | First Step"
    );
    assert_eq!(
        step_line(12, Step { timestamp: 65535, delta: Some(1) }),
        "12 | Timestamp 65535 us | Delta     1 us"
    );
}

#[test]
fn raw_payload_leaves_the_header_out() {
    assert_eq!(raw_payload_line(&[9]), "Raw Payload: []");
    assert_eq!(raw_payload_line(&[9, 0xab]), "Raw Payload: [\"ab\"]");
    assert_eq!(raw_payload_line(&[9, 1, 2]), "Raw Payload: [\"01\", \"02\"]");
}
