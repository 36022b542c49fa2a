use ack_window::ExternalAcks;

#[test]
fn acking_single_packet() {
    let mut acks: ExternalAcks = Default::default();
    acks.ack(0);

    assert_eq!(acks.last_seq, 0);
    assert_eq!(acks.field, 0);
}

#[test]
fn acking_several_packets() {
    let mut acks: ExternalAcks = Default::default();
    acks.ack(0);
    acks.ack(1);
    acks.ack(2);

    assert_eq!(acks.last_seq, 2);
    assert_eq!(acks.field, 0b11);
}

#[test]
fn acking_several_packets_out_of_order() {
    let mut acks: ExternalAcks = Default::default();
    acks.ack(1);
    acks.ack(0);
    acks.ack(2);

    assert_eq!(acks.last_seq, 2);
    assert_eq!(acks.field, 0b11);
}

#[test]
fn acking_a_nearly_full_set_of_packets() {
    let mut acks: ExternalAcks = Default::default();

    for i in 0..32 {
        acks.ack(i);
    }

    assert_eq!(acks.last_seq, 31);
    assert_eq!(acks.field, !0 >> 1);
}

#[test]
fn acking_a_full_set_of_packets() {
    let mut acks: ExternalAcks = Default::default();

    for i in 0..33 {
        acks.ack(i);
    }

    assert_eq!(acks.last_seq, 32);
    assert_eq!(acks.field, !0);
}

#[test]
fn acking_to_the_edge_forward() {
    let mut acks: ExternalAcks = Default::default();
    acks.ack(0);
    acks.ack(32);

    assert_eq!(acks.last_seq, 32);
    assert_eq!(acks.field, 1 << 31);
}

#[test]
fn acking_too_far_forward() {
    let mut acks: ExternalAcks = Default::default();
    acks.ack(0);
    acks.ack(1);
    acks.ack(34);

    assert_eq!(acks.last_seq, 34);
    assert_eq!(acks.field, 0);
}

#[test]
fn acking_a_whole_buffer_too_far_forward() {
    let mut acks: ExternalAcks = Default::default();
    acks.ack(0);
    acks.ack(60);

    assert_eq!(acks.last_seq, 60);
    assert_eq!(acks.field, 0);
}

#[test]
fn acking_too_far_backward() {
    let mut acks: ExternalAcks = Default::default();
    acks.ack(33);
    acks.ack(0);

    assert_eq!(acks.last_seq, 33);
    assert_eq!(acks.field, 0);
}

#[test]
fn acking_around_zero() {
    let mut acks: ExternalAcks = Default::default();

    for i in 0..33_u16 {
        acks.ack(i.wrapping_sub(16));
    }
    assert_eq!(acks.last_seq, 16);
    assert_eq!(acks.field, !0);
}

#[test]
fn ignores_old_packets() {
    let mut acks: ExternalAcks = Default::default();
    acks.ack(40);
    acks.ack(0);
    assert_eq!(acks.last_seq, 40);
    assert_eq!(acks.field, 0);
}

#[test]
fn ignores_really_old_packets() {
    let mut acks: ExternalAcks = Default::default();
    acks.ack(30000);
    acks.ack(0);
    assert_eq!(acks.last_seq, 30000);
    assert_eq!(acks.field, 0);
}

#[test]
fn skips_missing_acks_correctly() {
    let mut acks: ExternalAcks = Default::default();
    acks.ack(0);
    acks.ack(1);
    acks.ack(6);
    acks.ack(4);
    assert_eq!(acks.last_seq, 6);
    assert_eq!(acks.field, 0b110010);
}
