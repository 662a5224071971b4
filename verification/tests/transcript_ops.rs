use two_round_fully_adaptive::scalar::Scalar;
use two_round_fully_adaptive::transcript::ProofTranscript;

#[test]
fn challenges_follow_merlin() {
    let mut t = ProofTranscript::new(b"Label");
    t.append_message(b"msg", b"hello");
    t.append_u64(b"n", 7);
    let c = t.challenge_scalar(b"c");

    let mut m = merlin::Transcript::new(b"Label");
    m.append_message(b"msg", b"hello");
    m.append_message(b"n", &7u64.to_le_bytes());
    let mut buf = [0u8; 64];
    m.challenge_bytes(b"c", &mut buf);
    assert_eq!(c, Scalar::from_bytes_mod_order_wide(&buf));

    let mut t2 = ProofTranscript::new(b"Label");
    t2.append_message(b"msg", b"hellp");
    t2.append_u64(b"n", 7);
    assert_ne!(t2.challenge_scalar(b"c"), c);
}
