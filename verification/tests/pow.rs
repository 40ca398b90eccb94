use cumments::identity::hmac_sha256;
use cumments::pow::{
    digest_meets_difficulty, seconds_of, sign, solve_pow, split_challenge, work_done, PowGuard,
};
use sha2::Digest;

fn mine(challenge: &str) -> String {
    let n = solve_pow(challenge, 10_000_000).expect("an answer below the limit");
    n.to_string()
}

#[test]
fn test_pow_flow() {
    let mut guard = PowGuard::new();

    let secret = guard.generate_challenge();
    assert!(!secret.is_empty());

    let difficulty = 4;
    let prefix = "0".repeat(difficulty);
    let mut nonce = 0;
    loop {
        let input = format!("{}{}", secret, nonce);
        let hash = hex::encode(sha2::Sha256::digest(input));
        if hash.starts_with(&prefix) {
            break;
        }
        nonce += 1;
    }

    let nonce_str = nonce.to_string();
    assert!(guard.verify(&secret, &nonce_str));

    assert!(!guard.verify(&secret, "999999999999"));

    assert!(!guard.verify(&secret, &nonce_str));
}

#[test]
fn challenge_has_time_random_and_signature() {
    let guard = PowGuard::with_secret("pow_secret_change_me");
    let c = guard.challenge_at(1_700_000_000, &[0x00, 0x01, 0xab, 0xff]);
    let (time, random, signature) = split_challenge(&c).unwrap();
    assert_eq!(time, "1700000000");
    assert_eq!(random, "0001abff");
    let mac = hmac_sha256(b"pow_secret_change_me", b"1700000000.0001abff");
    assert_eq!(signature, hex::encode(mac));
    assert_eq!(c, format!("1700000000.0001abff.{}", signature));
}

#[test]
fn generated_challenges_carry_sixteen_random_bytes() {
    let guard = PowGuard::with_secret("s");
    let a = guard.generate_challenge();
    let b = guard.generate_challenge();
    let (_, random_a, sig_a) = split_challenge(&a).unwrap();
    let (_, random_b, _) = split_challenge(&b).unwrap();
    assert_eq!(random_a.len(), 32);
    assert_eq!(sig_a.len(), 64);
    assert_ne!(random_a, random_b);
}

#[test]
fn answer_is_taken_once() {
    let mut guard = PowGuard::with_secret("secret");
    let c = guard.challenge_at(1000, &[1, 2, 3]);
    let answer = mine(&c);
    assert!(work_done(&c, &answer));
    assert!(guard.verify_at(&c, &answer, 1010));
    assert!(!guard.verify_at(&c, &answer, 1011));
    assert!(!guard.verify_at(&c, &answer, 1010));
}

#[test]
fn answer_without_work_is_refused_and_uses_nothing_up() {
    let mut guard = PowGuard::with_secret("secret");
    let c = guard.challenge_at(1000, &[1, 2, 3]);
    let answer = mine(&c);
    let mut wrong = 0u64;
    while work_done(&c, &wrong.to_string()) {
        wrong += 1;
    }
    assert!(!guard.verify_at(&c, &wrong.to_string(), 1000));
    assert!(guard.verify_at(&c, &answer, 1000));
}

#[test]
fn old_challenge_is_refused() {
    let mut guard = PowGuard::with_secret("secret");
    let c = guard.challenge_at(1000, &[9]);
    let answer = mine(&c);
    assert!(!guard.verify_at(&c, &answer, 1301));
    let mut guard = PowGuard::with_secret("secret");
    assert!(guard.verify_at(&c, &answer, 1300));
}

#[test]
fn challenge_from_the_future_is_refused() {
    let c = PowGuard::with_secret("secret").challenge_at(1000, &[9]);
    let answer = mine(&c);
    let mut guard = PowGuard::with_secret("secret");
    assert!(!guard.verify_at(&c, &answer, 969));
    let mut guard = PowGuard::with_secret("secret");
    assert!(guard.verify_at(&c, &answer, 970));
}

#[test]
fn the_clock_of_the_guard_does_not_run_backwards() {
    let mut guard = PowGuard::with_secret("secret");
    let old = guard.challenge_at(1000, &[1]);
    let old_answer = mine(&old);
    let new = guard.challenge_at(2000, &[2]);
    let new_answer = mine(&new);
    assert!(guard.verify_at(&new, &new_answer, 2000));
    // the clock has shown 2000: a reading of 1000 does not bring the old challenge back
    assert!(!guard.verify_at(&old, &old_answer, 1000));
}

#[test]
fn changed_signature_is_refused() {
    let mut guard = PowGuard::with_secret("secret");
    let c = guard.challenge_at(1000, &[7, 7]);
    let last = c.chars().last().unwrap();
    let flipped = if last == '0' { '1' } else { '0' };
    let mut forged = c[..c.len() - 1].to_string();
    forged.push(flipped);
    let answer = mine(&forged);
    assert!(!guard.verify_at(&forged, &answer, 1000));
    let answer = mine(&c);
    assert!(guard.verify_at(&c, &answer, 1000));
}

#[test]
fn challenge_of_another_guard_is_refused() {
    let c = PowGuard::with_secret("one").challenge_at(1000, &[7]);
    let answer = mine(&c);
    let mut other = PowGuard::with_secret("two");
    assert!(!other.verify_at(&c, &answer, 1000));
}

#[test]
fn text_that_is_no_challenge_is_refused() {
    let mut guard = PowGuard::with_secret("secret");
    assert!(!guard.verify_at("", "0", 1000));
    assert!(!guard.verify_at("1000.ab", "0", 1000));
    assert!(!guard.verify_at("1000.ab.cd.ef", "0", 1000));
    assert!(split_challenge("a.b").is_none());
    assert!(split_challenge("a.b.c.d").is_none());
    assert_eq!(
        split_challenge("a..c"),
        Some(("a".to_string(), "".to_string(), "c".to_string()))
    );
}

#[test]
fn solve_pow_finds_the_least_answer() {
    let c = "1000.00.ff";
    let n = solve_pow(c, 10_000_000).unwrap();
    assert!(work_done(c, &n.to_string()));
    for m in 0..n.min(2000) {
        assert!(!work_done(c, &m.to_string()));
    }
    assert_eq!(solve_pow(c, n), None);
    assert_eq!(solve_pow(c, n + 1), Some(n));
    let hash = hex::encode(sha2::Sha256::digest(format!("{}{}", c, n)));
    assert!(hash.starts_with("0000"));
}

#[test]
fn hmac_sha256_known_values() {
    let mac = hmac_sha256(&[0x0b; 20], b"Hi There");
    assert_eq!(
        hex::encode(mac),
        "b0344c61d8db38535ca8afceaf0bf12b881dc200c9833da726e9376c2e32cff7"
    );
    let mac = hmac_sha256(b"Jefe", b"what do ya want for nothing?");
    assert_eq!(
        hex::encode(mac),
        "5bdcc146bf60754e6a042426089575c75a003f089d2739839dec58b964ec3843"
    );
    let mac = hmac_sha256(
        &[0xaa; 131],
        b"Test Using Larger Than Block-Size Key - Hash Key First",
    );
    assert_eq!(
        hex::encode(mac),
        "60e431591ee0b67f0d8a26aacbf5b77f8e0bc6213728c5140546040f0ee37f54"
    );
}

#[test]
fn clock_is_read_in_seconds() {
    assert_eq!(seconds_of(1_700_000_000_999), 1_700_000_000);
    assert_eq!(seconds_of(999), 0);
    assert_eq!(seconds_of(0), 0);
    assert_eq!(seconds_of(-5_000), 0);
    assert_eq!(seconds_of(i64::MAX), 9_223_372_036_854_775);
}

#[test]
fn difficulty_is_four_zero_digits() {
    assert!(digest_meets_difficulty(&[0, 0, 0xff]));
    assert!(digest_meets_difficulty(&[0, 0]));
    assert!(!digest_meets_difficulty(&[0, 0x01, 0]));
    assert!(!digest_meets_difficulty(&[0, 0x10, 0]));
    assert!(!digest_meets_difficulty(&[0x10, 0, 0]));
    assert!(!digest_meets_difficulty(&[0]));
    assert!(!digest_meets_difficulty(&[]));
}

#[test]
fn signature_is_the_keyed_digest_of_time_and_random_part() {
    let s = sign(b"key", "12", "ab");
    assert_eq!(s, hex::encode(hmac_sha256(b"key", b"12.ab")));
    assert_ne!(s, sign(b"key", "1", "2ab"));
}
