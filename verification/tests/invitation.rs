use authcore::invitation::{Invitation, InvitationCode, InvitationKey, IssueError};
use authcore::rng::CryptoRng;
use authcore::time::{DateTime, Duration};

const T0: i128 = 1_700_000_000_000_000_000;

fn at(nanos: i128) -> DateTime {
    DateTime::from_unix_timestamp_nanos(nanos).unwrap()
}

fn fixed_key() -> InvitationKey {
    InvitationKey::parse("AAECAwQFBgcICQoLDA0ODxAREhMUFRYXGBkaGxwdHh8=").unwrap()
}

#[test]
fn new_invitation_lasts_one_day() {
    let invitation = Invitation::new("alice", at(T0)).unwrap();
    assert_eq!(invitation.username, "alice");
    assert_eq!(
        invitation.expiration().unix_timestamp_nanos(),
        T0 + 86_400_000_000_000
    );
}

#[test]
fn admin_invitation_lasts_ten_minutes() {
    let invitation = Invitation::admin("root", at(T0)).unwrap();
    assert_eq!(invitation.username, "root");
    assert_eq!(
        invitation.expiration().unix_timestamp_nanos(),
        T0 + 600_000_000_000
    );
}

#[test]
fn invitation_with_a_lifetime_beyond_the_range_is_not_made() {
    let latest = at(75_557_863_725_914_323_419_135);
    assert!(Invitation::new("alice", latest).is_none());
    assert!(Invitation::admin("alice", latest).is_none());
    assert!(Invitation::with_lifetime("alice", Duration::zero(), latest).is_some());
}

#[test]
fn invitation_counts_only_before_its_expiry() {
    let invitation = Invitation::with_lifetime("alice", Duration::seconds(10), at(T0)).unwrap();
    assert!(!invitation.is_expired(at(T0)));
    assert!(!invitation.is_expired(at(T0 + 9_999_999_999)));
    assert!(invitation.is_expired(at(T0 + 10_000_000_000)));
    assert!(invitation.is_expired(at(T0 + 10_000_000_001)));
}

#[test]
fn invitation_survives_its_stored_form() {
    let invitation = Invitation::with_lifetime("zoë", Duration::seconds(1), at(T0 + 5)).unwrap();
    let payload = invitation.to_payload();
    assert_eq!(payload.len(), 16 + 4);
    let back = Invitation::from_payload(&payload).unwrap();
    assert_eq!(back.username, "zoë");
    assert_eq!(
        back.expiration().unix_timestamp_nanos(),
        T0 + 1_000_000_005
    );
    assert_eq!(back.into_username(), "zoë");
}

#[test]
fn stored_form_that_is_no_invitation_is_refused() {
    assert!(Invitation::from_payload(&[]).is_none());
    assert!(Invitation::from_payload(&[0u8; 15]).is_none());
    let mut payload = Invitation::new("a", at(T0)).unwrap().to_payload();
    payload.push(0xc0);
    assert!(Invitation::from_payload(&payload).is_none());
}

#[test]
fn key_reads_back_from_its_printed_form() {
    let mut rng = CryptoRng::new();
    let key = InvitationKey::generate(&mut rng);
    let text = key.display().to_string();
    assert_eq!(text.len(), 44);
    let back = InvitationKey::parse(&text).unwrap();
    assert_eq!(back.display().to_string(), text);
    let parsed: InvitationKey = text.parse().unwrap();
    assert_eq!(parsed.display().to_string(), text);
}

#[test]
fn key_of_the_wrong_length_is_refused() {
    assert!(InvitationKey::parse("").is_err());
    assert!(InvitationKey::parse("AAECAwQFBgcICQoLDA0ODxAREhMUFRYXGBkaGxwdHg==").is_err());
    assert!(InvitationKey::parse("AAECAwQFBgcICQoLDA0ODxAREhMUFRYXGBkaGxwdHh8g").is_err());
    let error = InvitationKey::parse("not base64!").err().unwrap();
    assert_eq!(error.message(), "Invalid invitation key");
}

#[test]
fn code_is_two_base64_segments_joined_by_a_period() {
    let code = InvitationCode::from_parts(b"hello", &[7u8; 64]);
    let text = code.as_str();
    let (first, second) = text.split_once('.').unwrap();
    assert_eq!(first, "aGVsbG8=");
    assert_eq!(second.len(), 88);
    assert!(!second.contains('.'));
    let (payload, signature) = code.into_parts().unwrap();
    assert_eq!(payload, b"hello");
    assert_eq!(signature, vec![7u8; 64]);
}

#[test]
fn code_without_a_period_is_refused() {
    assert!(InvitationCode::new("aGVsbG8=".to_string()).into_parts().is_err());
    assert!(InvitationCode::new(String::new()).into_parts().is_err());
}

#[test]
fn code_with_a_signature_of_the_wrong_length_is_refused() {
    let code = InvitationCode::from_parts(b"hello", &[7u8; 63]);
    assert!(code.into_parts().is_err());
    let code = InvitationCode::from_parts(b"hello", &[7u8; 65]);
    assert!(code.into_parts().is_err());
}

#[test]
fn code_with_bad_base64_is_refused() {
    let good = InvitationCode::from_parts(b"hello", &[7u8; 64]);
    let (_, signature) = good.as_str().split_once('.').unwrap();
    assert!(InvitationCode::new(format!("aGVsbG8.{signature}"))
        .into_parts()
        .is_err());
    assert!(InvitationCode::new(format!("aGVs*G8=.{signature}"))
        .into_parts()
        .is_err());
    assert!(InvitationCode::new(format!("aGVsbG8=.{signature}é"))
        .into_parts()
        .is_err());
    assert!(InvitationCode::new("aGVsbG8=.".to_string())
        .into_parts()
        .is_err());
    assert!(InvitationCode::new(format!("aGVsbG8=.{signature}.{signature}"))
        .into_parts()
        .is_err());
}

#[test]
fn signing_is_deterministic() {
    let key = fixed_key();
    let invitation = Invitation::new("alice", at(T0)).unwrap();
    let first = key.sign(&invitation);
    let second = key.sign(&invitation);
    assert_eq!(first.as_str(), second.as_str());
    let other = Invitation::new("alicf", at(T0)).unwrap();
    assert_ne!(first.as_str(), key.sign(&other).as_str());
}

#[test]
fn invitation_round_trip() {
    let mut rng = CryptoRng::new();
    let key = InvitationKey::generate(&mut rng);
    for username in ["alice", "", "zoë", "a.b", "user with spaces"] {
        let invitation = Invitation::new(username, at(T0)).unwrap();
        let code = key.sign(&invitation);
        let verified = key.verify(&code, at(T0)).ok().unwrap();
        assert_eq!(verified.username, username);
        assert_eq!(
            verified.expiration().unix_timestamp_nanos(),
            T0 + 86_400_000_000_000
        );
        let just_before = at(T0 + 86_400_000_000_000 - 1);
        assert_eq!(
            key.verify(&code, just_before).ok().unwrap().username,
            username
        );
    }
}

#[test]
fn issued_code_round_trip() {
    let key = fixed_key();
    let code = key
        .issue("alice", Duration::minutes(10), at(T0))
        .ok()
        .unwrap();
    let verified = key.verify(&code, at(T0 + 1)).ok().unwrap();
    assert_eq!(verified.username, "alice");
    assert_eq!(
        verified.expiration().unix_timestamp_nanos(),
        T0 + 600_000_000_000
    );
}

#[test]
fn issue_fails_where_the_expiry_is_out_of_range() {
    let key = fixed_key();
    let latest = at(75_557_863_725_914_323_419_135);
    let error = key
        .issue("alice", Duration::seconds(1), latest)
        .err()
        .unwrap();
    assert_eq!(error, IssueError::ExpiryOutOfRange);
}

#[test]
fn invitation_expiry() {
    let key = fixed_key();
    let code = key
        .issue("alice", Duration::seconds(30), at(T0))
        .ok()
        .unwrap();
    assert!(key.verify(&code, at(T0 + 29_999_999_999)).is_ok());
    assert!(key.verify(&code, at(T0 + 30_000_000_000)).is_err());
    assert!(key.verify(&code, at(T0 + 30_000_000_001)).is_err());
    assert!(key.verify(&code, at(T0 + 86_400_000_000_000)).is_err());
}

#[test]
fn invitation_tamper_sensitivity() {
    let key = fixed_key();
    let code = key
        .issue("alice", Duration::hours(24), at(T0))
        .ok()
        .unwrap();
    let text = code.as_str().to_string();
    assert!(key.verify(&code, at(T0)).is_ok());
    for position in 0..text.len() {
        let genuine = text.as_bytes()[position];
        for replacement in [b'A', b'B', b'_', b'9'] {
            if replacement == genuine {
                continue;
            }
            let mut bytes = text.clone().into_bytes();
            bytes[position] = replacement;
            let tampered = InvitationCode::new(String::from_utf8(bytes).unwrap());
            assert!(
                key.verify(&tampered, at(T0)).is_err(),
                "position {position} replaced by {replacement}"
            );
        }
    }
}

#[test]
fn code_signed_with_another_key_is_refused() {
    let mut rng = CryptoRng::new();
    let key = fixed_key();
    let other = InvitationKey::generate(&mut rng);
    let code = other
        .issue("alice", Duration::hours(24), at(T0))
        .ok()
        .unwrap();
    assert!(other.verify(&code, at(T0)).is_ok());
    assert!(key.verify(&code, at(T0)).is_err());
}

#[test]
fn signed_bytes_that_are_no_invitation_are_refused() {
    let key = fixed_key();
    let invitation = Invitation::new("alice", at(T0)).unwrap();
    let code = key.sign(&invitation);
    let (_, signature) = code.into_parts().unwrap();
    let forged = InvitationCode::from_parts(b"short", &signature);
    assert!(key.verify(&forged, at(T0)).is_err());
}
