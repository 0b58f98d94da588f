use gpgmime::armor::{armor_decode, armor_encode};
use gpgmime::base64::b64_encode_bytes;
use gpgmime::bytes::contains_sub;
use gpgmime::crc24::{crc24, crc24_to_bytes};
use gpgmime::envelope::{build_email, check_addr, check_subject, encrypt_mail, MailError, Settings};

fn s(text: &str) -> Vec<u8> {
    text.as_bytes().to_vec()
}

fn settings() -> Settings {
    Settings {
        from: s("foo@bar.com"),
        to: s("merman@greyskull.com"),
        subject: s("Skeletor is looking a bit pale"),
        path: s("msg.gpg"),
    }
}

const NOW: u64 = 1665589737;
const NONCE: u64 = 0x1dc0ff8081f726a3;

#[test]
fn crc24_of_empty_is_initial_value() {
    assert_eq!(crc24(&Vec::new()), 0xB704CE);
}

#[test]
fn crc24_known_vector() {
    assert_eq!(crc24(&s("hello world")), 0xB03CB7);
    assert_eq!(crc24_to_bytes(0xB03CB7), vec![0xB0, 0x3C, 0xB7]);
}

#[test]
fn base64_known_vector() {
    assert_eq!(b64_encode_bytes(&s("hello world")), s("aGVsbG8gd29ybGQ="));
    assert_eq!(b64_encode_bytes(&Vec::new()), Vec::<u8>::new());
}

#[test]
fn armor_of_empty_message_is_a_complete_block() {
    let armored = armor_encode(&Vec::new());
    assert_eq!(
        armored,
        s("-----BEGIN PGP MESSAGE-----\n\n=twTO\n-----END PGP MESSAGE-----\n")
    );
}

#[test]
fn armor_checksum_line_matches_crc24() {
    let armored = String::from_utf8(armor_encode(&s("hello world"))).unwrap();
    assert!(armored.contains("\n=sDy3\n"));
}

#[test]
fn armor_round_trip() {
    let mut data = Vec::new();
    for round in 0..2u32 {
        for b in 0..=255u8 {
            data.push(b.wrapping_add(round as u8));
        }
    }
    data.push(7);
    let armored = armor_encode(&data);
    assert_eq!(armor_decode(&armored), Some(data));
}

#[test]
fn armor_round_trip_short_payloads() {
    for len in 0..9usize {
        let data: Vec<u8> = (0..len as u8).collect();
        assert_eq!(armor_decode(&armor_encode(&data)), Some(data));
    }
}

#[test]
fn armor_body_lines_wrap_at_64() {
    let data: Vec<u8> = (0..100u8).collect();
    let armored = String::from_utf8(armor_encode(&data)).unwrap();
    for line in armored.lines() {
        assert!(line.len() <= 64);
    }
}

#[test]
fn armor_decode_rejects_garbage() {
    assert_eq!(armor_decode(&s("banana")), None);
    let mut tampered = armor_encode(&s("hello world"));
    let pos = tampered.len() - 32;
    tampered[pos + 1] ^= 1;
    assert_eq!(armor_decode(&tampered), None);
}

#[test]
fn address_validation() {
    assert!(check_addr(&s("a@b")));
    assert!(check_addr(&s("foo@bar.com")));
    assert!(!check_addr(&s("no-at-sign")));
    assert!(!check_addr(&s("two@at@signs")));
    assert!(!check_addr(&s("@leading")));
    assert!(!check_addr(&s("trailing@")));
    assert!(!check_addr(&s("spaced name@example.com")));
    assert!(!check_addr(&s("a<b>@example.com")));
    assert!(check_subject(&s("")));
    assert!(check_subject(&s("Skeletor is looking a bit pale")));
    assert!(!check_subject(&s("line\nbreak")));
}

#[test]
fn build_email_rejects_bad_sender() {
    let mut st = settings();
    st.from = s("not-an-address");
    let armored = armor_encode(&s("x"));
    assert_eq!(build_email(&st, &armored, NOW, NONCE), Err(MailError::Validation));
}

#[test]
fn build_email_rejects_header_injection_subject() {
    let mut st = settings();
    st.subject = s("hi\r\nBcc: sneaky@example.com");
    let armored = armor_encode(&s("x"));
    assert_eq!(build_email(&st, &armored, NOW, NONCE), Err(MailError::Validation));
}

#[test]
fn email_has_two_parts_in_order_with_protocol_and_disposition() {
    let armored = armor_encode(&s("the quick brown fox"));
    let email = build_email(&settings(), &armored, NOW, NONCE).unwrap();
    let text = String::from_utf8(email).unwrap();

    assert!(text.contains("From: foo@bar.com\r\n"));
    assert!(text.contains("To: merman@greyskull.com\r\n"));
    assert!(text.contains("Subject: Skeletor is looking a bit pale\r\n"));
    assert!(text.contains(
        "Content-Type: multipart/encrypted; protocol=\"application/pgp-encrypted\"; boundary=\""
    ));
    assert!(text.contains("Content-Disposition: inline\r\n"));
    assert!(text.contains("Date: Wed, 12 Oct 2022 15:48:57 +0000\r\n"));

    let version_part = text.find("Content-Type: application/pgp-encrypted").unwrap();
    let octet_part = text.find("Content-Type: application/octet-stream").unwrap();
    assert!(version_part < octet_part);
    assert!(text.contains("Version: 1\r\n"));
    assert!(text[octet_part..].contains("-----BEGIN PGP MESSAGE-----"));

    let bnd_start = text.find("boundary=\"").unwrap() + "boundary=\"".len();
    let bnd_end = bnd_start + text[bnd_start..].find('"').unwrap();
    let bnd = &text[bnd_start..bnd_end];
    let opener = format!("--{}\r\n", bnd);
    let closer = format!("--{}--\r\n", bnd);
    assert_eq!(text.matches(&opener).count(), 2);
    assert!(text.ends_with(&closer));
}

#[test]
fn message_id_has_fixed_shape() {
    let armored = armor_encode(&s("x"));
    let email = build_email(&settings(), &armored, NOW, NONCE).unwrap();
    let text = String::from_utf8(email).unwrap();
    let start = text.find("Message-ID: <").unwrap() + "Message-ID: <".len();
    let end = start + text[start..].find('>').unwrap();
    let id = &text[start..end];
    let halves: Vec<&str> = id.split('@').collect();
    assert_eq!(halves.len(), 2);
    assert_eq!(halves[1], "gpgmime");
    let digits: Vec<&str> = halves[0].split('.').collect();
    assert_eq!(digits.len(), 2);
    assert_eq!(digits[0].len(), 16);
    assert_eq!(digits[1].len(), 16);
    assert!(digits.iter().all(|d| d.chars().all(|c| c.is_ascii_hexdigit())));
    assert_eq!(digits[0], format!("{:016x}", NOW));
    assert_eq!(digits[1], format!("{:016x}", NONCE));
}

#[test]
fn date_handles_leap_day() {
    let armored = armor_encode(&s("x"));
    let email = build_email(&settings(), &armored, 951782400, NONCE).unwrap();
    let text = String::from_utf8(email).unwrap();
    assert!(text.contains("Date: Tue, 29 Feb 2000 00:00:00 +0000\r\n"));
}

#[test]
fn boundary_avoids_equals_runs_in_bodies() {
    let tricky = s("====== a body full of = and ==== runs =======");
    let version = s("Version: 1");
    let bnd = gpgmime::envelope::boundary_for(&version, &tricky);
    assert!(bnd.len() >= 1);
    assert!(bnd.iter().all(|&b| b == b'='));
    assert!(!contains_sub(&tricky, &bnd));
    assert!(!contains_sub(&version, &bnd));
}

#[test]
fn boundary_never_in_either_part_body() {
    let mut payload = s("=");
    for _ in 0..6 {
        let next = payload.clone();
        payload.extend(next);
    }
    let armored = armor_encode(&payload);
    let email = build_email(&settings(), &armored, NOW, NONCE).unwrap();
    let text = String::from_utf8(email).unwrap();
    let bnd_start = text.find("boundary=\"").unwrap() + "boundary=\"".len();
    let bnd_end = bnd_start + text[bnd_start..].find('"').unwrap();
    let bnd = s(&text[bnd_start..bnd_end]);
    assert!(!contains_sub(&armored, &bnd));
    assert!(!contains_sub(&s("Version: 1"), &bnd));
}

#[test]
fn encrypt_mail_of_empty_message_succeeds() {
    let email = encrypt_mail(&settings(), &Vec::new(), NOW, NONCE).unwrap();
    let text = String::from_utf8(email).unwrap();
    assert!(text.contains("-----BEGIN PGP MESSAGE-----\n\n=twTO\n-----END PGP MESSAGE-----\n"));
    assert!(text.contains("Content-Type: multipart/encrypted"));
}

#[test]
fn encrypt_mail_carries_full_armor_text() {
    let msg = s("pretend ciphertext bytes");
    let armored = armor_encode(&msg);
    let email = encrypt_mail(&settings(), &msg, NOW, NONCE).unwrap();
    let text = String::from_utf8(email).unwrap();
    let armored_text = String::from_utf8(armored).unwrap();
    assert!(text.contains(&armored_text));
}
