use jks::{Certificate, KeyStore, PrivateKeyEntry, TrustedCertificateEntry};
use mock_api::tls::tls_material;

fn cert(bytes: &[u8]) -> Certificate {
    Certificate { cert_type: "X509".to_string(), content: bytes.to_vec() }
}

fn keystore_with_key(key_password: &str, chain: Vec<Certificate>) -> Vec<u8> {
    let mut store = KeyStore::new();
    store
        .set_private_key_entry(
            "server",
            PrivateKeyEntry {
                creation_time: std::time::SystemTime::UNIX_EPOCH,
                private_key: vec![1, 2, 3, 4],
                certificate_chain: chain,
            },
            key_password.as_bytes(),
        )
        .unwrap();
    let mut out = Vec::new();
    store.store(&mut out, b"changeit").unwrap();
    out
}

#[test]
fn tls_material_chain_and_key() {
    let bytes = keystore_with_key("changeit", vec![cert(&[9, 9]), cert(&[8])]);
    let (chain, key) = tls_material("ks.jks", &bytes, "changeit", None).unwrap();
    assert_eq!(chain, vec![vec![9, 9], vec![8]]);
    assert_eq!(key, vec![1, 2, 3, 4]);
}

#[test]
fn tls_material_distinct_key_password() {
    let bytes = keystore_with_key("keypass123", vec![cert(&[7])]);
    let (chain, key) = tls_material("ks.jks", &bytes, "changeit", Some("keypass123")).unwrap();
    assert_eq!(chain, vec![vec![7]]);
    assert_eq!(key, vec![1, 2, 3, 4]);
    let err = tls_material("ks.jks", &bytes, "changeit", None).unwrap_err();
    assert!(err.starts_with("failed to decrypt private key entry 'server' (check key_password): "));
}

#[test]
fn tls_material_wrong_keystore_password() {
    let bytes = keystore_with_key("changeit", vec![cert(&[7])]);
    let err = tls_material("ks.jks", &bytes, "wrongpass", None).unwrap_err();
    assert!(err.starts_with("failed to load keystore 'ks.jks' (check keystore_password): "));
}

#[test]
fn tls_material_no_private_key() {
    let mut store = KeyStore::new();
    store
        .set_trusted_certificate_entry(
            "ca",
            TrustedCertificateEntry {
                creation_time: std::time::SystemTime::UNIX_EPOCH,
                certificate: cert(&[5]),
            },
        )
        .unwrap();
    let mut bytes = Vec::new();
    store.store(&mut bytes, b"changeit").unwrap();
    assert_eq!(
        tls_material("ks.jks", &bytes, "changeit", None),
        Err("keystore 'ks.jks' contains no private key entry".to_string())
    );
}

#[test]
fn tls_material_empty_chain() {
    let bytes = keystore_with_key("changeit", vec![]);
    assert_eq!(
        tls_material("ks.jks", &bytes, "changeit", None),
        Err("private key entry 'server' has no certificate chain".to_string())
    );
}

fn sha1(data: &[u8]) -> [u8; 20] {
    let mut h: [u32; 5] = [0x67452301, 0xEFCDAB89, 0x98BADCFE, 0x10325476, 0xC3D2E1F0];
    let mut msg = data.to_vec();
    let bit_len = (data.len() as u64) * 8;
    msg.push(0x80);
    while msg.len() % 64 != 56 {
        msg.push(0);
    }
    msg.extend_from_slice(&bit_len.to_be_bytes());
    for block in msg.chunks(64) {
        let mut w = [0u32; 80];
        for i in 0..16 {
            w[i] = u32::from_be_bytes([block[4 * i], block[4 * i + 1], block[4 * i + 2], block[4 * i + 3]]);
        }
        for i in 16..80 {
            w[i] = (w[i - 3] ^ w[i - 8] ^ w[i - 14] ^ w[i - 16]).rotate_left(1);
        }
        let (mut a, mut b, mut c, mut d, mut e) = (h[0], h[1], h[2], h[3], h[4]);
        for (i, wi) in w.iter().enumerate() {
            let (f, k) = match i {
                0..=19 => ((b & c) | (!b & d), 0x5A827999),
                20..=39 => (b ^ c ^ d, 0x6ED9EBA1),
                40..=59 => ((b & c) | (b & d) | (c & d), 0x8F1BBCDC),
                _ => (b ^ c ^ d, 0xCA62C1D6),
            };
            let t = a.rotate_left(5).wrapping_add(f).wrapping_add(e).wrapping_add(k).wrapping_add(*wi);
            e = d;
            d = c;
            c = b.rotate_left(30);
            b = a;
            a = t;
        }
        h[0] = h[0].wrapping_add(a);
        h[1] = h[1].wrapping_add(b);
        h[2] = h[2].wrapping_add(c);
        h[3] = h[3].wrapping_add(d);
        h[4] = h[4].wrapping_add(e);
    }
    let mut out = [0u8; 20];
    for i in 0..5 {
        out[4 * i..4 * i + 4].copy_from_slice(&h[i].to_be_bytes());
    }
    out
}

/// A version-2 JKS keystore with one private key entry "server" whose stored
/// key bytes are `stored_key`, sealed with the password "changeit".
fn raw_keystore(stored_key: &[u8]) -> Vec<u8> {
    let mut body = Vec::new();
    body.extend_from_slice(&0xfeedfeedu32.to_be_bytes());
    body.extend_from_slice(&2u32.to_be_bytes());
    body.extend_from_slice(&1u32.to_be_bytes());
    body.extend_from_slice(&1u32.to_be_bytes());
    body.extend_from_slice(&6u16.to_be_bytes());
    body.extend_from_slice(b"server");
    body.extend_from_slice(&0u64.to_be_bytes());
    body.extend_from_slice(&(stored_key.len() as u32).to_be_bytes());
    body.extend_from_slice(stored_key);
    body.extend_from_slice(&1u32.to_be_bytes());
    body.extend_from_slice(&4u16.to_be_bytes());
    body.extend_from_slice(b"X509");
    body.extend_from_slice(&1u32.to_be_bytes());
    body.push(7);
    let mut digest_input = Vec::new();
    for b in b"changeit" {
        digest_input.push(0);
        digest_input.push(*b);
    }
    digest_input.extend_from_slice(b"Mighty Aphrodite");
    digest_input.extend_from_slice(&body);
    let digest = sha1(&digest_input);
    body.extend_from_slice(&digest);
    body
}

#[test]
fn tls_material_malformed_stored_key() {
    let bytes = raw_keystore(&[0x30, 0x00]);
    assert_eq!(
        tls_material("ks.jks", &bytes, "changeit", None),
        Err("private key entry 'server' holds malformed encrypted key data".to_string())
    );
}

#[test]
fn tls_material_short_stored_key_is_decrypt_error() {
    let bytes = raw_keystore(&[0x02, 0x01]);
    let err = tls_material("ks.jks", &bytes, "changeit", None).unwrap_err();
    assert!(err.starts_with("failed to decrypt private key entry 'server' (check key_password): "));
}
