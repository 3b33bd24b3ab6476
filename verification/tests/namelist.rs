use assh::algorithm::{from_name, name_list, names_of, select, Algorithm, Cipher, Compress, Kex};
use assh::algorithm::key::{EcdsaCurve, HashAlg, Key};
use assh::namelist::{bytes_eq, has_name, join_names, negotiate, split_names};
use assh::transport::hmac::HmacAlg;

fn list(names: &[&str]) -> Vec<Vec<u8>> {
    names.iter().map(|n| n.as_bytes().to_vec()).collect()
}

#[test]
fn join_and_split() {
    assert_eq!(join_names(&list(&[])), b"".to_vec());
    assert_eq!(join_names(&list(&["a"])), b"a".to_vec());
    assert_eq!(join_names(&list(&["aes128-ctr", "none"])), b"aes128-ctr,none".to_vec());
    assert_eq!(split_names(b""), list(&[]));
    assert_eq!(split_names(b"zlib"), list(&["zlib"]));
    assert_eq!(split_names(b"a,bc,d"), list(&["a", "bc", "d"]));
    assert_eq!(split_names(b",a,,b,"), list(&["a", "b"]));
    assert_eq!(split_names(&join_names(&list(&["x", "y", "z"]))), list(&["x", "y", "z"]));
}

#[test]
fn same_bytes() {
    assert!(bytes_eq(b"", b""));
    assert!(bytes_eq(b"abc", b"abc"));
    assert!(!bytes_eq(b"abc", b"abd"));
    assert!(!bytes_eq(b"abc", b"ab"));
    assert!(has_name(&list(&["a", "b"]), b"b"));
    assert!(!has_name(&list(&["a", "b"]), b"c"));
    assert!(!has_name(&list(&[]), b""));
}

#[test]
fn negotiation_picks_the_first_of_the_client_that_the_server_has() {
    assert_eq!(negotiate(&list(&["a", "b", "c"]), &list(&["c", "b"])), Some(1));
    assert_eq!(negotiate(&list(&["a", "b", "c"]), &list(&["c", "b", "a"])), Some(0));
    assert_eq!(negotiate(&list(&["a", "b"]), &list(&["x", "y"])), None);
    assert_eq!(negotiate(&list(&[]), &list(&["x"])), None);
    assert_eq!(negotiate(&list(&["x"]), &list(&[])), None);
    assert_eq!(negotiate(&list(&["a", "a"]), &list(&["a"])), Some(0));
}

#[test]
fn negotiation_agrees_with_the_packet_crate() {
    let cases: [(&[&str], &[&str]); 5] = [
        (&["aes128-ctr", "aes256-ctr"], &["aes256-ctr", "aes128-ctr"]),
        (&["a", "b", "c"], &["c"]),
        (&["a"], &["b"]),
        (&[], &["b"]),
        (&["hmac-sha1", "none"], &["none"]),
    ];
    for (client, server) in cases {
        let ours = negotiate(&list(client), &list(server)).map(|i| client[i].to_string());
        let c: ssh_packet::arch::NameList = client.iter().collect();
        let s: ssh_packet::arch::NameList = server.iter().collect();
        let theirs = c.preferred_in(&s).map(|name| name.into_string());
        assert_eq!(ours, theirs);
    }
}

#[test]
fn names_of_the_algorithms() {
    assert_eq!(Compress::Zlib.name(), "zlib");
    assert_eq!(Compress::ZlibExt.name(), "zlib@openssh.com");
    assert_eq!(Compress::Null.name(), "none");
    assert_eq!(Cipher::TDesCbc.name(), "3des-cbc");
    assert_eq!(Cipher::Aes128Cbc.name(), "aes128-cbc");
    assert_eq!(Cipher::Aes192Cbc.name(), "aes192-cbc");
    assert_eq!(Cipher::Aes256Cbc.name(), "aes256-cbc");
    assert_eq!(Cipher::Aes128Ctr.name(), "aes128-ctr");
    assert_eq!(Cipher::Aes192Ctr.name(), "aes192-ctr");
    assert_eq!(Cipher::Aes256Ctr.name(), "aes256-ctr");
    assert_eq!(Cipher::Null.name(), "none");
    assert_eq!(HmacAlg::HmacSha512ETM.name(), "hmac-sha2-512-etm@openssh.com");
    assert_eq!(HmacAlg::HmacSha256ETM.name(), "hmac-sha2-256-etm@openssh.com");
    assert_eq!(HmacAlg::HmacSha1ETM.name(), "hmac-sha1-etm@openssh.com");
    assert_eq!(HmacAlg::HmacMd5ETM.name(), "hmac-md5-etm@openssh.com");
    assert_eq!(HmacAlg::HmacSha512.name(), "hmac-sha2-512");
    assert_eq!(HmacAlg::HmacSha256.name(), "hmac-sha2-256");
    assert_eq!(HmacAlg::HmacSha1.name(), "hmac-sha1");
    assert_eq!(HmacAlg::HmacMd5.name(), "hmac-md5");
    assert_eq!(HmacAlg::Null.name(), "none");
    assert_eq!(Kex::Curve25519Sha256.name(), "curve25519-sha256");
    assert_eq!(Kex::Curve25519Sha256Libssh.name(), "curve25519-sha256@libssh.org");
    assert_eq!(Kex::EcdhSha2Nistp256.name(), "ecdh-sha2-nistp256");
    assert_eq!(Kex::EcdhSha2Nistp384.name(), "ecdh-sha2-nistp384");
    assert_eq!(Kex::EcdhSha2Nistp521.name(), "ecdh-sha2-nistp521");
    assert_eq!(Kex::DiffieHellmanGroup14Sha256.name(), "diffie-hellman-group14-sha256");
    assert_eq!(Kex::DiffieHellmanGroup14Sha1.name(), "diffie-hellman-group14-sha1");
    assert_eq!(
        Kex::DiffieHellmanGroupExchangeSha256.name(),
        "diffie-hellman-group-exchange-sha256"
    );
    assert_eq!(Key::Ed25519.name(), "ssh-ed25519");
    assert_eq!(Key::Ecdsa { curve: EcdsaCurve::NistP256 }.name(), "ecdsa-sha2-nistp256");
    assert_eq!(Key::Ecdsa { curve: EcdsaCurve::NistP384 }.name(), "ecdsa-sha2-nistp384");
    assert_eq!(Key::Ecdsa { curve: EcdsaCurve::NistP521 }.name(), "ecdsa-sha2-nistp521");
    assert_eq!(Key::Rsa { hash: Some(HashAlg::Sha512) }.name(), "rsa-sha2-512");
    assert_eq!(Key::Rsa { hash: Some(HashAlg::Sha256) }.name(), "rsa-sha2-256");
    assert_eq!(Key::Rsa { hash: None }.name(), "ssh-rsa");
    assert_eq!(Key::Dsa.name(), "ssh-dss");
}

#[test]
fn every_algorithm_is_found_again_by_its_name() {
    for a in Cipher::all() {
        assert_eq!(from_name::<Cipher>(a.name().as_bytes()), Some(a));
    }
    for a in HmacAlg::all() {
        assert_eq!(from_name::<HmacAlg>(a.name().as_bytes()), Some(a));
    }
    for a in Compress::all() {
        assert_eq!(from_name::<Compress>(a.name().as_bytes()), Some(a));
    }
    for a in Kex::all() {
        assert_eq!(from_name::<Kex>(a.name().as_bytes()), Some(a));
    }
    for a in Key::all() {
        assert_eq!(from_name::<Key>(a.name().as_bytes()), Some(a));
    }
    assert_eq!(Cipher::all().len(), 8);
    assert_eq!(HmacAlg::all().len(), 9);
    assert_eq!(Compress::all().len(), 3);
    assert_eq!(Kex::all().len(), 8);
    assert_eq!(Key::all().len(), 8);
    assert_eq!(from_name::<Cipher>(b"aes128-gcm@openssh.com"), None);
    assert_eq!(from_name::<Cipher>(b"zlib"), None);
    assert_eq!(from_name::<Compress>(b""), None);
    assert_eq!(from_name::<Kex>(b"curve25519-sha25"), None);
}

#[test]
fn name_lists_of_algorithms() {
    assert_eq!(
        names_of(&vec![Cipher::Aes128Ctr, Cipher::Null]),
        vec![b"aes128-ctr".to_vec(), b"none".to_vec()]
    );
    assert_eq!(
        name_list(&vec![HmacAlg::HmacSha256, HmacAlg::HmacSha1]),
        b"hmac-sha2-256,hmac-sha1".to_vec()
    );
    assert_eq!(name_list::<Kex>(&vec![]), b"".to_vec());
}

#[test]
fn selection_goes_by_the_client() {
    assert_eq!(
        select::<Cipher>(b"aes128-ctr,aes256-ctr", b"aes256-ctr,aes128-ctr"),
        Some(Cipher::Aes128Ctr)
    );
    assert_eq!(
        select::<Cipher>(b"aes256-ctr,aes128-ctr", b"aes128-ctr,aes256-ctr"),
        Some(Cipher::Aes256Ctr)
    );
    assert_eq!(select::<Cipher>(b"aes128-ctr", b"aes256-ctr"), None);
    assert_eq!(select::<Cipher>(b"chacha20,aes128-ctr", b"aes128-ctr,chacha20"), None);
    assert_eq!(select::<Compress>(b"none,zlib", b"zlib,none"), Some(Compress::Null));
    assert_eq!(select::<Compress>(b"", b"none"), None);
}

#[test]
fn sizes_of_the_algorithms() {
    assert_eq!(Cipher::Aes128Ctr.block_size(), 16);
    assert_eq!(Cipher::Aes256Cbc.block_size(), 16);
    assert_eq!(Cipher::TDesCbc.block_size(), 8);
    assert_eq!(Cipher::Null.block_size(), 8);
    assert_eq!(Cipher::Aes128Ctr.key_size(), 16);
    assert_eq!(Cipher::Aes192Cbc.key_size(), 24);
    assert_eq!(Cipher::Aes256Ctr.key_size(), 32);
    assert_eq!(Cipher::TDesCbc.key_size(), 24);
    assert_eq!(Cipher::Null.key_size(), 0);
    assert_eq!(Cipher::Aes128Ctr.iv_size(), 16);
    assert_eq!(Cipher::TDesCbc.iv_size(), 8);
    assert_eq!(Cipher::Null.iv_size(), 0);
    assert_eq!(HmacAlg::HmacSha512.size(), 64);
    assert_eq!(HmacAlg::HmacSha256ETM.size(), 32);
    assert_eq!(HmacAlg::HmacSha1.size(), 20);
    assert_eq!(HmacAlg::HmacMd5.size(), 16);
    assert_eq!(HmacAlg::Null.size(), 0);
    assert!(HmacAlg::HmacSha1ETM.etm());
    assert!(!HmacAlg::HmacSha1.etm());
    assert!(!HmacAlg::Null.etm());
    assert_eq!(Compress::default(), Compress::Null);
    assert_eq!(Cipher::default(), Cipher::Null);
    assert_eq!(HmacAlg::default(), HmacAlg::Null);
}

#[test]
fn no_compression_hands_the_payload_on() {
    assert_eq!(Compress::Null.compress(vec![1, 2, 3]), vec![1, 2, 3]);
    assert_eq!(Compress::Null.decompress(vec![1, 2, 3]), vec![1, 2, 3]);
    assert_eq!(Compress::Null.compress(Vec::new()), Vec::<u8>::new());
}
