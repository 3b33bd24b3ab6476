use assh::algorithm::key::Key;
use assh::algorithm::kex::KexHash;
use assh::algorithm::{Cipher, Compress, Kex};
use assh::crypto::{hash, mac};
use assh::error::Error;
use assh::kex::ecdh::{client_finish, client_hello, server_finish, server_reply, Context, HostKey};
use assh::kex::gex::{
    accept, bits, offer, parse_group, parse_init, parse_reply, parse_request, prelude_of, request,
    Sizes,
};
use assh::kex::group::{ephemeral_secret, is_zero, public_key, shared_secret, Group, GROUP14};
use assh::kex::exchange::{Exchange, Transcript};
use assh::kex::keys::{derive_key, Secrets};
use assh::kex::negotiate::{discard_guess, negotiate, negotiate_suite, Negotiated, Suite};
use assh::kexinit::KexInit;
use assh::message::Message;
use assh::session::client::Client;
use assh::session::id::Id;
use assh::session::rekey::Limits;
use assh::session::server::{propose, Server};
use assh::transport::hmac::HmacAlg;
use assh::transport::TransportPair;
use sha2::Digest;

fn hex(s: &str) -> Vec<u8> {
    (0..s.len()).step_by(2).map(|i| u8::from_str_radix(&s[i..i + 2], 16).unwrap()).collect()
}

fn host_key() -> HostKey {
    let key = ssh_key::PrivateKey::random(&mut rand::thread_rng(), ssh_key::Algorithm::Ed25519)
        .expect("an Ed25519 key");
    HostKey {
        public: key.public_key().to_bytes().expect("a public key"),
        private: key.to_bytes().expect("a private key").to_vec(),
    }
}

fn proposal(kex: &str, key: &str, cipher: &str, mac: &str, compress: &str) -> KexInit {
    KexInit {
        cookie: vec![0; 16],
        kex_algorithms: kex.as_bytes().to_vec(),
        server_host_key_algorithms: key.as_bytes().to_vec(),
        encryption_algorithms_client_to_server: cipher.as_bytes().to_vec(),
        encryption_algorithms_server_to_client: cipher.as_bytes().to_vec(),
        mac_algorithms_client_to_server: mac.as_bytes().to_vec(),
        mac_algorithms_server_to_client: mac.as_bytes().to_vec(),
        compression_algorithms_client_to_server: compress.as_bytes().to_vec(),
        compression_algorithms_server_to_client: compress.as_bytes().to_vec(),
        languages_client_to_server: Vec::new(),
        languages_server_to_client: Vec::new(),
        first_kex_packet_follows: false,
        reserved: 0,
    }
}

fn context(session_id: Option<Vec<u8>>) -> Context {
    context_of(Kex::Curve25519Sha256, session_id)
}

fn context_of(kex: Kex, session_id: Option<Vec<u8>>) -> Context {
    Context {
        kex,
        client_id: b"SSH-2.0-client".to_vec(),
        server_id: b"SSH-2.0-server".to_vec(),
        client_kexinit: vec![20, 1, 2, 3],
        server_kexinit: vec![20, 4, 5, 6],
        session_id,
        group: None,
        prelude: Vec::new(),
    }
}

#[test]
fn digests_of_the_empty_string() {
    assert_eq!(hash(KexHash::Sha1, b""), hex("da39a3ee5e6b4b0d3255bfef95601890afd80709"));
    assert_eq!(
        hash(KexHash::Sha256, b""),
        hex("e3b0c44298fc1c149afbf4c8996fb92427ae41e4649b934ca495991b7852b855")
    );
    assert_eq!(
        hash(KexHash::Sha384, b"abc"),
        hex("cb00753f45a35e8bb5a03d699ac65007272c32ab0eded1631a8b605a43ff5bed8086072ba1e7cc2358baeca134c825a7")
    );
    assert_eq!(
        hash(KexHash::Sha512, b"abc"),
        hex("ddaf35a193617abacc417349ae20413112e6fa4e89a97ea20a9eeee64b55d39a2192992a274fc1a836ba3c23a3feebbd454d4423643ce80e2a9ac94fa54ca49f")
    );
    assert_eq!(KexHash::Sha1.size(), 20);
    assert_eq!(KexHash::Sha256.size(), 32);
    assert_eq!(KexHash::Sha384.size(), 48);
    assert_eq!(KexHash::Sha512.size(), 64);
    assert_eq!(Kex::Curve25519Sha256.hash(), KexHash::Sha256);
    assert_eq!(Kex::EcdhSha2Nistp384.hash(), KexHash::Sha384);
    assert_eq!(Kex::EcdhSha2Nistp521.hash(), KexHash::Sha512);
    assert_eq!(Kex::DiffieHellmanGroup14Sha1.hash(), KexHash::Sha1);
}

#[test]
fn tags_of_a_known_message() {
    let key = [0x0b; 20];
    assert_eq!(
        mac(HmacAlg::HmacSha256, &key, b"Hi There"),
        hex("b0344c61d8db38535ca8afceaf0bf12b881dc200c9833da726e9376c2e32cff7")
    );
    assert_eq!(
        mac(HmacAlg::HmacSha256ETM, &key, b"Hi There"),
        mac(HmacAlg::HmacSha256, &key, b"Hi There")
    );
    assert_eq!(
        mac(HmacAlg::HmacSha1, &key, b"Hi There"),
        hex("b617318655057264e28bc0b6fb378c8ef146be00")
    );
    assert_eq!(
        mac(HmacAlg::HmacSha512, &key, b"Hi There"),
        hex("87aa7cdea5ef619d4ff0b4241a1d6cb02379f4e2ce4ec2787ad0b30545e17cdedaa833b7d6b8a702038b274eaea3f4e4be9d914eeb61f1702e696c203a126854")
    );
    assert_eq!(
        mac(HmacAlg::HmacMd5, &[0x0b; 16], b"Hi There"),
        hex("9294727a3638bb1c13f48ef8158bfc9d")
    );
    assert_eq!(mac(HmacAlg::Null, &key, b"Hi There"), Vec::<u8>::new());
}

#[test]
fn curve25519_test_vector() {
    let alice = hex("77076d0a7318a57d3c16c17251b26645df4c2f87ebc0992ab177fba51db92c2a");
    let alice_public = hex("8520f0098930a754748b7ddcb43ef75a0dbf3a0d26381af4eba4a98eaa9b4e6a");
    let bob = hex("5dab087e624a8a4b79e17f8b83800ee66f3bb1292618b6fd1c2f8b27ff88e0eb");
    let bob_public = hex("de9edb7d7b7dc1b4d35b61c2ece435373f8343c85b78674dadfc7e146f882b4f");
    let shared = hex("4a5d9d5ba4ce2de1728e3bf480350f25e07e21c947d19e3376f09b3c1e161742");
    let kex = Kex::Curve25519Sha256;
    assert_eq!(public_key(kex, &alice), Some(alice_public.clone()));
    assert_eq!(public_key(Kex::Curve25519Sha256Libssh, &bob), Some(bob_public.clone()));
    assert_eq!(public_key(kex, &alice[..31]), None);
    assert_eq!(shared_secret(kex, &alice, &bob_public), Some(shared.clone()));
    assert_eq!(shared_secret(kex, &bob, &alice_public), Some(shared));
    assert_eq!(shared_secret(kex, &alice, &bob_public[..31]), None);
    assert_eq!(shared_secret(kex, &alice, &[0; 32]), None);
    assert_eq!(client_hello(kex, &alice), Some(Message::KexEcdhInit { q_c: alice_public }));
    assert_eq!(ephemeral_secret(kex).len(), 32);
    assert_ne!(ephemeral_secret(kex), ephemeral_secret(kex));
    assert!(is_zero(&[]));
    assert!(is_zero(&[0, 0, 0]));
    assert!(!is_zero(&[0, 0, 1]));
    assert!(!is_zero(&[128, 0, 0]));
}

#[test]
fn exchange_hash_is_the_digest_of_the_transcript() {
    let exchange = Exchange {
        client_id: b"SSH-2.0-c".to_vec(),
        server_id: b"SSH-2.0-s".to_vec(),
        client_kexinit: vec![20, 1],
        server_kexinit: vec![20, 2],
        host_key: vec![9, 9, 9],
        prelude: vec![7, 7],
        client_public: vec![1; 32],
        server_public: vec![2; 32],
        secret: vec![0, 0x80, 1],
    };
    let mut transcript = Vec::new();
    for part in [
        &exchange.client_id,
        &exchange.server_id,
        &exchange.client_kexinit,
        &exchange.server_kexinit,
        &exchange.host_key,
    ] {
        transcript.extend((part.len() as u32).to_be_bytes());
        transcript.extend(part.iter());
    }
    transcript.extend([7, 7]);
    for part in [&exchange.client_public, &exchange.server_public] {
        transcript.extend((part.len() as u32).to_be_bytes());
        transcript.extend(part.iter());
    }
    transcript.extend([0, 0, 0, 3, 0, 0x80, 1]);
    assert_eq!(exchange.hash(KexHash::Sha256), sha2::Sha256::digest(&transcript).to_vec());
    assert_eq!(exchange.hash(KexHash::Sha512), sha2::Sha512::digest(&transcript).to_vec());
    assert_eq!(exchange.hash(KexHash::Sha1), sha1::Sha1::digest(&transcript).to_vec());
}

#[test]
fn the_digest_does_not_depend_on_the_chunks() {
    let bytes: Vec<u8> = (0..200u8).collect();
    let mut whole = Transcript::new();
    whole.absorb(&bytes);
    let expected = whole.digest(KexHash::Sha256);
    assert_eq!(expected, sha2::Sha256::digest(&bytes).to_vec());
    for size in [1usize, 2, 3, 7, 64, 199, 200, 500] {
        let chunks: Vec<Vec<u8>> = bytes.chunks(size).map(|c| c.to_vec()).collect();
        let mut t = Transcript::new();
        t.absorb_all(&chunks);
        assert_eq!(t.digest(KexHash::Sha256), expected);
        let mut t = Transcript::new();
        for chunk in &chunks {
            t.absorb(chunk);
            t.absorb(&[]);
        }
        assert_eq!(t.digest(KexHash::Sha256), expected);
    }
    let mut t = Transcript::new();
    t.absorb_string(b"ab");
    t.absorb_mpint(&[0x80]);
    let mut u = Transcript::new();
    u.absorb(&[0, 0, 0, 2, b'a', b'b', 0, 0, 0, 2, 0, 0x80]);
    assert_eq!(t.digest(KexHash::Sha1), u.digest(KexHash::Sha1));
}

#[test]
fn derived_keys() {
    let k = [0, 0, 0, 1, 5];
    let h = [1u8; 32];
    let id = [2u8; 32];
    let mut seed = Vec::new();
    seed.extend(k);
    seed.extend(h);
    seed.push(b'C');
    seed.extend(id);
    let k1 = sha2::Sha256::digest(&seed).to_vec();
    assert_eq!(derive_key(KexHash::Sha256, &k, &h, b'C', &id, 32), k1);
    assert_eq!(derive_key(KexHash::Sha256, &k, &h, b'C', &id, 16), k1[..16].to_vec());
    assert_eq!(derive_key(KexHash::Sha256, &k, &h, b'C', &id, 0), Vec::<u8>::new());
    assert_ne!(derive_key(KexHash::Sha256, &k, &h, b'D', &id, 32), k1);
    let mut next = Vec::new();
    next.extend(k);
    next.extend(h);
    next.extend(&k1);
    let k2 = sha2::Sha256::digest(&next).to_vec();
    let mut both = k1.clone();
    both.extend(&k2);
    assert_eq!(derive_key(KexHash::Sha256, &k, &h, b'C', &id, 64), both);
    assert_eq!(derive_key(KexHash::Sha256, &k, &h, b'C', &id, 33), both[..33].to_vec());
    next.extend(&k2);
    let k3 = sha2::Sha256::digest(&next).to_vec();
    both.extend(&k3);
    assert_eq!(derive_key(KexHash::Sha256, &k, &h, b'C', &id, 65), both[..65].to_vec());
    assert_eq!(derive_key(KexHash::Sha256, &k, &h, b'C', &id, 96), both);

    let s1 = sha1::Sha1::digest(&seed).to_vec();
    let mut next = Vec::new();
    next.extend(k);
    next.extend(h);
    next.extend(&s1);
    let s2 = sha1::Sha1::digest(&next).to_vec();
    let mut both = s1.clone();
    both.extend(&s2);
    assert_eq!(derive_key(KexHash::Sha1, &k, &h, b'C', &id, 24), both[..24].to_vec());
    assert_eq!(derive_key(KexHash::Sha1, &k, &h, b'C', &id, 20), s1);
}

#[test]
fn both_sides_derive_matching_directions() {
    let secrets = Secrets {
        alg: KexHash::Sha256,
        secret: vec![0, 0, 0, 1, 5],
        hash: vec![1; 32],
        session_id: vec![2; 32],
    };
    let negotiated = Negotiated {
        kex: Kex::Curve25519Sha256,
        key: Key::Ed25519,
        client_to_server: Suite {
            cipher: Cipher::Aes128Ctr,
            hmac: HmacAlg::HmacSha256,
            compress: Compress::Null,
        },
        server_to_client: Suite {
            cipher: Cipher::Aes256Cbc,
            hmac: HmacAlg::HmacSha1ETM,
            compress: Compress::Null,
        },
    };
    let mut before_client = TransportPair::new();
    before_client.tx.seq = 5;
    before_client.rx.seq = 9;
    let mut before_server = TransportPair::new();
    before_server.tx.seq = 9;
    before_server.rx.seq = 5;
    let client = secrets.pair(&negotiated, true, &before_client);
    let server = secrets.pair(&negotiated, false, &before_server);
    assert_eq!(client.tx, server.rx);
    assert_eq!(client.rx, server.tx);
    assert_eq!(client.tx.cipher, Cipher::Aes128Ctr);
    assert_eq!(client.rx.cipher, Cipher::Aes256Cbc);
    assert_eq!(client.tx.seq, 5);
    assert_eq!(client.rx.seq, 9);
    assert_eq!(client.tx.key.len(), 16);
    assert_eq!(client.tx.iv.len(), 16);
    assert_eq!(client.tx.mac_key.len(), 32);
    assert_eq!(client.rx.key.len(), 32);
    assert_eq!(client.rx.mac_key.len(), 20);
    assert_eq!(
        client.tx.iv,
        derive_key(KexHash::Sha256, &secrets.secret, &secrets.hash, b'A', &secrets.session_id, 16)
    );
    assert_eq!(
        client.rx.iv,
        derive_key(KexHash::Sha256, &secrets.secret, &secrets.hash, b'B', &secrets.session_id, 16)
    );
    assert_eq!(
        client.tx.key,
        derive_key(KexHash::Sha256, &secrets.secret, &secrets.hash, b'C', &secrets.session_id, 16)
    );
    assert_eq!(
        client.rx.key,
        derive_key(KexHash::Sha256, &secrets.secret, &secrets.hash, b'D', &secrets.session_id, 32)
    );
    assert_eq!(
        client.tx.mac_key,
        derive_key(KexHash::Sha256, &secrets.secret, &secrets.hash, b'E', &secrets.session_id, 32)
    );
    assert_eq!(
        client.rx.mac_key,
        derive_key(KexHash::Sha256, &secrets.secret, &secrets.hash, b'F', &secrets.session_id, 20)
    );
    assert_eq!(secrets.direction(negotiated.client_to_server, true, 5), client.tx);
}

#[test]
fn an_exchange_of_both_sides() {
    let host = host_key();
    let client_secret = ephemeral_secret(Kex::Curve25519Sha256);
    let hello = client_hello(Kex::Curve25519Sha256, &client_secret);
    let client_public = match &hello {
        Some(Message::KexEcdhInit { q_c }) => q_c.clone(),
        other => panic!("not the client's key: {:?}", other),
    };
    let (reply, server_secrets) = server_reply(&context(None), &host, &client_public).unwrap();
    let (host_key, server_public, signature) = match reply {
        Message::KexEcdhReply { k_s, q_s, signature } => (k_s, q_s, signature),
        other => panic!("not the server's answer: {:?}", other),
    };
    assert_eq!(host_key, host.public);
    let client_secrets =
        client_finish(&context(None), &client_secret, &host_key, &server_public, &signature)
            .unwrap();
    assert_eq!(client_secrets.hash, server_secrets.hash);
    assert_eq!(client_secrets.secret, server_secrets.secret);
    assert_eq!(client_secrets.session_id, client_secrets.hash);
    assert_eq!(server_secrets.session_id, server_secrets.hash);
    assert_eq!(client_secrets.hash.len(), 32);
    let k = shared_secret(Kex::Curve25519Sha256, &client_secret, &server_public).unwrap();
    let mut expected = Vec::new();
    assh::wire::put_mpint(&mut expected, &k);
    assert_eq!(client_secrets.secret, expected);

    let mut forged = signature.clone();
    let last = forged.len() - 1;
    forged[last] ^= 1;
    assert_eq!(
        client_finish(&context(None), &client_secret, &host_key, &server_public, &forged).err(),
        Some(Error::HostKeySignature)
    );
    let mut other = context(None);
    other.server_id = b"SSH-2.0-other".to_vec();
    assert_eq!(
        client_finish(&other, &client_secret, &host_key, &server_public, &signature).err(),
        Some(Error::HostKeySignature)
    );
    assert_eq!(
        client_finish(&context(None), &client_secret, &host_key, &[0; 32], &signature).err(),
        Some(Error::ProtocolViolation)
    );
    assert_eq!(
        client_finish(&context(None), &client_secret, &host_key, &[1; 31], &signature).err(),
        Some(Error::ProtocolViolation)
    );
    assert_eq!(
        server_reply(&context(None), &host, &[0; 32]).err(),
        Some(Error::ProtocolViolation)
    );
    let broken = HostKey { public: host.public.clone(), private: vec![1, 2, 3] };
    assert_eq!(
        server_reply(&context(None), &broken, &client_public).err(),
        Some(Error::HostKeySignature)
    );
    let mismatched = HostKey { public: host_key_other(), private: host.private.clone() };
    assert_eq!(
        server_reply(&context(None), &mismatched, &client_public).err(),
        Some(Error::HostKeySignature)
    );
    assert_eq!(
        server_finish(&context(None), &client_secret, &host.public, &client_public, vec![1, 2])
            .err(),
        Some(Error::HostKeySignature)
    );
}

fn host_key_other() -> Vec<u8> {
    host_key().public
}

#[test]
fn the_session_identifier_is_that_of_the_first_exchange() {
    let host = host_key();
    let first = vec![7u8; 32];
    let client_secret = ephemeral_secret(Kex::Curve25519Sha256);
    let client_public = public_key(Kex::Curve25519Sha256, &client_secret).unwrap();
    let (reply, server_secrets) =
        server_reply(&context(Some(first.clone())), &host, &client_public).unwrap();
    let (host_key, server_public, signature) = match reply {
        Message::KexEcdhReply { k_s, q_s, signature } => (k_s, q_s, signature),
        other => panic!("not the server's answer: {:?}", other),
    };
    let client_secrets = client_finish(
        &context(Some(first.clone())),
        &client_secret,
        &host_key,
        &server_public,
        &signature,
    )
    .unwrap();
    assert_eq!(client_secrets.session_id, first);
    assert_eq!(server_secrets.session_id, first);
    assert_ne!(client_secrets.hash, first);
    assert_eq!(client_secrets.hash, server_secrets.hash);
}

#[test]
fn negotiation_of_a_session() {
    let client = proposal(
        "curve25519-sha256,ecdh-sha2-nistp256",
        "ssh-ed25519,ssh-rsa",
        "aes128-ctr,aes256-ctr",
        "hmac-sha2-256,hmac-sha1",
        "none",
    );
    let mut server = proposal(
        "ecdh-sha2-nistp256,curve25519-sha256",
        "ssh-rsa,ssh-ed25519",
        "aes256-ctr,aes128-ctr",
        "hmac-sha1,hmac-sha2-256",
        "none,zlib",
    );
    server.encryption_algorithms_server_to_client = b"aes256-cbc,aes256-ctr".to_vec();
    server.mac_algorithms_server_to_client = b"hmac-sha1".to_vec();
    assert_eq!(
        negotiate(&client, &server),
        Ok(Negotiated {
            kex: Kex::Curve25519Sha256,
            key: Key::Ed25519,
            client_to_server: Suite {
                cipher: Cipher::Aes128Ctr,
                hmac: HmacAlg::HmacSha256,
                compress: Compress::Null
            },
            server_to_client: Suite {
                cipher: Cipher::Aes256Ctr,
                hmac: HmacAlg::HmacSha1,
                compress: Compress::Null
            },
        })
    );
}

#[test]
fn negotiation_errors() {
    let base = || proposal("curve25519-sha256", "ssh-ed25519", "aes128-ctr", "hmac-sha1", "none");
    let mut other = base();
    other.kex_algorithms = b"diffie-hellman-group1-sha1".to_vec();
    assert_eq!(negotiate(&base(), &other), Err(Error::NoCommonKex));
    assert_eq!(negotiate(&other, &other), Err(Error::NoCommonKex));
    let mut other = base();
    other.kex_algorithms = b"diffie-hellman-group-exchange-sha256".to_vec();
    assert_eq!(
        negotiate(&other, &other).map(|n| n.kex),
        Ok(Kex::DiffieHellmanGroupExchangeSha256)
    );
    let mut other = base();
    other.kex_algorithms = b"diffie-hellman-group14-sha1".to_vec();
    assert_eq!(negotiate(&other, &other).map(|n| n.kex), Ok(Kex::DiffieHellmanGroup14Sha1));
    let mut other = base();
    other.server_host_key_algorithms = b"ssh-dss".to_vec();
    assert_eq!(negotiate(&base(), &other), Err(Error::NoCommonKey));
    let mut other = base();
    other.encryption_algorithms_client_to_server = b"aes256-ctr".to_vec();
    assert_eq!(negotiate(&base(), &other), Err(Error::NoCommonCipher));
    let mut other = base();
    other.encryption_algorithms_server_to_client = b"aes256-ctr".to_vec();
    assert_eq!(negotiate(&base(), &other), Err(Error::NoCommonCipher));
    let mut other = base();
    other.mac_algorithms_server_to_client = b"".to_vec();
    assert_eq!(negotiate(&base(), &other), Err(Error::NoCommonMac));
    let mut other = base();
    other.compression_algorithms_client_to_server = b"zlib".to_vec();
    assert_eq!(negotiate(&base(), &other), Err(Error::NoCommonCompression));
    assert_eq!(negotiate(&other, &other), Err(Error::NoCommonCompression));
    assert_eq!(
        negotiate_suite(b"aes128-ctr", b"aes128-ctr", b"none", b"none", b"none", b"none"),
        Ok(Suite { cipher: Cipher::Aes128Ctr, hmac: HmacAlg::Null, compress: Compress::Null })
    );
    assert_eq!(
        negotiate_suite(b"x", b"x", b"none", b"none", b"none", b"none"),
        Err(Error::NoCommonCipher)
    );
}

#[test]
fn guesses() {
    let mut peer = proposal("curve25519-sha256,x", "ssh-ed25519", "aes128-ctr", "hmac-sha1", "none");
    assert!(!discard_guess(&peer, Kex::Curve25519Sha256));
    assert!(!discard_guess(&peer, Kex::Curve25519Sha256Libssh));
    peer.first_kex_packet_follows = true;
    assert!(!discard_guess(&peer, Kex::Curve25519Sha256));
    assert!(discard_guess(&peer, Kex::Curve25519Sha256Libssh));
    peer.kex_algorithms = Vec::new();
    assert!(discard_guess(&peer, Kex::Curve25519Sha256));
}

#[test]
fn default_proposals() {
    let client = Client::default();
    assert_eq!(client.timeout(), 3);
    assert_eq!(client.id().to_bytes(), b"SSH-2.0-assh@client:0.1.0".to_vec());
    assert_eq!(client.rekey, Limits { bytes: 1 << 30, packets: 1 << 32, interval: 3600 });
    let init = client.kexinit();
    assert_eq!(init.cookie.len(), 16);
    assert_ne!(init.cookie, client.kexinit().cookie);
    assert_eq!(
        init.kex_algorithms,
        b"curve25519-sha256,curve25519-sha256@libssh.org,ecdh-sha2-nistp256,ecdh-sha2-nistp384,ecdh-sha2-nistp521,diffie-hellman-group14-sha256,diffie-hellman-group14-sha1,diffie-hellman-group-exchange-sha256"
            .to_vec()
    );
    assert_eq!(
        init.server_host_key_algorithms,
        b"ssh-ed25519,ecdsa-sha2-nistp384,ecdsa-sha2-nistp256,rsa-sha2-512,rsa-sha2-256,ssh-rsa,ssh-dss"
            .to_vec()
    );
    assert_eq!(
        init.encryption_algorithms_client_to_server,
        b"aes256-ctr,aes192-ctr,aes128-ctr,aes256-cbc,aes192-cbc,aes128-cbc,3des-cbc".to_vec()
    );
    assert_eq!(
        init.encryption_algorithms_server_to_client,
        init.encryption_algorithms_client_to_server
    );
    assert_eq!(
        init.mac_algorithms_client_to_server,
        b"hmac-sha2-512-etm@openssh.com,hmac-sha2-256-etm@openssh.com,hmac-sha2-512,hmac-sha2-256,hmac-sha1-etm@openssh.com,hmac-sha1,hmac-md5-etm@openssh.com,hmac-md5"
            .to_vec()
    );
    assert_eq!(init.mac_algorithms_server_to_client, init.mac_algorithms_client_to_server);
    assert_eq!(init.compression_algorithms_client_to_server, b"none".to_vec());
    assert_eq!(init.compression_algorithms_server_to_client, b"none".to_vec());
    assert!(init.languages_client_to_server.is_empty());
    assert!(init.languages_server_to_client.is_empty());
    assert!(!init.first_kex_packet_follows);
    assert_eq!(init.reserved, 0);

    let server = Server {
        id: Id::v2(b"server".to_vec(), None),
        timeout: 3,
        keys: vec![(Key::Ed25519, host_key())],
        algorithms: Default::default(),
        rekey: Limits::default(),
    };
    assert_eq!(server.timeout(), 3);
    assert_eq!(server.key_algorithms(), vec![Key::Ed25519]);
    assert!(server.host_key(Key::Ed25519).is_some());
    assert!(server.host_key(Key::Dsa).is_none());
    let theirs = server.kexinit();
    assert_eq!(theirs.server_host_key_algorithms, b"ssh-ed25519".to_vec());
    assert_eq!(theirs.kex_algorithms, init.kex_algorithms);
    let agreed = client.exchange(&init, &theirs).unwrap();
    assert_eq!(agreed.kex, Kex::Curve25519Sha256);
    assert_eq!(agreed.key, Key::Ed25519);
    assert_eq!(agreed.client_to_server.cipher, Cipher::Aes256Ctr);
    assert_eq!(agreed.server_to_client.hmac, HmacAlg::HmacSha512ETM);
    let made = propose(
        vec![1; 16],
        &vec![Kex::Curve25519Sha256],
        &vec![Key::Dsa],
        &vec![Cipher::Null],
        &vec![],
        &vec![Compress::Zlib, Compress::Null],
    );
    assert_eq!(made.cookie, vec![1; 16]);
    assert_eq!(made.encryption_algorithms_client_to_server, b"none".to_vec());
    assert_eq!(made.mac_algorithms_server_to_client, b"".to_vec());
    assert_eq!(made.compression_algorithms_client_to_server, b"zlib,none".to_vec());
}

const EXCHANGES: [Kex; 7] = [
    Kex::Curve25519Sha256,
    Kex::Curve25519Sha256Libssh,
    Kex::EcdhSha2Nistp256,
    Kex::EcdhSha2Nistp384,
    Kex::EcdhSha2Nistp521,
    Kex::DiffieHellmanGroup14Sha256,
    Kex::DiffieHellmanGroup14Sha1,
];

#[test]
fn both_sides_come_to_the_same_secret() {
    for kex in EXCHANGES {
        let a = ephemeral_secret(kex);
        let b = ephemeral_secret(kex);
        let public_a = public_key(kex, &a).unwrap();
        let public_b = public_key(kex, &b).unwrap();
        assert_ne!(public_a, public_b);
        let shared = shared_secret(kex, &a, &public_b).unwrap();
        assert_eq!(shared_secret(kex, &b, &public_a), Some(shared.clone()));
        assert!(!is_zero(&shared));
        assert_eq!(shared_secret(kex, &a, &[]), None);
    }
    let gex = Kex::DiffieHellmanGroupExchangeSha256;
    assert_eq!(ephemeral_secret(gex).len(), 64);
    assert_eq!(public_key(gex, &[1; 32]), None);
    assert_eq!(shared_secret(gex, &[1; 32], &[2; 32]), None);
}

#[test]
fn sizes_of_secrets_and_public_keys() {
    let sizes = [(32, 32), (32, 32), (32, 65), (48, 97), (66, 133)];
    for (kex, (secret, public)) in EXCHANGES.iter().zip(sizes) {
        let s = ephemeral_secret(*kex);
        assert_eq!(s.len(), secret);
        assert_eq!(public_key(*kex, &s).unwrap().len(), public);
    }
    for _ in 0..20 {
        assert!(ephemeral_secret(Kex::EcdhSha2Nistp521)[0] <= 1);
    }
    for kex in [Kex::EcdhSha2Nistp256, Kex::EcdhSha2Nistp384, Kex::EcdhSha2Nistp521] {
        let s = ephemeral_secret(kex);
        let p = public_key(kex, &s).unwrap();
        assert_eq!(p[0], 4);
        let mut compressed = p[..1 + (p.len() - 1) / 2].to_vec();
        compressed[0] = 2 + (p[p.len() - 1] & 1);
        assert_eq!(shared_secret(kex, &s, &compressed), None);
        let mut off_curve = p.clone();
        let last = off_curve.len() - 1;
        off_curve[last] ^= 1;
        assert_eq!(shared_secret(kex, &s, &off_curve), None);
        assert_eq!(public_key(kex, &vec![0; s.len()]), None);
        assert_eq!(public_key(kex, &vec![0xff; s.len()]), None);
    }
    assert_eq!(ephemeral_secret(Kex::DiffieHellmanGroup14Sha1).len(), 64);
}

#[test]
fn the_prime_of_group_14() {
    let text = "FFFFFFFFFFFFFFFFC90FDAA22168C234C4C6628B80DC1CD129024E088A67CC74020BBEA63B139B22514A08798E3404DDEF9519B3CD3A431B302B0A6DF25F14374FE1356D6D51C245E485B576625E7EC6F44C42E9A637ED6B0BFF5CB6F406B7EDEE386BFB5A899FA5AE9F24117C4B1FE649286651ECE45B3DC2007CB8A163BF0598DA48361C55D39A69163FA8FD24CF5F83655D23DCA3AD961C62F356208552BB9ED529077096966D670C354E4ABC9804F1746C08CA18217C32905E462E36CE3BE39E772C180E86039B2783A2EC07A28FB5C55DF06F4C52C9DE2BCBF6955817183995497CEA956AE515D2261898FA051015728E5A8AACAA68FFFFFFFFFFFFFFFF";
    assert_eq!(GROUP14.to_vec(), hex(text));
}

#[test]
fn powers_in_group_14() {
    let kex = Kex::DiffieHellmanGroup14Sha256;
    assert_eq!(public_key(kex, &[1]), Some(vec![2]));
    assert_eq!(public_key(kex, &[0, 0, 3]), Some(vec![8]));
    assert_eq!(public_key(kex, &[7]), Some(vec![0, 128]));
    assert_eq!(public_key(kex, &[16]), Some(vec![1, 0, 0]));
    assert_eq!(public_key(kex, &[0]), None);
    assert_eq!(public_key(kex, &[]), None);
    assert_eq!(shared_secret(kex, &[3], &[2]), Some(vec![8]));
    assert_eq!(shared_secret(kex, &[2], &[0, 128]), Some(vec![64, 0]));
    assert_eq!(shared_secret(kex, &[3], &[0, 0, 5]), Some(vec![125]));
    assert_eq!(shared_secret(kex, &[3], &[1]), None);
    assert_eq!(shared_secret(kex, &[3], &[0]), None);
    assert_eq!(shared_secret(kex, &[3], &[]), None);
    assert_eq!(shared_secret(kex, &[3], &[128]), None);
    let mut prime = vec![0u8];
    prime.extend(GROUP14);
    assert_eq!(shared_secret(kex, &[3], &prime), None);
    let last = prime.len() - 1;
    prime[last] = 0xfe;
    assert_eq!(shared_secret(kex, &[3], &prime), None);
    prime[last] = 0xfd;
    assert!(shared_secret(kex, &[3], &prime).is_some());
    assert_eq!(shared_secret(kex, &[2], &prime), Some(vec![4]));
    prime[1] = 0xff;
    prime[0] = 1;
    assert_eq!(shared_secret(kex, &[3], &prime), None);
    let x = num_bigint::BigUint::from_bytes_be(&[0x12, 0x34, 0x56]);
    let p = num_bigint::BigUint::from_bytes_be(&GROUP14);
    let e = num_bigint::BigUint::from(2u32).modpow(&x, &p).to_bytes_be();
    let mut body = Vec::new();
    if e[0] >= 0x80 {
        body.push(0);
    }
    body.extend(&e);
    assert_eq!(public_key(kex, &[0x12, 0x34, 0x56]), Some(body));
}

#[test]
fn an_exchange_in_each_group() {
    let host = host_key();
    for kex in EXCHANGES {
        let context = context_of(kex, None);
        let client_secret = ephemeral_secret(kex);
        let client_public = match client_hello(kex, &client_secret) {
            Some(Message::KexEcdhInit { q_c }) => q_c,
            other => panic!("not the client's key: {:?}", other),
        };
        let (reply, server_secrets) = server_reply(&context, &host, &client_public).unwrap();
        let (host_key, server_public, signature) = match reply {
            Message::KexEcdhReply { k_s, q_s, signature } => (k_s, q_s, signature),
            other => panic!("not the server's answer: {:?}", other),
        };
        let client_secrets =
            client_finish(&context, &client_secret, &host_key, &server_public, &signature).unwrap();
        assert_eq!(client_secrets.hash, server_secrets.hash);
        assert_eq!(client_secrets.secret, server_secrets.secret);
        assert_eq!(client_secrets.hash.len(), kex.hash().size());
        assert_eq!(client_secrets.alg, kex.hash());
        assert_eq!(
            client_finish(&context, &client_secret, &host_key, &[], &signature).err(),
            Some(Error::ProtocolViolation)
        );
    }
    let context = context_of(Kex::DiffieHellmanGroupExchangeSha256, None);
    assert_eq!(server_reply(&context, &host, &[2]).err(), Some(Error::ProtocolViolation));
    assert_eq!(
        client_finish(&context, &[1; 32], &host.public, &[2], &[3]).err(),
        Some(Error::ProtocolViolation)
    );
}

#[test]
fn requests_for_a_group() {
    let sizes = Sizes::new();
    assert_eq!(sizes, Sizes { min: 2048, preferred: 2048, max: 8192 });
    let payload = request(sizes);
    assert_eq!(payload, vec![34, 0, 0, 8, 0, 0, 0, 8, 0, 0, 0, 32, 0]);
    assert_eq!(parse_request(&payload), Some(sizes));
    assert_eq!(parse_request(&payload[..12]), None);
    assert_eq!(parse_request(&[30, 0, 0, 8, 0, 0, 0, 8, 0, 0, 0, 32, 0]), None);
    assert_eq!(parse_request(&[]), None);
    assert_eq!(offer(sizes), Some(Group::fourteen()));
    assert_eq!(offer(Sizes { min: 1024, preferred: 1024, max: 2048 }), Some(Group::fourteen()));
    assert_eq!(offer(Sizes { min: 1024, preferred: 1024, max: 2047 }), None);
    assert_eq!(offer(Sizes { min: 2049, preferred: 4096, max: 8192 }), None);
}

#[test]
fn proposals_of_a_group() {
    let group = Group::fourteen();
    assert_eq!(group.generator, vec![2]);
    assert_eq!(group.prime, GROUP14.to_vec());
    let (payload, prime, generator) = assh::kex::gex::propose(&group);
    assert_eq!(prime.len(), 257);
    assert_eq!(prime[0], 0);
    assert_eq!(generator, vec![2]);
    assert_eq!(payload[0], 31);
    assert_eq!(payload[1..5], [0, 0, 1, 1]);
    assert_eq!(payload.len(), 1 + 4 + 257 + 4 + 1);
    assert_eq!(parse_group(&payload), Some((prime.clone(), generator.clone())));
    assert_eq!(parse_group(&payload[..payload.len() - 1]), None);
    assert_eq!(parse_group(&[34]), None);
    let small = Group { prime: vec![0, 0, 23], generator: vec![5] };
    let (payload, prime, generator) = assh::kex::gex::propose(&small);
    assert_eq!(payload, vec![31, 0, 0, 0, 1, 23, 0, 0, 0, 1, 5]);
    assert_eq!(
        prelude_of(Sizes { min: 1, preferred: 2, max: 3 }, &prime, &generator),
        vec![0, 0, 0, 1, 0, 0, 0, 2, 0, 0, 0, 3, 0, 0, 0, 1, 23, 0, 0, 0, 1, 5]
    );
    assert_eq!(parse_init(&[32, 0, 0, 0, 2, 1, 2]), Some(vec![1, 2]));
    assert_eq!(parse_init(&[30, 0, 0, 0, 2, 1, 2]), None);
    assert_eq!(parse_init(&[32, 0, 0, 0, 3, 1, 2]), None);
    assert_eq!(
        parse_reply(&[33, 0, 0, 0, 1, 9, 0, 0, 0, 0, 0, 0, 0, 2, 7, 8]),
        Some((vec![9], vec![], vec![7, 8]))
    );
    assert_eq!(parse_reply(&[31, 0, 0, 0, 1, 9, 0, 0, 0, 0, 0, 0, 0, 2, 7, 8]), None);
    assert_eq!(parse_reply(&[33, 0, 0, 0, 1, 9, 0, 0, 0, 0]), None);
}

#[test]
fn sizes_of_numbers() {
    assert_eq!(bits(&[]), Some(0));
    assert_eq!(bits(&[0, 0]), Some(0));
    assert_eq!(bits(&[1]), Some(1));
    assert_eq!(bits(&[0, 3]), Some(2));
    assert_eq!(bits(&[0x7f]), Some(7));
    assert_eq!(bits(&[0x80]), Some(8));
    assert_eq!(bits(&[1, 0]), Some(9));
    assert_eq!(bits(&[0, 0x10, 0, 0]), Some(21));
    assert_eq!(bits(&GROUP14), Some(2048));
}

#[test]
fn groups_that_a_client_takes() {
    let sizes = Sizes::new();
    let mut prime = vec![0u8];
    prime.extend(GROUP14);
    assert_eq!(
        accept(sizes, prime.clone(), vec![2]),
        Some(Group { prime: prime.clone(), generator: vec![2] })
    );
    assert!(accept(sizes, prime.clone(), vec![0, 5]).is_some());
    assert_eq!(accept(sizes, GROUP14.to_vec(), vec![2]), None);
    assert_eq!(accept(sizes, prime.clone(), vec![1]), None);
    assert_eq!(accept(sizes, prime.clone(), vec![0]), None);
    assert_eq!(accept(sizes, prime.clone(), vec![]), None);
    assert_eq!(accept(sizes, prime.clone(), vec![0x80]), None);
    assert_eq!(accept(sizes, prime.clone(), prime.clone()), None);
    assert_eq!(accept(sizes, vec![], vec![2]), None);
    assert_eq!(accept(sizes, vec![23], vec![2]), None);
    assert!(accept(Sizes { min: 5, preferred: 5, max: 5 }, vec![23], vec![2]).is_some());
    assert_eq!(accept(Sizes { min: 5, preferred: 5, max: 5 }, vec![22], vec![2]), None);
    assert_eq!(accept(Sizes { min: 6, preferred: 6, max: 8 }, vec![23], vec![2]), None);
    assert_eq!(accept(Sizes { min: 1, preferred: 2, max: 4 }, vec![23], vec![2]), None);
    let mut even = prime.clone();
    even[256] = 0xfe;
    assert_eq!(accept(sizes, even, vec![2]), None);
    assert_eq!(accept(Sizes { min: 2049, preferred: 2049, max: 8192 }, prime, vec![2]), None);
}

#[test]
fn an_exchange_over_a_proposed_group() {
    let host = host_key();
    let sizes = Sizes::new();
    let group = offer(sizes).unwrap();
    let (_, prime, generator) = assh::kex::gex::propose(&group);
    let taken = accept(sizes, prime.clone(), generator.clone()).unwrap();
    let mut server = context_of(Kex::DiffieHellmanGroupExchangeSha256, None);
    server.prelude = prelude_of(sizes, &prime, &generator);
    server.group = Some(group);
    let mut client = context_of(Kex::DiffieHellmanGroupExchangeSha256, None);
    client.prelude = prelude_of(sizes, &prime, &generator);
    client.group = Some(taken);
    let secret = ephemeral_secret(Kex::DiffieHellmanGroupExchangeSha256);
    let e = client.public_key(&secret).unwrap();
    let (reply, server_secrets) = server_reply(&server, &host, &e).unwrap();
    let (host_key, f, signature) = match reply {
        Message::KexEcdhReply { k_s, q_s, signature } => (k_s, q_s, signature),
        other => panic!("not the server's answer: {:?}", other),
    };
    let client_secrets = client_finish(&client, &secret, &host_key, &f, &signature).unwrap();
    assert_eq!(client_secrets.hash, server_secrets.hash);
    assert_eq!(client_secrets.secret, server_secrets.secret);
    client.prelude[0] ^= 1;
    assert_eq!(
        client_finish(&client, &secret, &host_key, &f, &signature).err(),
        Some(Error::HostKeySignature)
    );
}
