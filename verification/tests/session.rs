use assh::algorithm::key::Key;
use assh::algorithm::{Cipher, Kex};
use assh::error::{DisconnectReason, Error};
use assh::kex::ecdh::HostKey;
use assh::message::Message;
use assh::session::client::Client;
use assh::session::id::Id;
use assh::session::rekey::Limits;
use assh::session::route::State;
use assh::session::server::Server;
use assh::session::service;
use assh::session::{Poll, Session, Side};
use assh::transport::hmac::HmacAlg;

fn host_key() -> (Key, HostKey) {
    let key = ssh_key::PrivateKey::random(&mut rand::thread_rng(), ssh_key::Algorithm::Ed25519)
        .expect("an Ed25519 key");
    (
        Key::Ed25519,
        HostKey {
            public: key.public_key().to_bytes().expect("a public key"),
            private: key.to_bytes().expect("a private key").to_vec(),
        },
    )
}

fn server() -> Server {
    Server {
        id: Id::v2(b"assh@server:0.1.0".to_vec(), None),
        timeout: 3,
        keys: vec![host_key()],
        algorithms: Default::default(),
        rekey: Limits::default(),
    }
}

fn client_with(cipher: Cipher, mac: HmacAlg, kex: Kex) -> Client {
    let mut client = Client::default();
    client.algorithms.kexs = vec![kex];
    client.algorithms.ciphers = vec![cipher];
    client.algorithms.macs = vec![mac];
    client
}

/// Moves what each side has to send over to the other, and lets both sides
/// take steps, until neither has anything left to do. Messages for the callers
/// are gathered.
fn run(client: &mut Session, server: &mut Session, now: u64) -> (Vec<Message>, Vec<Message>) {
    let mut to_client = Vec::new();
    let mut to_server = Vec::new();
    loop {
        let mut moved = false;
        let out = client.take_output();
        if !out.is_empty() {
            server.feed(&out);
            moved = true;
        }
        let out = server.take_output();
        if !out.is_empty() {
            client.feed(&out);
            moved = true;
        }
        loop {
            match client.poll(now) {
                Ok(Poll::Pending) | Err(_) => break,
                Ok(Poll::Progress) => moved = true,
                Ok(Poll::Message(m)) => {
                    to_client.push(m);
                    moved = true;
                }
            }
        }
        loop {
            match server.poll(now) {
                Ok(Poll::Pending) | Err(_) => break,
                Ok(Poll::Progress) => moved = true,
                Ok(Poll::Message(m)) => {
                    to_server.push(m);
                    moved = true;
                }
            }
        }
        if !moved {
            return (to_client, to_server);
        }
    }
}

fn connected(cipher: Cipher, mac: HmacAlg, kex: Kex) -> (Session, Session) {
    let mut client = Session::new(Side::Client(client_with(cipher, mac, kex)), 0);
    let mut server = Session::new(Side::Server(server()), 0);
    run(&mut client, &mut server, 0);
    (client, server)
}

fn end_to_end(cipher: Cipher, mac: HmacAlg, kex: Kex) {
    let (mut client, mut server) = connected(cipher, mac, kex);
    assert_eq!(client.state, State::Serviceable);
    assert_eq!(server.state, State::Serviceable);
    assert_eq!(client.pair.tx.cipher, cipher);
    assert_eq!(client.pair.rx.cipher, cipher);
    assert_eq!(server.pair.tx.hmac, mac);
    assert_eq!(client.session_id, server.session_id);
    assert!(client.session_id.is_some());
    assert_eq!(client.peer_id().unwrap().softwareversion, b"assh@server:0.1.0".to_vec());
    assert_eq!(server.peer_id().unwrap().softwareversion, b"assh@client:0.1.0".to_vec());

    client.send(service::request(b"ssh-userauth"), 0).unwrap();
    let (_, got) = run(&mut client, &mut server, 0);
    assert_eq!(got, vec![Message::ServiceRequest { service_name: b"ssh-userauth".to_vec() }]);
    server.send(service::answer(b"ssh-userauth", b"ssh-userauth"), 0).unwrap();
    let (got, _) = run(&mut client, &mut server, 0);
    assert_eq!(got.len(), 1);
    assert_eq!(service::accepted(b"ssh-userauth", got[0].clone()), Ok(()));

    let mut request = Vec::new();
    for field in [&b"user"[..], b"ssh-connection", b"none"] {
        request.extend((field.len() as u32).to_be_bytes());
        request.extend(field);
    }
    client.send(Message::Other { number: 50, data: request.clone() }, 0).unwrap();
    let (_, got) = run(&mut client, &mut server, 0);
    assert_eq!(got, vec![Message::Other { number: 50, data: request }]);
    server.send(Message::Other { number: 52, data: Vec::new() }, 0).unwrap();
    let (got, _) = run(&mut client, &mut server, 0);
    assert_eq!(got, vec![Message::Other { number: 52, data: Vec::new() }]);

    client
        .send(
            Message::ChannelOpen {
                channel_type: b"session".to_vec(),
                sender_channel: 0,
                initial_window_size: 128,
                maximum_packet_size: 128,
                data: Vec::new(),
            },
            0,
        )
        .unwrap();
    let (_, got) = run(&mut client, &mut server, 0);
    assert_eq!(got.len(), 1);
    server
        .send(
            Message::ChannelOpenConfirmation {
                recipient_channel: 0,
                sender_channel: 0,
                initial_window_size: 128,
                maximum_packet_size: 128,
                data: Vec::new(),
            },
            0,
        )
        .unwrap();
    let (got, _) = run(&mut client, &mut server, 0);
    assert!(matches!(got[0], Message::ChannelOpenConfirmation { .. }));

    client.disconnect(DisconnectReason::ByApplication, b"bbbb".to_vec());
    run(&mut client, &mut server, 0);
    assert_eq!(server.state, State::Disconnected);
    assert_eq!(
        server.poll(0),
        Err(Error::Disconnected {
            reason: DisconnectReason::ByApplication,
            description: b"bbbb".to_vec()
        })
    );
}

#[test]
fn end_to_end_3des_cbc_hmac_md5() {
    end_to_end(Cipher::TDesCbc, HmacAlg::HmacMd5, Kex::Curve25519Sha256);
}

#[test]
fn end_to_end_aes128_cbc_hmac_sha1() {
    end_to_end(Cipher::Aes128Cbc, HmacAlg::HmacSha1, Kex::Curve25519Sha256);
}

#[test]
fn end_to_end_aes192_cbc_hmac_sha256() {
    end_to_end(Cipher::Aes192Cbc, HmacAlg::HmacSha256, Kex::Curve25519Sha256);
}

#[test]
fn end_to_end_aes256_cbc_hmac_sha512() {
    end_to_end(Cipher::Aes256Cbc, HmacAlg::HmacSha512, Kex::Curve25519Sha256);
}

#[test]
fn end_to_end_3des_cbc_hmac_md5_etm() {
    end_to_end(Cipher::TDesCbc, HmacAlg::HmacMd5ETM, Kex::Curve25519Sha256);
}

#[test]
fn end_to_end_aes128_cbc_hmac_sha1_etm() {
    end_to_end(Cipher::Aes128Cbc, HmacAlg::HmacSha1ETM, Kex::Curve25519Sha256);
}

#[test]
fn end_to_end_aes192_cbc_hmac_sha256_etm() {
    end_to_end(Cipher::Aes192Cbc, HmacAlg::HmacSha256ETM, Kex::Curve25519Sha256);
}

#[test]
fn end_to_end_aes256_cbc_hmac_sha512_etm() {
    end_to_end(Cipher::Aes256Cbc, HmacAlg::HmacSha512ETM, Kex::Curve25519Sha256);
}

#[test]
fn end_to_end_aes128_ctr_hmac_sha1() {
    end_to_end(Cipher::Aes128Ctr, HmacAlg::HmacSha1, Kex::Curve25519Sha256);
}

#[test]
fn end_to_end_aes192_ctr_hmac_sha256() {
    end_to_end(Cipher::Aes192Ctr, HmacAlg::HmacSha256, Kex::Curve25519Sha256);
}

#[test]
fn end_to_end_aes256_ctr_hmac_sha512() {
    end_to_end(Cipher::Aes256Ctr, HmacAlg::HmacSha512, Kex::Curve25519Sha256);
}

#[test]
fn end_to_end_aes128_ctr_hmac_sha1_etm() {
    end_to_end(Cipher::Aes128Ctr, HmacAlg::HmacSha1ETM, Kex::Curve25519Sha256);
}

#[test]
fn end_to_end_aes192_ctr_hmac_sha256_etm() {
    end_to_end(Cipher::Aes192Ctr, HmacAlg::HmacSha256ETM, Kex::Curve25519Sha256);
}

#[test]
fn end_to_end_aes256_ctr_hmac_sha512_etm() {
    end_to_end(Cipher::Aes256Ctr, HmacAlg::HmacSha512ETM, Kex::Curve25519Sha256);
}

#[test]
fn end_to_end_under_the_older_name_of_the_exchange() {
    end_to_end(Cipher::Aes128Ctr, HmacAlg::HmacSha256, Kex::Curve25519Sha256Libssh);
}

#[test]
fn end_to_end_over_nist_p256() {
    end_to_end(Cipher::Aes128Ctr, HmacAlg::HmacSha256, Kex::EcdhSha2Nistp256);
}

#[test]
fn end_to_end_over_nist_p384() {
    end_to_end(Cipher::Aes256Ctr, HmacAlg::HmacSha512ETM, Kex::EcdhSha2Nistp384);
}

#[test]
fn end_to_end_over_nist_p521() {
    end_to_end(Cipher::Aes256Cbc, HmacAlg::HmacSha512, Kex::EcdhSha2Nistp521);
}

#[test]
fn end_to_end_in_group_14_with_sha256() {
    end_to_end(Cipher::Aes128Ctr, HmacAlg::HmacSha256, Kex::DiffieHellmanGroup14Sha256);
}

#[test]
fn end_to_end_in_group_14_with_sha1() {
    end_to_end(Cipher::TDesCbc, HmacAlg::HmacSha1, Kex::DiffieHellmanGroup14Sha1);
}

#[test]
fn end_to_end_over_a_group_that_the_server_proposes() {
    end_to_end(Cipher::Aes128Ctr, HmacAlg::HmacSha256, Kex::DiffieHellmanGroupExchangeSha256);
}

#[test]
fn a_group_that_is_too_small_is_not_taken() {
    let kex = Kex::DiffieHellmanGroupExchangeSha256;
    let mut client = Session::new(
        Side::Client(client_with(Cipher::Aes128Ctr, HmacAlg::HmacSha256, kex)),
        0,
    );
    let mut server = Session::new(Side::Server(server()), 0);
    server.feed(&client.take_output());
    while let Ok(Poll::Progress) = server.poll(0) {}
    client.feed(&server.take_output());
    while client.step != assh::session::route::Step::Requesting {
        match client.poll(0) {
            Ok(Poll::Progress) => {}
            other => panic!("no request for a group: {:?}", other),
        }
    }
    client.sizes.min = 4096;
    run(&mut client, &mut server, 0);
    assert_eq!(client.state, State::Disconnected);
    assert_eq!(
        client.reason.as_ref().map(|why| why.0),
        Some(DisconnectReason::ProtocolError)
    );
    assert_eq!(server.state, State::Disconnected);
}

#[test]
fn service_refused() {
    let (mut client, mut server) =
        connected(Cipher::Aes128Ctr, HmacAlg::HmacSha256, Kex::Curve25519Sha256);
    client.send(service::request(b"nonexistent"), 0).unwrap();
    let (_, got) = run(&mut client, &mut server, 0);
    let requested = match &got[0] {
        Message::ServiceRequest { service_name } => service_name.clone(),
        other => panic!("not a service request: {:?}", other),
    };
    let answer = service::answer(b"ssh-connection", &requested);
    assert_eq!(
        answer,
        Message::Disconnect {
            reason: DisconnectReason::ServiceNotAvailable,
            description: Vec::new(),
            language: Vec::new()
        }
    );
    server.disconnect(DisconnectReason::ServiceNotAvailable, Vec::new());
    run(&mut client, &mut server, 0);
    assert_eq!(client.state, State::Disconnected);
    let error = client.poll(0).unwrap_err();
    assert_eq!(
        error,
        Error::Disconnected { reason: DisconnectReason::ServiceNotAvailable, description: Vec::new() }
    );
    assert_eq!(service::accepted(b"nonexistent", answer), Err(Error::ServiceNotAvailable));
    let mut wanted = assh::connect::Service;
    let surfaced = Session::service_answered(&mut wanted, client.poll(0));
    assert!(matches!(surfaced, Some(Err(Error::ServiceNotAvailable))));
}

#[test]
fn the_answer_to_a_service_request_by_what_the_session_gave() {
    let mut wanted = assh::connect::Service;
    assert!(Session::service_answered(&mut wanted, Ok(Poll::Pending)).is_none());
    assert!(Session::service_answered(&mut wanted, Ok(Poll::Progress)).is_none());
    let granted = Message::ServiceAccept { service_name: b"ssh-connection".to_vec() };
    match Session::service_answered(&mut wanted, Ok(Poll::Message(granted))) {
        Some(Ok(connect)) => assert_eq!(connect.channels.len(), 0),
        _ => panic!("the service was granted"),
    }
    let other = Message::ServiceAccept { service_name: b"ssh-userauth".to_vec() };
    assert!(matches!(
        Session::service_answered(&mut wanted, Ok(Poll::Message(other))),
        Some(Err(Error::UnexpectedMessage))
    ));
    let gone = Error::Disconnected {
        reason: DisconnectReason::ByApplication,
        description: b"bbbb".to_vec(),
    };
    assert!(matches!(
        Session::service_answered(&mut wanted, Err(gone)),
        Some(Err(Error::Disconnected { reason: DisconnectReason::ByApplication, .. }))
    ));
    assert!(matches!(
        Session::service_answered(&mut wanted, Err(Error::BadMac)),
        Some(Err(Error::BadMac))
    ));
}

#[test]
fn services_by_their_handlers() {
    let (mut client, mut server) =
        connected(Cipher::Aes128Ctr, HmacAlg::HmacSha256, Kex::Curve25519Sha256);
    let mut service = assh::connect::Service;
    client.request_service(&service, 0).unwrap();
    let (_, got) = run(&mut client, &mut server, 0);
    let requested = match &got[0] {
        Message::ServiceRequest { service_name } => service_name.clone(),
        other => panic!("not a service request: {:?}", other),
    };
    assert_eq!(requested, b"ssh-connection".to_vec());
    let connection = server.handle(&mut service, &requested, 0).unwrap();
    assert!(connection.channels.is_empty());
    let (got, _) = run(&mut client, &mut server, 0);
    let connection = Session::service_accepted(&mut service, got[0].clone()).unwrap();
    assert!(connection.channels.is_empty());
    assert_eq!(
        Session::service_accepted(&mut service, Message::NewKeys).err(),
        Some(Error::UnexpectedMessage)
    );

    assert_eq!(server.handle(&mut service, b"nonexistent", 0).err(), Some(Error::ServiceNotAvailable));
    assert_eq!(server.state, State::Disconnected);
    assert_eq!(server.reason, Some((DisconnectReason::ServiceNotAvailable, Vec::new())));
    run(&mut client, &mut server, 0);
    assert_eq!(
        client.poll(0),
        Err(Error::Disconnected { reason: DisconnectReason::ServiceNotAvailable, description: Vec::new() })
    );
    match client.request_service(&service, 0) {
        Err(Error::Disconnected { reason, .. }) => {
            assert_eq!(reason, DisconnectReason::ServiceNotAvailable)
        }
        other => panic!("not over: {:?}", other),
    }
}

#[test]
fn a_stream_that_takes_too_long_ends_the_session() {
    let (mut client, _) = connected(Cipher::Aes128Ctr, HmacAlg::HmacSha256, Kex::Curve25519Sha256);
    assert_eq!(client.timed_out(), Error::Timeout);
    assert_eq!(client.state, State::Disconnected);
    assert_eq!(client.reason, Some((DisconnectReason::ConnectionLost, Vec::new())));
    assert!(!client.take_output().is_empty());
    assert_eq!(client.timed_out(), Error::Timeout);
    assert!(client.take_output().is_empty());
}

#[test]
fn rekey_at_threshold() {
    let mut config = client_with(Cipher::Aes128Ctr, HmacAlg::HmacSha256, Kex::Curve25519Sha256);
    config.rekey.bytes = 4096;
    let mut client = Session::new(Side::Client(config), 0);
    let mut server = Session::new(Side::Server(server()), 0);
    run(&mut client, &mut server, 0);
    let id = client.session_id.clone();
    let keys = client.pair.tx.key.clone();
    assert!(id.is_some());
    let mut received = Vec::new();
    for i in 0..8u8 {
        client
            .send(Message::ChannelData { recipient_channel: 0, data: vec![i; 1024] }, 0)
            .unwrap();
        let (_, got) = run(&mut client, &mut server, 0);
        received.extend(got);
    }
    assert_eq!(received.len(), 8);
    for (i, m) in received.iter().enumerate() {
        assert_eq!(*m, Message::ChannelData { recipient_channel: 0, data: vec![i as u8; 1024] });
    }
    assert_eq!(client.state, State::Serviceable);
    assert_eq!(server.state, State::Serviceable);
    assert_ne!(client.pair.tx.key, keys);
    assert_eq!(client.pair.tx.key, server.pair.rx.key);
    assert_eq!(client.session_id, id);
    assert_eq!(server.session_id, id);
}

#[test]
fn rekey_after_the_interval() {
    let (mut client, mut server) =
        connected(Cipher::Aes256Ctr, HmacAlg::HmacSha512ETM, Kex::Curve25519Sha256);
    let keys = server.pair.tx.key.clone();
    let id = server.session_id.clone();
    server.send(Message::Ignore { data: Vec::new() }, 3600).unwrap();
    assert_eq!(server.state, State::KexRekey);
    server.send(Message::ChannelEof { recipient_channel: 7 }, 3600).unwrap();
    let (got, _) = run(&mut client, &mut server, 3600);
    assert_eq!(got, vec![Message::ChannelEof { recipient_channel: 7 }]);
    assert_eq!(server.state, State::Serviceable);
    assert_ne!(server.pair.tx.key, keys);
    assert_eq!(server.session_id, id);
    assert_eq!(client.session_id, id);
}

#[test]
fn bad_mac() {
    let (mut client, mut server) =
        connected(Cipher::Aes128Ctr, HmacAlg::HmacSha256, Kex::Curve25519Sha256);
    client.send(Message::ChannelEof { recipient_channel: 0 }, 0).unwrap();
    let mut out = client.take_output();
    let last = out.len() - 1;
    out[last] ^= 0x01;
    server.feed(&out);
    assert_eq!(server.poll(0), Err(Error::BadMac));
    assert_eq!(server.state, State::Disconnected);
    assert_eq!(server.reason, Some((DisconnectReason::MacError, Vec::new())));
    run(&mut client, &mut server, 0);
    assert_eq!(client.state, State::Disconnected);
    assert_eq!(
        client.poll(0),
        Err(Error::Disconnected { reason: DisconnectReason::MacError, description: Vec::new() })
    );
}

#[test]
fn bad_ciphertext() {
    let (mut client, mut server) =
        connected(Cipher::Aes128Ctr, HmacAlg::HmacSha256ETM, Kex::Curve25519Sha256);
    client.send(Message::ChannelEof { recipient_channel: 0 }, 0).unwrap();
    let mut out = client.take_output();
    out[5] ^= 0x80;
    server.feed(&out);
    assert_eq!(server.poll(0), Err(Error::BadMac));
    assert_eq!(server.state, State::Disconnected);
}

#[test]
fn no_common_cipher() {
    let mut config = server();
    config.algorithms.ciphers = vec![Cipher::Aes256Cbc];
    let mut client = Session::new(
        Side::Client(client_with(Cipher::Aes128Ctr, HmacAlg::HmacSha256, Kex::Curve25519Sha256)),
        0,
    );
    let mut server = Session::new(Side::Server(config), 0);
    run(&mut client, &mut server, 0);
    assert_eq!(client.state, State::Disconnected);
    assert_eq!(server.state, State::Disconnected);
    assert_eq!(
        server.reason.as_ref().map(|why| why.0),
        Some(DisconnectReason::KeyExchangeFailed)
    );
}

#[test]
fn identification_of_protocol_version_1_is_refused() {
    let mut client = Session::new(Side::Client(Client::default()), 0);
    client.feed(b"SSH-1.5-old\r\n");
    assert_eq!(client.poll(0), Err(Error::IdentificationInvalid));
    assert_eq!(client.state, State::Disconnected);
}

#[test]
fn lines_before_the_identification_are_passed_over() {
    let mut client = Session::new(Side::Client(Client::default()), 0);
    assert_eq!(client.take_output(), b"SSH-2.0-assh@client:0.1.0\r\n".to_vec());
    client.feed(b"welcome\r\nSSH-2.0-peer");
    assert_eq!(client.poll(0), Ok(Poll::Pending));
    client.feed(b" first\r\n");
    assert_eq!(client.poll(0), Ok(Poll::Progress));
    assert_eq!(client.state, State::KexInitial);
    let peer = client.peer_id().unwrap();
    assert_eq!(peer.softwareversion, b"peer".to_vec());
    assert_eq!(peer.comments, Some(b"first".to_vec()));
}

#[test]
fn messages_are_held_back_until_keys_are_in_place() {
    let mut client = Session::new(Side::Client(Client::default()), 0);
    let mut server = Session::new(Side::Server(server()), 0);
    client.send(Message::ChannelEof { recipient_channel: 3 }, 0).unwrap();
    assert_eq!(client.held.len(), 1);
    let (_, got) = run(&mut client, &mut server, 0);
    assert_eq!(got, vec![Message::ChannelEof { recipient_channel: 3 }]);
    assert!(client.held.is_empty());
}

#[test]
fn unknown_transport_message_is_answered_with_unimplemented() {
    let (mut client, mut server) =
        connected(Cipher::Aes128Ctr, HmacAlg::HmacSha256, Kex::Curve25519Sha256);
    let seq = client.pair.tx.seq;
    client.send(Message::Other { number: 9, data: vec![1, 2, 3] }, 0).unwrap();
    server.feed(&client.take_output());
    assert_eq!(server.poll(0), Ok(Poll::Progress));
    client.feed(&server.take_output());
    assert_eq!(client.poll(0), Ok(Poll::Progress));
    assert_eq!(client.state, State::Serviceable);
    assert_eq!(server.pair.rx.seq, seq + 1);
}

#[test]
fn a_packet_sent_on_a_wrong_guess_is_thrown_away() {
    let mut config = server();
    config.algorithms.kexs = vec![Kex::Curve25519Sha256];
    let mut server = Session::new(Side::Server(config), 0);
    let mut tx = assh::transport::Transport::new();
    let mut send = |server: &mut Session, m: Message| {
        let frame = assh::transport::codec::encode(&m.encode(), &mut tx, 35000).unwrap();
        server.feed(&frame);
    };
    server.feed(b"SSH-2.0-guesser\r\n");
    assert_eq!(server.poll(0), Ok(Poll::Progress));

    let mut proposal = Client::default().kexinit();
    proposal.kex_algorithms = b"ecdh-sha2-nistp256,curve25519-sha256".to_vec();
    proposal.first_kex_packet_follows = true;
    send(&mut server, Message::KexInit { proposal });
    assert_eq!(server.poll(0), Ok(Poll::Progress));
    assert_eq!(server.step, assh::session::route::Step::Exchanging);
    assert!(server.discard);
    assert_eq!(server.negotiated.map(|n| n.kex), Some(Kex::Curve25519Sha256));

    let guessed = assh::kex::group::ephemeral_secret(Kex::EcdhSha2Nistp256);
    let guessed = assh::kex::group::public_key(Kex::EcdhSha2Nistp256, &guessed).unwrap();
    send(&mut server, Message::KexEcdhInit { q_c: guessed });
    assert_eq!(server.poll(0), Ok(Poll::Progress));
    assert!(!server.discard);
    assert_eq!(server.step, assh::session::route::Step::Exchanging);
    assert_eq!(server.state, State::KexInitial);

    let secret = assh::kex::group::ephemeral_secret(Kex::Curve25519Sha256);
    let public = assh::kex::group::public_key(Kex::Curve25519Sha256, &secret).unwrap();
    send(&mut server, Message::KexEcdhInit { q_c: public });
    assert_eq!(server.poll(0), Ok(Poll::Progress));
    assert_eq!(server.step, assh::session::route::Step::Finishing);
    assert!(server.session_id.is_some());
}

#[test]
fn a_packet_sent_on_a_right_guess_is_taken() {
    let mut config = server();
    config.algorithms.kexs = vec![Kex::Curve25519Sha256];
    let mut server = Session::new(Side::Server(config), 0);
    let mut tx = assh::transport::Transport::new();
    let mut send = |server: &mut Session, m: Message| {
        let frame = assh::transport::codec::encode(&m.encode(), &mut tx, 35000).unwrap();
        server.feed(&frame);
    };
    server.feed(b"SSH-2.0-guesser\r\n");
    assert_eq!(server.poll(0), Ok(Poll::Progress));
    let mut proposal = Client::default().kexinit();
    proposal.first_kex_packet_follows = true;
    send(&mut server, Message::KexInit { proposal });
    let secret = assh::kex::group::ephemeral_secret(Kex::Curve25519Sha256);
    let public = assh::kex::group::public_key(Kex::Curve25519Sha256, &secret).unwrap();
    send(&mut server, Message::KexEcdhInit { q_c: public });
    assert_eq!(server.poll(0), Ok(Poll::Progress));
    assert!(!server.discard);
    assert_eq!(server.poll(0), Ok(Poll::Progress));
    assert_eq!(server.step, assh::session::route::Step::Finishing);
    assert_eq!(server.poll(0), Ok(Poll::Pending));
}

#[test]
fn application_messages_must_not_come_while_keys_are_exchanged() {
    let (mut client, mut server) =
        connected(Cipher::Aes128Ctr, HmacAlg::HmacSha256, Kex::Curve25519Sha256);
    server.send(Message::Ignore { data: Vec::new() }, 4000).unwrap();
    assert_eq!(server.state, State::KexRekey);
    client.feed(&server.take_output());
    assert_eq!(client.poll(0), Ok(Poll::Progress));
    assert_eq!(client.poll(0), Ok(Poll::Progress));
    assert_eq!(client.state, State::KexRekey);
    let answer = client.take_output();
    let mut keys = server.pair.rx.clone();
    let (_, size) = assh::transport::codec::decode(&answer, &mut keys, 35000).unwrap();
    server.feed(&answer[..size]);
    assert_eq!(server.poll(4000), Ok(Poll::Progress));
    let late = assh::transport::codec::encode(
        &Message::ChannelEof { recipient_channel: 0 }.encode(),
        &mut keys,
        35000,
    )
    .unwrap();
    server.feed(&late);
    assert_eq!(server.poll(4000), Err(Error::UnexpectedMessage));
    assert_eq!(server.state, State::Disconnected);
    assert_eq!(server.reason, Some((DisconnectReason::ProtocolError, Vec::new())));
}

#[test]
fn what_is_held_back_goes_out_in_order_under_the_new_keys() {
    let (mut client, mut server) =
        connected(Cipher::Aes128Cbc, HmacAlg::HmacSha256, Kex::Curve25519Sha256);
    let keys = server.pair.tx.key.clone();
    server.send(Message::Ignore { data: Vec::new() }, 3600).unwrap();
    assert_eq!(server.state, State::KexRekey);
    for i in 0..5u8 {
        let held = Message::ChannelData { recipient_channel: 3, data: vec![i; 100 + i as usize] };
        server.send(held, 3600).unwrap();
    }
    assert_eq!(server.held.len(), 5);
    let (got, _) = run(&mut client, &mut server, 3600);
    assert_eq!(got.len(), 5);
    for (i, m) in got.iter().enumerate() {
        let data = vec![i as u8; 100 + i];
        assert_eq!(*m, Message::ChannelData { recipient_channel: 3, data });
    }
    assert!(server.held.is_empty());
    assert_eq!(server.state, State::Serviceable);
    assert_ne!(server.pair.tx.key, keys);
    assert_eq!(server.pair.tx.key, client.pair.rx.key);
}

#[test]
fn a_message_that_is_too_long_is_refused_while_messages_flow() {
    let (mut client, _server) =
        connected(Cipher::Aes128Ctr, HmacAlg::HmacSha256, Kex::Curve25519Sha256);
    let long = Message::Ignore { data: vec![0; 40000] };
    assert_eq!(client.send(long, 0), Err(Error::InvalidLength));
    assert_eq!(client.take_output(), Vec::<u8>::new());
    assert_eq!(client.state, State::Serviceable);
    let fits = Message::Ignore { data: vec![0; 1000] };
    assert_eq!(client.send(fits, 0), Ok(()));
    assert!(!client.take_output().is_empty());
}
