use assh::algorithm::{Cipher, Compress};
use assh::error::Error;
use assh::transport::codec::{decode, encode, encode_padded, same_bytes};
use assh::transport::crypt::{add_to_counter, advance, open, seal};
use assh::transport::hmac::{HmacAlg, HmacPair};
use assh::transport::packet::{build_packet, padding_for, MAX_PACKET_LENGTH};
use assh::transport::{Transport, TransportPair};
use cbc::cipher::{BlockDecryptMut, KeyIvInit, StreamCipher};
use hmac::Mac;

fn keyed(cipher: Cipher, hmac: HmacAlg) -> Transport {
    Transport {
        cipher,
        hmac,
        compress: Compress::Null,
        key: (0..cipher.key_size() as u8).map(|i| i.wrapping_mul(7).wrapping_add(1)).collect(),
        iv: (0..cipher.iv_size() as u8).map(|i| 0xf0 ^ i).collect(),
        mac_key: (0..hmac.size() as u8).map(|i| i.wrapping_mul(3)).collect(),
        seq: 3,
    }
}

const CIPHERS: [Cipher; 8] = [
    Cipher::Aes256Ctr,
    Cipher::Aes192Ctr,
    Cipher::Aes128Ctr,
    Cipher::Aes256Cbc,
    Cipher::Aes192Cbc,
    Cipher::Aes128Cbc,
    Cipher::TDesCbc,
    Cipher::Null,
];

const MACS: [HmacAlg; 9] = [
    HmacAlg::HmacSha512ETM,
    HmacAlg::HmacSha256ETM,
    HmacAlg::HmacSha512,
    HmacAlg::HmacSha256,
    HmacAlg::HmacSha1ETM,
    HmacAlg::HmacSha1,
    HmacAlg::HmacMd5ETM,
    HmacAlg::HmacMd5,
    HmacAlg::Null,
];

fn payloads() -> Vec<Vec<u8>> {
    vec![
        vec![],
        vec![42],
        b"hello".to_vec(),
        (0..=255u8).collect(),
        vec![0x55; 1000],
        vec![7; 11],
        vec![9; 32768],
    ]
}

#[test]
fn clear_frame_byte_for_byte() {
    let mut tx = Transport::new();
    let frame = encode_padded(&[1, 2, 3], &[0xaa; 8], &mut tx, MAX_PACKET_LENGTH).unwrap();
    assert_eq!(
        frame,
        vec![0, 0, 0, 12, 8, 1, 2, 3, 0xaa, 0xaa, 0xaa, 0xaa, 0xaa, 0xaa, 0xaa, 0xaa]
    );
    assert_eq!(tx.seq, 1);
    let mut rx = Transport::new();
    assert_eq!(decode(&frame, &mut rx, MAX_PACKET_LENGTH), Ok((vec![1, 2, 3], 16)));
    assert_eq!(rx.seq, 1);
}

#[test]
fn packet_byte_for_byte() {
    assert_eq!(build_packet(b"ab", &[0; 4]), vec![0, 0, 0, 7, 4, b'a', b'b', 0, 0, 0, 0]);
    assert_eq!(build_packet(&[], &[1, 2, 3, 4, 5]), vec![0, 0, 0, 6, 5, 1, 2, 3, 4, 5]);
}

#[test]
fn least_padding() {
    assert_eq!(padding_for(8, false, 0), 11);
    assert_eq!(padding_for(8, false, 3), 8);
    assert_eq!(padding_for(8, false, 6), 5);
    assert_eq!(padding_for(8, false, 7), 4);
    assert_eq!(padding_for(8, false, 8), 11);
    assert_eq!(padding_for(16, false, 0), 11);
    assert_eq!(padding_for(16, false, 7), 4);
    assert_eq!(padding_for(16, false, 8), 19);
    assert_eq!(padding_for(16, false, 11), 16);
    assert_eq!(padding_for(16, true, 0), 15);
    assert_eq!(padding_for(16, true, 11), 4);
    assert_eq!(padding_for(16, true, 12), 19);
    assert_eq!(padding_for(8, true, 7), 8);
    for block in [8usize, 16] {
        for etm in [false, true] {
            for n in 0..100usize {
                let pad = padding_for(block, etm, n);
                assert!((4..=255).contains(&pad));
                assert!(pad < 4 + block);
                let counted = if etm { n + 1 } else { n + 5 };
                assert_eq!((counted + pad) % block, 0);
            }
        }
    }
}

#[test]
fn decode_gives_back_what_encode_was_given() {
    for cipher in CIPHERS {
        for mac in MACS {
            let mut tx = keyed(cipher, mac);
            let mut rx = keyed(cipher, mac);
            for payload in payloads() {
                let frame = encode(&payload, &mut tx, MAX_PACKET_LENGTH).unwrap();
                let size = frame.len();
                assert_eq!(decode(&frame, &mut rx, MAX_PACKET_LENGTH), Ok((payload, size)));
                assert_eq!(tx, rx);
            }
            assert_eq!(tx.seq, 3 + payloads().len() as u32);
        }
    }
}

#[test]
fn frames_are_decoded_one_by_one_from_a_stream() {
    for cipher in CIPHERS {
        for mac in MACS {
            let mut tx = keyed(cipher, mac);
            let mut rx = keyed(cipher, mac);
            let mut stream = Vec::new();
            for payload in payloads() {
                stream.extend(encode(&payload, &mut tx, MAX_PACKET_LENGTH).unwrap());
            }
            stream.extend([1, 2, 3]);
            let mut at = 0;
            for payload in payloads() {
                let (got, size) = decode(&stream[at..], &mut rx, MAX_PACKET_LENGTH).unwrap();
                assert_eq!(got, payload);
                at += size;
            }
            assert_eq!(at + 3, stream.len());
            assert_eq!(decode(&stream[at..], &mut rx, MAX_PACKET_LENGTH), Err(Error::ShortRead));
            assert_eq!(tx, rx);
        }
    }
}

#[test]
fn a_frame_cut_short_is_a_short_read_and_changes_nothing() {
    for cipher in CIPHERS {
        for mac in MACS {
            let mut tx = keyed(cipher, mac);
            let frame = encode(b"some payload", &mut tx, MAX_PACKET_LENGTH).unwrap();
            for cut in 0..frame.len() {
                let mut rx = keyed(cipher, mac);
                assert_eq!(
                    decode(&frame[..cut], &mut rx, MAX_PACKET_LENGTH),
                    Err(Error::ShortRead)
                );
                assert_eq!(rx, keyed(cipher, mac));
            }
        }
    }
}

#[test]
fn every_bit_of_the_tag_counts() {
    for cipher in [Cipher::Aes128Ctr, Cipher::Aes256Cbc, Cipher::TDesCbc, Cipher::Null] {
        for mac in MACS {
            if mac == HmacAlg::Null {
                continue;
            }
            let mut tx = keyed(cipher, mac);
            let frame = encode(b"payload", &mut tx, MAX_PACKET_LENGTH).unwrap();
            let start = frame.len() - mac.size();
            for bit in 0..mac.size() * 8 {
                let mut forged = frame.clone();
                forged[start + bit / 8] ^= 1 << (bit % 8);
                let mut rx = keyed(cipher, mac);
                assert_eq!(decode(&forged, &mut rx, MAX_PACKET_LENGTH), Err(Error::BadMac));
                assert_eq!(rx, keyed(cipher, mac));
            }
        }
    }
}

#[test]
fn every_bit_of_the_ciphertext_counts() {
    for cipher in [Cipher::Aes128Ctr, Cipher::Aes256Cbc, Cipher::TDesCbc, Cipher::Null] {
        for mac in [HmacAlg::HmacSha256ETM, HmacAlg::HmacSha256, HmacAlg::HmacSha1ETM] {
            let mut tx = keyed(cipher, mac);
            let frame = encode(b"payload", &mut tx, MAX_PACKET_LENGTH).unwrap();
            let end = frame.len() - mac.size();
            for bit in 0..end * 8 {
                let mut forged = frame.clone();
                forged[bit / 8] ^= 1 << (bit % 8);
                let mut rx = keyed(cipher, mac);
                let got = decode(&forged, &mut rx, MAX_PACKET_LENGTH);
                let in_length = if mac.etm() { bit < 32 } else { bit < cipher.block_size() * 8 };
                if in_length {
                    assert!(
                        matches!(
                            got,
                            Err(Error::BadMac) | Err(Error::InvalidLength) | Err(Error::ShortRead)
                        ),
                        "{:?}",
                        got
                    );
                } else {
                    assert_eq!(got, Err(Error::BadMac));
                }
                assert_eq!(rx, keyed(cipher, mac));
            }
        }
    }
}

#[test]
fn the_sequence_number_counts() {
    let mut tx = keyed(Cipher::Aes128Ctr, HmacAlg::HmacSha256);
    let frame = encode(b"payload", &mut tx, MAX_PACKET_LENGTH).unwrap();
    let mut rx = keyed(Cipher::Aes128Ctr, HmacAlg::HmacSha256);
    rx.seq = 4;
    assert_eq!(decode(&frame, &mut rx, MAX_PACKET_LENGTH), Err(Error::BadMac));
}

#[test]
fn the_sequence_number_wraps() {
    for mac in [HmacAlg::HmacSha256, HmacAlg::HmacSha256ETM, HmacAlg::Null] {
        let mut tx = keyed(Cipher::Aes128Cbc, mac);
        let mut rx = keyed(Cipher::Aes128Cbc, mac);
        tx.seq = u32::MAX;
        rx.seq = u32::MAX;
        let frame = encode(b"last", &mut tx, MAX_PACKET_LENGTH).unwrap();
        assert_eq!(tx.seq, 0);
        assert_eq!(decode(&frame, &mut rx, MAX_PACKET_LENGTH), Ok((b"last".to_vec(), frame.len())));
        assert_eq!(rx.seq, 0);
        let frame = encode(b"first", &mut tx, MAX_PACKET_LENGTH).unwrap();
        assert_eq!(tx.seq, 1);
        assert_eq!(decode(&frame, &mut rx, MAX_PACKET_LENGTH), Ok((b"first".to_vec(), frame.len())));
    }
}

#[test]
fn lengths_that_are_refused() {
    let mut rx = Transport::new();
    assert_eq!(
        decode(&[0, 0, 0, 4, 4, 0, 0, 0], &mut rx, MAX_PACKET_LENGTH),
        Err(Error::InvalidLength)
    );
    assert_eq!(
        decode(&[0, 0, 0, 13, 4, 0, 0, 0], &mut rx, MAX_PACKET_LENGTH),
        Err(Error::InvalidLength)
    );
    assert_eq!(
        decode(&[0, 0, 0x88, 0xbc, 4, 0, 0, 0], &mut rx, MAX_PACKET_LENGTH),
        Err(Error::InvalidLength)
    );
    assert_eq!(
        decode(&[0, 0, 0x88, 0xb4, 4, 0, 0, 0], &mut rx, MAX_PACKET_LENGTH),
        Err(Error::ShortRead)
    );
    assert_eq!(decode(&[0, 0, 0, 12, 4, 0, 0, 0], &mut rx, 11), Err(Error::InvalidLength));
    assert_eq!(decode(&[0, 0, 0, 12, 4, 0, 0, 0], &mut rx, 12), Err(Error::ShortRead));
    assert_eq!(
        decode(&[255, 255, 255, 252, 4, 0, 0, 0], &mut rx, MAX_PACKET_LENGTH),
        Err(Error::InvalidLength)
    );
    let mut body = vec![0, 0, 0, 12, 3];
    body.extend([0; 11]);
    assert_eq!(decode(&body, &mut rx, MAX_PACKET_LENGTH), Err(Error::InvalidLength));
    let mut body = vec![0, 0, 0, 12, 12];
    body.extend([0; 11]);
    assert_eq!(decode(&body, &mut rx, MAX_PACKET_LENGTH), Err(Error::InvalidLength));
    let mut body = vec![0, 0, 0, 12, 11];
    body.extend([0; 11]);
    assert_eq!(decode(&body, &mut rx, MAX_PACKET_LENGTH), Ok((vec![], 16)));
    assert_eq!(rx.seq, 1);
}

#[test]
fn payloads_that_are_too_long() {
    let mut tx = keyed(Cipher::Aes128Ctr, HmacAlg::HmacSha256);
    assert_eq!(encode(&vec![0; 35000], &mut tx, MAX_PACKET_LENGTH), Err(Error::InvalidLength));
    assert_eq!(encode(&vec![0; 34990], &mut tx, MAX_PACKET_LENGTH), Err(Error::InvalidLength));
    assert_eq!(tx, keyed(Cipher::Aes128Ctr, HmacAlg::HmacSha256));
    assert!(encode(&vec![0; 34980], &mut tx, MAX_PACKET_LENGTH).is_ok());
    let mut tx = Transport::new();
    assert_eq!(encode(&[0; 3], &mut tx, 11), Err(Error::InvalidLength));
    assert!(encode(&[0; 3], &mut tx, 12).is_ok());
}

#[test]
fn padding_that_is_refused() {
    let mut tx = Transport::new();
    assert_eq!(encode_padded(&[1, 2, 3], &[0; 7], &mut tx, 100), Err(Error::InvalidLength));
    assert_eq!(encode_padded(&[1, 2, 3, 4, 5, 6, 7, 8], &[0; 3], &mut tx, 100), Err(Error::InvalidLength));
    assert_eq!(encode_padded(&[1, 2, 3], &[0; 256], &mut tx, 1000), Err(Error::InvalidLength));
    assert!(encode_padded(&[1, 2, 3], &[0; 16], &mut tx, 100).is_ok());
    assert!(encode_padded(&[1, 2, 3], &[0; 248], &mut tx, 1000).is_ok());
    assert_eq!(tx.seq, 2);
}

#[test]
fn compression_that_cannot_be_undone() {
    let mut tx = Transport::new();
    let frame = encode(b"payload", &mut tx, MAX_PACKET_LENGTH).unwrap();
    let mut rx = Transport::new();
    rx.compress = Compress::Zlib;
    assert_eq!(decode(&frame, &mut rx, MAX_PACKET_LENGTH), Err(Error::Decompress));
    assert_eq!(rx.seq, 0);
}

fn packets_of(frames: &[Vec<u8>], mac: HmacAlg) -> Vec<u8> {
    frames.iter().flat_map(|f| f[..f.len() - mac.size()].to_vec()).collect()
}

#[test]
fn counter_mode_frames_are_one_key_stream() {
    let mac = HmacAlg::HmacSha256;
    let mut tx = keyed(Cipher::Aes128Ctr, mac);
    let start = tx.clone();
    let frames: Vec<Vec<u8>> = payloads()
        .iter()
        .take(6)
        .map(|p| encode(p, &mut tx, MAX_PACKET_LENGTH).unwrap())
        .collect();
    let mut stream = packets_of(&frames, mac);
    let mut cipher =
        ctr::Ctr128BE::<aes::Aes128>::new(start.key.as_slice().into(), start.iv.as_slice().into());
    cipher.apply_keystream(&mut stream);
    let mut at = 0;
    for (i, payload) in payloads().iter().take(6).enumerate() {
        let length = u32::from_be_bytes(stream[at..at + 4].try_into().unwrap()) as usize;
        let pad = stream[at + 4] as usize;
        assert_eq!(length, 1 + payload.len() + pad);
        assert_eq!(&stream[at + 5..at + 5 + payload.len()], payload.as_slice());
        let mut h = hmac::Hmac::<sha2::Sha256>::new_from_slice(&start.mac_key).unwrap();
        h.update(&(start.seq + i as u32).to_be_bytes());
        h.update(&stream[at..at + 4 + length]);
        let tag = h.finalize().into_bytes().to_vec();
        assert_eq!(&frames[i][frames[i].len() - 32..], tag.as_slice());
        at += 4 + length;
    }
    assert_eq!(at, stream.len());
}

#[test]
fn chaining_mode_frames_are_one_chain() {
    let mac = HmacAlg::HmacSha1;
    let mut tx = keyed(Cipher::Aes256Cbc, mac);
    let start = tx.clone();
    let frames: Vec<Vec<u8>> = payloads()
        .iter()
        .take(6)
        .map(|p| encode(p, &mut tx, MAX_PACKET_LENGTH).unwrap())
        .collect();
    let mut stream = packets_of(&frames, mac);
    let mut cipher =
        cbc::Decryptor::<aes::Aes256>::new(start.key.as_slice().into(), start.iv.as_slice().into());
    for block in stream.chunks_mut(16) {
        cipher.decrypt_block_mut(block.into());
    }
    let mut at = 0;
    for (i, payload) in payloads().iter().take(6).enumerate() {
        let length = u32::from_be_bytes(stream[at..at + 4].try_into().unwrap()) as usize;
        assert_eq!(&stream[at + 5..at + 5 + payload.len()], payload.as_slice());
        let mut h = hmac::Hmac::<sha1::Sha1>::new_from_slice(&start.mac_key).unwrap();
        h.update(&(start.seq + i as u32).to_be_bytes());
        h.update(&stream[at..at + 4 + length]);
        let tag = h.finalize().into_bytes().to_vec();
        assert_eq!(&frames[i][frames[i].len() - 20..], tag.as_slice());
        at += 4 + length;
    }
    assert_eq!(at, stream.len());
}

#[test]
fn triple_des_frames_are_one_chain() {
    let mac = HmacAlg::HmacMd5;
    let mut tx = keyed(Cipher::TDesCbc, mac);
    let start = tx.clone();
    let frames: Vec<Vec<u8>> = payloads()
        .iter()
        .take(4)
        .map(|p| encode(p, &mut tx, MAX_PACKET_LENGTH).unwrap())
        .collect();
    let mut stream = packets_of(&frames, mac);
    let mut cipher =
        cbc::Decryptor::<des::TdesEde3>::new(start.key.as_slice().into(), start.iv.as_slice().into());
    for block in stream.chunks_mut(8) {
        cipher.decrypt_block_mut(block.into());
    }
    let mut at = 0;
    for (i, payload) in payloads().iter().take(4).enumerate() {
        let length = u32::from_be_bytes(stream[at..at + 4].try_into().unwrap()) as usize;
        assert_eq!(&stream[at + 5..at + 5 + payload.len()], payload.as_slice());
        let mut h = hmac::Hmac::<md5::Md5>::new_from_slice(&start.mac_key).unwrap();
        h.update(&(start.seq + i as u32).to_be_bytes());
        h.update(&stream[at..at + 4 + length]);
        let tag = h.finalize().into_bytes().to_vec();
        assert_eq!(&frames[i][frames[i].len() - 16..], tag.as_slice());
        at += 4 + length;
    }
    assert_eq!(at, stream.len());
}

#[test]
fn encrypt_then_mac_leaves_the_length_in_clear_and_covers_the_ciphertext() {
    let mac = HmacAlg::HmacSha512ETM;
    let mut tx = keyed(Cipher::Aes192Ctr, mac);
    let start = tx.clone();
    let frames: Vec<Vec<u8>> = payloads()
        .iter()
        .take(6)
        .map(|p| encode(p, &mut tx, MAX_PACKET_LENGTH).unwrap())
        .collect();
    let mut cipher =
        ctr::Ctr128BE::<aes::Aes192>::new(start.key.as_slice().into(), start.iv.as_slice().into());
    for (i, payload) in payloads().iter().take(6).enumerate() {
        let frame = &frames[i];
        let length = u32::from_be_bytes(frame[..4].try_into().unwrap()) as usize;
        assert_eq!(frame.len(), 4 + length + 64);
        assert_eq!(length % 16, 0);
        let mut h = hmac::Hmac::<sha2::Sha512>::new_from_slice(&start.mac_key).unwrap();
        h.update(&(start.seq + i as u32).to_be_bytes());
        h.update(&frame[..4 + length]);
        assert_eq!(&frame[4 + length..], h.finalize().into_bytes().as_slice());
        let mut body = frame[4..4 + length].to_vec();
        cipher.apply_keystream(&mut body);
        let pad = body[0] as usize;
        assert_eq!(length, 1 + payload.len() + pad);
        assert_eq!(&body[1..1 + payload.len()], payload.as_slice());
    }
}

#[test]
fn sealing_and_opening() {
    let t = keyed(Cipher::Aes128Cbc, HmacAlg::Null);
    let text = [7u8; 32];
    let sealed = seal(t.cipher, &t.key, &t.iv, &text);
    assert_ne!(sealed, text.to_vec());
    assert_eq!(sealed.len(), 32);
    assert_eq!(open(t.cipher, &t.key, &t.iv, &sealed), text.to_vec());
    assert_eq!(seal(Cipher::Null, &[], &[], &text), text.to_vec());
    assert_eq!(open(Cipher::Null, &[], &[], &text), text.to_vec());
    assert_eq!(seal(t.cipher, &t.key, &t.iv, &[]), Vec::<u8>::new());
    let t = keyed(Cipher::Aes256Ctr, HmacAlg::Null);
    let sealed = seal(t.cipher, &t.key, &t.iv, &text);
    assert_ne!(sealed, text.to_vec());
    assert_eq!(open(t.cipher, &t.key, &t.iv, &sealed), text.to_vec());
}

#[test]
fn counters() {
    assert_eq!(add_to_counter(&[0, 0], 1), vec![0, 1]);
    assert_eq!(add_to_counter(&[0, 255], 1), vec![1, 0]);
    assert_eq!(add_to_counter(&[255, 255], 1), vec![0, 0]);
    assert_eq!(add_to_counter(&[255, 255], 2), vec![0, 1]);
    assert_eq!(add_to_counter(&[1, 2, 3], 0), vec![1, 2, 3]);
    assert_eq!(add_to_counter(&[0, 0, 0], 0x01_02_03), vec![1, 2, 3]);
    assert_eq!(add_to_counter(&[0], 0x01_02_03), vec![3]);
    assert_eq!(add_to_counter(&[], 5), Vec::<u8>::new());
    assert_eq!(add_to_counter(&[0, 0xff, 0xff, 0xfe], 3), vec![1, 0, 0, 1]);
}

#[test]
fn next_initialisation_vectors() {
    let iv = [0u8; 16];
    let mut expected = [0u8; 16];
    expected[15] = 3;
    assert_eq!(advance(Cipher::Aes128Ctr, &iv, &[9; 48]), expected.to_vec());
    assert_eq!(advance(Cipher::Aes128Ctr, &iv, &[]), iv.to_vec());
    let mut ciphertext = vec![1u8; 16];
    ciphertext.extend([2u8; 16]);
    assert_eq!(advance(Cipher::Aes128Cbc, &iv, &ciphertext), vec![2u8; 16]);
    assert_eq!(advance(Cipher::Aes128Cbc, &iv, &[]), iv.to_vec());
    assert_eq!(advance(Cipher::TDesCbc, &[0; 8], &[5; 24]), vec![5u8; 8]);
    assert_eq!(advance(Cipher::Null, &[], &[5; 24]), Vec::<u8>::new());
}

#[test]
fn comparison_of_tags() {
    assert!(same_bytes(&[], &[]));
    assert!(same_bytes(&[1, 2, 3], &[1, 2, 3]));
    assert!(!same_bytes(&[1, 2, 3], &[1, 2, 4]));
    assert!(!same_bytes(&[0, 2, 3], &[1, 2, 3]));
    assert!(!same_bytes(&[1, 2, 3], &[1, 2]));
}

#[test]
fn transports_start_in_clear() {
    let pair = TransportPair::new();
    assert_eq!(pair.rx, Transport::new());
    assert_eq!(pair.tx.cipher, Cipher::Null);
    assert_eq!(pair.tx.hmac, HmacAlg::Null);
    assert_eq!(pair.tx.compress, Compress::Null);
    assert_eq!(pair.tx.seq, 0);
    assert!(pair.tx.key.is_empty());
    assert_eq!(HmacPair::default(), HmacPair { rx: HmacAlg::Null, tx: HmacAlg::Null, seq: 0 });
}
