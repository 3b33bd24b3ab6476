use assh::error::Error;
use assh::session::id::{find, identify, Id};

#[test]
fn lines_of_identifications() {
    assert_eq!(Id::v2(b"billsSSH_3.6.3q3".to_vec(), None).to_bytes(), b"SSH-2.0-billsSSH_3.6.3q3".to_vec());
    assert_eq!(
        Id::v2(b"billsSSH_3.6.3q3".to_vec(), Some(b"with comment".to_vec())).to_bytes(),
        b"SSH-2.0-billsSSH_3.6.3q3 with comment".to_vec()
    );
    assert_eq!(
        Id::v2(b"x".to_vec(), Some(Vec::new())).to_bytes(),
        b"SSH-2.0-x ".to_vec()
    );
}

#[test]
fn valid_identifications() {
    assert_eq!(
        Id::parse(b"SSH-2.0-billsSSH_3.6.3q3"),
        Ok(Id { softwareversion: b"billsSSH_3.6.3q3".to_vec(), comments: None })
    );
    assert_eq!(
        Id::parse(b"SSH-2.0-billsSSH_3.6.3q3 with-comment"),
        Ok(Id {
            softwareversion: b"billsSSH_3.6.3q3".to_vec(),
            comments: Some(b"with-comment".to_vec())
        })
    );
    assert_eq!(
        Id::parse(b"SSH-2.0-a-b c d"),
        Ok(Id { softwareversion: b"a-b".to_vec(), comments: Some(b"c d".to_vec()) })
    );
    assert_eq!(
        Id::parse(b"SSH-2.0-billsSSH_3.6.3q3 "),
        Ok(Id { softwareversion: b"billsSSH_3.6.3q3".to_vec(), comments: Some(Vec::new()) })
    );
}

#[test]
fn invalid_identifications() {
    for line in [
        &b""[..],
        b"FOO-2.0-billsSSH_3.6.3q3",
        b"-2.0-billsSSH_3.6.3q3",
        b"SSH--billsSSH_3.6.3q3",
        b"SSH-2.0-",
        b"SSH-2.0",
        b"SSH-1.99-billsSSH_3.6.3q3",
        b"SSH-1.5-x",
        b"SSH-2.0- comment",
        b"ssh-2.0-x",
    ] {
        assert_eq!(Id::parse(line), Err(Error::IdentificationInvalid));
    }
}

#[test]
fn parsing_agrees_with_the_packet_crate() {
    for text in [
        "SSH-2.0-billsSSH_3.6.3q3",
        "SSH-2.0-billsSSH_3.6.3q3 with-comment",
        "SSH-2.0-billsSSH_3.6.3q3 ",
        "SSH-2.0-a-b c d",
        "SSH-2.0-OpenSSH_9.6p1 Ubuntu-3ubuntu13",
    ] {
        let ours = Id::parse(text.as_bytes()).unwrap();
        let theirs: ssh_packet::arch::id::Id = text.parse().unwrap();
        assert_eq!(theirs.protoversion, "2.0");
        assert_eq!(ours.softwareversion, theirs.softwareversion.as_bytes().to_vec());
        assert_eq!(ours.comments, theirs.comments.as_ref().map(|c| c.as_bytes().to_vec()));
        assert_eq!(ours.to_bytes(), theirs.to_string().as_bytes().to_vec());
    }
}

#[test]
fn finding() {
    assert_eq!(find(b"", b'a'), 0);
    assert_eq!(find(b"abc", b'a'), 0);
    assert_eq!(find(b"abca", b'c'), 2);
    assert_eq!(find(b"abc", b'z'), 3);
}

#[test]
fn identification_in_a_stream() {
    assert_eq!(identify(b""), Ok(None));
    assert_eq!(identify(b"SSH-2.0-x"), Ok(None));
    assert_eq!(
        identify(b"SSH-2.0-x\r\nrest"),
        Ok(Some((Id { softwareversion: b"x".to_vec(), comments: None }, 11)))
    );
    assert_eq!(
        identify(b"SSH-2.0-x\n"),
        Ok(Some((Id { softwareversion: b"x".to_vec(), comments: None }, 10)))
    );
    assert_eq!(
        identify(b"hello\r\n\r\nworld\nSSH-2.0-x y\r\n\x00\x00"),
        Ok(Some((Id { softwareversion: b"x".to_vec(), comments: Some(b"y".to_vec()) }, 28)))
    );
    assert_eq!(identify(b"hello\r\nSSH-2.0-x y"), Ok(None));
    assert_eq!(identify(b"SSH-1.99-x\r\n"), Err(Error::IdentificationInvalid));
    assert_eq!(identify(b"banner\nSSH-2.0-\r\n"), Err(Error::IdentificationInvalid));
}

#[test]
fn lines_that_are_too_long() {
    let mut line = b"SSH-2.0-".to_vec();
    line.extend(vec![b'x'; 245]);
    line.extend(b"\r\n");
    assert_eq!(line.len(), 255);
    assert!(matches!(identify(&line), Ok(Some((_, 255)))));
    let mut line = b"SSH-2.0-".to_vec();
    line.extend(vec![b'x'; 246]);
    line.extend(b"\r\n");
    assert_eq!(identify(&line), Err(Error::IdentificationInvalid));
    assert_eq!(identify(&vec![b'y'; 254]), Ok(None));
    assert_eq!(identify(&vec![b'y'; 255]), Err(Error::IdentificationInvalid));
    let mut after = b"short\n".to_vec();
    after.extend(vec![b'y'; 255]);
    assert_eq!(identify(&after), Err(Error::IdentificationInvalid));
}
