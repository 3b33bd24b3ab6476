use assh::connect::channel::{same_stream, Channel, Chunk, Request, Response, State, STDERR};
use assh::connect::{
    Connect, Event, Service, INITIAL_WINDOW_SIZE, MAXIMUM_PACKET_SIZE, RESOURCE_SHORTAGE,
    WINDOW_ADJUST_THRESHOLD,
};
use assh::error::Error;
use assh::message::Message;

fn data(channel: u32, bytes: &[u8]) -> Message {
    Message::ChannelData { recipient_channel: channel, data: bytes.to_vec() }
}

fn sizes(messages: &[Message]) -> Vec<usize> {
    messages
        .iter()
        .map(|m| match m {
            Message::ChannelData { data, .. } => data.len(),
            Message::ChannelExtendedData { data, .. } => data.len(),
            other => panic!("not data: {:?}", other),
        })
        .collect()
}

#[test]
fn constants() {
    assert_eq!(MAXIMUM_PACKET_SIZE, 32768);
    assert_eq!(INITIAL_WINDOW_SIZE, 2 * 1024 * 1024);
    assert_eq!(WINDOW_ADJUST_THRESHOLD, 1024 * 1024);
    assert_eq!(Service::name(), "ssh-connection");
    assert_eq!(STDERR, 1);
}

#[test]
fn a_write_is_cut_into_packets_within_the_window() {
    let mut c = Channel::new(0, 7, 100, 100, 20, 8);
    assert_eq!(c.state(), State::Open);
    assert_eq!(c.write(&[1; 30], None), Ok(20));
    assert_eq!(c.remote_window, 0);
    let out = c.take_outbound();
    assert_eq!(sizes(&out), vec![8, 8, 4]);
    assert_eq!(out[0], data(7, &[1; 8]));
    assert_eq!(c.write(&[1; 10], None), Ok(0));
    assert!(c.take_outbound().is_empty());
    assert_eq!(c.adjust(5), Ok(()));
    assert_eq!(c.write(&[2; 10], Some(1)), Ok(5));
    assert_eq!(
        c.take_outbound(),
        vec![Message::ChannelExtendedData { recipient_channel: 7, data_type: 1, data: vec![2; 5] }]
    );
    assert_eq!(c.write(&[], None), Ok(0));
    assert!(c.take_outbound().is_empty());
}

#[test]
fn the_bytes_of_a_write_go_out_in_order() {
    let mut c = Channel::new(0, 7, 100, 100, 1000, 7);
    let bytes: Vec<u8> = (0..100).collect();
    assert_eq!(c.write(&bytes, None), Ok(100));
    let out = c.take_outbound();
    assert_eq!(sizes(&out).iter().sum::<usize>(), 100);
    assert!(sizes(&out).iter().all(|n| *n <= 7 && *n > 0));
    let joined: Vec<u8> = out
        .iter()
        .flat_map(|m| match m {
            Message::ChannelData { data, .. } => data.clone(),
            _ => Vec::new(),
        })
        .collect();
    assert_eq!(joined, bytes);
    assert_eq!(c.remote_window, 900);
}

#[test]
fn a_peer_that_accepts_no_packet_gets_none() {
    let mut c = Channel::new(0, 7, 100, 100, 1000, 0);
    assert_eq!(c.write(&[1; 10], None), Ok(0));
    assert!(c.take_outbound().is_empty());
    assert_eq!(c.remote_window, 1000);
}

#[test]
fn window_adjust() {
    let mut server = Channel::new(0, 0, 1 << 20, 1 << 15, 16, 8);
    let mut client = Channel::new(0, 0, 16, 8, 1 << 20, 1 << 15);
    let bytes: Vec<u8> = (0..40).collect();
    let mut written = 0;
    let mut read = Vec::new();
    let mut trace: Vec<Message> = Vec::new();
    while read.len() < 40 {
        written += server.write(&bytes[written..], None).unwrap();
        for m in server.take_outbound() {
            trace.push(m.clone());
            assert_eq!(client.handle(m), Ok(()));
        }
        loop {
            let got = client.read(None, 100);
            if got.is_empty() {
                break;
            }
            read.extend(got);
        }
        for m in client.take_outbound() {
            trace.push(m.clone());
            assert_eq!(server.handle(m), Ok(()));
        }
    }
    assert_eq!(read, bytes);
    assert_eq!(trace[0], data(0, &bytes[0..8]));
    assert_eq!(trace[1], data(0, &bytes[8..16]));
    assert_eq!(trace[2], Message::ChannelWindowAdjust { recipient_channel: 0, bytes_to_add: 16 });
    assert_eq!(trace[3], data(0, &bytes[16..24]));
    assert_eq!(trace[4], data(0, &bytes[24..32]));
    assert_eq!(sizes(&trace[..2]), vec![8, 8]);
    let sent: usize = trace
        .iter()
        .map(|m| match m {
            Message::ChannelData { data, .. } => {
                assert!(data.len() <= 8);
                data.len()
            }
            _ => 0,
        })
        .sum();
    assert_eq!(sent, 40);
    let mut in_flight: i64 = 0;
    for m in &trace {
        match m {
            Message::ChannelData { data, .. } => in_flight += data.len() as i64,
            Message::ChannelWindowAdjust { bytes_to_add, .. } => in_flight -= *bytes_to_add as i64,
            other => panic!("neither data nor a window adjustment: {:?}", other),
        }
        assert!(in_flight <= 16);
    }
    assert!(client.local_window <= 16);
}

#[test]
fn the_window_is_restored_once_half_of_it_is_drained() {
    let mut c = Channel::new(3, 4, 16, 16, 0, 0);
    assert_eq!(c.receive(None, vec![1; 7]), Ok(()));
    assert_eq!(c.local_window, 9);
    assert_eq!(c.read(None, 100), vec![1; 7]);
    assert_eq!(c.drained, 7);
    assert_eq!(c.local_window, 9);
    assert!(c.take_outbound().is_empty());
    assert_eq!(c.receive(None, vec![2; 9]), Ok(()));
    assert_eq!(c.local_window, 0);
    assert_eq!(c.read(None, 1), vec![2]);
    assert_eq!(c.local_window, 16);
    assert_eq!(c.drained, 0);
    assert_eq!(
        c.take_outbound(),
        vec![Message::ChannelWindowAdjust { recipient_channel: 4, bytes_to_add: 16 }]
    );
    assert_eq!(c.read(None, 8), vec![2; 8]);
    assert_eq!(c.local_window, 16);
    assert_eq!(c.drained, 0);
    assert!(c.take_outbound().is_empty());
    assert_eq!(c.read(None, 8), Vec::<u8>::new());
    assert!(c.take_outbound().is_empty());
    assert_eq!(c.receive(Some(7), vec![3; 8]), Ok(()));
    assert!(c.inbound.is_empty());
    assert_eq!(c.local_window, 16);
    assert_eq!(
        c.take_outbound(),
        vec![Message::ChannelWindowAdjust { recipient_channel: 4, bytes_to_add: 8 }]
    );
    c.close();
    c.take_outbound();
    assert_eq!(c.receive(None, vec![4; 16]), Ok(()));
    assert_eq!(c.read(None, 16), vec![4; 16]);
    assert_eq!(c.local_window, 0);
    assert!(c.take_outbound().is_empty());
}

#[test]
fn a_peer_that_overruns_the_window_is_refused() {
    let mut c = Channel::new(3, 4, 16, 8, 0, 0);
    assert_eq!(c.receive(None, vec![1; 9]), Err(Error::ProtocolViolation));
    assert_eq!(c.receive(None, vec![1; 8]), Ok(()));
    assert_eq!(c.receive(None, vec![1; 8]), Ok(()));
    assert_eq!(c.local_window, 0);
    assert_eq!(c.receive(None, vec![1; 1]), Err(Error::ProtocolViolation));
    assert_eq!(c.receive(None, Vec::new()), Ok(()));
    assert_eq!(c.inbound.len(), 2);
    let mut opening = Channel::opening(1, 16, 8);
    assert_eq!(opening.state(), State::Opening);
    assert_eq!(opening.receive(None, vec![1]), Err(Error::ProtocolViolation));
    assert_eq!(opening.write(&[1], None), Err(Error::ChannelClosed));
}

#[test]
fn window_overflow() {
    let mut c = Channel::new(0, 0, 16, 16, u32::MAX - 5, 8);
    assert_eq!(c.adjust(5), Ok(()));
    assert_eq!(c.remote_window, u32::MAX);
    assert_eq!(c.adjust(0), Ok(()));
    assert_eq!(c.adjust(1), Err(Error::WindowOverflow));
    assert_eq!(c.remote_window, u32::MAX);
    let mut c = Channel::new(0, 0, 16, 16, 10, 8);
    assert_eq!(
        c.handle(Message::ChannelWindowAdjust { recipient_channel: 0, bytes_to_add: u32::MAX }),
        Err(Error::WindowOverflow)
    );
    assert_eq!(c.remote_window, u32::MAX);
}

#[test]
fn readers_pass_over_other_streams() {
    let mut c = Channel::new(0, 0, 100, 100, 0, 0);
    c.receive(None, b"out1".to_vec()).unwrap();
    c.receive(Some(STDERR), b"err1".to_vec()).unwrap();
    c.receive(Some(2), b"other".to_vec()).unwrap();
    c.receive(None, b"out2".to_vec()).unwrap();
    assert_eq!(
        c.inbound,
        vec![
            Chunk { stream: None, bytes: b"out1".to_vec() },
            Chunk { stream: Some(1), bytes: b"err1".to_vec() },
            Chunk { stream: None, bytes: b"out2".to_vec() },
        ]
    );
    assert_eq!(c.local_window, 83);
    let reader = c.as_reader_ext(STDERR);
    assert_eq!(reader.read(&mut c, 2), (b"er".to_vec(), false));
    assert_eq!(c.inbound.len(), 2);
    assert_eq!(reader.read(&mut c, 100), (b"r1".to_vec(), false));
    let reader = c.as_reader();
    assert_eq!(reader.read(&mut c, 100), (b"out2".to_vec(), false));
    assert_eq!(reader.read(&mut c, 100), (Vec::new(), false));
    c.receive_eof();
    assert_eq!(reader.read(&mut c, 100), (Vec::new(), true));
    assert!(same_stream(None, None));
    assert!(same_stream(Some(1), Some(1)));
    assert!(!same_stream(Some(1), None));
    assert!(!same_stream(Some(1), Some(2)));
}

#[test]
fn end_of_stream_comes_after_the_data() {
    let mut c = Channel::new(0, 0, 100, 100, 0, 0);
    c.receive(None, b"last".to_vec()).unwrap();
    assert_eq!(c.handle(Message::ChannelEof { recipient_channel: 0 }), Ok(()));
    assert_eq!(c.state(), State::RemoteEofReceived);
    assert!(!c.at_end(None));
    assert!(c.at_end(Some(1)));
    assert_eq!(c.receive(None, b"more".to_vec()), Err(Error::ProtocolViolation));
    assert_eq!(c.read(None, 100), b"last".to_vec());
    assert!(c.at_end(None));
}

#[test]
fn writers() {
    let mut c = Channel::new(0, 9, 100, 100, 100, 50);
    let writer = c.as_writer();
    assert_eq!(writer.write(&mut c, b"out"), Ok(3));
    let writer = c.as_writer_ext(1);
    assert_eq!(writer.write(&mut c, b"err"), Ok(3));
    assert_eq!(
        c.take_outbound(),
        vec![
            data(9, b"out"),
            Message::ChannelExtendedData { recipient_channel: 9, data_type: 1, data: b"err".to_vec() }
        ]
    );
    assert_eq!(c.send_eof(), Ok(()));
    assert_eq!(c.send_eof(), Ok(()));
    assert_eq!(c.state(), State::LocalEofSent);
    assert_eq!(c.take_outbound(), vec![Message::ChannelEof { recipient_channel: 9 }]);
    assert_eq!(writer.write(&mut c, b"late"), Err(Error::ChannelClosed));
}

#[test]
fn closing_twice_sends_one_message() {
    let mut c = Channel::new(0, 9, 100, 100, 100, 50);
    assert!(!c.is_closed());
    c.write(b"data", None).unwrap();
    c.close();
    c.close();
    assert!(c.is_closed());
    assert_eq!(c.state(), State::Closing);
    assert_eq!(c.take_outbound(), vec![data(9, b"data"), Message::ChannelClose { recipient_channel: 9 }]);
    c.close();
    assert!(c.take_outbound().is_empty());
    assert_eq!(c.write(b"late", None), Err(Error::ChannelClosed));
    assert_eq!(c.request(b"shell".to_vec(), Vec::new()), Err(Error::ChannelClosed));
    assert_eq!(c.send_eof(), Err(Error::ChannelClosed));
    assert_eq!(c.take_reply(), Err(Error::ChannelClosed));
    assert_eq!(c.handle(Message::ChannelClose { recipient_channel: 0 }), Ok(()));
    assert_eq!(c.state(), State::Closed);
    assert!(c.take_outbound().is_empty());
}

#[test]
fn a_close_of_the_peer_is_answered_once() {
    let mut c = Channel::new(0, 9, 100, 100, 100, 50);
    assert_eq!(c.handle(Message::ChannelClose { recipient_channel: 0 }), Ok(()));
    assert_eq!(c.state(), State::Closed);
    c.close();
    assert_eq!(c.take_outbound(), vec![Message::ChannelClose { recipient_channel: 9 }]);
    assert!(c.at_end(None));
}

#[test]
fn channel_request_reply() {
    let mut client = Channel::new(0, 0, 100, 100, 100, 100);
    let mut server = Channel::new(0, 0, 100, 100, 100, 100);
    assert_eq!(client.request(b"shell".to_vec(), Vec::new()), Ok(()));
    assert_eq!(client.take_reply(), Ok(None));
    for m in client.take_outbound() {
        server.handle(m).unwrap();
    }
    server.handle(data(0, b"interleaved")).unwrap();
    let answer = server.on_request(|request: &Request| {
        if request.request_type == b"shell".to_vec() {
            Response::Success
        } else {
            Response::Failure
        }
    });
    assert_eq!(answer, Ok(Some(Response::Success)));
    assert_eq!(server.on_request(|_: &Request| Response::Success), Ok(None));
    let out = server.take_outbound();
    assert_eq!(out, vec![Message::ChannelSuccess { recipient_channel: 0 }]);
    client.handle(data(0, b"before the answer")).unwrap();
    for m in out {
        client.handle(m).unwrap();
    }
    assert_eq!(client.take_reply(), Ok(Some(Response::Success)));
    assert_eq!(client.take_reply(), Ok(None));
    assert_eq!(client.read(None, 100), b"before the answer".to_vec());
    assert_eq!(server.read(None, 100), b"interleaved".to_vec());

    assert_eq!(client.request_with(b"env".to_vec(), false, vec![1]), Ok(()));
    assert_eq!(
        client.outbound,
        vec![Message::ChannelRequest {
            recipient_channel: 0,
            request_type: b"env".to_vec(),
            want_reply: false,
            data: vec![1]
        }]
    );
    for m in client.take_outbound() {
        server.handle(m).unwrap();
    }
    assert_eq!(server.on_request(|_: &Request| Response::Failure), Ok(Some(Response::Failure)));
    assert!(server.take_outbound().is_empty());

    client.request(b"exec".to_vec(), Vec::new()).unwrap();
    for m in client.take_outbound() {
        server.handle(m).unwrap();
    }
    let request = server.take_request().unwrap();
    assert_eq!(request.request_type, b"exec".to_vec());
    assert!(request.want_reply);
    assert_eq!(server.answer(request.want_reply, Response::Failure), Response::Failure);
    assert_eq!(server.take_outbound(), vec![Message::ChannelFailure { recipient_channel: 0 }]);
    assert_eq!(server.take_request(), None);
    server.close();
    assert_eq!(server.on_request(|_: &Request| Response::Success), Err(Error::ChannelClosed));
}

#[test]
fn messages_that_a_channel_does_not_take() {
    let mut c = Channel::new(0, 9, 100, 100, 100, 50);
    assert_eq!(c.handle(Message::NewKeys), Err(Error::UnexpectedMessage));
    assert_eq!(
        c.handle(Message::ChannelOpenConfirmation {
            recipient_channel: 0,
            sender_channel: 1,
            initial_window_size: 1,
            maximum_packet_size: 1,
            data: Vec::new()
        }),
        Err(Error::UnexpectedMessage)
    );
    assert_eq!(c.remote_id, 9);
}

#[test]
fn opening_a_channel() {
    let mut client = Connect::new();
    let mut server = Service.on_request();
    assert_eq!(client.open(b"session".to_vec(), 128, 64, Vec::new()), Ok(0));
    assert_eq!(client.open(b"session".to_vec(), 256, 32, vec![1]), Ok(1));
    let out = client.flush();
    assert_eq!(
        out[0],
        Message::ChannelOpen {
            channel_type: b"session".to_vec(),
            sender_channel: 0,
            initial_window_size: 128,
            maximum_packet_size: 64,
            data: Vec::new()
        }
    );
    let mut events = Vec::new();
    for m in out {
        events.push(server.handle(m).unwrap());
    }
    match &events[0] {
        Event::OpenRequest { channel_type, sender_channel, initial_window_size, maximum_packet_size, .. } => {
            assert_eq!(channel_type, &b"session".to_vec());
            assert_eq!(server.accept(*sender_channel, *initial_window_size, *maximum_packet_size, 1000, 100), Ok(0));
        }
        other => panic!("not a request to open: {:?}", other),
    }
    server.reject(1, 1, b"administratively prohibited".to_vec());
    let out = server.flush();
    assert_eq!(
        out,
        vec![
            Message::ChannelOpenConfirmation {
                recipient_channel: 0,
                sender_channel: 0,
                initial_window_size: 1000,
                maximum_packet_size: 100,
                data: Vec::new()
            },
            Message::ChannelOpenFailure {
                recipient_channel: 1,
                reason: 1,
                description: b"administratively prohibited".to_vec(),
                language: Vec::new()
            }
        ]
    );
    let mut results = Vec::new();
    for m in out {
        results.push(client.handle(m));
    }
    assert_eq!(results[0], Ok(Event::Handled));
    assert_eq!(
        results[1],
        Err(Error::ChannelOpenRejected {
            reason: 1,
            description: b"administratively prohibited".to_vec()
        })
    );
    assert_eq!(client.channels.len(), 1);
    assert_eq!(client.channels[0].state(), State::Open);
    assert_eq!(client.channels[0].remote_window, 1000);
    assert_eq!(client.channels[0].remote_max_packet, 100);
    assert_eq!(client.channels[0].local_window, 128);
    assert_eq!(server.channels[0].remote_window, 128);
    assert_eq!(server.channels[0].remote_max_packet, 64);
    assert_eq!(server.channels[0].remote_id, 0);
}

#[test]
fn messages_go_to_the_channel_they_are_addressed_to() {
    let mut c = Service.on_accept();
    assert_eq!(c.accept(10, 100, 100, 50, 50), Ok(0));
    assert_eq!(c.accept(11, 100, 100, 50, 50), Ok(1));
    assert_eq!(c.accept(12, 100, 100, 50, 50), Ok(2));
    c.flush();
    assert_eq!(c.handle(data(1, b"one")), Ok(Event::Handled));
    assert_eq!(c.handle(data(2, b"two")), Ok(Event::Handled));
    assert_eq!(c.handle(data(5, b"none")), Err(Error::ChannelClosed));
    assert_eq!(c.handle(Message::NewKeys), Err(Error::UnexpectedMessage));
    assert_eq!(c.position(0), Some(0));
    assert_eq!(c.position(2), Some(2));
    assert_eq!(c.position(3), None);
    assert!(c.channels[0].inbound.is_empty());
    assert_eq!(c.channels[1].inbound[0].bytes, b"one".to_vec());
    assert_eq!(c.channels[2].inbound[0].bytes, b"two".to_vec());
    assert_eq!(c.handle(data(1, &[0; 51])), Err(Error::ProtocolViolation));
    assert_eq!(c.handle(data(1, &[0; 47])), Ok(Event::Handled));
    assert_eq!(c.handle(data(1, &[0; 1])), Err(Error::ProtocolViolation));
    assert_eq!(c.handle(data(2, &[0; 1])), Ok(Event::Handled));

    let mut one = c.take(1).unwrap();
    assert_eq!(c.position(1), None);
    assert_eq!(c.handle(data(1, b"gone")), Err(Error::ChannelClosed));
    assert_eq!(one.read(None, 3), b"one".to_vec());
    one.write(b"reply", None).unwrap();
    c.restore(one);
    assert!(c.take(7).is_none());
    assert_eq!(c.flush(), vec![data(11, b"reply")]);
}

#[test]
fn closed_channels_leave_the_table() {
    let mut c = Connect::new();
    c.accept(10, 100, 100, 50, 50).unwrap();
    c.accept(11, 100, 100, 50, 50).unwrap();
    c.flush();
    assert_eq!(c.handle(Message::ChannelClose { recipient_channel: 0 }), Ok(Event::Handled));
    assert_eq!(c.channels.len(), 2);
    assert_eq!(c.flush(), vec![Message::ChannelClose { recipient_channel: 10 }]);
    assert_eq!(c.channels.len(), 1);
    assert_eq!(c.channels[0].local_id, 1);
    assert_eq!(c.handle(Message::ChannelEof { recipient_channel: 0 }), Err(Error::ChannelClosed));
    let mut one = c.take(1).unwrap();
    one.close();
    c.restore(one);
    assert_eq!(c.flush(), vec![Message::ChannelClose { recipient_channel: 11 }]);
    assert_eq!(c.channels.len(), 1);
    assert_eq!(c.handle(Message::ChannelClose { recipient_channel: 1 }), Ok(Event::Handled));
    assert!(c.flush().is_empty());
    assert!(c.channels.is_empty());
    assert_eq!(c.accept(12, 1, 1, 1, 1), Ok(2));
}

#[test]
fn global_requests_are_answered_in_order() {
    let mut c = Connect::new();
    c.global_request(b"first".to_vec(), true, Vec::new());
    c.global_request(b"silent".to_vec(), false, Vec::new());
    c.global_request(b"second".to_vec(), true, vec![1]);
    assert_eq!(c.flush().len(), 3);
    assert_eq!(
        c.handle(Message::RequestFailure),
        Ok(Event::GlobalReply { request_name: b"first".to_vec(), success: false, data: Vec::new() })
    );
    assert_eq!(
        c.handle(Message::RequestSuccess { data: vec![7] }),
        Ok(Event::GlobalReply { request_name: b"second".to_vec(), success: true, data: vec![7] })
    );
    assert_eq!(c.handle(Message::RequestSuccess { data: vec![7] }), Err(Error::ProtocolViolation));
    assert_eq!(
        c.handle(Message::GlobalRequest {
            request_name: b"keepalive".to_vec(),
            want_reply: true,
            data: Vec::new()
        }),
        Ok(Event::GlobalRequest {
            request_name: b"keepalive".to_vec(),
            want_reply: true,
            data: Vec::new()
        })
    );
    c.answer_global(false, Vec::new());
    c.answer_global(true, vec![1]);
    assert_eq!(c.flush(), vec![Message::RequestFailure, Message::RequestSuccess { data: vec![1] }]);
}

#[test]
fn no_local_number_is_left() {
    let mut c = Connect::new();
    c.next_id = u32::MAX;
    assert_eq!(
        c.open(b"session".to_vec(), 1, 1, Vec::new()),
        Err(Error::ChannelOpenRejected { reason: RESOURCE_SHORTAGE, description: Vec::new() })
    );
    assert!(c.flush().is_empty());
    assert_eq!(
        c.accept(3, 1, 1, 1, 1),
        Err(Error::ChannelOpenRejected { reason: RESOURCE_SHORTAGE, description: Vec::new() })
    );
    assert_eq!(
        c.flush(),
        vec![Message::ChannelOpenFailure {
            recipient_channel: 3,
            reason: RESOURCE_SHORTAGE,
            description: Vec::new(),
            language: Vec::new()
        }]
    );
}

#[test]
fn a_session_that_is_over_closes_every_channel() {
    let mut c = Connect::new();
    c.accept(10, 100, 100, 50, 50).unwrap();
    c.accept(11, 100, 100, 50, 50).unwrap();
    c.handle(data(1, b"still here")).unwrap();
    c.terminate();
    assert!(c.flush().is_empty());
    assert!(c.channels.is_empty());
    let mut c = Connect::new();
    c.accept(10, 100, 100, 50, 50).unwrap();
    c.handle(data(0, b"still here")).unwrap();
    c.terminate();
    let mut one = c.take(0).unwrap();
    assert!(one.is_closed());
    assert_eq!(one.state(), State::Closed);
    assert_eq!(one.write(b"x", None), Err(Error::ChannelClosed));
    assert_eq!(one.request(b"shell".to_vec(), Vec::new()), Err(Error::ChannelClosed));
    assert_eq!(one.take_reply(), Err(Error::ChannelClosed));
    assert_eq!(one.read(None, 100), b"still here".to_vec());
    assert!(one.at_end(None));
}

#[test]
fn errors_that_end_the_connection() {
    assert!(assh::connect::is_fatal(&Error::WindowOverflow));
    assert!(assh::connect::is_fatal(&Error::ProtocolViolation));
    assert!(!assh::connect::is_fatal(&Error::ChannelClosed));
    assert!(!assh::connect::is_fatal(&Error::UnexpectedMessage));
    assert!(!assh::connect::is_fatal(&Error::ChannelOpenRejected {
        reason: 1,
        description: Vec::new()
    }));
}

#[test]
fn global_requests_are_declined() {
    let mut c = Service.on_accept();
    c.decline_global(false);
    assert!(c.flush().is_empty());
    c.decline_global(true);
    assert_eq!(c.flush(), vec![Message::RequestFailure]);
}

#[test]
fn a_write_is_cut_into_packets_as_large_as_they_may_be() {
    let mut c = Channel::new(1, 7, 64, 64, 100, 8);
    let bytes: Vec<u8> = (0..20u8).collect();
    assert_eq!(c.write(&bytes, None), Ok(20));
    let out = c.take_outbound();
    assert_eq!(
        out,
        vec![
            data(7, &bytes[0..8]),
            data(7, &bytes[8..16]),
            data(7, &bytes[16..20]),
        ]
    );
    assert_eq!(c.remote_window, 80);
}

#[test]
fn a_write_stops_where_the_window_ends() {
    let mut c = Channel::new(1, 7, 64, 64, 16, 8);
    let bytes: Vec<u8> = (0..40u8).collect();
    assert_eq!(c.write(&bytes, None), Ok(16));
    assert_eq!(c.take_outbound(), vec![data(7, &bytes[0..8]), data(7, &bytes[8..16])]);
    assert_eq!(c.remote_window, 0);
    assert_eq!(c.write(&bytes[16..], None), Ok(0));
    assert!(c.take_outbound().is_empty());
}
