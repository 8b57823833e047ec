use universal_archiver::relay::{ChannelSink, SinkError, XzDecoder};

#[test]
fn sink_holds_bytes_until_block_size() {
    let (mut sink, rx) = ChannelSink::new(4);
    assert_eq!(sink.write(&[1, 2]), Ok(2));
    assert!(rx.try_recv().is_err());
    assert_eq!(sink.write(&[3, 4, 5]), Ok(3));
    assert_eq!(rx.try_recv().unwrap(), vec![1, 2, 3, 4]);
    assert!(rx.try_recv().is_err());
    assert_eq!(sink.write(&[6]), Ok(1));
    assert!(rx.try_recv().is_err());
    assert_eq!(sink.flush(), Ok(()));
    assert_eq!(rx.try_recv().unwrap(), vec![5, 6]);
    assert_eq!(sink.flush(), Ok(()));
    assert!(rx.try_recv().is_err());
}

#[test]
fn sink_reports_broken_pipe() {
    let (mut sink, rx) = ChannelSink::new(2);
    drop(rx);
    assert_eq!(sink.write(&[1]), Ok(1));
    assert_eq!(sink.write(&[2]), Err(SinkError::BrokenPipe));
}

#[test]
fn reader_serves_blocks_in_order() {
    let (mut sink, rx) = ChannelSink::new(3);
    let mut dec = XzDecoder::with_receiver(rx);
    let mut got = Vec::new();
    let payload: Vec<u8> = (0u8..10).collect();
    let mut buf = [0u8; 2];
    for chunk in payload.chunks(3) {
        sink.write(chunk).unwrap();
        if chunk.len() < 3 {
            continue;
        }
        // one block is now pending: read it out completely
        loop {
            let n = dec.read(&mut buf);
            got.extend_from_slice(&buf[..n]);
            if got.len() % 3 == 0 || got.len() == payload.len() {
                break;
            }
        }
    }
    sink.flush().unwrap();
    drop(sink);
    let mut big = [0u8; 16];
    let n = dec.read(&mut big);
    got.extend_from_slice(&big[..n]);
    assert_eq!(dec.read(&mut big), 0);
    assert_eq!(got, payload);
}

#[test]
fn reader_keeps_remainder_for_next_read() {
    let (mut sink, rx) = ChannelSink::new(5);
    let mut dec = XzDecoder::with_receiver(rx);
    sink.write(&[10, 20, 30, 40, 50]).unwrap();
    let mut buf = [0u8; 2];
    assert_eq!(dec.read(&mut buf), 2);
    assert_eq!(buf, [10, 20]);
    drop(sink);
    assert_eq!(dec.read(&mut buf), 2);
    assert_eq!(buf, [30, 40]);
    let mut wide = [9u8; 4];
    assert_eq!(dec.read(&mut wide), 1);
    assert_eq!(wide, [50, 9, 9, 9]);
    assert_eq!(dec.read(&mut wide), 0);
}

#[test]
fn sink_blocks_never_exceed_block_size() {
    let (mut sink, rx) = ChannelSink::new(2);
    assert_eq!(sink.write(&[7, 8, 9]), Ok(3));
    assert_eq!(rx.try_recv().unwrap(), vec![7, 8]);
    assert!(rx.try_recv().is_err());
    assert_eq!(sink.write(&[10]), Ok(1));
    assert_eq!(rx.try_recv().unwrap(), vec![9, 10]);
    assert_eq!(sink.flush(), Ok(()));
    assert!(rx.try_recv().is_err());
}

#[test]
fn serve_takes_a_given_block() {
    let (_sink, rx) = ChannelSink::new(4);
    let mut dec = XzDecoder::with_receiver(rx);
    let mut buf = [0u8; 3];
    assert_eq!(dec.serve(Some(vec![1, 2, 3, 4, 5]), &mut buf), 3);
    assert_eq!(buf, [1, 2, 3]);
    let mut wide = [0u8; 8];
    assert_eq!(dec.read(&mut wide), 2);
    assert_eq!(&wide[..2], &[4, 5]);
}

#[test]
fn serve_without_block_ends_stream() {
    let (_sink, rx) = ChannelSink::new(4);
    let mut dec = XzDecoder::with_receiver(rx);
    let mut buf = [9u8; 3];
    assert_eq!(dec.serve(None, &mut buf), 0);
    assert_eq!(buf, [9, 9, 9]);
}
