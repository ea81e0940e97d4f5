use soxy::api::{Chunk, ChunkType, IoErrorKind};
use soxy::service::{deliver, lookup};
use soxy::stream::{
    RdpReader, RdpStream, RdpStreamCommon, RdpStreamState, RdpWriter, Taken,
    CLIENT_CHUNK_BUFFER_SIZE,
};

fn connected(client_id: u32) -> RdpStreamCommon {
    let mut control = RdpStreamCommon::new(lookup("ftp").unwrap(), client_id);
    control.accept().unwrap();
    control
}

fn taken(count: usize) -> Taken {
    Taken {
        count,
        forget: false,
    }
}

#[test]
fn state_is_connected_only_when_connected() {
    assert!(!RdpStreamState::Ready.is_connected());
    assert!(RdpStreamState::Connected.is_connected());
    assert!(!RdpStreamState::Disconnected.is_connected());
}

#[test]
fn connect_emits_start_once() {
    let mut control = RdpStreamCommon::new(lookup("clipboard").unwrap(), 5);
    assert_eq!(control.state(), RdpStreamState::Ready);
    let start = control.connect().unwrap();
    assert_eq!(start.chunk_type(), Ok(ChunkType::Start));
    assert_eq!(start.client_id(), 5);
    assert_eq!(start.payload(), b"clipboard");
    assert_eq!(control.state(), RdpStreamState::Connected);
    assert_eq!(control.connect().err(), Some(IoErrorKind::AlreadyExists));
    assert_eq!(control.accept().err(), Some(IoErrorKind::AlreadyExists));
    assert!(control.disconnected());
    assert!(!control.disconnected());
    assert_eq!(control.connect().err(), Some(IoErrorKind::Interrupted));
    assert_eq!(control.accept().err(), Some(IoErrorKind::Interrupted));
}

#[test]
fn at_most_one_end_chunk() {
    let mut control = connected(11);
    let first = control.disconnect();
    let end = first.end.unwrap();
    assert_eq!(end.chunk_type(), Ok(ChunkType::End));
    assert_eq!(end.client_id(), 11);
    assert!(first.forget);
    assert_eq!(control.state(), RdpStreamState::Disconnected);
    let second = control.disconnect();
    assert!(second.end.is_none());
    assert!(!second.forget);
    // nothing leaves a disconnected stream
    let mut writer = RdpWriter::new();
    assert_eq!(
        writer.write(&control, &[1, 2, 3]).err(),
        Some(IoErrorKind::BrokenPipe)
    );
    assert!(matches!(writer.flush(&control), Ok(None)));
}

#[test]
fn a_stream_that_never_connected_ends_without_end_chunk() {
    let mut control = RdpStreamCommon::new(lookup("ftp").unwrap(), 1);
    let d = control.disconnect();
    assert!(d.end.is_none());
    assert!(d.forget);
}

#[test]
fn no_end_chunk_after_the_peer_ended() {
    let mut control = connected(3);
    let (sender, receiver) = crossbeam_channel::bounded(CLIENT_CHUNK_BUFFER_SIZE);
    let mut reader = RdpReader::new(receiver);
    deliver(&sender, Chunk::end(3)).unwrap();
    let mut buf = [0u8; 8];
    assert_eq!(
        reader.read(&mut control, &mut buf).ok(),
        Some(Taken {
            count: 0,
            forget: true
        })
    );
    let d = control.disconnect();
    assert!(d.end.is_none());
    assert!(!d.forget);
}

#[test]
fn writer_cuts_at_the_chunk_boundary() {
    // 1593 bytes, then 1 byte, then flush: two data chunks of 1593 and 1
    let control = connected(42);
    let mut writer = RdpWriter::new();
    let first: Vec<u8> = (0..1593).map(|i| (i % 256) as u8).collect();
    let written = writer.write(&control, &first).unwrap();
    assert_eq!(written.count, 1593);
    let chunk = written.chunk.unwrap();
    assert_eq!(chunk.chunk_type(), Ok(ChunkType::Data));
    assert_eq!(chunk.client_id(), 42);
    assert_eq!(chunk.payload(), &first[..]);
    let written = writer.write(&control, &[0xaa]).unwrap();
    assert_eq!(written.count, 1);
    assert!(written.chunk.is_none());
    let chunk = writer.flush(&control).unwrap().unwrap();
    assert_eq!(chunk.payload(), &[0xaa]);
    assert!(matches!(writer.flush(&control), Ok(None)));
}

fn write_all(writer: &mut RdpWriter, control: &RdpStreamCommon, mut data: &[u8]) -> Vec<Chunk> {
    let mut chunks = Vec::new();
    loop {
        let written = writer.write(control, data).unwrap();
        if let Some(chunk) = written.chunk {
            chunks.push(chunk);
        }
        data = &data[written.count..];
        if data.is_empty() {
            return chunks;
        }
    }
}

#[test]
fn writer_emits_the_rounded_up_number_of_chunks() {
    for (pieces, total) in [
        (vec![0usize], 0usize),
        (vec![1], 1),
        (vec![1592, 1], 1),
        (vec![1593], 1),
        (vec![1594], 2),
        (vec![3186], 2),
        (vec![3187], 3),
        (vec![10, 5000, 3, 1593, 1593, 7], 6),
        (vec![1000; 16], 11),
    ] {
        let control = connected(1);
        let mut writer = RdpWriter::new();
        let n: usize = pieces.iter().sum();
        let all: Vec<u8> = (0..n).map(|i| (i % 253) as u8).collect();
        let mut chunks = Vec::new();
        let mut at = 0;
        for piece in pieces {
            chunks.extend(write_all(&mut writer, &control, &all[at..at + piece]));
            at += piece;
        }
        if let Some(chunk) = writer.flush(&control).unwrap() {
            chunks.push(chunk);
        }
        assert_eq!(chunks.len(), total);
        assert_eq!(chunks.len(), (n + 1592) / 1593);
        let mut sent = Vec::new();
        for (i, chunk) in chunks.iter().enumerate() {
            if i + 1 < chunks.len() {
                assert_eq!(chunk.payload().len(), 1593);
            } else {
                assert!(!chunk.payload().is_empty());
            }
            sent.extend_from_slice(chunk.payload());
        }
        assert_eq!(sent, all);
    }
}

#[test]
fn writer_takes_at_most_a_chunk_beyond_the_room_left() {
    let control = connected(1);
    let mut writer = RdpWriter::new();
    writer.write(&control, &[1u8; 100]).unwrap();
    let written = writer.write(&control, &[2u8; 5000]).unwrap();
    assert_eq!(written.count, 1493 + 1593);
    assert_eq!(written.chunk.unwrap().payload().len(), 1593);
    assert_eq!(writer.buffered_len(), 1593);
    // the full accumulator leaves with the next write, however small
    let written = writer.write(&control, &[]).unwrap();
    assert_eq!(written.count, 0);
    assert_eq!(written.chunk.unwrap().payload(), &[2u8; 1593][..]);
    assert_eq!(writer.buffered_len(), 0);
}

#[test]
fn writer_of_a_stream_that_is_not_connected_fails() {
    let control = RdpStreamCommon::new(lookup("ftp").unwrap(), 1);
    let mut writer = RdpWriter::new();
    assert_eq!(
        writer.write(&control, &[1]).err(),
        Some(IoErrorKind::BrokenPipe)
    );
    assert_eq!(writer.buffered_len(), 0);
}

#[test]
fn flush_after_disconnection_drops_what_was_gathered() {
    let mut control = connected(1);
    let mut writer = RdpWriter::new();
    writer.write(&control, &[1, 2, 3]).unwrap();
    let copy = writer.duplicate();
    assert_eq!(copy.buffered_len(), 3);
    control.disconnected();
    assert_eq!(writer.flush(&control).err(), Some(IoErrorKind::BrokenPipe));
    assert_eq!(writer.buffered_len(), 0);
    assert!(matches!(writer.flush(&control), Ok(None)));
}

#[test]
fn reader_hands_out_payloads_in_order_until_end() {
    let mut control = connected(9);
    let (sender, receiver) = crossbeam_channel::bounded(CLIENT_CHUNK_BUFFER_SIZE);
    let mut reader = RdpReader::new(receiver);
    deliver(&sender, Chunk::data(9, &[1, 2, 3, 4, 5]).unwrap()).unwrap();
    deliver(&sender, Chunk::data(9, &[6, 7]).unwrap()).unwrap();
    deliver(&sender, Chunk::data(9, &[8]).unwrap()).unwrap();
    deliver(&sender, Chunk::end(9)).unwrap();
    deliver(&sender, Chunk::data(9, &[99]).unwrap()).unwrap();
    let mut read = Vec::new();
    let mut buf = [0u8; 3];
    loop {
        let got = reader.read(&mut control, &mut buf).unwrap();
        if got.forget {
            assert_eq!(got.count, 0);
            break;
        }
        assert!(got.count > 0);
        read.extend_from_slice(&buf[..got.count]);
    }
    assert_eq!(read, vec![1, 2, 3, 4, 5, 6, 7, 8]);
    assert_eq!(control.state(), RdpStreamState::Disconnected);
    // the stream is over: every further read says so, and takes nothing
    for _ in 0..3 {
        assert_eq!(reader.read(&mut control, &mut buf).ok(), Some(taken(0)));
    }
    assert_eq!(buf, [8, 7, 3]);
    assert_eq!(sender.len(), 1);
}

#[test]
fn reader_keeps_what_does_not_fit() {
    let mut control = connected(9);
    let (sender, receiver) = crossbeam_channel::bounded(CLIENT_CHUNK_BUFFER_SIZE);
    let mut reader = RdpReader::new(receiver);
    assert!(reader.wants_chunk(&control));
    deliver(&sender, Chunk::data(9, &[1, 2, 3, 4, 5]).unwrap()).unwrap();
    let mut buf = [0u8; 2];
    assert_eq!(reader.read(&mut control, &mut buf).ok(), Some(taken(2)));
    assert_eq!(buf, [1, 2]);
    assert!(!reader.wants_chunk(&control));
    assert_eq!(reader.read(&mut control, &mut buf).ok(), Some(taken(2)));
    assert_eq!(buf, [3, 4]);
    let mut big = [7u8; 4];
    assert_eq!(reader.read(&mut control, &mut big).ok(), Some(taken(1)));
    assert_eq!(big, [5, 7, 7, 7]);
    assert!(reader.wants_chunk(&control));
    assert_eq!(control.state(), RdpStreamState::Connected);
}

#[test]
fn reader_goes_by_the_chunk_it_is_given() {
    let mut control = connected(9);
    let (_sender, receiver) = crossbeam_channel::bounded(CLIENT_CHUNK_BUFFER_SIZE);
    let mut reader = RdpReader::new(receiver);
    let mut buf = [0u8; 2];
    // neither leftover nor chunk: a chunk is wanted
    let (got, back) = reader.read_from(&mut control, None, &mut buf);
    assert!(got.is_none() && back.is_none());
    let (got, back) = reader.read_from(&mut control, Chunk::data(9, &[1, 2, 3]).ok(), &mut buf);
    assert_eq!(got, Some(taken(2)));
    assert!(back.is_none());
    // what is left goes first, and a chunk that is not needed comes back
    let (got, back) = reader.read_from(&mut control, Chunk::data(9, &[4]).ok(), &mut buf);
    assert_eq!(got, Some(taken(1)));
    assert_eq!(buf, [3, 2]);
    assert_eq!(back.unwrap().payload(), &[4]);
    let (got, back) = reader.read_from(&mut control, Some(Chunk::end(9)), &mut buf);
    assert_eq!(
        got,
        Some(Taken {
            count: 0,
            forget: true
        })
    );
    assert!(back.is_none());
    assert_eq!(control.state(), RdpStreamState::Disconnected);
    let (got, back) = reader.read_from(&mut control, Chunk::data(9, &[5]).ok(), &mut buf);
    assert_eq!(got, Some(taken(0)));
    assert_eq!(back.unwrap().payload(), &[5]);
}

#[test]
fn reader_gives_zero_bytes_for_an_empty_chunk_and_goes_on() {
    let mut control = connected(9);
    let (sender, receiver) = crossbeam_channel::bounded(CLIENT_CHUNK_BUFFER_SIZE);
    let mut reader = RdpReader::new(receiver);
    deliver(&sender, Chunk::data(9, &[]).unwrap()).unwrap();
    deliver(&sender, Chunk::data(9, &[4]).unwrap()).unwrap();
    let mut buf = [0u8; 2];
    assert_eq!(reader.read(&mut control, &mut buf).ok(), Some(taken(0)));
    assert_eq!(control.state(), RdpStreamState::Connected);
    assert_eq!(reader.read(&mut control, &mut buf).ok(), Some(taken(1)));
    assert_eq!(buf[0], 4);
}

#[test]
fn reader_of_a_stream_that_is_not_connected_reads_the_end() {
    let mut control = RdpStreamCommon::new(lookup("ftp").unwrap(), 1);
    let (sender, receiver) = crossbeam_channel::bounded(CLIENT_CHUNK_BUFFER_SIZE);
    let mut reader = RdpReader::new(receiver);
    deliver(&sender, Chunk::data(1, &[1]).unwrap()).unwrap();
    let mut buf = [9u8; 2];
    assert_eq!(reader.read(&mut control, &mut buf).ok(), Some(taken(0)));
    assert_eq!(buf, [9, 9]);
    assert_eq!(sender.len(), 1);
    assert_eq!(control.state(), RdpStreamState::Ready);
}

#[test]
fn a_queue_that_was_let_go_ends_the_stream() {
    let mut control = connected(9);
    let (sender, receiver) = crossbeam_channel::bounded(CLIENT_CHUNK_BUFFER_SIZE);
    let mut reader = RdpReader::new(receiver);
    deliver(&sender, Chunk::data(9, &[1]).unwrap()).unwrap();
    drop(sender);
    let mut buf = [0u8; 2];
    assert_eq!(reader.read(&mut control, &mut buf).ok(), Some(taken(1)));
    let end = reader.read(&mut control, &mut buf).unwrap_err();
    assert!(end.end.is_none() && end.forget);
    assert_eq!(control.state(), RdpStreamState::Disconnected);
    assert_eq!(reader.read(&mut control, &mut buf).ok(), Some(taken(0)));
}

#[test]
fn a_queue_holds_sixteen_chunks() {
    let (sender, receiver) = crossbeam_channel::bounded::<Chunk>(CLIENT_CHUNK_BUFFER_SIZE);
    for i in 0..CLIENT_CHUNK_BUFFER_SIZE {
        assert!(!sender.is_full());
        deliver(&sender, Chunk::data(1, &[i as u8]).unwrap()).unwrap();
    }
    assert!(sender.is_full());
    assert_eq!(sender.len(), 16);
    drop(receiver);
    // a chunk that no reader will take comes back
    let back = deliver(&sender, Chunk::data(1, &[0xee]).unwrap()).unwrap_err();
    assert_eq!(back.payload(), &[0xee]);
}

#[test]
fn a_chunk_that_cannot_be_sent_ends_the_stream() {
    let mut control = connected(4);
    assert!(control.sent(true).is_ok());
    assert!(control.is_connected());
    let end = control.sent(false).unwrap_err();
    assert!(end.end.is_none() && end.forget);
    assert_eq!(control.state(), RdpStreamState::Disconnected);
    let again = control.sent(false).unwrap_err();
    assert!(again.end.is_none() && !again.forget);
    assert!(control.disconnect().end.is_none());
}

fn stream(name: &str, client_id: u32) -> RdpStream {
    let (_sender, receiver) = crossbeam_channel::bounded(CLIENT_CHUNK_BUFFER_SIZE);
    RdpStream::new(lookup(name).unwrap(), client_id, receiver)
}

#[test]
fn stream_disconnect_flushes_then_ends() {
    let mut stream = stream("command", 77);
    assert_eq!(stream.client_id(), 77);
    stream.control.connect().unwrap();
    stream.writer.write(&stream.control, &[1, 2]).unwrap();
    let closing = stream.disconnect().unwrap();
    assert_eq!(closing.data.unwrap().payload(), &[1, 2]);
    assert_eq!(closing.end.unwrap().chunk_type(), Ok(ChunkType::End));
    assert!(closing.forget);
    let again = stream.disconnect().unwrap();
    assert!(again.data.is_none() && again.end.is_none() && !again.forget);
}

#[test]
fn stream_close_never_fails() {
    let mut stream = stream("command", 77);
    stream.control.connect().unwrap();
    stream.writer.write(&stream.control, &[1, 2]).unwrap();
    stream.control.disconnected();
    assert_eq!(stream.disconnect().err(), Some(IoErrorKind::BrokenPipe));
    stream.writer.write(&stream.control, &[1]).unwrap_err();
    let closing = stream.close();
    assert!(closing.data.is_none() && closing.end.is_none() && !closing.forget);
    let (control, _reader, writer) = stream.split();
    assert_eq!(control.client_id(), 77);
    assert_eq!(control.service().name(), "command");
    assert!(!control.is_connected());
    assert_eq!(writer.buffered_len(), 0);
}
