use roxy_kernel::device::{FileError, PollEvents, SeekError};
use roxy_kernel::pipe::{seek, PipeRead, PipeRole, PipeState, PipeWrite, CAPACITY};
use roxy_kernel::pty::{
    master_file_id, parse_pts_number, parse_u32, slave_file_id, MasterBuffer, MasterRead, PairNumbers,
};
use roxy_kernel::serial::translate_newlines;

fn read_bytes(pipe: &mut PipeState, capacity: usize) -> Vec<u8> {
    match pipe.read(PipeRole::Read, capacity) {
        Ok(PipeRead::Bytes(bytes)) => bytes,
        Ok(PipeRead::Block) => panic!("read blocked"),
        Err(error) => panic!("read failed: {:?}", error),
    }
}

#[test]
fn pipe_is_first_in_first_out() {
    let mut pipe = PipeState::new();
    assert_eq!(pipe.write(PipeRole::Write, b"hello "), Ok(PipeWrite::Written(6)));
    assert_eq!(pipe.write(PipeRole::Write, b"world"), Ok(PipeWrite::Written(5)));
    assert_eq!(read_bytes(&mut pipe, 3), b"hel".to_vec());
    assert_eq!(read_bytes(&mut pipe, 64), b"lo world".to_vec());
}

#[test]
fn empty_pipe_blocks_until_writers_close() {
    let mut pipe = PipeState::new();
    assert!(matches!(pipe.read(PipeRole::Read, 8), Ok(PipeRead::Block)));
    pipe.close(PipeRole::Write);
    assert_eq!(read_bytes(&mut pipe, 8), Vec::<u8>::new());
    assert_eq!(
        pipe.poll(PipeRole::Read),
        PollEvents { readable: true, writable: false, hangup: true }
    );
}

#[test]
fn wrong_end_is_a_bad_operation() {
    let mut pipe = PipeState::new();
    assert!(matches!(pipe.read(PipeRole::Write, 8), Err(FileError::BadOperation)));
    assert_eq!(pipe.write(PipeRole::Read, b"x"), Err(FileError::BadOperation));
    assert_eq!(seek(), Err(SeekError::NotSeekable));
}

#[test]
fn write_without_reader_is_broken_pipe() {
    let mut pipe = PipeState::new();
    pipe.close(PipeRole::Read);
    assert_eq!(pipe.write(PipeRole::Write, b"x"), Err(FileError::BrokenPipe));
    assert_eq!(pipe.write(PipeRole::Write, b""), Ok(PipeWrite::Written(0)));
    assert_eq!(
        pipe.poll(PipeRole::Write),
        PollEvents { readable: false, writable: false, hangup: true }
    );
}

#[test]
fn full_pipe_takes_what_fits_then_blocks() {
    let mut pipe = PipeState::new();
    let big = vec![7u8; CAPACITY + 10];
    assert_eq!(pipe.write(PipeRole::Write, &big), Ok(PipeWrite::Written(CAPACITY)));
    assert_eq!(pipe.write(PipeRole::Write, b"x"), Ok(PipeWrite::Block));
    assert!(!pipe.poll(PipeRole::Write).writable);
    assert_eq!(read_bytes(&mut pipe, 10).len(), 10);
    assert_eq!(pipe.write(PipeRole::Write, &big), Ok(PipeWrite::Written(10)));
    assert_eq!(read_bytes(&mut pipe, 0), Vec::<u8>::new());
}

#[test]
fn parses_pts_paths() {
    assert_eq!(parse_pts_number(b"pts/0"), Some(0));
    assert_eq!(parse_pts_number(b"pts/37"), Some(37));
    assert_eq!(parse_pts_number(b"pts/abc"), None);
    assert_eq!(parse_pts_number(b"ptmx"), None);
    assert_eq!(parse_pts_number(b"pts/0/extra"), None);
}

#[test]
fn decimal_numbers_follow_std() {
    assert_eq!(parse_u32(b"4294967295"), Some(u32::MAX));
    assert_eq!(parse_u32(b"4294967296"), None);
    assert_eq!(parse_u32(b"+12"), Some(12));
    assert_eq!(parse_u32(b"+"), None);
    assert_eq!(parse_u32(b""), None);
    assert_eq!(parse_u32(b"007"), Some(7));
    assert_eq!(parse_u32(b"-1"), None);
}

#[test]
fn pair_file_ids_are_distinct() {
    let mut numbers = PairNumbers::new();
    let first = numbers.allocate();
    let second = numbers.allocate();
    assert_eq!((first, second), (0, 1));
    assert_ne!(master_file_id(first), master_file_id(second));
    assert_ne!(master_file_id(first), slave_file_id(first));
    assert_eq!(master_file_id(3), 1003);
    assert_eq!(slave_file_id(3), 2003);
}

#[test]
fn delivers_slave_output_to_the_master() {
    let mut buffer = MasterBuffer::new();
    assert_eq!(buffer.write(b"out"), 3);
    assert!(buffer.readable());
    match buffer.read(8, true, false) {
        Ok(MasterRead::Bytes(bytes)) => assert_eq!(bytes, b"out".to_vec()),
        _ => panic!("expected bytes"),
    }
    assert!(!buffer.readable());
}

#[test]
fn reports_would_block_without_data() {
    let mut buffer = MasterBuffer::new();
    assert!(matches!(buffer.read(8, true, false), Err(FileError::WouldBlock)));
    assert!(matches!(buffer.read(8, false, true), Err(FileError::Interrupted)));
    assert!(matches!(buffer.read(8, false, false), Ok(MasterRead::Wait)));
    assert!(matches!(buffer.read(0, false, false), Ok(MasterRead::Bytes(ref b)) if b.is_empty()));
}

#[test]
fn master_drains_oldest_first() {
    let mut buffer = MasterBuffer::new();
    buffer.write(b"abc");
    buffer.write(b"de");
    assert_eq!(buffer.drain(4), b"abcd".to_vec());
    assert_eq!(buffer.drain(4), b"e".to_vec());
    assert_eq!(buffer.drain(4), Vec::<u8>::new());
}

#[test]
fn serial_newlines_become_crlf() {
    assert_eq!(translate_newlines(b"a\nb\n"), b"a\r\nb\r\n".to_vec());
    assert_eq!(translate_newlines(b"plain"), b"plain".to_vec());
    assert_eq!(translate_newlines(b""), Vec::<u8>::new());
}
