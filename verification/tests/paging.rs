use novafc::state_machine::data::{Buffer, BufferedBuffer, FlushRequired};
use novafc::state_machine::state::DataBuffer;

#[test]
fn message_that_fits_needs_no_flush() {
    let mut buf = [0u8; 8];
    let mut extra = [0u8; 4];
    let mut buffered = BufferedBuffer::new(&mut buf, &mut extra);
    assert_eq!(buffered.spare_size(), 4);
    assert!(matches!(buffered.write(&[1, 2, 3]), FlushRequired::No));
    assert!(matches!(buffered.write(&[4, 5, 6, 7]), FlushRequired::No));
    assert!(matches!(buffered.write(&[8]), FlushRequired::No));
    assert_eq!(buffered.flush(), &[1, 2, 3, 4, 5, 6, 7, 8]);
    assert_eq!(buffered.flush(), &[]);
}

#[test]
fn message_that_does_not_fit_is_split_over_two_pages() {
    let mut buf = [0u8; 8];
    let mut extra = [0u8; 4];
    let mut buffered = BufferedBuffer::new(&mut buf, &mut extra);
    let mut storage: Vec<u8> = Vec::new();

    assert!(matches!(buffered.write(&[1, 2, 3, 4]), FlushRequired::No));
    assert!(matches!(buffered.write(&[5, 6]), FlushRequired::No));
    match buffered.write(&[7, 8, 9, 10]) {
        FlushRequired::Yes(info) => {
            assert_eq!(info.buf(&buffered), &[1, 2, 3, 4, 5, 6, 7, 8]);
            storage.extend_from_slice(info.buf(&buffered));
            info.finish(&mut buffered);
        }
        FlushRequired::No => panic!("the buffer has room for two more bytes only"),
    }
    assert!(matches!(buffered.write(&[11]), FlushRequired::No));
    storage.extend_from_slice(buffered.flush());
    assert_eq!(storage, vec![1, 2, 3, 4, 5, 6, 7, 8, 9, 10, 11]);
}

#[test]
fn full_buffer_takes_nothing_of_the_next_message() {
    let mut buf = [0u8; 4];
    let mut extra = [0u8; 4];
    let mut buffered = BufferedBuffer::new(&mut buf, &mut extra);
    assert!(matches!(buffered.write(&[1, 2, 3, 4]), FlushRequired::No));
    match buffered.write(&[5, 6, 7]) {
        FlushRequired::Yes(info) => {
            assert_eq!(info.buf(&buffered), &[1, 2, 3, 4]);
            info.finish(&mut buffered);
        }
        FlushRequired::No => panic!("the buffer was full"),
    }
    assert_eq!(buffered.flush(), &[5, 6, 7]);
    assert!(matches!(buffered.write(&[8]), FlushRequired::No));
    buffered.clear();
    assert_eq!(buffered.flush(), &[]);
}

#[test]
fn data_buffer() {
    let mut buffer: DataBuffer<6> = DataBuffer::new();
    assert_eq!(buffer.get_remaining(), 6);
    assert_eq!(buffer.try_write(&[1, 2, 3, 4]), Ok(()));
    assert_eq!(buffer.get_remaining(), 2);
    assert_eq!(buffer.try_write(&[5, 6, 7]), Err(()));
    assert_eq!(buffer.get_remaining(), 2);
    buffer.write(&[5, 6]);
    assert_eq!(buffer.get_remaining(), 0);
    assert_eq!(buffer.try_write(&[]), Ok(()));
    assert_eq!(buffer.flush(), &[1, 2, 3, 4, 5, 6]);
    assert_eq!(buffer.get_remaining(), 6);
    assert_eq!(buffer.flush(), &[]);
}

/// Messages of changing length and content, as an encoder would hand them
/// over.
fn fake_messages(count: usize) -> Vec<Vec<u8>> {
    let mut state: u32 = 0x2545_f491;
    let mut next = move || {
        state = state.wrapping_mul(1_664_525).wrapping_add(1_013_904_223);
        (state >> 16) as u8
    };
    (0..count)
        .map(|_| {
            let len = 3 + (next() % 11) as usize;
            (0..len).map(|_| next()).collect()
        })
        .collect()
}

#[test]
fn buffered_buffer() {
    let mut buf = [0u8; 128];
    let mut extra = [0u8; 32];
    let mut buf = BufferedBuffer::new(&mut buf, &mut extra);
    let mut storage: Vec<u8> = Vec::new();
    let count = 20;
    let fake_data = fake_messages(count);

    let mut pages = 0;
    for data in &fake_data {
        match buf.write(data) {
            FlushRequired::Yes(info) => {
                assert_eq!(info.buf(&buf).len(), 128);
                storage.extend_from_slice(info.buf(&buf));
                info.finish(&mut buf);
                pages += 1;
            }
            FlushRequired::No => {}
        }
    }
    let remaining = buf.flush();
    storage.extend_from_slice(remaining);

    let total: usize = fake_data.iter().map(|data| data.len()).sum();
    assert_eq!(pages, total / 128);
    assert_eq!(storage.len(), total);

    let mut reader = Buffer::new(storage.as_mut_slice());
    for data in &fake_data {
        assert_eq!(&reader.unread()[..data.len()], data.as_slice());
        reader.advance(data.len());
    }
    assert_eq!(reader.remaining(), 0);
}
