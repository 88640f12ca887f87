use vfs::storage::error::Error;
use vfs::storage::memory::MemoryStorage;
use vfs::storage::storage_connection::StorageConnection;
use vfs::storage::storage_writer::StorageWriter;

#[test]
fn a_new_writer_stands_where_it_was_put() {
    let mut storage = MemoryStorage::new();
    let writer = StorageWriter::new(&mut storage, 40);
    assert_eq!(writer.pos, 40);
}

#[test]
fn each_write_moves_the_writer_on() {
    let mut storage = MemoryStorage::new();
    let mut writer = StorageWriter::new(&mut storage, 0);
    assert_eq!(writer.write_u32(0x0403_0201), Ok(()));
    assert_eq!(writer.pos, 4);
    assert_eq!(writer.write_u64(0x0c0b_0a09_0807_0605), Ok(()));
    assert_eq!(writer.pos, 12);
    assert_eq!(writer.write(&[0, 13, 14, 15, 0], 1, 3), Ok(()));
    assert_eq!(writer.pos, 15);
    assert_eq!(
        storage.as_bytes(),
        &[1, 2, 3, 4, 5, 6, 7, 8, 9, 10, 11, 12, 13, 14, 15]
    );
}

#[test]
fn a_writer_overwrites_what_is_there() {
    let mut storage = MemoryStorage::from_bytes(vec![9; 8]);
    let mut writer = StorageWriter::new(&mut storage, 2);
    writer.write_u32(0).unwrap();
    assert_eq!(writer.pos, 6);
    assert_eq!(storage.as_bytes(), &[9, 9, 0, 0, 0, 0, 9, 9]);
}

#[test]
fn write_takes_the_part_of_the_buffer_asked_for() {
    let mut storage = MemoryStorage::new();
    let mut writer = StorageWriter::new(&mut storage, 0);
    let buffer = [1u8, 2, 3, 4, 5];
    writer.write(&buffer, 0, 5).unwrap();
    writer.write(&buffer, 4, 1).unwrap();
    writer.write(&buffer, 2, 0).unwrap();
    writer.write(&buffer, 5, 0).unwrap();
    assert_eq!(writer.pos, 6);
    assert_eq!(storage.as_bytes(), &[1, 2, 3, 4, 5, 5]);
}

#[test]
fn padding_goes_to_the_next_multiple_of_16() {
    let mut storage = MemoryStorage::new();
    let mut writer = StorageWriter::new(&mut storage, 0);
    writer.write_u64(u64::MAX).unwrap();
    writer.write_u32(u32::MAX).unwrap();
    assert_eq!(writer.write_padding(), Ok(()));
    assert_eq!(writer.pos, 16);
    let mut expected = vec![255u8; 12];
    expected.extend_from_slice(&[0, 0, 0, 0]);
    assert_eq!(storage.as_bytes(), &expected[..]);
}

#[test]
fn padding_overwrites_with_zero_bytes() {
    let mut storage = MemoryStorage::from_bytes(vec![7; 20]);
    let mut writer = StorageWriter::new(&mut storage, 13);
    writer.write_padding().unwrap();
    assert_eq!(writer.pos, 16);
    let mut expected = vec![7u8; 13];
    expected.extend_from_slice(&[0, 0, 0, 7, 7, 7, 7]);
    assert_eq!(storage.as_bytes(), &expected[..]);
}

#[test]
fn padding_at_a_multiple_of_16_writes_nothing() {
    let mut storage = MemoryStorage::from_bytes(vec![7; 16]);
    let mut writer = StorageWriter::new(&mut storage, 16);
    assert_eq!(writer.write_padding(), Ok(()));
    assert_eq!(writer.pos, 16);
    let mut writer = StorageWriter::new(&mut storage, 0);
    assert_eq!(writer.write_padding(), Ok(()));
    assert_eq!(writer.pos, 0);
    // even where a write could not start
    let mut writer = StorageWriter::new(&mut storage, 32);
    assert_eq!(writer.write_padding(), Ok(()));
    assert_eq!(writer.pos, 32);
    assert_eq!(storage.as_bytes(), &[7; 16]);
}

#[test]
fn a_failed_write_leaves_the_writer_where_it_was() {
    let mut storage = MemoryStorage::with_limit(6);
    let mut writer = StorageWriter::new(&mut storage, 0);
    assert_eq!(writer.write_u32(1), Ok(()));
    assert_eq!(writer.write_u32(2), Err(Error::OutOfSpace));
    assert_eq!(writer.pos, 4);
    assert_eq!(writer.write_u64(2), Err(Error::OutOfSpace));
    assert_eq!(writer.write(&[1, 2, 3], 0, 3), Err(Error::OutOfSpace));
    assert_eq!(writer.write_padding(), Err(Error::OutOfSpace));
    assert_eq!(writer.pos, 4);
    assert_eq!(writer.write(&[1, 2, 3], 1, 2), Ok(()));
    assert_eq!(writer.pos, 6);
    assert_eq!(storage.as_bytes(), &[1, 0, 0, 0, 2, 3]);
}

#[test]
fn a_writer_past_the_end_cannot_write() {
    let mut storage = MemoryStorage::from_bytes(vec![1, 2]);
    let mut writer = StorageWriter::new(&mut storage, 3);
    assert_eq!(writer.write_u32(1), Err(Error::IoFailure));
    assert_eq!(writer.write_padding(), Err(Error::IoFailure));
    assert_eq!(writer.pos, 3);
    assert_eq!(storage.size(), 2);
}
