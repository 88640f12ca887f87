use vfs::storage::block::Block;
use vfs::storage::block_type::BlockType;
use vfs::storage::error::Error;
use vfs::storage::memory::MemoryStorage;
use vfs::storage::storage_connection::StorageConnection;
use vfs::storage::superblock::SuperBlock;

#[test]
fn the_superblock_of_a_formatted_medium() {
    let mut storage = MemoryStorage::new();
    storage.init().unwrap();
    let superblock = SuperBlock::new(&storage).unwrap();
    assert_eq!(superblock.get_rootdir_ref(&storage), Ok(2));
}

#[test]
fn a_medium_without_a_superblock_is_refused() {
    // a name block at offset 0
    let mut storage = MemoryStorage::new();
    Block::alloc_name(&mut storage, "x").unwrap();
    assert_eq!(SuperBlock::new(&storage).err(), Some(Error::NotASuperblock));
    // zero bytes read as a free block
    let storage = MemoryStorage::from_bytes(vec![0; 32]);
    assert_eq!(SuperBlock::new(&storage).err(), Some(Error::NotASuperblock));
    for kind in [BlockType::Directory, BlockType::Regular, BlockType::Chunk] {
        let mut storage = MemoryStorage::new();
        Block::allocate(&mut storage, kind, 16).unwrap();
        assert_eq!(SuperBlock::new(&storage).err(), Some(Error::NotASuperblock));
    }
}

#[test]
fn a_medium_with_an_unknown_first_block_is_refused() {
    let storage = MemoryStorage::from_bytes(vec![77, 0, 0, 0, 16, 0, 0, 0]);
    assert_eq!(SuperBlock::new(&storage).err(), Some(Error::InvalidBlockType));
}

#[test]
fn an_empty_medium_has_no_superblock() {
    assert_eq!(SuperBlock::new(&MemoryStorage::new()).err(), Some(Error::IoFailure));
    let storage = MemoryStorage::from_bytes(vec![1, 0, 0, 0, 16]);
    assert_eq!(SuperBlock::new(&storage).err(), Some(Error::IoFailure));
}

#[test]
fn the_root_reference_is_the_offset_divided_by_16() {
    let mut storage = MemoryStorage::new();
    storage.init().unwrap();
    let superblock = SuperBlock::new(&storage).unwrap();
    let dir = Block::alloc_dir(&mut storage, 2, 2).unwrap();
    assert_eq!(dir.offset, 112);
    assert_eq!(superblock.set_root_dir(&mut storage, &dir), Ok(()));
    assert_eq!(superblock.get_rootdir_ref(&storage), Ok(7));
    assert_eq!(storage.read_u64(8), Ok(7));
    // the free list is as it was
    assert_eq!(storage.read_u64(16), Ok(0));
    // the reference leads back to the block
    assert_eq!(Block::new(&storage, 7 * 16), Ok(dir));
}

#[test]
fn the_root_reference_cannot_be_read_from_a_cut_medium() {
    let mut storage = MemoryStorage::new();
    storage.init().unwrap();
    let superblock = SuperBlock::new(&storage).unwrap();
    storage.set_size(12).unwrap();
    assert_eq!(superblock.get_rootdir_ref(&storage), Err(Error::IoFailure));
    storage.set_size(7).unwrap();
    let root = Block { offset: 32, block_type: BlockType::Directory, size: 72 };
    assert_eq!(superblock.set_root_dir(&mut storage, &root), Err(Error::IoFailure));
    assert_eq!(storage.size(), 7);
}
