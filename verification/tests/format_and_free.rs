use vfs::storage::block::Block;
use vfs::storage::block_type::BlockType;
use vfs::storage::error::Error;
use vfs::storage::memory::MemoryStorage;
use vfs::storage::storage_connection::StorageConnection;
use vfs::storage::superblock::SuperBlock;

fn formatted_image() -> Vec<u8> {
    let mut image = Vec::new();
    // the superblock
    image.extend_from_slice(&1u32.to_le_bytes());
    image.extend_from_slice(&16u32.to_le_bytes());
    image.extend_from_slice(&2u64.to_le_bytes());
    image.extend_from_slice(&0u64.to_le_bytes());
    image.extend_from_slice(&[0; 8]);
    // the root directory
    image.extend_from_slice(&2u32.to_le_bytes());
    image.extend_from_slice(&72u32.to_le_bytes());
    image.extend_from_slice(&2u64.to_le_bytes());
    image.extend_from_slice(&[0; 64]);
    image
}

#[test]
fn init_writes_the_image_byte_by_byte() {
    let mut storage = MemoryStorage::new();
    assert_eq!(storage.init(), Ok(()));
    assert_eq!(storage.size(), 112);
    assert_eq!(storage.as_bytes(), &formatted_image()[..]);
}

#[test]
fn init_yields_a_self_parented_empty_root_directory() {
    let mut storage = MemoryStorage::new();
    storage.init().unwrap();
    let superblock = Block::new(&storage, 0).unwrap();
    assert_eq!(superblock, Block { offset: 0, block_type: BlockType::Super, size: 16 });
    let root_ref = SuperBlock::new(&storage).unwrap().get_rootdir_ref(&storage).unwrap();
    assert_eq!(root_ref, 2);
    // the free list is empty
    assert_eq!(superblock.read_u64(8, &storage), Ok(0));
    let root = Block::new(&storage, root_ref * 16).unwrap();
    assert_eq!(root, Block { offset: 32, block_type: BlockType::Directory, size: 72 });
    // the directory follows the superblock at once
    assert_eq!(Block::block_end(0, 16), root.offset);
    // it is its own parent
    assert_eq!(root.read_u64(0, &storage), Ok(root_ref));
    // it has 4 entry slots, each unused
    assert_eq!((root.size - 8) / 16, 4);
    for entry in 0u64..4 {
        assert_eq!(root.read_u64(8 + 16 * entry, &storage), Ok(0));
        assert_eq!(root.read_u64(16 + 16 * entry, &storage), Ok(0));
    }
    // and it ends where the medium ends
    assert_eq!(Block::block_end(root.offset, root.size as u64), storage.size());
}

#[test]
fn init_overwrites_the_start_of_a_medium_in_use() {
    let mut storage = MemoryStorage::from_bytes(vec![0xee; 120]);
    storage.init().unwrap();
    assert_eq!(storage.size(), 120);
    assert_eq!(&storage.as_bytes()[..112], &formatted_image()[..]);
    assert_eq!(&storage.as_bytes()[112..], &[0xee; 8]);
    // a shorter medium grows to the image
    let mut storage = MemoryStorage::from_bytes(vec![0xee; 30]);
    storage.init().unwrap();
    assert_eq!(storage.as_bytes(), &formatted_image()[..]);
}

#[test]
fn init_twice_gives_the_same_image() {
    let mut storage = MemoryStorage::new();
    storage.init().unwrap();
    storage.init().unwrap();
    assert_eq!(storage.as_bytes(), &formatted_image()[..]);
}

#[test]
fn init_needs_112_bytes() {
    let mut storage = MemoryStorage::with_limit(112);
    assert_eq!(storage.init(), Ok(()));
    let mut storage = MemoryStorage::with_limit(111);
    assert_eq!(storage.init(), Err(Error::OutOfSpace));
    // what was written before the failure is there
    assert_eq!(storage.as_bytes(), &formatted_image()[..104]);
    let mut storage = MemoryStorage::with_limit(30);
    assert_eq!(storage.init(), Err(Error::OutOfSpace));
    assert_eq!(storage.as_bytes(), &formatted_image()[..24]);
    let mut storage = MemoryStorage::with_limit(39);
    assert_eq!(storage.init(), Err(Error::OutOfSpace));
    assert_eq!(storage.as_bytes(), &formatted_image()[..36]);
    let mut storage = MemoryStorage::with_limit(0);
    assert_eq!(storage.init(), Err(Error::OutOfSpace));
    assert_eq!(storage.size(), 0);
}

#[test]
fn freeing_the_last_block_cuts_the_medium() {
    let mut storage = MemoryStorage::new();
    storage.init().unwrap();
    let name = Block::alloc_name(&mut storage, "foo.txt").unwrap();
    assert_eq!(storage.size(), 128);
    assert_eq!(storage.free(&name), Ok(()));
    assert_eq!(storage.size(), name.offset);
    // nothing else has changed: no entry in the free list
    assert_eq!(storage.as_bytes(), &formatted_image()[..]);
    assert_eq!(storage.read_u64(16), Ok(0));
}

#[test]
fn freeing_an_inner_block_puts_it_on_the_free_list() {
    let mut storage = MemoryStorage::new();
    storage.init().unwrap();
    let first = Block::alloc_name(&mut storage, "first").unwrap();
    let second = Block::alloc_name(&mut storage, "second").unwrap();
    let size = storage.size();
    let before = storage.as_bytes().to_vec();
    assert_eq!(storage.free(&first), Ok(()));
    assert_eq!(storage.size(), size);
    // the block is free, with its size as it was
    assert_eq!(
        Block::new(&storage, first.offset),
        Ok(Block { offset: first.offset, block_type: BlockType::Free, size: 5 })
    );
    // the superblock refers to it
    assert_eq!(storage.read_u64(16), Ok(first.offset / 16));
    assert_eq!(storage.read_u64(16).unwrap() * 16, first.offset);
    // it refers to the head of the list before, which was empty
    assert_eq!(first.read_u64(0, &storage), Ok(0));
    // all other bytes are as they were
    let after = storage.as_bytes();
    for i in 0..before.len() {
        let in_header = (112..116).contains(&i);
        let in_link = (120..128).contains(&i);
        let in_anchor = (16..24).contains(&i);
        if !in_header && !in_link && !in_anchor {
            assert_eq!(after[i], before[i]);
        }
    }
    assert_eq!(Block::new(&storage, second.offset), Ok(second));
}

#[test]
fn the_free_list_is_last_in_first_out() {
    let mut storage = MemoryStorage::new();
    storage.init().unwrap();
    let a = Block::alloc_chunk(&mut storage, 8).unwrap();
    let b = Block::alloc_chunk(&mut storage, 8).unwrap();
    let c = Block::alloc_chunk(&mut storage, 8).unwrap();
    let _last = Block::alloc_chunk(&mut storage, 8).unwrap();
    storage.free(&b).unwrap();
    storage.free(&a).unwrap();
    storage.free(&c).unwrap();
    // superblock -> c -> a -> b -> nothing
    assert_eq!(storage.read_u64(16), Ok(c.offset / 16));
    assert_eq!(c.read_u64(0, &storage), Ok(a.offset / 16));
    assert_eq!(a.read_u64(0, &storage), Ok(b.offset / 16));
    assert_eq!(b.read_u64(0, &storage), Ok(0));
}

#[test]
fn freeing_twice_fails() {
    // an inner block
    let mut storage = MemoryStorage::new();
    storage.init().unwrap();
    let inner = Block::alloc_name(&mut storage, "inner").unwrap();
    let _last = Block::alloc_name(&mut storage, "last").unwrap();
    assert_eq!(storage.free(&inner), Ok(()));
    let after_first = storage.as_bytes().to_vec();
    assert_eq!(storage.free(&inner), Err(Error::CorruptedFilesystem));
    assert_eq!(storage.as_bytes(), &after_first[..]);
    // the last block: after the first call there is no block to read
    let mut storage = MemoryStorage::new();
    storage.init().unwrap();
    let last = Block::alloc_name(&mut storage, "last").unwrap();
    assert_eq!(storage.free(&last), Ok(()));
    assert_eq!(storage.free(&last), Err(Error::IoFailure));
    assert_eq!(storage.size(), 112);
}

#[test]
fn free_reads_the_header_from_the_medium() {
    let mut storage = MemoryStorage::new();
    storage.init().unwrap();
    let block = Block::alloc_name(&mut storage, "name").unwrap();
    let _last = Block::alloc_file(&mut storage).unwrap();
    // a descriptor that claims the block is free does not stop the call
    let stale = Block { offset: block.offset, block_type: BlockType::Free, size: 0 };
    assert_eq!(storage.free(&stale), Ok(()));
    // and one that claims it is in use does not allow a second call
    assert_eq!(storage.free(&block), Err(Error::CorruptedFilesystem));
}

#[test]
fn free_refuses_what_is_no_block() {
    let mut storage = MemoryStorage::new();
    storage.init().unwrap();
    let _name = Block::alloc_name(&mut storage, "name").unwrap();
    let image = storage.as_bytes().to_vec();
    // past the end
    let far = Block { offset: 4096, block_type: BlockType::Name, size: 0 };
    assert_eq!(storage.free(&far), Err(Error::IoFailure));
    // an unknown type code: offset 4 holds the size of the superblock, 16
    let odd = Block { offset: 4, block_type: BlockType::Name, size: 0 };
    assert_eq!(storage.free(&odd), Err(Error::InvalidBlockType));
    // zero bytes read as a free block
    let padding = Block { offset: 24, block_type: BlockType::Name, size: 0 };
    assert_eq!(storage.free(&padding), Err(Error::CorruptedFilesystem));
    assert_eq!(storage.as_bytes(), &image[..]);
    // a header that the medium ends in
    let mut short = MemoryStorage::from_bytes(vec![5, 0, 0, 0, 1, 0]);
    let cut = Block { offset: 0, block_type: BlockType::Name, size: 1 };
    assert_eq!(short.free(&cut), Err(Error::IoFailure));
    assert_eq!(short.as_bytes(), &[5, 0, 0, 0, 1, 0]);
}

#[test]
fn freeing_a_chunk_after_a_regular_block() {
    let mut storage = MemoryStorage::new();
    storage.init().unwrap();
    let file = Block::alloc_file(&mut storage).unwrap();
    let chunk = Block::alloc_chunk(&mut storage, 1000).unwrap();
    assert_eq!(file.offset, 112);
    assert_eq!(chunk.offset, 112 + 4112);
    assert_eq!(chunk.size, 1008);
    // the chunk is the last block: the medium shrinks to where it started
    assert_eq!(Block::block_end(chunk.offset, chunk.size as u64), storage.size());
    assert_eq!(storage.free(&chunk), Ok(()));
    assert_eq!(storage.size(), chunk.offset);
    assert_eq!(storage.read_u64(16), Ok(0));
    assert_eq!(Block::new(&storage, file.offset), Ok(file));

    // with a block after it, the chunk goes to the free list instead
    let chunk = Block::alloc_chunk(&mut storage, 1000).unwrap();
    let _name = Block::alloc_name(&mut storage, "after").unwrap();
    let size = storage.size();
    assert_eq!(storage.free(&chunk), Ok(()));
    assert_eq!(storage.size(), size);
    assert_eq!(Block::new(&storage, chunk.offset).unwrap().block_type, BlockType::Free);
    assert_eq!(storage.read_u64(16), Ok(chunk.offset / 16));
    assert_eq!(chunk.read_u64(0, &storage), Ok(0));
}

#[test]
fn allocation_appends_and_leaves_the_free_list_alone() {
    let mut storage = MemoryStorage::new();
    storage.init().unwrap();
    let a = Block::alloc_name(&mut storage, "a").unwrap();
    let _b = Block::alloc_name(&mut storage, "b").unwrap();
    storage.free(&a).unwrap();
    let end = storage.size();
    let c = Block::alloc_name(&mut storage, "c").unwrap();
    assert_eq!(c.offset, end);
    assert_eq!(storage.read_u64(16), Ok(a.offset / 16));
}

#[test]
fn free_without_a_superblock_fails_after_marking_the_block() {
    // two blocks of 16 bytes in a medium that is too short for the field
    // that anchors the free list
    let mut storage = MemoryStorage::new();
    let first = Block::allocate(&mut storage, BlockType::Name, 0).unwrap();
    storage.set_size(20).unwrap();
    assert_eq!(storage.free(&first), Err(Error::IoFailure));
    assert_eq!(Block::new(&storage, 0).unwrap().block_type, BlockType::Free);
}

#[test]
fn free_needs_room_for_the_link() {
    // a header at the very end of a medium that cannot grow
    let mut storage = MemoryStorage::with_limit(40);
    storage.set_size(32).unwrap();
    storage.write_u32(32, 5).unwrap();
    storage.write_u32(36, 100).unwrap();
    let block = Block::new(&storage, 32).unwrap();
    assert_eq!(storage.free(&block), Err(Error::OutOfSpace));
    assert_eq!(storage.size(), 40);
    assert_eq!(storage.read_u32(32), Ok(0));
}
