use rust_8086::mem::linear::LinearMemory;
use rust_8086::mem::paged::PagedMemory;
use rust_8086::mem::paged::PagedMemorySegment;
use rust_8086::mem::read_u16;
use rust_8086::mem::read_u8;
use rust_8086::mem::write_u16;
use rust_8086::mem::Memory;

#[test]
fn mem_test() {
    let mut mem = LinearMemory::new(1024);
    mem.write(1000, 0x7F7F7F7F);
    assert_eq!(mem.read(1000), 0x7F7F7F7F);
}

#[test]
fn mem_test_u8() {
    let mut mem = LinearMemory::new(1024);
    mem.write(0, 0x12345678);
    mem.write(1, 0xabcdef00);
    assert_eq!(read_u8(&mem, 0), 0x78);
    assert_eq!(read_u8(&mem, 1), 0x56);
    assert_eq!(read_u8(&mem, 2), 0x34);
    assert_eq!(read_u8(&mem, 3), 0x12);
    assert_eq!(read_u8(&mem, 4), 0x00);
    assert_eq!(read_u8(&mem, 5), 0xef);
    assert_eq!(read_u8(&mem, 6), 0xcd);
    assert_eq!(read_u8(&mem, 7), 0xab);
}

#[test]
fn mem_test_u16() {
    let mut mem = LinearMemory::new(1024);
    mem.write(0, 0x12345678);
    mem.write(1, 0xabcdef00);
    assert_eq!(read_u16(&mem, 0), 0x5678);
    assert_eq!(read_u16(&mem, 1), 0x3456);
    assert_eq!(read_u16(&mem, 2), 0x1234);
    assert_eq!(read_u16(&mem, 3), 0x0012);
    assert_eq!(read_u16(&mem, 4), 0xef00);
    assert_eq!(read_u16(&mem, 5), 0xcdef);
    assert_eq!(read_u16(&mem, 6), 0xabcd);
    assert_eq!(read_u16(&mem, 7), 0x00ab);
}

#[test]
fn linear_test() {
    let mut mem = LinearMemory::new(1024);
    mem.write(1000, 0x7F7F7F7F);
    assert_eq!(mem.read(1000), 0x7F7F7F7F);
}

#[test]
fn linear_test_u8() {
    let mut mem = LinearMemory::new(1024);
    mem.write(0, 0x12345678);
    mem.write(1, 0xabcdef00);
    assert_eq!(read_u8(&mem, 0), 0x78);
    assert_eq!(read_u8(&mem, 1), 0x56);
    assert_eq!(read_u8(&mem, 2), 0x34);
    assert_eq!(read_u8(&mem, 3), 0x12);
    assert_eq!(read_u8(&mem, 4), 0x00);
    assert_eq!(read_u8(&mem, 5), 0xef);
    assert_eq!(read_u8(&mem, 6), 0xcd);
    assert_eq!(read_u8(&mem, 7), 0xab);
}

#[test]
fn linear_test_u16() {
    let mut mem = LinearMemory::new(1024);
    mem.write(0, 0x12345678);
    mem.write(1, 0xabcdef00);
    assert_eq!(read_u16(&mem, 0), 0x5678);
    assert_eq!(read_u16(&mem, 1), 0x3456);
    assert_eq!(read_u16(&mem, 2), 0x1234);
    assert_eq!(read_u16(&mem, 3), 0x0012);
    assert_eq!(read_u16(&mem, 4), 0xef00);
    assert_eq!(read_u16(&mem, 5), 0xcdef);
    assert_eq!(read_u16(&mem, 6), 0xabcd);
    assert_eq!(read_u16(&mem, 7), 0x00ab);
}

#[test]
fn test_u16_write() {
    let mut mem = LinearMemory::new(1024);
    mem.write(1, 0xFFFFFFFF);
    mem.write(2, 0xFFFFFFFF);
    write_u16(&mut mem, 0, 0xabcd);
    write_u16(&mut mem, 2, 0xbeef);
    write_u16(&mut mem, 7, 0xabcd);
    assert_eq!(mem.read(0), 0xBEEFABCD);
    assert_eq!(mem.read(1), 0xCDFFFFFF);
    assert_eq!(mem.read(2), 0xFFFFFFAB);
}

fn counting_memory(size: usize) -> LinearMemory {
    // word i holds i, so a read through a segment shows the inner offset
    let mut mem = LinearMemory::new(size);
    for i in 0..size {
        mem.write(i, i as u32);
    }
    mem
}

#[test]
fn paged_test() {
    let first_mem = PagedMemorySegment::new(100, 100, counting_memory(100));
    let second_mem = PagedMemorySegment::new(1000, 100, counting_memory(100));
    let mut mem = PagedMemory::new();
    mem.insert_page(first_mem);
    mem.insert_page(second_mem);
    assert_eq!(mem.read(100), 0);
    assert_eq!(mem.read(1050), 50);
    mem.write(105, 0x5353);
    assert_eq!(mem.read(105), 0x5353);
    mem.write(1030, 0x2525);
    assert_eq!(mem.read(1030), 0x2525);
    assert_eq!(mem.read(200), 0);
    assert_eq!(mem.read(199), 99);
}

#[test]
fn paged_remove() {
    let mut mem = PagedMemory::new();
    mem.insert_page(PagedMemorySegment::new(8, 4, counting_memory(4)));
    assert_eq!(mem.read(9), 1);
    assert!(mem.remove_page(8));
    assert!(!mem.remove_page(8));
    assert_eq!(mem.read(9), 0);
    mem.write(9, 5);
    assert_eq!(mem.read(9), 0);
}
