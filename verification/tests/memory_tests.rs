use micah::memory::{MemoryError, MemoryRep, FILL_BYTE, NUM_PAGES, PAGE_SIZE};

#[test]
fn simple_read_write() {
    let mut memory = MemoryRep::new();
    let address = PAGE_SIZE + 100;
    memory
        .store_byte(address, 121)
        .expect("Should not fail to store memory");
    match memory.read_byte(address) {
        Ok(byte) => assert_eq!(byte, 121),
        Err(_) => panic!("read_byte returned an error"),
    }
}

#[test]
fn simple_word_read_write() {
    let mut memory = MemoryRep::new();
    let address = PAGE_SIZE + 100;
    memory
        .store_word(address, 1234321)
        .expect("Should not fail to store memory");
    match memory.read_word(address) {
        Ok(byte) => assert_eq!(byte, 1234321),
        Err(_) => panic!("read_byte returned an error"),
    }
}

#[test]
fn word_read_write() {
    let mut memory = MemoryRep::new();
    let address = PAGE_SIZE + 100;
    let address_2 = PAGE_SIZE * 2 + 100;
    memory
        .store_word(address, 1234321)
        .expect("Should not fail to store memory");
    memory
        .store_word(address_2, 1224321)
        .expect("Should not fail to store memory");
    match memory.read_word(address_2) {
        Ok(byte) => assert_eq!(byte, 1224321),
        Err(_) => panic!("read_byte returned an error"),
    }
}

#[test]
fn word_read_null_fails() {
    let mut memory = MemoryRep::new();
    let address = 100;
    let _ = memory.store_word(address, 1234321);
    match memory.read_word(address) {
        Ok(_) => panic!("read_byte should not return"),
        Err(MemoryError::NULLAccess) => (),
        Err(_) => panic!("read_byte returned an unexpected error"),
    }
}

#[test]
fn byte_read_after_write_round_trip() {
    let mut memory = MemoryRep::new();
    for (addr, value) in [
        (PAGE_SIZE, 0u8),
        (PAGE_SIZE + 1, 255u8),
        (PAGE_SIZE * 17 + 3999, 42u8),
        (NUM_PAGES * PAGE_SIZE - 1, 7u8),
    ] {
        memory.store_byte(addr, value).unwrap();
        assert_eq!(memory.read_byte(addr).unwrap(), value);
    }
}

#[test]
fn re_reading_without_write_is_stable() {
    let mut memory = MemoryRep::new();
    memory.store_byte(PAGE_SIZE + 5, 99).unwrap();
    let first = memory.read_byte(PAGE_SIZE + 5).unwrap();
    let second = memory.read_byte(PAGE_SIZE + 5).unwrap();
    assert_eq!(first, second);
    assert_eq!(first, 99);
    let w1 = memory.read_word(PAGE_SIZE + 4).unwrap();
    let w2 = memory.read_word(PAGE_SIZE + 4).unwrap();
    assert_eq!(w1, w2);
}

#[test]
fn pages_are_isolated() {
    let mut memory = MemoryRep::new();
    let a1 = PAGE_SIZE + 700;
    let a2 = PAGE_SIZE * 3 + 700;
    memory.store_byte(a1, 11).unwrap();
    memory.store_byte(a2, 22).unwrap();
    assert_eq!(memory.read_byte(a1).unwrap(), 11);
    assert_eq!(memory.read_byte(a2).unwrap(), 22);
}

#[test]
fn null_page_reads_fail_despite_stores() {
    let mut memory = MemoryRep::new();
    // The byte store at page 0 is silently dropped but still reports success.
    assert!(memory.store_byte(0, 1).is_ok());
    assert!(memory.store_byte(3999, 1).is_ok());
    assert!(matches!(memory.read_byte(0), Err(MemoryError::NULLAccess)));
    assert!(matches!(
        memory.read_byte(3999),
        Err(MemoryError::NULLAccess)
    ));
}

#[test]
fn overflow_access_past_last_page() {
    let mut memory = MemoryRep::new();
    let past_end = NUM_PAGES * PAGE_SIZE;
    assert!(memory.store_byte(past_end, 5).is_ok());
    assert!(matches!(
        memory.read_byte(past_end),
        Err(MemoryError::OverflowAccess)
    ));
    assert!(matches!(
        memory.read_byte(usize::MAX),
        Err(MemoryError::OverflowAccess)
    ));
}

#[test]
fn unallocated_page_faults() {
    let mut memory = MemoryRep::new();
    assert!(matches!(
        memory.read_byte(PAGE_SIZE + 100),
        Err(MemoryError::PageFault)
    ));
}

#[test]
fn fresh_pages_hold_the_fill_byte() {
    let mut memory = MemoryRep::new();
    memory.store_byte(PAGE_SIZE + 100, 1).unwrap();
    assert_eq!(memory.read_byte(PAGE_SIZE + 101).unwrap(), FILL_BYTE);
    assert_eq!(memory.read_byte(PAGE_SIZE).unwrap(), FILL_BYTE);
}

#[test]
fn word_store_is_big_endian() {
    let mut memory = MemoryRep::new();
    let address = PAGE_SIZE * 2;
    memory.store_word(address, 0x0102_03FF).unwrap();
    assert_eq!(memory.read_byte(address).unwrap(), 0x01);
    assert_eq!(memory.read_byte(address + 1).unwrap(), 0x02);
    assert_eq!(memory.read_byte(address + 2).unwrap(), 0x03);
    assert_eq!(memory.read_byte(address + 3).unwrap(), 0xFF);
}

#[test]
fn word_round_trip_across_a_page_boundary() {
    let mut memory = MemoryRep::new();
    let address = PAGE_SIZE * 2 - 2;
    memory.store_word(address, 0xDEADBEEF).unwrap();
    assert_eq!(memory.read_word(address).unwrap(), 0xDEADBEEF);
}

#[test]
fn word_read_fails_at_first_faulting_byte() {
    let mut memory = MemoryRep::new();
    // The last two bytes of the word fall into an unallocated page.
    memory.store_byte(PAGE_SIZE * 2 - 2, 1).unwrap();
    assert!(matches!(
        memory.read_word(PAGE_SIZE * 2 - 2),
        Err(MemoryError::PageFault)
    ));
}
