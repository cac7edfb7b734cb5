//! Sparse paged byte memory over a flat 32-bit style address range.
//!
//! The address range is `NUM_PAGES` pages of `PAGE_SIZE` bytes each,
//! addressed by a single integer: page index = `addr / PAGE_SIZE`, offset =
//! `addr % PAGE_SIZE`. Pages are allocated lazily on first write and filled
//! with `FILL_BYTE` so uninitialized reads are visually distinguishable.
//! Page 0 is permanently reserved: any access with page index 0 fails with
//! `NULLAccess` before allocation is even considered. The page index is
//! bounded by the page count `NUM_PAGES`; an index at or past it fails with
//! `OverflowAccess`.
//!
//! Reads propagate faults to the caller; byte and word stores are fail-open:
//! a store at an invalid address is a silent no-op still reported as success.

use vstd::prelude::*;

verus! {

/// Number of bytes in one page of backing storage.
pub const PAGE_SIZE: usize = 4000;

/// Number of pages in the address range; valid page indices are 1 up to
/// `NUM_PAGES - 1`, page 0 being reserved.
pub const NUM_PAGES: usize = 500;

/// Every byte of a freshly allocated page holds this value.
pub const FILL_BYTE: u8 = 0x66;

/// A typed failure signal from a memory access.
#[derive(Debug, PartialEq, Eq, Structural, Clone, Copy)]
pub enum MemoryError {
    /// The access touched the reserved page 0.
    NULLAccess,
    /// The page index is at or past `NUM_PAGES`.
    OverflowAccess,
    /// The target page was never allocated.
    PageFault,
    /// Reserved for finer-grained checks; no operation returns it.
    InvalidMem,
}

/// The mathematical model of the memory: one optional page of bytes per
/// page index.
pub type MemModel = Seq<Option<Seq<u8>>>;

/// Page index of an address.
pub open spec fn page_index(addr: int) -> int {
    addr / (PAGE_SIZE as int)
}

/// Offset of an address within its page.
pub open spec fn page_offset(addr: int) -> int {
    addr % (PAGE_SIZE as int)
}

/// An address is valid when its page index is neither the reserved page 0
/// nor at or past the page count.
pub open spec fn addr_valid(addr: int) -> bool {
    1 <= page_index(addr) < NUM_PAGES as int
}

/// Fault classification of a page index alone: `NULLAccess` for page 0,
/// `OverflowAccess` at or past the page count.
pub open spec fn spec_check_index(index: int) -> Result<(), MemoryError> {
    if index == 0 {
        Err(MemoryError::NULLAccess)
    } else if index >= NUM_PAGES as int {
        Err(MemoryError::OverflowAccess)
    } else {
        Ok(())
    }
}

/// The contents of a freshly allocated page.
pub open spec fn fresh_page() -> Seq<u8> {
    Seq::new(PAGE_SIZE as nat, |i: int| FILL_BYTE)
}

/// What a byte read returns: the index fault if the page index is invalid,
/// `PageFault` if the page is unallocated, else the stored byte. A page
/// index at or below the reserved page 0 counts as a null access.
pub open spec fn spec_read_byte(m: MemModel, addr: int) -> Result<u8, MemoryError> {
    if page_index(addr) <= 0 {
        Err(MemoryError::NULLAccess)
    } else if page_index(addr) >= NUM_PAGES as int {
        Err(MemoryError::OverflowAccess)
    } else {
        match m[page_index(addr)] {
            Some(page) => Ok(page[page_offset(addr)]),
            None => Err(MemoryError::PageFault),
        }
    }
}

/// What a byte store leaves behind: the memory unchanged when the address
/// is invalid (fail-open), else the addressed page - allocated fresh if
/// absent - with the one byte overwritten.
pub open spec fn spec_store_byte(m: MemModel, addr: int, byte: u8) -> MemModel {
    if !addr_valid(addr) {
        m
    } else {
        let page = match m[page_index(addr)] {
            Some(p) => p,
            None => fresh_page(),
        };
        m.update(page_index(addr), Some(page.update(page_offset(addr), byte)))
    }
}

/// The `k`-th byte of a word split big-endian, `k` in `0..4`; byte 0 is the
/// most significant.
pub open spec fn word_byte(word: u32, k: int) -> u8 {
    if k == 0 {
        (word >> 24) as u8
    } else if k == 1 {
        (word >> 16) as u8
    } else if k == 2 {
        (word >> 8) as u8
    } else {
        word as u8
    }
}

/// Four bytes assembled big-endian into a word; the first is the most
/// significant.
pub open spec fn word_of_bytes(b0: u8, b1: u8, b2: u8, b3: u8) -> u32 {
    ((b0 as u32) << 24) | ((b1 as u32) << 16) | ((b2 as u32) << 8) | (b3 as u32)
}

/// What a word store leaves behind: the four bytes of the word stored
/// big-endian at `addr .. addr + 3`, each with the fail-open byte contract.
pub open spec fn spec_store_word(m: MemModel, addr: int, word: u32) -> MemModel {
    spec_store_byte(
        spec_store_byte(
            spec_store_byte(
                spec_store_byte(m, addr, word_byte(word, 0)),
                addr + 1,
                word_byte(word, 1),
            ),
            addr + 2,
            word_byte(word, 2),
        ),
        addr + 3,
        word_byte(word, 3),
    )
}

/// What a word read returns: the four bytes at `addr .. addr + 3` assembled
/// big-endian, or the first byte-level fault, with no partial result.
pub open spec fn spec_read_word(m: MemModel, addr: int) -> Result<u32, MemoryError> {
    match spec_read_byte(m, addr) {
        Err(e) => Err(e),
        Ok(b0) => match spec_read_byte(m, addr + 1) {
            Err(e) => Err(e),
            Ok(b1) => match spec_read_byte(m, addr + 2) {
                Err(e) => Err(e),
                Ok(b2) => match spec_read_byte(m, addr + 3) {
                    Err(e) => Err(e),
                    Ok(b3) => Ok(word_of_bytes(b0, b1, b2, b3)),
                },
            },
        },
    }
}

/// Fault classification of an address in a given memory: `Ok` exactly when
/// a byte read at it would succeed.
pub open spec fn spec_addr_exists(m: MemModel, addr: int) -> Result<(), MemoryError> {
    match spec_read_byte(m, addr) {
        Ok(_) => Ok(()),
        Err(e) => Err(e),
    }
}

/// Well-formed memory model: one slot per page, and every allocated page
/// holds exactly `PAGE_SIZE` bytes.
pub open spec fn mem_wf(m: MemModel) -> bool {
    &&& m.len() == NUM_PAGES as int
    &&& forall|i: int|
        0 <= i < NUM_PAGES as int ==> (#[trigger] m[i] matches Some(p) ==> p.len()
            == PAGE_SIZE as int)
}

/// Fault classification of a page index alone.
fn check_sane_index(index: usize) -> (r: Result<(), MemoryError>)
    ensures
        r == spec_check_index(index as int),
{
    if index == 0 {
        return Err(MemoryError::NULLAccess);
    } else if index >= NUM_PAGES {
        return Err(MemoryError::OverflowAccess);
    }
    Ok(())
}

/// The backing storage: one optional page per page index, pages allocated
/// lazily by byte stores.
pub struct MemoryRep {
    memory: Vec<Option<Vec<u8>>>,
}

impl View for MemoryRep {
    type V = MemModel;

    closed spec fn view(&self) -> MemModel {
        self.memory.deep_view()
    }
}

impl MemoryRep {
    /// Well-formed: the model of the backing storage is well-formed.
    pub open spec fn wf(&self) -> bool {
        mem_wf(self@)
    }

    /// A memory with every page unallocated.
    pub fn new() -> (r: MemoryRep)
        ensures
            r.wf(),
            r@ == Seq::new(NUM_PAGES as nat, |i: int| Option::<Seq<u8>>::None),
    {
        let mut memory: Vec<Option<Vec<u8>>> = Vec::new();
        let mut i: usize = 0;
        while i < NUM_PAGES
            invariant
                i <= NUM_PAGES,
                memory@.len() == i as int,
                forall|k: int| 0 <= k < i as int ==> memory@[k] is None,
            decreases NUM_PAGES - i,
        {
            memory.push(None);
            i = i + 1;
        }
        let r = MemoryRep { memory };
        proof {
            assert(r@ =~= Seq::new(NUM_PAGES as nat, |i: int| Option::<Seq<u8>>::None));
        }
        r
    }

    /// Fault classification of an address: `Ok` exactly when a byte read at
    /// it would succeed on the current memory.
    fn addr_exists(&self, addr: usize) -> (r: Result<(), MemoryError>)
        requires
            self.wf(),
        ensures
            r == spec_addr_exists(self@, addr as int),
    {
        let index: usize = addr / PAGE_SIZE;
        check_sane_index(index)?;
        match &self.memory[index] {
            Some(_) => Ok(()),
            None => Err(MemoryError::PageFault),
        }
    }

    /// The contents of a freshly allocated page: `PAGE_SIZE` fill bytes.
    fn init_page(&self) -> (r: Vec<u8>)
        ensures
            r.deep_view() == fresh_page(),
    {
        let page = vec![FILL_BYTE; PAGE_SIZE];
        proof {
            assert(page.deep_view() =~= fresh_page());
        }
        page
    }

    /// The allocated page an address falls in, or the fault that a read at
    /// the address would raise.
    fn get_page(&self, addr: usize) -> (r: Result<&Vec<u8>, MemoryError>)
        requires
            self.wf(),
        ensures
            match r {
                Ok(page) => self@[page_index(addr as int)] == Some(page.deep_view()),
                Err(e) => spec_read_byte(self@, addr as int) == Err::<u8, MemoryError>(e),
            },
    {
        let index: usize = addr / PAGE_SIZE;
        check_sane_index(index)?;
        match &self.memory[index] {
            Some(page) => Ok(page),
            None => Err(MemoryError::PageFault),
        }
    }

    /// Stores one byte. A store at an invalid address is a silent no-op
    /// still reported as success; a store to an unallocated valid page
    /// allocates the page fill-initialized first. Never fails.
    pub fn store_byte(&mut self, addr: usize, byte: u8) -> (r: Result<(), MemoryError>)
        requires
            old(self).wf(),
        ensures
            final(self).wf(),
            final(self)@ == spec_store_byte(old(self)@, addr as int, byte),
            r == Ok::<(), MemoryError>(()),
    {
        let index: usize = addr / PAGE_SIZE;
        let offset: usize = addr % PAGE_SIZE;
        if index == 0 || index >= NUM_PAGES {
            return Ok(());
        }
        let mut taken: Option<Vec<u8>> = None;
        core::mem::swap(&mut taken, &mut self.memory[index]);
        let mut page: Vec<u8> = match taken {
            Some(p) => p,
            None => self.init_page(),
        };
        proof {
            let i = index as int;
            assert(old(self)@[i] == old(self).memory@[i].deep_view());
            match old(self).memory@[i] {
                Option::Some(p) => {
                    assert(old(self)@[i] == Some(p.deep_view()));
                    assert(p.deep_view().len() == PAGE_SIZE as int);
                    assert(page == p);
                    assert(page@.len() == p.deep_view().len());
                },
                Option::None => {
                    assert(page.deep_view() == fresh_page());
                    assert(page@.len() == page.deep_view().len());
                },
            }
            assert(page@.len() == PAGE_SIZE as int);
        }
        page[offset] = byte;
        self.memory[index] = Some(page);
        proof {
            assert(final(self)@ =~~= spec_store_byte(old(self)@, addr as int, byte));
        }
        Ok(())
    }

    /// Stores a word as four independent big-endian byte stores at
    /// `addr .. addr + 3`; like `store_byte` it never reports failure, even
    /// when some or all of the bytes were silently dropped.
    pub fn store_word(&mut self, addr: usize, word: u32) -> (r: Result<(), MemoryError>)
        requires
            old(self).wf(),
        ensures
            final(self).wf(),
            final(self)@ == spec_store_word(old(self)@, addr as int, word),
            r == Ok::<(), MemoryError>(()),
    {
        if addr >= NUM_PAGES * PAGE_SIZE {
            proof {
                lemma_store_invalid_noop(old(self)@, addr as int, word);
            }
            return Ok(());
        }
        let b0 = (word >> 24) as u8;
        let b1 = (word >> 16) as u8;
        let b2 = (word >> 8) as u8;
        let b3 = word as u8;
        self.store_byte(addr, b0)?;
        self.store_byte(addr + 1, b1)?;
        self.store_byte(addr + 2, b2)?;
        self.store_byte(addr + 3, b3)?;
        Ok(())
    }

    /// Reads one byte, or reports the fault: `NULLAccess` on page 0,
    /// `OverflowAccess` past the last page, `PageFault` on an unallocated
    /// page. The memory itself is left unchanged.
    pub fn read_byte(&mut self, addr: usize) -> (r: Result<u8, MemoryError>)
        requires
            old(self).wf(),
        ensures
            *final(self) == *old(self),
            r == spec_read_byte(old(self)@, addr as int),
    {
        self.addr_exists(addr)?;
        Ok(self.get_page(addr)?[addr % PAGE_SIZE])
    }

    /// Reads four consecutive bytes starting at `addr` and assembles them
    /// big-endian: the first byte read is the most significant byte of the
    /// result. Fails with the first byte-level fault, with no partial
    /// result, and leaves the memory unchanged.
    pub fn read_word(&mut self, addr: usize) -> (r: Result<u32, MemoryError>)
        requires
            old(self).wf(),
        ensures
            *final(self) == *old(self),
            r == spec_read_word(old(self)@, addr as int),
    {
        let b0 = self.read_byte(addr)?;
        assert(addr < NUM_PAGES * PAGE_SIZE) by {
            lemma_read_ok_bounds(self@, addr as int);
        };
        let b1 = self.read_byte(addr + 1)?;
        let b2 = self.read_byte(addr + 2)?;
        let b3 = self.read_byte(addr + 3)?;
        Ok(((b0 as u32) << 24) | ((b1 as u32) << 16) | ((b2 as u32) << 8) | (b3 as u32))
    }
}

/// A successful byte read pins the address under the end of the last page.
proof fn lemma_read_ok_bounds(m: MemModel, addr: int)
    requires
        spec_read_byte(m, addr) is Ok,
    ensures
        addr < NUM_PAGES as int * PAGE_SIZE as int,
{
    assert(page_index(addr) < NUM_PAGES as int);
    assert(addr < NUM_PAGES as int * PAGE_SIZE as int) by (nonlinear_arith)
        requires
            addr / (PAGE_SIZE as int) < NUM_PAGES as int,
            PAGE_SIZE as int > 0,
    ;
}

/// A byte store whose page index is invalid leaves the memory unchanged;
/// stated here for a whole word's worth of such stores.
proof fn lemma_store_invalid_noop(m: MemModel, addr: int, word: u32)
    requires
        addr >= NUM_PAGES as int * PAGE_SIZE as int,
    ensures
        spec_store_word(m, addr, word) == m,
{
    assert forall|k: int| 0 <= k < 4 implies !#[trigger] addr_valid(addr + k) by {
        assert((addr + k) / (PAGE_SIZE as int) >= NUM_PAGES as int) by (nonlinear_arith)
            requires
                addr + k >= NUM_PAGES as int * PAGE_SIZE as int,
                PAGE_SIZE as int > 0,
        ;
    };
}

/// A byte store leaves the memory model well-formed.
pub proof fn lemma_store_byte_preserves_wf(m: MemModel, addr: int, byte: u8)
    requires
        mem_wf(m),
    ensures
        mem_wf(spec_store_byte(m, addr, byte)),
{
}

/// Addresses with the same page index and the same offset are equal.
proof fn lemma_addr_unique(a1: int, a2: int)
    requires
        page_index(a1) == page_index(a2),
        page_offset(a1) == page_offset(a2),
    ensures
        a1 == a2,
{
    vstd::arithmetic::div_mod::lemma_fundamental_div_mod(a1, PAGE_SIZE as int);
    vstd::arithmetic::div_mod::lemma_fundamental_div_mod(a2, PAGE_SIZE as int);
}

/// Read-after-write: storing a byte at a valid address and reading it back
/// returns that byte, whether or not the page was allocated before.
pub proof fn lemma_store_byte_read_byte(m: MemModel, addr: int, byte: u8)
    requires
        mem_wf(m),
        addr_valid(addr),
    ensures
        spec_read_byte(spec_store_byte(m, addr, byte), addr) == Ok::<u8, MemoryError>(byte),
{
}

/// A byte store at one address does not disturb a readable byte at any
/// other address: a read that succeeded before the store returns the same
/// byte after it.
pub proof fn lemma_store_byte_preserves_read(m: MemModel, a1: int, a2: int, byte: u8)
    requires
        mem_wf(m),
        a1 != a2,
        spec_read_byte(m, a2) is Ok,
    ensures
        spec_read_byte(spec_store_byte(m, a1, byte), a2) == spec_read_byte(m, a2),
{
    if addr_valid(a1) {
        let i1 = page_index(a1);
        let i2 = page_index(a2);
        let stored = spec_store_byte(m, a1, byte);
        if i1 == i2 {
            if page_offset(a1) == page_offset(a2) {
                lemma_addr_unique(a1, a2);
            }
            assert(m[i2] is Some);
            let p = m[i2]->Some_0;
            assert(p.len() == PAGE_SIZE as int);
            assert(stored[i2] == Some(p.update(page_offset(a1), byte)));
            assert(p.update(page_offset(a1), byte)[page_offset(a2)] == p[page_offset(a2)]);
        } else {
            assert(1 <= i2 < NUM_PAGES as int);
            assert(stored == m.update(i1, stored[i1]));
            assert(stored[i2] == m[i2]);
        }
    }
}

/// Page isolation: writing at two addresses in different pages, then
/// reading both back, returns each address's own value, independent of the
/// other write.
pub proof fn lemma_page_isolation(m: MemModel, a1: int, a2: int, v1: u8, v2: u8)
    requires
        mem_wf(m),
        addr_valid(a1),
        addr_valid(a2),
        page_index(a1) != page_index(a2),
    ensures
        ({
            let stored = spec_store_byte(spec_store_byte(m, a1, v1), a2, v2);
            &&& spec_read_byte(stored, a1) == Ok::<u8, MemoryError>(v1)
            &&& spec_read_byte(stored, a2) == Ok::<u8, MemoryError>(v2)
        }),
{
    let m1 = spec_store_byte(m, a1, v1);
    lemma_store_byte_read_byte(m, a1, v1);
    lemma_store_byte_preserves_wf(m, a1, v1);
    lemma_store_byte_read_byte(m1, a2, v2);
    lemma_addr_unique_pages(a1, a2);
    lemma_store_byte_preserves_read(m1, a2, a1, v2);
}

/// Addresses in different pages are different.
proof fn lemma_addr_unique_pages(a1: int, a2: int)
    requires
        page_index(a1) != page_index(a2),
    ensures
        a1 != a2,
{
}

/// Any access whose page index is 0 fails with `NULLAccess` on a read,
/// regardless of prior writes, and is silently dropped on a store.
pub proof fn lemma_null_page_access(m: MemModel, addr: int)
    requires
        page_index(addr) == 0,
    ensures
        spec_read_byte(m, addr) == Err::<u8, MemoryError>(MemoryError::NULLAccess),
        forall|byte: u8| #[trigger] spec_store_byte(m, addr, byte) == m,
{
}

/// Splitting a word into big-endian bytes and assembling those bytes again
/// yields the original word.
proof fn lemma_word_bytes_roundtrip(word: u32)
    ensures
        word_of_bytes(word_byte(word, 0), word_byte(word, 1), word_byte(word, 2), word_byte(word, 3))
            == word,
{
    assert(((((word >> 24) as u8) as u32) << 24) | ((((word >> 16) as u8) as u32) << 16) | ((((
    word >> 8) as u8) as u32) << 8) | ((word as u8) as u32) == word) by (bit_vector);
}

/// Word read-after-write: storing a word whose four byte addresses all lie
/// in valid pages and reading a word back at the same address returns the
/// stored word, whether or not the pages were allocated before.
pub proof fn lemma_store_word_read_word(m: MemModel, addr: int, word: u32)
    requires
        mem_wf(m),
        addr_valid(addr),
        addr_valid(addr + 3),
    ensures
        spec_read_word(spec_store_word(m, addr, word), addr) == Ok::<u32, MemoryError>(word),
{
    assert(addr_valid(addr + 1) && addr_valid(addr + 2)) by {
        assert(page_index(addr) <= page_index(addr + 1) <= page_index(addr + 3)) by (nonlinear_arith)
            requires
                PAGE_SIZE as int > 0,
        ;
        assert(page_index(addr) <= page_index(addr + 2) <= page_index(addr + 3)) by (nonlinear_arith)
            requires
                PAGE_SIZE as int > 0,
        ;
    };
    let b0 = word_byte(word, 0);
    let b1 = word_byte(word, 1);
    let b2 = word_byte(word, 2);
    let b3 = word_byte(word, 3);
    let m1 = spec_store_byte(m, addr, b0);
    let m2 = spec_store_byte(m1, addr + 1, b1);
    let m3 = spec_store_byte(m2, addr + 2, b2);
    let m4 = spec_store_byte(m3, addr + 3, b3);
    lemma_store_byte_preserves_wf(m, addr, b0);
    lemma_store_byte_preserves_wf(m1, addr + 1, b1);
    lemma_store_byte_preserves_wf(m2, addr + 2, b2);
    lemma_store_byte_read_byte(m, addr, b0);
    lemma_store_byte_read_byte(m1, addr + 1, b1);
    lemma_store_byte_read_byte(m2, addr + 2, b2);
    lemma_store_byte_read_byte(m3, addr + 3, b3);
    lemma_store_byte_preserves_read(m1, addr + 1, addr, b1);
    lemma_store_byte_preserves_read(m2, addr + 2, addr, b2);
    lemma_store_byte_preserves_read(m2, addr + 2, addr + 1, b2);
    lemma_store_byte_preserves_read(m3, addr + 3, addr, b3);
    lemma_store_byte_preserves_read(m3, addr + 3, addr + 1, b3);
    lemma_store_byte_preserves_read(m3, addr + 3, addr + 2, b3);
    lemma_word_bytes_roundtrip(word);
}

} // verus!
