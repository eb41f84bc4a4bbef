//! The machine's byte-addressable store, the debug tags of its addresses, and the
//! data directives that reserve and fill it at load time.

use std::collections::BTreeMap;
use vstd::prelude::*;
use vstd::string::StringSliceAdditionalSpecFns;

use crate::error::VmError;

verus! {

broadcast use vstd::std_specs::btree::group_btree_axioms;

/// A data directive of the assembler.
#[derive(Debug)]
pub enum DataDirective {
    /// One byte.
    Byte(u8),
    /// One 16-bit value, aligned to 2.
    HalfWord(u16),
    /// One 32-bit value, aligned to 4.
    Word(u32),
    /// The bytes of a string, without a terminator.
    Ascii(String),
    /// The bytes of a string, followed by a zero byte.
    AsciiZero(String),
    /// That many reserved bytes.
    Space(u32),
    /// Moves the write cursor to the next multiple of the operand.
    Align(u32),
}

/// What a [`DataDirective`] holds, as mathematical values.
pub enum DataDirectiveView {
    Byte(u8),
    HalfWord(u16),
    Word(u32),
    Ascii(Seq<char>),
    AsciiZero(Seq<char>),
    Space(u32),
    Align(u32),
}

impl View for DataDirective {
    type V = DataDirectiveView;

    open spec fn view(&self) -> DataDirectiveView {
        match self {
            DataDirective::Byte(b) => DataDirectiveView::Byte(*b),
            DataDirective::HalfWord(h) => DataDirectiveView::HalfWord(*h),
            DataDirective::Word(w) => DataDirectiveView::Word(*w),
            DataDirective::Ascii(s) => DataDirectiveView::Ascii(s@),
            DataDirective::AsciiZero(s) => DataDirectiveView::AsciiZero(s@),
            DataDirective::Space(n) => DataDirectiveView::Space(*n),
            DataDirective::Align(k) => DataDirectiveView::Align(*k),
        }
    }
}

impl Clone for DataDirective {
    fn clone(&self) -> (r: Self)
        ensures
            r == *self,
    {
        match self {
            DataDirective::Byte(b) => DataDirective::Byte(*b),
            DataDirective::HalfWord(h) => DataDirective::HalfWord(*h),
            DataDirective::Word(w) => DataDirective::Word(*w),
            DataDirective::Ascii(s) => DataDirective::Ascii(s.clone()),
            DataDirective::AsciiZero(s) => DataDirective::AsciiZero(s.clone()),
            DataDirective::Space(n) => DataDirective::Space(*n),
            DataDirective::Align(k) => DataDirective::Align(*k),
        }
    }
}

/// A data directive under the name that the source gives it.
#[derive(Debug)]
pub struct DataMap {
    name: String,
    data: DataDirective,
}

/// What a [`DataMap`] holds, as mathematical values.
pub struct DataMapView {
    pub name: Seq<char>,
    pub data: DataDirectiveView,
}

impl View for DataMap {
    type V = DataMapView;

    closed spec fn view(&self) -> DataMapView {
        DataMapView { name: self.name@, data: self.data@ }
    }
}

impl DataMap {
    /// A datum called `name`; a datum without a name has the empty name.
    pub fn new(name: String, data: DataDirective) -> (r: DataMap)
        ensures
            r@ == (DataMapView { name: name@, data: data@ }),
    {
        DataMap { name, data }
    }

    /// The name of the datum.
    pub fn get_name(&self) -> (r: &String)
        ensures
            r@ == self@.name,
    {
        &self.name
    }

    /// The directive that defines the datum.
    pub fn get_data(&self) -> (r: &DataDirective)
        ensures
            r@ == self@.data,
    {
        &self.data
    }
}

impl Clone for DataMap {
    fn clone(&self) -> (r: Self)
        ensures
            r == *self,
    {
        DataMap { name: self.name.clone(), data: self.data.clone() }
    }
}

/// The semantic type of what was last written at an address.  A tag is shown when
/// memory is rendered and never changes what a read or write does.
#[derive(Debug, Clone, Copy, PartialEq, Eq, Structural)]
pub enum MemTag {
    String,
}

/// The data bytes of the machine, with the debug tags of their addresses.
#[derive(Debug)]
pub struct Memory {
    data: Vec<u8>,
    tags: BTreeMap<usize, Option<MemTag>>,
}

/// What a [`Memory`] holds, as mathematical values.
#[verifier::ext_equal]
pub struct MemoryView {
    /// The reserved bytes: address `a` is reserved exactly when `a < data.len()`.
    pub data: Seq<u8>,
    /// The tagged addresses.
    pub tags: Map<usize, Option<MemTag>>,
}

/// `memory` with `bytes` written from address `addr` on.
pub open spec fn written(memory: Seq<u8>, addr: int, bytes: Seq<u8>) -> Seq<u8> {
    Seq::new(
        memory.len(),
        |i: int|
            if addr <= i < addr + bytes.len() {
                bytes[i - addr]
            } else {
                memory[i]
            },
    )
}

/// That many zero bytes.
pub open spec fn zeros(count: nat) -> Seq<u8> {
    Seq::new(count, |i: int| 0u8)
}

/// The first multiple of `alignment` from `cursor` on; `cursor` itself where
/// `alignment` is zero.
pub open spec fn aligned(cursor: nat, alignment: nat) -> nat {
    if alignment == 0 || cursor % alignment == 0 {
        cursor
    } else {
        (cursor + alignment - cursor % alignment) as nat
    }
}

/// The multiple that a directive's datum is aligned to.
pub open spec fn directive_alignment(directive: DataDirectiveView) -> nat {
    match directive {
        DataDirectiveView::HalfWord(_) => 2,
        DataDirectiveView::Word(_) => 4,
        DataDirectiveView::Align(k) => k as nat,
        _ => 1,
    }
}

/// The bytes that a directive stores: numbers with their least significant byte
/// first, strings in UTF-8.
pub open spec fn directive_bytes(directive: DataDirectiveView) -> Seq<u8> {
    match directive {
        DataDirectiveView::Byte(b) => seq![b],
        DataDirectiveView::HalfWord(h) => seq![(h % 256) as u8, (h / 256) as u8],
        DataDirectiveView::Word(w) => seq![
            (w % 256) as u8,
            (w / 256 % 256) as u8,
            (w / 65536 % 256) as u8,
            (w / 16777216) as u8,
        ],
        DataDirectiveView::Ascii(s) => vstd::utf8::encode_utf8(s),
        DataDirectiveView::AsciiZero(s) => vstd::utf8::encode_utf8(s).push(0u8),
        DataDirectiveView::Space(n) => zeros(n as nat),
        DataDirectiveView::Align(_) => Seq::empty(),
    }
}

/// The address at which a directive's datum begins in a store of `len` bytes.
pub open spec fn directive_address(len: nat, directive: DataDirectiveView) -> nat {
    aligned(len, directive_alignment(directive))
}

/// The store after a directive was processed: zero bytes up to the datum's
/// alignment, then the datum.
pub open spec fn stored(memory: Seq<u8>, directive: DataDirectiveView) -> Seq<u8> {
    memory + zeros((directive_address(memory.len(), directive) - memory.len()) as nat)
        + directive_bytes(directive)
}

impl View for Memory {
    type V = MemoryView;

    closed spec fn view(&self) -> MemoryView {
        MemoryView { data: self.data@, tags: self.tags@ }
    }
}

impl Memory {
    /// An empty store: no address is reserved or tagged.
    pub fn new() -> (memory: Memory)
        ensures
            memory@.data.len() == 0,
            memory@.tags == Map::<usize, Option<MemTag>>::empty(),
    {
        Memory { data: Vec::new(), tags: BTreeMap::new() }
    }

    /// A store that holds `data`, all of it reserved and none of it tagged.
    pub fn from_bytes(data: Vec<u8>) -> (memory: Memory)
        ensures
            memory@.data == data@,
            memory@.tags == Map::<usize, Option<MemTag>>::empty(),
    {
        Memory { data, tags: BTreeMap::new() }
    }

    /// A store that holds `data` with the given tags.
    pub fn from_parts(data: Vec<u8>, tags: BTreeMap<usize, Option<MemTag>>) -> (memory: Memory)
        ensures
            memory@.data == data@,
            memory@.tags == tags@,
    {
        Memory { data, tags }
    }

    /// The first address behind the reserved region, where the next datum goes.
    pub fn last(&self) -> (r: usize)
        ensures
            r == self@.data.len(),
    {
        self.data.len()
    }

    /// The reserved bytes.
    pub fn bytes(&self) -> (r: &Vec<u8>)
        ensures
            r@ == self@.data,
    {
        &self.data
    }

    /// The tagged addresses.
    pub fn tags(&self) -> (r: &BTreeMap<usize, Option<MemTag>>)
        ensures
            r@ == self@.tags,
    {
        &self.tags
    }

    /// Tags address `addr`.  The bytes stay as they are.
    pub fn tag(&mut self, addr: usize, tag: MemTag)
        ensures
            final(self)@.data == old(self)@.data,
            final(self)@.tags == old(self)@.tags.insert(addr, Some(tag)),
    {
        self.tags.insert(addr, Some(tag));
    }

    /// Writes `data` from address `addr` on.  All of the destination must be
    /// reserved; otherwise nothing is written.
    pub fn write(&mut self, addr: usize, data: &[u8]) -> (r: Result<(), VmError>)
        ensures
            addr + data@.len() <= old(self)@.data.len() ==> r is Ok && final(self)@.data == written(
                old(self)@.data,
                addr as int,
                data@,
            ),
            addr + data@.len() > old(self)@.data.len() ==> r == Err::<(), VmError>(
                VmError::AddressingError,
            ) && final(self)@.data == old(self)@.data,
            final(self)@.tags == old(self)@.tags,
    {
        if addr > self.data.len() || data.len() > self.data.len() - addr {
            return Err(VmError::AddressingError);
        }
        let len = self.data.len();
        let mut i: usize = 0;
        while i < data.len()
            invariant
                i <= data@.len(),
                addr + data@.len() <= len,
                self.data@.len() == len,
                len == old(self).data@.len(),
                self.tags == old(self).tags,
                self.data@ == written(old(self).data@, addr as int, data@.take(i as int)),
            decreases data.len() - i,
        {
            self.data[addr + i] = data[i];
            i += 1;
            assert(self.data@ =~= written(old(self).data@, addr as int, data@.take(i as int)));
        }
        assert(data@.take(i as int) =~= data@);
        Ok(())
    }

    /// The byte at address `addr` with the tag of that address.
    pub fn read(&self, addr: usize) -> (r: Result<(u8, Option<MemTag>), VmError>)
        ensures
            addr < self@.data.len() ==> r == Ok::<(u8, Option<MemTag>), VmError>(
                (
                    self@.data[addr as int],
                    if self@.tags.contains_key(addr) {
                        self@.tags[addr]
                    } else {
                        None
                    },
                ),
            ),
            addr >= self@.data.len() ==> r == Err::<(u8, Option<MemTag>), VmError>(
                VmError::AddressingError,
            ),
    {
        if addr >= self.data.len() {
            return Err(VmError::AddressingError);
        }
        let tag = match self.tags.get(&addr) {
            Some(tag) => *tag,
            None => None,
        };
        Ok((self.data[addr], tag))
    }

    /// Reserves `size` more bytes, all zero, behind the reserved region.  Fails,
    /// and reserves nothing, where the store would outgrow the address space.
    pub fn grow(&mut self, size: usize) -> (r: Result<(), VmError>)
        ensures
            old(self)@.data.len() + size <= usize::MAX ==> r is Ok && final(self)@.data == old(self)@.data + zeros(size as nat),
            old(self)@.data.len() + size > usize::MAX ==> r == Err::<(), VmError>(
                VmError::AddressingError,
            ) && final(self)@.data == old(self)@.data,
            final(self)@.tags == old(self)@.tags,
    {
        match self.data.len().checked_add(size) {
            Some(len) => {
                self.data.resize(len, 0u8);
                assert(self.data@ =~= old(self).data@ + zeros(size as nat));
                Ok(())
            },
            None => Err(VmError::AddressingError),
        }
    }

    /// Processes one data directive: pads the store with zero bytes up to the
    /// datum's alignment and appends the datum.  Returns the datum's address.
    /// Fails, and stores nothing, where the store would outgrow the address space.
    pub fn store(&mut self, directive: &DataDirective) -> (r: Result<usize, VmError>)
        ensures
            stored(old(self)@.data, directive@).len() <= usize::MAX ==> r == Ok::<usize, VmError>(
                directive_address(old(self)@.data.len(), directive@) as usize,
            ) && final(self)@.data == stored(old(self)@.data, directive@),
            stored(old(self)@.data, directive@).len() > usize::MAX ==> r == Err::<usize, VmError>(
                VmError::AddressingError,
            ) && final(self)@.data == old(self)@.data,
            final(self)@.tags == old(self)@.tags,
    {
        let len = self.data.len();
        let alignment: usize = match directive {
            DataDirective::HalfWord(_) => 2,
            DataDirective::Word(_) => 4,
            DataDirective::Align(k) => *k as usize,
            _ => 1,
        };
        let padding: usize = if alignment == 0 || len % alignment == 0 {
            0
        } else {
            alignment - len % alignment
        };
        let size: Option<usize> = match directive {
            DataDirective::Byte(_) => Some(1),
            DataDirective::HalfWord(_) => Some(2),
            DataDirective::Word(_) => Some(4),
            DataDirective::Ascii(s) => Some(s.as_str().as_bytes().len()),
            DataDirective::AsciiZero(s) => s.as_str().as_bytes().len().checked_add(1),
            DataDirective::Space(n) => Some(*n as usize),
            DataDirective::Align(_) => Some(0),
        };
        assert(size matches Some(n) ==> n == directive_bytes(directive@).len());
        assert(size is None ==> directive_bytes(directive@).len() > usize::MAX);
        let addr = match len.checked_add(padding) {
            Some(addr) => addr,
            None => {
                return Err(VmError::AddressingError);
            },
        };
        assert(addr == directive_address(len as nat, directive@));
        let fits = match size {
            Some(n) => addr.checked_add(n).is_some(),
            None => false,
        };
        if !fits {
            return Err(VmError::AddressingError);
        }
        self.data.resize(addr, 0u8);
        assert(self.data@ =~= old(self).data@ + zeros((addr - len) as nat));
        match directive {
            DataDirective::Byte(b) => {
                self.data.push(*b);
            },
            DataDirective::HalfWord(h) => {
                self.data.push((*h % 256) as u8);
                self.data.push((*h / 256) as u8);
            },
            DataDirective::Word(w) => {
                self.data.push((*w % 256) as u8);
                self.data.push((*w / 256 % 256) as u8);
                self.data.push((*w / 65536 % 256) as u8);
                self.data.push((*w / 16777216) as u8);
            },
            DataDirective::Ascii(s) => {
                self.data.extend_from_slice(s.as_str().as_bytes());
            },
            DataDirective::AsciiZero(s) => {
                self.data.extend_from_slice(s.as_str().as_bytes());
                self.data.push(0u8);
            },
            DataDirective::Space(n) => {
                self.data.resize(addr + *n as usize, 0u8);
            },
            DataDirective::Align(_) => {},
        }
        assert(self.data@ =~= stored(old(self)@.data, directive@));
        Ok(addr)
    }

    /// Processes data directives in order into a store of their own.  Returns the
    /// store with the address of each datum, or fails where the data outgrow the
    /// address space.
    pub fn load(data: &Vec<DataMap>) -> (r: Result<(Memory, Vec<usize>), VmError>)
        ensures
            match r {
                Ok((memory, addresses)) => {
                    &&& loaded(data@.map_values(|d: DataMap| d@.data)) == Some(memory@.data)
                    &&& memory@.tags == Map::<usize, Option<MemTag>>::empty()
                    &&& addresses@.len() == data@.len()
                    &&& forall|k: int|
                        0 <= k < data@.len() ==> #[trigger] addresses@[k] == directive_address(
                            loaded(data@.map_values(|d: DataMap| d@.data).take(k)).unwrap().len(),
                            data@[k]@.data,
                        )
                },
                Err(e) => loaded(data@.map_values(|d: DataMap| d@.data)) is None && e
                    == VmError::AddressingError,
            },
    {
        let ghost all = data@.map_values(|d: DataMap| d@.data);
        let mut memory = Memory::new();
        let mut addresses: Vec<usize> = Vec::new();
        let mut n: usize = 0;
        assert(all.take(0) =~= Seq::<DataDirectiveView>::empty());
        assert(memory@.data =~= Seq::<u8>::empty());
        while n < data.len()
            invariant
                all == data@.map_values(|d: DataMap| d@.data),
                n <= data@.len(),
                loaded(all.take(n as int)) == Some(memory@.data),
                memory@.tags == Map::<usize, Option<MemTag>>::empty(),
                addresses@.len() == n,
                forall|k: int|
                    0 <= k < n ==> #[trigger] addresses@[k] == directive_address(
                        loaded(all.take(k)).unwrap().len(),
                        data@[k]@.data,
                    ),
            decreases data.len() - n,
        {
            proof {
                assert(all.take(n as int + 1).drop_last() =~= all.take(n as int));
                assert(all.take(n as int + 1).last() == data@[n as int]@.data);
            }
            match memory.store(data[n].get_data()) {
                Ok(addr) => {
                    addresses.push(addr);
                },
                Err(e) => {
                    proof {
                        lemma_loaded_prefix(all, n as int + 1);
                    }
                    return Err(e);
                },
            }
            n += 1;
        }
        assert(all.take(n as int) =~= all);
        Ok((memory, addresses))
    }
}

/// The store that data directives build when they are processed in order,
/// beginning with an empty store.  `None` where it would outgrow the address
/// space.
pub open spec fn loaded(directives: Seq<DataDirectiveView>) -> Option<Seq<u8>>
    decreases directives.len(),
{
    if directives.len() == 0 {
        Some(Seq::empty())
    } else {
        match loaded(directives.drop_last()) {
            Some(memory) => if stored(memory, directives.last()).len() <= usize::MAX {
                Some(stored(memory, directives.last()))
            } else {
                None
            },
            None => None,
        }
    }
}

/// Data whose beginning outgrows the address space outgrow it as a whole.
proof fn lemma_loaded_prefix(directives: Seq<DataDirectiveView>, k: int)
    requires
        0 <= k <= directives.len(),
        loaded(directives.take(k)) is None,
    ensures
        loaded(directives) is None,
    decreases directives.len() - k,
{
    if k < directives.len() {
        assert(directives.take(k + 1).drop_last() =~= directives.take(k));
        lemma_loaded_prefix(directives, k + 1);
    } else {
        assert(directives.take(k) =~= directives);
    }
}

} // verus!
