//! Layout of the metadata blocks which code generation emits: raw bytes,
//! aligned to the native pointer alignment, with relocations to functions
//! and data.
use vstd::prelude::*;

verus! {

/// Identifies a data object declared in the output module.
#[derive(Debug, Clone, Copy, PartialEq, Eq, Structural)]
pub struct DataId(pub u32);

/// Identifies a function declared in the output module.
#[derive(Debug, Clone, Copy, PartialEq, Eq, Structural)]
pub struct FuncId(pub u32);

/// Size of a native pointer, in bytes.
pub open spec fn ptr_size() -> nat {
    vstd::layout::size_of::<&'static ()>()
}

/// Alignment of a native pointer, in bytes.
pub open spec fn ptr_align() -> nat {
    vstd::layout::align_of::<&'static ()>()
}

/// The size and alignment of a native pointer; the size is a non-zero
/// multiple of the alignment.
fn native_ptr_layout() -> (r: (usize, usize))
    ensures
        r.0 == ptr_size(),
        r.1 == ptr_align(),
        r.1 != 0,
        r.0 % r.1 == 0,
{
    vstd::layout::layout_for_type_is_valid::<&'static ()>();
    (core::mem::size_of::<&'static ()>(), core::mem::align_of::<&'static ()>())
}

/// The number of zero bytes which bring `n` up to a multiple of `align`.
pub open spec fn unalignment(n: int, align: int) -> int {
    (align - n % align) % align
}

/// The sum of two multiples of `al` is a multiple of `al`.
proof fn lemma_sum_aligned(a: int, b: int, al: int)
    requires
        al > 0,
        a % al == 0,
        b % al == 0,
    ensures
        (a + b) % al == 0,
{
    vstd::arithmetic::div_mod::lemma_add_mod_noop(a, b, al);
    assert(((a % al) + (b % al)) % al == 0int % al);
    vstd::arithmetic::div_mod::lemma_small_mod(0, al as nat);
}

/// A length padded by its unalignment is a multiple of `al`.
proof fn lemma_unalignment(n: int, al: int)
    requires
        al > 0,
        n >= 0,
    ensures
        (unalignment(n, al) + n) % al == 0,
        0 <= unalignment(n, al) < al,
{
    vstd::arithmetic::div_mod::lemma_fundamental_div_mod(n, al);
    let r = n % al;
    let q = n / al;
    if r == 0 {
        assert(unalignment(n, al) == 0) by {
            vstd::arithmetic::div_mod::lemma_mod_multiples_basic(1, al);
        }
        assert(n == al * q);
        vstd::arithmetic::div_mod::lemma_mod_multiples_basic(q, al);
        assert(al * q == q * al) by (nonlinear_arith);
    } else {
        assert(0 < al - r < al);
        vstd::arithmetic::div_mod::lemma_small_mod((al - r) as nat, al as nat);
        assert(unalignment(n, al) == al - r);
        assert(unalignment(n, al) + n == (q + 1) * al) by (nonlinear_arith)
            requires
                unalignment(n, al) == al - r,
                n == al * q + r;
        vstd::arithmetic::div_mod::lemma_mod_multiples_basic(q + 1, al);
    }
}

/// A metadata block which is being built.
#[derive(Debug)]
pub struct MemoryBlockBuilder {
    data: Vec<u8>,
    data_relocs: Vec<(usize, DataId, i64)>,
    func_relocs: Vec<(usize, FuncId)>,
    offset: usize,
    ptr_size: usize,
    ptr_align: usize,
    seg_sect_name: Option<(&'static str, &'static str)>,
}

/// A finished metadata block, ready to be defined as data.
#[derive(Debug)]
pub struct MemoryBlock {
    /// Alignment of the block, in bytes.
    pub align: u64,
    /// Whether the block must be kept even when nothing refers to it.
    pub used: bool,
    /// Segment and section names of the block, if set.
    pub segment_section: Option<(&'static str, &'static str)>,
    /// The bytes of the block.
    pub bytes: Vec<u8>,
    /// Data addresses to write at the given offsets, with addends.
    pub data_relocs: Vec<(usize, DataId, i64)>,
    /// Function addresses to write at the given offsets.
    pub func_relocs: Vec<(usize, FuncId)>,
}

impl MemoryBlockBuilder {
    /// The offset is the length of the data, is aligned to the native
    /// pointer alignment, and every function relocation lies within the
    /// data.
    pub closed spec fn well_formed(&self) -> bool {
        &&& self.ptr_size == ptr_size()
        &&& self.ptr_align == ptr_align()
        &&& self.ptr_align != 0
        &&& self.ptr_size % self.ptr_align == 0
        &&& self.offset == self.data@.len()
        &&& self.offset % self.ptr_align == 0
        &&& forall|i: int| 0 <= i < self.func_relocs@.len() ==> #[trigger] self.func_relocs@[i].0 + self.ptr_size <= self.data@.len()
    }

    /// The bytes written so far.
    pub closed spec fn bytes(&self) -> Seq<u8> {
        self.data@
    }

    /// The data relocations recorded so far.
    pub closed spec fn data_relocations(&self) -> Seq<(usize, DataId, i64)> {
        self.data_relocs@
    }

    /// The function relocations recorded so far.
    pub closed spec fn func_relocations(&self) -> Seq<(usize, FuncId)> {
        self.func_relocs@
    }

    /// The segment and section names, if set.
    pub closed spec fn segment_section(&self) -> Option<(&'static str, &'static str)> {
        self.seg_sect_name
    }

    /// An empty block.
    pub fn new() -> (r: MemoryBlockBuilder)
        ensures
            r.well_formed(),
            r.bytes() == Seq::<u8>::empty(),
            r.data_relocations() == Seq::<(usize, DataId, i64)>::empty(),
            r.func_relocations() == Seq::<(usize, FuncId)>::empty(),
            r.segment_section() is None,
    {
        let (ptr_size, ptr_align) = native_ptr_layout();
        MemoryBlockBuilder {
            data: Vec::new(),
            data_relocs: Vec::new(),
            func_relocs: Vec::new(),
            offset: 0,
            ptr_size,
            ptr_align,
            seg_sect_name: None,
        }
    }

    /// The current offset, which is the number of bytes written.
    pub fn offset(&self) -> (r: usize)
        requires
            self.well_formed(),
        ensures
            r == self.bytes().len(),
    {
        self.offset
    }

    /// Whether `val` is a multiple of the pointer alignment.
    pub fn is_aligned(&self, val: usize) -> (r: bool)
        requires
            self.well_formed(),
        ensures
            r == ((val as int) % (ptr_align() as int) == 0),
    {
        val % self.ptr_align == 0
    }

    /// How many bytes `val` lacks to be a multiple of the pointer
    /// alignment.
    pub fn unalignment_of(&self, val: usize) -> (r: usize)
        requires
            self.well_formed(),
        ensures
            r == unalignment(val as int, ptr_align() as int),
            r < ptr_align(),
    {
        (self.ptr_align - val % self.ptr_align) % self.ptr_align
    }

    /// Appends `n` zero bytes.
    fn pad(&mut self, n: usize)
        requires
            old(self).data@.len() + n <= usize::MAX,
        ensures
            final(self).data@ == old(self).data@ + Seq::new(n as nat, |i: int| 0u8),
            final(self).offset == old(self).offset,
            final(self).data_relocs == old(self).data_relocs,
            final(self).func_relocs == old(self).func_relocs,
            final(self).ptr_size == old(self).ptr_size,
            final(self).ptr_align == old(self).ptr_align,
            final(self).seg_sect_name == old(self).seg_sect_name,
    {
        let mut k: usize = 0;
        while k < n
            invariant
                k <= n,
                self.data@ == old(self).data@ + Seq::new(k as nat, |i: int| 0u8),
                self.offset == old(self).offset,
                self.data_relocs == old(self).data_relocs,
                self.func_relocs == old(self).func_relocs,
                self.ptr_size == old(self).ptr_size,
                self.ptr_align == old(self).ptr_align,
                self.seg_sect_name == old(self).seg_sect_name,
                old(self).data@.len() + n <= usize::MAX,
            decreases n - k,
        {
            self.data.push(0u8);
            k = k + 1;
            proof {
                assert(self.data@ =~= old(self).data@ + Seq::new(k as nat, |i: int| 0u8));
            }
        }
    }

    /// Pads the data with zero bytes up to the pointer alignment.
    fn align_offset(&mut self)
        requires
            old(self).ptr_align != 0,
            old(self).offset == old(self).data@.len(),
            old(self).data@.len() + old(self).ptr_align <= usize::MAX,
        ensures
            final(self).data@ == old(self).data@ + Seq::new(
                unalignment(old(self).offset as int, old(self).ptr_align as int) as nat,
                |i: int| 0u8,
            ),
            final(self).offset == final(self).data@.len(),
            final(self).offset % final(self).ptr_align == 0,
            final(self).data_relocs == old(self).data_relocs,
            final(self).func_relocs == old(self).func_relocs,
            final(self).ptr_size == old(self).ptr_size,
            final(self).ptr_align == old(self).ptr_align,
            final(self).seg_sect_name == old(self).seg_sect_name,
    {
        let rem = self.offset % self.ptr_align;
        let ghost off = self.offset as int;
        let ghost al = self.ptr_align as int;
        if rem != 0 {
            let extra = self.ptr_align - rem;
            self.pad(extra);
            self.offset = self.offset + extra;
            proof {
                let ex = extra as int;
                let rm = rem as int;
                assert(unalignment(off, al) == ex) by (nonlinear_arith)
                    requires
                        rm == off % al,
                        rm != 0,
                        ex == al - rm,
                        al > 0;
                assert((off + ex) % al == 0) by (nonlinear_arith)
                    requires
                        rm == off % al,
                        ex == al - rm,
                        al > 0;
            }
        } else {
            proof {
                assert(unalignment(off, al) == 0) by (nonlinear_arith)
                    requires
                        off % al == 0,
                        al > 0;
                assert(self.data@ =~= old(self).data@ + Seq::new(0, |i: int| 0u8));
            }
        }
    }

    /// Appends encoded bytes, then pads with zero bytes up to the pointer
    /// alignment.
    pub fn append_encoded(&mut self, encoded: Vec<u8>)
        requires
            old(self).well_formed(),
            old(self).bytes().len() + encoded@.len() + ptr_align() <= usize::MAX,
        ensures
            final(self).well_formed(),
            final(self).bytes() == old(self).bytes() + encoded@ + Seq::new(
                unalignment((old(self).bytes().len() + encoded@.len()) as int, ptr_align() as int) as nat,
                |i: int| 0u8,
            ),
            final(self).data_relocations() == old(self).data_relocations(),
            final(self).func_relocations() == old(self).func_relocations(),
            final(self).segment_section() == old(self).segment_section(),
    {
        let len = encoded.len();
        let mut encoded = encoded;
        let ghost enc = encoded@;
        self.data.append(&mut encoded);
        self.offset = self.offset + len;
        self.align_offset();
        proof {
            assert forall|i: int| 0 <= i < self.func_relocs@.len() implies #[trigger] self.func_relocs@[i].0 + self.ptr_size <= self.data@.len() by {
                assert(self.func_relocs@[i] == old(self).func_relocs@[i]);
            }
        }
    }

    /// Appends raw bytes, preceded by as many zero bytes as make their
    /// length a multiple of the pointer alignment.
    pub fn append_bytes(&mut self, bytes: &[u8])
        requires
            old(self).well_formed(),
            old(self).bytes().len() + bytes@.len() + 2 * ptr_align() <= usize::MAX,
        ensures
            final(self).well_formed(),
            final(self).bytes() == old(self).bytes() + Seq::new(
                unalignment(bytes@.len() as int, ptr_align() as int) as nat,
                |i: int| 0u8,
            ) + bytes@,
            final(self).data_relocations() == old(self).data_relocations(),
            final(self).func_relocations() == old(self).func_relocations(),
            final(self).segment_section() == old(self).segment_section(),
    {
        let len = bytes.len();
        let pad_len = self.unalignment_of(len);
        self.pad(pad_len);
        let ghost padded = self.data@;
        let mut k: usize = 0;
        while k < len
            invariant
                k <= len,
                len == bytes@.len(),
                self.data@ == padded + bytes@.subrange(0, k as int),
                self.offset == old(self).offset,
                self.data_relocs == old(self).data_relocs,
                self.func_relocs == old(self).func_relocs,
                self.ptr_size == old(self).ptr_size,
                self.ptr_align == old(self).ptr_align,
                self.seg_sect_name == old(self).seg_sect_name,
                padded.len() + len <= usize::MAX,
            decreases len - k,
        {
            self.data.push(bytes[k]);
            k = k + 1;
            proof {
                assert(self.data@ =~= padded + bytes@.subrange(0, k as int));
            }
        }
        proof {
            assert(bytes@.subrange(0, len as int) =~= bytes@);
            let al = self.ptr_align as int;
            let off = old(self).offset as int;
            let n = len as int;
            let u = pad_len as int;
            lemma_unalignment(n, al);
            lemma_sum_aligned(off, u + n, al);
            assert((off + u + n) % al == 0);
        }
        self.offset = self.offset + pad_len + len;
        self.align_offset();
        proof {
            let al = self.ptr_align as int;
            assert(unalignment(self.offset as int, al) == 0) by (nonlinear_arith)
                requires
                    (self.offset as int) % al == 0,
                    al > 0;
            assert(self.data@ =~= old(self).data@ + Seq::new(pad_len as nat, |i: int| 0u8) + bytes@);
            assert forall|i: int| 0 <= i < self.func_relocs@.len() implies #[trigger] self.func_relocs@[i].0 + self.ptr_size <= self.data@.len() by {
                assert(self.func_relocs@[i] == old(self).func_relocs@[i]);
            }
        }
    }

    /// Appends a single byte, preceded by padding as for
    /// [`MemoryBlockBuilder::append_bytes`].
    pub fn append_byte(&mut self, byte: u8)
        requires
            old(self).well_formed(),
            old(self).bytes().len() + 1 + 2 * ptr_align() <= usize::MAX,
        ensures
            final(self).well_formed(),
            final(self).bytes() == old(self).bytes() + Seq::new(
                unalignment(1, ptr_align() as int) as nat,
                |i: int| 0u8,
            ) + seq![byte],
            final(self).data_relocations() == old(self).data_relocations(),
            final(self).func_relocations() == old(self).func_relocations(),
            final(self).segment_section() == old(self).segment_section(),
    {
        let one = [byte];
        proof {
            assert(one@ =~= seq![byte]);
        }
        self.append_bytes(&one);
    }

    /// Appends a null pointer.
    pub fn append_null_ptr(&mut self)
        requires
            old(self).well_formed(),
            old(self).bytes().len() + 3 * ptr_size() <= usize::MAX,
        ensures
            final(self).well_formed(),
            final(self).bytes() == old(self).bytes() + Seq::new(ptr_size(), |i: int| 0u8),
            final(self).data_relocations() == old(self).data_relocations(),
            final(self).func_relocations() == old(self).func_relocations(),
            final(self).segment_section() == old(self).segment_section(),
    {
        let n = self.ptr_size;
        let mut zeros: Vec<u8> = Vec::new();
        let mut k: usize = 0;
        while k < n
            invariant
                k <= n,
                zeros@ == Seq::new(k as nat, |i: int| 0u8),
            decreases n - k,
        {
            zeros.push(0u8);
            k = k + 1;
            proof {
                assert(zeros@ =~= Seq::new(k as nat, |i: int| 0u8));
            }
        }
        proof {
            let al = self.ptr_align as int;
            let sz = self.ptr_size as int;
            assert(unalignment(sz, al) == 0) by (nonlinear_arith)
                requires
                    sz % al == 0,
                    al > 0;
            assert(al <= sz) by (nonlinear_arith)
                requires
                    sz % al == 0,
                    al > 0,
                    sz > 0;
        }
        self.append_bytes(zeros.as_slice());
        proof {
            assert(Seq::new(0nat, |i: int| 0u8) + Seq::new(ptr_size(), |i: int| 0u8) =~= Seq::new(ptr_size(), |i: int| 0u8));
            assert(old(self).bytes() + Seq::new(0nat, |i: int| 0u8) + Seq::new(ptr_size(), |i: int| 0u8)
                =~= old(self).bytes() + Seq::new(ptr_size(), |i: int| 0u8));
        }
    }

    /// Appends room for a pointer to function `id`, recording a relocation
    /// at the current offset.
    pub fn append_func_address(&mut self, id: FuncId)
        requires
            old(self).well_formed(),
            old(self).bytes().len() + ptr_size() <= usize::MAX,
        ensures
            final(self).well_formed(),
            final(self).bytes() == old(self).bytes() + Seq::new(ptr_size(), |i: int| 0u8),
            final(self).data_relocations() == old(self).data_relocations(),
            final(self).func_relocations() == old(self).func_relocations().push((old(self).bytes().len() as usize, id)),
            final(self).segment_section() == old(self).segment_section(),
    {
        let n = self.ptr_size;
        self.pad(n);
        self.func_relocs.push((self.offset, id));
        self.offset = self.offset + n;
        proof {
            let al = self.ptr_align as int;
            let sz = self.ptr_size as int;
            let off = old(self).offset as int;
            lemma_sum_aligned(off, sz, al);
            assert forall|i: int| 0 <= i < self.func_relocs@.len() implies #[trigger] self.func_relocs@[i].0 + self.ptr_size <= self.data@.len() by {
                if i < old(self).func_relocs@.len() {
                    assert(self.func_relocs@[i] == old(self).func_relocs@[i]);
                }
            }
        }
    }

    /// Appends room for a pointer to data `id` plus `addend`, recording a
    /// relocation at the current offset.
    pub fn append_data_address(&mut self, id: DataId, addend: i64)
        requires
            old(self).well_formed(),
            old(self).bytes().len() + ptr_size() <= usize::MAX,
        ensures
            final(self).well_formed(),
            final(self).bytes() == old(self).bytes() + Seq::new(ptr_size(), |i: int| 0u8),
            final(self).data_relocations() == old(self).data_relocations().push((old(self).bytes().len() as usize, id, addend)),
            final(self).func_relocations() == old(self).func_relocations(),
            final(self).segment_section() == old(self).segment_section(),
    {
        let n = self.ptr_size;
        self.pad(n);
        self.data_relocs.push((self.offset, id, addend));
        self.offset = self.offset + n;
        proof {
            let al = self.ptr_align as int;
            let sz = self.ptr_size as int;
            let off = old(self).offset as int;
            lemma_sum_aligned(off, sz, al);
            assert forall|i: int| 0 <= i < self.func_relocs@.len() implies #[trigger] self.func_relocs@[i].0 + self.ptr_size <= self.data@.len() by {
                assert(self.func_relocs@[i] == old(self).func_relocs@[i]);
            }
        }
    }

    /// Records a relocation to data `id` plus `addend` at `offset`, which
    /// overwrites what is there; the bytes and the offset are unchanged.
    pub fn append_data_address_at(&mut self, id: DataId, offset: usize, addend: i64)
        requires
            old(self).well_formed(),
        ensures
            final(self).well_formed(),
            final(self).bytes() == old(self).bytes(),
            final(self).data_relocations() == old(self).data_relocations().push((offset, id, addend)),
            final(self).func_relocations() == old(self).func_relocations(),
            final(self).segment_section() == old(self).segment_section(),
    {
        self.data_relocs.push((offset, id, addend));
    }

    /// Sets the segment and section names of the block.
    pub fn set_segment_section(&mut self, segment: &'static str, section: &'static str)
        requires
            old(self).well_formed(),
        ensures
            final(self).well_formed(),
            final(self).bytes() == old(self).bytes(),
            final(self).data_relocations() == old(self).data_relocations(),
            final(self).func_relocations() == old(self).func_relocations(),
            final(self).segment_section() == Some((segment, section)),
    {
        self.seg_sect_name = Some((segment, section));
    }

    /// The finished block: aligned to eight bytes, always kept, with the
    /// bytes and relocations written so far.
    pub fn finish(self) -> (r: MemoryBlock)
        requires
            self.well_formed(),
        ensures
            r.align == 8,
            r.used,
            r.segment_section == self.segment_section(),
            r.bytes@ == self.bytes(),
            r.data_relocs@ == self.data_relocations(),
            r.func_relocs@ == self.func_relocations(),
    {
        MemoryBlock {
            align: 8,
            used: true,
            segment_section: self.seg_sect_name,
            bytes: self.data,
            data_relocs: self.data_relocs,
            func_relocs: self.func_relocs,
        }
    }
}

} // verus!

verus! {

/// Whatever was appended, the bytes of a block always end on the native
/// pointer alignment, so the next pointer is written aligned.
pub proof fn law_block_stays_aligned(b: MemoryBlockBuilder)
    requires
        b.well_formed(),
    ensures
        b.bytes().len() % ptr_align() == 0,
        forall|i: int| 0 <= i < b.func_relocations().len() ==> #[trigger] b.func_relocations()[i].0 + ptr_size() <= b.bytes().len(),
{
}

/// The text of a string constant as it is stored for a metadata block:
/// ending in a NUL character, which is added when missing.
pub open spec fn nul_terminated_text(s: Seq<char>) -> Seq<char> {
    if s.len() > 0 && s.last() == '\0' {
        s
    } else {
        s.push('\0')
    }
}

/// Ends the text with a NUL character unless it already ends with one, as
/// a string constant whose address is put in a metadata block is stored.
pub fn nul_terminated(value: String) -> (r: String)
    ensures
        r@ == nul_terminated_text(value@),
{
    let n = value.as_str().unicode_len();
    if n > 0 && value.as_str().get_char(n - 1) == '\0' {
        value
    } else {
        let nul = "\0";
        proof {
            reveal_strlit("\0");
        }
        value.concat(nul)
    }
}

/// A range of a function's code together with the stack offsets which
/// hold references while it runs.
pub struct StackLocation {
    pub start: usize,
    pub size: usize,
    pub offsets: Vec<usize>,
}

/// The stack frame of a compiled function: its total size and its stack
/// locations.
pub struct FrameMetadata {
    pub total_size: usize,
    pub locations: Vec<StackLocation>,
}

/// A declared function as the stack map table sees it: whether it is
/// external, and its frame when code generation recorded one.
pub struct FuncStackMap {
    pub func: FuncId,
    pub external: bool,
    pub frame: Option<FrameMetadata>,
}

/// One entry of the stack map table: the address of a function, filled in
/// by a relocation, or a 64-bit word.
#[derive(Debug, Clone, Copy, PartialEq, Eq, Structural)]
pub enum StackMapEntry {
    Address(FuncId),
    Word(u64),
}

/// The content of the stack map table: the number of functions it
/// describes, written first, and the entries which follow.
pub struct StackMapLayout {
    pub nfunc: u64,
    pub entries: Vec<StackMapEntry>,
}

/// The entries of the stack offsets of a location.
pub open spec fn offsets_entries(os: Seq<usize>) -> Seq<StackMapEntry> {
    os.map_values(|o: usize| StackMapEntry::Word(o as u64))
}

/// The entries of a location: its start, its size, the number of its
/// offsets, then the offsets.
pub open spec fn location_entries(l: StackLocation) -> Seq<StackMapEntry> {
    seq![
        StackMapEntry::Word(l.start as u64),
        StackMapEntry::Word(l.size as u64),
        StackMapEntry::Word(l.offsets@.len() as u64),
    ] + offsets_entries(l.offsets@)
}

/// The entries of a list of locations, one after the other.
pub open spec fn locations_entries(ls: Seq<StackLocation>) -> Seq<StackMapEntry>
    decreases ls.len(),
{
    if ls.len() == 0 {
        Seq::empty()
    } else {
        locations_entries(ls.drop_last()) + location_entries(ls.last())
    }
}

/// Whether the table describes the function: it is defined here, not
/// external, and its frame is known.
pub open spec fn described(f: FuncStackMap) -> bool {
    !f.external && f.frame is Some
}

/// The entries of a function: none when it is not described; else its
/// address, its frame size, the number of its locations, then the
/// locations.
pub open spec fn func_entries(f: FuncStackMap) -> Seq<StackMapEntry> {
    if described(f) {
        let frame = f.frame->Some_0;
        seq![
            StackMapEntry::Address(f.func),
            StackMapEntry::Word(frame.total_size as u64),
            StackMapEntry::Word(frame.locations@.len() as u64),
        ] + locations_entries(frame.locations@)
    } else {
        Seq::empty()
    }
}

/// The entries of a list of functions, one after the other.
pub open spec fn funcs_entries(fs: Seq<FuncStackMap>) -> Seq<StackMapEntry>
    decreases fs.len(),
{
    if fs.len() == 0 {
        Seq::empty()
    } else {
        funcs_entries(fs.drop_last()) + func_entries(fs.last())
    }
}

/// The number of functions which the table describes.
pub open spec fn described_count(fs: Seq<FuncStackMap>) -> nat
    decreases fs.len(),
{
    if fs.len() == 0 {
        0
    } else {
        described_count(fs.drop_last()) + if described(fs.last()) {
            1nat
        } else {
            0nat
        }
    }
}

/// Appends the entries of one location.
fn push_location(l: &StackLocation, out: &mut Vec<StackMapEntry>)
    ensures
        final(out)@ == old(out)@ + location_entries(*l),
{
    let ghost before = out@;
    out.push(StackMapEntry::Word(l.start as u64));
    out.push(StackMapEntry::Word(l.size as u64));
    out.push(StackMapEntry::Word(l.offsets.len() as u64));
    let ghost head = out@;
    let mut i: usize = 0;
    while i < l.offsets.len()
        invariant
            i <= l.offsets@.len(),
            out@ == head + offsets_entries(l.offsets@.take(i as int)),
        decreases l.offsets.len() - i,
    {
        out.push(StackMapEntry::Word(l.offsets[i] as u64));
        proof {
            assert(offsets_entries(l.offsets@.take(i + 1)) =~= offsets_entries(l.offsets@.take(i as int)).push(
                StackMapEntry::Word(l.offsets@[i as int] as u64),
            ));
        }
        i = i + 1;
    }
    proof {
        assert(l.offsets@.take(l.offsets@.len() as int) =~= l.offsets@);
        assert(out@ =~= before + location_entries(*l));
    }
}

/// Appends the entries of a list of locations.
fn push_locations(ls: &Vec<StackLocation>, out: &mut Vec<StackMapEntry>)
    ensures
        final(out)@ == old(out)@ + locations_entries(ls@),
{
    let ghost before = out@;
    let mut i: usize = 0;
    while i < ls.len()
        invariant
            i <= ls@.len(),
            out@ == before + locations_entries(ls@.take(i as int)),
        decreases ls.len() - i,
    {
        push_location(&ls[i], out);
        proof {
            assert(ls@.take(i + 1).drop_last() =~= ls@.take(i as int));
            assert(out@ =~= before + locations_entries(ls@.take(i + 1)));
        }
        i = i + 1;
    }
    proof {
        assert(ls@.take(ls@.len() as int) =~= ls@);
    }
}

/// Lays out the stack map table of the declared functions, in their order:
/// external functions and functions without a known frame are left out;
/// each other function gives its address, its frame size and its
/// locations.
pub fn stack_map_layout(funcs: &Vec<FuncStackMap>) -> (r: StackMapLayout)
    ensures
        r.entries@ == funcs_entries(funcs@),
        r.nfunc == described_count(funcs@),
{
    let mut entries: Vec<StackMapEntry> = Vec::new();
    let mut nfunc: u64 = 0;
    let mut i: usize = 0;
    while i < funcs.len()
        invariant
            i <= funcs@.len(),
            entries@ == funcs_entries(funcs@.take(i as int)),
            nfunc == described_count(funcs@.take(i as int)),
            nfunc <= i,
        decreases funcs.len() - i,
    {
        let f = &funcs[i];
        let ghost prev = entries@;
        proof {
            assert(funcs@.take(i + 1).drop_last() =~= funcs@.take(i as int));
            assert(funcs@.take(i + 1).last() == funcs@[i as int]);
        }
        if !f.external {
            match &f.frame {
                Some(frame) => {
                    entries.push(StackMapEntry::Address(f.func));
                    entries.push(StackMapEntry::Word(frame.total_size as u64));
                    entries.push(StackMapEntry::Word(frame.locations.len() as u64));
                    push_locations(&frame.locations, &mut entries);
                    nfunc = nfunc + 1;
                },
                None => {},
            }
        }
        proof {
            assert(entries@ =~= prev + func_entries(funcs@[i as int]));
        }
        i = i + 1;
    }
    proof {
        assert(funcs@.take(funcs@.len() as int) =~= funcs@);
    }
    StackMapLayout { nfunc, entries }
}

/// The number of bytes of a list of entries, with addresses of
/// `pointer_bytes` bytes and words of eight.
pub open spec fn entries_bytes(es: Seq<StackMapEntry>, pointer_bytes: nat) -> nat
    decreases es.len(),
{
    if es.len() == 0 {
        0
    } else {
        entries_bytes(es.drop_last(), pointer_bytes) + match es.last() {
            StackMapEntry::Address(_) => pointer_bytes,
            StackMapEntry::Word(_) => 8nat,
        }
    }
}

/// The size of the stack map symbol: the eight bytes of the function count
/// and the bytes of the entries; `None` when it does not fit in `usize`.
pub fn stack_map_symbol_size(layout: &StackMapLayout, pointer_bytes: usize) -> (r: Option<usize>)
    ensures
        r == if 8 + entries_bytes(layout.entries@, pointer_bytes as nat) <= usize::MAX {
            Some((8 + entries_bytes(layout.entries@, pointer_bytes as nat)) as usize)
        } else {
            None::<usize>
        },
{
    let mut total: usize = 8;
    let mut i: usize = 0;
    while i < layout.entries.len()
        invariant
            i <= layout.entries@.len(),
            total == 8 + entries_bytes(layout.entries@.take(i as int), pointer_bytes as nat),
        decreases layout.entries.len() - i,
    {
        proof {
            assert(layout.entries@.take(i + 1).drop_last() =~= layout.entries@.take(i as int));
            lemma_entries_bytes_prefix(layout.entries@, i + 1, pointer_bytes as nat);
        }
        let size = match layout.entries[i] {
            StackMapEntry::Address(_) => pointer_bytes,
            StackMapEntry::Word(_) => 8,
        };
        match total.checked_add(size) {
            Some(t) => {
                total = t;
            },
            None => {
                proof {
                    lemma_entries_bytes_prefix(layout.entries@, layout.entries@.len() as int, pointer_bytes as nat);
                    lemma_entries_bytes_grow(layout.entries@, i + 1, pointer_bytes as nat);
                }
                return None;
            },
        }
        i = i + 1;
    }
    proof {
        assert(layout.entries@.take(layout.entries@.len() as int) =~= layout.entries@);
    }
    Some(total)
}

/// A longer prefix has at least as many bytes.
proof fn lemma_entries_bytes_grow(es: Seq<StackMapEntry>, k: int, pointer_bytes: nat)
    requires
        0 <= k <= es.len(),
    ensures
        entries_bytes(es.take(k), pointer_bytes) <= entries_bytes(es, pointer_bytes),
    decreases es.len() - k,
{
    if k < es.len() {
        lemma_entries_bytes_grow(es, k + 1, pointer_bytes);
        assert(es.take(k + 1).drop_last() =~= es.take(k));
    } else {
        assert(es.take(k) =~= es);
    }
}

/// The bytes of a prefix one longer add the last entry.
proof fn lemma_entries_bytes_prefix(es: Seq<StackMapEntry>, k: int, pointer_bytes: nat)
    requires
        0 < k <= es.len(),
    ensures
        entries_bytes(es.take(k), pointer_bytes) == entries_bytes(es.take(k - 1), pointer_bytes) + match es[k - 1] {
            StackMapEntry::Address(_) => pointer_bytes,
            StackMapEntry::Word(_) => 8nat,
        },
{
    assert(es.take(k).drop_last() =~= es.take(k - 1));
    assert(es.take(k).last() == es[k - 1]);
}

} // verus!
