//! The target-specific intermediate representation: SSA value identities,
//! register files, operations, instructions, basic blocks and the
//! control-flow graph.

use vstd::prelude::*;

verus! {

/// Highest SSA index an [`SSAValue`] can carry: `(1 << 29) - 3`.
/// Index `0` means "none", and the two values above the limit are reserved
/// so that the component-count sentinel of [`SSARef`] can never collide
/// with a packed value.
pub const MAX_SSA_IDX: u32 = 0x1FFF_FFFD;

/// A named storage class with its own width and allocation domain.
#[derive(Clone, Copy, Debug, Eq, Hash, PartialEq, Structural)]
pub enum RegFile {
    /// The general-purpose register file, 32 bits per SIMT channel.
    GPR,
    /// The predicate register file, 1 bit per SIMT channel.
    Pred,
}

impl RegFile {
    /// The tag stored in the top three bits of a packed SSA value.
    pub open spec fn spec_bits(self) -> u32 {
        match self {
            RegFile::GPR => 0,
            RegFile::Pred => 2,
        }
    }

    /// Executable counterpart of [`RegFile::spec_bits`].
    pub fn bits(self) -> (r: u8)
        ensures
            r == self.spec_bits(),
    {
        match self {
            RegFile::GPR => 0,
            RegFile::Pred => 2,
        }
    }
}

impl From<RegFile> for u8 {
    fn from(value: RegFile) -> u8 {
        value.bits()
    }
}

impl vstd::std_specs::convert::FromSpecImpl<RegFile> for u8 {
    open spec fn obeys_from_spec() -> bool {
        true
    }

    open spec fn from_spec(v: RegFile) -> u8 {
        v.spec_bits() as u8
    }
}

/// An SSA value identity: a register-file tag and a monotonic index,
/// packed into one 32-bit word (top three bits = file, remainder = index).
#[derive(Clone, Copy, Debug, Eq, Hash, PartialEq, Structural)]
pub struct SSAValue {
    pub(crate) packed: u32,
}

/// How a file tag and an index pack into one word.
pub open spec fn spec_pack(bits: u32, idx: u32) -> u32 {
    (bits << 29) | idx
}

impl SSAValue {
    /// The raw packed word.
    pub open(crate) spec fn raw(self) -> u32 {
        self.packed
    }

    /// The file tag recovered from the top three bits.
    pub open(crate) spec fn file_bits(self) -> u32 {
        self.packed >> 29
    }

    /// The register file recovered from the packed word.
    pub open(crate) spec fn file_of(self) -> RegFile {
        if self.packed >> 29 == 2 {
            RegFile::Pred
        } else {
            RegFile::GPR
        }
    }

    /// The index recovered from the low 29 bits.
    pub open(crate) spec fn idx_of(self) -> u32 {
        self.packed & 0x1FFF_FFFF
    }

    /// A structurally valid value: index in range, file tag one of the
    /// known register files.
    pub open(crate) spec fn wf(self) -> bool {
        &&& 1 <= self.idx_of() <= MAX_SSA_IDX
        &&& (self.file_bits() == 0 || self.file_bits() == 2)
    }

    /// The value that packs `file` and `idx`.
    pub open(crate) spec fn spec_new(file: RegFile, idx: u32) -> SSAValue {
        SSAValue { packed: spec_pack(file.spec_bits(), idx) }
    }

    /// Packs `file` and `idx` into one value. Index `0` (the "none" marker)
    /// and indices above [`MAX_SSA_IDX`] are not valid identities.
    pub fn new(file: RegFile, idx: u32) -> (r: SSAValue)
        requires
            1 <= idx <= MAX_SSA_IDX,
        ensures
            r == SSAValue::spec_new(file, idx),
            r.file_of() == file,
            r.idx_of() == idx,
            r.wf(),
    {
        let bits: u32 = file.bits() as u32;
        let packed: u32 = (bits << 29) | idx;
        proof {
            lemma_pack_unpack(bits, idx);
        }
        SSAValue { packed }
    }

    /// The register file this value was allocated from.
    pub fn file(&self) -> (r: RegFile)
        ensures
            r == self.file_of(),
    {
        if self.packed >> 29 == 2 {
            RegFile::Pred
        } else {
            RegFile::GPR
        }
    }

    /// The allocation index of this value within its register file.
    pub fn idx(&self) -> (r: u32)
        ensures
            r == self.idx_of(),
    {
        self.packed & 0x1FFF_FFFF
    }
}

/// Packing and unpacking at the bit level: for a known file tag and an
/// index in range, the packed word splits back into tag and index and
/// stays well below the sentinel range of [`SSARef`].
proof fn lemma_pack_unpack(bits: u32, idx: u32)
    requires
        bits == 0 || bits == 2,
        1 <= idx <= MAX_SSA_IDX,
    ensures
        spec_pack(bits, idx) >> 29 == bits,
        spec_pack(bits, idx) & 0x1FFF_FFFF == idx,
        spec_pack(bits, idx) <= 0x5FFF_FFFD,
        spec_pack(bits, idx) != 0,
{
    assert(((bits << 29) | idx) >> 29 == bits && ((bits << 29) | idx) & 0x1FFF_FFFF == idx
        && ((bits << 29) | idx) <= 0x5FFF_FFFD && ((bits << 29) | idx) != 0)
        by (bit_vector)
        requires
            (bits == 0 || bits == 2) && 1 <= idx <= 0x1FFF_FFFD,
    ;
}

/// A structurally valid value's packed word stays below the sentinel range
/// that [`SSARef`] stores in its unused trailing slot.
proof fn lemma_wf_below_sentinels(v: SSAValue)
    requires
        v.wf(),
    ensures
        v.raw() <= 0x5FFF_FFFF,
{
    let p = v.raw();
    assert(p <= 0x5FFF_FFFF) by (bit_vector)
        requires
            (p >> 29 == 0 || p >> 29 == 2) && (p & 0x1FFF_FFFF) <= 0x1FFF_FFFD,
    ;
}

/// Packing law: packing a valid `(file, index)` pair and unpacking it
/// returns the original pair. Index `0` and indices above [`MAX_SSA_IDX`]
/// are not accepted by [`SSAValue::new`].
pub proof fn lemma_pack_round_trip(file: RegFile, idx: u32)
    requires
        1 <= idx <= MAX_SSA_IDX,
    ensures
        SSAValue::spec_new(file, idx).file_of() == file,
        SSAValue::spec_new(file, idx).idx_of() == idx,
        SSAValue::spec_new(file, idx).wf(),
{
    lemma_pack_unpack(file.spec_bits(), idx);
}

/// The values a fresh allocation of `n` components produces when the
/// allocator has already handed out `start` indices: indices
/// `start + 1 ..= start + n`, all in `file`.
pub open(crate) spec fn fresh_vals(file: RegFile, start: int, n: int) -> Seq<SSAValue> {
    Seq::new(n as nat, |i: int| SSAValue::spec_new(file, (start + i + 1) as u32))
}

/// A fixed-capacity (at most 4) ordered list of [`SSAValue`] components
/// representing a multi-lane operand. The component count is recovered in
/// O(1) from a sentinel stored in the unused trailing slot when the count
/// is below 4; that representation stays strictly behind the length and
/// indexing accessors.
#[derive(Clone, Copy, Eq, Hash, PartialEq)]
pub struct SSARef {
    pub(crate) v: [SSAValue; 4],
}

impl SSARef {
    /// Component count read from the sentinel slot.
    pub(crate) open(crate) spec fn spec_comps(self) -> int {
        if self.v[3].raw() == 0xFFFF_FFFF {
            1
        } else if self.v[3].raw() == 0xFFFF_FFFE {
            2
        } else if self.v[3].raw() == 0xFFFF_FFFD {
            3
        } else {
            4
        }
    }

    /// The representation that holds exactly the components `s`: unused
    /// middle slots are zeroed and, for fewer than 4 components, the
    /// trailing slot carries the count sentinel.
    pub open(crate) spec fn spec_new_ref(s: Seq<SSAValue>) -> SSARef {
        let z = SSAValue { packed: 0 };
        if s.len() <= 1 {
            SSARef { v: [s[0], z, z, SSAValue { packed: 0xFFFF_FFFF }] }
        } else if s.len() == 2 {
            SSARef { v: [s[0], s[1], z, SSAValue { packed: 0xFFFF_FFFE }] }
        } else if s.len() == 3 {
            SSARef { v: [s[0], s[1], s[2], SSAValue { packed: 0xFFFF_FFFD }] }
        } else {
            SSARef { v: [s[0], s[1], s[2], s[3]] }
        }
    }

    /// Builds a reference over 1 to 4 structurally valid components.
    fn new(comps: &[SSAValue]) -> (r: SSARef)
        requires
            1 <= comps@.len() <= 4,
            forall|i: int| 0 <= i < comps@.len() ==> comps@[i].wf(),
        ensures
            r == SSARef::spec_new_ref(comps@),
            r@ == comps@,
    {
        let n = comps.len();
        let z = SSAValue { packed: 0 };
        let r = if n == 1 {
            SSARef { v: [comps[0], z, z, SSAValue { packed: 0xFFFF_FFFF }] }
        } else if n == 2 {
            SSARef { v: [comps[0], comps[1], z, SSAValue { packed: 0xFFFF_FFFE }] }
        } else if n == 3 {
            SSARef { v: [comps[0], comps[1], comps[2], SSAValue { packed: 0xFFFF_FFFD }] }
        } else {
            SSARef { v: [comps[0], comps[1], comps[2], comps[3]] }
        };
        proof {
            if n == 4 {
                lemma_wf_below_sentinels(comps@[3]);
            }
            assert(r@ =~= comps@);
        }
        r
    }

    /// Number of components, recovered without scanning.
    pub fn comps(&self) -> (r: u8)
        ensures
            r as int == self@.len(),
            1 <= r <= 4,
    {
        let s = self.v[3].packed;
        if s == 0xFFFF_FFFF {
            1
        } else if s == 0xFFFF_FFFE {
            2
        } else if s == 0xFFFF_FFFD {
            3
        } else {
            4
        }
    }

    /// The component at position `i`; together with [`SSARef::comps`] this
    /// exposes the reference as a sequence of exactly `comps` elements.
    pub fn comp(&self, i: usize) -> (r: SSAValue)
        requires
            i < self@.len(),
        ensures
            r == self@[i as int],
    {
        self.v[i]
    }

    /// Builds a reference from a slice of structurally valid values,
    /// rejecting empty slices and slices of more than 4 components.
    pub fn try_from_slice(comps: &[SSAValue]) -> (r: Result<SSARef, &'static str>)
        requires
            forall|i: int| 0 <= i < comps@.len() ==> comps@[i].wf(),
        ensures
            match r {
                Ok(rf) => {
                    &&& 1 <= comps@.len() <= 4
                    &&& rf == SSARef::spec_new_ref(comps@)
                    &&& rf@ == comps@
                },
                Err(_) => comps@.len() == 0 || comps@.len() > 4,
            },
    {
        if comps.len() == 0 {
            Err("Empty vector")
        } else if comps.len() > 4 {
            Err("Too many vector components")
        } else {
            Ok(SSARef::new(comps))
        }
    }
}

impl View for SSARef {
    type V = Seq<SSAValue>;

    open(crate) spec fn view(&self) -> Seq<SSAValue> {
        Seq::new(self.spec_comps() as nat, |i: int| self.v[i])
    }
}

/// An operand: a wrapper around a value reference, with room for future
/// modifier and swizzle fields.
#[derive(Clone, Copy, Eq, PartialEq, Structural)]
pub struct Src {}

impl Src {
    /// Whether this operand is predicate-typed. Predicate and
    /// general-purpose register files use distinct allocation and
    /// legal-operation sets. No operand carries a value reference yet,
    /// so nothing is predicate-typed.
    pub open spec fn spec_is_predicate(self) -> bool {
        false
    }

    /// Executable counterpart of [`Src::spec_is_predicate`].
    pub fn is_predicate(&self) -> (r: bool)
        ensures
            r == self.spec_is_predicate(),
    {
        false
    }
}

impl From<u32> for Src {
    fn from(_value: u32) -> Src {
        Src {  }
    }
}

impl vstd::std_specs::convert::FromSpecImpl<u32> for Src {
    open spec fn obeys_from_spec() -> bool {
        true
    }

    open spec fn from_spec(_v: u32) -> Src {
        Src {  }
    }
}

/// What a source operand refers to.
#[derive(Clone, Copy, Eq, Hash, PartialEq, Structural)]
pub enum SrcRef {
    Zero,
    True,
    False,
}

impl SrcRef {
    /// Reference for an immediate; only the zero immediate has a
    /// representation so far.
    pub fn from_imm(u: u32) -> (r: SrcRef)
        requires
            u == 0,
        ensures
            r == SrcRef::Zero,
    {
        SrcRef::Zero
    }
}

/// A destination operand; `Null` discards the result.
#[derive(Clone, Copy)]
pub enum Dst {
    Null,
    SSA(SSARef),
}

impl Dst {
    /// Whether the result is discarded.
    pub fn is_none(&self) -> (r: bool)
        ensures
            r == (*self matches Dst::Null),
    {
        matches!(self, Dst::Null)
    }
}

impl From<SSARef> for Dst {
    fn from(ssa: SSARef) -> Dst {
        Dst::SSA(ssa)
    }
}

impl vstd::std_specs::convert::FromSpecImpl<SSARef> for Dst {
    open spec fn obeys_from_spec() -> bool {
        true
    }

    open spec fn from_spec(v: SSARef) -> Dst {
        Dst::SSA(v)
    }
}

/// Semantic type tags for source operands.
#[derive(Clone, Copy, Debug, Eq, Hash, PartialEq, Structural)]
pub enum SrcType {
    SSA,
    GPR,
    ALU,
    F16,
    F16v2,
    F32,
    F64,
    I32,
    B32,
    Pred,
    Carry,
    Bar,
}

/// Semantic type tags for destination operands.
#[derive(Clone, Copy, Debug, Eq, Hash, PartialEq, Structural)]
pub enum DstType {
    Pred,
    GPR,
    F16,
    F16v2,
    F32,
    F64,
    Carry,
    Bar,
    Vec,
}

/// Copies a source operand into a destination: the canonical
/// "materialize a value" operation.
#[derive(Clone, Copy)]
pub struct OpCopy {
    pub dst: Dst,
    pub src: Src,
}

/// Exposes an operation's source operands as a contiguous view, paired
/// with a type-tag list of the same length.
pub trait SrcsAsSlice {
    /// The source operands, in field order.
    spec fn spec_srcs(&self) -> Seq<Src>;

    /// The semantic type tag of each source operand.
    spec fn spec_src_types(&self) -> Seq<SrcType>;

    /// Executable view of the source operands.
    fn srcs_as_slice(&self) -> (r: Vec<Src>)
        ensures
            r@ == self.spec_srcs(),
    ;

    /// Executable view of the source type tags, one per source operand.
    fn src_types(&self) -> (r: Vec<SrcType>)
        ensures
            r@ == self.spec_src_types(),
            r@.len() == self.spec_srcs().len(),
    ;
}

/// Exposes an operation's destination operands as a contiguous view,
/// paired with a type-tag list of the same length.
pub trait DstsAsSlice {
    /// The destination operands, in field order.
    spec fn spec_dsts(&self) -> Seq<Dst>;

    /// The semantic type tag of each destination operand.
    spec fn spec_dst_types(&self) -> Seq<DstType>;

    /// Executable view of the destination operands.
    fn dsts_as_slice(&self) -> (r: Vec<Dst>)
        ensures
            r@ == self.spec_dsts(),
    ;

    /// Executable view of the destination type tags, one per destination.
    fn dst_types(&self) -> (r: Vec<DstType>)
        ensures
            r@ == self.spec_dst_types(),
            r@.len() == self.spec_dsts().len(),
    ;
}

impl SrcsAsSlice for OpCopy {
    open spec fn spec_srcs(&self) -> Seq<Src> {
        seq![self.src]
    }

    open spec fn spec_src_types(&self) -> Seq<SrcType> {
        seq![SrcType::GPR]
    }

    fn srcs_as_slice(&self) -> (r: Vec<Src>) {
        let mut r = Vec::new();
        r.push(self.src);
        proof {
            assert(r@ =~= self.spec_srcs());
        }
        r
    }

    fn src_types(&self) -> (r: Vec<SrcType>) {
        let mut r = Vec::new();
        r.push(SrcType::GPR);
        proof {
            assert(r@ =~= self.spec_src_types());
        }
        r
    }
}

impl DstsAsSlice for OpCopy {
    open spec fn spec_dsts(&self) -> Seq<Dst> {
        seq![self.dst]
    }

    open spec fn spec_dst_types(&self) -> Seq<DstType> {
        seq![DstType::Vec]
    }

    fn dsts_as_slice(&self) -> (r: Vec<Dst>) {
        let mut r = Vec::new();
        r.push(self.dst);
        proof {
            assert(r@ =~= self.spec_dsts());
        }
        r
    }

    fn dst_types(&self) -> (r: Vec<DstType>) {
        let mut r = Vec::new();
        r.push(DstType::Vec);
        proof {
            assert(r@ =~= self.spec_dst_types());
        }
        r
    }
}

/// The closed, per-target operation catalogue. Adding an operation kind
/// adds one variant here and one arm to each dispatch below, never the
/// generic infrastructure around it.
#[derive(Clone, Copy)]
pub enum Op {
    Copy(OpCopy),
}

impl SrcsAsSlice for Op {
    open spec fn spec_srcs(&self) -> Seq<Src> {
        match self {
            Op::Copy(c) => c.spec_srcs(),
        }
    }

    open spec fn spec_src_types(&self) -> Seq<SrcType> {
        match self {
            Op::Copy(c) => c.spec_src_types(),
        }
    }

    fn srcs_as_slice(&self) -> (r: Vec<Src>) {
        match self {
            Op::Copy(c) => c.srcs_as_slice(),
        }
    }

    fn src_types(&self) -> (r: Vec<SrcType>) {
        match self {
            Op::Copy(c) => c.src_types(),
        }
    }
}

impl DstsAsSlice for Op {
    open spec fn spec_dsts(&self) -> Seq<Dst> {
        match self {
            Op::Copy(c) => c.spec_dsts(),
        }
    }

    open spec fn spec_dst_types(&self) -> Seq<DstType> {
        match self {
            Op::Copy(c) => c.spec_dst_types(),
        }
    }

    fn dsts_as_slice(&self) -> (r: Vec<Dst>) {
        match self {
            Op::Copy(c) => c.dsts_as_slice(),
        }
    }

    fn dst_types(&self) -> (r: Vec<DstType>) {
        match self {
            Op::Copy(c) => c.dst_types(),
        }
    }
}

impl From<OpCopy> for Op {
    fn from(op: OpCopy) -> Op {
        Op::Copy(op)
    }
}

impl vstd::std_specs::convert::FromSpecImpl<OpCopy> for Op {
    open spec fn obeys_from_spec() -> bool {
        true
    }

    open spec fn from_spec(v: OpCopy) -> Op {
        Op::Copy(v)
    }
}

/// The IR's atomic computation unit: exactly one operation, with room for
/// a predicate guard and dependency metadata later.
#[derive(Clone, Copy)]
pub struct Instr {
    pub op: Op,
}

impl Instr {
    pub fn new(op: Op) -> (r: Instr)
        ensures
            r.op == op,
    {
        Instr { op }
    }

    pub fn new_boxed(op: Op) -> (r: Box<Instr>)
        ensures
            r.op == op,
    {
        Box::new(Instr::new(op))
    }
}

/// Index of the last destination in `dsts` that is not discarded, or `0`
/// when every destination is discarded or the list is empty. A printer
/// shows destinations `0 ..= ` this index (so at least one destination is
/// always shown for a non-empty list).
pub open spec fn spec_last_shown_dst(dsts: Seq<Dst>) -> int
    decreases dsts.len(),
{
    if dsts.len() == 0 {
        0
    } else if !(dsts.last() matches Dst::Null) {
        dsts.len() - 1
    } else if dsts.len() == 1 {
        0
    } else {
        spec_last_shown_dst(dsts.drop_last())
    }
}

/// Executable counterpart of [`spec_last_shown_dst`]: the compute half of
/// printing a destination list, kept apart from any output machinery.
pub fn last_shown_dst(dsts: &[Dst]) -> (r: usize)
    ensures
        r == spec_last_shown_dst(dsts@),
{
    let mut last_dst: usize = 0;
    let mut i: usize = 0;
    while i < dsts.len()
        invariant
            0 <= i <= dsts@.len(),
            last_dst == spec_last_shown_dst(dsts@.take(i as int)),
        decreases dsts@.len() - i,
    {
        if !dsts[i].is_none() {
            last_dst = i;
        }
        proof {
            assert(dsts@.take(i + 1).drop_last() =~= dsts@.take(i as int));
            assert(dsts@.take(i + 1).last() == dsts@[i as int]);
        }
        i = i + 1;
    }
    proof {
        assert(dsts@.take(dsts@.len() as int) =~= dsts@);
    }
    last_dst
}

/// An opaque block label, decoupled from source block identity so that
/// synthesized blocks never collide with source ones.
#[derive(Clone, Copy, Debug, Eq, PartialEq, Structural)]
pub struct Label {
    pub(crate) idx: u32,
}

impl Label {
    /// The label's opaque index.
    pub open(crate) spec fn idx_of(self) -> u32 {
        self.idx
    }

    /// The label with index `idx`.
    pub open(crate) spec fn spec_at(idx: u32) -> Label {
        Label { idx }
    }
}

/// Issues monotonically increasing opaque block labels.
pub struct LabelAllocator {
    pub(crate) count: u32,
}

impl LabelAllocator {
    /// Number of labels issued so far.
    pub open(crate) spec fn count_of(self) -> u32 {
        self.count
    }

    pub fn new() -> (r: LabelAllocator)
        ensures
            r.count_of() == 0,
    {
        LabelAllocator { count: 0 }
    }

    /// Issues the next label.
    pub fn alloc_label(&mut self) -> (r: Label)
        requires
            old(self).count_of() < u32::MAX,
        ensures
            final(self).count_of() == old(self).count_of() + 1,
            r == Label::spec_at(old(self).count_of()),
    {
        let idx = self.count;
        self.count += 1;
        Label { idx }
    }
}

/// Tracks, per merge point, which definition feeds which slot. Merge-point
/// lowering is not wired up yet; the allocator is threaded through the walk
/// so that shape is already in place.
pub struct PhiAllocator {
    pub(crate) count: u32,
}

impl PhiAllocator {
    /// Number of phi slots issued so far.
    pub open(crate) spec fn count_of(self) -> u32 {
        self.count
    }

    pub fn new() -> (r: PhiAllocator)
        ensures
            r.count_of() == 0,
    {
        PhiAllocator { count: 0 }
    }
}

/// Issues SSA value identities with monotonically increasing indices.
pub struct SSAValueAllocator {
    pub(crate) count: u32,
}

impl SSAValueAllocator {
    /// Number of values issued so far; also the index of the last value
    /// handed out.
    pub open(crate) spec fn count_of(self) -> u32 {
        self.count
    }

    pub fn new() -> (r: SSAValueAllocator)
        ensures
            r.count_of() == 0,
    {
        SSAValueAllocator { count: 0 }
    }

    /// Issues the next value for `file`. Exhaustion of the 29-bit index
    /// space is excluded by the precondition; callers check it and report
    /// it as an invariant violation.
    pub fn alloc_value(&mut self, file: RegFile) -> (r: SSAValue)
        requires
            old(self).count_of() < MAX_SSA_IDX,
        ensures
            final(self).count_of() == old(self).count_of() + 1,
            r == SSAValue::spec_new(file, (old(self).count_of() + 1) as u32),
            r.wf(),
            r.file_of() == file,
            r.idx_of() == old(self).count_of() + 1,
    {
        self.count += 1;
        SSAValue::new(file, self.count)
    }

    /// Allocates `comps` values (1 to 4) and packs them into one
    /// reference whose component count is recoverable without scanning.
    pub fn alloc_vec(&mut self, file: RegFile, comps: u8) -> (r: SSARef)
        requires
            1 <= comps <= 4,
            old(self).count_of() + comps <= MAX_SSA_IDX,
        ensures
            final(self).count_of() == old(self).count_of() + comps,
            r == SSARef::spec_new_ref(fresh_vals(file, old(self).count_of() as int, comps as int)),
            r@ == fresh_vals(file, old(self).count_of() as int, comps as int),
            r@.len() == comps,
    {
        let ghost start = self.count_of() as int;
        let mut vals: Vec<SSAValue> = Vec::new();
        let mut c: u8 = 0;
        while c < comps
            invariant
                0 <= c <= comps <= 4,
                self.count_of() == start + c,
                start + comps <= MAX_SSA_IDX,
                vals@ =~= fresh_vals(file, start, c as int),
            decreases comps - c,
        {
            let v = self.alloc_value(file);
            vals.push(v);
            proof {
                assert(vals@ =~= fresh_vals(file, start, c + 1));
            }
            c += 1;
        }
        proof {
            assert forall|i: int| 0 <= i < vals@.len() implies vals@[i].wf() by {
                lemma_pack_round_trip(file, (start + i + 1) as u32);
            }
        }
        let r = SSARef::try_from_slice(vals.as_slice());
        match r {
            Ok(rf) => rf,
            Err(_) => {
                proof {
                    assert(false);
                }
                SSARef::new(vals.as_slice())
            },
        }
    }
}

/// A maximal straight-line instruction sequence: an opaque label and an
/// ordered, owned instruction list, built once and never reordered here.
pub struct BasicBlock {
    pub label: Label,
    pub instrs: Vec<Instr>,
}

/// The mathematical image of one control-flow-graph node: the source block
/// identity it is keyed by, its label, and its instructions in order.
pub ghost struct BlockV {
    pub key: u32,
    pub label: Label,
    pub instrs: Seq<Instr>,
}

pub(crate) struct CfgEntry {
    pub(crate) key: u32,
    pub(crate) block: BasicBlock,
}

/// A control-flow graph of basic blocks keyed by source block identity.
/// Keys are unique and insertion order is kept; nothing at this layer
/// reorders blocks.
pub struct Cfg {
    pub(crate) nodes: Vec<CfgEntry>,
}

impl View for Cfg {
    type V = Seq<BlockV>;

    open(crate) spec fn view(&self) -> Seq<BlockV> {
        Seq::new(
            self.nodes@.len(),
            |i: int|
                BlockV {
                    key: self.nodes@[i].key,
                    label: self.nodes@[i].block.label,
                    instrs: self.nodes@[i].block.instrs@,
                },
        )
    }
}

impl Cfg {
    /// Whether a block with source identity `k` is already present.
    pub open spec fn has_key(self, k: u32) -> bool {
        exists|i: int| 0 <= i < self@.len() && self@[i].key == k
    }

    /// The graph's invariant: every source block identity keys at most
    /// one node.
    pub open spec fn wf(self) -> bool {
        forall|i: int, j: int| 0 <= i < j < self@.len() ==> self@[i].key != self@[j].key
    }

    pub fn new() -> (r: Cfg)
        ensures
            r@ == Seq::<BlockV>::empty(),
            r.wf(),
    {
        let r = Cfg { nodes: Vec::new() };
        proof {
            assert(r@ =~= Seq::<BlockV>::empty());
        }
        r
    }

    /// Number of blocks inserted so far.
    pub fn len(&self) -> (r: usize)
        ensures
            r == self@.len(),
    {
        self.nodes.len()
    }

    /// Whether a block with source identity `k` is already present.
    pub fn contains_key(&self, k: u32) -> (r: bool)
        ensures
            r == self.has_key(k),
    {
        let mut i: usize = 0;
        while i < self.nodes.len()
            invariant
                0 <= i <= self.nodes@.len(),
                self@.len() == self.nodes@.len(),
                forall|j: int| 0 <= j < i ==> self@[j].key != k,
                forall|j: int|
                    0 <= j < self.nodes@.len() ==> self@[j].key == self.nodes@[j].key,
            decreases self.nodes@.len() - i,
        {
            if self.nodes[i].key == k {
                proof {
                    assert(self@[i as int].key == k);
                }
                return true;
            }
            i += 1;
        }
        false
    }

    /// Appends the block `bb` under source identity `k`, preserving
    /// insertion order and key uniqueness.
    pub fn add_node(&mut self, k: u32, bb: BasicBlock)
        requires
            !old(self).has_key(k),
        ensures
            final(self)@ == old(self)@.push(BlockV { key: k, label: bb.label, instrs: bb.instrs@ }),
            old(self).wf() ==> final(self).wf(),
    {
        self.nodes.push(CfgEntry { key: k, block: bb });
        proof {
            assert(self@ =~= old(self)@.push(
                BlockV { key: k, label: bb.label, instrs: bb.instrs@ },
            ));
        }
    }

    /// The block at insertion position `i`.
    pub fn block_at(&self, i: usize) -> (r: &BasicBlock)
        requires
            i < self@.len(),
        ensures
            r.label == self@[i as int].label,
            r.instrs@ == self@[i as int].instrs,
    {
        &self.nodes[i].block
    }

    /// The source block identity at insertion position `i`.
    pub fn key_at(&self, i: usize) -> (r: u32)
        requires
            i < self@.len(),
        ensures
            r == self@[i as int].key,
    {
        self.nodes[i].key
    }
}

/// One lowered function: its SSA value allocator and its control-flow
/// graph of basic blocks keyed by source block identity.
pub struct Function {
    pub ssa_alloc: SSAValueAllocator,
    pub blocks: Cfg,
}

/// An ordered list of functions; the encoder currently accepts exactly
/// one.
pub struct Shader {
    pub functions: Vec<Function>,
}

} // verus!
