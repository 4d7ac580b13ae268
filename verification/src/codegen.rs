//! The code emitter shared by all generators: a growing byte buffer with the
//! positions of labels and the relocations still owed, plus the module-wide
//! offset map that places tables, data chunks, globals and transient VM data
//! below the linear-memory base.

use vstd::prelude::*;

use crate::error::PvfError;
use crate::ir::{
    branch_closed, calls_resolvable, func_entry_shaped, ops_wf, Ir, IrCp, IrDataChunk, IrFunc,
    IrLabel, IrSignature, IrTable,
};

verus! {

/// Displacement, within the transient VM data area, of the slot the indirect
/// call sequence parks the table selector in.
pub const VM_DATA_TMP_0: i32 = 0x0000;

/// Displacement of the current linear-memory allocation, in pages.
pub const VM_DATA_MEM_ALLOC: i32 = 0x0100;

/// Displacement of the maximum linear-memory allocation, in pages.
pub const VM_DATA_MEM_TOTAL: i32 = 0x0108;

/// A pending address patch, applied when the code is placed in memory:
/// the runtime base of the linear memory, the absolute address of a function
/// (the site initially holds its offset into the code), or the absolute
/// address of an arbitrary label.
#[derive(Debug, Clone)]
pub enum Relocation {
    MemoryAbsolute64,
    FunctionAbsoluteAddress,
    LabelAbsoluteAddress(IrLabel),
}

/// The byte buffer a generator writes machine code into, together with the
/// byte position of every label it has passed and the relocations recorded.
#[derive(Debug)]
pub struct CodeEmitter {
    pub code: Vec<u8>,
    pub labels: Vec<(IrLabel, usize)>,
    pub relocs: Vec<(Relocation, usize)>,
}

impl CodeEmitter {
    pub fn new() -> (r: Self)
        ensures
            r.code@.len() == 0,
            r.labels@.len() == 0,
            r.relocs@.len() == 0,
    {
        CodeEmitter { code: Vec::new(), labels: Vec::new(), relocs: Vec::new() }
    }

    pub fn emit(&mut self, b: u8)
        ensures
            final(self).code@ == old(self).code@.push(b),
            final(self).labels == old(self).labels,
            final(self).relocs == old(self).relocs,
    {
        self.code.push(b);
    }

    pub fn emit_imm32_le(&mut self, imm: i32)
        ensures
            final(self).code@ == old(self).code@ + vstd::bytes::spec_u32_to_le_bytes(imm as u32),
            final(self).labels == old(self).labels,
            final(self).relocs == old(self).relocs,
    {
        let bytes = vstd::bytes::u32_to_le_bytes(#[verifier::truncate] (imm as u32));
        proof {
            vstd::bytes::lemma_auto_spec_u32_to_from_le_bytes();
        }
        self.code.push(bytes[0]);
        self.code.push(bytes[1]);
        self.code.push(bytes[2]);
        self.code.push(bytes[3]);
        proof {
            assert(final(self).code@ =~= old(self).code@ + vstd::bytes::spec_u32_to_le_bytes(
                imm as u32,
            ));
        }
    }

    pub fn emit_imm64_le(&mut self, imm: i64)
        ensures
            final(self).code@ == old(self).code@ + vstd::bytes::spec_u64_to_le_bytes(imm as u64),
            final(self).labels == old(self).labels,
            final(self).relocs == old(self).relocs,
    {
        let bytes = vstd::bytes::u64_to_le_bytes(#[verifier::truncate] (imm as u64));
        proof {
            vstd::bytes::lemma_auto_spec_u64_to_from_le_bytes();
        }
        let mut i: usize = 0;
        while i < 8
            invariant
                bytes@ == vstd::bytes::spec_u64_to_le_bytes(imm as u64),
                bytes@.len() == 8,
                i <= 8,
                self.code@ == old(self).code@ + bytes@.subrange(0, i as int),
                self.labels == old(self).labels,
                self.relocs == old(self).relocs,
            decreases 8 - i,
        {
            self.code.push(bytes[i]);
            proof {
                assert(self.code@ =~= old(self).code@ + bytes@.subrange(0, i + 1 as int));
            }
            i = i + 1;
        }
        proof {
            assert(bytes@.subrange(0, 8) =~= bytes@);
        }
    }

    /// Overwrites the four bytes at `pos` with `imm`, little-endian.
    pub fn patch32_le(&mut self, pos: usize, imm: i32)
        requires
            pos + 4 <= old(self).code@.len(),
        ensures
            final(self).code@.len() == old(self).code@.len(),
            final(self).code@.subrange(pos as int, pos + 4) == vstd::bytes::spec_u32_to_le_bytes(
                imm as u32,
            ),
            forall|i: int|
                0 <= i < old(self).code@.len() && !(pos <= i < pos + 4) ==> final(self).code@[i]
                    == old(self).code@[i],
            final(self).labels == old(self).labels,
            final(self).relocs == old(self).relocs,
    {
        // binding the length here carries its machine bound into the proof
        let n = self.code.len();
        let bytes = vstd::bytes::u32_to_le_bytes(#[verifier::truncate] (imm as u32));
        proof {
            vstd::bytes::lemma_auto_spec_u32_to_from_le_bytes();
            assert(pos + 4 <= n);
        }
        self.code.set(pos, bytes[0]);
        self.code.set(pos + 1, bytes[1]);
        self.code.set(pos + 2, bytes[2]);
        self.code.set(pos + 3, bytes[3]);
        proof {
            assert(final(self).code@.subrange(pos as int, pos + 4)
                =~= vstd::bytes::spec_u32_to_le_bytes(imm as u32));
        }
    }

    /// Overwrites the eight bytes at `pos` with `imm`, little-endian.
    pub fn patch64_le(&mut self, pos: usize, imm: i64)
        requires
            pos + 8 <= old(self).code@.len(),
        ensures
            final(self).code@.len() == old(self).code@.len(),
            final(self).code@.subrange(pos as int, pos + 8) == vstd::bytes::spec_u64_to_le_bytes(
                imm as u64,
            ),
            forall|i: int|
                0 <= i < old(self).code@.len() && !(pos <= i < pos + 8) ==> final(self).code@[i]
                    == old(self).code@[i],
            final(self).labels == old(self).labels,
            final(self).relocs == old(self).relocs,
    {
        let n = self.code.len();
        let bytes = vstd::bytes::u64_to_le_bytes(#[verifier::truncate] (imm as u64));
        proof {
            vstd::bytes::lemma_auto_spec_u64_to_from_le_bytes();
        }
        let mut i: usize = 0;
        while i < 8
            invariant
                bytes@ == vstd::bytes::spec_u64_to_le_bytes(imm as u64),
                bytes@.len() == 8,
                i <= 8,
                pos + 8 <= n,
                pos + 8 <= self.code@.len(),
                self.code@.len() == old(self).code@.len(),
                forall|j: int|
                    0 <= j < self.code@.len() && !(pos <= j < pos + i) ==> self.code@[j] == old(
                        self,
                    ).code@[j],
                forall|j: int| 0 <= j < i ==> self.code@[pos + j] == bytes@[j],
                self.labels == old(self).labels,
                self.relocs == old(self).relocs,
            decreases 8 - i,
        {
            self.code.set(pos + i, bytes[i]);
            i = i + 1;
        }
        proof {
            assert(final(self).code@.subrange(pos as int, pos + 8)
                =~= vstd::bytes::spec_u64_to_le_bytes(imm as u64));
        }
    }

    /// Records that `label` names the current end of the code.
    pub fn label(&mut self, label: IrLabel)
        ensures
            final(self).labels@ == old(self).labels@.push((label, old(self).code@.len() as usize)),
            final(self).code == old(self).code,
            final(self).relocs == old(self).relocs,
    {
        let pc = self.code.len();
        self.labels.push((label, pc));
    }

    /// Records a pending relocation at the current end of the code.
    pub fn reloc(&mut self, reloc: Relocation)
        ensures
            final(self).relocs@ == old(self).relocs@.push((reloc, old(self).code@.len() as usize)),
            final(self).code == old(self).code,
            final(self).labels == old(self).labels,
    {
        let pc = self.code.len();
        self.relocs.push((reloc, pc));
    }

    pub fn pc(&self) -> (r: usize)
        ensures
            r == self.code@.len(),
    {
        self.code.len()
    }

    /// The recorded labels with their byte positions, in recording order.
    pub fn labels_iter(&self) -> (r: &Vec<(IrLabel, usize)>)
        ensures
            r@ == self.labels@,
    {
        &self.labels
    }
}

/// Where each table, data chunk, the globals and the transient VM data live,
/// as negative byte displacements from the linear-memory base. Each table and
/// chunk is rounded up to whole 64 KiB pages.
#[derive(Debug)]
pub struct OffsetMap {
    pub top: i32,
    pub globals: i32,
    pub vm_data: i32,
    pub tables: Vec<i32>,
    pub data_chunks: Vec<i32>,
}

impl OffsetMap {
    pub open spec fn wf(&self) -> bool {
        &&& self.globals == -0x20000
        &&& self.vm_data == -0x10000
        &&& self.top <= self.globals
        &&& self.top % 0x10000 == 0
    }

    pub fn new() -> (r: Self)
        ensures
            r.wf(),
            r.top == -0x20000,
            r.tables@.len() == 0,
            r.data_chunks@.len() == 0,
    {
        OffsetMap {
            top: -0x20000,
            globals: -0x20000,
            vm_data: -0x10000,
            tables: Vec::new(),
            data_chunks: Vec::new(),
        }
    }

    /// Reserves `num_pages` pages below everything placed so far and records
    /// the displacement as the next table's.
    pub fn add_table(&mut self, num_pages: u32)
        requires
            old(self).wf(),
            old(self).top - num_pages * 0x10000 >= i32::MIN,
        ensures
            final(self).wf(),
            final(self).top == old(self).top - num_pages * 0x10000,
            final(self).tables@ == old(self).tables@.push(final(self).top),
            final(self).data_chunks == old(self).data_chunks,
    {
        self.top = self.top - (num_pages as i32) * 0x10000;
        let t = self.top;
        self.tables.push(t);
    }

    /// Reserves `num_pages` pages and records the displacement as the next
    /// data chunk's.
    pub fn add_data_chunk(&mut self, num_pages: u32)
        requires
            old(self).wf(),
            old(self).top - num_pages * 0x10000 >= i32::MIN,
        ensures
            final(self).wf(),
            final(self).top == old(self).top - num_pages * 0x10000,
            final(self).data_chunks@ == old(self).data_chunks@.push(final(self).top),
            final(self).tables == old(self).tables,
    {
        self.top = self.top - (num_pages as i32) * 0x10000;
        let t = self.top;
        self.data_chunks.push(t);
    }

    /// How many pages of tables and data chunks lie between the globals area
    /// and the lowest reserved displacement.
    pub fn get_tables_pages(&self) -> (r: u32)
        requires
            self.wf(),
        ensures
            r == (self.globals - self.top) / 0x10000,
    {
        ((self.globals as i64 - self.top as i64) / 0x10000) as u32
    }

    pub fn globals(&self) -> (r: i32)
        ensures
            r == self.globals,
    {
        self.globals
    }

    pub fn vm_data(&self) -> (r: i32)
        ensures
            r == self.vm_data,
    {
        self.vm_data
    }

    pub fn table(&self, index: u32) -> (r: i32)
        requires
            index < self.tables@.len(),
        ensures
            r == self.tables@[index as int],
    {
        self.tables[index as usize]
    }

    pub fn data_chunk(&self, index: u32) -> (r: i32)
        requires
            index < self.data_chunks@.len(),
        ensures
            r == self.data_chunks@[index as int],
    {
        self.data_chunks[index as usize]
    }
}

/// A call site or absolute-address site awaiting the offset of the function
/// it names.
#[derive(Debug, Clone, Copy, PartialEq, Eq, Structural)]
pub struct LinkTarget {
    pub offset: usize,
    pub func_index: u32,
}

/// A label naming the same code location is on record.
pub open spec fn label_registered(labels: Seq<(IrLabel, usize)>, l: IrLabel) -> bool {
    exists|j: int| 0 <= j < labels.len() && (#[trigger] labels[j]).0.same_target(&l)
}

/// Every recorded label position lies inside the code.
pub open spec fn labels_in_code(labels: Seq<(IrLabel, usize)>, code_len: int) -> bool {
    forall|j: int| 0 <= j < labels.len() ==> (#[trigger] labels[j]).1 <= code_len
}

/// Some entry label for function `fi` is on record.
pub open spec fn entry_registered(labels: Seq<(IrLabel, usize)>, fi: u32) -> bool {
    exists|j: int| 0 <= j < labels.len() && (#[trigger] labels[j]).0.func_index_spec() == Some(fi)
}

/// An `ExportedFunc` label with exactly this index and name is on record.
pub open spec fn export_registered(labels: Seq<(IrLabel, usize)>, fi: u32, name: Seq<char>) -> bool {
    exists|j: int|
        0 <= j < labels.len() && match (#[trigger] labels[j]).0 {
            IrLabel::ExportedFunc(i, n) => i == fi && n@ == name,
            _ => false,
        }
}

/// Export registration survives any growth that keeps the prefix.
pub proof fn lemma_export_prefix(
    pre: Seq<(IrLabel, usize)>,
    now: Seq<(IrLabel, usize)>,
    fi: u32,
    name: Seq<char>,
)
    requires
        export_registered(pre, fi, name),
        now.len() >= pre.len(),
        now.subrange(0, pre.len() as int) == pre,
    ensures
        export_registered(now, fi, name),
{
    let j = choose|j: int|
        0 <= j < pre.len() && match (#[trigger] pre[j]).0 {
            IrLabel::ExportedFunc(i, n) => i == fi && n@ == name,
            _ => false,
        };
    assert(now.subrange(0, pre.len() as int)[j] == pre[j]);
    assert(now[j] == pre[j]);
}

/// Registration is stable under growing the registry.
pub broadcast proof fn lemma_label_registered_push(
    labels: Seq<(IrLabel, usize)>,
    x: (IrLabel, usize),
    l: IrLabel,
)
    requires
        label_registered(labels, l),
    ensures
        #[trigger] label_registered(labels.push(x), l),
{
    let j = choose|j: int| 0 <= j < labels.len() && (#[trigger] labels[j]).0.same_target(&l);
    assert(labels.push(x)[j].0.same_target(&l));
}

/// Entry registration is stable under growing the registry.
pub broadcast proof fn lemma_entry_registered_push(
    labels: Seq<(IrLabel, usize)>,
    x: (IrLabel, usize),
    fi: u32,
)
    requires
        entry_registered(labels, fi),
    ensures
        #[trigger] entry_registered(labels.push(x), fi),
{
    let j = choose|j: int|
        0 <= j < labels.len() && (#[trigger] labels[j]).0.func_index_spec() == Some(fi);
    assert(labels.push(x)[j].0.func_index_spec() == Some(fi));
}

/// A recorded link target is sound: it names a defined function, whose
/// entry label the generator therefore registers.
pub open spec fn link_targets_ok(targets: Seq<LinkTarget>, funcs: Seq<Option<IrFunc>>) -> bool {
    forall|j: int|
        0 <= j < targets.len() ==> {
            &&& (#[trigger] targets[j]).func_index < funcs.len()
            &&& funcs[targets[j].func_index as int] matches Some(IrFunc::Function(_))
        }
}

/// Every label-address relocation names a label on record.
pub open spec fn relocs_ok(relocs: Seq<(Relocation, usize)>, labels: Seq<(IrLabel, usize)>) -> bool {
    forall|j: int|
        0 <= j < relocs.len() ==> match (#[trigger] relocs[j]).0 {
            Relocation::LabelAbsoluteAddress(l) => label_registered(labels, l),
            _ => true,
        }
}

/// Every byte the buffer already held is still there: writes only append.
pub open spec fn bytes_preserved(pre: Seq<u8>, post: Seq<u8>) -> bool {
    &&& post.len() >= pre.len()
    &&& forall|i: int| 0 <= i < pre.len() ==> #[trigger] post[i] == pre[i]
}

/// No byte position of `i` falls inside any recorded patch window.
pub open spec fn outside_patch_windows(
    i: int,
    calls: Seq<LinkTarget>,
    abss: Seq<LinkTarget>,
) -> bool {
    &&& forall|k: int|
        0 <= k < calls.len() ==> !((#[trigger] calls[k]).offset <= i < calls[k].offset + 4)
    &&& forall|k: int|
        0 <= k < abss.len() ==> !((#[trigger] abss[k]).offset <= i < abss[k].offset + 8)
}

/// Two half-open byte windows do not meet.
pub open spec fn windows_disjoint(a: int, aw: int, b: int, bw: int) -> bool {
    a + aw <= b || b + bw <= a
}

/// Every recorded patch window is disjoint from every other: no later patch
/// can disturb an earlier one.
pub open spec fn sites_disjoint(calls: Seq<LinkTarget>, abss: Seq<LinkTarget>) -> bool {
    &&& forall|j: int, k: int|
        0 <= j < k < calls.len() ==> windows_disjoint(
            (#[trigger] calls[j]).offset as int,
            4,
            (#[trigger] calls[k]).offset as int,
            4,
        )
    &&& forall|j: int, k: int|
        0 <= j < k < abss.len() ==> windows_disjoint(
            (#[trigger] abss[j]).offset as int,
            8,
            (#[trigger] abss[k]).offset as int,
            8,
        )
    &&& forall|j: int, k: int|
        0 <= j < calls.len() && 0 <= k < abss.len() ==> windows_disjoint(
            (#[trigger] calls[j]).offset as int,
            4,
            (#[trigger] abss[k]).offset as int,
            8,
        )
}

/// Call site `k` is disturbed by no later patch: every later call window and
/// every absolute window miss it. The generator records each site just
/// before emitting its placeholder bytes, so in its output this holds of
/// every site.
pub open spec fn call_site_undisturbed(k: int, calls: Seq<LinkTarget>, abss: Seq<LinkTarget>) -> bool {
    &&& forall|k2: int|
        k < k2 < calls.len() ==> windows_disjoint(
            calls[k].offset as int,
            4,
            (#[trigger] calls[k2]).offset as int,
            4,
        )
    &&& forall|k2: int|
        0 <= k2 < abss.len() ==> windows_disjoint(
            calls[k].offset as int,
            4,
            (#[trigger] abss[k2]).offset as int,
            8,
        )
}

/// Absolute site `k` is disturbed by no later absolute patch.
pub open spec fn abs_site_undisturbed(k: int, abss: Seq<LinkTarget>) -> bool {
    forall|k2: int|
        k < k2 < abss.len() ==> windows_disjoint(
            abss[k].offset as int,
            8,
            (#[trigger] abss[k2]).offset as int,
            8,
        )
}

/// The four bytes at call site `t` hold the little-endian displacement from
/// the end of the site to some registered entry of the named function.
pub open spec fn call_site_patched(
    code: Seq<u8>,
    labels: Seq<(IrLabel, usize)>,
    t: LinkTarget,
) -> bool {
    exists|q: int|
        0 <= q < labels.len() && (#[trigger] labels[q]).0.func_index_spec() == Some(t.func_index)
            && code.subrange(t.offset as int, t.offset + 4) == vstd::bytes::spec_u32_to_le_bytes(
            (((labels[q].1 - (t.offset + 4)) as i32) as u32),
        )
}

/// The eight bytes at absolute site `t` hold, little-endian, the code offset
/// of some registered entry of the named function (made a real address only
/// at instantiation).
pub open spec fn abs_site_patched(
    code: Seq<u8>,
    labels: Seq<(IrLabel, usize)>,
    t: LinkTarget,
) -> bool {
    exists|q: int|
        0 <= q < labels.len() && (#[trigger] labels[q]).0.func_index_spec() == Some(t.func_index)
            && code.subrange(t.offset as int, t.offset + 8) == vstd::bytes::spec_u64_to_le_bytes(
            labels[q].1 as u64,
        )
}

/// A window untouched by a patch keeps its bytes.
pub proof fn lemma_window_preserved(
    pre: Seq<u8>,
    post: Seq<u8>,
    a: int,
    aw: int,
    pa: int,
    pw: int,
)
    requires
        pre.len() == post.len(),
        0 <= a,
        0 <= aw,
        a + aw <= pre.len(),
        windows_disjoint(a, aw, pa, pw),
        forall|i: int| 0 <= i < pre.len() && !(pa <= i < pa + pw) ==> post[i] == pre[i],
    ensures
        post.subrange(a, a + aw) == pre.subrange(a, a + aw),
{
    assert forall|i: int| a <= i < a + aw implies post[i] == pre[i] by {
        assert(!(pa <= i < pa + pw));
    }
    assert(post.subrange(a, a + aw) =~= pre.subrange(a, a + aw));
}

/// How many whole 64 KiB pages a table takes: eight bytes per element,
/// rounded up, one page at least.
pub open spec fn table_pages(t: IrTable) -> int {
    match t {
        IrTable::Table(m) => crate::prepared_pvf::chunk_pages(m as int * 8),
        IrTable::Import(_) => 1,
    }
}

/// A machine-code generator: it places each function body's bytes, records
/// labels and relocations in the emitter, and finally patches every direct
/// call site.
pub trait CodeGenerator: Sized {
    /// The call sites recorded so far, awaiting 4-byte relative patches.
    spec fn call_sites(&self) -> Seq<LinkTarget>;

    /// The absolute-address sites recorded so far, awaiting 8-byte patches.
    spec fn abs_sites(&self) -> Seq<LinkTarget>;

    /// Places the segment map: one page-aligned region per table, then one
    /// per data chunk, below the globals area.
    fn build_offset_map(&self, ir_tables: &Vec<IrTable>, ir_chunks: &Vec<IrDataChunk>) -> (r:
        OffsetMap)
        requires
            ir_tables@.len() < 0x100,
            ir_chunks@.len() < 0x100,
            forall|i: int|
                0 <= i < ir_tables@.len() ==> match #[trigger] ir_tables@[i] {
                    IrTable::Table(m) => m <= 0xFFFF,
                    IrTable::Import(_) => false,
                },
            forall|i: int|
                0 <= i < ir_chunks@.len() ==> (#[trigger] ir_chunks@[i]).data@.len() <= 0x400000,
        ensures
            r.wf(),
            r.tables@.len() == ir_tables@.len(),
            r.data_chunks@.len() == ir_chunks@.len(),
            r.top >= -0x50000000,
            forall|i: int|
                0 <= i < r.tables@.len() ==> (#[trigger] r.tables@[i]) as int == (if i == 0 {
                    -0x20000
                } else {
                    r.tables@[i - 1] as int
                }) - 0x10000 * table_pages(ir_tables@[i]),
            forall|i: int|
                0 <= i < r.data_chunks@.len() ==> (#[trigger] r.data_chunks@[i]) as int == (
                if i == 0 {
                    if ir_tables@.len() == 0 {
                        -0x20000
                    } else {
                        r.tables@[ir_tables@.len() - 1] as int
                    }
                } else {
                    r.data_chunks@[i - 1] as int
                }) - 0x10000 * crate::prepared_pvf::chunk_pages(ir_chunks@[i].data@.len() as int),
    ;

    /// Lowers one function body to machine bytes, appended to the emitter.
    fn compile_func(
        &mut self,
        code: &mut CodeEmitter,
        index: u32,
        body: &Ir,
        signatures: &Vec<Option<IrSignature>>,
        import_addrs: &Vec<u64>,
        offset_map: &OffsetMap,
        funcs: Ghost<Seq<Option<IrFunc>>>,
    ) -> (r: Result<(), PvfError>)
        requires
            offset_map.wf(),
            offset_map.top >= -0x50000000,
            ops_wf(
                body@,
                signatures@,
                offset_map.tables@.len() as int,
                offset_map.data_chunks@.len() as int,
            ),
            branch_closed(body@),
            calls_resolvable(body@, funcs@),
            func_entry_shaped(body@, index),
            import_addrs@.len() == funcs@.len(),
            signatures@.len() == funcs@.len(),
            forall|i: int|
                0 <= i < signatures@.len() ==> match #[trigger] signatures@[i] {
                    Some(sig) => sig.params < 16 && sig.results <= 1,
                    None => true,
                },
            link_targets_ok(old(self).call_sites(), funcs@),
            link_targets_ok(old(self).abs_sites(), funcs@),
            sites_disjoint(old(self).call_sites(), old(self).abs_sites()),
            forall|j: int|
                0 <= j < old(self).call_sites().len() ==> (
                #[trigger] old(self).call_sites()[j]).offset + 4 <= old(code).code@.len(),
            forall|j: int|
                0 <= j < old(self).abs_sites().len() ==> (
                #[trigger] old(self).abs_sites()[j]).offset + 8 <= old(code).code@.len(),
            relocs_ok(old(code).relocs@, old(code).labels@),
            labels_in_code(old(code).labels@, old(code).code@.len() as int),
        ensures
            match r {
                Ok(_) => {
                    &&& final(code).code@.len() >= old(code).code@.len()
                    &&& final(code).code@.len() <= 0x40000000
                    &&& bytes_preserved(old(code).code@, final(code).code@)
                    &&& final(code).relocs@.len() >= old(code).relocs@.len()
                    &&& final(code).relocs@.subrange(0, old(code).relocs@.len() as int) == old(
                        code,
                    ).relocs@
                    &&& final(code).labels@.len() >= old(code).labels@.len()
                    &&& final(code).labels@.subrange(0, old(code).labels@.len() as int) == old(
                        code,
                    ).labels@
                    &&& entry_registered(final(code).labels@, index)
                    &&& (match body@[0] {
                        IrCp::Label(IrLabel::ExportedFunc(fi, n)) => export_registered(
                            final(code).labels@,
                            fi,
                            n@,
                        ),
                        _ => true,
                    })
                    &&& link_targets_ok(final(self).call_sites(), funcs@)
                    &&& link_targets_ok(final(self).abs_sites(), funcs@)
                    &&& final(self).call_sites().len() >= old(self).call_sites().len()
                    &&& forall|j: int|
                        0 <= j < old(self).call_sites().len() ==> #[trigger] final(self).call_sites()[j]
                            == old(self).call_sites()[j]
                    &&& final(self).abs_sites().len() >= old(self).abs_sites().len()
                    &&& forall|j: int|
                        0 <= j < old(self).abs_sites().len() ==> #[trigger] final(self).abs_sites()[j]
                            == old(self).abs_sites()[j]
                    &&& forall|j: int|
                        0 <= j < final(self).call_sites().len() ==> (
                        #[trigger] final(self).call_sites()[j]).offset + 4 <= final(code).code@.len()
                    &&& forall|j: int|
                        0 <= j < final(self).abs_sites().len() ==> (
                        #[trigger] final(self).abs_sites()[j]).offset + 8 <= final(code).code@.len()
                    &&& sites_disjoint(final(self).call_sites(), final(self).abs_sites())
                    &&& forall|j: int|
                        old(self).call_sites().len() <= j < final(self).call_sites().len()
                            ==> old(code).code@.len() <= (
                        #[trigger] final(self).call_sites()[j]).offset as int
                    &&& forall|j: int|
                        old(self).abs_sites().len() <= j < final(self).abs_sites().len()
                            ==> old(code).code@.len() <= (
                        #[trigger] final(self).abs_sites()[j]).offset as int
                    &&& relocs_ok(final(code).relocs@, final(code).labels@)
                    &&& labels_in_code(final(code).labels@, final(code).code@.len() as int)
                },
                Err(e) => e is ValidationError,
            },
    ;

    /// Rewrites every recorded call site with the displacement to, and every
    /// absolute site with the code offset of, the function it names;
    /// unresolvable sites cannot exist by this point. Bytes outside the
    /// patch windows are untouched; the windows are pairwise disjoint, so
    /// every site ends holding exactly its function's position.
    fn link(&mut self, code: &mut CodeEmitter)
        requires
            old(code).code@.len() <= 0x40000000,
            sites_disjoint(old(self).call_sites(), old(self).abs_sites()),
            labels_in_code(old(code).labels@, old(code).code@.len() as int),
            forall|j: int|
                0 <= j < old(self).call_sites().len() ==> {
                    &&& entry_registered(
                        old(code).labels@,
                        (#[trigger] old(self).call_sites()[j]).func_index,
                    )
                    &&& old(self).call_sites()[j].offset + 4 <= old(code).code@.len()
                },
            forall|j: int|
                0 <= j < old(self).abs_sites().len() ==> {
                    &&& entry_registered(
                        old(code).labels@,
                        (#[trigger] old(self).abs_sites()[j]).func_index,
                    )
                    &&& old(self).abs_sites()[j].offset + 8 <= old(code).code@.len()
                },
        ensures
            final(code).code@.len() == old(code).code@.len(),
            final(code).labels == old(code).labels,
            final(code).relocs == old(code).relocs,
            forall|i: int|
                0 <= i < old(code).code@.len() && outside_patch_windows(
                    i,
                    old(self).call_sites(),
                    old(self).abs_sites(),
                ) ==> final(code).code@[i] == old(code).code@[i],
            forall|k: int|
                0 <= k < old(self).call_sites().len() ==> call_site_patched(
                    final(code).code@,
                    final(code).labels@,
                    #[trigger] old(self).call_sites()[k],
                ),
            forall|k: int|
                0 <= k < old(self).abs_sites().len() ==> abs_site_patched(
                    final(code).code@,
                    final(code).labels@,
                    #[trigger] old(self).abs_sites()[k],
                ),
    ;
}

} // verus!
