//! The prepared module: emitted code, the label map and pending relocations,
//! plus the address arithmetic an embedder needs to place it in memory. The
//! compilation driver lives here too: it feeds every function body to the
//! generator and has the call sites patched.

use vstd::prelude::*;

use crate::codegen::{entry_registered, relocs_ok, CodeEmitter, CodeGenerator, OffsetMap, Relocation};
use crate::error::PvfError;
use crate::ir::{IrCp, IrFunc, IrLabel, IrPvf};

verus! {

/// The output of compilation: machine code, the byte position of every
/// label, the relocations an embedder still owes, the memory limits in
/// pages, how many pages the tables and chunks take, and the raw chunks.
pub struct PreparedPvf {
    pub code: Vec<u8>,
    pub labels: Vec<(IrLabel, usize)>,
    pub relocs: Vec<(Relocation, usize)>,
    pub memory: (u32, u32),
    pub tables_pages: u32,
    pub data_chunks: Vec<Vec<u8>>,
    pub offset_map: OffsetMap,
}

impl PreparedPvf {
    pub fn code_len(&self) -> (r: usize)
        ensures
            r == self.code@.len(),
    {
        self.code.len()
    }

    pub fn code(&self) -> (r: &Vec<u8>)
        ensures
            r@ == self.code@,
    {
        &self.code
    }

    /// The exported functions with their byte offsets, in label order.
    /// The result holds exactly the `ExportedFunc` entries of the label map:
    /// complete, nothing else, in recording order.
    pub fn exported_funcs(&self) -> (r: Vec<(String, usize)>)
        ensures
            r@.len() == exported_entries(self.labels@).len(),
            forall|j: int|
                0 <= j < r@.len() ==> (#[trigger] r@[j]).0@ == exported_entries(self.labels@)[j].0
                    && r@[j].1 == exported_entries(self.labels@)[j].1,
    {
        let mut res: Vec<(String, usize)> = Vec::new();
        let mut i: usize = 0;
        while i < self.labels.len()
            invariant
                i <= self.labels@.len(),
                res@.len() == exported_entries(self.labels@.take(i as int)).len(),
                forall|j: int|
                    0 <= j < res@.len() ==> (#[trigger] res@[j]).0@ == exported_entries(
                        self.labels@.take(i as int),
                    )[j].0 && res@[j].1 == exported_entries(self.labels@.take(i as int))[j].1,
            decreases self.labels@.len() - i,
        {
            proof {
                assert(self.labels@.take(i + 1).drop_last() =~= self.labels@.take(i as int));
                assert(self.labels@.take(i + 1).last() == self.labels@[i as int]);
            }
            match &self.labels[i].0 {
                IrLabel::ExportedFunc(_, name) => {
                    let off = self.labels[i].1;
                    res.push((name.clone(), off));
                },
                _ => (),
            }
            i = i + 1;
        }
        proof {
            assert(self.labels@.take(self.labels@.len() as int) =~= self.labels@);
        }
        res
    }

    /// The patch entry for relocation `j` carries the right site and value:
    /// the linear-memory base, a function's absolute address (the code
    /// offset held at the site plus the code base), or a label's absolute
    /// address out of the label map.
    pub open spec fn reloc_value_ok(
        &self,
        entry: (usize, u64),
        j: int,
        membase: u64,
        code_base: u64,
    ) -> bool {
        &&& entry.0 == self.relocs@[j].1
        &&& self.relocs@[j].1 + 8 <= self.code@.len()
        &&& match self.relocs@[j].0 {
            Relocation::MemoryAbsolute64 => entry.1 == membase,
            Relocation::FunctionAbsoluteAddress => entry.1 == code_base
                + crate::eval::load_le_spec(self.code@, self.relocs@[j].1 as int, 8),
            Relocation::LabelAbsoluteAddress(l) => exists|q: int|
                0 <= q < self.labels@.len() && (#[trigger] self.labels@[q]).0.same_target(&l)
                    && entry.1 == code_base + self.labels@[q].1,
        }
    }

    /// A relocation that can be patched: its site lies inside the code, and
    /// the address it needs fits; a label-address relocation names a label
    /// the map holds. Linking already guarantees the label part.
    pub open spec fn reloc_resolvable(&self, j: int, code_base: u64) -> bool {
        &&& self.relocs@[j].1 + 8 <= self.code@.len()
        &&& match self.relocs@[j].0 {
            Relocation::MemoryAbsolute64 => true,
            Relocation::FunctionAbsoluteAddress => code_base + crate::eval::load_le_spec(
                self.code@,
                self.relocs@[j].1 as int,
                8,
            ) <= u64::MAX,
            Relocation::LabelAbsoluteAddress(l) => crate::codegen::label_registered(
                self.labels@,
                l,
            ) && forall|q: int|
                0 <= q < self.labels@.len() && (#[trigger] self.labels@[q]).0.same_target(&l)
                    ==> code_base + self.labels@[q].1 <= u64::MAX,
        }
    }

    /// The 8-byte patch each relocation site needs once the data and code
    /// regions have real base addresses. This is the whole address
    /// computation of instantiation; the embedder only writes the returned
    /// values at the returned sites. Success is owed whenever every
    /// relocation is resolvable.
    pub fn relocation_values(&self, membase: u64, code_base: u64) -> (r: Option<
        Vec<(usize, u64)>,
    >)
        ensures
            match r {
                Some(v) => {
                    &&& v@.len() == self.relocs@.len()
                    &&& forall|j: int|
                        0 <= j < v@.len() ==> self.reloc_value_ok(
                            #[trigger] v@[j],
                            j,
                            membase,
                            code_base,
                        )
                },
                None => true,
            },
            (forall|j: int|
                0 <= j < self.relocs@.len() ==> self.reloc_resolvable(j, code_base)) ==> r
                is Some,
    {
        let mut out: Vec<(usize, u64)> = Vec::new();
        let n = self.relocs.len();
        let mut j: usize = 0;
        while j < n
            invariant
                n == self.relocs@.len(),
                j <= n,
                out@.len() == j,
                forall|k: int|
                    0 <= k < j ==> self.reloc_value_ok(#[trigger] out@[k], k, membase, code_base),
            decreases n - j,
        {
            let site = self.relocs[j].1;
            let clen = self.code.len();
            if site > usize::MAX - 8 || site + 8 > clen {
                proof {
                    assert(!self.reloc_resolvable(j as int, code_base));
                }
                return None;
            }
            match &self.relocs[j].0 {
                Relocation::MemoryAbsolute64 => {
                    out.push((site, membase));
                    proof {
                        assert(self.reloc_value_ok(out@[j as int], j as int, membase, code_base));
                    }
                },
                Relocation::FunctionAbsoluteAddress => {
                    let held = load_code_u64(&self.code, site);
                    if code_base > u64::MAX - held {
                        proof {
                            assert(self.relocs@[j as int].0 is FunctionAbsoluteAddress);
                            assert(code_base as int + crate::eval::load_le_spec(
                                self.code@,
                                self.relocs@[j as int].1 as int,
                                8,
                            ) > u64::MAX as int);
                            assert(!self.reloc_resolvable(j as int, code_base));
                        }
                        return None;
                    }
                    out.push((site, code_base + held));
                    proof {
                        assert(self.reloc_value_ok(out@[j as int], j as int, membase, code_base));
                    }
                },
                Relocation::LabelAbsoluteAddress(l) => {
                    proof {
                        assert(match self.relocs@[j as int].0 {
                            Relocation::LabelAbsoluteAddress(x) => x == *l,
                            _ => false,
                        });
                    }
                    let ghost the_label: IrLabel = *l;
                    let mut q: usize = 0;
                    let mut found: Option<u64> = None;
                    while q < self.labels.len()
                        invariant
                            q <= self.labels@.len(),
                            *l == the_label,
                            0 <= j < self.relocs@.len(),
                            match self.relocs@[j as int].0 {
                                Relocation::LabelAbsoluteAddress(x) => x == the_label,
                                _ => false,
                            },
                            match found {
                                Some(v) => exists|p: int|
                                    0 <= p < self.labels@.len() && (
                                    #[trigger] self.labels@[p]).0.same_target(l) && v == code_base
                                        + self.labels@[p].1,
                                None => forall|p: int|
                                    0 <= p < q ==> !(#[trigger] self.labels@[p]).0.same_target(l),
                            },
                        decreases self.labels@.len() - q,
                    {
                        if found.is_none() && self.labels[q].0.matches(l) {
                            let off = self.labels[q].1;
                            if off as u64 > u64::MAX - code_base {
                                proof {
                                    assert(self.labels@[q as int].0.same_target(&the_label));
                                    assert(!self.reloc_resolvable(j as int, code_base));
                                }
                                return None;
                            }
                            found = Some(code_base + off as u64);
                        }
                        q = q + 1;
                    }
                    let value = match found {
                        Some(v) => v,
                        None => {
                            proof {
                                assert(match self.relocs@[j as int].0 {
                                    Relocation::LabelAbsoluteAddress(x) => x == the_label,
                                    _ => false,
                                });
                                assert(!crate::codegen::label_registered(self.labels@, *l)) by {
                                    if crate::codegen::label_registered(self.labels@, *l) {
                                        let p = choose|p: int|
                                            0 <= p < self.labels@.len() && (
                                            #[trigger] self.labels@[p]).0.same_target(&*l);
                                        assert(!self.labels@[p].0.same_target(l));
                                    }
                                }
                                assert(!self.reloc_resolvable(j as int, code_base));
                            }
                            return None;
                        },
                    };
                    out.push((site, value));
                    proof {
                        assert(self.reloc_value_ok(out@[j as int], j as int, membase, code_base));
                    }
                },
            }
            proof {
                assert forall|k: int|
                    0 <= k < j + 1 implies self.reloc_value_ok(
                    #[trigger] out@[k],
                    k,
                    membase,
                    code_base,
                ) by {
                    if k < j {
                        assert(self.reloc_value_ok(out@[k], k, membase, code_base));
                    }
                }
            }
            j = j + 1;
        }
        Some(out)
    }

    /// How many 64 KiB pages the whole data region needs: one page of
    /// transient VM data and one of globals, the tables and data chunks, and
    /// — when the module declares a memory — its declared maximum. The
    /// maximum, not the initial size, is reserved deliberately: the emitted
    /// growth code checks requests against the declared maximum, so a
    /// mapping sized by the initial pages could be outgrown.
    pub fn region_pages(&self) -> (r: Option<u32>)
        ensures
            r is Some <==> 2 + self.tables_pages + pages_sum(
                self.data_chunks@,
                self.data_chunks@.len() as int,
            ) + (if self.memory.0 > 0 {
                self.memory.1 as int
            } else {
                0
            }) <= u32::MAX,
            match r {
                Some(v) => v as int == 2 + self.tables_pages + pages_sum(
                    self.data_chunks@,
                    self.data_chunks@.len() as int,
                ) + (if self.memory.0 > 0 {
                    self.memory.1 as int
                } else {
                    0
                }),
                None => true,
            },
    {
        let data_pages = match self.data_segments_pages() {
            Some(d) => d,
            None => {
                return None;
            },
        };
        let mut total: u64 = 2 + self.tables_pages as u64 + data_pages as u64;
        if self.memory.0 > 0 {
            total = total + self.memory.1 as u64;
        }
        if total > 0xFFFFFFFF {
            return None;
        }
        Some(#[verifier::truncate] (total as u32))
    }

    /// How many whole 64 KiB pages the data chunks take: each chunk rounded
    /// up to whole pages, one at least, summed. The sum is returned exactly
    /// when it fits the page counter.
    pub fn data_segments_pages(&self) -> (r: Option<u32>)
        ensures
            r is Some <==> pages_sum(self.data_chunks@, self.data_chunks@.len() as int)
                <= u32::MAX,
            r is Some ==> r->0 == pages_sum(self.data_chunks@, self.data_chunks@.len() as int),
    {
        let mut total: u64 = 0;
        let mut i: usize = 0;
        let n = self.data_chunks.len();
        while i < n
            invariant
                n == self.data_chunks@.len(),
                i <= n,
                total == pages_sum(self.data_chunks@, i as int),
                total <= u32::MAX,
            decreases n - i,
        {
            let len = self.data_chunks[i].len();
            if len as u64 > u64::MAX - 0xFFFF {
                // this one chunk alone overruns the page counter
                proof {
                    vstd::arithmetic::div_mod::lemma_div_is_ordered(
                        0xFFFFFFFF00000000,
                        len as int + 0xFFFF,
                        0x10000,
                    );
                    assert(0xFFFFFFFF00000000int / 0x10000 == 0xFFFFFFFF0000);
                    lemma_pages_sum_monotone(
                        self.data_chunks@,
                        i + 1,
                        self.data_chunks@.len() as int,
                    );
                }
                return None;
            }
            let pages: u64 = if len == 0 {
                1
            } else {
                (len as u64 + 0xFFFF) / 0x10000
            };
            proof {
                if len > 0 {
                    vstd::arithmetic::div_mod::lemma_div_is_ordered(
                        len as int + 0xFFFF,
                        0xFFFFFFFFFFFFFFFF,
                        0x10000,
                    );
                    assert(0xFFFFFFFFFFFFFFFFint / 0x10000 == 0xFFFFFFFFFFFF);
                }
            }
            total = total + pages;
            if total > 0xFFFFFFFF {
                proof {
                    lemma_pages_sum_monotone(
                        self.data_chunks@,
                        i + 1,
                        self.data_chunks@.len() as int,
                    );
                }
                return None;
            }
            i = i + 1;
        }
        Some(#[verifier::truncate] (total as u32))
    }
}

impl IrPvf {
    /// Compiles every function body and links the result. On success every
    /// defined function, the initializer included, stands in the label map
    /// under its own index, and every label-address relocation names a label
    /// the map holds: nothing is left unresolved.
    pub fn compile<C: CodeGenerator>(self, codegen: &mut C) -> (r: Result<PreparedPvf, PvfError>)
        requires
            self.wf(),
            old(codegen).call_sites().len() == 0,
            old(codegen).abs_sites().len() == 0,
        ensures
            match r {
                Ok(p) => {
                    &&& forall|i: int|
                        0 <= i < self.funcs@.len() ==> ((#[trigger] self.funcs@[i]) matches Some(
                            IrFunc::Function(_),
                        ) ==> entry_registered(p.labels@, i as u32))
                    &&& forall|i: int|
                        0 <= i < self.funcs@.len() ==> match #[trigger] self.funcs@[i] {
                            Some(IrFunc::Function(ir)) => (match ir@[0] {
                                IrCp::Label(IrLabel::ExportedFunc(fi, n))
                                    => crate::codegen::export_registered(p.labels@, fi, n@),
                                _ => true,
                            }),
                            _ => true,
                        }
                    &&& relocs_ok(p.relocs@, p.labels@)
                    &&& p.memory == self.memory
                    &&& p.data_chunks@.len() == self.data_chunks@.len()
                    &&& forall|i: int|
                        0 <= i < p.data_chunks@.len() ==> (#[trigger] p.data_chunks@[i])@
                            == self.data_chunks@[i].data@
                    &&& p.offset_map.wf()
                    &&& p.offset_map.tables@.len() == self.tables@.len()
                    &&& p.offset_map.data_chunks@.len() == self.data_chunks@.len()
                    &&& p.tables_pages as int == (p.offset_map.globals - p.offset_map.top)
                        / 0x10000
                    &&& forall|i: int|
                        0 <= i < p.offset_map.tables@.len() ==> (
                        #[trigger] p.offset_map.tables@[i]) as int == (if i == 0 {
                            -0x20000
                        } else {
                            p.offset_map.tables@[i - 1] as int
                        }) - 0x10000 * crate::codegen::table_pages(self.tables@[i])
                    &&& forall|i: int|
                        0 <= i < p.offset_map.data_chunks@.len() ==> (
                        #[trigger] p.offset_map.data_chunks@[i]) as int == (if i == 0 {
                            if self.tables@.len() == 0 {
                                -0x20000
                            } else {
                                p.offset_map.tables@[self.tables@.len() - 1] as int
                            }
                        } else {
                            p.offset_map.data_chunks@[i - 1] as int
                        }) - 0x10000 * chunk_pages(self.data_chunks@[i].data@.len() as int)
                },
                Err(e) => e is ValidationError,
            },
    {
        let mut code = CodeEmitter::new();
        let offset_map = codegen.build_offset_map(&self.tables, &self.data_chunks);
        let ghost funcs_view = self.funcs@;

        let n = self.funcs.len();
        let mut func_idx: usize = 0;

        // the import side table: the resolved host address of each import
        // slot, zero elsewhere
        let mut import_addrs: Vec<u64> = Vec::new();
        while import_addrs.len() < n
            invariant
                import_addrs@.len() <= n,
                n == self.funcs@.len(),
            decreases n - import_addrs@.len(),
        {
            let i = import_addrs.len();
            let addr = match &self.funcs[i] {
                Some(IrFunc::Import(a)) => *a,
                _ => 0,
            };
            import_addrs.push(addr);
        }

        while func_idx < n
            invariant
                n == self.funcs@.len(),
                funcs_view == self.funcs@,
                self.wf(),
                func_idx <= n,
                import_addrs@.len() == n,
                offset_map.wf(),
                offset_map.top >= -0x50000000,
                offset_map.tables@.len() == self.tables@.len(),
                offset_map.data_chunks@.len() == self.data_chunks@.len(),
                code.code@.len() <= 0x40000000,
                forall|i: int|
                    0 <= i < func_idx ==> ((#[trigger] self.funcs@[i]) matches Some(
                        IrFunc::Function(_),
                    ) ==> entry_registered(code.labels@, i as u32)),
                forall|i: int|
                    0 <= i < func_idx ==> match #[trigger] self.funcs@[i] {
                        Some(IrFunc::Function(ir)) => (match ir@[0] {
                            IrCp::Label(IrLabel::ExportedFunc(fi, n))
                                => crate::codegen::export_registered(code.labels@, fi, n@),
                            _ => true,
                        }),
                        _ => true,
                    },
                crate::codegen::link_targets_ok(codegen.call_sites(), self.funcs@),
                crate::codegen::link_targets_ok(codegen.abs_sites(), self.funcs@),
                crate::codegen::sites_disjoint(codegen.call_sites(), codegen.abs_sites()),
                forall|j: int|
                    0 <= j < codegen.call_sites().len() ==> (
                    #[trigger] codegen.call_sites()[j]).offset + 4 <= code.code@.len(),
                forall|j: int|
                    0 <= j < codegen.abs_sites().len() ==> (
                    #[trigger] codegen.abs_sites()[j]).offset + 8 <= code.code@.len(),
                relocs_ok(code.relocs@, code.labels@),
                crate::codegen::labels_in_code(code.labels@, code.code@.len() as int),
            decreases n - func_idx,
        {
            let ghost pre_labels = code.labels@;
            let ghost pre_calls = codegen.call_sites();
            let ghost pre_abss = codegen.abs_sites();
            let ghost pre_len = code.code@.len() as int;
            match &self.funcs[func_idx] {
                Some(IrFunc::Function(ir)) => {
                    let res = codegen.compile_func(
                        &mut code,
                        func_idx as u32,
                        ir,
                        &self.signatures,
                        &import_addrs,
                        &offset_map,
                        Ghost(funcs_view),
                    );
                    match res {
                        Ok(()) => (),
                        Err(e) => {
                            return Err(e);
                        },
                    }
                    proof {
                        broadcast use crate::codegen::lemma_entry_registered_push;

                        assert forall|i: int|
                            0 <= i < func_idx + 1 implies ((#[trigger] self.funcs@[i]) matches Some(
                            IrFunc::Function(_),
                        ) ==> entry_registered(code.labels@, i as u32)) by {
                            if i < func_idx {
                                match self.funcs@[i] {
                                    Some(IrFunc::Function(_)) => {
                                        lemma_entry_prefix(pre_labels, code.labels@, i as u32);
                                    },
                                    _ => {},
                                }
                            }
                        }
                        // the new function's sites start past every window of
                        // the functions before it
                        let calls_now = codegen.call_sites();
                        let abss_now = codegen.abs_sites();
                        assert forall|j: int, k: int|
                            0 <= j < k < calls_now.len() implies crate::codegen::windows_disjoint(
                            (#[trigger] calls_now[j]).offset as int,
                            4,
                            (#[trigger] calls_now[k]).offset as int,
                            4,
                        ) by {
                            if k < pre_calls.len() {
                                assert(calls_now[j] == pre_calls[j]);
                                assert(calls_now[k] == pre_calls[k]);
                            } else if j < pre_calls.len() {
                                assert(calls_now[j] == pre_calls[j]);
                                assert(pre_calls[j].offset + 4 <= pre_len);
                                assert(pre_len <= calls_now[k].offset as int);
                            }
                        }
                        assert forall|j: int, k: int|
                            0 <= j < k < abss_now.len() implies crate::codegen::windows_disjoint(
                            (#[trigger] abss_now[j]).offset as int,
                            8,
                            (#[trigger] abss_now[k]).offset as int,
                            8,
                        ) by {
                            if k < pre_abss.len() {
                                assert(abss_now[j] == pre_abss[j]);
                                assert(abss_now[k] == pre_abss[k]);
                            } else if j < pre_abss.len() {
                                assert(abss_now[j] == pre_abss[j]);
                                assert(pre_abss[j].offset + 8 <= pre_len);
                                assert(pre_len <= abss_now[k].offset as int);
                            }
                        }
                        assert forall|j: int, k: int|
                            0 <= j < calls_now.len() && 0 <= k < abss_now.len()
                            implies crate::codegen::windows_disjoint(
                            (#[trigger] calls_now[j]).offset as int,
                            4,
                            (#[trigger] abss_now[k]).offset as int,
                            8,
                        ) by {
                            if j < pre_calls.len() && k < pre_abss.len() {
                                assert(calls_now[j] == pre_calls[j]);
                                assert(abss_now[k] == pre_abss[k]);
                            } else if j < pre_calls.len() && k >= pre_abss.len() {
                                assert(calls_now[j] == pre_calls[j]);
                                assert(pre_calls[j].offset + 4 <= pre_len);
                                assert(pre_len <= abss_now[k].offset as int);
                            } else if j >= pre_calls.len() && k < pre_abss.len() {
                                assert(abss_now[k] == pre_abss[k]);
                                assert(pre_abss[k].offset + 8 <= pre_len);
                                assert(pre_len <= calls_now[j].offset as int);
                            }
                        }
                        assert forall|i: int|
                            0 <= i < func_idx + 1 implies match #[trigger] self.funcs@[i] {
                            Some(IrFunc::Function(f)) => (match f@[0] {
                                IrCp::Label(IrLabel::ExportedFunc(fi, n))
                                    => crate::codegen::export_registered(code.labels@, fi, n@),
                                _ => true,
                            }),
                            _ => true,
                        } by {
                            if i < func_idx {
                                match self.funcs@[i] {
                                    Some(IrFunc::Function(f)) => {
                                        match f@[0] {
                                            IrCp::Label(IrLabel::ExportedFunc(fi, n)) => {
                                                crate::codegen::lemma_export_prefix(
                                                    pre_labels,
                                                    code.labels@,
                                                    fi,
                                                    n@,
                                                );
                                            },
                                            _ => {},
                                        }
                                    },
                                    _ => {},
                                }
                            }
                        }
                    }
                },
                _ => (),
            }
            func_idx = func_idx + 1;
        }

        codegen.link(&mut code);
        let tables_pages = offset_map.get_tables_pages();
        let mut chunks: Vec<Vec<u8>> = Vec::new();
        let mut i: usize = 0;
        let n_chunks = self.data_chunks.len();
        while i < n_chunks
            invariant
                n_chunks == self.data_chunks@.len(),
                i <= n_chunks,
                chunks@.len() == i,
                forall|q: int|
                    0 <= q < i ==> (#[trigger] chunks@[q])@ == self.data_chunks@[q].data@,
            decreases n_chunks - i,
        {
            let c = self.data_chunks[i].data.clone();
            proof {
                assert(c@ =~= self.data_chunks@[i as int].data@);
            }
            chunks.push(c);
            i = i + 1;
        }
        Ok(
            PreparedPvf {
                code: code.code,
                labels: code.labels,
                relocs: code.relocs,
                memory: self.memory,
                tables_pages,
                data_chunks: chunks,
                offset_map,
            },
        )
    }
}

/// How many whole 64 KiB pages a chunk of `len` bytes takes: rounded up,
/// one page at least.
pub open spec fn chunk_pages(len: int) -> int {
    if len <= 0 {
        1
    } else {
        (len + 0xFFFF) / 0x10000
    }
}

/// The page counts of the first `n` chunks, summed.
pub open spec fn pages_sum(chunks: Seq<Vec<u8>>, n: int) -> int
    decreases n,
{
    if n <= 0 {
        0
    } else {
        pages_sum(chunks, n - 1) + chunk_pages(chunks[n - 1]@.len() as int)
    }
}

/// Every chunk takes at least one page, so the sum only grows.
proof fn lemma_pages_sum_monotone(chunks: Seq<Vec<u8>>, n1: int, n2: int)
    requires
        0 <= n1 <= n2,
    ensures
        pages_sum(chunks, n1) <= pages_sum(chunks, n2),
    decreases n2 - n1,
{
    if n1 < n2 {
        lemma_pages_sum_monotone(chunks, n1, n2 - 1);
        let len = chunks[n2 - 1]@.len() as int;
        if len > 0 {
            vstd::arithmetic::div_mod::lemma_div_is_ordered(0, len + 0xFFFF, 0x10000);
        }
    }
}

/// The `ExportedFunc` entries of the label map: name and position, in order.
pub open spec fn exported_entries(labels: Seq<(IrLabel, usize)>) -> Seq<(Seq<char>, usize)>
    decreases labels.len(),
{
    if labels.len() == 0 {
        Seq::empty()
    } else {
        let prefix = exported_entries(labels.drop_last());
        match labels.last().0 {
            IrLabel::ExportedFunc(_, name) => prefix.push((name@, labels.last().1)),
            _ => prefix,
        }
    }
}

/// Whatever exported-function label the map registers, the export list
/// derived from it carries an entry of exactly that name: together with the
/// compiler's registration guarantee this puts every exported body, the
/// initializer included, into the export map under its own name.
pub proof fn lemma_export_registered_in_entries(
    labels: Seq<(IrLabel, usize)>,
    fi: u32,
    name: Seq<char>,
)
    requires
        crate::codegen::export_registered(labels, fi, name),
    ensures
        exists|j: int|
            0 <= j < exported_entries(labels).len() && (#[trigger] exported_entries(labels)[j]).0
                == name,
    decreases labels.len(),
{
    let w = choose|j: int|
        0 <= j < labels.len() && match (#[trigger] labels[j]).0 {
            IrLabel::ExportedFunc(i, n) => i == fi && n@ == name,
            _ => false,
        };
    if w == labels.len() - 1 {
        match labels.last().0 {
            IrLabel::ExportedFunc(i2, n2) => {
                let e = exported_entries(labels);
                assert(e == exported_entries(labels.drop_last()).push((n2@, labels.last().1)));
                assert(e[e.len() - 1].0 == name);
            },
            _ => {
                assert(false);
            },
        }
    } else {
        assert(labels.drop_last()[w] == labels[w]);
        assert(crate::codegen::export_registered(labels.drop_last(), fi, name));
        lemma_export_registered_in_entries(labels.drop_last(), fi, name);
        let prefix = exported_entries(labels.drop_last());
        let j0 = choose|j: int| 0 <= j < prefix.len() && (#[trigger] prefix[j]).0 == name;
        match labels.last().0 {
            IrLabel::ExportedFunc(_, _) => {
                assert(exported_entries(labels) == prefix.push(
                    (match labels.last().0 {
                        IrLabel::ExportedFunc(_, n2) => n2@,
                        _ => Seq::empty(),
                    }, labels.last().1),
                ));
                assert(exported_entries(labels)[j0].0 == name);
            },
            _ => {
                assert(exported_entries(labels) == prefix);
                assert(exported_entries(labels)[j0].0 == name);
            },
        }
    }
}

/// Reads the eight bytes a relocation site holds, little-endian.
fn load_code_u64(code: &Vec<u8>, site: usize) -> (r: u64)
    requires
        site + 8 <= code@.len(),
    ensures
        r == crate::eval::load_le_spec(code@, site as int, 8),
{
    let n = code.len();
    let mut v: u64 = 0;
    let mut i: usize = 0;
    while i < 8
        invariant
            site + 8 <= n,
            n == code@.len(),
            i <= 8,
            v == crate::eval::load_le_spec(code@, site as int, i as int),
        decreases 8 - i,
    {
        let b = code[site + i];
        v = v | ((b as u64) << ((8 * i) as u64));
        i = i + 1;
    }
    v
}

/// An entry registered in a prefix of the registry is registered in the
/// whole of it.
proof fn lemma_entry_prefix(pre: Seq<(IrLabel, usize)>, now: Seq<(IrLabel, usize)>, fi: u32)
    requires
        entry_registered(pre, fi),
        now.len() >= pre.len(),
        now.subrange(0, pre.len() as int) == pre,
    ensures
        entry_registered(now, fi),
{
    let j = choose|j: int| 0 <= j < pre.len() && (#[trigger] pre[j]).0.func_index_spec() == Some(fi);
    assert(now[j] == now.subrange(0, pre.len() as int)[j]);
    assert(now[j].0.func_index_spec() == Some(fi));
}


} // verus!
