//! Everything that the analyses read from a core module, read in one pass.
use vstd::prelude::*;

use crate::dce::{lemma_record_segment, records_roots, RootFacts};
use crate::error::VelaError;
use crate::ops::{function_import_count, is_function_kind, law_function_imports_counted, ExternKind, Op};
use crate::rume::{lemma_record_data, lemma_record_element, records_usage, scanned_exactly, BodyFacts, UsageFacts};
use crate::wasm::{
    body_bytes, body_ops, collect_items, lemma_reverse_front, read_data_memories, read_elements, read_exports,
    read_global_inits, read_imports, reversed, section_count, ElemInfo, PayloadStream, Section,
};

verus! {

/// What the analyses read from a core module, as plain values.
pub struct ModuleFacts<'a> {
    /// What root finding reads.
    pub roots: RootFacts,
    /// What usage analysis reads, except the function bodies (none yet).
    pub usage: UsageFacts,
    /// The entry count of the function section, if there is one.
    pub declared: Option<u32>,
    /// The type index of each entry of the function section.
    pub types: Vec<u32>,
    /// The bytes of each function body of the code section.
    pub bodies: Vec<&'a [u8]>,
    /// The operators of each function body of the code section.
    pub body_ops: Vec<Vec<Op>>,
}

/// Count one import of kind `k`: the import count of its index space goes up
/// by one (tags are not counted); a count that would pass `u32::MAX` is an
/// error.
pub(crate) fn count_import(usage: &mut UsageFacts, k: ExternKind) -> (r: Result<(), VelaError>)
    ensures
        final(usage).bodies@ == old(usage).bodies@,
        final(usage).global_inits@ == old(usage).global_inits@,
        final(usage).exports@ == old(usage).exports@,
        final(usage).elem_tables@ == old(usage).elem_tables@,
        final(usage).data_memories@ == old(usage).data_memories@,
        r is Ok ==> final(usage).func_imports == old(usage).func_imports + if is_function_kind(k) { 1int } else { 0int },
        r is Ok ==> final(usage).table_imports == old(usage).table_imports + if k is Table { 1int } else { 0int },
        r is Ok ==> final(usage).memory_imports == old(usage).memory_imports + if k is Memory { 1int } else { 0int },
        r is Ok ==> final(usage).global_imports == old(usage).global_imports + if k is Global { 1int } else { 0int },
        r is Err <==> (is_function_kind(k) && old(usage).func_imports == u32::MAX) || (k is Table
            && old(usage).table_imports == u32::MAX) || (k is Memory && old(usage).memory_imports == u32::MAX) || (
        k is Global && old(usage).global_imports == u32::MAX),
        r matches Err(e) ==> e.is_parse_error(),
{
    let too_many = VelaError::InvalidWasm("too many imports".to_owned());
    match k {
        ExternKind::Func | ExternKind::FuncExact => {
            if usage.func_imports == u32::MAX {
                return Err(too_many);
            }
            usage.func_imports = usage.func_imports + 1;
        },
        ExternKind::Table => {
            if usage.table_imports == u32::MAX {
                return Err(too_many);
            }
            usage.table_imports = usage.table_imports + 1;
        },
        ExternKind::Memory => {
            if usage.memory_imports == u32::MAX {
                return Err(too_many);
            }
            usage.memory_imports = usage.memory_imports + 1;
        },
        ExternKind::Global => {
            if usage.global_imports == u32::MAX {
                return Err(too_many);
            }
            usage.global_imports = usage.global_imports + 1;
        },
        ExternKind::Tag => {},
    }
    Ok(())
}

/// `roots` and `usage` hold what was read from a module: its exports, start
/// functions, element segments and data segments as read, and as many
/// imported functions as its imports of kinds `kinds` import.
pub open spec fn facts_read(roots: &RootFacts, usage: &UsageFacts) -> bool {
    exists|kinds: Seq<ExternKind>, exports: Seq<(ExternKind, u32)>, starts: Seq<u32>, segs: Seq<ElemInfo>, datas: Seq<Option<(u32, Vec<Op>)>>|
        #![trigger records_roots(roots, exports, starts, segs), records_usage(usage, exports, segs, datas), function_import_count(kinds)]
        records_roots(roots, exports, starts, segs) && records_usage(usage, exports, segs, datas)
            && usage.func_imports == function_import_count(kinds)
}

/// Read a core module once: its imports, its function, table, memory and
/// global sections, its exports, start functions, element and data segments,
/// and the bytes and operators of every function body.
///
/// The usage facts come back without bodies; every body has its operators.
pub fn read_module<'a>(module_bytes: &'a [u8]) -> (r: Result<ModuleFacts<'a>, VelaError>)
    ensures
        r matches Ok(f) ==> f.usage.bodies@.len() == 0 && f.body_ops@.len() == f.bodies@.len(),
        r matches Err(e) ==> e.is_parse_error(),
        r matches Ok(f) ==> facts_read(&f.roots, &f.usage),
{
    let mut stream = PayloadStream::new(module_bytes);
    let mut facts = ModuleFacts {
        roots: RootFacts { exports: Vec::new(), starts: Vec::new(), elem_functions: Vec::new(), elem_exprs: Vec::new() },
        usage: UsageFacts {
            func_imports: 0,
            table_imports: 0,
            memory_imports: 0,
            global_imports: 0,
            defined_functions: 0,
            defined_tables: 0,
            defined_memories: 0,
            global_inits: Vec::new(),
            exports: Vec::new(),
            elem_tables: Vec::new(),
            data_memories: Vec::new(),
            offset_exprs: Vec::new(),
            bodies: Vec::new(),
        },
        declared: None,
        types: Vec::new(),
        bodies: Vec::new(),
        body_ops: Vec::new(),
    };
    // The import kinds, exports, start functions, element segments and data
    // segments read so far.
    let ghost mut kinds: Seq<ExternKind> = Seq::empty();
    let ghost mut exports_read: Seq<(ExternKind, u32)> = Seq::empty();
    let ghost mut starts_read: Seq<u32> = Seq::empty();
    let ghost mut segs_read: Seq<ElemInfo> = Seq::empty();
    let ghost mut datas_read: Seq<Option<(u32, Vec<Op>)>> = Seq::empty();
    proof {
        law_function_imports_counted(kinds, ExternKind::Func);
    }
    loop
        invariant
            stream.wf(),
            facts.usage.bodies@.len() == 0,
            facts.body_ops@.len() == facts.bodies@.len(),
            records_roots(&facts.roots, exports_read, starts_read, segs_read),
            records_usage(&facts.usage, exports_read, segs_read, datas_read),
            facts.usage.func_imports == function_import_count(kinds),
        decreases stream.remaining(), stream.depth(),
    {
        let item = match stream.next() {
            None => break,
            Some(Err(e)) => return Err(e),
            Some(Ok(item)) => item,
        };
        match item.section {
            Section::Import(reader) => {
                let imports = read_imports(reader)?;
                let mut i: usize = 0;
                while i < imports.len()
                    invariant
                        i <= imports@.len(),
                        facts.usage.bodies@.len() == 0,
                        facts.body_ops@.len() == facts.bodies@.len(),
                        records_roots(&facts.roots, exports_read, starts_read, segs_read),
                        records_usage(&facts.usage, exports_read, segs_read, datas_read),
                        facts.usage.func_imports == function_import_count(kinds),
                    decreases imports@.len() - i,
                {
                    count_import(&mut facts.usage, imports[i].0)?;
                    proof {
                        law_function_imports_counted(kinds, imports[i as int].0);
                        kinds = kinds.push(imports[i as int].0);
                    }
                    i = i + 1;
                }
            },
            Section::Function(reader) => {
                let count = section_count(&reader);
                facts.declared = Some(count);
                facts.usage.defined_functions = count;
                let mut types = collect_items(reader)?;
                facts.types.append(&mut types);
            },
            Section::Table(reader) => {
                facts.usage.defined_tables = section_count(&reader);
            },
            Section::Memory(reader) => {
                facts.usage.defined_memories = section_count(&reader);
            },
            Section::Global(reader) => {
                let mut inits = read_global_inits(reader)?;
                facts.usage.global_inits.append(&mut inits);
            },
            Section::Export(reader) => {
                let exports = read_exports(reader)?;
                let ghost before = exports_read;
                let mut i: usize = 0;
                while i < exports.len()
                    invariant
                        i <= exports@.len(),
                        facts.usage.bodies@.len() == 0,
                        facts.body_ops@.len() == facts.bodies@.len(),
                        exports_read == before + exports@.take(i as int),
                        records_roots(&facts.roots, exports_read, starts_read, segs_read),
                        records_usage(&facts.usage, exports_read, segs_read, datas_read),
                        facts.usage.func_imports == function_import_count(kinds),
                    decreases exports@.len() - i,
                {
                    facts.roots.exports.push(exports[i]);
                    facts.usage.exports.push(exports[i]);
                    proof {
                        assert(exports@.take(i + 1) =~= exports@.take(i as int).push(exports@[i as int]));
                        exports_read = exports_read.push(exports@[i as int]);
                    }
                    i = i + 1;
                }
            },
            Section::Start { func } => {
                facts.roots.starts.push(func);
                proof {
                    starts_read = starts_read.push(func);
                }
            },
            Section::Element(reader) => {
                let segs = read_elements(reader, true)?;
                let ghost all = segs@;
                let n = segs.len();
                let mut rest = reversed(segs);
                let mut i: usize = 0;
                while i < n
                    invariant
                        i <= n,
                        n == all.len(),
                        rest@ == all.subrange(i as int, n as int).reverse(),
                        facts.usage.bodies@.len() == 0,
                        facts.body_ops@.len() == facts.bodies@.len(),
                        records_roots(&facts.roots, exports_read, starts_read, segs_read),
                        records_usage(&facts.usage, exports_read, segs_read, datas_read),
                        facts.usage.func_imports == function_import_count(kinds),
                    decreases n - i,
                {
                    proof {
                        lemma_reverse_front(all, i as int);
                        lemma_record_segment(segs_read, all[i as int]);
                        lemma_record_element(segs_read, all[i as int]);
                    }
                    let ghost t0 = facts.usage.elem_tables@;
                    let ghost fl0 = facts.roots.elem_functions@;
                    let ghost ex0 = facts.roots.elem_exprs@;
                    let seg = rest.pop().unwrap();
                    match seg.active_table {
                        Some(Some(t)) => facts.usage.elem_tables.push(t),
                        Some(None) => facts.usage.elem_tables.push(0),
                        None => {},
                    }
                    if let Some(e) = seg.offset {
                        facts.usage.offset_exprs.push(e);
                    }
                    if let Some(fs) = seg.functions {
                        facts.roots.elem_functions.push(fs);
                    }
                    if let Some(mut exprs) = seg.exprs {
                        facts.roots.elem_exprs.append(&mut exprs);
                    }
                    proof {
                        let g = all[i as int];
                        assert(facts.usage.elem_tables@ =~= t0 + match g.active_table {
                            Some(Some(t)) => seq![t],
                            Some(None) => seq![0u32],
                            None => Seq::empty(),
                        });
                        assert(facts.roots.elem_functions@ =~= fl0 + match g.functions {
                            Some(v) => seq![v],
                            None => Seq::empty(),
                        });
                        assert(facts.roots.elem_exprs@ =~= ex0 + match g.exprs {
                            Some(v) => v@,
                            None => Seq::empty(),
                        });
                        segs_read = segs_read.push(g);
                    }
                    i = i + 1;
                }
            },
            Section::Data(reader) => {
                let mems = read_data_memories(reader)?;
                let ghost all = mems@;
                let n = mems.len();
                let mut rest = reversed(mems);
                let mut i: usize = 0;
                while i < n
                    invariant
                        i <= n,
                        n == all.len(),
                        rest@ == all.subrange(i as int, n as int).reverse(),
                        facts.usage.bodies@.len() == 0,
                        facts.body_ops@.len() == facts.bodies@.len(),
                        records_roots(&facts.roots, exports_read, starts_read, segs_read),
                        records_usage(&facts.usage, exports_read, segs_read, datas_read),
                        facts.usage.func_imports == function_import_count(kinds),
                    decreases n - i,
                {
                    proof {
                        lemma_reverse_front(all, i as int);
                        lemma_record_data(datas_read, all[i as int]);
                    }
                    let ghost m0 = facts.usage.data_memories@;
                    if let Some((m, e)) = rest.pop().unwrap() {
                        facts.usage.data_memories.push(m);
                        facts.usage.offset_exprs.push(e);
                    }
                    proof {
                        assert(facts.usage.data_memories@ =~= m0 + match all[i as int] {
                            Some((m, _)) => seq![m],
                            None => Seq::empty(),
                        });
                        datas_read = datas_read.push(all[i as int]);
                    }
                    i = i + 1;
                }
            },
            Section::CodeEntry(body) => {
                let ops = body_ops(&body)?;
                facts.bodies.push(body_bytes(&body));
                facts.body_ops.push(ops);
            },
            _ => {},
        }
    }
    assert(records_roots(&facts.roots, exports_read, starts_read, segs_read));
    assert(records_usage(&facts.usage, exports_read, segs_read, datas_read));
    assert(function_import_count(kinds) == facts.usage.func_imports);
    Ok(facts)
}

/// The bodies of usage analysis: body `k` belongs to function
/// `num_imports + k`, and its operators are kept only when that function is
/// in `reachable`.
pub fn reachable_bodies(num_imports: u32, ops: Vec<Vec<Op>>, reachable: &std::collections::HashSet<u32>) -> (r: Vec<BodyFacts>)
    requires
        num_imports + ops@.len() <= u32::MAX + 1,
    ensures
        r@.len() == ops@.len(),
        scanned_exactly(r@, reachable@),
        forall|k: int| 0 <= k < r@.len() ==> #[trigger] r@[k].function == num_imports + k,
        forall|k: int| 0 <= k < r@.len() ==> (#[trigger] r@[k].ops matches Some(o) ==> o == ops@[k]),
{
    let ghost all = ops@;
    let n = ops.len();
    let mut rest = reversed(ops);
    let mut r: Vec<BodyFacts> = Vec::new();
    let mut k: usize = 0;
    while k < n
        invariant
            k <= n,
            n == all.len(),
            num_imports + n <= u32::MAX + 1,
            rest@ == all.subrange(k as int, n as int).reverse(),
            r@.len() == k,
            scanned_exactly(r@, reachable@),
            forall|j: int| 0 <= j < k ==> #[trigger] r@[j].function == num_imports + j,
            forall|j: int| 0 <= j < k ==> (#[trigger] r@[j].ops matches Some(o) ==> o == all[j]),
        decreases n - k,
    {
        proof {
            lemma_reverse_front(all, k as int);
        }
        let body = rest.pop().unwrap();
        let function: u32 = num_imports + k as u32;
        let kept = if reachable.contains(&function) {
            Some(body)
        } else {
            None
        };
        let ghost before = r@;
        r.push(BodyFacts { function, ops: kept });
        proof {
            assert forall|b: int| 0 <= b < r@.len() implies (#[trigger] r@[b].ops is Some <==> reachable@.contains(
                r@[b].function,
            )) by {
                if b < before.len() {
                    assert(r@[b] == before[b]);
                }
            }
            assert forall|j: int| 0 <= j < k + 1 implies #[trigger] r@[j].function == num_imports + j by {
                if j < k {
                    assert(r@[j] == before[j]);
                }
            }
            assert forall|j: int| 0 <= j < k + 1 implies (#[trigger] r@[j].ops matches Some(o) ==> o == all[j]) by {
                if j < k {
                    assert(r@[j] == before[j]);
                }
            }
        }
        k = k + 1;
    }
    r
}

} // verus!
