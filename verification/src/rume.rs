use std::collections::HashSet;
use wasmparser::FunctionBody;
use vstd::prelude::*;

use crate::error::VelaError;
use crate::wasm::{body_ops, lemma_reverse_front, reversed, read_data_memories, read_elements, read_exports, read_global_inits, read_imports, section_count, ElemInfo, PayloadStream, Section};
use crate::ops::{global_of, memories_of, tables_of, op_uses_global, op_uses_memory, op_uses_table, ExternKind, Op};

verus! {

/// Counts of each element kind in the module (imports + defined).
pub struct ModuleCounts {
    pub num_functions: u32,
    pub num_tables: u32,
    pub num_memories: u32,
    pub num_globals: u32,
    // Import counts (subset of the above)
    pub num_func_imports: u32,
    pub num_table_imports: u32,
    pub num_memory_imports: u32,
    pub num_global_imports: u32,
}

/// Which tables, memories, and globals are actually used.
pub struct UsageInfo {
    pub used_tables: HashSet<u32>,
    pub used_memories: HashSet<u32>,
    pub used_globals: HashSet<u32>,
    pub counts: ModuleCounts,
}

/// What usage analysis reads from a module, as plain values.
pub struct UsageFacts {
    pub func_imports: u32,
    pub table_imports: u32,
    pub memory_imports: u32,
    pub global_imports: u32,
    /// The entry count of the function section (0 when there is none).
    pub defined_functions: u32,
    /// The entry count of the table section (0 when there is none).
    pub defined_tables: u32,
    /// The entry count of the memory section (0 when there is none).
    pub defined_memories: u32,
    /// The operators of each defined global's initializer expression.
    pub global_inits: Vec<Vec<Op>>,
    /// Every export: its kind and index.
    pub exports: Vec<(ExternKind, u32)>,
    /// The table of each active element segment.
    pub elem_tables: Vec<u32>,
    /// The memory of each active data segment.
    pub data_memories: Vec<u32>,
    /// The operators of the offset expression of each active element and data segment.
    pub offset_exprs: Vec<Vec<Op>>,
    /// Each function body of the code section, in order.
    pub bodies: Vec<BodyFacts>,
}

/// A function body of the code section: its function index, and its
/// operators when the function is reachable (bodies of unreachable functions
/// are not read).
pub struct BodyFacts {
    pub function: u32,
    pub ops: Option<Vec<Op>>,
}

/// The operators of a body that was read; none for one that was skipped.
pub open spec fn scanned_ops(b: BodyFacts) -> Seq<Op> {
    match b.ops {
        Some(v) => v@,
        None => Seq::empty(),
    }
}

/// Exactly the bodies of the functions in `reach` were read.
pub open spec fn scanned_exactly(bodies: Seq<BodyFacts>, reach: Set<u32>) -> bool {
    forall|b: int| 0 <= b < bodies.len() ==> (#[trigger] bodies[b].ops is Some <==> reach.contains(bodies[b].function))
}

/// Some export has kind `kind` and index `i`.
pub open spec fn exported(exports: Seq<(ExternKind, u32)>, kind: ExternKind, i: u32) -> bool {
    exists|e: int| 0 <= e < exports.len() && #[trigger] exports[e] == (kind, i)
}

/// Some operator of some body that was read reads or writes global `g`.
pub open spec fn bodies_use_global(bodies: Seq<BodyFacts>, g: u32) -> bool {
    exists|b: int, o: int|
        0 <= b < bodies.len() && 0 <= o < scanned_ops(bodies[b]).len() && #[trigger] op_uses_global(
            scanned_ops(bodies[b])[o],
            g,
        )
}

/// Some operator of some body that was read refers to table `t`.
pub open spec fn bodies_use_table(bodies: Seq<BodyFacts>, t: u32) -> bool {
    exists|b: int, o: int|
        0 <= b < bodies.len() && 0 <= o < scanned_ops(bodies[b]).len() && #[trigger] op_uses_table(
            scanned_ops(bodies[b])[o],
            t,
        )
}

/// Some operator of some body that was read refers to memory `m`.
pub open spec fn bodies_use_memory(bodies: Seq<BodyFacts>, m: u32) -> bool {
    exists|b: int, o: int|
        0 <= b < bodies.len() && 0 <= o < scanned_ops(bodies[b]).len() && #[trigger] op_uses_memory(
            scanned_ops(bodies[b])[o],
            m,
        )
}

/// Some global initializer contains `global.get g`.
pub open spec fn inits_get_global(inits: Seq<Vec<Op>>, g: u32) -> bool {
    exists|i: int, j: int|
        0 <= i < inits.len() && 0 <= j < inits[i]@.len() && #[trigger] inits[i]@[j] == Op::GlobalGet(g)
}

pub open spec fn global_is_used(f: &UsageFacts, g: u32) -> bool {
    ||| inits_get_global(f.global_inits@, g)
    ||| inits_get_global(f.offset_exprs@, g)
    ||| exported(f.exports@, ExternKind::Global, g)
    ||| bodies_use_global(f.bodies@, g)
}

pub open spec fn table_is_used(f: &UsageFacts, t: u32) -> bool {
    ||| exported(f.exports@, ExternKind::Table, t)
    ||| f.elem_tables@.contains(t)
    ||| bodies_use_table(f.bodies@, t)
}

pub open spec fn memory_is_used(f: &UsageFacts, m: u32) -> bool {
    ||| exported(f.exports@, ExternKind::Memory, m)
    ||| f.data_memories@.contains(m)
    ||| bodies_use_memory(f.bodies@, m)
}

/// The sums of import and defined counts fit in 32 bits.
pub open spec fn counts_fit(f: &UsageFacts) -> bool {
    &&& f.func_imports + f.defined_functions <= u32::MAX
    &&& f.table_imports + f.defined_tables <= u32::MAX
    &&& f.memory_imports + f.defined_memories <= u32::MAX
    &&& f.global_imports + f.global_inits@.len() <= u32::MAX
}

pub open spec fn counts_spec(f: &UsageFacts, c: &ModuleCounts) -> bool {
    &&& c.num_functions == f.func_imports + f.defined_functions
    &&& c.num_tables == f.table_imports + f.defined_tables
    &&& c.num_memories == f.memory_imports + f.defined_memories
    &&& c.num_globals == f.global_imports + f.global_inits@.len()
    &&& c.num_func_imports == f.func_imports
    &&& c.num_table_imports == f.table_imports
    &&& c.num_memory_imports == f.memory_imports
    &&& c.num_global_imports == f.global_imports
}

pub open spec fn usage_spec(f: &UsageFacts, u: &UsageInfo) -> bool {
    &&& forall|g: u32| #[trigger] u.used_globals@.contains(g) <==> global_is_used(f, g)
    &&& forall|t: u32| #[trigger] u.used_tables@.contains(t) <==> table_is_used(f, t)
    &&& forall|m: u32| #[trigger] u.used_memories@.contains(m) <==> memory_is_used(f, m)
    &&& counts_spec(f, &u.counts)
}

/// Body `k` of the code section belongs to function `func_imports + k`.
pub open spec fn numbered_from_imports(f: &UsageFacts) -> bool {
    forall|k: int| 0 <= k < f.bodies@.len() ==> #[trigger] f.bodies@[k].function == f.func_imports + k
}

/// `info` is the usage analysis of some facts in which body `k` belongs to
/// function `func_imports + k` and exactly the bodies of the functions in
/// `reach` were read.
pub open spec fn is_usage_for(reach: Set<u32>, info: &UsageInfo) -> bool {
    exists|f: UsageFacts|
        #[trigger] usage_spec(&f, info) && scanned_exactly(f.bodies@, reach) && numbered_from_imports(&f)
}

/// References from unreachable functions do not count: a global that no
/// initializer or segment offset reads, that is not exported, and that no body of a reachable
/// function refers to is not used.
pub proof fn law_unreachable_references_ignored(facts: &UsageFacts, reach: Set<u32>, info: &UsageInfo, g: u32)
    requires
        usage_spec(facts, info),
        scanned_exactly(facts.bodies@, reach),
        !inits_get_global(facts.global_inits@, g),
        !inits_get_global(facts.offset_exprs@, g),
        !exported(facts.exports@, ExternKind::Global, g),
        forall|b: int, o: int|
            0 <= b < facts.bodies@.len() && reach.contains(facts.bodies@[b].function) && facts.bodies@[b].ops
                is Some && 0 <= o < facts.bodies@[b].ops->0@.len() ==> !op_uses_global(
                #[trigger] facts.bodies@[b].ops->0@[o],
                g,
            ),
    ensures
        !info.used_globals@.contains(g),
{
    if bodies_use_global(facts.bodies@, g) {
        let (b, o) = choose|b: int, o: int|
            0 <= b < facts.bodies@.len() && 0 <= o < scanned_ops(facts.bodies@[b]).len()
                && #[trigger] op_uses_global(scanned_ops(facts.bodies@[b])[o], g);
        assert(facts.bodies@[b].ops is Some);
        assert(reach.contains(facts.bodies@[b].function));
        assert(!op_uses_global(facts.bodies@[b].ops->0@[o], g));
    }
}

/// The memories of the active segments among the data segments `datas`, in order.
pub open spec fn active_data_memories(datas: Seq<Option<(u32, Vec<Op>)>>) -> Seq<u32>
    decreases datas.len(),
{
    if datas.len() == 0 {
        Seq::empty()
    } else {
        active_data_memories(datas.drop_last()) + match datas.last() {
            Some((m, _)) => seq![m],
            None => Seq::empty(),
        }
    }
}

/// The tables of the active segments among the element segments `segs`, in
/// order; an active segment that names no table fills table 0.
pub open spec fn active_element_tables(segs: Seq<ElemInfo>) -> Seq<u32>
    decreases segs.len(),
{
    if segs.len() == 0 {
        Seq::empty()
    } else {
        active_element_tables(segs.drop_last()) + match segs.last().active_table {
            Some(Some(t)) => seq![t],
            Some(None) => seq![0u32],
            None => Seq::empty(),
        }
    }
}

/// `f` holds exactly the exports `exports`, and the tables and memories of
/// the active element segments `segs` and data segments `datas` of a module.
pub open spec fn records_usage(
    f: &UsageFacts,
    exports: Seq<(ExternKind, u32)>,
    segs: Seq<ElemInfo>,
    datas: Seq<Option<(u32, Vec<Op>)>>,
) -> bool {
    &&& f.exports@ == exports
    &&& f.elem_tables@ == active_element_tables(segs)
    &&& f.data_memories@ == active_data_memories(datas)
}

/// `info` is the usage analysis of the facts read from a module: its
/// exports and its element and data segments are recorded as read, body `k`
/// belongs to function `func_imports + k`, and exactly the bodies of the
/// functions in `reach` were read.
pub open spec fn usage_read(reach: Set<u32>, info: &UsageInfo) -> bool {
    exists|f: UsageFacts, exports: Seq<(ExternKind, u32)>, segs: Seq<ElemInfo>, datas: Seq<Option<(u32, Vec<Op>)>>|
        #[trigger] records_usage(&f, exports, segs, datas) && usage_spec(&f, info) && scanned_exactly(f.bodies@, reach)
            && numbered_from_imports(&f)
}

/// The memory that data segment `d` initializes, when it is active.
pub open spec fn active_memory(d: Option<(u32, Vec<Op>)>) -> u32 {
    match d {
        Some((m, _)) => m,
        None => 0,
    }
}

/// Recording one more data segment adds its memory at the end when it is active.
pub proof fn lemma_record_data(datas: Seq<Option<(u32, Vec<Op>)>>, d: Option<(u32, Vec<Op>)>)
    ensures
        active_data_memories(datas.push(d)) == active_data_memories(datas) + match d {
            Some((m, _)) => seq![m],
            None => Seq::empty(),
        },
{
    assert(datas.push(d).drop_last() =~= datas);
}

/// Recording one more element segment adds its table at the end when it is active.
pub proof fn lemma_record_element(segs: Seq<ElemInfo>, seg: ElemInfo)
    ensures
        active_element_tables(segs.push(seg)) == active_element_tables(segs) + match seg.active_table {
            Some(Some(t)) => seq![t],
            Some(None) => seq![0u32],
            None => Seq::empty(),
        },
{
    assert(segs.push(seg).drop_last() =~= segs);
}

/// The memory of an active data segment is among the recorded memories.
proof fn lemma_active_data_memory_recorded(datas: Seq<Option<(u32, Vec<Op>)>>, d: int)
    requires
        0 <= d < datas.len(),
        datas[d] is Some,
    ensures
        active_data_memories(datas).contains(active_memory(datas[d])),
    decreases datas.len(),
{
    let prev = datas.drop_last();
    if d < datas.len() - 1 {
        lemma_active_data_memory_recorded(prev, d);
        assert(prev[d] == datas[d]);
        let a = choose|a: int| 0 <= a < active_data_memories(prev).len() && active_data_memories(prev)[a] == active_memory(datas[d]);
        assert(active_data_memories(datas)[a] == active_memory(datas[d]));
    } else {
        assert(active_data_memories(datas)[active_data_memories(prev).len() as int] == active_memory(datas[d]));
    }
}

/// The table of an active element segment is among the recorded tables.
proof fn lemma_active_table_recorded(segs: Seq<ElemInfo>, s: int)
    requires
        0 <= s < segs.len(),
        segs[s].active_table is Some,
    ensures
        active_element_tables(segs).contains(
            match segs[s].active_table->0 {
                Some(t) => t,
                None => 0u32,
            },
        ),
    decreases segs.len(),
{
    let prev = segs.drop_last();
    let t = match segs[s].active_table->0 {
        Some(t) => t,
        None => 0u32,
    };
    if s < segs.len() - 1 {
        lemma_active_table_recorded(prev, s);
        assert(prev[s] == segs[s]);
        let a = choose|a: int| 0 <= a < active_element_tables(prev).len() && active_element_tables(prev)[a] == t;
        assert(active_element_tables(segs)[a] == t);
    } else {
        assert(active_element_tables(segs)[active_element_tables(prev).len() as int] == t);
    }
}

/// Segments and exports keep what they name: every memory that an active data
/// segment initializes is used, every table that an active element segment
/// fills is used (table 0 when the segment names none), and every exported
/// table, memory and global is used.
pub proof fn law_segment_and_export_targets_used(
    f: &UsageFacts,
    exports: Seq<(ExternKind, u32)>,
    segs: Seq<ElemInfo>,
    datas: Seq<Option<(u32, Vec<Op>)>>,
    info: &UsageInfo,
    x: u32,
)
    requires
        records_usage(f, exports, segs, datas),
        usage_spec(f, info),
    ensures
        forall|d: int| 0 <= d < datas.len() && #[trigger] datas[d] is Some && active_memory(datas[d]) == x ==> info.used_memories@.contains(x),
        forall|s: int| 0 <= s < segs.len() && #[trigger] segs[s].active_table == Some(Some(x)) ==> info.used_tables@.contains(x),
        forall|s: int| 0 <= s < segs.len() && #[trigger] segs[s].active_table == Some(None::<u32>) ==> info.used_tables@.contains(0),
        exports.contains((ExternKind::Memory, x)) ==> info.used_memories@.contains(x),
        exports.contains((ExternKind::Table, x)) ==> info.used_tables@.contains(x),
        exports.contains((ExternKind::Global, x)) ==> info.used_globals@.contains(x),
{
    assert forall|d: int| 0 <= d < datas.len() && #[trigger] datas[d] is Some && active_memory(datas[d]) == x implies info.used_memories@.contains(x) by {
        lemma_active_data_memory_recorded(datas, d);
    }
    assert forall|s: int| 0 <= s < segs.len() && #[trigger] segs[s].active_table == Some(Some(x)) implies info.used_tables@.contains(x) by {
        lemma_active_table_recorded(segs, s);
    }
    assert forall|s: int| 0 <= s < segs.len() && #[trigger] segs[s].active_table == Some(None::<u32>) implies info.used_tables@.contains(0) by {
        lemma_active_table_recorded(segs, s);
    }
    if exports.contains((ExternKind::Memory, x)) {
        let e = choose|e: int| 0 <= e < exports.len() && exports[e] == (ExternKind::Memory, x);
        assert(exported(f.exports@, ExternKind::Memory, x));
    }
    if exports.contains((ExternKind::Table, x)) {
        let e = choose|e: int| 0 <= e < exports.len() && exports[e] == (ExternKind::Table, x);
        assert(exported(f.exports@, ExternKind::Table, x));
    }
    if exports.contains((ExternKind::Global, x)) {
        let e = choose|e: int| 0 <= e < exports.len() && exports[e] == (ExternKind::Global, x);
        assert(exported(f.exports@, ExternKind::Global, x));
    }
}

/// Analyze which tables, memories, and globals are used in the module.
/// Only the bodies of the functions in `reachable` are scanned; body `k` of
/// the code section belongs to function `imports + k`.
///
/// Atomic and SIMD loads and stores are not counted as uses of a memory.
pub fn analyze_usage(module_bytes: &[u8], reachable: &HashSet<u32>) -> (r: Result<UsageInfo, VelaError>)
    ensures
        r matches Ok(info) ==> is_usage_for(reachable@, &info),
        r matches Ok(info) ==> usage_read(reachable@, &info),
{
    let mut stream = PayloadStream::new(module_bytes);
    let mut facts = UsageFacts {
        func_imports: 0,
        table_imports: 0,
        memory_imports: 0,
        global_imports: 0,
        defined_functions: 0,
        defined_tables: 0,
        defined_memories: 0,
        global_inits: Vec::new(),
        exports: Vec::new(),
        elem_tables: Vec::new(),
        data_memories: Vec::new(),
        offset_exprs: Vec::new(),
        bodies: Vec::new(),
    };
    let mut code: Vec<FunctionBody> = Vec::new();
    // The exports, element segments and data segments read so far.
    let ghost mut exports_read: Seq<(ExternKind, u32)> = Seq::empty();
    let ghost mut segs_read: Seq<ElemInfo> = Seq::empty();
    let ghost mut datas_read: Seq<Option<(u32, Vec<Op>)>> = Seq::empty();
    loop
        invariant
            stream.wf(),
            facts.bodies@.len() == 0,
            records_usage(&facts, exports_read, segs_read, datas_read),
        decreases stream.remaining(), stream.depth(),
    {
        let item = match stream.next() {
            None => break,
            Some(Err(e)) => return Err(e),
            Some(Ok(item)) => item,
        };
        match item.section {
            Section::Import(reader) => {
                let imports = read_imports(reader)?;
                let mut i: usize = 0;
                while i < imports.len()
                    invariant
                        i <= imports@.len(),
                        facts.bodies@.len() == 0,
                        records_usage(&facts, exports_read, segs_read, datas_read),
                    decreases imports@.len() - i,
                {
                    crate::facts::count_import(&mut facts, imports[i].0)?;
                    i = i + 1;
                }
            },
            Section::Function(reader) => {
                facts.defined_functions = section_count(&reader);
            },
            Section::Table(reader) => {
                facts.defined_tables = section_count(&reader);
            },
            Section::Memory(reader) => {
                facts.defined_memories = section_count(&reader);
            },
            Section::Global(reader) => {
                let mut inits = read_global_inits(reader)?;
                facts.global_inits.append(&mut inits);
            },
            Section::Export(reader) => {
                let mut exports = read_exports(reader)?;
                proof {
                    exports_read = exports_read + exports@;
                }
                facts.exports.append(&mut exports);
            },
            Section::Element(reader) => {
                let segs = read_elements(reader, false)?;
                let ghost all = segs@;
                let n = segs.len();
                let mut rest = reversed(segs);
                let mut i: usize = 0;
                while i < n
                    invariant
                        i <= n,
                        n == all.len(),
                        rest@ == all.subrange(i as int, n as int).reverse(),
                        facts.bodies@.len() == 0,
                        records_usage(&facts, exports_read, segs_read, datas_read),
                    decreases n - i,
                {
                    proof {
                        lemma_reverse_front(all, i as int);
                        lemma_record_element(segs_read, all[i as int]);
                    }
                    let ghost t0 = facts.elem_tables@;
                    let seg = rest.pop().unwrap();
                    match seg.active_table {
                        Some(Some(t)) => facts.elem_tables.push(t),
                        Some(None) => facts.elem_tables.push(0),
                        None => {},
                    }
                    if let Some(e) = seg.offset {
                        facts.offset_exprs.push(e);
                    }
                    proof {
                        assert(facts.elem_tables@ =~= t0 + match all[i as int].active_table {
                            Some(Some(t)) => seq![t],
                            Some(None) => seq![0u32],
                            None => Seq::empty(),
                        });
                        segs_read = segs_read.push(all[i as int]);
                    }
                    i = i + 1;
                }
            },
            Section::Data(reader) => {
                let mems = read_data_memories(reader)?;
                let ghost all = mems@;
                let n = mems.len();
                let mut rest = reversed(mems);
                let mut i: usize = 0;
                while i < n
                    invariant
                        i <= n,
                        n == all.len(),
                        rest@ == all.subrange(i as int, n as int).reverse(),
                        facts.bodies@.len() == 0,
                        records_usage(&facts, exports_read, segs_read, datas_read),
                    decreases n - i,
                {
                    proof {
                        lemma_reverse_front(all, i as int);
                        lemma_record_data(datas_read, all[i as int]);
                    }
                    let ghost m0 = facts.data_memories@;
                    if let Some((m, e)) = rest.pop().unwrap() {
                        facts.data_memories.push(m);
                        facts.offset_exprs.push(e);
                    }
                    proof {
                        assert(facts.data_memories@ =~= m0 + match all[i as int] {
                            Some((m, _)) => seq![m],
                            None => Seq::empty(),
                        });
                        datas_read = datas_read.push(all[i as int]);
                    }
                    i = i + 1;
                }
            },
            Section::CodeEntry(body) => {
                code.push(body);
            },
            _ => {},
        }
    }
    // Body k belongs to function `func_imports + k`; only reachable ones are read.
    if code.len() as u64 > u32::MAX as u64 + 1 - facts.func_imports as u64 {
        return Err(VelaError::InvalidWasm("too many functions".to_owned()));
    }
    let mut k: usize = 0;
    while k < code.len()
        invariant
            k <= code@.len(),
            facts.func_imports + code@.len() <= u32::MAX + 1,
            facts.bodies@.len() == k,
            scanned_exactly(facts.bodies@, reachable@),
            forall|j: int| 0 <= j < k ==> #[trigger] facts.bodies@[j].function == facts.func_imports + j,
            records_usage(&facts, exports_read, segs_read, datas_read),
        decreases code@.len() - k,
    {
        let func_index: u32 = facts.func_imports + k as u32;
        let ops = if reachable.contains(&func_index) {
            Some(body_ops(&code[k])?)
        } else {
            None
        };
        let ghost before = facts.bodies@;
        facts.bodies.push(BodyFacts { function: func_index, ops });
        proof {
            assert forall|b: int| 0 <= b < facts.bodies@.len() implies (
            #[trigger] facts.bodies@[b].ops is Some <==> reachable@.contains(facts.bodies@[b].function)) by {
                if b < before.len() {
                    assert(facts.bodies@[b] == before[b]);
                }
            }
            assert forall|j: int| 0 <= j < k + 1 implies #[trigger] facts.bodies@[j].function == facts.func_imports + j by {
                if j < k {
                    assert(facts.bodies@[j] == before[j]);
                }
            }
        }
        k = k + 1;
    }
    if facts.defined_functions > u32::MAX - facts.func_imports
        || facts.defined_tables > u32::MAX - facts.table_imports
        || facts.defined_memories > u32::MAX - facts.memory_imports
        || facts.global_inits.len() as u64 > u32::MAX as u64 - facts.global_imports as u64
    {
        return Err(VelaError::InvalidWasm("too many module elements".to_owned()));
    }
    let info = usage_from_facts(&facts);
    assert(usage_spec(&facts, &info) && scanned_exactly(facts.bodies@, reachable@) && numbered_from_imports(&facts));
    assert(records_usage(&facts, exports_read, segs_read, datas_read));
    Ok(info)
}

/// Add every table, memory and global that an operator of `ops` refers to.
fn add_op_uses(
    ops: &Vec<Op>,
    tables: &mut HashSet<u32>,
    memories: &mut HashSet<u32>,
    globals: &mut HashSet<u32>,
)
    ensures
        forall|t: u32|
            #[trigger] final(tables)@.contains(t) <==> old(tables)@.contains(t) || exists|o: int|
                0 <= o < ops@.len() && op_uses_table(ops@[o], t),
        forall|m: u32|
            #[trigger] final(memories)@.contains(m) <==> old(memories)@.contains(m) || exists|o: int|
                0 <= o < ops@.len() && op_uses_memory(ops@[o], m),
        forall|g: u32|
            #[trigger] final(globals)@.contains(g) <==> old(globals)@.contains(g) || exists|o: int|
                0 <= o < ops@.len() && op_uses_global(ops@[o], g),
{
    let ghost t0 = tables@;
    let ghost m0 = memories@;
    let ghost g0 = globals@;
    let mut i: usize = 0;
    while i < ops.len()
        invariant
            i <= ops@.len(),
            forall|t: u32|
                #[trigger] tables@.contains(t) <==> t0.contains(t) || exists|o: int|
                    0 <= o < i && op_uses_table(ops@[o], t),
            forall|m: u32|
                #[trigger] memories@.contains(m) <==> m0.contains(m) || exists|o: int|
                    0 <= o < i && op_uses_memory(ops@[o], m),
            forall|g: u32|
                #[trigger] globals@.contains(g) <==> g0.contains(g) || exists|o: int|
                    0 <= o < i && op_uses_global(ops@[o], g),
        decreases ops@.len() - i,
    {
        let op = ops[i];
        let (t1, t2) = tables_of(op);
        if let Some(t) = t1 {
            tables.insert(t);
        }
        if let Some(t) = t2 {
            tables.insert(t);
        }
        let (m1, m2) = memories_of(op);
        if let Some(m) = m1 {
            memories.insert(m);
        }
        if let Some(m) = m2 {
            memories.insert(m);
        }
        if let Some(g) = global_of(op) {
            globals.insert(g);
        }
        proof {
            assert forall|t: u32| #[trigger] tables@.contains(t) <==> t0.contains(t) || exists|o: int|
                0 <= o < i + 1 && op_uses_table(ops@[o], t) by {
                if op_uses_table(ops@[i as int], t) {
                    assert(tables@.contains(t));
                }
            }
            assert forall|m: u32| #[trigger] memories@.contains(m) <==> m0.contains(m) || exists|o: int|
                0 <= o < i + 1 && op_uses_memory(ops@[o], m) by {
                if op_uses_memory(ops@[i as int], m) {
                    assert(memories@.contains(m));
                }
            }
            assert forall|g: u32| #[trigger] globals@.contains(g) <==> g0.contains(g) || exists|o: int|
                0 <= o < i + 1 && op_uses_global(ops@[o], g) by {
                if op_uses_global(ops@[i as int], g) {
                    assert(globals@.contains(g));
                }
            }
        }
        i = i + 1;
    }
}

/// Add every global that a `global.get` of one of `exprs` reads.
fn add_global_gets(exprs: &Vec<Vec<Op>>, globals: &mut HashSet<u32>)
    ensures
        forall|g: u32| #[trigger] final(globals)@.contains(g) <==> old(globals)@.contains(g) || inits_get_global(exprs@, g),
{
    let ghost start = globals@;
    let mut i: usize = 0;
    while i < exprs.len()
        invariant
            i <= exprs@.len(),
            forall|g: u32|
                #[trigger] globals@.contains(g) <==> start.contains(g) || exists|a: int, j: int|
                    0 <= a < i && 0 <= j < exprs@[a]@.len() && exprs@[a]@[j] == Op::GlobalGet(g),
        decreases exprs@.len() - i,
    {
        let expr = &exprs[i];
        let ghost before = globals@;
        let mut j: usize = 0;
        while j < expr.len()
            invariant
                j <= expr@.len(),
                *expr == exprs@[i as int],
                forall|g: u32|
                    #[trigger] globals@.contains(g) <==> before.contains(g) || exists|b: int|
                        0 <= b < j && expr@[b] == Op::GlobalGet(g),
            decreases expr@.len() - j,
        {
            if let Op::GlobalGet(g) = expr[j] {
                globals.insert(g);
            }
            proof {
                assert forall|g: u32| #[trigger] globals@.contains(g) <==> before.contains(g)
                    || exists|b: int| 0 <= b < j + 1 && expr@[b] == Op::GlobalGet(g) by {
                    if expr@[j as int] == Op::GlobalGet(g) {
                        assert(globals@.contains(g));
                    }
                }
            }
            j = j + 1;
        }
        proof {
            assert forall|g: u32| #[trigger] globals@.contains(g) <==> start.contains(g) || exists|a: int, j: int|
                0 <= a < i + 1 && 0 <= j < exprs@[a]@.len() && exprs@[a]@[j] == Op::GlobalGet(g) by {
                if exists|b: int| 0 <= b < expr@.len() && expr@[b] == Op::GlobalGet(g) {
                    let b = choose|b: int| 0 <= b < expr@.len() && expr@[b] == Op::GlobalGet(g);
                    assert(exprs@[i as int]@[b] == Op::GlobalGet(g));
                }
            }
        }
        i = i + 1;
    }
}

/// Decide which tables, memories and globals are used.
///
/// Used are: every global read by a `global.get` in a global initializer or
/// in the offset expression of an active element or data segment;
/// every exported table, memory and global; the table of every active element
/// segment; the memory of every active data segment; and every table, memory
/// and global that an operator of a body that was read refers to.
pub fn usage_from_facts(facts: &UsageFacts) -> (info: UsageInfo)
    requires
        counts_fit(facts),
    ensures
        usage_spec(facts, &info),
{
    let mut used_tables: HashSet<u32> = HashSet::new();
    let mut used_memories: HashSet<u32> = HashSet::new();
    let mut used_globals: HashSet<u32> = HashSet::new();

    // Globals read by initializer and offset expressions.
    add_global_gets(&facts.global_inits, &mut used_globals);
    add_global_gets(&facts.offset_exprs, &mut used_globals);
    let ghost after_inits = used_globals@;

    // Exported tables, memories and globals.
    let mut e: usize = 0;
    while e < facts.exports.len()
        invariant
            e <= facts.exports@.len(),
            forall|g: u32|
                #[trigger] used_globals@.contains(g) <==> after_inits.contains(g) || exists|a: int|
                    0 <= a < e && facts.exports@[a] == (ExternKind::Global, g),
            forall|t: u32|
                #[trigger] used_tables@.contains(t) <==> exists|a: int|
                    0 <= a < e && facts.exports@[a] == (ExternKind::Table, t),
            forall|m: u32|
                #[trigger] used_memories@.contains(m) <==> exists|a: int|
                    0 <= a < e && facts.exports@[a] == (ExternKind::Memory, m),
        decreases facts.exports@.len() - e,
    {
        let (kind, index) = facts.exports[e];
        match kind {
            ExternKind::Table => {
                used_tables.insert(index);
            },
            ExternKind::Memory => {
                used_memories.insert(index);
            },
            ExternKind::Global => {
                used_globals.insert(index);
            },
            _ => {},
        }
        proof {
            assert forall|g: u32| #[trigger] used_globals@.contains(g) <==> after_inits.contains(g)
                || exists|a: int| 0 <= a < e + 1 && facts.exports@[a] == (ExternKind::Global, g) by {
                if facts.exports@[e as int] == (ExternKind::Global, g) {
                    assert(used_globals@.contains(g));
                }
            }
            assert forall|t: u32| #[trigger] used_tables@.contains(t) <==> exists|a: int|
                0 <= a < e + 1 && facts.exports@[a] == (ExternKind::Table, t) by {
                if facts.exports@[e as int] == (ExternKind::Table, t) {
                    assert(used_tables@.contains(t));
                }
            }
            assert forall|m: u32| #[trigger] used_memories@.contains(m) <==> exists|a: int|
                0 <= a < e + 1 && facts.exports@[a] == (ExternKind::Memory, m) by {
                if facts.exports@[e as int] == (ExternKind::Memory, m) {
                    assert(used_memories@.contains(m));
                }
            }
        }
        e = e + 1;
    }
    let ghost after_exports_t = used_tables@;
    let ghost after_exports_m = used_memories@;

    // Tables of active element segments.
    let mut i: usize = 0;
    while i < facts.elem_tables.len()
        invariant
            i <= facts.elem_tables@.len(),
            forall|t: u32|
                #[trigger] used_tables@.contains(t) <==> after_exports_t.contains(t) || exists|a: int|
                    0 <= a < i && facts.elem_tables@[a] == t,
        decreases facts.elem_tables@.len() - i,
    {
        used_tables.insert(facts.elem_tables[i]);
        proof {
            assert forall|t: u32| #[trigger] used_tables@.contains(t) <==> after_exports_t.contains(t)
                || exists|a: int| 0 <= a < i + 1 && facts.elem_tables@[a] == t by {
                if facts.elem_tables@[i as int] == t {
                    assert(used_tables@.contains(t));
                }
            }
        }
        i = i + 1;
    }

    // Memories of active data segments.
    let mut i: usize = 0;
    while i < facts.data_memories.len()
        invariant
            i <= facts.data_memories@.len(),
            forall|m: u32|
                #[trigger] used_memories@.contains(m) <==> after_exports_m.contains(m) || exists|a: int|
                    0 <= a < i && facts.data_memories@[a] == m,
        decreases facts.data_memories@.len() - i,
    {
        used_memories.insert(facts.data_memories[i]);
        proof {
            assert forall|m: u32| #[trigger] used_memories@.contains(m) <==> after_exports_m.contains(m)
                || exists|a: int| 0 <= a < i + 1 && facts.data_memories@[a] == m by {
                if facts.data_memories@[i as int] == m {
                    assert(used_memories@.contains(m));
                }
            }
        }
        i = i + 1;
    }
    let ghost before_t = used_tables@;
    let ghost before_m = used_memories@;
    let ghost before_g = used_globals@;

    // Everything referenced by reachable bodies.
    let mut b: usize = 0;
    while b < facts.bodies.len()
        invariant
            b <= facts.bodies@.len(),
            forall|t: u32|
                #[trigger] used_tables@.contains(t) <==> before_t.contains(t) || bodies_use_table(
                    facts.bodies@.take(b as int),
                    t,
                ),
            forall|m: u32|
                #[trigger] used_memories@.contains(m) <==> before_m.contains(m) || bodies_use_memory(
                    facts.bodies@.take(b as int),
                    m,
                ),
            forall|g: u32|
                #[trigger] used_globals@.contains(g) <==> before_g.contains(g) || bodies_use_global(
                    facts.bodies@.take(b as int),
                    g,
                ),
        decreases facts.bodies@.len() - b,
    {
        let ghost pt = used_tables@;
        let ghost pm = used_memories@;
        let ghost pg = used_globals@;
        let ghost cur_ops = scanned_ops(facts.bodies@[b as int]);
        match &facts.bodies[b].ops {
            Some(ops) => {
                add_op_uses(ops, &mut used_tables, &mut used_memories, &mut used_globals);
                assert(ops@ == cur_ops);
            },
            None => {
                assert(cur_ops =~= Seq::<Op>::empty());
            },
        }
        assert(forall|t: u32| #[trigger] used_tables@.contains(t) <==> pt.contains(t) || exists|o: int|
            0 <= o < cur_ops.len() && op_uses_table(cur_ops[o], t));
        assert(forall|m: u32| #[trigger] used_memories@.contains(m) <==> pm.contains(m) || exists|o: int|
            0 <= o < cur_ops.len() && op_uses_memory(cur_ops[o], m));
        assert(forall|g: u32| #[trigger] used_globals@.contains(g) <==> pg.contains(g) || exists|o: int|
            0 <= o < cur_ops.len() && op_uses_global(cur_ops[o], g));
        proof {
            let all = facts.bodies@;
            let cur = all.take(b as int);
            let next = all.take(b + 1);
            assert forall|t: u32| #[trigger] used_tables@.contains(t) <==> before_t.contains(t)
                || bodies_use_table(next, t) by {
                if bodies_use_table(next, t) {
                    let (x, o) = choose|x: int, o: int|
                        0 <= x < next.len() && 0 <= o < scanned_ops(next[x]).len() && #[trigger] op_uses_table(
                            scanned_ops(next[x])[o],
                            t,
                        );
                    if x < b {
                        assert(cur[x] == next[x]);
                        assert(bodies_use_table(cur, t));
                    }
                }
                if bodies_use_table(cur, t) {
                    let (x, o) = choose|x: int, o: int|
                        0 <= x < cur.len() && 0 <= o < scanned_ops(cur[x]).len() && #[trigger] op_uses_table(
                            scanned_ops(cur[x])[o],
                            t,
                        );
                    assert(next[x] == cur[x]);
                    assert(bodies_use_table(next, t));
                }
                if exists|o: int| 0 <= o < scanned_ops(all[b as int]).len() && op_uses_table(scanned_ops(all[b as int])[o], t) {
                    let o = choose|o: int| 0 <= o < scanned_ops(all[b as int]).len() && op_uses_table(scanned_ops(all[b as int])[o], t);
                    assert(next[b as int] == all[b as int]);
                    assert(op_uses_table(scanned_ops(next[b as int])[o], t));
                }
            }
            assert forall|m: u32| #[trigger] used_memories@.contains(m) <==> before_m.contains(m)
                || bodies_use_memory(next, m) by {
                if bodies_use_memory(next, m) {
                    let (x, o) = choose|x: int, o: int|
                        0 <= x < next.len() && 0 <= o < scanned_ops(next[x]).len() && #[trigger] op_uses_memory(
                            scanned_ops(next[x])[o],
                            m,
                        );
                    if x < b {
                        assert(cur[x] == next[x]);
                        assert(bodies_use_memory(cur, m));
                    }
                }
                if bodies_use_memory(cur, m) {
                    let (x, o) = choose|x: int, o: int|
                        0 <= x < cur.len() && 0 <= o < scanned_ops(cur[x]).len() && #[trigger] op_uses_memory(
                            scanned_ops(cur[x])[o],
                            m,
                        );
                    assert(next[x] == cur[x]);
                    assert(bodies_use_memory(next, m));
                }
                if exists|o: int| 0 <= o < scanned_ops(all[b as int]).len() && op_uses_memory(scanned_ops(all[b as int])[o], m) {
                    let o = choose|o: int| 0 <= o < scanned_ops(all[b as int]).len() && op_uses_memory(scanned_ops(all[b as int])[o], m);
                    assert(next[b as int] == all[b as int]);
                    assert(op_uses_memory(scanned_ops(next[b as int])[o], m));
                }
            }
            assert forall|g: u32| #[trigger] used_globals@.contains(g) <==> before_g.contains(g)
                || bodies_use_global(next, g) by {
                if bodies_use_global(next, g) {
                    let (x, o) = choose|x: int, o: int|
                        0 <= x < next.len() && 0 <= o < scanned_ops(next[x]).len() && #[trigger] op_uses_global(
                            scanned_ops(next[x])[o],
                            g,
                        );
                    if x < b {
                        assert(cur[x] == next[x]);
                        assert(bodies_use_global(cur, g));
                    }
                }
                if bodies_use_global(cur, g) {
                    let (x, o) = choose|x: int, o: int|
                        0 <= x < cur.len() && 0 <= o < scanned_ops(cur[x]).len() && #[trigger] op_uses_global(
                            scanned_ops(cur[x])[o],
                            g,
                        );
                    assert(next[x] == cur[x]);
                    assert(bodies_use_global(next, g));
                }
                if exists|o: int| 0 <= o < scanned_ops(all[b as int]).len() && op_uses_global(scanned_ops(all[b as int])[o], g) {
                    let o = choose|o: int| 0 <= o < scanned_ops(all[b as int]).len() && op_uses_global(scanned_ops(all[b as int])[o], g);
                    assert(next[b as int] == all[b as int]);
                    assert(op_uses_global(scanned_ops(next[b as int])[o], g));
                }
            }
        }
        b = b + 1;
    }
    proof {
        assert(facts.bodies@.take(facts.bodies@.len() as int) =~= facts.bodies@);
        assert forall|t: u32| #[trigger] used_tables@.contains(t) <==> table_is_used(facts, t) by {
            if facts.elem_tables@.contains(t) {
                let a = choose|a: int| 0 <= a < facts.elem_tables@.len() && facts.elem_tables@[a] == t;
            }
        }
        assert forall|m: u32| #[trigger] used_memories@.contains(m) <==> memory_is_used(facts, m) by {
            if facts.data_memories@.contains(m) {
                let a = choose|a: int| 0 <= a < facts.data_memories@.len() && facts.data_memories@[a] == m;
            }
        }
        assert forall|g: u32| #[trigger] used_globals@.contains(g) <==> global_is_used(facts, g) by {
        }
    }
    UsageInfo {
        used_tables,
        used_memories,
        used_globals,
        counts: ModuleCounts {
            num_functions: facts.func_imports + facts.defined_functions,
            num_tables: facts.table_imports + facts.defined_tables,
            num_memories: facts.memory_imports + facts.defined_memories,
            num_globals: facts.global_imports + facts.global_inits.len() as u32,
            num_func_imports: facts.func_imports,
            num_table_imports: facts.table_imports,
            num_memory_imports: facts.memory_imports,
            num_global_imports: facts.global_imports,
        },
    }
}

} // verus!
