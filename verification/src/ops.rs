use vstd::prelude::*;

verus! {

/// The operators of a function body or constant expression that refer to a
/// function, table, memory or global index; every other operator is `Other`.
#[derive(Clone, Copy, PartialEq, Eq, Structural, Debug)]
pub enum Op {
    Call(u32),
    ReturnCall(u32),
    RefFunc(u32),
    GlobalGet(u32),
    GlobalSet(u32),
    TableGet(u32),
    TableSet(u32),
    TableGrow(u32),
    TableSize(u32),
    TableFill(u32),
    TableCopy { dst_table: u32, src_table: u32 },
    TableInit(u32),
    CallIndirect(u32),
    ReturnCallIndirect(u32),
    MemorySize(u32),
    MemoryGrow(u32),
    MemoryFill(u32),
    MemoryCopy { dst_mem: u32, src_mem: u32 },
    MemoryInit(u32),
    /// A load or store; its memory argument names what it operates on.
    MemoryAccess(AccessTarget),
    Other,
}

/// The kind of an import or export.
#[derive(Clone, Copy, PartialEq, Eq, Structural, Debug)]
pub enum ExternKind {
    Func,
    Table,
    Memory,
    Global,
    Tag,
    /// A function with an exact type.
    FuncExact,
}

/// The kind names a function (of any type form).
pub open spec fn is_function_kind(k: ExternKind) -> bool {
    k == ExternKind::Func || k == ExternKind::FuncExact
}

/// How many of the imports with kinds `kinds` are functions: the imported
/// functions, which come first in the function index space.
pub open spec fn function_import_count(kinds: Seq<ExternKind>) -> nat {
    kinds.filter(|k: ExternKind| is_function_kind(k)).len()
}

/// Counting function imports: none among no imports, and one more import
/// adds one exactly when it imports a function (of either type form).
pub proof fn law_function_imports_counted(kinds: Seq<ExternKind>, k: ExternKind)
    ensures
        function_import_count(Seq::<ExternKind>::empty()) == 0,
        function_import_count(kinds.push(k)) == function_import_count(kinds) + if k == ExternKind::Func
            || k == ExternKind::FuncExact {
            1int
        } else {
            0int
        },
{
    reveal(Seq::filter);
    kinds.lemma_filter_len_push(|k: ExternKind| is_function_kind(k), k);
}

pub fn function_kind(k: ExternKind) -> (r: bool)
    ensures
        r == is_function_kind(k),
{
    match k {
        ExternKind::Func => true,
        ExternKind::FuncExact => true,
        _ => false,
    }
}

/// What the memory argument of a load or store operates on.
#[derive(Clone, Copy, PartialEq, Eq, Structural, Debug)]
pub enum AccessTarget {
    /// The linear memory with this index.
    Memory(u32),
    /// The payload of a GC array whose type has this index.
    Array(u32),
}

/// The function index that `op` refers to, if any (`call`, `return_call`, `ref.func`).
pub open spec fn op_function(op: Op) -> Option<u32> {
    match op {
        Op::Call(f) => Some(f),
        Op::ReturnCall(f) => Some(f),
        Op::RefFunc(f) => Some(f),
        _ => None,
    }
}

/// `op` reads or writes global `g`.
pub open spec fn op_uses_global(op: Op, g: u32) -> bool {
    match op {
        Op::GlobalGet(i) => i == g,
        Op::GlobalSet(i) => i == g,
        _ => false,
    }
}

/// `op` refers to table `t`.
pub open spec fn op_uses_table(op: Op, t: u32) -> bool {
    match op {
        Op::TableGet(i) => i == t,
        Op::TableSet(i) => i == t,
        Op::TableGrow(i) => i == t,
        Op::TableSize(i) => i == t,
        Op::TableFill(i) => i == t,
        Op::TableCopy { dst_table, src_table } => dst_table == t || src_table == t,
        Op::TableInit(i) => i == t,
        Op::CallIndirect(i) => i == t,
        Op::ReturnCallIndirect(i) => i == t,
        _ => false,
    }
}

/// `op` refers to memory `m`.
pub open spec fn op_uses_memory(op: Op, m: u32) -> bool {
    match op {
        Op::MemorySize(i) => i == m,
        Op::MemoryGrow(i) => i == m,
        Op::MemoryFill(i) => i == m,
        Op::MemoryCopy { dst_mem, src_mem } => dst_mem == m || src_mem == m,
        Op::MemoryInit(i) => i == m,
        Op::MemoryAccess(AccessTarget::Memory(i)) => i == m,
        _ => false,
    }
}

/// The function index that `op` refers to, if any.
pub fn function_of(op: Op) -> (r: Option<u32>)
    ensures
        r == op_function(op),
{
    match op {
        Op::Call(f) => Some(f),
        Op::ReturnCall(f) => Some(f),
        Op::RefFunc(f) => Some(f),
        _ => None,
    }
}

/// The global index that `op` refers to, if any.
pub fn global_of(op: Op) -> (r: Option<u32>)
    ensures
        forall|g: u32| op_uses_global(op, g) <==> r == Some(g),
{
    match op {
        Op::GlobalGet(i) => Some(i),
        Op::GlobalSet(i) => Some(i),
        _ => None,
    }
}

/// The table indices that `op` refers to: none, one, or two.
pub fn tables_of(op: Op) -> (r: (Option<u32>, Option<u32>))
    ensures
        forall|t: u32| op_uses_table(op, t) <==> (r.0 == Some(t) || r.1 == Some(t)),
{
    match op {
        Op::TableGet(i) => (Some(i), None),
        Op::TableSet(i) => (Some(i), None),
        Op::TableGrow(i) => (Some(i), None),
        Op::TableSize(i) => (Some(i), None),
        Op::TableFill(i) => (Some(i), None),
        Op::TableCopy { dst_table, src_table } => (Some(dst_table), Some(src_table)),
        Op::TableInit(i) => (Some(i), None),
        Op::CallIndirect(i) => (Some(i), None),
        Op::ReturnCallIndirect(i) => (Some(i), None),
        _ => (None, None),
    }
}

/// The memory indices that `op` refers to: none, one, or two.
pub fn memories_of(op: Op) -> (r: (Option<u32>, Option<u32>))
    ensures
        forall|m: u32| op_uses_memory(op, m) <==> (r.0 == Some(m) || r.1 == Some(m)),
{
    match op {
        Op::MemorySize(i) => (Some(i), None),
        Op::MemoryGrow(i) => (Some(i), None),
        Op::MemoryFill(i) => (Some(i), None),
        Op::MemoryCopy { dst_mem, src_mem } => (Some(dst_mem), Some(src_mem)),
        Op::MemoryInit(i) => (Some(i), None),
        Op::MemoryAccess(AccessTarget::Memory(i)) => (Some(i), None),
        _ => (None, None),
    }
}

} // verus!
