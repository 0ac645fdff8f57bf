use std::borrow::Cow;
use std::collections::HashSet;
use vela_core::callgraph::CallGraph;
use vela_core::dce::{find_reachable, find_roots};
use vela_core::dfe::find_duplicates;
use vela_core::ops::Op;
use vela_core::rume::analyze_usage;
use vela_core::{optimize_module, plan_module, OptimizeConfig};
use wasm_encoder::{
    CodeSection, ConstExpr, ElementSection, Elements, EntityType, ExportKind, ExportSection,
    Function, FunctionSection, GlobalSection, ImportSection, Instruction, MemorySection,
    MemoryType, Module, RefType, StartSection, TableSection, TableType, TypeSection, ValType,
};

/// func 0: exported "entry", calls func 1; func 1: calls func 2; func 2: leaf;
/// func 3: dead, calls func 2.
fn build_basic_module() -> Vec<u8> {
    let mut module = Module::new();

    let mut types = TypeSection::new();
    types.ty().function(vec![], vec![]);
    module.section(&types);

    let mut functions = FunctionSection::new();
    functions.function(0);
    functions.function(0);
    functions.function(0);
    functions.function(0);
    module.section(&functions);

    let mut exports = ExportSection::new();
    exports.export("entry", ExportKind::Func, 0);
    module.section(&exports);

    let mut codes = CodeSection::new();

    let mut f0 = Function::new(vec![]);
    f0.instruction(&Instruction::Call(1));
    f0.instruction(&Instruction::End);
    codes.function(&f0);

    let mut f1 = Function::new(vec![]);
    f1.instruction(&Instruction::Call(2));
    f1.instruction(&Instruction::End);
    codes.function(&f1);

    let mut f2 = Function::new(vec![]);
    f2.instruction(&Instruction::End);
    codes.function(&f2);

    let mut f3 = Function::new(vec![]);
    f3.instruction(&Instruction::Call(2));
    f3.instruction(&Instruction::End);
    codes.function(&f3);

    module.section(&codes);
    module.finish()
}

/// func 0: export "entry", calls func 1 and func 3; func 1: () -> i32, returns
/// 42; func 2: dead leaf; func 3: () -> i32, returns 42 (same as func 1).
fn build_module_with_duplicates() -> Vec<u8> {
    let mut module = Module::new();

    let mut types = TypeSection::new();
    types.ty().function(vec![], vec![]);
    types.ty().function(vec![], vec![ValType::I32]);
    module.section(&types);

    let mut functions = FunctionSection::new();
    functions.function(0);
    functions.function(1);
    functions.function(0);
    functions.function(1);
    module.section(&functions);

    let mut exports = ExportSection::new();
    exports.export("entry", ExportKind::Func, 0);
    module.section(&exports);

    let mut codes = CodeSection::new();

    let mut f0 = Function::new(vec![]);
    f0.instruction(&Instruction::Call(1));
    f0.instruction(&Instruction::Drop);
    f0.instruction(&Instruction::Call(3));
    f0.instruction(&Instruction::Drop);
    f0.instruction(&Instruction::End);
    codes.function(&f0);

    let mut f1 = Function::new(vec![]);
    f1.instruction(&Instruction::I32Const(42));
    f1.instruction(&Instruction::End);
    codes.function(&f1);

    let mut f2 = Function::new(vec![]);
    f2.instruction(&Instruction::End);
    codes.function(&f2);

    let mut f3 = Function::new(vec![]);
    f3.instruction(&Instruction::I32Const(42));
    f3.instruction(&Instruction::End);
    codes.function(&f3);

    module.section(&codes);
    module.finish()
}

/// func 0: import "env"."log"; func 1: calls func 0; func 2: leaf.
fn build_module_with_imports() -> Vec<u8> {
    let mut module = Module::new();

    let mut types = TypeSection::new();
    types.ty().function(vec![], vec![]);
    module.section(&types);

    let mut imports = ImportSection::new();
    imports.import("env", "log", EntityType::Function(0));
    module.section(&imports);

    let mut functions = FunctionSection::new();
    functions.function(0);
    functions.function(0);
    module.section(&functions);

    let mut codes = CodeSection::new();

    let mut f1 = Function::new(vec![]);
    f1.instruction(&Instruction::Call(0));
    f1.instruction(&Instruction::End);
    codes.function(&f1);

    let mut f2 = Function::new(vec![]);
    f2.instruction(&Instruction::End);
    codes.function(&f2);

    module.section(&codes);
    module.finish()
}

/// func 0: start function; func 1: placed in a table by an element segment;
/// func 2: dead leaf.
fn build_start_and_elem_module() -> Vec<u8> {
    let mut module = Module::new();

    let mut types = TypeSection::new();
    types.ty().function(vec![], vec![]);
    module.section(&types);

    let mut functions = FunctionSection::new();
    functions.function(0);
    functions.function(0);
    functions.function(0);
    module.section(&functions);

    let mut tables = TableSection::new();
    tables.table(TableType {
        element_type: RefType::FUNCREF,
        minimum: 10,
        maximum: None,
        table64: false,
        shared: false,
    });
    module.section(&tables);

    module.section(&StartSection { function_index: 0 });

    let mut elements = ElementSection::new();
    let offset = ConstExpr::i32_const(0);
    elements.active(Some(0), &offset, Elements::Functions(Cow::Borrowed(&[1u32])));
    module.section(&elements);

    let mut codes = CodeSection::new();

    let mut f0 = Function::new(vec![]);
    f0.instruction(&Instruction::End);
    codes.function(&f0);

    let mut f1 = Function::new(vec![]);
    f1.instruction(&Instruction::End);
    codes.function(&f1);

    let mut f2 = Function::new(vec![]);
    f2.instruction(&Instruction::End);
    codes.function(&f2);

    module.section(&codes);
    module.finish()
}

fn i32_global(mutable: bool) -> wasm_encoder::GlobalType {
    wasm_encoder::GlobalType { val_type: ValType::I32, mutable, shared: false }
}

#[test]
fn builds_call_graph_from_module() {
    let wasm = build_basic_module();
    let cg = CallGraph::from_module(&wasm).expect("should parse");

    assert_eq!(cg.num_imports, 0);
    assert_eq!(cg.num_functions, 4);

    assert!(cg.edges[&0].contains(&1));
    assert_eq!(cg.edges[&0].len(), 1);

    assert!(cg.edges[&1].contains(&2));
    assert_eq!(cg.edges[&1].len(), 1);

    assert!(cg.edges[&2].is_empty());

    assert!(cg.edges[&3].contains(&2));
    assert_eq!(cg.edges[&3].len(), 1);
}

#[test]
fn handles_imports() {
    let wasm = build_module_with_imports();
    let cg = CallGraph::from_module(&wasm).expect("should parse");

    assert_eq!(cg.num_imports, 1);
    assert_eq!(cg.num_functions, 3);

    assert!(cg.edges[&1].contains(&0));
    assert_eq!(cg.edges[&1].len(), 1);

    assert!(cg.edges[&2].is_empty());
}

#[test]
fn finds_exported_roots() {
    let wasm = build_basic_module();
    let graph = CallGraph::from_module(&wasm).expect("should parse");
    let roots = find_roots(&wasm, &graph).expect("should find roots");

    assert!(roots.contains(&0), "exported func 0 should be a root");
    assert!(!roots.contains(&3), "dead func 3 should not be a root");
    assert!(!roots.contains(&1), "func 1 should not be a root");
    assert!(!roots.contains(&2), "func 2 should not be a root");
}

#[test]
fn finds_reachable_functions() {
    let wasm = build_basic_module();
    let graph = CallGraph::from_module(&wasm).expect("should parse");
    let roots = find_roots(&wasm, &graph).expect("should find roots");
    let reachable = find_reachable(&roots, &graph);

    assert!(reachable.contains(&0), "func 0 should be reachable");
    assert!(reachable.contains(&1), "func 1 should be reachable");
    assert!(reachable.contains(&2), "func 2 should be reachable");
    assert!(!reachable.contains(&3), "func 3 should not be reachable");
}

#[test]
fn start_and_elem_are_roots() {
    let wasm = build_start_and_elem_module();
    let graph = CallGraph::from_module(&wasm).expect("should parse");
    let roots = find_roots(&wasm, &graph).expect("should find roots");

    assert!(roots.contains(&0), "start func 0 should be a root");
    assert!(roots.contains(&1), "elem-referenced func 1 should be a root");
    assert!(!roots.contains(&2), "dead func 2 should not be a root");
}

#[test]
fn imported_functions_are_roots() {
    let wasm = build_module_with_imports();
    let graph = CallGraph::from_module(&wasm).expect("should parse");
    let roots = find_roots(&wasm, &graph).expect("should find roots");
    assert_eq!(roots, HashSet::from([0u32]));
    let reachable = find_reachable(&roots, &graph);
    assert_eq!(reachable, HashSet::from([0u32]));
}

#[test]
fn reachable_set_holds_roots_and_is_closed_under_calls() {
    let wasm = build_basic_module();
    let graph = CallGraph::from_module(&wasm).expect("should parse");
    let roots = HashSet::from([3u32]);
    let reachable = find_reachable(&roots, &graph);
    assert_eq!(reachable, HashSet::from([3u32, 2]));
    let empty = find_reachable(&HashSet::new(), &graph);
    assert!(empty.is_empty());
}

#[test]
fn reachability_from_joined_roots_and_from_the_reached_set() {
    let wasm = build_basic_module();
    let graph = CallGraph::from_module(&wasm).expect("should parse");
    let from_zero = find_reachable(&HashSet::from([0u32]), &graph);
    let from_three = find_reachable(&HashSet::from([3u32]), &graph);
    let from_both = find_reachable(&HashSet::from([0u32, 3]), &graph);
    let joined: HashSet<u32> = from_zero.union(&from_three).copied().collect();
    assert_eq!(from_both, joined);
    assert_eq!(from_both, HashSet::from([0u32, 1, 2, 3]));
    let again = find_reachable(&from_zero, &graph);
    assert_eq!(again, from_zero);
}

#[test]
fn detects_duplicate_functions() {
    let wasm = build_module_with_duplicates();
    let graph = CallGraph::from_module(&wasm).unwrap();
    let roots = find_roots(&wasm, &graph).unwrap();
    let reachable = find_reachable(&roots, &graph);

    let result = find_duplicates(&wasm, &reachable).unwrap();

    assert_eq!(result.redirects.len(), 1);
    assert_eq!(result.redirects[&3], 1);
    assert!(result.removals.contains(&3));

    assert!(!result.redirects.contains_key(&2));
}

#[test]
fn no_duplicates_when_types_differ() {
    let mut module = Module::new();

    let mut types = TypeSection::new();
    types.ty().function(vec![], vec![]);
    types.ty().function(vec![], vec![ValType::I32]);
    module.section(&types);

    let mut functions = FunctionSection::new();
    functions.function(0);
    functions.function(1);
    functions.function(0);
    module.section(&functions);

    let mut exports = ExportSection::new();
    exports.export("entry", ExportKind::Func, 0);
    module.section(&exports);

    let mut codes = CodeSection::new();

    let mut f0 = Function::new(vec![]);
    f0.instruction(&Instruction::Call(1));
    f0.instruction(&Instruction::Drop);
    f0.instruction(&Instruction::Call(2));
    f0.instruction(&Instruction::End);
    codes.function(&f0);

    let mut f1 = Function::new(vec![]);
    f1.instruction(&Instruction::I32Const(42));
    f1.instruction(&Instruction::End);
    codes.function(&f1);

    let mut f2 = Function::new(vec![]);
    f2.instruction(&Instruction::I32Const(42));
    f2.instruction(&Instruction::End);
    codes.function(&f2);

    module.section(&codes);
    let wasm = module.finish();

    let graph = CallGraph::from_module(&wasm).unwrap();
    let roots = find_roots(&wasm, &graph).unwrap();
    let reachable = find_reachable(&roots, &graph);

    let result = find_duplicates(&wasm, &reachable).unwrap();
    assert!(result.redirects.is_empty(), "different types should not be duplicates");
}

#[test]
fn duplicates_go_to_the_first_and_unreachable_ones_are_ignored() {
    let wasm = build_module_with_duplicates();
    // func 3 unreachable: nothing is a duplicate
    let result = find_duplicates(&wasm, &HashSet::from([0u32, 1])).unwrap();
    assert!(result.redirects.is_empty());
    assert!(result.removals.is_empty());
    // both reachable: the later one goes to the earlier one, which stays
    let result = find_duplicates(&wasm, &HashSet::from([0u32, 1, 2, 3])).unwrap();
    assert_eq!(result.redirects.len(), 1);
    assert_eq!(result.redirects[&3], 1);
    assert_eq!(result.removals, HashSet::from([3u32]));
    assert!(!result.removals.contains(&1));
}

#[test]
fn detects_used_global() {
    let mut module = Module::new();

    let mut types = TypeSection::new();
    types.ty().function(vec![], vec![ValType::I32]);
    module.section(&types);

    let mut functions = FunctionSection::new();
    functions.function(0);
    module.section(&functions);

    let mut globals = GlobalSection::new();
    globals.global(i32_global(true), &ConstExpr::i32_const(0));
    globals.global(i32_global(true), &ConstExpr::i32_const(0));
    module.section(&globals);

    let mut exports = ExportSection::new();
    exports.export("get", ExportKind::Func, 0);
    module.section(&exports);

    let mut codes = CodeSection::new();
    let mut f0 = Function::new(vec![]);
    f0.instruction(&Instruction::GlobalGet(0));
    f0.instruction(&Instruction::End);
    codes.function(&f0);
    module.section(&codes);

    let wasm = module.finish();

    let reachable = HashSet::from([0]);
    let info = analyze_usage(&wasm, &reachable).unwrap();

    assert!(info.used_globals.contains(&0), "global 0 should be used");
    assert!(!info.used_globals.contains(&1), "global 1 should be unused");
    assert_eq!(info.counts.num_globals, 2);
    assert_eq!(info.counts.num_functions, 1);
}

#[test]
fn exported_elements_are_used() {
    let mut module = Module::new();

    let mut types = TypeSection::new();
    types.ty().function(vec![], vec![]);
    module.section(&types);

    let mut functions = FunctionSection::new();
    functions.function(0);
    module.section(&functions);

    let mut tables = TableSection::new();
    tables.table(TableType {
        element_type: RefType::FUNCREF,
        minimum: 1,
        maximum: None,
        table64: false,
        shared: false,
    });
    module.section(&tables);

    let mut memories = MemorySection::new();
    memories.memory(MemoryType {
        minimum: 1,
        maximum: None,
        memory64: false,
        shared: false,
        page_size_log2: None,
    });
    module.section(&memories);

    let mut globals = GlobalSection::new();
    globals.global(i32_global(false), &ConstExpr::i32_const(42));
    module.section(&globals);

    let mut exports = ExportSection::new();
    exports.export("run", ExportKind::Func, 0);
    exports.export("g", ExportKind::Global, 0);
    exports.export("mem", ExportKind::Memory, 0);
    module.section(&exports);

    let mut codes = CodeSection::new();
    let mut f0 = Function::new(vec![]);
    f0.instruction(&Instruction::End);
    codes.function(&f0);
    module.section(&codes);

    let wasm = module.finish();

    let reachable = HashSet::from([0]);
    let info = analyze_usage(&wasm, &reachable).unwrap();

    assert!(info.used_globals.contains(&0), "exported global should be used");
    assert!(info.used_memories.contains(&0), "exported memory should be used");
    assert!(!info.used_tables.contains(&0), "unexported/unreferenced table should be unused");
    assert_eq!(info.counts.num_tables, 1);
    assert_eq!(info.counts.num_memories, 1);
}

#[test]
fn dead_function_references_ignored() {
    let mut module = Module::new();

    let mut types = TypeSection::new();
    types.ty().function(vec![], vec![]);
    types.ty().function(vec![], vec![ValType::I32]);
    module.section(&types);

    let mut functions = FunctionSection::new();
    functions.function(0);
    functions.function(1);
    module.section(&functions);

    let mut globals = GlobalSection::new();
    globals.global(i32_global(true), &ConstExpr::i32_const(0));
    module.section(&globals);

    let mut exports = ExportSection::new();
    exports.export("run", ExportKind::Func, 0);
    module.section(&exports);

    let mut codes = CodeSection::new();
    let mut f0 = Function::new(vec![]);
    f0.instruction(&Instruction::End);
    codes.function(&f0);

    let mut f1 = Function::new(vec![]);
    f1.instruction(&Instruction::GlobalGet(0));
    f1.instruction(&Instruction::End);
    codes.function(&f1);

    module.section(&codes);
    let wasm = module.finish();

    let reachable = HashSet::from([0]);
    let info = analyze_usage(&wasm, &reachable).unwrap();

    assert!(!info.used_globals.contains(&0), "global only used by dead func should be unused");
}

#[test]
fn elem_segment_uses_its_table() {
    let wasm = build_start_and_elem_module();
    let info = analyze_usage(&wasm, &HashSet::from([0u32])).unwrap();
    assert!(info.used_tables.contains(&0));
    assert_eq!(info.counts.num_functions, 3);
}

#[test]
fn optimized_module_keeps_no_call_to_a_removed_function() {
    let wasm = build_module_with_duplicates();
    let out = optimize_module(&wasm, &OptimizeConfig::default()).unwrap();
    wasmparser::Validator::new().validate_all(&out).expect("should be valid");
    let graph = CallGraph::from_module(&out).unwrap();
    // func 2 was dead and func 3 a duplicate of func 1: two functions stay
    assert_eq!(graph.num_functions, 2);
    assert_eq!(graph.edges[&0], HashSet::from([1u32]));
}

#[test]
fn optimized_module_keeps_roots() {
    let wasm = build_start_and_elem_module();
    let dce_only = OptimizeConfig { dce: true, dfe: false, rume: false };
    let out = optimize_module(&wasm, &dce_only).unwrap();
    wasmparser::Validator::new().validate_all(&out).expect("should be valid");
    let graph = CallGraph::from_module(&out).unwrap();
    assert_eq!(graph.num_functions, 2);
    let roots = find_roots(&out, &graph).unwrap();
    assert_eq!(roots, HashSet::from([0u32, 1]));
    // with duplicate elimination the two empty bodies become one function,
    // which both the start section and the table refer to
    let out = optimize_module(&wasm, &OptimizeConfig::default()).unwrap();
    wasmparser::Validator::new().validate_all(&out).expect("should be valid");
    let graph = CallGraph::from_module(&out).unwrap();
    assert_eq!(graph.num_functions, 1);
    assert_eq!(find_roots(&out, &graph).unwrap(), HashSet::from([0u32]));
}

#[test]
fn exported_memory_survives_optimization() {
    let mut module = Module::new();
    let mut types = TypeSection::new();
    types.ty().function(vec![], vec![]);
    module.section(&types);
    let mut functions = FunctionSection::new();
    functions.function(0);
    module.section(&functions);
    let mut memories = MemorySection::new();
    for _ in 0..2 {
        memories.memory(MemoryType {
            minimum: 1,
            maximum: None,
            memory64: false,
            shared: false,
            page_size_log2: None,
        });
    }
    module.section(&memories);
    let mut exports = ExportSection::new();
    exports.export("run", ExportKind::Func, 0);
    exports.export("mem", ExportKind::Memory, 1);
    module.section(&exports);
    let mut codes = CodeSection::new();
    let mut f0 = Function::new(vec![]);
    f0.instruction(&Instruction::End);
    codes.function(&f0);
    module.section(&codes);
    let wasm = module.finish();

    let out = optimize_module(&wasm, &OptimizeConfig::default()).unwrap();
    let info = analyze_usage(&out, &HashSet::from([0u32])).unwrap();
    assert_eq!(info.counts.num_memories, 1);
    assert!(info.used_memories.contains(&0));
}

#[test]
fn plan_of_module_with_duplicates() {
    let wasm = build_module_with_duplicates();
    let plan = plan_module(&wasm, &OptimizeConfig::default()).unwrap();
    assert_eq!(plan.roots, HashSet::from([0u32]));
    assert_eq!(plan.reachable, HashSet::from([0u32, 1, 3]));
    assert_eq!(plan.removals.functions, HashSet::from([2u32, 3]));
    assert_eq!(plan.redirects.len(), 1);
    assert_eq!(plan.redirects[&3], 1);
    assert!(plan.duplicates.is_some());

    let dce_only = OptimizeConfig { dce: true, dfe: false, rume: false };
    let plan = plan_module(&wasm, &dce_only).unwrap();
    assert_eq!(plan.removals.functions, HashSet::from([2u32]));
    assert!(plan.redirects.is_empty());
    assert!(plan.duplicates.is_none());

    let dfe_only = OptimizeConfig { dce: false, dfe: true, rume: false };
    let plan = plan_module(&wasm, &dfe_only).unwrap();
    assert_eq!(plan.removals.functions, HashSet::from([3u32]));
}

#[test]
fn plan_removes_unused_elements_only_with_rume() {
    let mut module = Module::new();
    let mut types = TypeSection::new();
    types.ty().function(vec![], vec![]);
    module.section(&types);
    let mut functions = FunctionSection::new();
    functions.function(0);
    module.section(&functions);
    let mut globals = GlobalSection::new();
    globals.global(i32_global(false), &ConstExpr::i32_const(1));
    globals.global(i32_global(false), &ConstExpr::i32_const(2));
    module.section(&globals);
    let mut exports = ExportSection::new();
    exports.export("run", ExportKind::Func, 0);
    exports.export("g", ExportKind::Global, 1);
    module.section(&exports);
    let mut codes = CodeSection::new();
    let mut f0 = Function::new(vec![]);
    f0.instruction(&Instruction::End);
    codes.function(&f0);
    module.section(&codes);
    let wasm = module.finish();

    let plan = plan_module(&wasm, &OptimizeConfig::default()).unwrap();
    assert_eq!(plan.removals.globals, HashSet::from([0u32]));
    let no_rume = OptimizeConfig { dce: true, dfe: true, rume: false };
    let plan = plan_module(&wasm, &no_rume).unwrap();
    assert!(plan.removals.is_empty());
}

#[test]
fn every_duplicate_goes_to_the_first_copy() {
    // funcs 1, 2 and 3 have the same type and body; func 0 calls all three
    let mut module = Module::new();
    let mut types = TypeSection::new();
    types.ty().function(vec![], vec![]);
    module.section(&types);
    let mut functions = FunctionSection::new();
    for _ in 0..4 {
        functions.function(0);
    }
    module.section(&functions);
    let mut exports = ExportSection::new();
    exports.export("entry", ExportKind::Func, 0);
    module.section(&exports);
    let mut codes = CodeSection::new();
    let mut f0 = Function::new(vec![]);
    f0.instruction(&Instruction::Call(1));
    f0.instruction(&Instruction::Call(2));
    f0.instruction(&Instruction::Call(3));
    f0.instruction(&Instruction::End);
    codes.function(&f0);
    for _ in 0..3 {
        let mut f = Function::new(vec![]);
        f.instruction(&Instruction::Nop);
        f.instruction(&Instruction::End);
        codes.function(&f);
    }
    module.section(&codes);
    let wasm = module.finish();

    let graph = CallGraph::from_module(&wasm).unwrap();
    let roots = find_roots(&wasm, &graph).unwrap();
    let reachable = find_reachable(&roots, &graph);
    let result = find_duplicates(&wasm, &reachable).unwrap();
    assert_eq!(result.redirects.len(), 2);
    assert_eq!(result.redirects[&2], 1);
    assert_eq!(result.redirects[&3], 1);
    assert_eq!(result.removals, HashSet::from([2u32, 3]));

    let out = optimize_module(&wasm, &OptimizeConfig::default()).unwrap();
    wasmparser::Validator::new().validate_all(&out).expect("should be valid");
    let graph = CallGraph::from_module(&out).unwrap();
    assert_eq!(graph.num_functions, 2);
    assert_eq!(graph.edges[&0], HashSet::from([1u32]));
}

#[test]
fn module_facts_are_read_in_one_pass() {
    let wasm = build_module_with_duplicates();
    let facts = vela_core::facts::read_module(&wasm).unwrap();
    assert_eq!(facts.declared, Some(4));
    assert_eq!(facts.types, vec![0, 1, 0, 1]);
    assert_eq!(facts.bodies.len(), 4);
    assert_eq!(facts.body_ops.len(), 4);
    assert_eq!(facts.bodies[1], facts.bodies[3]);
    assert_ne!(facts.bodies[0], facts.bodies[1]);
    assert_eq!(facts.usage.func_imports, 0);
    assert_eq!(facts.roots.exports, vec![(vela_core::ops::ExternKind::Func, 0)]);
    assert!(facts.usage.bodies.is_empty());
}

#[test]
fn reachable_bodies_keep_only_reachable_operators() {
    let ops = vec![vec![Op::Call(1)], vec![Op::GlobalGet(0)], vec![]];
    let bodies = vela_core::facts::reachable_bodies(2, ops, &HashSet::from([2u32, 4]));
    assert_eq!(bodies.len(), 3);
    assert_eq!(bodies[0].function, 2);
    assert_eq!(bodies[0].ops, Some(vec![Op::Call(1)]));
    assert_eq!(bodies[1].function, 3);
    assert_eq!(bodies[1].ops, None);
    assert_eq!(bodies[2].function, 4);
    assert_eq!(bodies[2].ops, Some(vec![]));
}

#[test]
fn global_read_by_a_data_offset_is_used() {
    let mut module = Module::new();
    let mut types = TypeSection::new();
    types.ty().function(vec![], vec![]);
    module.section(&types);
    let mut functions = FunctionSection::new();
    functions.function(0);
    module.section(&functions);
    let mut memories = MemorySection::new();
    memories.memory(MemoryType { minimum: 1, maximum: None, memory64: false, shared: false, page_size_log2: None });
    module.section(&memories);
    let mut globals = GlobalSection::new();
    globals.global(i32_global(false), &ConstExpr::i32_const(8));
    globals.global(i32_global(false), &ConstExpr::i32_const(9));
    module.section(&globals);
    let mut exports = ExportSection::new();
    exports.export("run", ExportKind::Func, 0);
    module.section(&exports);
    let mut codes = CodeSection::new();
    let mut f0 = Function::new(vec![]);
    f0.instruction(&Instruction::End);
    codes.function(&f0);
    module.section(&codes);
    let mut data = wasm_encoder::DataSection::new();
    data.active(0, &ConstExpr::global_get(0), vec![1u8, 2, 3]);
    module.section(&data);
    let wasm = module.finish();
    wasmparser::Validator::new().validate_all(&wasm).expect("input should be valid");

    let info = analyze_usage(&wasm, &HashSet::from([0u32])).unwrap();
    assert!(info.used_globals.contains(&0));
    assert!(!info.used_globals.contains(&1));
    let out = optimize_module(&wasm, &OptimizeConfig::default()).unwrap();
    wasmparser::Validator::new().validate_all(&out).expect("output should be valid");
}

#[test]
fn without_dce_unreachable_bodies_keep_their_globals() {
    // func 1 is unreachable but stays when dead code elimination is off
    let mut module = Module::new();
    let mut types = TypeSection::new();
    types.ty().function(vec![], vec![]);
    types.ty().function(vec![], vec![ValType::I32]);
    module.section(&types);
    let mut functions = FunctionSection::new();
    functions.function(0);
    functions.function(1);
    module.section(&functions);
    let mut globals = GlobalSection::new();
    globals.global(i32_global(false), &ConstExpr::i32_const(5));
    module.section(&globals);
    let mut exports = ExportSection::new();
    exports.export("run", ExportKind::Func, 0);
    module.section(&exports);
    let mut codes = CodeSection::new();
    let mut f0 = Function::new(vec![]);
    f0.instruction(&Instruction::End);
    codes.function(&f0);
    let mut f1 = Function::new(vec![]);
    f1.instruction(&Instruction::GlobalGet(0));
    f1.instruction(&Instruction::End);
    codes.function(&f1);
    module.section(&codes);
    let wasm = module.finish();

    let no_dce = OptimizeConfig { dce: false, dfe: true, rume: true };
    let plan = plan_module(&wasm, &no_dce).unwrap();
    assert!(plan.removals.globals.is_empty());
    let out = optimize_module(&wasm, &no_dce).unwrap();
    wasmparser::Validator::new().validate_all(&out).expect("output should be valid");
    let plan = plan_module(&wasm, &OptimizeConfig::default()).unwrap();
    assert_eq!(plan.removals.globals, HashSet::from([0u32]));
}
