use std::collections::{HashMap, HashSet};
use vela_core::callgraph::CallGraph;
use vela_core::renumber::{build_index_map, rebuild_module, ModuleRenumberer, Removals};
use vela_core::rume::ModuleCounts;
use wasm_encoder::{
    CodeSection, ConstExpr, ExportKind, ExportSection, Function, FunctionSection, GlobalSection,
    ImportSection, Instruction, Module, TypeSection, ValType,
};

fn counts(num_functions: u32, num_globals: u32, num_global_imports: u32) -> ModuleCounts {
    ModuleCounts {
        num_functions,
        num_tables: 0,
        num_memories: 0,
        num_globals,
        num_func_imports: 0,
        num_table_imports: 0,
        num_memory_imports: 0,
        num_global_imports,
    }
}

fn i32_global() -> wasm_encoder::GlobalType {
    wasm_encoder::GlobalType { val_type: ValType::I32, mutable: false, shared: false }
}

#[test]
fn rebuild_removes_dead_function() {
    // func 0 (exported "run", calls func 1), func 1 (leaf), func 2 (dead, bigger body)
    let mut module = Module::new();

    let mut types = TypeSection::new();
    types.ty().function(vec![], vec![]);
    module.section(&types);

    let mut functions = FunctionSection::new();
    functions.function(0);
    functions.function(0);
    functions.function(0);
    module.section(&functions);

    let mut exports = ExportSection::new();
    exports.export("run", ExportKind::Func, 0);
    module.section(&exports);

    let mut codes = CodeSection::new();

    let mut f0 = Function::new(vec![]);
    f0.instruction(&Instruction::Call(1));
    f0.instruction(&Instruction::End);
    codes.function(&f0);

    let mut f1 = Function::new(vec![]);
    f1.instruction(&Instruction::End);
    codes.function(&f1);

    let mut f2 = Function::new(vec![]);
    f2.instruction(&Instruction::I32Const(1));
    f2.instruction(&Instruction::I32Const(2));
    f2.instruction(&Instruction::I32Add);
    f2.instruction(&Instruction::Drop);
    f2.instruction(&Instruction::I32Const(3));
    f2.instruction(&Instruction::I32Const(4));
    f2.instruction(&Instruction::I32Mul);
    f2.instruction(&Instruction::Drop);
    f2.instruction(&Instruction::End);
    codes.function(&f2);

    module.section(&codes);
    let wasm = module.finish();

    let removals = Removals::functions_only(HashSet::from([2u32]));
    let index_map = build_index_map(3, &HashMap::new(), &removals.functions);
    let mut reencoder = ModuleRenumberer::function_only(index_map);
    let rebuilt = rebuild_module(&wasm, &mut reencoder, &removals, &counts(3, 0, 0))
        .expect("should succeed");

    wasmparser::Validator::new()
        .validate_all(&rebuilt)
        .expect("rebuilt module should be valid");

    let graph = CallGraph::from_module(&rebuilt).expect("should parse");
    assert_eq!(graph.num_functions, 2, "should have 2 functions after removal");

    assert!(
        rebuilt.len() < wasm.len(),
        "rebuilt ({}) should be smaller than original ({})",
        rebuilt.len(),
        wasm.len()
    );
}

#[test]
fn rebuild_with_redirect_and_removal() {
    // func 0: exported "main", calls func 3
    // func 1: returns i32 42
    // func 2: duplicate of func 1
    // func 3: calls func 2
    let mut module = Module::new();

    let mut types = TypeSection::new();
    types.ty().function(vec![], vec![ValType::I32]);
    types.ty().function(vec![], vec![]);
    module.section(&types);

    let mut functions = FunctionSection::new();
    functions.function(1);
    functions.function(0);
    functions.function(0);
    functions.function(1);
    module.section(&functions);

    let mut exports = ExportSection::new();
    exports.export("main", ExportKind::Func, 0);
    module.section(&exports);

    let mut codes = CodeSection::new();

    let mut f0 = Function::new(vec![]);
    f0.instruction(&Instruction::Call(3));
    f0.instruction(&Instruction::End);
    codes.function(&f0);

    let mut f1 = Function::new(vec![]);
    f1.instruction(&Instruction::I32Const(42));
    f1.instruction(&Instruction::End);
    codes.function(&f1);

    let mut f2 = Function::new(vec![]);
    f2.instruction(&Instruction::I32Const(42));
    f2.instruction(&Instruction::End);
    codes.function(&f2);

    let mut f3 = Function::new(vec![]);
    f3.instruction(&Instruction::Call(2));
    f3.instruction(&Instruction::Drop);
    f3.instruction(&Instruction::End);
    codes.function(&f3);

    module.section(&codes);
    let wasm = module.finish();

    let redirects = HashMap::from([(2u32, 1u32)]);
    let removals = Removals::functions_only(HashSet::from([2u32]));
    let index_map = build_index_map(4, &redirects, &removals.functions);
    let mut reencoder = ModuleRenumberer::function_only(index_map);
    let rebuilt = rebuild_module(&wasm, &mut reencoder, &removals, &counts(4, 0, 0))
        .expect("should succeed");

    wasmparser::Validator::new()
        .validate_all(&rebuilt)
        .expect("rebuilt module should be valid");

    let graph = CallGraph::from_module(&rebuilt).expect("should parse");
    assert_eq!(graph.num_functions, 3, "should have 3 functions after removal");

    assert!(
        graph.edges.get(&0).map_or(false, |c| c.contains(&2)),
        "func 0 should call func 2 (renumbered from func 3)"
    );

    assert!(
        graph.edges.get(&2).map_or(false, |c| c.contains(&1)),
        "func 2 (was func 3) should call func 1 (redirected from func 2)"
    );
}

#[test]
fn rebuild_removes_unused_global() {
    // global 0 used by func 0, global 1 unused
    let mut module = Module::new();

    let mut types = TypeSection::new();
    types.ty().function(vec![], vec![ValType::I32]);
    module.section(&types);

    let mut functions = FunctionSection::new();
    functions.function(0);
    module.section(&functions);

    let mut globals = GlobalSection::new();
    globals.global(i32_global(), &ConstExpr::i32_const(42));
    globals.global(i32_global(), &ConstExpr::i32_const(99));
    module.section(&globals);

    let mut exports = ExportSection::new();
    exports.export("get_val", ExportKind::Func, 0);
    module.section(&exports);

    let mut codes = CodeSection::new();
    let mut f0 = Function::new(vec![]);
    f0.instruction(&Instruction::GlobalGet(0));
    f0.instruction(&Instruction::End);
    codes.function(&f0);

    module.section(&codes);
    let wasm = module.finish();

    let removals = Removals {
        functions: HashSet::new(),
        tables: HashSet::new(),
        memories: HashSet::new(),
        globals: HashSet::from([1u32]),
    };

    let global_map = vec![0u32, 0u32];
    let function_map = vec![0u32];

    let mut reencoder = ModuleRenumberer {
        function_map,
        table_map: None,
        memory_map: None,
        global_map: Some(global_map),
    };

    let rebuilt = rebuild_module(&wasm, &mut reencoder, &removals, &counts(1, 2, 0))
        .expect("should succeed");

    wasmparser::Validator::new()
        .validate_all(&rebuilt)
        .expect("rebuilt module should be valid");

    assert!(
        rebuilt.len() < wasm.len(),
        "rebuilt ({}) should be smaller than original ({})",
        rebuilt.len(),
        wasm.len()
    );

    let parser = wasmparser::Parser::new(0);
    let mut global_count = 0u32;
    for payload in parser.parse_all(&rebuilt) {
        if let wasmparser::Payload::GlobalSection(reader) = payload.unwrap() {
            global_count = reader.count();
        }
    }
    assert_eq!(global_count, 1, "should have 1 global after removal");
}

#[test]
fn rebuild_removes_unused_global_import() {
    // imported global 0 "env"."used_g" (used by func 0), imported global 1 "env"."unused_g"
    let mut module = Module::new();

    let mut types = TypeSection::new();
    types.ty().function(vec![], vec![ValType::I32]);
    module.section(&types);

    let mut imports = ImportSection::new();
    imports.import("env", "used_g", i32_global());
    imports.import("env", "unused_g", i32_global());
    module.section(&imports);

    let mut functions = FunctionSection::new();
    functions.function(0);
    module.section(&functions);

    let mut exports = ExportSection::new();
    exports.export("get", ExportKind::Func, 0);
    module.section(&exports);

    let mut codes = CodeSection::new();
    let mut f0 = Function::new(vec![]);
    f0.instruction(&Instruction::GlobalGet(0));
    f0.instruction(&Instruction::End);
    codes.function(&f0);
    module.section(&codes);

    let wasm = module.finish();

    let removals = Removals {
        functions: HashSet::new(),
        tables: HashSet::new(),
        memories: HashSet::new(),
        globals: HashSet::from([1]),
    };
    let func_map = build_index_map(1, &HashMap::new(), &removals.functions);
    let global_map = build_index_map(2, &HashMap::new(), &removals.globals);
    let mut reencoder = ModuleRenumberer {
        function_map: func_map,
        table_map: None,
        memory_map: None,
        global_map: Some(global_map),
    };
    let rebuilt = rebuild_module(&wasm, &mut reencoder, &removals, &counts(1, 2, 2))
        .expect("should succeed");

    wasmparser::Validator::new()
        .validate_all(&rebuilt)
        .expect("should be valid");

    let parser = wasmparser::Parser::new(0);
    let mut import_count = 0u32;
    for payload in parser.parse_all(&rebuilt) {
        if let wasmparser::Payload::ImportSection(reader) = payload.unwrap() {
            for import in reader.into_imports() {
                import.unwrap();
                import_count += 1;
            }
        }
    }
    assert_eq!(import_count, 1, "should have 1 import after removing unused global import");
}

#[test]
fn rebuild_with_nothing_removed_keeps_every_function() {
    let mut module = Module::new();
    let mut types = TypeSection::new();
    types.ty().function(vec![], vec![]);
    module.section(&types);
    let mut functions = FunctionSection::new();
    functions.function(0);
    functions.function(0);
    module.section(&functions);
    let mut codes = CodeSection::new();
    let mut f0 = Function::new(vec![]);
    f0.instruction(&Instruction::Call(1));
    f0.instruction(&Instruction::End);
    codes.function(&f0);
    let mut f1 = Function::new(vec![]);
    f1.instruction(&Instruction::End);
    codes.function(&f1);
    module.section(&codes);
    let wasm = module.finish();

    let removals = Removals::functions_only(HashSet::new());
    let mut reencoder = ModuleRenumberer::function_only(build_index_map(2, &HashMap::new(), &HashSet::new()));
    let rebuilt = rebuild_module(&wasm, &mut reencoder, &removals, &counts(2, 0, 0)).expect("should succeed");
    wasmparser::Validator::new().validate_all(&rebuilt).expect("should be valid");
    let graph = CallGraph::from_module(&rebuilt).expect("should parse");
    assert_eq!(graph.num_functions, 2);
    assert!(graph.edges[&0].contains(&1));
}

#[test]
fn rebuild_rejects_truncated_module() {
    let removals = Removals::functions_only(HashSet::new());
    let mut reencoder = ModuleRenumberer::function_only(vec![]);
    let bad = vec![0x00, 0x61, 0x73, 0x6d, 0x01, 0x00, 0x00, 0x00, 0x01, 0x05];
    let r = rebuild_module(&bad, &mut reencoder, &removals, &counts(0, 0, 0));
    assert!(matches!(r, Err(vela_core::VelaError::Wasm(_))));
}

#[test]
fn rebuild_reports_an_unmapped_function_index() {
    // func 0 calls func 1, but the map only covers func 0
    let mut module = Module::new();
    let mut types = TypeSection::new();
    types.ty().function(vec![], vec![]);
    module.section(&types);
    let mut functions = FunctionSection::new();
    functions.function(0);
    functions.function(0);
    module.section(&functions);
    let mut codes = CodeSection::new();
    let mut f0 = Function::new(vec![]);
    f0.instruction(&Instruction::Call(1));
    f0.instruction(&Instruction::End);
    codes.function(&f0);
    let mut f1 = Function::new(vec![]);
    f1.instruction(&Instruction::End);
    codes.function(&f1);
    module.section(&codes);
    let wasm = module.finish();

    let removals = Removals::functions_only(HashSet::from([1u32]));
    let mut reencoder = ModuleRenumberer::function_only(vec![0]);
    let r = rebuild_module(&wasm, &mut reencoder, &removals, &counts(2, 0, 0));
    assert!(matches!(r, Err(vela_core::VelaError::InvalidWasm(_))));
}
