use vela_core::component::{nest_step, process_component, PayloadKind, Step};
use vela_core::{optimize, optimize_module, OptimizeConfig, VelaError};
use wasm_encoder::{
    CodeSection, Component, ExportKind, ExportSection, Function, FunctionSection, Instruction,
    Module, ModuleSection, TypeSection,
};
use wasmparser::{Parser, Payload};

fn build_minimal_component() -> Vec<u8> {
    let mut module = Module::new();

    let mut types = TypeSection::new();
    types.ty().function(vec![], vec![wasm_encoder::ValType::I32]);
    module.section(&types);

    let mut functions = FunctionSection::new();
    functions.function(0);
    module.section(&functions);

    let mut exports = ExportSection::new();
    exports.export("answer", ExportKind::Func, 0);
    module.section(&exports);

    let mut code = CodeSection::new();
    let mut f = Function::new(vec![]);
    f.instruction(&Instruction::I32Const(42));
    f.instruction(&Instruction::End);
    code.function(&f);
    module.section(&code);

    let mut component = Component::new();
    component.section(&ModuleSection(&module));
    component.finish()
}

fn dead_code_module() -> Module {
    let mut module = Module::new();

    let mut types = TypeSection::new();
    types.ty().function(vec![], vec![wasm_encoder::ValType::I32]);
    types.ty().function(vec![], vec![]);
    module.section(&types);

    let mut functions = FunctionSection::new();
    functions.function(0);
    functions.function(1);
    functions.function(1);
    module.section(&functions);

    let mut exports = ExportSection::new();
    exports.export("answer", ExportKind::Func, 0);
    module.section(&exports);

    let mut code = CodeSection::new();

    let mut f0 = Function::new(vec![]);
    f0.instruction(&Instruction::I32Const(42));
    f0.instruction(&Instruction::End);
    code.function(&f0);

    let mut f1 = Function::new(vec![]);
    f1.instruction(&Instruction::I32Const(1));
    f1.instruction(&Instruction::I32Const(2));
    f1.instruction(&Instruction::I32Add);
    f1.instruction(&Instruction::Drop);
    f1.instruction(&Instruction::End);
    code.function(&f1);

    let mut f2 = Function::new(vec![]);
    f2.instruction(&Instruction::I32Const(100));
    f2.instruction(&Instruction::I32Const(200));
    f2.instruction(&Instruction::I32Mul);
    f2.instruction(&Instruction::Drop);
    f2.instruction(&Instruction::End);
    code.function(&f2);

    module.section(&code);
    module
}

fn build_component_with_dead_code() -> Vec<u8> {
    let module = dead_code_module();
    let mut component = Component::new();
    component.section(&ModuleSection(&module));
    component.finish()
}

fn count_modules(wasm: &[u8]) -> usize {
    let mut n = 0;
    for payload in Parser::new(0).parse_all(wasm) {
        if matches!(payload.expect("should be valid WASM"), Payload::ModuleSection { .. }) {
            n += 1;
        }
    }
    n
}

#[test]
fn pass_through_preserves_component() {
    let original = build_minimal_component();
    let result = process_component(&original, |module_bytes: &[u8]| Ok(module_bytes.to_vec()))
        .expect("pass-through should succeed");

    let parser = Parser::new(0);
    let mut found_module = false;
    for payload in parser.parse_all(&result) {
        let payload = payload.expect("result should be valid WASM");
        if matches!(payload, Payload::ModuleSection { .. }) {
            found_module = true;
        }
    }
    assert!(found_module, "result should contain a core module");
}

#[test]
fn rejects_non_component_wasm() {
    let module = Module::new().finish();
    let result = process_component(&module, |m: &[u8]| Ok(m.to_vec()));
    assert!(result.is_err());
    let err = result.unwrap_err();
    assert!(
        err.to_string().contains("not a Component Model WASM"),
        "expected NotComponent error, got: {}",
        err.to_string()
    );
}

#[test]
fn pass_through_gives_back_the_same_bytes() {
    let original = build_minimal_component();
    let result = process_component(&original, |m: &[u8]| Ok(m.to_vec())).unwrap();
    assert_eq!(result, original);
}

#[test]
fn module_errors_are_returned() {
    let original = build_minimal_component();
    let result = process_component(&original, |_m: &[u8]| {
        Err(VelaError::InvalidWasm("refused".to_owned()))
    });
    assert!(matches!(result, Err(VelaError::InvalidWasm(ref m)) if m == "refused"));
}

#[test]
fn nested_component_is_copied_and_its_modules_left_alone() {
    let inner = build_minimal_component();
    let mut outer = Component::new();
    outer.section(&wasm_encoder::RawSection { id: 4, data: &inner });
    outer.section(&ModuleSection(&dead_code_module()));
    let outer = outer.finish();
    let calls = std::cell::Cell::new(0);
    let result = process_component(&outer, |m: &[u8]| {
        calls.set(calls.get() + 1);
        Ok(m.to_vec())
    })
    .unwrap();
    assert_eq!(calls.get(), 1);
    assert_eq!(result, outer);
    assert_eq!(count_modules(&result), 2);
}

#[test]
fn empty_and_truncated_inputs_are_not_components() {
    assert!(matches!(process_component(&[], |m: &[u8]| Ok(m.to_vec())), Err(VelaError::NotComponent(_))));
    let short = [0x00u8, 0x61, 0x73, 0x6d, 0x0d, 0x00, 0x01];
    assert!(matches!(process_component(&short, |m: &[u8]| Ok(m.to_vec())), Err(VelaError::NotComponent(_))));
}

#[test]
fn optimize_reduces_component_size() {
    let original = build_component_with_dead_code();
    let config = OptimizeConfig { dce: true, dfe: true, rume: true };
    let optimized = optimize(&original, &config).expect("optimize should succeed");

    assert!(
        optimized.len() < original.len(),
        "optimized ({}) should be smaller than original ({})",
        optimized.len(),
        original.len()
    );

    let parser = Parser::new(0);
    for payload in parser.parse_all(&optimized) {
        payload.expect("optimized should be parseable");
    }
}

#[test]
fn optimize_with_all_disabled_passes_through() {
    let original = build_component_with_dead_code();
    let config = OptimizeConfig { dce: false, dfe: false, rume: false };
    let result = optimize(&original, &config).expect("should succeed");

    let parser = Parser::new(0);
    for payload in parser.parse_all(&result) {
        payload.expect("result should be parseable");
    }
}

#[test]
fn optimize_rejects_core_module() {
    let module = Module::new().finish();
    let result = optimize(&module, &OptimizeConfig::default());
    assert!(result.is_err());
}

#[test]
fn default_config_enables_every_pass() {
    let c = OptimizeConfig::default();
    assert!(c.dce && c.dfe && c.rume);
}

#[test]
fn all_disabled_module_is_returned_unchanged() {
    let module = dead_code_module().finish();
    let config = OptimizeConfig { dce: false, dfe: false, rume: false };
    assert_eq!(optimize_module(&module, &config).unwrap(), module);
}

#[test]
fn optimize_module_drops_dead_functions() {
    let module = dead_code_module().finish();
    let config = OptimizeConfig { dce: true, dfe: false, rume: false };
    let out = optimize_module(&module, &config).unwrap();
    wasmparser::Validator::new().validate_all(&out).expect("should be valid");
    let graph = vela_core::callgraph::CallGraph::from_module(&out).unwrap();
    assert_eq!(graph.num_functions, 1);
}

#[test]
fn module_without_dead_code_is_unchanged() {
    let mut module = Module::new();
    let mut types = TypeSection::new();
    types.ty().function(vec![], vec![]);
    module.section(&types);
    let mut functions = FunctionSection::new();
    functions.function(0);
    module.section(&functions);
    let mut exports = ExportSection::new();
    exports.export("run", ExportKind::Func, 0);
    module.section(&exports);
    let mut code = CodeSection::new();
    let mut f0 = Function::new(vec![]);
    f0.instruction(&Instruction::End);
    code.function(&f0);
    module.section(&code);
    let bytes = module.finish();
    let out = optimize_module(&bytes, &OptimizeConfig::default()).unwrap();
    assert_eq!(out, bytes);
}

#[test]
fn optimized_component_with_instance_validates() {
    let mut component = Component::new();
    component.section(&ModuleSection(&dead_code_module()));
    let mut instances = wasm_encoder::InstanceSection::new();
    instances.instantiate(0, Vec::<(&str, wasm_encoder::ModuleArg)>::new());
    component.section(&instances);
    let mut aliases = wasm_encoder::ComponentAliasSection::new();
    aliases.alias(wasm_encoder::Alias::CoreInstanceExport {
        instance: 0,
        kind: ExportKind::Func,
        name: "answer",
    });
    component.section(&aliases);
    let original = component.finish();
    wasmparser::Validator::new().validate_all(&original).expect("original should be valid");

    let optimized = optimize(&original, &OptimizeConfig::default()).unwrap();
    wasmparser::Validator::new().validate_all(&optimized).expect("optimized should be valid");
    assert!(optimized.len() < original.len());
    let mut functions = 0;
    for payload in Parser::new(0).parse_all(&optimized) {
        if let Payload::FunctionSection(r) = payload.unwrap() {
            functions += r.count();
        }
    }
    assert_eq!(functions, 1);
}

#[test]
fn nesting_steps() {
    assert_eq!(nest_step(0, PayloadKind::ModuleStart), Some((1, Step::ProcessModule)));
    assert_eq!(nest_step(0, PayloadKind::ComponentStart), Some((1, Step::SaveComponent)));
    assert_eq!(nest_step(0, PayloadKind::Other), Some((0, Step::Copy)));
    assert_eq!(nest_step(0, PayloadKind::End), Some((0, Step::Copy)));
    assert_eq!(nest_step(1, PayloadKind::ModuleStart), Some((2, Step::Skip)));
    assert_eq!(nest_step(1, PayloadKind::Other), Some((1, Step::Skip)));
    assert_eq!(nest_step(1, PayloadKind::End), Some((0, Step::Flush)));
    assert_eq!(nest_step(3, PayloadKind::End), Some((2, Step::Skip)));
    assert_eq!(nest_step(u32::MAX, PayloadKind::ComponentStart), None);
    assert_eq!(nest_step(u32::MAX, PayloadKind::End), Some((u32::MAX - 1, Step::Skip)));
}

#[test]
fn optimizing_a_large_module_stays_fast() {
    // 6000 functions: a chain of calls from the export through the even ones,
    // the odd ones are dead, and every tenth even one repeats an earlier body
    let n: u32 = 6000;
    let mut module = Module::new();
    let mut types = TypeSection::new();
    types.ty().function(vec![], vec![]);
    module.section(&types);
    let mut functions = FunctionSection::new();
    for _ in 0..n {
        functions.function(0);
    }
    module.section(&functions);
    let mut exports = ExportSection::new();
    exports.export("run", ExportKind::Func, 0);
    module.section(&exports);
    let mut code = CodeSection::new();
    for i in 0..n {
        let mut f = Function::new(vec![]);
        if i % 2 == 0 && i + 2 < n {
            f.instruction(&Instruction::Call(i + 2));
        }
        f.instruction(&Instruction::I32Const((i % 500) as i32));
        f.instruction(&Instruction::Drop);
        f.instruction(&Instruction::End);
        code.function(&f);
    }
    module.section(&code);
    let bytes = module.finish();
    let start = std::time::Instant::now();
    let out = optimize_module(&bytes, &OptimizeConfig::default()).unwrap();
    assert!(start.elapsed().as_secs() < 10);
    wasmparser::Validator::new().validate_all(&out).expect("should be valid");
    assert!(out.len() < bytes.len());
}

#[test]
fn damaged_component_is_a_parse_error_not_a_refusal() {
    let mut wasm = build_minimal_component();
    wasm.push(0xff);
    let config = OptimizeConfig { dce: true, dfe: true, rume: true };
    let r = optimize(&wasm, &config);
    assert!(matches!(r, Err(VelaError::Wasm(_)) | Err(VelaError::InvalidWasm(_))), "got {:?}", r.err().map(|e| e.to_string()));
}
