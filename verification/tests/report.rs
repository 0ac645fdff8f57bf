use vela_core::report::{format_size, info_events, summarize, wasm_info, InfoEvent};
use wasm_encoder::{
    CodeSection, Component, EntityType, Function, FunctionSection, ImportSection, Instruction,
    Module, ModuleSection, TypeSection,
};

fn float_text(bytes: usize) -> String {
    if bytes >= 1_048_576 {
        format!("{:.1}MB", bytes as f64 / 1_048_576.0)
    } else if bytes >= 1024 {
        format!("{:.1}KB", bytes as f64 / 1024.0)
    } else {
        format!("{}B", bytes)
    }
}

#[test]
fn format_size_exact_values() {
    assert_eq!(format_size(0), "0B");
    assert_eq!(format_size(1023), "1023B");
    assert_eq!(format_size(1024), "1.0KB");
    assert_eq!(format_size(1536), "1.5KB");
    assert_eq!(format_size(1_048_575), "1024.0KB");
    assert_eq!(format_size(1_048_576), "1.0MB");
    assert_eq!(format_size(8_703_180), "8.3MB");
    assert_eq!(format_size(746_496), "729.0KB");
}

#[test]
fn format_size_rounds_halfway_to_even() {
    // 1.25 MB and 1.75 MB lie exactly halfway between two tenths.
    assert_eq!(format_size(1_310_720), "1.2MB");
    assert_eq!(format_size(1_835_008), "1.8MB");
    // 0.25 KB above 1 KB
    assert_eq!(format_size(1280), "1.2KB");
    assert_eq!(format_size(1792), "1.8KB");
}

#[test]
fn format_size_agrees_with_float_formatting() {
    let mut b: usize = 0;
    while b < 3_000_000 {
        assert_eq!(format_size(b), float_text(b), "at {}", b);
        b += 97;
    }
    for k in 0..64usize {
        for b in [k * 131_072, k * 131_072 + 1, k * 131_072 + 52_428, k * 262_144 + 104_857] {
            assert_eq!(format_size(b), float_text(b), "at {}", b);
        }
    }
    for b in [1usize << 30, (1usize << 40) + 12345, 123_456_789_012] {
        assert_eq!(format_size(b), float_text(b), "at {}", b);
    }
}

fn module_with_import() -> Module {
    let mut module = Module::new();
    let mut types = TypeSection::new();
    types.ty().function(vec![], vec![]);
    module.section(&types);
    let mut imports = ImportSection::new();
    imports.import("env", "log", EntityType::Function(0));
    module.section(&imports);
    let mut functions = FunctionSection::new();
    functions.function(0);
    functions.function(0);
    module.section(&functions);
    let mut code = CodeSection::new();
    for _ in 0..2 {
        let mut f = Function::new(vec![]);
        f.instruction(&Instruction::End);
        code.function(&f);
    }
    module.section(&code);
    module
}

#[test]
fn info_of_a_component() {
    let mut component = Component::new();
    component.section(&ModuleSection(&module_with_import()));
    component.section(&ModuleSection(&module_with_import()));
    let wasm = component.finish();
    let info = wasm_info(&wasm).unwrap();
    assert_eq!(info.headers, vec![true, false, false]);
    assert_eq!(info.module_count, 2);
    assert_eq!(info.imported_functions, 2);
    assert_eq!(info.total_functions, 6);
}

#[test]
fn info_of_a_core_module() {
    let wasm = module_with_import().finish();
    let info = wasm_info(&wasm).unwrap();
    assert_eq!(info.headers, vec![false]);
    assert_eq!(info.module_count, 0);
    assert_eq!(info.total_functions, 3);
}

#[test]
fn info_of_garbage_is_an_error() {
    assert!(wasm_info(&[1, 2, 3]).is_err());
}

#[test]
fn summarize_sums_events() {
    let events = vec![
        InfoEvent::Header { component: true },
        InfoEvent::ModuleStart,
        InfoEvent::Header { component: false },
        InfoEvent::FunctionImports(3),
        InfoEvent::DeclaredFunctions(5),
        InfoEvent::DeclaredFunctions(1),
    ];
    let info = summarize(&events).unwrap();
    assert_eq!(info.headers, vec![true, false]);
    assert_eq!(info.module_count, 1);
    assert_eq!(info.imported_functions, 3);
    assert_eq!(info.total_functions, 9);
}

#[test]
fn summarize_large_counts() {
    let mut events = vec![InfoEvent::FunctionImports(u32::MAX); 3];
    events.push(InfoEvent::DeclaredFunctions(1));
    let info = summarize(&events).unwrap();
    assert_eq!(info.total_functions, 3 * u32::MAX as u64 + 1);
    assert_eq!(info.imported_functions, 3 * u32::MAX as u64);
}

#[test]
fn summarize_of_no_events_is_empty() {
    let info = summarize(&Vec::new()).unwrap();
    assert!(info.headers.is_empty());
    assert_eq!(info.module_count, 0);
    assert_eq!(info.total_functions, 0);
}

#[test]
fn events_read_before_an_error_are_kept() {
    let mut wasm = module_with_import().finish();
    wasm.push(0xff);
    let (events, failed) = info_events(&wasm);
    assert!(matches!(events.first(), Some(InfoEvent::Header { component: false })));
    assert!(failed.is_some());
    assert!(wasm_info(&wasm).is_err());
}
