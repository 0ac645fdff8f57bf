use std::collections::HashSet;
use vela_core::renumber::{ModuleRenumberer, Removals, UnmappedIndex};

#[test]
fn functions_only_leaves_other_spaces_empty() {
    let r = Removals::functions_only(HashSet::from([1u32, 7]));
    assert_eq!(r.functions, HashSet::from([1u32, 7]));
    assert!(r.tables.is_empty());
    assert!(r.memories.is_empty());
    assert!(r.globals.is_empty());
    assert!(!r.is_empty());
}

#[test]
fn is_empty_needs_every_space_empty() {
    assert!(Removals::functions_only(HashSet::new()).is_empty());
    let r = Removals {
        functions: HashSet::new(),
        tables: HashSet::new(),
        memories: HashSet::from([0u32]),
        globals: HashSet::new(),
    };
    assert!(!r.is_empty());
    let r = Removals {
        functions: HashSet::new(),
        tables: HashSet::new(),
        memories: HashSet::new(),
        globals: HashSet::from([3u32]),
    };
    assert!(!r.is_empty());
}

#[test]
fn function_only_renumberer_keeps_other_spaces() {
    let r = ModuleRenumberer::function_only(vec![0, 0, 1]);
    assert_eq!(r.function_map, vec![0, 0, 1]);
    assert!(r.table_map.is_none());
    assert!(r.memory_map.is_none());
    assert!(r.global_map.is_none());
    assert_eq!(r.map_function(2), Ok(1));
    assert_eq!(r.map_table(5), Ok(5));
    assert_eq!(r.map_memory(3), Ok(3));
    assert_eq!(r.map_global(9), Ok(9));
}

#[test]
fn renumberer_looks_up_present_maps() {
    let r = ModuleRenumberer {
        function_map: vec![0],
        table_map: Some(vec![0, 0, 1]),
        memory_map: None,
        global_map: Some(vec![1, 0]),
    };
    assert_eq!(r.map_table(2), Ok(1));
    assert_eq!(r.map_global(0), Ok(1));
    assert_eq!(r.map_memory(4), Ok(4));
}

#[test]
fn indices_outside_a_map_are_reported() {
    let r = ModuleRenumberer {
        function_map: vec![0, 1],
        table_map: Some(vec![0]),
        memory_map: None,
        global_map: Some(vec![]),
    };
    assert_eq!(r.map_function(2), Err(UnmappedIndex { index: 2 }));
    assert_eq!(r.map_table(1), Err(UnmappedIndex { index: 1 }));
    assert_eq!(r.map_global(0), Err(UnmappedIndex { index: 0 }));
}
