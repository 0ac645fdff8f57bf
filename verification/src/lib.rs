pub mod callgraph;
pub mod component;
pub mod dce;
pub mod dfe;
pub mod encode;
pub mod error;
pub mod facts;
pub mod ops;
pub mod renumber;
pub mod report;
pub mod rume;
pub mod text;
pub mod wasm;

pub use error::VelaError;

use std::collections::{HashMap, HashSet};
use vstd::prelude::*;
use vstd::std_specs::iter::IteratorSpec;

use crate::callgraph::{closed_under_calls, graph_spec, reaches, CallGraph};
use crate::component::{framed_sections, is_part_of, is_rebuilt_component, process_component};
use crate::encode::{component_header, core_module_header, starts_with};
use crate::dce::{find_reachable, records_roots, roots_from_facts, roots_of_facts, RootFacts};
use crate::dfe::{body_views, dfe_result_spec, group_duplicates, law_duplicates_redirect_to_kept, DfeResult};
use crate::renumber::{build_index_map, rebuild_module, redirects_in_range, ModuleRenumberer, Removals};
use crate::facts::{facts_read, read_module, reachable_bodies, ModuleFacts};
use crate::rume::{exported, records_usage, scanned_exactly, usage_from_facts, usage_spec, ModuleCounts, UsageFacts, UsageInfo};
use crate::ops::{function_import_count, ExternKind, Op};
use crate::wasm::ElemInfo;

verus! {

/// Configuration for optimization passes.
pub struct OptimizeConfig {
    /// Enable Dead Code Elimination.
    pub dce: bool,
    /// Enable Duplicate Function Elimination.
    pub dfe: bool,
    /// Enable Redundant/Unused Member Elimination (tables, memories, globals).
    pub rume: bool,
}

impl Default for OptimizeConfig {
    /// Every pass enabled.
    fn default() -> (c: Self)
        ensures
            c.dce && c.dfe && c.rume,
    {
        OptimizeConfig { dce: true, dfe: true, rume: true }
    }
}

/// The indices below `n` that are not in `used`.
pub open spec fn unused_below(n: u32, used: Set<u32>) -> Set<u32> {
    Set::new(|i: u32| i < n && !used.contains(i))
}

/// The functions that dead code elimination removes: when it is enabled,
/// every function below `n` that is not reachable.
pub open spec fn dce_removals(enabled: bool, n: u32, reachable: Set<u32>) -> Set<u32> {
    if enabled {
        unused_below(n, reachable)
    } else {
        Set::empty()
    }
}

/// The tables, memories or globals that element removal drops: when it is
/// enabled, every one below `n` that is not used.
pub open spec fn rume_removals(enabled: bool, n: u32, used: Set<u32>) -> Set<u32> {
    if enabled {
        unused_below(n, used)
    } else {
        Set::empty()
    }
}

/// The redirects that duplicate elimination asks for, none when it did not run.
pub open spec fn dfe_redirects(dfe: Option<DfeResult>) -> Map<u32, u32> {
    match dfe {
        Some(d) => d.redirects@,
        None => Map::empty(),
    }
}

/// The functions that duplicate elimination removes, none when it did not run.
pub open spec fn dfe_removals(dfe: Option<DfeResult>) -> Set<u32> {
    match dfe {
        Some(d) => d.removals@,
        None => Set::empty(),
    }
}

/// `removals` and `redirects` are what the enabled passes ask for, given the
/// reachable functions, the result of duplicate elimination (if it ran) and
/// the usage analysis.
pub open spec fn is_plan(
    config: &OptimizeConfig,
    num_functions: u32,
    reachable: Set<u32>,
    dfe: Option<DfeResult>,
    usage: &UsageInfo,
    removals: &Removals,
    redirects: Map<u32, u32>,
) -> bool {
    &&& removals.functions@ == dce_removals(config.dce, num_functions, reachable).union(dfe_removals(dfe))
    &&& redirects == dfe_redirects(dfe)
    &&& removals.tables@ == rume_removals(config.rume, usage.counts.num_tables, usage.used_tables@)
    &&& removals.memories@ == rume_removals(config.rume, usage.counts.num_memories, usage.used_memories@)
    &&& removals.globals@ == rume_removals(config.rume, usage.counts.num_globals, usage.used_globals@)
}

/// Every index below `n` that is not in `used`.
fn collect_unused(n: u32, used: &HashSet<u32>) -> (s: HashSet<u32>)
    ensures
        s@ == unused_below(n, used@),
{
    let mut s: HashSet<u32> = HashSet::new();
    let mut i: u32 = 0;
    while i < n
        invariant
            i <= n,
            forall|x: u32| #[trigger] s@.contains(x) <==> x < i && !used@.contains(x),
        decreases n - i,
    {
        if !used.contains(&i) {
            s.insert(i);
        }
        i = i + 1;
    }
    assert(s@ =~= unused_below(n, used@));
    s
}

/// Insert every element of `src` into `dst`.
fn add_all(dst: &mut HashSet<u32>, src: &HashSet<u32>)
    ensures
        final(dst)@ == old(dst)@.union(src@),
{
    let ghost d0 = dst@;
    let ghost keys = vstd::std_specs::hash::spec_hash_keys_iter(src).remaining();
    for x in it: src.iter()
        invariant
            it.seq() == keys,
            forall|y: u32| #[trigger] dst@.contains(y) <==> d0.contains(y) || exists|j: int|
                0 <= j < it.index() && *keys[j] == y,
    {
        dst.insert(*x);
    }
    proof {
        assert forall|y: u32| #[trigger] dst@.contains(y) <==> d0.union(src@).contains(y) by {
            if src@.contains(y) {
                assert(keys.unref().to_set().contains(y));
                let j = choose|j: int| 0 <= j < keys.unref().len() && keys.unref()[j] == y;
                assert(*keys[j] == y);
            }
            if exists|j: int| 0 <= j < keys.len() && *keys[j] == y {
                let j = choose|j: int| 0 <= j < keys.len() && *keys[j] == y;
                assert(keys.unref()[j] == y);
                assert(keys.unref().contains(y));
            }
        }
        assert(dst@ =~= d0.union(src@));
    }
}

/// The removals and redirects that the enabled passes ask for.
///
/// Dead code elimination removes every function below `num_functions` that
/// is not reachable; duplicate elimination (when `dfe` holds its result)
/// adds its removals and redirects; element removal drops every table,
/// memory and global that is not used.
pub fn plan_removals(
    config: &OptimizeConfig,
    num_functions: u32,
    reachable: &HashSet<u32>,
    dfe: &Option<DfeResult>,
    usage: &UsageInfo,
) -> (r: (Removals, HashMap<u32, u32>))
    ensures
        is_plan(config, num_functions, reachable@, *dfe, usage, &r.0, r.1@),
{
    let mut functions: HashSet<u32> = if config.dce {
        collect_unused(num_functions, reachable)
    } else {
        HashSet::new()
    };
    let redirects = match dfe {
        Some(d) => {
            add_all(&mut functions, &d.removals);
            d.redirects.clone()
        },
        None => HashMap::new(),
    };
    let (tables, memories, globals) = if config.rume {
        (
            collect_unused(usage.counts.num_tables, &usage.used_tables),
            collect_unused(usage.counts.num_memories, &usage.used_memories),
            collect_unused(usage.counts.num_globals, &usage.used_globals),
        )
    } else {
        (HashSet::new(), HashSet::new(), HashSet::new())
    };
    proof {
        assert(functions@ =~= dce_removals(config.dce, num_functions, reachable@).union(dfe_removals(*dfe)));
        assert(redirects@ =~= dfe_redirects(*dfe));
    }
    (Removals { functions, tables, memories, globals }, redirects)
}

/// Whether every redirect goes from an index below `n` to an index below `n`.
pub fn redirects_within(redirects: &HashMap<u32, u32>, n: u32) -> (r: bool)
    ensures
        r == redirects_in_range(redirects@, n),
{
    let ghost pairs = vstd::std_specs::hash::spec_hash_map_iter(redirects).remaining();
    for pair in it: redirects.iter()
        invariant
            it.seq() == pairs,
            forall|j: int| 0 <= j < it.index() ==> *#[trigger] pairs[j].0 < n && *pairs[j].1 < n,
    {
        let (from, to) = pair;
        if *from >= n || *to >= n {
            proof {
                assert(redirects@.contains_key(*from) && redirects@[*from] == *to);
            }
            return false;
        }
    }
    proof {
        assert forall|k: u32| #[trigger] redirects@.contains_key(k) implies k < n && redirects@[k] < n by {
            assert(pairs.contains((&k, &redirects@[k])));
            let j = choose|j: int| 0 <= j < pairs.len() && pairs[j] == (&k, &redirects@[k]);
            assert(*pairs[j].0 < n);
        }
    }
    true
}

/// Re-encode a core module with `removals` applied and `redirects` followed.
///
/// When there is nothing to remove and nothing to redirect, the module's
/// bytes come back unchanged. Otherwise an index map is built for the
/// functions and for each other index space that loses an entry, and the
/// module is rebuilt through them.
pub fn apply_plan(
    module_bytes: &[u8],
    removals: &Removals,
    redirects: &HashMap<u32, u32>,
    counts: &ModuleCounts,
) -> (r: Result<Vec<u8>, VelaError>)
    requires
        redirects_in_range(redirects@, counts.num_functions),
    ensures
        removals.spec_is_empty() && redirects@.is_empty() ==> (r matches Ok(v) && v@ == module_bytes@),
        !(removals.spec_is_empty() && redirects@.is_empty()) ==> (r matches Ok(v) ==> starts_with(
            v@,
            core_module_header(),
        )),
        r matches Err(e) ==> e.is_parse_error(),
{
    if removals.is_empty() && redirects.is_empty() {
        return Ok(vstd::slice::slice_to_vec(module_bytes));
    }
    let function_map = build_index_map(counts.num_functions, redirects, &removals.functions);
    let no_redirects: HashMap<u32, u32> = HashMap::new();
    proof {
        assert(redirects_in_range(no_redirects@, counts.num_tables));
        assert(redirects_in_range(no_redirects@, counts.num_memories));
        assert(redirects_in_range(no_redirects@, counts.num_globals));
    }
    let table_map = if removals.tables.is_empty() {
        None
    } else {
        Some(build_index_map(counts.num_tables, &no_redirects, &removals.tables))
    };
    let memory_map = if removals.memories.is_empty() {
        None
    } else {
        Some(build_index_map(counts.num_memories, &no_redirects, &removals.memories))
    };
    let global_map = if removals.globals.is_empty() {
        None
    } else {
        Some(build_index_map(counts.num_globals, &no_redirects, &removals.globals))
    };
    let mut reencoder = ModuleRenumberer { function_map, table_map, memory_map, global_map };
    rebuild_module(module_bytes, &mut reencoder, removals, counts)
}

/// What the analyses find in a core module, and what the enabled passes
/// remove and redirect.
pub struct ModulePlan {
    /// The call graph.
    pub graph: CallGraph,
    /// The functions kept whatever the call graph says.
    pub roots: HashSet<u32>,
    /// The functions reachable from the roots.
    pub reachable: HashSet<u32>,
    /// The duplicates among the reachable functions, when that pass is enabled.
    pub duplicates: Option<DfeResult>,
    /// The tables, memories and globals in use, and the module's counts.
    pub usage: UsageInfo,
    /// What the enabled passes remove.
    pub removals: Removals,
    /// Where duplicates are redirected.
    pub redirects: HashMap<u32, u32>,
}

/// The analyses in `p` are those of one reading of a module: `num_imports`
/// imported functions, a function section declaring `declared` functions
/// with type indices `types`, function bodies with bytes `bytes` and
/// operators `ops`, root facts `rf` and usage facts `uf`.
pub open spec fn analyses_of(
    config: &OptimizeConfig,
    p: &ModulePlan,
    num_imports: u32,
    declared: Option<u32>,
    types: Seq<u32>,
    bytes: Seq<Seq<u8>>,
    ops: Seq<Vec<Op>>,
    rf: RootFacts,
    uf: UsageFacts,
) -> bool {
    &&& graph_spec(num_imports, declared, ops, &p.graph)
    &&& roots_of_facts(&rf, num_imports, p.roots@)
    &&& p.duplicates matches Some(d) ==> dfe_result_spec(num_imports, types, bytes, p.reachable@, d.redirects@, d.removals@)
    &&& types.len() >= bytes.len() || p.duplicates is None
    &&& num_imports + bytes.len() <= u32::MAX + 1
    &&& usage_spec(&uf, &p.usage)
    &&& scanned_exactly(uf.bodies@, usage_scope(config, p.reachable@))
    &&& uf.func_imports == num_imports
    &&& bytes.len() == ops.len() && ops.len() == uf.bodies@.len()
    &&& forall|k: int| 0 <= k < uf.bodies@.len() ==> #[trigger] uf.bodies@[k].function == num_imports + k
    &&& forall|k: int| 0 <= k < uf.bodies@.len() ==> (#[trigger] uf.bodies@[k].ops matches Some(o) ==> o == ops[k])
}

/// The functions whose bodies count for usage: the reachable ones when dead
/// code elimination removes the others, every function otherwise (all of
/// them stay in the module then).
pub open spec fn usage_scope(config: &OptimizeConfig, reachable: Set<u32>) -> Set<u32> {
    if config.dce {
        reachable
    } else {
        Set::full()
    }
}

/// The indices `lo`, `lo + 1`, ... below `lo + len`.
fn index_range(lo: u32, len: usize) -> (s: HashSet<u32>)
    requires
        lo + len <= u32::MAX + 1,
    ensures
        forall|x: u32| #[trigger] s@.contains(x) <==> lo <= x < lo + len,
{
    let mut s: HashSet<u32> = HashSet::new();
    let mut k: usize = 0;
    while k < len
        invariant
            k <= len,
            lo + len <= u32::MAX + 1,
            forall|x: u32| #[trigger] s@.contains(x) <==> lo <= x < lo + k,
        decreases len - k,
    {
        s.insert(lo + k as u32);
        k = k + 1;
    }
    s
}

/// `p` holds the analyses of one reading of a module, and the plan that
/// `config` makes of them.
pub open spec fn is_module_plan(config: &OptimizeConfig, p: &ModulePlan) -> bool {
    &&& exists|n: u32, d: Option<u32>, t: Seq<u32>, b: Seq<Seq<u8>>, o: Seq<Vec<Op>>, rf: RootFacts, uf: UsageFacts|
        #[trigger] analyses_of(config, p, n, d, t, b, o, rf, uf)
    &&& forall|f: u32| #[trigger] p.reachable@.contains(f) <==> reaches(&p.graph, p.roots@, f)
    &&& closed_under_calls(&p.graph, p.roots@, p.reachable@)
    &&& (p.duplicates is Some <==> config.dfe)
    &&& is_plan(config, p.graph.num_functions, p.reachable@, p.duplicates, &p.usage, &p.removals, p.redirects@)
    &&& redirects_in_range(p.redirects@, p.usage.counts.num_functions)
}

/// `p` holds the analyses of what was read from a module (its imports,
/// exports, start functions, element and data segments as read), and the
/// plan that `config` makes of them.
pub open spec fn is_plan_of_read_module(config: &OptimizeConfig, p: &ModulePlan) -> bool {
    exists|n: u32, d: Option<u32>, t: Seq<u32>, b: Seq<Seq<u8>>, o: Seq<Vec<Op>>, rf: RootFacts, uf: UsageFacts|
        #[trigger] analyses_of(config, p, n, d, t, b, o, rf, uf) && facts_read(&rf, &uf)
}

/// Analyze a core module and plan what the passes that `config` enables
/// remove. The module is read once; then the call graph is built, the roots
/// and the reachable functions are found, duplicates are found (when that
/// pass is enabled) and the elements in use (by the bodies of the reachable
/// functions, or of every function when dead code elimination is off, since
/// all of them stay then), and the plan is made.
///
/// A module whose counts do not fit in 32 bits, that has more function bodies
/// than function types (when duplicates are looked for), or whose sections
/// disagree so that a redirect falls outside the function index space, is
/// refused as invalid.
pub fn plan_module(module_bytes: &[u8], config: &OptimizeConfig) -> (r: Result<ModulePlan, VelaError>)
    ensures
        r matches Ok(p) ==> is_module_plan(config, &p),
        r matches Ok(p) ==> is_plan_of_read_module(config, &p),
        r matches Err(e) ==> e.is_parse_error(),
{
    let facts = read_module(module_bytes)?;
    let ghost (kinds, exports_read, starts_read, segs_read, datas_read) = choose|
        kinds: Seq<ExternKind>,
        exports: Seq<(ExternKind, u32)>,
        starts: Seq<u32>,
        segs: Seq<ElemInfo>,
        datas: Seq<Option<(u32, Vec<Op>)>>,
    |
        records_roots(&facts.roots, exports, starts, segs) && records_usage(&facts.usage, exports, segs, datas)
            && facts.usage.func_imports == function_import_count(kinds);
    let ModuleFacts { roots: root_facts, usage: mut usage_facts, declared, types, bodies, body_ops } = facts;
    let n = usage_facts.func_imports;
    if body_ops.len() as u64 > u32::MAX as u64 + 1 - n as u64 {
        return Err(VelaError::InvalidWasm("too many functions".to_owned()));
    }
    if let Some(c) = declared {
        if c > u32::MAX - n {
            return Err(VelaError::InvalidWasm("too many functions".to_owned()));
        }
    }
    let graph = CallGraph::from_code(n, declared, &body_ops);
    let roots = roots_from_facts(&root_facts, n);
    let reachable = find_reachable(&roots, &graph);
    let duplicates = if config.dfe {
        if bodies.len() > types.len() {
            return Err(VelaError::InvalidWasm("more function bodies than declared functions".to_owned()));
        }
        Some(group_duplicates(n, &types, &bodies, &reachable))
    } else {
        None
    };
    let ghost ops = body_ops@;
    // With dead code elimination off every function stays, so every body counts.
    let every_function: HashSet<u32> = if config.dce {
        HashSet::new()
    } else {
        index_range(n, body_ops.len())
    };
    let scope: &HashSet<u32> = if config.dce {
        &reachable
    } else {
        &every_function
    };
    usage_facts.bodies = reachable_bodies(n, body_ops, scope);
    proof {
        if !config.dce {
            assert forall|k: int| 0 <= k < usage_facts.bodies@.len() implies (
            #[trigger] usage_facts.bodies@[k].ops is Some <==> usage_scope(config, reachable@).contains(
                usage_facts.bodies@[k].function,
            )) by {
                assert(scope@.contains(usage_facts.bodies@[k].function));
            }
        }
    }
    if usage_facts.defined_functions > u32::MAX - usage_facts.func_imports
        || usage_facts.defined_tables > u32::MAX - usage_facts.table_imports
        || usage_facts.defined_memories > u32::MAX - usage_facts.memory_imports
        || usage_facts.global_inits.len() as u64 > u32::MAX as u64 - usage_facts.global_imports as u64
    {
        return Err(VelaError::InvalidWasm("too many module elements".to_owned()));
    }
    let usage = usage_from_facts(&usage_facts);
    let (removals, redirects) = plan_removals(config, graph.num_functions, &reachable, &duplicates, &usage);
    if !redirects_within(&redirects, usage.counts.num_functions) {
        return Err(VelaError::InvalidWasm("function redirect outside the function index space".to_owned()));
    }
    let p = ModulePlan { graph, roots, reachable, duplicates, usage, removals, redirects };
    assert(analyses_of(config, &p, n, declared, types@, body_views(bodies@), ops, root_facts, usage_facts));
    assert(records_roots(&root_facts, exports_read, starts_read, segs_read));
    assert(records_usage(&usage_facts, exports_read, segs_read, datas_read));
    assert(usage_facts.func_imports == function_import_count(kinds));
    assert(facts_read(&root_facts, &usage_facts));
    Ok(p)
}

/// What optimizing `input` under `config` may give back: `input` itself when
/// every pass is disabled; otherwise, for a plan of `input` that `config`
/// makes, `input` itself when the plan removes and redirects nothing, and a
/// rebuilt core module (starting with the module header) when it does.
pub open spec fn is_module_result(config: &OptimizeConfig, input: Seq<u8>, out: Seq<u8>) -> bool {
    if !config.dce && !config.dfe && !config.rume {
        out == input
    } else {
        exists|p: ModulePlan|
            #[trigger] is_module_plan(config, &p) && if p.removals.spec_is_empty() && p.redirects@.is_empty() {
                out == input
            } else {
                starts_with(out, core_module_header())
            }
    }
}

/// `out` is the component header followed by framed sections, each of which
/// is bytes of `wasm` copied as they are, or a core module section holding
/// what optimizing bytes of `wasm` under `config` gives back.
pub open spec fn is_optimized_component(config: &OptimizeConfig, wasm: Seq<u8>, out: Seq<u8>) -> bool {
    exists|secs: Seq<(u8, Seq<u8>)>|
        out == component_header() + #[trigger] framed_sections(secs) && forall|k: int|
            0 <= k < secs.len() ==> is_part_of(#[trigger] secs[k].1, wasm) || (secs[k].0 == 1 && exists|b: Seq<u8>|
                is_part_of(b, wasm) && #[trigger] is_module_result(config, b, secs[k].1))
}

/// Optimize one core module with the passes that `config` enables.
///
/// With every pass disabled the module's bytes come back unchanged.
/// Otherwise the module is analyzed and planned (`plan_module`), and rebuilt
/// with the plan applied (`apply_plan`: unchanged when nothing is to be
/// removed or redirected).
pub fn optimize_module(module_bytes: &[u8], config: &OptimizeConfig) -> (r: Result<Vec<u8>, VelaError>)
    ensures
        !config.dce && !config.dfe && !config.rume ==> (r matches Ok(v) && v@ == module_bytes@),
        r matches Ok(v) ==> is_module_result(config, module_bytes@, v@),
        r matches Err(e) ==> e.is_parse_error(),
{
    if !config.dce && !config.dfe && !config.rume {
        return Ok(vstd::slice::slice_to_vec(module_bytes));
    }
    let plan = plan_module(module_bytes, config)?;
    let r = apply_plan(module_bytes, &plan.removals, &plan.redirects, &plan.usage.counts);
    proof {
        if r is Ok {
            assert(is_module_plan(config, &plan));
        }
    }
    r
}

/// Optimize a Component Model WASM binary: every core module at its top
/// level goes through `optimize_module`.
///
/// A binary is refused with `NotComponent` exactly when it does not start
/// with the component header; any other refusal is a parse error.
pub fn optimize(wasm: &[u8], config: &OptimizeConfig) -> (r: Result<Vec<u8>, VelaError>)
    ensures
        !crate::wasm::is_component_header(wasm@) ==> crate::component::is_not_component_error(r),
        r is Ok ==> crate::wasm::is_component_header(wasm@),
        crate::wasm::is_component_header(wasm@) ==> (r matches Err(e) ==> e.is_parse_error()),
        r matches Ok(out) ==> is_optimized_component(config, wasm@, out@),
{
    let each_module = |module_bytes: &[u8]| -> (m: Result<Vec<u8>, VelaError>)
        ensures
            m matches Ok(v) ==> is_module_result(config, module_bytes@, v@),
            m matches Err(e) ==> e.is_parse_error(),
        { optimize_module(module_bytes, config) };
    let r = process_component(wasm, each_module);
    proof {
        if r is Ok {
            let out = r->Ok_0;
            let secs = choose|secs: Seq<(u8, Seq<u8>)>|
                out@ == component_header() + #[trigger] framed_sections(secs) && forall|k: int|
                    0 <= k < secs.len() ==> crate::component::is_rebuilt_section(each_module, wasm@, #[trigger] secs[k]);
            assert forall|k: int| 0 <= k < secs.len() implies is_part_of(#[trigger] secs[k].1, wasm@) || (secs[k].0
                == 1 && exists|b: Seq<u8>| is_part_of(b, wasm@) && #[trigger] is_module_result(config, b, secs[k].1)) by {
                assert(crate::component::is_rebuilt_section(each_module, wasm@, secs[k]));
                if !is_part_of(secs[k].1, wasm@) {
                    let (b, v) = choose|b: &[u8], v: Vec<u8>|
                        #[trigger] call_ensures(each_module, (b,), Ok(v)) && v@ == secs[k].1 && is_part_of(b@, wasm@);
                    assert(is_module_result(config, b@, secs[k].1));
                }
            }
            assert(is_optimized_component(config, wasm@, out@));
        }
        if crate::wasm::is_component_header(wasm@) {
            if r is Err {
                let e = r->Err_0;
                if crate::component::module_failed(each_module, wasm@, e) {
                    let b = choose|b: &[u8]| #[trigger] call_ensures(each_module, (b,), Err(e)) && exists|i: int, j: int|
                        0 <= i <= j <= wasm@.len() && b@ == wasm@.subrange(i, j);
                    assert(call_ensures(each_module, (b,), Err(e)));
                }
            }
        }
    }
    r
}

/// Dead code elimination never removes a root (an imported or exported
/// function, a start function, a function placed in a table) nor anything
/// that a root reaches through calls; without duplicate elimination such a
/// function is not removed at all.
pub proof fn law_roots_survive_dce(config: &OptimizeConfig, p: &ModulePlan, f: u32)
    requires
        is_module_plan(config, p),
        p.roots@.contains(f) || reaches(&p.graph, p.roots@, f),
    ensures
        !dce_removals(config.dce, p.graph.num_functions, p.reachable@).contains(f),
        !config.dfe ==> !p.removals.functions@.contains(f),
{
    if p.roots@.contains(f) {
        crate::callgraph::lemma_root_reaches_itself(&p.graph, p.roots@, f);
    }
    assert(p.reachable@.contains(f));
}

/// A removed function is never left behind as a call target: when a function
/// that the plan keeps refers to a function that the plan removes, that
/// function is redirected to one that the plan keeps.
///
/// This holds because the reachable set is closed under calls, dead code
/// elimination removes only unreachable functions, and duplicate elimination
/// redirects each duplicate to a reachable representative that it keeps.
pub proof fn law_no_dangling_call_targets(config: &OptimizeConfig, p: &ModulePlan, f: u32, c: u32)
    requires
        is_module_plan(config, p),
        f < p.graph.num_functions,
        !p.removals.functions@.contains(f),
        p.graph.callees(f).contains(c),
    ensures
        p.removals.functions@.contains(c) ==> p.redirects@.contains_key(c)
            && !p.removals.functions@.contains(p.redirects@[c]),
{
    let reachable = p.reachable@;
    let n = p.graph.num_functions;
    if p.removals.functions@.contains(c) {
        if config.dce {
            assert(reachable.contains(f));
            assert(reachable.contains(c));
        }
        assert(!dce_removals(config.dce, n, reachable).contains(c));
        let d = p.duplicates->0;
        assert(d.removals@.contains(c));
        let (num_imports, declared, types, bodies, ops, rf, uf) = choose|
            n: u32,
            d: Option<u32>,
            t: Seq<u32>,
            b: Seq<Seq<u8>>,
            o: Seq<Vec<Op>>,
            rf: RootFacts,
            uf: UsageFacts,
        | #[trigger] analyses_of(config, p, n, d, t, b, o, rf, uf);
        assert(d.redirects@.contains_key(c));
        law_duplicates_redirect_to_kept(num_imports, types, bodies, reachable, d.redirects@, d.removals@, c);
        let t = d.redirects@[c];
        assert(reachable.contains(t));
        assert(!dce_removals(config.dce, n, reachable).contains(t));
    }
}

/// No imported function is ever removed: imports are roots, so dead code
/// elimination keeps them, and duplicate elimination only looks at defined
/// functions.
pub proof fn law_function_imports_survive(config: &OptimizeConfig, p: &ModulePlan, f: u32)
    requires
        is_module_plan(config, p),
        f < p.graph.num_imports,
    ensures
        !p.removals.functions@.contains(f),
        !p.redirects@.contains_key(f),
{
    let (n, declared, types, bytes, ops, rf, uf) = choose|
        n: u32,
        d: Option<u32>,
        t: Seq<u32>,
        b: Seq<Seq<u8>>,
        o: Seq<Vec<Op>>,
        rf: RootFacts,
        uf: UsageFacts,
    | #[trigger] analyses_of(config, p, n, d, t, b, o, rf, uf);
    assert(p.graph.num_imports == n);
    assert(crate::dce::is_root(&rf, n, f));
    assert(p.roots@.contains(f));
    crate::callgraph::lemma_root_reaches_itself(&p.graph, p.roots@, f);
    assert(p.reachable@.contains(f));
    if let Some(d) = p.duplicates {
        assert(!d.redirects@.contains_key(f));
        assert(!d.removals@.contains(f));
    }
}

/// Element removal never drops an exported table, memory or global.
pub proof fn law_exported_elements_survive(
    facts: &UsageFacts,
    usage: &UsageInfo,
    enabled: bool,
    i: u32,
)
    requires
        usage_spec(facts, usage),
    ensures
        exported(facts.exports@, ExternKind::Table, i) ==> !rume_removals(
            enabled,
            usage.counts.num_tables,
            usage.used_tables@,
        ).contains(i),
        exported(facts.exports@, ExternKind::Memory, i) ==> !rume_removals(
            enabled,
            usage.counts.num_memories,
            usage.used_memories@,
        ).contains(i),
        exported(facts.exports@, ExternKind::Global, i) ==> !rume_removals(
            enabled,
            usage.counts.num_globals,
            usage.used_globals@,
        ).contains(i),
{
    assert(exported(facts.exports@, ExternKind::Table, i) ==> usage.used_tables@.contains(i));
    assert(exported(facts.exports@, ExternKind::Memory, i) ==> usage.used_memories@.contains(i));
    assert(exported(facts.exports@, ExternKind::Global, i) ==> usage.used_globals@.contains(i));
}

/// With every pass disabled, optimizing a component copies it: the output is
/// the component header followed by framed sections that are each bytes of
/// the input as they were.
pub proof fn law_disabled_passes_copy_sections(config: &OptimizeConfig, wasm: Seq<u8>, out: Seq<u8>)
    requires
        !config.dce && !config.dfe && !config.rume,
        is_optimized_component(config, wasm, out),
    ensures
        exists|secs: Seq<(u8, Seq<u8>)>|
            out == component_header() + #[trigger] framed_sections(secs) && forall|k: int|
                0 <= k < secs.len() ==> is_part_of(#[trigger] secs[k].1, wasm),
{
    let secs = choose|secs: Seq<(u8, Seq<u8>)>|
        out == component_header() + #[trigger] framed_sections(secs) && forall|k: int|
            0 <= k < secs.len() ==> is_part_of(#[trigger] secs[k].1, wasm) || (secs[k].0 == 1 && exists|b: Seq<u8>|
                is_part_of(b, wasm) && #[trigger] is_module_result(config, b, secs[k].1));
    assert forall|k: int| 0 <= k < secs.len() implies is_part_of(#[trigger] secs[k].1, wasm) by {
        if !is_part_of(secs[k].1, wasm) {
            let b = choose|b: Seq<u8>| is_part_of(b, wasm) && #[trigger] is_module_result(config, b, secs[k].1);
            assert(secs[k].1 == b);
        }
    }
}

} // verus!
