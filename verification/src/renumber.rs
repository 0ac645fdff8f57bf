use std::collections::{HashMap, HashSet};
use wasm_encoder::reencode::{Error, Reencode};
use wasm_encoder::{
    CodeSection, DataSection, ElementSection, ExportSection, FunctionSection, GlobalSection,
    ImportSection, MemorySection, Module, TableSection, TagSection, TypeSection,
};

use crate::encode::{
    core_module_header, empty_section, function_section_add, memory_section_add, module_content,
    module_data_count_section, module_finish, module_new, module_section, module_start_section,
    reencode_custom_section, starts_with,
    reencode_data_section, reencode_element_section, reencode_error_text, reencode_export_section,
    reencode_function_body, reencode_global, reencode_import,
    reencode_memory_type, reencode_table, reencode_tag_section, reencode_type_index,
    reencode_type_section,
};
use crate::error::VelaError;
use crate::text::{decimal, push_decimal};
use crate::ops::ExternKind;
use crate::rume::ModuleCounts;
use crate::wasm::{collect_items, lemma_reverse_front, read_imports, reversed, PayloadStream, Section};
use vstd::prelude::*;
use vstd::std_specs::iter::IteratorSpec;

verus! {

/// Number of indices `k` with `0 <= k < j` that are not in `removed`.
pub open spec fn kept_before(removed: Set<u32>, j: int) -> nat
    decreases j,
{
    if j <= 0 {
        0
    } else {
        kept_before(removed, j - 1) + if removed.contains((j - 1) as u32) {
            0nat
        } else {
            1nat
        }
    }
}

/// New position of old index `j` once the indices in `removed` are dropped
/// (0 for a removed index).
pub open spec fn compact_index(removed: Set<u32>, j: int) -> nat {
    if removed.contains(j as u32) {
        0
    } else {
        kept_before(removed, j)
    }
}

/// Where index `i` points after redirects are applied.
pub open spec fn redirect_target(redirects: Map<u32, u32>, i: u32) -> u32 {
    if redirects.contains_key(i) {
        redirects[i]
    } else {
        i
    }
}

/// Every redirect goes from an index below `n` to an index below `n`.
pub open spec fn redirects_in_range(redirects: Map<u32, u32>, n: u32) -> bool {
    forall|k: u32| #[trigger] redirects.contains_key(k) ==> k < n && redirects[k] < n
}

/// The index map that `build_index_map` returns, as a sequence.
pub open spec fn index_map_spec(n: u32, redirects: Map<u32, u32>, removed: Set<u32>) -> Seq<u32> {
    Seq::new(n as nat, |i: int| compact_index(removed, redirect_target(redirects, i as u32) as int) as u32)
}

pub proof fn lemma_kept_before_monotone(removed: Set<u32>, i: int, j: int)
    requires
        i <= j,
    ensures
        kept_before(removed, i) <= kept_before(removed, j),
        kept_before(removed, j) <= kept_before(removed, i) + (j - i) || j < 0 || i < 0,
    decreases j - i,
{
    if i < j {
        lemma_kept_before_monotone(removed, i, j - 1);
    }
}

pub proof fn lemma_kept_before_bound(removed: Set<u32>, j: int)
    requires
        0 <= j,
    ensures
        kept_before(removed, j) <= j,
    decreases j,
{
    if j > 0 {
        lemma_kept_before_bound(removed, j - 1);
    }
}

/// Compaction keeps the relative order of the indices that stay.
pub proof fn law_compaction_preserves_order(removed: Set<u32>, i: int, j: int)
    requires
        0 <= i < j,
        !removed.contains(i as u32),
        !removed.contains(j as u32),
    ensures
        compact_index(removed, i) < compact_index(removed, j),
{
    lemma_kept_before_monotone(removed, i + 1, j);
}

/// An index that stays below `n` gets a new index below the number of indices
/// that stay below `n`.
pub proof fn law_compaction_in_range(removed: Set<u32>, n: int, i: int)
    requires
        0 <= i < n,
        !removed.contains(i as u32),
    ensures
        compact_index(removed, i) < kept_before(removed, n),
{
    lemma_kept_before_monotone(removed, i + 1, n);
}

/// Every new index below the number of kept indices is taken by some kept old index.
pub proof fn law_compaction_onto(removed: Set<u32>, n: int, m: int)
    requires
        0 <= n,
        0 <= m < kept_before(removed, n),
    ensures
        exists|i: int| 0 <= i < n && !removed.contains(i as u32) && compact_index(removed, i) == m,
    decreases n,
{
    if m == kept_before(removed, n - 1) {
        assert(!removed.contains((n - 1) as u32));
        assert(compact_index(removed, n - 1) == m);
    } else {
        law_compaction_onto(removed, n - 1, m);
        let i = choose|i: int|
            0 <= i < n - 1 && !removed.contains(i as u32) && compact_index(removed, i) == m;
        assert(0 <= i < n && !removed.contains(i as u32) && compact_index(removed, i) == m);
    }
}

/// With no redirects and no removals the index map is the identity.
pub proof fn law_index_map_identity(n: u32, i: int)
    requires
        0 <= i < n,
    ensures
        index_map_spec(n, Map::empty(), Set::empty())[i] == i,
{
    lemma_kept_before_none(i);
}

proof fn lemma_kept_before_none(j: int)
    requires
        0 <= j,
    ensures
        kept_before(Set::empty(), j) == j,
    decreases j,
{
    if j > 0 {
        lemma_kept_before_none(j - 1);
    }
}

/// A redirected index gets the same new index as its target, when the target
/// is not itself redirected.
pub proof fn law_redirect_shares_index(
    n: u32,
    redirects: Map<u32, u32>,
    removed: Set<u32>,
    from: u32,
)
    requires
        redirects_in_range(redirects, n),
        redirects.contains_key(from),
        !redirects.contains_key(redirects[from]),
    ensures
        index_map_spec(n, redirects, removed)[from as int] == index_map_spec(
            n,
            redirects,
            removed,
        )[redirects[from] as int],
{
}

/// Build a mapping from old index to new index.
///
/// Two phases: redirects are applied first (a duplicate points at its
/// representative), then the index space is compacted: removed indices are
/// skipped and the remaining ones get consecutive new indices in their old order.
pub fn build_index_map(
    num_functions: u32,
    redirects: &HashMap<u32, u32>,
    removals: &HashSet<u32>,
) -> (map: Vec<u32>)
    requires
        redirects_in_range(redirects@, num_functions),
    ensures
        map@ == index_map_spec(num_functions, redirects@, removals@),
{
    let n = num_functions;
    let mut map: Vec<u32> = Vec::new();
    let mut i: u32 = 0;
    while i < n
        invariant
            i <= n,
            map@.len() == i,
            forall|k: int| 0 <= k < i ==> map@[k] == k,
        decreases n - i,
    {
        map.push(i);
        i = i + 1;
    }
    let ghost mut applied: Map<u32, u32> = Map::empty();
    let ghost pairs = vstd::std_specs::hash::spec_hash_map_iter(redirects).remaining();
    let ghost mut done: int = 0;
    for pair in it: redirects.iter()
        invariant
            map@.len() == n,
            redirects_in_range(redirects@, n),
            applied.submap_of(redirects@),
            it.seq() == pairs,
            done == it.index(),
            forall|j: int| 0 <= j < done ==> applied.contains_key(*#[trigger] pairs[j].0),
            forall|k: int| 0 <= k < n ==> map@[k] == redirect_target(applied, k as u32),
    {
        let (from, to) = pair;
        proof {
            assert(redirects@.contains_key(*from) && redirects@[*from] == *to);
        }
        map.set(*from as usize, *to);
        proof {
            applied = applied.insert(*from, *to);
            done = done + 1;
        }
    }
    proof {
        assert forall|k: u32| redirects@.contains_key(k) implies #[trigger] applied.contains_key(k) by {
            assert(pairs.contains((&k, &redirects@[k])));
            let j = choose|j: int| 0 <= j < pairs.len() && pairs[j] == (&k, &redirects@[k]);
            assert(applied.contains_key(*pairs[j].0));
        }
        assert(applied =~= redirects@);
    }
    let mut compact_map: Vec<u32> = Vec::new();
    let mut next_index: u32 = 0;
    let mut i: u32 = 0;
    while i < n
        invariant
            i <= n,
            compact_map@.len() == i,
            next_index == kept_before(removals@, i as int),
            forall|k: int| 0 <= k < i ==> compact_map@[k] == compact_index(removals@, k),
        decreases n - i,
    {
        proof {
            lemma_kept_before_bound(removals@, i as int);
        }
        if removals.contains(&i) {
            compact_map.push(0);
        } else {
            compact_map.push(next_index);
            next_index = next_index + 1;
        }
        i = i + 1;
    }
    let mut i: usize = 0;
    while i < n as usize
        invariant
            i <= n,
            map@.len() == n,
            compact_map@.len() == n,
            redirects_in_range(redirects@, n),
            forall|k: int| 0 <= k < n ==> compact_map@[k] == compact_index(removals@, k),
            forall|k: int| i <= k < n ==> map@[k] == redirect_target(redirects@, k as u32),
            forall|k: int|
                0 <= k < i ==> map@[k] == compact_index(
                    removals@,
                    redirect_target(redirects@, k as u32) as int,
                ),
        decreases n - i,
    {
        let target = map[i];
        proof {
            assert(redirect_target(redirects@, i as u32) < n);
        }
        let value = compact_map[target as usize];
        map.set(i, value);
        i = i + 1;
    }
    assert(map@ =~= index_map_spec(num_functions, redirects@, removals@));
    map
}

/// Sets of indices to remove from each index space.
pub struct Removals {
    pub functions: HashSet<u32>,
    pub tables: HashSet<u32>,
    pub memories: HashSet<u32>,
    pub globals: HashSet<u32>,
}

impl Removals {
    pub fn functions_only(functions: HashSet<u32>) -> (r: Self)
        ensures
            r.functions@ == functions@,
            r.tables@.is_empty(),
            r.memories@.is_empty(),
            r.globals@.is_empty(),
    {
        Removals {
            functions,
            tables: HashSet::new(),
            memories: HashSet::new(),
            globals: HashSet::new(),
        }
    }

    pub open spec fn spec_is_empty(&self) -> bool {
        &&& self.functions@.is_empty()
        &&& self.tables@.is_empty()
        &&& self.memories@.is_empty()
        &&& self.globals@.is_empty()
    }

    pub fn is_empty(&self) -> (r: bool)
        ensures
            r == self.spec_is_empty(),
    {
        self.functions.is_empty() && self.tables.is_empty() && self.memories.is_empty()
            && self.globals.is_empty()
    }
}

/// A re-encoder that remaps indices across all index spaces according to
/// precomputed maps (`None`: the index space is left as it is).
pub struct ModuleRenumberer {
    pub function_map: Vec<u32>,
    pub table_map: Option<Vec<u32>>,
    pub memory_map: Option<Vec<u32>>,
    pub global_map: Option<Vec<u32>>,
}

/// An index that a renumberer's map does not cover (the module refers to an
/// entry that its index space does not have).
#[derive(Clone, Copy, PartialEq, Eq, Structural, Debug)]
pub struct UnmappedIndex {
    pub index: u32,
}

/// The message for an index that a map does not cover, written as the
/// re-encoding errors of the other sections are.
pub open spec fn unmapped_index_message(u: UnmappedIndex) -> Seq<char> {
    "UserError(UnmappedIndex { index: "@ + decimal(u.index as nat) + " })"@
}

fn unmapped_index_text(u: UnmappedIndex) -> (s: String)
    ensures
        s@ == unmapped_index_message(u),
{
    let mut s = "UserError(UnmappedIndex { index: ".to_owned();
    push_decimal(&mut s, u.index as u64);
    s.push_str(" })");
    s
}

/// Where an optional map sends index `i`: `None` when a present map does not
/// cover it; an absent map leaves every index as it is.
pub open spec fn mapped_index(map: Option<Vec<u32>>, i: u32) -> Option<u32> {
    match map {
        Some(m) => if i < m@.len() {
            Some(m@[i as int])
        } else {
            None
        },
        None => Some(i),
    }
}

/// The result of looking `i` up through a map that may not cover it.
pub open spec fn lookup_result(found: Option<u32>, i: u32) -> Result<u32, UnmappedIndex> {
    match found {
        Some(j) => Ok(j),
        None => Err(UnmappedIndex { index: i }),
    }
}

fn lookup(map: &Option<Vec<u32>>, i: u32) -> (r: Result<u32, UnmappedIndex>)
    ensures
        r == lookup_result(mapped_index(*map, i), i),
{
    match map {
        Some(m) => {
            if (i as usize) < m.len() {
                Ok(m[i as usize])
            } else {
                Err(UnmappedIndex { index: i })
            }
        },
        None => Ok(i),
    }
}

impl ModuleRenumberer {
    pub fn function_only(function_map: Vec<u32>) -> (r: Self)
        ensures
            r.function_map@ == function_map@,
            r.table_map is None,
            r.memory_map is None,
            r.global_map is None,
    {
        ModuleRenumberer { function_map, table_map: None, memory_map: None, global_map: None }
    }

    /// The new index of function `func`.
    pub fn map_function(&self, func: u32) -> (r: Result<u32, UnmappedIndex>)
        ensures
            r == lookup_result(mapped_index(Some(self.function_map), func), func),
    {
        if (func as usize) < self.function_map.len() {
            Ok(self.function_map[func as usize])
        } else {
            Err(UnmappedIndex { index: func })
        }
    }

    /// The new index of table `table`.
    pub fn map_table(&self, table: u32) -> (r: Result<u32, UnmappedIndex>)
        ensures
            r == lookup_result(mapped_index(self.table_map, table), table),
    {
        lookup(&self.table_map, table)
    }

    /// The new index of memory `memory`.
    pub fn map_memory(&self, memory: u32) -> (r: Result<u32, UnmappedIndex>)
        ensures
            r == lookup_result(mapped_index(self.memory_map, memory), memory),
    {
        lookup(&self.memory_map, memory)
    }

    /// The new index of global `global`.
    pub fn map_global(&self, global: u32) -> (r: Result<u32, UnmappedIndex>)
        ensures
            r == lookup_result(mapped_index(self.global_map, global), global),
    {
        lookup(&self.global_map, global)
    }
}

impl Reencode for ModuleRenumberer {
    type Error = UnmappedIndex;

    /// Every function index that `wasm_encoder` re-encodes goes through the function map.
    #[verifier::external_body]
    fn function_index(&mut self, func: u32) -> Result<u32, Error<UnmappedIndex>> {
        self.map_function(func).map_err(Error::UserError)
    }

    /// Every table index goes through the table map.
    #[verifier::external_body]
    fn table_index(&mut self, table: u32) -> Result<u32, Error<UnmappedIndex>> {
        self.map_table(table).map_err(Error::UserError)
    }

    /// Every memory index goes through the memory map.
    #[verifier::external_body]
    fn memory_index(&mut self, memory: u32) -> Result<u32, Error<UnmappedIndex>> {
        self.map_memory(memory).map_err(Error::UserError)
    }

    /// Every global index goes through the global map.
    #[verifier::external_body]
    fn global_index(&mut self, global: u32) -> Result<u32, Error<UnmappedIndex>> {
        self.map_global(global).map_err(Error::UserError)
    }
}

/// The index space that an import of kind `k` belongs to: functions (of
/// either type form), tables, memories, globals, tags.
pub open spec fn space_of(k: ExternKind) -> int {
    match k {
        ExternKind::Func => 0,
        ExternKind::FuncExact => 0,
        ExternKind::Table => 1,
        ExternKind::Memory => 2,
        ExternKind::Global => 3,
        ExternKind::Tag => 4,
    }
}

/// How many of the first `n` imports belong to index space `sp`.
pub open spec fn count_in_space(kinds: Seq<ExternKind>, n: int, sp: int) -> nat
    decreases n,
{
    if n <= 0 {
        0
    } else {
        count_in_space(kinds, n - 1, sp) + if space_of(kinds[n - 1]) == sp {
            1nat
        } else {
            0nat
        }
    }
}

/// Import `i` stays: its index within its own index space is not removed
/// (tags are always kept).
pub open spec fn import_kept(kinds: Seq<ExternKind>, removals: &Removals, i: int) -> bool {
    let sp = space_of(kinds[i]);
    let idx = count_in_space(kinds, i, sp) as u32;
    if sp == 0 {
        !removals.functions@.contains(idx)
    } else if sp == 1 {
        !removals.tables@.contains(idx)
    } else if sp == 2 {
        !removals.memories@.contains(idx)
    } else if sp == 3 {
        !removals.globals@.contains(idx)
    } else {
        true
    }
}

proof fn lemma_count_in_space_bound(kinds: Seq<ExternKind>, n: int, sp: int)
    requires
        0 <= n,
    ensures
        count_in_space(kinds, n, sp) <= n,
    decreases n,
{
    if n > 0 {
        lemma_count_in_space_bound(kinds, n - 1, sp);
    }
}

/// For each import, whether it stays when `removals` are applied.
pub fn import_keep_flags(kinds: &Vec<ExternKind>, removals: &Removals) -> (keep: Vec<bool>)
    requires
        kinds@.len() <= u32::MAX,
    ensures
        keep@.len() == kinds@.len(),
        forall|i: int| 0 <= i < kinds@.len() ==> #[trigger] keep@[i] == import_kept(kinds@, removals, i),
{
    let mut keep: Vec<bool> = Vec::new();
    let mut func_idx: u32 = 0;
    let mut table_idx: u32 = 0;
    let mut memory_idx: u32 = 0;
    let mut global_idx: u32 = 0;
    let mut i: usize = 0;
    while i < kinds.len()
        invariant
            i <= kinds@.len(),
            kinds@.len() <= u32::MAX,
            keep@.len() == i,
            func_idx == count_in_space(kinds@, i as int, 0),
            table_idx == count_in_space(kinds@, i as int, 1),
            memory_idx == count_in_space(kinds@, i as int, 2),
            global_idx == count_in_space(kinds@, i as int, 3),
            forall|j: int| 0 <= j < i ==> #[trigger] keep@[j] == import_kept(kinds@, removals, j),
        decreases kinds@.len() - i,
    {
        proof {
            lemma_count_in_space_bound(kinds@, i as int, 0);
            lemma_count_in_space_bound(kinds@, i as int, 1);
            lemma_count_in_space_bound(kinds@, i as int, 2);
            lemma_count_in_space_bound(kinds@, i as int, 3);
        }
        let k = match kinds[i] {
            ExternKind::Func | ExternKind::FuncExact => {
                let s = !removals.functions.contains(&func_idx);
                func_idx = func_idx + 1;
                s
            },
            ExternKind::Table => {
                let s = !removals.tables.contains(&table_idx);
                table_idx = table_idx + 1;
                s
            },
            ExternKind::Memory => {
                let s = !removals.memories.contains(&memory_idx);
                memory_idx = memory_idx + 1;
                s
            },
            ExternKind::Global => {
                let s = !removals.globals.contains(&global_idx);
                global_idx = global_idx + 1;
                s
            },
            ExternKind::Tag => true,
        };
        keep.push(k);
        i = i + 1;
    }
    keep
}

/// For each of `count` entries whose indices start at `base`, whether it stays.
pub fn keep_flags(removed: &HashSet<u32>, base: u32, count: usize) -> (keep: Vec<bool>)
    requires
        base + count <= u32::MAX + 1,
    ensures
        keep@.len() == count,
        forall|i: int| 0 <= i < count ==> #[trigger] keep@[i] == !removed@.contains((base + i) as u32),
{
    let mut keep: Vec<bool> = Vec::new();
    let mut i: usize = 0;
    while i < count
        invariant
            i <= count,
            base + count <= u32::MAX + 1,
            keep@.len() == i,
            forall|j: int| 0 <= j < i ==> #[trigger] keep@[j] == !removed@.contains((base + j) as u32),
        decreases count - i,
    {
        let idx: u32 = base + i as u32;
        keep.push(!removed.contains(&idx));
        i = i + 1;
    }
    keep
}

/// The payloads that are written into the rebuilt module as soon as they are
/// read: every section but the code section, whose entries are gathered first.
pub open spec fn written_when_read(s: Section) -> bool {
    ||| s is Type
    ||| s is Import
    ||| s is Function
    ||| s is Table
    ||| s is Memory
    ||| s is Global
    ||| s is Tag
    ||| s is Export
    ||| s is Start
    ||| s is Element
    ||| s is DataCount
    ||| s is Data
    ||| s is Custom
}

/// Every section of a module but the code section is written as soon as it is
/// read: type, import, function, table, memory, global, tag, export, start,
/// element, data count, data and custom sections.
pub proof fn law_sections_written_when_read(s: Section)
    ensures
        s is Type || s is Import || s is Function || s is Table || s is Memory || s is Global || s is Tag
            || s is Export || s is Start || s is Element || s is DataCount || s is Data || s is Custom
            ==> written_when_read(s),
{
}

impl ModuleRenumberer {
    /// Rebuild one payload of a module into `module`: a function, import, table,
    /// memory or global section loses its removed entries; the entries of the
    /// code section are gathered in `code` (`code_index` of `code_count` so far)
    /// and written with the last one, without the bodies of removed functions;
    /// every other section is re-encoded through `reencoder`. What `module`
    /// held stays in front, and a payload that is `written_when_read` adds a
    /// section after it.
    fn rebuild_payload(
        module: Module,
        section: Section,
        reencoder: &mut ModuleRenumberer,
        removals: &Removals,
        num_imports: &ModuleCounts,
        code: &mut Option<CodeSection>,
        code_index: &mut u32,
        code_count: &mut u32,
    ) -> (r: Result<Module, VelaError>)
        ensures
            *final(reencoder) == *old(reencoder),
            r matches Err(e) ==> e.is_parse_error(),
            r matches Ok(m) ==> starts_with(module_content(m), module_content(module)),
            r matches Ok(m) ==> (written_when_read(section) ==> module_content(m).len() > module_content(module).len()),
    {
        let mut module = module;
        match section {
            Section::Function(reader) => {
                let types = collect_items(reader)?;
                if types.len() as u64 > u32::MAX as u64 + 1 - num_imports.num_func_imports as u64 {
                    return Err(VelaError::InvalidWasm("too many functions".to_owned()));
                }
                let keep = keep_flags(&removals.functions, num_imports.num_func_imports, types.len());
                let mut sec: FunctionSection = empty_section();
                let mut i: usize = 0;
                while i < types.len()
                    invariant
                        *reencoder == *old(reencoder),
                        i <= types@.len(),
                        keep@.len() == types@.len(),
                    decreases types@.len() - i,
                {
                    if keep[i] {
                        match reencode_type_index(reencoder, types[i]) {
                            Ok(t) => function_section_add(&mut sec, t),
                            Err(e) => return Err(VelaError::InvalidWasm(reencode_error_text(e))),
                        }
                    }
                    i = i + 1;
                }
                module_section(&mut module, &sec);
            },
            Section::CodeStart { count } => {
                *code_index = 0;
                *code_count = count;
                if count == 0 {
                    let sec: CodeSection = empty_section();
                    module_section(&mut module, &sec);
                } else {
                    *code = Some(empty_section());
                }
            },
            Section::CodeEntry(body) => {
                if *code_index > u32::MAX - num_imports.num_func_imports || *code_index == u32::MAX {
                    return Err(VelaError::InvalidWasm("too many functions".to_owned()));
                }
                let func_idx = num_imports.num_func_imports + *code_index;
                *code_index = *code_index + 1;
                if let Some(mut sec) = code.take() {
                    if !removals.functions.contains(&func_idx) {
                        if let Err(e) = reencode_function_body(reencoder, &mut sec, body) {
                            return Err(VelaError::InvalidWasm(reencode_error_text(e)));
                        }
                    }
                    if *code_index == *code_count {
                        module_section(&mut module, &sec);
                    } else {
                        *code = Some(sec);
                    }
                }
            },
            Section::Type(s) => {
                let mut sec: TypeSection = empty_section();
                if let Err(e) = reencode_type_section(reencoder, &mut sec, s) {
                    return Err(VelaError::InvalidWasm(reencode_error_text(e)));
                }
                module_section(&mut module, &sec);
            },
            Section::Import(reader) => {
                let imports = read_imports(reader)?;
                let n = imports.len();
                if n as u64 > u32::MAX as u64 {
                    return Err(VelaError::InvalidWasm("too many imports".to_owned()));
                }
                let mut kinds: Vec<ExternKind> = Vec::new();
                let mut i: usize = 0;
                while i < n
                    invariant
                        *reencoder == *old(reencoder),
                        i <= n,
                        n == imports@.len(),
                        kinds@.len() == i,
                    decreases n - i,
                {
                    kinds.push(imports[i].0);
                    i = i + 1;
                }
                let keep = import_keep_flags(&kinds, removals);
                let mut sec: ImportSection = empty_section();
                let ghost all = imports@;
                let mut rest = reversed(imports);
                let mut i: usize = 0;
                while i < n
                    invariant
                        *reencoder == *old(reencoder),
                        i <= n,
                        n == all.len(),
                        keep@.len() == n,
                        rest@ == all.subrange(i as int, n as int).reverse(),
                    decreases n - i,
                {
                    proof {
                        lemma_reverse_front(all, i as int);
                    }
                    let (_, import) = rest.pop().unwrap();
                    if keep[i] {
                        if let Err(e) = reencode_import(reencoder, &mut sec, import) {
                            return Err(VelaError::InvalidWasm(reencode_error_text(e)));
                        }
                    }
                    i = i + 1;
                }
                module_section(&mut module, &sec);
            },
            Section::Table(reader) => {
                let tables = collect_items(reader)?;
                let n = tables.len();
                if n as u64 > u32::MAX as u64 + 1 - num_imports.num_table_imports as u64 {
                    return Err(VelaError::InvalidWasm("too many tables".to_owned()));
                }
                let keep = keep_flags(&removals.tables, num_imports.num_table_imports, n);
                let mut sec: TableSection = empty_section();
                let ghost all = tables@;
                let mut rest = reversed(tables);
                let mut i: usize = 0;
                while i < n
                    invariant
                        *reencoder == *old(reencoder),
                        i <= n,
                        n == all.len(),
                        keep@.len() == n,
                        rest@ == all.subrange(i as int, n as int).reverse(),
                    decreases n - i,
                {
                    proof {
                        lemma_reverse_front(all, i as int);
                    }
                    let table = rest.pop().unwrap();
                    if keep[i] {
                        if let Err(e) = reencode_table(reencoder, &mut sec, table) {
                            return Err(VelaError::InvalidWasm(reencode_error_text(e)));
                        }
                    }
                    i = i + 1;
                }
                module_section(&mut module, &sec);
            },
            Section::Memory(reader) => {
                let memories = collect_items(reader)?;
                let n = memories.len();
                if n as u64 > u32::MAX as u64 + 1 - num_imports.num_memory_imports as u64 {
                    return Err(VelaError::InvalidWasm("too many memories".to_owned()));
                }
                let keep = keep_flags(&removals.memories, num_imports.num_memory_imports, n);
                let mut sec: MemorySection = empty_section();
                let ghost all = memories@;
                let mut rest = reversed(memories);
                let mut i: usize = 0;
                while i < n
                    invariant
                        *reencoder == *old(reencoder),
                        i <= n,
                        n == all.len(),
                        keep@.len() == n,
                        rest@ == all.subrange(i as int, n as int).reverse(),
                    decreases n - i,
                {
                    proof {
                        lemma_reverse_front(all, i as int);
                    }
                    let memory = rest.pop().unwrap();
                    if keep[i] {
                        match reencode_memory_type(reencoder, memory) {
                            Ok(m) => memory_section_add(&mut sec, m),
                            Err(e) => return Err(VelaError::InvalidWasm(reencode_error_text(e))),
                        }
                    }
                    i = i + 1;
                }
                module_section(&mut module, &sec);
            },
            Section::Global(reader) => {
                let globals = collect_items(reader)?;
                let n = globals.len();
                if n as u64 > u32::MAX as u64 + 1 - num_imports.num_global_imports as u64 {
                    return Err(VelaError::InvalidWasm("too many globals".to_owned()));
                }
                let keep = keep_flags(&removals.globals, num_imports.num_global_imports, n);
                let mut sec: GlobalSection = empty_section();
                let ghost all = globals@;
                let mut rest = reversed(globals);
                let mut i: usize = 0;
                while i < n
                    invariant
                        *reencoder == *old(reencoder),
                        i <= n,
                        n == all.len(),
                        keep@.len() == n,
                        rest@ == all.subrange(i as int, n as int).reverse(),
                    decreases n - i,
                {
                    proof {
                        lemma_reverse_front(all, i as int);
                    }
                    let global = rest.pop().unwrap();
                    if keep[i] {
                        if let Err(e) = reencode_global(reencoder, &mut sec, global) {
                            return Err(VelaError::InvalidWasm(reencode_error_text(e)));
                        }
                    }
                    i = i + 1;
                }
                module_section(&mut module, &sec);
            },
            Section::Tag(s) => {
                let mut sec: TagSection = empty_section();
                if let Err(e) = reencode_tag_section(reencoder, &mut sec, s) {
                    return Err(VelaError::InvalidWasm(reencode_error_text(e)));
                }
                module_section(&mut module, &sec);
            },
            Section::Export(s) => {
                let mut sec: ExportSection = empty_section();
                if let Err(e) = reencode_export_section(reencoder, &mut sec, s) {
                    return Err(VelaError::InvalidWasm(reencode_error_text(e)));
                }
                module_section(&mut module, &sec);
            },
            Section::Start { func } => {
                match reencoder.map_function(func) {
                    Ok(f) => module_start_section(&mut module, f),
                    Err(u) => return Err(VelaError::InvalidWasm(unmapped_index_text(u))),
                }
            },
            Section::Element(s) => {
                let mut sec: ElementSection = empty_section();
                if let Err(e) = reencode_element_section(reencoder, &mut sec, s) {
                    return Err(VelaError::InvalidWasm(reencode_error_text(e)));
                }
                module_section(&mut module, &sec);
            },
            Section::DataCount { count } => {
                module_data_count_section(&mut module, count);
            },
            Section::Data(s) => {
                let mut sec: DataSection = empty_section();
                if let Err(e) = reencode_data_section(reencoder, &mut sec, s) {
                    return Err(VelaError::InvalidWasm(reencode_error_text(e)));
                }
                module_section(&mut module, &sec);
            },
            Section::Custom(s) => {
                if let Err(e) = reencode_custom_section(reencoder, &mut module, s) {
                    return Err(VelaError::InvalidWasm(reencode_error_text(e)));
                }
            },
            _ => {},
        }
        Ok(module)
    }
}

/// Re-encode a core WASM module, removing entries listed in `removals` and
/// remapping all index references through `reencoder`.
///
/// The function and code sections skip the entries of removed function
/// indices; the import section skips imports whose index in their own index
/// space is removed; the table, memory and global sections skip removed
/// entries. Every other section is re-encoded through `reencoder`, which
/// rewrites each index reference.
pub fn rebuild_module(
    module_bytes: &[u8],
    reencoder: &mut ModuleRenumberer,
    removals: &Removals,
    num_imports: &ModuleCounts,
) -> (r: Result<Vec<u8>, VelaError>)
    ensures
        *final(reencoder) == *old(reencoder),
        r matches Err(e) ==> e.is_parse_error(),
        r matches Ok(out) ==> starts_with(out@, core_module_header()),
{
    let mut module = module_new();
    let mut stream = PayloadStream::new(module_bytes);
    let mut code: Option<CodeSection> = None;
    let mut code_index: u32 = 0;
    let mut code_count: u32 = 0;
    loop
        invariant
            stream.wf(),
            *reencoder == *old(reencoder),
            starts_with(module_content(module), core_module_header()),
        decreases stream.remaining(), stream.depth(),
    {
        let item = match stream.next() {
            None => break,
            Some(Err(e)) => return Err(e),
            Some(Ok(item)) => item,
        };
        module = ModuleRenumberer::rebuild_payload(
            module,
            item.section,
            reencoder,
            removals,
            num_imports,
            &mut code,
            &mut code_index,
            &mut code_count,
        )?;
    }
    Ok(module_finish(module))
}

} // verus!
