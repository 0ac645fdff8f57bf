use std::collections::{HashMap, HashSet};
use vstd::prelude::*;

use crate::error::VelaError;
use crate::ops::{function_import_count, function_kind, law_function_imports_counted, ExternKind};
use crate::wasm::{body_bytes, collect_items, read_imports, PayloadStream, Section};

verus! {

/// Duplicate functions found among the reachable defined functions.
pub struct DfeResult {
    /// Duplicate function index -> its representative.
    pub redirects: HashMap<u32, u32>,
    /// The duplicate function indices (the keys of `redirects`).
    pub removals: HashSet<u32>,
}

/// Defined functions `j` and `k` (code-section positions) have the same type
/// index and byte-identical bodies.
pub open spec fn same_code(types: Seq<u32>, bodies: Seq<Seq<u8>>, j: int, k: int) -> bool {
    types[j] == types[k] && bodies[j] == bodies[k]
}

/// Defined function `j` comes before `k`, is reachable, and has the same code.
pub open spec fn dup_candidate(
    num_imports: u32,
    types: Seq<u32>,
    bodies: Seq<Seq<u8>>,
    reach: Set<u32>,
    j: int,
    k: int,
) -> bool {
    &&& 0 <= j < k
    &&& reach.contains((num_imports + j) as u32)
    &&& same_code(types, bodies, j, k)
}

/// The first candidate at or after `j` for `k`, or `k` itself when there is none.
pub open spec fn first_same(
    num_imports: u32,
    types: Seq<u32>,
    bodies: Seq<Seq<u8>>,
    reach: Set<u32>,
    k: int,
    j: int,
) -> int
    decreases k - j,
{
    if j >= k {
        k
    } else if dup_candidate(num_imports, types, bodies, reach, j, k) {
        j
    } else {
        first_same(num_imports, types, bodies, reach, k, j + 1)
    }
}

/// The representative of defined function `k`: the first reachable defined
/// function with the same code (possibly `k` itself).
pub open spec fn representative(
    num_imports: u32,
    types: Seq<u32>,
    bodies: Seq<Seq<u8>>,
    reach: Set<u32>,
    k: int,
) -> int {
    first_same(num_imports, types, bodies, reach, k, 0)
}

/// Defined function `k` is reachable and an earlier reachable function has the same code.
pub open spec fn is_duplicate(
    num_imports: u32,
    types: Seq<u32>,
    bodies: Seq<Seq<u8>>,
    reach: Set<u32>,
    k: int,
) -> bool {
    &&& 0 <= k < bodies.len()
    &&& reach.contains((num_imports + k) as u32)
    &&& representative(num_imports, types, bodies, reach, k) < k
}

/// The result of duplicate detection over the given code, stated exactly.
pub open spec fn dfe_result_spec(
    num_imports: u32,
    types: Seq<u32>,
    bodies: Seq<Seq<u8>>,
    reach: Set<u32>,
    redirects: Map<u32, u32>,
    removals: Set<u32>,
) -> bool {
    &&& removals == redirects.dom()
    &&& forall|f: u32|
        #[trigger] redirects.contains_key(f) ==> num_imports <= f < num_imports + bodies.len()
    &&& forall|k: int|
        0 <= k < bodies.len() ==> (#[trigger] redirects.contains_key((num_imports + k) as u32)
            <==> is_duplicate(num_imports, types, bodies, reach, k))
    &&& forall|k: int|
        is_duplicate(num_imports, types, bodies, reach, k) ==> #[trigger] redirects[(num_imports
            + k) as u32] == (num_imports + representative(
            num_imports,
            types,
            bodies,
            reach,
            k,
        )) as u32
}

pub proof fn lemma_first_same(
    num_imports: u32,
    types: Seq<u32>,
    bodies: Seq<Seq<u8>>,
    reach: Set<u32>,
    k: int,
    j: int,
)
    requires
        0 <= j <= k,
    ensures
        j <= first_same(num_imports, types, bodies, reach, k, j) <= k,
        first_same(num_imports, types, bodies, reach, k, j) < k ==> dup_candidate(
            num_imports,
            types,
            bodies,
            reach,
            first_same(num_imports, types, bodies, reach, k, j),
            k,
        ),
        forall|i: int|
            j <= i < first_same(num_imports, types, bodies, reach, k, j) ==> !dup_candidate(
                num_imports,
                types,
                bodies,
                reach,
                i,
                k,
            ),
    decreases k - j,
{
    if j < k && !dup_candidate(num_imports, types, bodies, reach, j, k) {
        lemma_first_same(num_imports, types, bodies, reach, k, j + 1);
    }
}

/// The representative of a duplicate is not itself a duplicate.
pub proof fn law_representative_is_not_duplicate(
    num_imports: u32,
    types: Seq<u32>,
    bodies: Seq<Seq<u8>>,
    reach: Set<u32>,
    k: int,
)
    requires
        is_duplicate(num_imports, types, bodies, reach, k),
        types.len() >= bodies.len(),
    ensures
        !is_duplicate(
            num_imports,
            types,
            bodies,
            reach,
            representative(num_imports, types, bodies, reach, k),
        ),
        reach.contains((num_imports + representative(num_imports, types, bodies, reach, k)) as u32),
        same_code(types, bodies, representative(num_imports, types, bodies, reach, k), k),
{
    let r = representative(num_imports, types, bodies, reach, k);
    lemma_first_same(num_imports, types, bodies, reach, k, 0);
    lemma_first_same(num_imports, types, bodies, reach, r, 0);
    let r2 = representative(num_imports, types, bodies, reach, r);
    if r2 < r {
        assert(dup_candidate(num_imports, types, bodies, reach, r2, k));
    }
}

/// Every duplicate is a reachable function redirected to an earlier reachable
/// function with the same type and body, which is kept (neither redirected
/// nor removed itself).
pub proof fn law_duplicates_redirect_to_kept(
    num_imports: u32,
    types: Seq<u32>,
    bodies: Seq<Seq<u8>>,
    reach: Set<u32>,
    redirects: Map<u32, u32>,
    removals: Set<u32>,
    f: u32,
)
    requires
        dfe_result_spec(num_imports, types, bodies, reach, redirects, removals),
        types.len() >= bodies.len(),
        num_imports + bodies.len() <= u32::MAX + 1,
        redirects.contains_key(f),
    ensures
        reach.contains(f),
        reach.contains(redirects[f]),
        num_imports <= redirects[f] < f,
        !redirects.contains_key(redirects[f]),
        removals.contains(f),
        !removals.contains(redirects[f]),
        same_code(types, bodies, redirects[f] - num_imports, f - num_imports),
{
    let k = f - num_imports;
    assert((num_imports + k) as u32 == f);
    assert(is_duplicate(num_imports, types, bodies, reach, k));
    let r = representative(num_imports, types, bodies, reach, k);
    law_representative_is_not_duplicate(num_imports, types, bodies, reach, k);
    lemma_first_same(num_imports, types, bodies, reach, k, 0);
    assert(redirects[f] == (num_imports + r) as u32);
    assert(0 <= r < bodies.len());
    assert(!redirects.contains_key((num_imports + r) as u32));
}

/// The result of duplicate detection on some type indices and bodies.
pub open spec fn is_dfe_result_for(reach: Set<u32>, redirects: Map<u32, u32>, removals: Set<u32>) -> bool {
    exists|num_imports: u32, types: Seq<u32>, bodies: Seq<Seq<u8>>|
        #[trigger] dfe_result_spec(num_imports, types, bodies, reach, redirects, removals)
            && types.len() >= bodies.len() && num_imports + bodies.len() <= u32::MAX + 1
}

/// The result of duplicate detection on the code of a module whose imports
/// have kinds `kinds`: its defined functions are numbered after its function
/// imports.
pub open spec fn is_dfe_result_after_imports(reach: Set<u32>, redirects: Map<u32, u32>, removals: Set<u32>) -> bool {
    exists|kinds: Seq<ExternKind>, n: u32, types: Seq<u32>, bodies: Seq<Seq<u8>>|
        #![trigger dfe_result_spec(n, types, bodies, reach, redirects, removals), function_import_count(kinds)]
        n == function_import_count(kinds) && dfe_result_spec(n, types, bodies, reach, redirects, removals)
            && types.len() >= bodies.len() && n + bodies.len() <= u32::MAX + 1
}

/// Duplicates are found in the module's own function index space: with the
/// imports of kinds `kinds` numbered first, a redirect `f -> t` joins two
/// reachable defined functions, at code positions `f - n` and `t - n` for
/// `n` function imports, with the same type index and body bytes; `t` comes
/// first and is kept.
pub proof fn law_redirects_between_defined_functions(
    kinds: Seq<ExternKind>,
    types: Seq<u32>,
    bodies: Seq<Seq<u8>>,
    reach: Set<u32>,
    redirects: Map<u32, u32>,
    removals: Set<u32>,
    f: u32,
)
    requires
        dfe_result_spec(function_import_count(kinds) as u32, types, bodies, reach, redirects, removals),
        types.len() >= bodies.len(),
        function_import_count(kinds) + bodies.len() <= u32::MAX + 1,
        redirects.contains_key(f),
    ensures
        function_import_count(kinds) <= redirects[f] < f < function_import_count(kinds) + bodies.len(),
        types[f - function_import_count(kinds)] == types[redirects[f] - function_import_count(kinds)],
        bodies[f - function_import_count(kinds)] == bodies[redirects[f] - function_import_count(kinds)],
        reach.contains(f) && reach.contains(redirects[f]),
        !redirects.contains_key(redirects[f]),
{
    let n = function_import_count(kinds) as u32;
    law_duplicates_redirect_to_kept(n, types, bodies, reach, redirects, removals, f);
}

/// Detect duplicate functions among the reachable defined functions of a
/// core module: two are duplicates when they have the same type index and
/// identical body bytes.
pub fn find_duplicates(module_bytes: &[u8], reachable: &HashSet<u32>) -> (r: Result<DfeResult, VelaError>)
    ensures
        r matches Ok(d) ==> is_dfe_result_for(reachable@, d.redirects@, d.removals@),
        r matches Ok(d) ==> is_dfe_result_after_imports(reachable@, d.redirects@, d.removals@),
{
    let mut stream = PayloadStream::new(module_bytes);
    let mut num_imports: u32 = 0;
    let mut type_indices: Vec<u32> = Vec::new();
    let mut bodies: Vec<&[u8]> = Vec::new();
    // The kinds of the imports read so far.
    let ghost mut kinds: Seq<ExternKind> = Seq::empty();
    proof {
        law_function_imports_counted(kinds, ExternKind::Func);
    }
    loop
        invariant
            stream.wf(),
            num_imports == function_import_count(kinds),
        decreases stream.remaining(), stream.depth(),
    {
        let item = match stream.next() {
            None => break,
            Some(Err(e)) => return Err(e),
            Some(Ok(item)) => item,
        };
        match item.section {
            Section::Import(reader) => {
                let imports = read_imports(reader)?;
                let mut i: usize = 0;
                while i < imports.len()
                    invariant
                        i <= imports@.len(),
                        num_imports == function_import_count(kinds),
                    decreases imports@.len() - i,
                {
                    if function_kind(imports[i].0) {
                        if num_imports == u32::MAX {
                            return Err(VelaError::InvalidWasm("too many imports".to_owned()));
                        }
                        num_imports = num_imports + 1;
                    }
                    proof {
                        law_function_imports_counted(kinds, imports[i as int].0);
                        kinds = kinds.push(imports[i as int].0);
                    }
                    i = i + 1;
                }
            },
            Section::Function(reader) => {
                let mut types = collect_items(reader)?;
                type_indices.append(&mut types);
            },
            Section::CodeEntry(body) => {
                bodies.push(body_bytes(&body));
            },
            _ => {},
        }
    }
    if bodies.len() > type_indices.len() {
        return Err(VelaError::InvalidWasm("more function bodies than declared functions".to_owned()));
    }
    if bodies.len() as u64 > u32::MAX as u64 + 1 - num_imports as u64 {
        return Err(VelaError::InvalidWasm("too many functions".to_owned()));
    }
    let d = group_duplicates(num_imports, &type_indices, &bodies, reachable);
    assert(dfe_result_spec(num_imports, type_indices@, body_views(bodies@), reachable@, d.redirects@, d.removals@));
    assert(function_import_count(kinds) == num_imports);
    Ok(d)
}

/// Byte-wise equality of two slices.
pub fn bytes_equal(a: &[u8], b: &[u8]) -> (r: bool)
    ensures
        r == (a@ == b@),
{
    if a.len() != b.len() {
        return false;
    }
    let mut i: usize = 0;
    while i < a.len()
        invariant
            a@.len() == b@.len(),
            i <= a@.len(),
            forall|j: int| 0 <= j < i ==> a@[j] == b@[j],
        decreases a@.len() - i,
    {
        if a[i] != b[i] {
            return false;
        }
        i = i + 1;
    }
    assert(a@ =~= b@);
    true
}

pub open spec fn body_views(bodies: Seq<&[u8]>) -> Seq<Seq<u8>> {
    bodies.map_values(|b: &[u8]| b@)
}

/// The bucket of defined function `j`: its type index and the length of its
/// body (modulo 2^32). Functions with the same code share a bucket.
pub open spec fn bucket_of(types: Seq<u32>, bodies: Seq<Seq<u8>>, j: int) -> u64 {
    (types[j] as int * 0x1_0000_0000 + bodies[j].len() % 0x1_0000_0000) as u64
}

/// A bucket of representatives found before position `k`: in increasing
/// order, each reachable, its own representative, and in bucket `key`.
pub open spec fn bucket_ok(
    num_imports: u32,
    types: Seq<u32>,
    bodies: Seq<Seq<u8>>,
    reach: Set<u32>,
    k: int,
    key: u64,
    b: Seq<usize>,
) -> bool {
    &&& forall|a: int, c: int| 0 <= a < c < b.len() ==> b[a] < b[c]
    &&& forall|a: int|
        0 <= a < b.len() ==> {
            &&& #[trigger] b[a] < k
            &&& reach.contains((num_imports + b[a]) as u32)
            &&& representative(num_imports, types, bodies, reach, b[a] as int) == b[a]
            &&& bucket_of(types, bodies, b[a] as int) == key
        }
}

/// The bucket key of a type index and a body length.
fn bucket_key(ty: u32, len: usize) -> (key: u64)
    ensures
        key == (ty as int * 0x1_0000_0000 + len as int % 0x1_0000_0000) as u64,
{
    (ty as u64) * 0x1_0000_0000 + (len as u64) % 0x1_0000_0000
}

/// Group the reachable defined functions by (type index, body bytes).
///
/// `type_indices[k]` and `bodies[k]` describe defined function `k`, whose index
/// in the function index space is `num_imports + k`. For each reachable
/// function, the first reachable function with the same type index and
/// identical body bytes is its representative; every other member of the
/// group is redirected to the representative and marked for removal.
/// Unreachable functions take no part. Representatives are kept in buckets
/// by type index and body length, so only functions that may have the same
/// code are compared.
pub fn group_duplicates(
    num_imports: u32,
    type_indices: &Vec<u32>,
    bodies: &Vec<&[u8]>,
    reachable: &HashSet<u32>,
) -> (result: DfeResult)
    requires
        bodies@.len() <= type_indices@.len(),
        num_imports + bodies@.len() <= u32::MAX + 1,
    ensures
        dfe_result_spec(
            num_imports,
            type_indices@,
            body_views(bodies@),
            reachable@,
            result.redirects@,
            result.removals@,
        ),
{
    let ghost types = type_indices@;
    let ghost bv = body_views(bodies@);
    let ghost reach = reachable@;
    let mut redirects: HashMap<u32, u32> = HashMap::new();
    let mut removals: HashSet<u32> = HashSet::new();
    let mut buckets: HashMap<u64, Vec<usize>> = HashMap::new();
    let mut k: usize = 0;
    while k < bodies.len()
        invariant
            types == type_indices@,
            bv == body_views(bodies@),
            reach == reachable@,
            bodies@.len() <= type_indices@.len(),
            num_imports + bodies@.len() <= u32::MAX + 1,
            k <= bodies@.len(),
            removals@ == redirects@.dom(),
            forall|key: u64| #[trigger]
                buckets@.contains_key(key) ==> bucket_ok(num_imports, types, bv, reach, k as int, key, buckets@[key]@),
            forall|j: int|
                0 <= j < k && reach.contains((num_imports + j) as u32) && #[trigger] representative(
                    num_imports,
                    types,
                    bv,
                    reach,
                    j,
                ) == j ==> buckets@.contains_key(bucket_of(types, bv, j)) && buckets@[bucket_of(
                    types,
                    bv,
                    j,
                )]@.contains(j as usize),
            forall|f: u32| #[trigger]
                redirects@.contains_key(f) ==> num_imports <= f < num_imports + k,
            forall|j: int|
                0 <= j < k ==> (#[trigger] redirects@.contains_key((num_imports + j) as u32)
                    <==> is_duplicate(num_imports, types, bv, reach, j)),
            forall|j: int|
                0 <= j < k && is_duplicate(num_imports, types, bv, reach, j)
                    ==> #[trigger] redirects@[(num_imports + j) as u32] == (num_imports
                    + representative(num_imports, types, bv, reach, j)) as u32,
        decreases bodies@.len() - k,
    {
        let func_idx: u32 = num_imports + k as u32;
        if !reachable.contains(&func_idx) {
            proof {
                assert(!is_duplicate(num_imports, types, bv, reach, k as int));
                assert forall|key: u64| #[trigger] buckets@.contains_key(key) implies bucket_ok(
                    num_imports,
                    types,
                    bv,
                    reach,
                    k + 1,
                    key,
                    buckets@[key]@,
                ) by {
                    assert(bucket_ok(num_imports, types, bv, reach, k as int, key, buckets@[key]@));
                }
            }
            k = k + 1;
            continue;
        }
        proof {
            lemma_first_same(num_imports, types, bv, reach, k as int, 0);
            assert(bv[k as int] == bodies@[k as int]@);
        }
        let ghost rep = representative(num_imports, types, bv, reach, k as int);
        let key = bucket_key(type_indices[k], bodies[k].len());
        assert(key == bucket_of(types, bv, k as int));
        let empty: Vec<usize> = Vec::new();
        let bucket: &Vec<usize> = match buckets.get(&key) {
            Some(b) => b,
            None => &empty,
        };
        assert(buckets@.contains_key(key) ==> bucket@ == buckets@[key]@);
        assert(!buckets@.contains_key(key) ==> bucket@.len() == 0);
        let mut found: Option<usize> = None;
        let mut r: usize = 0;
        while r < bucket.len()
            invariant_except_break
                found is None,
            invariant
                types == type_indices@,
                bv == body_views(bodies@),
                k < bodies@.len(),
                bodies@.len() <= type_indices@.len(),
                r <= bucket@.len(),
                forall|a: int| 0 <= a < bucket@.len() ==> bucket@[a] < k,
                forall|a: int| 0 <= a < r ==> !same_code(types, bv, #[trigger] bucket@[a] as int, k as int),
            ensures
                found matches Some(j) ==> exists|a: int|
                    0 <= a < bucket@.len() && bucket@[a] == j && same_code(types, bv, j as int, k as int)
                        && forall|c: int| 0 <= c < a ==> !same_code(types, bv, #[trigger] bucket@[c] as int, k as int),
                found is None ==> forall|a: int|
                    0 <= a < bucket@.len() ==> !same_code(types, bv, #[trigger] bucket@[a] as int, k as int),
            decreases bucket@.len() - r,
        {
            let j = bucket[r];
            if type_indices[j] == type_indices[k] && bytes_equal(bodies[j], bodies[k]) {
                proof {
                    assert(bv[j as int] == bodies@[j as int]@);
                    assert(bv[k as int] == bodies@[k as int]@);
                    assert(same_code(types, bv, j as int, k as int));
                }
                found = Some(j);
                break;
            }
            proof {
                assert(bv[j as int] == bodies@[j as int]@);
                assert(bv[k as int] == bodies@[k as int]@);
            }
            r = r + 1;
        }
        match found {
            Some(j) => {
                proof {
                    let a = choose|a: int|
                        0 <= a < bucket@.len() && bucket@[a] == j && same_code(types, bv, j as int, k as int)
                            && forall|c: int| 0 <= c < a ==> !same_code(types, bv, #[trigger] bucket@[c] as int, k as int);
                    assert(buckets@.contains_key(key));
                    assert(bucket_ok(num_imports, types, bv, reach, k as int, key, bucket@));
                    assert(bucket@[a] < k);
                    assert(reach.contains((num_imports + bucket@[a]) as u32));
                    assert(dup_candidate(num_imports, types, bv, reach, j as int, k as int));
                    assert(rep <= j);
                    if rep < j {
                        law_representative_is_not_duplicate(num_imports, types, bv, reach, k as int);
                        lemma_first_same(num_imports, types, bv, reach, rep, 0);
                        assert(representative(num_imports, types, bv, reach, rep) == rep);
                        assert(bucket_of(types, bv, rep) == key);
                        assert(bucket@.contains(rep as usize));
                        let c = choose|c: int| 0 <= c < bucket@.len() && bucket@[c] == rep as usize;
                        if c >= a {
                            if c > a {
                                assert(bucket@[a] < bucket@[c]);
                            }
                        }
                        assert(!same_code(types, bv, bucket@[c] as int, k as int));
                    }
                    assert(rep == j);
                }
                let target: u32 = num_imports + j as u32;
                redirects.insert(func_idx, target);
                removals.insert(func_idx);
                proof {
                    assert forall|key2: u64| #[trigger] buckets@.contains_key(key2) implies bucket_ok(
                        num_imports,
                        types,
                        bv,
                        reach,
                        k + 1,
                        key2,
                        buckets@[key2]@,
                    ) by {
                        assert(bucket_ok(num_imports, types, bv, reach, k as int, key2, buckets@[key2]@));
                    }
                    assert(representative(num_imports, types, bv, reach, k as int) != k);
                }
            },
            None => {
                proof {
                    if rep < k {
                        law_representative_is_not_duplicate(num_imports, types, bv, reach, k as int);
                        lemma_first_same(num_imports, types, bv, reach, rep, 0);
                        assert(representative(num_imports, types, bv, reach, rep) == rep);
                        assert(bucket_of(types, bv, rep) == key);
                        assert(buckets@.contains_key(key));
                        assert(bucket@.contains(rep as usize));
                        let c = choose|c: int| 0 <= c < bucket@.len() && bucket@[c] == rep as usize;
                        assert(!same_code(types, bv, bucket@[c] as int, k as int));
                    }
                    assert(rep == k);
                }
                let ghost old_buckets = buckets@;
                let mut members: Vec<usize> = match buckets.remove(&key) {
                    Some(v) => v,
                    None => Vec::new(),
                };
                let ghost before = members@;
                assert(old_buckets.contains_key(key) ==> before == old_buckets[key]@);
                assert(!old_buckets.contains_key(key) ==> before.len() == 0);
                members.push(k);
                buckets.insert(key, members);
                proof {
                    assert forall|key2: u64| #[trigger] buckets@.contains_key(key2) implies bucket_ok(
                        num_imports,
                        types,
                        bv,
                        reach,
                        k + 1,
                        key2,
                        buckets@[key2]@,
                    ) by {
                        if key2 == key {
                            let b = buckets@[key2]@;
                            assert(b == before.push(k));
                            if old_buckets.contains_key(key) {
                                assert(bucket_ok(num_imports, types, bv, reach, k as int, key, before));
                            }
                            assert forall|a: int, c: int| 0 <= a < c < b.len() implies b[a] < b[c] by {
                                if c < before.len() {
                                    assert(b[a] == before[a] && b[c] == before[c]);
                                } else {
                                    assert(b[a] == before[a]);
                                    assert(before[a] < k);
                                }
                            }
                            assert forall|a: int| 0 <= a < b.len() implies {
                                &&& #[trigger] b[a] < k + 1
                                &&& reach.contains((num_imports + b[a]) as u32)
                                &&& representative(num_imports, types, bv, reach, b[a] as int) == b[a]
                                &&& bucket_of(types, bv, b[a] as int) == key2
                            } by {
                                if a < before.len() {
                                    assert(b[a] == before[a]);
                                }
                            }
                        } else {
                            assert(old_buckets.contains_key(key2));
                            assert(buckets@[key2] == old_buckets[key2]);
                            assert(bucket_ok(num_imports, types, bv, reach, k as int, key2, old_buckets[key2]@));
                        }
                    }
                    assert forall|j: int|
                        0 <= j < k + 1 && reach.contains((num_imports + j) as u32) && #[trigger] representative(
                            num_imports,
                            types,
                            bv,
                            reach,
                            j,
                        ) == j implies buckets@.contains_key(bucket_of(types, bv, j)) && buckets@[bucket_of(
                        types,
                        bv,
                        j,
                    )]@.contains(j as usize) by {
                        if j < k {
                            let kj = bucket_of(types, bv, j);
                            assert(old_buckets.contains_key(kj) && old_buckets[kj]@.contains(j as usize));
                            if kj == key {
                                let c = choose|c: int| 0 <= c < before.len() && before[c] == j as usize;
                                assert(buckets@[kj]@[c] == j as usize);
                            } else {
                                assert(buckets@[kj] == old_buckets[kj]);
                            }
                        } else {
                            assert(buckets@[key]@[before.len() as int] == k);
                        }
                    }
                }
            },
        }
        k = k + 1;
    }
    DfeResult { redirects, removals }
}

} // verus!
