use std::collections::HashSet;
use vstd::prelude::*;
use vstd::std_specs::iter::IteratorSpec;

use crate::error::VelaError;
use crate::ops::{function_kind, is_function_kind, ExternKind, Op};
use crate::wasm::{lemma_reverse_front, read_elements, read_exports, reversed, ElemInfo, PayloadStream, Section};
use crate::callgraph::{
    closed_under_calls, is_call_path, lemma_closed_contains_reached, lemma_path_extend,
    lemma_root_reaches_itself, reaches, CallGraph,
};

verus! {

broadcast use vstd::set_lib::full_set_properties;

/// What root finding reads from a module, as plain values.
pub struct RootFacts {
    /// Every export: its kind and index.
    pub exports: Vec<(ExternKind, u32)>,
    /// The function of each start section.
    pub starts: Vec<u32>,
    /// The function indices of each element segment given as a list of functions.
    pub elem_functions: Vec<Vec<u32>>,
    /// The operators of each element expression of element segments given as expressions.
    pub elem_exprs: Vec<Vec<Op>>,
}

/// Function `f` must be kept whatever the call graph says: it is imported,
/// exported, a start function, or placed in a table by an element segment.
pub open spec fn is_root(facts: &RootFacts, num_imports: u32, f: u32) -> bool {
    ||| f < num_imports
    ||| exists|e: int|
        0 <= e < facts.exports@.len() && #[trigger] facts.exports@[e] == (facts.exports@[e].0, f)
            && is_function_kind(facts.exports@[e].0)
    ||| facts.starts@.contains(f)
    ||| exists|s: int, i: int|
        0 <= s < facts.elem_functions@.len() && 0 <= i < facts.elem_functions@[s]@.len()
            && #[trigger] facts.elem_functions@[s]@[i] == f
    ||| exists|x: int, o: int|
        0 <= x < facts.elem_exprs@.len() && 0 <= o < facts.elem_exprs@[x]@.len()
            && #[trigger] facts.elem_exprs@[x]@[o] == Op::RefFunc(f)
}

/// Insert every element of `v` into `set`.
fn insert_all(set: &mut HashSet<u32>, v: &Vec<u32>)
    ensures
        forall|x: u32| #[trigger] final(set)@.contains(x) <==> old(set)@.contains(x) || v@.contains(x),
{
    let ghost s0 = set@;
    let mut i: usize = 0;
    while i < v.len()
        invariant
            i <= v@.len(),
            forall|x: u32| #[trigger] set@.contains(x) <==> s0.contains(x) || v@.take(i as int).contains(x),
        decreases v@.len() - i,
    {
        set.insert(v[i]);
        proof {
            assert forall|x: u32| #[trigger] set@.contains(x) <==> s0.contains(x) || v@.take(i + 1).contains(x) by {
                if v@.take(i + 1).contains(x) {
                    let j = choose|j: int| 0 <= j < i + 1 && #[trigger] v@.take(i + 1)[j] == x;
                    if j < i {
                        assert(v@.take(i as int)[j] == x);
                    }
                }
                if v@.take(i as int).contains(x) {
                    let j = choose|j: int| 0 <= j < i && #[trigger] v@.take(i as int)[j] == x;
                    assert(v@.take(i + 1)[j] == x);
                }
                if x == v@[i as int] {
                    assert(v@.take(i + 1)[i as int] == x);
                }
            }
        }
        i = i + 1;
    }
    proof {
        assert(v@.take(v@.len() as int) =~= v@);
    }
}

/// The root set: every imported function, every exported function, every
/// start function and every function that an element segment places in a
/// table (listed directly or through `ref.func`).
pub fn roots_from_facts(facts: &RootFacts, num_imports: u32) -> (roots: HashSet<u32>)
    ensures
        forall|f: u32| #[trigger] roots@.contains(f) <==> is_root(facts, num_imports, f),
{
    let mut roots: HashSet<u32> = HashSet::new();
    let mut i: u32 = 0;
    while i < num_imports
        invariant
            i <= num_imports,
            forall|f: u32| #[trigger] roots@.contains(f) <==> f < i,
        decreases num_imports - i,
    {
        roots.insert(i);
        i = i + 1;
    }
    let mut e: usize = 0;
    while e < facts.exports.len()
        invariant
            e <= facts.exports@.len(),
            forall|f: u32|
                #[trigger] roots@.contains(f) <==> f < num_imports || exists|a: int|
                    0 <= a < e && #[trigger] facts.exports@[a] == (facts.exports@[a].0, f)
                        && is_function_kind(facts.exports@[a].0),
        decreases facts.exports@.len() - e,
    {
        let (kind, index) = facts.exports[e];
        if function_kind(kind) {
            roots.insert(index);
        }
        proof {
            assert forall|f: u32| #[trigger] roots@.contains(f) <==> f < num_imports || exists|a: int|
                0 <= a < e + 1 && #[trigger] facts.exports@[a] == (facts.exports@[a].0, f)
                    && is_function_kind(facts.exports@[a].0) by {
                if facts.exports@[e as int] == (facts.exports@[e as int].0, f) && is_function_kind(
                    facts.exports@[e as int].0,
                ) {
                    assert(roots@.contains(f));
                }
            }
        }
        e = e + 1;
    }
    let ghost after_exports = roots@;
    insert_all(&mut roots, &facts.starts);
    let ghost after_starts = roots@;
    let mut s: usize = 0;
    while s < facts.elem_functions.len()
        invariant
            s <= facts.elem_functions@.len(),
            forall|f: u32|
                #[trigger] roots@.contains(f) <==> after_starts.contains(f) || exists|a: int, i: int|
                    0 <= a < s && 0 <= i < facts.elem_functions@[a]@.len()
                        && #[trigger] facts.elem_functions@[a]@[i] == f,
        decreases facts.elem_functions@.len() - s,
    {
        let ghost before = roots@;
        insert_all(&mut roots, &facts.elem_functions[s]);
        proof {
            assert forall|f: u32| #[trigger] roots@.contains(f) <==> after_starts.contains(f) || exists|a: int, i: int|
                0 <= a < s + 1 && 0 <= i < facts.elem_functions@[a]@.len()
                    && #[trigger] facts.elem_functions@[a]@[i] == f by {
                if facts.elem_functions@[s as int]@.contains(f) {
                    let i = choose|i: int| 0 <= i < facts.elem_functions@[s as int]@.len() && facts.elem_functions@[s as int]@[i] == f;
                    assert(facts.elem_functions@[s as int]@[i] == f);
                }
                if exists|i: int| 0 <= i < facts.elem_functions@[s as int]@.len() && facts.elem_functions@[s as int]@[i] == f {
                    let i = choose|i: int| 0 <= i < facts.elem_functions@[s as int]@.len() && facts.elem_functions@[s as int]@[i] == f;
                    assert(facts.elem_functions@[s as int]@.contains(f));
                }
            }
        }
        s = s + 1;
    }
    let ghost after_elems = roots@;
    let mut x: usize = 0;
    while x < facts.elem_exprs.len()
        invariant
            x <= facts.elem_exprs@.len(),
            forall|f: u32|
                #[trigger] roots@.contains(f) <==> after_elems.contains(f) || exists|a: int, o: int|
                    0 <= a < x && 0 <= o < facts.elem_exprs@[a]@.len()
                        && #[trigger] facts.elem_exprs@[a]@[o] == Op::RefFunc(f),
        decreases facts.elem_exprs@.len() - x,
    {
        let expr = &facts.elem_exprs[x];
        let ghost before = roots@;
        let mut o: usize = 0;
        while o < expr.len()
            invariant
                o <= expr@.len(),
                *expr == facts.elem_exprs@[x as int],
                forall|f: u32|
                    #[trigger] roots@.contains(f) <==> before.contains(f) || exists|p: int|
                        0 <= p < o && expr@[p] == Op::RefFunc(f),
            decreases expr@.len() - o,
        {
            if let Op::RefFunc(f) = expr[o] {
                roots.insert(f);
            }
            proof {
                assert forall|f: u32| #[trigger] roots@.contains(f) <==> before.contains(f) || exists|p: int|
                    0 <= p < o + 1 && expr@[p] == Op::RefFunc(f) by {
                    if expr@[o as int] == Op::RefFunc(f) {
                        assert(roots@.contains(f));
                    }
                }
            }
            o = o + 1;
        }
        proof {
            assert forall|f: u32| #[trigger] roots@.contains(f) <==> after_elems.contains(f) || exists|a: int, o: int|
                0 <= a < x + 1 && 0 <= o < facts.elem_exprs@[a]@.len()
                    && #[trigger] facts.elem_exprs@[a]@[o] == Op::RefFunc(f) by {
                if exists|p: int| 0 <= p < expr@.len() && expr@[p] == Op::RefFunc(f) {
                    let p = choose|p: int| 0 <= p < expr@.len() && expr@[p] == Op::RefFunc(f);
                    assert(facts.elem_exprs@[x as int]@[p] == Op::RefFunc(f));
                }
            }
        }
        x = x + 1;
    }
    roots
}

/// `roots` is the root set of some module facts, for `num_imports` imports.
pub open spec fn is_root_set(roots: Set<u32>, num_imports: u32) -> bool {
    exists|facts: RootFacts| #[trigger] roots_of_facts(&facts, num_imports, roots)
}

/// `roots` holds exactly the roots that `facts` give.
pub open spec fn roots_of_facts(facts: &RootFacts, num_imports: u32, roots: Set<u32>) -> bool {
    forall|f: u32| #[trigger] roots.contains(f) <==> is_root(facts, num_imports, f)
}

/// The function lists of those segments of `segs` that list functions, in order.
pub open spec fn segment_function_lists(segs: Seq<ElemInfo>) -> Seq<Vec<u32>>
    decreases segs.len(),
{
    if segs.len() == 0 {
        Seq::empty()
    } else {
        segment_function_lists(segs.drop_last()) + match segs.last().functions {
            Some(v) => seq![v],
            None => Seq::empty(),
        }
    }
}

/// The item expressions of those segments of `segs` that list expressions, in order.
pub open spec fn segment_exprs(segs: Seq<ElemInfo>) -> Seq<Vec<Op>>
    decreases segs.len(),
{
    if segs.len() == 0 {
        Seq::empty()
    } else {
        segment_exprs(segs.drop_last()) + match segs.last().exprs {
            Some(v) => v@,
            None => Seq::empty(),
        }
    }
}

/// `facts` holds exactly the exports `exports`, the start functions `starts`
/// and the items of the element segments `segs` of a module, in order.
pub open spec fn records_roots(
    facts: &RootFacts,
    exports: Seq<(ExternKind, u32)>,
    starts: Seq<u32>,
    segs: Seq<ElemInfo>,
) -> bool {
    &&& facts.exports@ == exports
    &&& facts.starts@ == starts
    &&& facts.elem_functions@ == segment_function_lists(segs)
    &&& facts.elem_exprs@ == segment_exprs(segs)
}

/// `roots` is the root set of the exports, start functions and element
/// segments read from a module with `num_imports` function imports.
pub open spec fn roots_read(roots: Set<u32>, num_imports: u32) -> bool {
    exists|facts: RootFacts, exports: Seq<(ExternKind, u32)>, starts: Seq<u32>, segs: Seq<ElemInfo>|
        #[trigger] records_roots(&facts, exports, starts, segs) && roots_of_facts(&facts, num_imports, roots)
}

/// Recording one more segment adds its function list and its item expressions at the end.
pub proof fn lemma_record_segment(segs: Seq<ElemInfo>, seg: ElemInfo)
    ensures
        segment_function_lists(segs.push(seg)) == segment_function_lists(segs) + match seg.functions {
            Some(v) => seq![v],
            None => Seq::empty(),
        },
        segment_exprs(segs.push(seg)) == segment_exprs(segs) + match seg.exprs {
            Some(v) => v@,
            None => Seq::empty(),
        },
{
    assert(segs.push(seg).drop_last() =~= segs);
}

/// The items of segment `s` are among the recorded items of `segs`.
proof fn lemma_segment_items_recorded(segs: Seq<ElemInfo>, s: int)
    requires
        0 <= s < segs.len(),
    ensures
        segs[s].functions matches Some(v) ==> segment_function_lists(segs).contains(v),
        segs[s].exprs matches Some(x) ==> forall|e: int| 0 <= e < x@.len() ==> segment_exprs(segs).contains(#[trigger] x@[e]),
    decreases segs.len(),
{
    let prev = segs.drop_last();
    if s < segs.len() - 1 {
        lemma_segment_items_recorded(prev, s);
        assert(prev[s] == segs[s]);
        if let Some(v) = segs[s].functions {
            let a = choose|a: int| 0 <= a < segment_function_lists(prev).len() && segment_function_lists(prev)[a] == v;
            assert(segment_function_lists(segs)[a] == v);
        }
        if let Some(x) = segs[s].exprs {
            assert forall|e: int| 0 <= e < x@.len() implies segment_exprs(segs).contains(#[trigger] x@[e]) by {
                assert(segment_exprs(prev).contains(x@[e]));
                let a = choose|a: int| 0 <= a < segment_exprs(prev).len() && segment_exprs(prev)[a] == x@[e];
                assert(segment_exprs(segs)[a] == x@[e]);
            }
        }
    } else {
        if let Some(v) = segs[s].functions {
            assert(segment_function_lists(segs)[segment_function_lists(prev).len() as int] == v);
        }
        if let Some(x) = segs[s].exprs {
            assert forall|e: int| 0 <= e < x@.len() implies segment_exprs(segs).contains(#[trigger] x@[e]) by {
                assert(segment_exprs(segs)[segment_exprs(prev).len() + e] == x@[e]);
            }
        }
    }
}

/// Every function that the root facts of a module must keep is a root:
/// each imported function, each exported function, each start function,
/// each function that an element segment lists, and each function that a
/// `ref.func` in an element segment's item expressions names.
pub proof fn law_recorded_functions_are_roots(
    facts: &RootFacts,
    exports: Seq<(ExternKind, u32)>,
    starts: Seq<u32>,
    segs: Seq<ElemInfo>,
    num_imports: u32,
    roots: Set<u32>,
    f: u32,
)
    requires
        records_roots(facts, exports, starts, segs),
        roots_of_facts(facts, num_imports, roots),
    ensures
        f < num_imports ==> roots.contains(f),
        exports.contains((ExternKind::Func, f)) ==> roots.contains(f),
        starts.contains(f) ==> roots.contains(f),
        forall|s: int|
            0 <= s < segs.len() && segs[s].functions is Some && (#[trigger] segs[s].functions->0@).contains(f)
                ==> roots.contains(f),
        forall|s: int, e: int, o: int|
            0 <= s < segs.len() && segs[s].exprs is Some && 0 <= e < segs[s].exprs->0@.len() && 0 <= o
                < segs[s].exprs->0@[e]@.len() && #[trigger] segs[s].exprs->0@[e]@[o] == Op::RefFunc(f)
                ==> roots.contains(f),
{
    if exports.contains((ExternKind::Func, f)) {
        let e = choose|e: int| 0 <= e < exports.len() && exports[e] == (ExternKind::Func, f);
        assert(facts.exports@[e] == (facts.exports@[e].0, f));
    }
    assert forall|s: int|
        0 <= s < segs.len() && segs[s].functions is Some && (#[trigger] segs[s].functions->0@).contains(f) implies roots.contains(
        f,
    ) by {
        lemma_segment_items_recorded(segs, s);
        let v = segs[s].functions->0;
        let a = choose|a: int| 0 <= a < facts.elem_functions@.len() && facts.elem_functions@[a] == v;
        let i = choose|i: int| 0 <= i < v@.len() && v@[i] == f;
        assert(facts.elem_functions@[a]@[i] == f);
    }
    assert forall|s: int, e: int, o: int|
        0 <= s < segs.len() && segs[s].exprs is Some && 0 <= e < segs[s].exprs->0@.len() && 0 <= o
            < segs[s].exprs->0@[e]@.len() && #[trigger] segs[s].exprs->0@[e]@[o] == Op::RefFunc(f) implies roots.contains(
        f,
    ) by {
        lemma_segment_items_recorded(segs, s);
        let x = segs[s].exprs->0;
        assert(segment_exprs(segs).contains(x@[e]));
        let a = choose|a: int| 0 <= a < facts.elem_exprs@.len() && facts.elem_exprs@[a] == x@[e];
        assert(facts.elem_exprs@[a]@[o] == Op::RefFunc(f));
    }
}

/// Find the functions that must be kept whatever the call graph says:
/// imported functions, exported functions, start functions and functions
/// placed in tables by element segments.
pub fn find_roots(module_bytes: &[u8], graph: &CallGraph) -> (r: Result<HashSet<u32>, VelaError>)
    ensures
        r matches Ok(roots) ==> is_root_set(roots@, graph.num_imports),
        r matches Ok(roots) ==> forall|f: u32| f < graph.num_imports ==> #[trigger] roots@.contains(f),
        r matches Ok(roots) ==> roots_read(roots@, graph.num_imports),
{
    let mut stream = PayloadStream::new(module_bytes);
    let mut facts = RootFacts {
        exports: Vec::new(),
        starts: Vec::new(),
        elem_functions: Vec::new(),
        elem_exprs: Vec::new(),
    };
    // The exports, start functions and element segments read so far.
    let ghost mut exports_read: Seq<(ExternKind, u32)> = Seq::empty();
    let ghost mut starts_read: Seq<u32> = Seq::empty();
    let ghost mut segs_read: Seq<ElemInfo> = Seq::empty();
    loop
        invariant
            stream.wf(),
            records_roots(&facts, exports_read, starts_read, segs_read),
        decreases stream.remaining(), stream.depth(),
    {
        let item = match stream.next() {
            None => break,
            Some(Err(e)) => return Err(e),
            Some(Ok(item)) => item,
        };
        match item.section {
            Section::Export(reader) => {
                let mut exports = read_exports(reader)?;
                proof {
                    exports_read = exports_read + exports@;
                }
                facts.exports.append(&mut exports);
            },
            Section::Start { func } => {
                facts.starts.push(func);
                proof {
                    starts_read = starts_read.push(func);
                }
            },
            Section::Element(reader) => {
                let segs = read_elements(reader, true)?;
                let ghost all = segs@;
                let n = segs.len();
                let mut rest = reversed(segs);
                let mut i: usize = 0;
                while i < n
                    invariant
                        i <= n,
                        n == all.len(),
                        rest@ == all.subrange(i as int, n as int).reverse(),
                        records_roots(&facts, exports_read, starts_read, segs_read),
                    decreases n - i,
                {
                    proof {
                        lemma_reverse_front(all, i as int);
                    }
                    let seg = rest.pop().unwrap();
                    let ghost fl0 = facts.elem_functions@;
                    let ghost ex0 = facts.elem_exprs@;
                    proof {
                        lemma_record_segment(segs_read, seg);
                        segs_read = segs_read.push(seg);
                    }
                    let ghost g = seg;
                    if let Some(fs) = seg.functions {
                        facts.elem_functions.push(fs);
                    }
                    if let Some(mut exprs) = seg.exprs {
                        facts.elem_exprs.append(&mut exprs);
                    }
                    proof {
                        assert(facts.elem_functions@ =~= fl0 + match g.functions {
                            Some(v) => seq![v],
                            None => Seq::empty(),
                        });
                        assert(facts.elem_exprs@ =~= ex0 + match g.exprs {
                            Some(v) => v@,
                            None => Seq::empty(),
                        });
                    }
                    i = i + 1;
                }
            },
            _ => {},
        }
    }
    let roots = roots_from_facts(&facts, graph.num_imports);
    assert(roots_of_facts(&facts, graph.num_imports, roots@));
    assert(records_roots(&facts, exports_read, starts_read, segs_read));
    Ok(roots)
}

/// Every function reachable from `roots` through the call graph.
///
/// A depth-first search: a worklist starts with the roots; each function taken
/// from it for the first time is marked and its callees that are not yet
/// marked are added.
pub fn find_reachable(roots: &HashSet<u32>, graph: &CallGraph) -> (reachable: HashSet<u32>)
    ensures
        forall|f: u32| #[trigger] reachable@.contains(f) <==> reaches(graph, roots@, f),
        closed_under_calls(graph, roots@, reachable@),
{
    let mut reachable: HashSet<u32> = HashSet::new();
    let mut stack: Vec<u32> = Vec::new();
    let ghost rs = roots@;
    let ghost full = Set::<u32>::full();
    for r in it: roots.iter()
        invariant
            rs == roots@,
            it.seq() == vstd::std_specs::hash::spec_hash_keys_iter(roots).remaining(),
            stack@.len() == it.index(),
            forall|i: int| 0 <= i < it.index() ==> stack@[i] == *it.seq()[i],
    {
        stack.push(*r);
    }
    proof {
        let s = vstd::std_specs::hash::spec_hash_keys_iter(roots).remaining();
        assert forall|x: u32| rs.contains(x) implies #[trigger] stack@.contains(x) by {
            assert(s.unref().to_set().contains(x));
            let i = choose|i: int| 0 <= i < s.unref().len() && s.unref()[i] == x;
            assert(stack@[i] == x);
        }
        assert forall|i: int| 0 <= i < stack@.len() implies reaches(graph, rs, #[trigger] stack@[i]) by {
            assert(s.unref()[i] == *s[i]);
            assert(s.unref().contains(*s[i]));
            assert(s.unref().to_set().contains(*s[i]));
            lemma_root_reaches_itself(graph, rs, stack@[i]);
        }
        vstd::set_lib::lemma_len_subset(reachable@, full);
    }
    while stack.len() > 0
        invariant
            rs == roots@,
            full == Set::<u32>::full(),
            reachable@.finite(),
            reachable@.len() <= full.len(),
            forall|x: u32| #[trigger] reachable@.contains(x) ==> reaches(graph, rs, x),
            forall|i: int| 0 <= i < stack@.len() ==> reaches(graph, rs, #[trigger] stack@[i]),
            forall|x: u32| #[trigger] rs.contains(x) ==> reachable@.contains(x) || stack@.contains(x),
            forall|x: u32, y: u32|
                reachable@.contains(x) && #[trigger] graph.callees(x).contains(y) ==> reachable@.contains(y)
                    || stack@.contains(y),
        decreases full.len() - reachable@.len(), stack@.len(),
    {
        let ghost old_stack = stack@;
        let func = stack.pop().unwrap();
        proof {
            assert(old_stack == stack@.push(func));
            assert(reaches(graph, rs, old_stack[old_stack.len() - 1]));
            assert forall|y: u32| old_stack.contains(y) && y != func implies stack@.contains(y) by {
                let i = choose|i: int| 0 <= i < old_stack.len() && old_stack[i] == y;
                assert(stack@[i] == y);
            }
        }
        let ghost old_reachable = reachable@;
        if !reachable.insert(func) {
            continue;
        }
        proof {
            vstd::set_lib::lemma_set_subset_finite(full, reachable@);
            vstd::set_lib::lemma_len_subset(reachable@, full);
        }
        match graph.edges.get(&func) {
            Some(callees) => {
                let ghost mut done: int = 0;
                let ghost cs = vstd::std_specs::hash::spec_hash_keys_iter(callees).remaining();
                proof {
                    assert forall|j: int| 0 <= j < cs.len() implies callees@.contains(*#[trigger] cs[j]) by {
                        assert(cs.unref()[j] == *cs[j]);
                        assert(cs.unref().contains(*cs[j]));
                        assert(cs.unref().to_set().contains(*cs[j]));
                    }
                }
                for callee_ref in it: callees.iter()
                    invariant
                        rs == roots@,
                        full == Set::<u32>::full(),
                        reachable@.finite(),
                        reachable@.len() <= full.len(),
                        reachable@.len() == old_reachable.len() + 1,
                        reachable@.contains(func),
                        graph.edges@.contains_key(func),
                        graph.edges@[func] == *callees,
                        it.seq() == cs,
                        done == it.index(),
                        reaches(graph, rs, func),
                        forall|x: u32| #[trigger] reachable@.contains(x) ==> reaches(graph, rs, x),
                        forall|i: int| 0 <= i < stack@.len() ==> reaches(graph, rs, #[trigger] stack@[i]),
                        forall|x: u32|
                            #[trigger] rs.contains(x) ==> reachable@.contains(x) || stack@.contains(x),
                        forall|x: u32, y: u32|
                            reachable@.contains(x) && x != func && #[trigger] graph.callees(x).contains(y)
                                ==> reachable@.contains(y) || stack@.contains(y),
                        forall|j: int|
                            0 <= j < done ==> reachable@.contains(*#[trigger] cs[j]) || stack@.contains(
                                *cs[j],
                            ),
                        forall|j: int| 0 <= j < cs.len() ==> callees@.contains(*#[trigger] cs[j]),
                {
                    let callee = *callee_ref;
                    proof {
                        assert(callees@.contains(*cs[done]));
                    }
                    if !reachable.contains(&callee) {
                        let ghost before = stack@;
                        stack.push(callee);
                        proof {
                            let p = choose|p: Seq<u32>|
                                #[trigger] is_call_path(graph, p) && rs.contains(p[0]) && p.last() == func;
                            lemma_path_extend(graph, p, callee);
                            assert(is_call_path(graph, p.push(callee)));
                            assert(stack@.last() == callee);
                            assert forall|y: u32| before.contains(y) implies stack@.contains(y) by {
                                let i = choose|i: int| 0 <= i < before.len() && before[i] == y;
                                assert(stack@[i] == y);
                            }
                            assert(stack@.contains(callee)) by {
                                assert(stack@[stack@.len() - 1] == callee);
                            }
                        }
                    }
                    proof {
                        done = done + 1;
                    }
                }
                proof {
                    assert forall|y: u32| #[trigger] graph.callees(func).contains(y) implies reachable@.contains(
                        y,
                    ) || stack@.contains(y) by {
                        assert(callees@.contains(y));
                        assert(cs.unref().to_set().contains(y));
                        let j = choose|j: int| 0 <= j < cs.unref().len() && cs.unref()[j] == y;
                        assert(*cs[j] == y);
                    }
                }
            },
            None => {},
        }
    }
    proof {
        assert(closed_under_calls(graph, rs, reachable@));
        assert forall|f: u32| reaches(graph, rs, f) implies #[trigger] reachable@.contains(f) by {
            let p = choose|p: Seq<u32>| #[trigger] is_call_path(graph, p) && rs.contains(p[0]) && p.last() == f;
            lemma_closed_contains_reached(graph, rs, reachable@, p);
        }
    }
    reachable
}

/// With no roots nothing is reachable.
pub proof fn law_nothing_reached_without_roots(graph: &CallGraph, f: u32)
    ensures
        !reaches(graph, Set::<u32>::empty(), f),
{
}

/// Reachability from two sets of roots together is reachability from either
/// one of them.
pub proof fn law_reach_from_union(graph: &CallGraph, a: Set<u32>, b: Set<u32>, f: u32)
    ensures
        reaches(graph, a.union(b), f) <==> reaches(graph, a, f) || reaches(graph, b, f),
{
    if reaches(graph, a.union(b), f) {
        let p = choose|p: Seq<u32>| #[trigger] is_call_path(graph, p) && a.union(b).contains(p[0]) && p.last() == f;
        assert(is_call_path(graph, p));
    }
    if reaches(graph, a, f) {
        let p = choose|p: Seq<u32>| #[trigger] is_call_path(graph, p) && a.contains(p[0]) && p.last() == f;
        assert(is_call_path(graph, p) && a.union(b).contains(p[0]));
    }
    if reaches(graph, b, f) {
        let p = choose|p: Seq<u32>| #[trigger] is_call_path(graph, p) && b.contains(p[0]) && p.last() == f;
        assert(is_call_path(graph, p) && a.union(b).contains(p[0]));
    }
}

/// Searching again from what was reached finds nothing new: the functions
/// reachable from the reachable functions are the reachable functions.
pub proof fn law_reach_is_idempotent(graph: &CallGraph, roots: Set<u32>, f: u32)
    ensures
        reaches(graph, Set::new(|x: u32| reaches(graph, roots, x)), f) <==> reaches(graph, roots, f),
{
    let s = Set::new(|x: u32| reaches(graph, roots, x));
    assert forall|x: u32, y: u32| s.contains(x) && #[trigger] graph.callees(x).contains(y) implies s.contains(y) by {
        let p = choose|p: Seq<u32>| #[trigger] is_call_path(graph, p) && roots.contains(p[0]) && p.last() == x;
        lemma_path_extend(graph, p, y);
        assert(is_call_path(graph, p.push(y)));
    }
    assert(closed_under_calls(graph, s, s));
    if reaches(graph, s, f) {
        let q = choose|q: Seq<u32>| #[trigger] is_call_path(graph, q) && s.contains(q[0]) && q.last() == f;
        lemma_closed_contains_reached(graph, s, s, q);
    }
    if reaches(graph, roots, f) {
        lemma_root_reaches_itself(graph, s, f);
    }
}

} // verus!
