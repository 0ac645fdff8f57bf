use std::collections::{HashMap, HashSet};
use vstd::prelude::*;

use crate::error::VelaError;
use crate::ops::{function_import_count, function_kind, function_of, law_function_imports_counted, op_function, ExternKind, Op};
use crate::wasm::{body_ops, read_imports, section_count, PayloadStream, Section};

verus! {

/// Direct call edges between the functions of one core module, in the
/// module's function index space (imports first, then defined functions).
pub struct CallGraph {
    pub edges: HashMap<u32, HashSet<u32>>,
    pub num_functions: u32,
    pub num_imports: u32,
}

impl CallGraph {
    /// The functions that `f` refers to directly.
    pub open spec fn callees(&self, f: u32) -> Set<u32> {
        if self.edges@.contains_key(f) {
            self.edges@[f]@
        } else {
            Set::empty()
        }
    }
}

/// The functions referred to by `call`, `return_call` or `ref.func` in `ops`.
pub open spec fn body_callees(ops: Seq<Op>) -> Set<u32> {
    Set::new(|t: u32| exists|o: int| 0 <= o < ops.len() && op_function(ops[o]) == Some(t))
}

/// The call graph of a module whose function section (if any) declares
/// `declared` functions and whose code section holds `bodies`, after
/// `num_imports` imported functions.
pub open spec fn graph_spec(
    num_imports: u32,
    declared: Option<u32>,
    bodies: Seq<Vec<Op>>,
    g: &CallGraph,
) -> bool {
    &&& g.num_imports == num_imports
    &&& g.num_functions == match declared {
        Some(c) => num_imports + c,
        None => 0,
    }
    &&& forall|f: u32| #[trigger]
        g.edges@.contains_key(f) <==> num_imports <= f < num_imports + bodies.len()
    &&& forall|k: int|
        0 <= k < bodies.len() ==> #[trigger] g.edges@[(num_imports + k) as u32]@ == body_callees(
            bodies[k]@,
        )
}

impl CallGraph {
    /// Build the call graph from the operators of each function body.
    ///
    /// Function `num_imports + k` is the body at position `k`; its edges are
    /// the targets of its `call`, `return_call` and `ref.func` operators.
    /// Indirect calls add no edge. `num_functions` is the number of imported
    /// functions plus the function section's count, or 0 when the module has
    /// no function section.
    pub fn from_code(num_imports: u32, declared: Option<u32>, bodies: &Vec<Vec<Op>>) -> (g: CallGraph)
        requires
            num_imports + bodies@.len() <= u32::MAX + 1,
            declared matches Some(c) ==> num_imports + c <= u32::MAX,
        ensures
            graph_spec(num_imports, declared, bodies@, &g),
    {
        let mut edges: HashMap<u32, HashSet<u32>> = HashMap::new();
        let mut k: usize = 0;
        while k < bodies.len()
            invariant
                k <= bodies@.len(),
                num_imports + bodies@.len() <= u32::MAX + 1,
                forall|f: u32| #[trigger] edges@.contains_key(f) <==> num_imports <= f < num_imports + k,
                forall|j: int|
                    0 <= j < k ==> #[trigger] edges@[(num_imports + j) as u32]@ == body_callees(
                        bodies@[j]@,
                    ),
            decreases bodies@.len() - k,
        {
            let ops = &bodies[k];
            let mut callees: HashSet<u32> = HashSet::new();
            let mut o: usize = 0;
            while o < ops.len()
                invariant
                    o <= ops@.len(),
                    forall|t: u32|
                        #[trigger] callees@.contains(t) <==> exists|p: int|
                            0 <= p < o && op_function(ops@[p]) == Some(t),
                decreases ops@.len() - o,
            {
                if let Some(t) = function_of(ops[o]) {
                    callees.insert(t);
                }
                proof {
                    assert forall|t: u32| #[trigger] callees@.contains(t) <==> exists|p: int|
                        0 <= p < o + 1 && op_function(ops@[p]) == Some(t) by {
                        if op_function(ops@[o as int]) == Some(t) {
                            assert(callees@.contains(t));
                        }
                    }
                }
                o = o + 1;
            }
            proof {
                assert(callees@ =~= body_callees(ops@));
            }
            let func_index: u32 = num_imports + k as u32;
            edges.insert(func_index, callees);
            proof {
                assert forall|j: int| 0 <= j < k + 1 implies #[trigger] edges@[(num_imports + j) as u32]@
                    == body_callees(bodies@[j]@) by {
                    if j < k {
                        assert((num_imports + j) as u32 != func_index);
                    }
                }
            }
            k = k + 1;
        }
        let num_functions = match declared {
            Some(c) => num_imports + c,
            None => 0,
        };
        CallGraph { edges, num_functions, num_imports }
    }
}

/// `g` is the call graph of some import count, function count and code.
pub open spec fn is_graph_of_some_code(g: &CallGraph) -> bool {
    exists|n: u32, d: Option<u32>, bodies: Seq<Vec<Op>>| #[trigger] graph_spec(n, d, bodies, g)
}

/// `g` is the call graph of the code read from a module whose imports have
/// kinds `kinds`: its defined functions are numbered after its function imports.
pub open spec fn is_graph_after_imports(g: &CallGraph) -> bool {
    exists|kinds: Seq<ExternKind>, n: u32, d: Option<u32>, bodies: Seq<Vec<Op>>|
        #![trigger graph_spec(n, d, bodies, g), function_import_count(kinds)]
        n == function_import_count(kinds) && graph_spec(n, d, bodies, g) && n + bodies.len() <= u32::MAX + 1
}

impl CallGraph {
    /// Read a core module and build its call graph.
    ///
    /// Imported functions come first in the index space; each body of the code
    /// section is scanned for `call`, `return_call` and `ref.func`. Any
    /// parse error is returned.
    pub fn from_module(module_bytes: &[u8]) -> (r: Result<CallGraph, VelaError>)
        ensures
            r matches Ok(g) ==> is_graph_of_some_code(&g),
            r matches Ok(g) ==> is_graph_after_imports(&g),
    {
        let mut stream = PayloadStream::new(module_bytes);
        let mut num_imports: u32 = 0;
        let mut declared: Option<u32> = None;
        let mut bodies: Vec<Vec<Op>> = Vec::new();
        // The kinds of the imports read so far.
        let ghost mut kinds: Seq<ExternKind> = Seq::empty();
        proof {
            law_function_imports_counted(kinds, ExternKind::Func);
        }
        loop
            invariant
                stream.wf(),
                num_imports == function_import_count(kinds),
            decreases stream.remaining(), stream.depth(),
        {
            let item = match stream.next() {
                None => break,
                Some(Err(e)) => return Err(e),
                Some(Ok(item)) => item,
            };
            match item.section {
                Section::Import(reader) => {
                    let imports = read_imports(reader)?;
                    let mut i: usize = 0;
                    while i < imports.len()
                        invariant
                            i <= imports@.len(),
                            num_imports == function_import_count(kinds),
                        decreases imports@.len() - i,
                    {
                        if function_kind(imports[i].0) {
                            if num_imports == u32::MAX {
                                return Err(VelaError::InvalidWasm("too many imports".to_owned()));
                            }
                            num_imports = num_imports + 1;
                        }
                        proof {
                            law_function_imports_counted(kinds, imports[i as int].0);
                            kinds = kinds.push(imports[i as int].0);
                        }
                        i = i + 1;
                    }
                },
                Section::Function(reader) => {
                    declared = Some(section_count(&reader));
                },
                Section::CodeEntry(body) => {
                    bodies.push(body_ops(&body)?);
                },
                _ => {},
            }
        }
        if bodies.len() as u64 > u32::MAX as u64 + 1 - num_imports as u64 {
            return Err(VelaError::InvalidWasm("too many functions".to_owned()));
        }
        if let Some(c) = declared {
            if c > u32::MAX - num_imports {
                return Err(VelaError::InvalidWasm("too many functions".to_owned()));
            }
        }
        let g = CallGraph::from_code(num_imports, declared, &bodies);
        assert(graph_spec(num_imports, declared, bodies@, &g));
        assert(function_import_count(kinds) == num_imports);
        Ok(g)
    }
}

/// `p` is a nonempty sequence of functions in which each one refers to the next.
pub open spec fn is_call_path(g: &CallGraph, p: Seq<u32>) -> bool {
    &&& p.len() > 0
    &&& forall|i: int| 0 <= i < p.len() - 1 ==> #[trigger] g.callees(p[i]).contains(p[i + 1])
}

/// Function `f` can be reached from one of `roots` by following edges of `g`.
pub open spec fn reaches(g: &CallGraph, roots: Set<u32>, f: u32) -> bool {
    exists|p: Seq<u32>| #[trigger] is_call_path(g, p) && roots.contains(p[0]) && p.last() == f
}

/// `s` holds `roots` and everything that a member of `s` refers to.
pub open spec fn closed_under_calls(g: &CallGraph, roots: Set<u32>, s: Set<u32>) -> bool {
    &&& roots.subset_of(s)
    &&& forall|x: u32, y: u32| s.contains(x) && #[trigger] g.callees(x).contains(y) ==> s.contains(y)
}

pub proof fn lemma_closed_contains_reached(g: &CallGraph, roots: Set<u32>, s: Set<u32>, p: Seq<u32>)
    requires
        closed_under_calls(g, roots, s),
        is_call_path(g, p),
        roots.contains(p[0]),
    ensures
        s.contains(p.last()),
    decreases p.len(),
{
    if p.len() > 1 {
        let q = p.drop_last();
        assert forall|i: int| 0 <= i < q.len() - 1 implies #[trigger] g.callees(q[i]).contains(
            q[i + 1],
        ) by {
            assert(g.callees(p[i]).contains(p[i + 1]));
        }
        lemma_closed_contains_reached(g, roots, s, q);
        let k = p.len() - 2;
        assert(g.callees(p[k]).contains(p[k + 1]));
    }
}

pub proof fn lemma_path_extend(g: &CallGraph, p: Seq<u32>, y: u32)
    requires
        is_call_path(g, p),
        g.callees(p.last()).contains(y),
    ensures
        is_call_path(g, p.push(y)),
        p.push(y)[0] == p[0],
        p.push(y).last() == y,
{
    let q = p.push(y);
    assert forall|i: int| 0 <= i < q.len() - 1 implies #[trigger] g.callees(q[i]).contains(
        q[i + 1],
    ) by {
        if i < p.len() - 1 {
            assert(g.callees(p[i]).contains(p[i + 1]));
        }
    }
}

pub proof fn lemma_root_reaches_itself(g: &CallGraph, roots: Set<u32>, r: u32)
    requires
        roots.contains(r),
    ensures
        reaches(g, roots, r),
{
    let p = seq![r];
    assert(is_call_path(g, p));
}

/// The callees of a defined function are exactly the targets of the `call`,
/// `return_call` and `ref.func` operators of its body: every such operator
/// gives an edge, and there is no other edge.
pub proof fn law_callees_are_call_targets(
    num_imports: u32,
    declared: Option<u32>,
    bodies: Seq<Vec<Op>>,
    g: &CallGraph,
    k: int,
    t: u32,
)
    requires
        graph_spec(num_imports, declared, bodies, g),
        num_imports + bodies.len() <= u32::MAX + 1,
        0 <= k < bodies.len(),
    ensures
        g.callees((num_imports + k) as u32).contains(t) <==> exists|o: int|
            0 <= o < bodies[k]@.len() && (bodies[k]@[o] == Op::Call(t) || bodies[k]@[o] == Op::ReturnCall(t)
                || #[trigger] bodies[k]@[o] == Op::RefFunc(t)),
{
    let f = (num_imports + k) as u32;
    assert(g.edges@.contains_key(f));
    assert(g.edges@[f]@ == body_callees(bodies[k]@));
    if g.callees(f).contains(t) {
        let o = choose|o: int| 0 <= o < bodies[k]@.len() && op_function(bodies[k]@[o]) == Some(t);
        assert(bodies[k]@[o] == Op::RefFunc(t) || bodies[k]@[o] == Op::Call(t) || bodies[k]@[o] == Op::ReturnCall(t));
    }
    if exists|o: int|
        0 <= o < bodies[k]@.len() && (bodies[k]@[o] == Op::Call(t) || bodies[k]@[o] == Op::ReturnCall(t)
            || #[trigger] bodies[k]@[o] == Op::RefFunc(t)) {
        let o = choose|o: int|
            0 <= o < bodies[k]@.len() && (bodies[k]@[o] == Op::Call(t) || bodies[k]@[o] == Op::ReturnCall(t)
                || #[trigger] bodies[k]@[o] == Op::RefFunc(t));
        assert(op_function(bodies[k]@[o]) == Some(t));
        assert(body_callees(bodies[k]@).contains(t));
    }
}

} // verus!
