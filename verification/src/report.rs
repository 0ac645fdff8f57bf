//! What the command line reports: sizes as text, and a summary of a binary.
use vstd::prelude::*;

use crate::error::VelaError;
use crate::ops::function_kind;
use crate::text::{decimal, push_decimal};
use crate::wasm::{read_imports, section_count, PayloadStream, Section};

verus! {

/// `bytes / unit` in tenths, rounded to the nearest tenth; a value exactly
/// halfway goes to the even number of tenths.
pub open spec fn rounded_tenths(bytes: nat, unit: nat) -> nat {
    let q = bytes * 10 / unit;
    let r = bytes * 10 % unit;
    if 2 * r > unit || (2 * r == unit && q % 2 == 1) {
        q + 1
    } else {
        q
    }
}

/// `bytes / unit` with one decimal.
pub open spec fn one_decimal(bytes: nat, unit: nat) -> Seq<char> {
    let t = rounded_tenths(bytes, unit);
    decimal(t / 10) + seq!['.'] + decimal(t % 10)
}

/// A byte count as text: in megabytes (2^20 bytes) with one decimal from one
/// megabyte on, in kilobytes (2^10 bytes) with one decimal from one kilobyte
/// on, in bytes below that.
pub open spec fn size_text(bytes: nat) -> Seq<char> {
    if bytes >= 1048576 {
        one_decimal(bytes, 1048576) + seq!['M', 'B']
    } else if bytes >= 1024 {
        one_decimal(bytes, 1024) + seq!['K', 'B']
    } else {
        decimal(bytes) + seq!['B']
    }
}

/// The rounded number of tenths of `bytes / unit`.
fn tenths(bytes: u64, unit: u64) -> (t: u64)
    requires
        unit == 1024 || unit == 1048576,
    ensures
        t == rounded_tenths(bytes as nat, unit as nat),
{
    let whole = bytes / unit;
    let rem = bytes % unit;
    let q = whole * 10 + rem * 10 / unit;
    let r = rem * 10 % unit;
    proof {
        let x = bytes as int * 10;
        let d = unit as int;
        vstd::arithmetic::div_mod::lemma_fundamental_div_mod(bytes as int, d);
        vstd::arithmetic::div_mod::lemma_fundamental_div_mod(rem as int * 10, d);
        assert(x == q as int * d + r as int) by (nonlinear_arith)
            requires
                x == bytes as int * 10,
                bytes as int == d * whole as int + rem as int,
                rem as int * 10 == d * ((rem as int * 10) / d) + r as int,
                q as int == whole as int * 10 + (rem as int * 10) / d,
        ;
        vstd::arithmetic::div_mod::lemma_fundamental_div_mod_converse_div(x, d, q as int, r as int);
        vstd::arithmetic::div_mod::lemma_fundamental_div_mod_converse_mod(x, d, q as int, r as int);
    }
    if 2 * r > unit || (2 * r == unit && q % 2 == 1) {
        q + 1
    } else {
        q
    }
}

/// Append `bytes / unit` with one decimal to `s`.
fn push_one_decimal(s: &mut String, bytes: u64, unit: u64)
    requires
        unit == 1024 || unit == 1048576,
    ensures
        final(s)@ == old(s)@ + one_decimal(bytes as nat, unit as nat),
{
    let t = tenths(bytes, unit);
    push_decimal(s, t / 10);
    s.push('.');
    push_decimal(s, t % 10);
    assert(s@ =~= old(s)@ + one_decimal(bytes as nat, unit as nat));
}

/// A byte count as text, such as `512B`, `1.5KB` or `7.6MB`.
pub fn format_size(bytes: usize) -> (s: String)
    ensures
        s@ == size_text(bytes as nat),
{
    let b = bytes as u64;
    let mut s = String::new();
    if b >= 1048576 {
        push_one_decimal(&mut s, b, 1048576);
        s.push('M');
        s.push('B');
    } else if b >= 1024 {
        push_one_decimal(&mut s, b, 1024);
        s.push('K');
        s.push('B');
    } else {
        push_decimal(&mut s, b);
        s.push('B');
    }
    assert(s@ =~= size_text(bytes as nat));
    s
}

/// What one payload of a binary adds to its summary.
#[derive(Clone, Copy, PartialEq, Eq, Structural, Debug)]
pub enum InfoEvent {
    /// A version header: the binary's own, or that of a nested module or component.
    Header { component: bool },
    /// A nested core module starts.
    ModuleStart,
    /// An import section with this many function imports.
    FunctionImports(u32),
    /// A function section that declares this many functions.
    DeclaredFunctions(u32),
}

/// A summary of a binary, nested modules and components included.
pub struct WasmInfo {
    /// For each version header, in order, whether it is a component's.
    pub headers: Vec<bool>,
    /// The number of core modules.
    pub module_count: u64,
    /// The number of imported functions.
    pub imported_functions: u64,
    /// The number of functions, imported and declared.
    pub total_functions: u64,
}

/// The version headers among `ev`, in order: whether each is a component's.
pub open spec fn headers_of(ev: Seq<InfoEvent>) -> Seq<bool>
    decreases ev.len(),
{
    if ev.len() == 0 {
        Seq::empty()
    } else {
        let rest = headers_of(ev.drop_last());
        match ev.last() {
            InfoEvent::Header { component } => rest.push(component),
            _ => rest,
        }
    }
}

/// The number of module starts among `ev`.
pub open spec fn modules_of(ev: Seq<InfoEvent>) -> nat
    decreases ev.len(),
{
    if ev.len() == 0 {
        0
    } else {
        modules_of(ev.drop_last()) + if ev.last() is ModuleStart {
            1nat
        } else {
            0nat
        }
    }
}

/// The function imports that `ev` counts.
pub open spec fn imports_of(ev: Seq<InfoEvent>) -> nat
    decreases ev.len(),
{
    if ev.len() == 0 {
        0
    } else {
        imports_of(ev.drop_last()) + match ev.last() {
            InfoEvent::FunctionImports(n) => n as nat,
            _ => 0nat,
        }
    }
}

/// The declared functions that `ev` counts.
pub open spec fn declared_of(ev: Seq<InfoEvent>) -> nat
    decreases ev.len(),
{
    if ev.len() == 0 {
        0
    } else {
        declared_of(ev.drop_last()) + match ev.last() {
            InfoEvent::DeclaredFunctions(n) => n as nat,
            _ => 0nat,
        }
    }
}

/// `info` sums up `ev`.
pub open spec fn summarizes(ev: Seq<InfoEvent>, info: &WasmInfo) -> bool {
    &&& info.headers@ == headers_of(ev)
    &&& info.module_count == modules_of(ev)
    &&& info.imported_functions == imports_of(ev)
    &&& info.total_functions == imports_of(ev) + declared_of(ev)
}

proof fn lemma_modules_bound(ev: Seq<InfoEvent>)
    ensures
        modules_of(ev) <= ev.len(),
    decreases ev.len(),
{
    if ev.len() > 0 {
        lemma_modules_bound(ev.drop_last());
    }
}

proof fn lemma_sums_grow(ev: Seq<InfoEvent>, i: int)
    requires
        0 <= i <= ev.len(),
    ensures
        imports_of(ev.take(i)) <= imports_of(ev),
        declared_of(ev.take(i)) <= declared_of(ev),
    decreases ev.len() - i,
{
    if i < ev.len() {
        lemma_sums_grow(ev, i + 1);
        assert(ev.take(i + 1).drop_last() =~= ev.take(i));
    } else {
        assert(ev.take(i) =~= ev);
    }
}

/// Sum up the events of a binary. The sums must fit in 64 bits; otherwise
/// the binary is refused as invalid.
pub fn summarize(events: &Vec<InfoEvent>) -> (r: Result<WasmInfo, VelaError>)
    ensures
        r is Ok <==> imports_of(events@) + declared_of(events@) <= u64::MAX,
        r matches Ok(info) ==> summarizes(events@, &info),
        r matches Err(e) ==> e is InvalidWasm,
{
    let mut headers: Vec<bool> = Vec::new();
    let mut modules: u64 = 0;
    let mut imports: u64 = 0;
    let mut declared: u64 = 0;
    let mut i: usize = 0;
    while i < events.len()
        invariant
            i <= events@.len(),
            headers@ == headers_of(events@.take(i as int)),
            modules == modules_of(events@.take(i as int)),
            imports == imports_of(events@.take(i as int)),
            declared == declared_of(events@.take(i as int)),
        decreases events@.len() - i,
    {
        let ghost pre = events@.take(i as int);
        let ghost next = events@.take(i + 1);
        assert(next.drop_last() =~= pre);
        proof {
            lemma_modules_bound(pre);
        }
        match events[i] {
            InfoEvent::Header { component } => headers.push(component),
            InfoEvent::ModuleStart => modules = modules + 1,
            InfoEvent::FunctionImports(n) => {
                if imports > u64::MAX - n as u64 {
                    proof {
                        lemma_sums_grow(events@, i + 1);
                    }
                    return Err(VelaError::InvalidWasm("too many functions".to_owned()));
                }
                imports = imports + n as u64;
            },
            InfoEvent::DeclaredFunctions(n) => {
                if declared > u64::MAX - n as u64 {
                    proof {
                        lemma_sums_grow(events@, i + 1);
                    }
                    return Err(VelaError::InvalidWasm("too many functions".to_owned()));
                }
                declared = declared + n as u64;
            },
        }
        i = i + 1;
    }
    assert(events@.take(events@.len() as int) =~= events@);
    if imports > u64::MAX - declared {
        return Err(VelaError::InvalidWasm("too many functions".to_owned()));
    }
    Ok(WasmInfo { headers, module_count: modules, imported_functions: imports, total_functions: imports + declared })
}

/// `info` sums up the events of some sequence of payloads.
pub open spec fn is_summary(info: &WasmInfo) -> bool {
    exists|ev: Seq<InfoEvent>| #[trigger] summarizes(ev, info)
}

/// The events of a binary's payloads, in order, nested modules and
/// components included, up to the first payload that cannot be read; that
/// error comes back beside the events read before it.
pub fn info_events(wasm: &[u8]) -> (r: (Vec<InfoEvent>, Option<VelaError>))
    ensures
        r.1 matches Some(e) ==> e.is_parse_error(),
{
    let mut stream = PayloadStream::new(wasm);
    let mut events: Vec<InfoEvent> = Vec::new();
    loop
        invariant
            stream.wf(),
        decreases stream.remaining(), stream.depth(),
    {
        let item = match stream.next() {
            None => break,
            Some(Err(e)) => return (events, Some(e)),
            Some(Ok(item)) => item,
        };
        match item.section {
            Section::Version { component } => events.push(InfoEvent::Header { component }),
            Section::Module { .. } => events.push(InfoEvent::ModuleStart),
            Section::Import(reader) => {
                let imports = match read_imports(reader) {
                    Ok(v) => v,
                    Err(e) => return (events, Some(e)),
                };
                let mut n: u32 = 0;
                let mut i: usize = 0;
                while i < imports.len()
                    invariant
                        i <= imports@.len(),
                    decreases imports@.len() - i,
                {
                    if function_kind(imports[i].0) {
                        if n == u32::MAX {
                            return (events, Some(VelaError::InvalidWasm("too many imports".to_owned())));
                        }
                        n = n + 1;
                    }
                    i = i + 1;
                }
                events.push(InfoEvent::FunctionImports(n));
            },
            Section::Function(reader) => events.push(InfoEvent::DeclaredFunctions(section_count(&reader))),
            _ => {},
        }
    }
    (events, None)
}

/// Read a binary and sum up its version headers, its core modules and its
/// functions (imported ones and those that function sections declare),
/// nested modules and components included: the summary of `info_events`,
/// or the error that reading or summing up met first.
pub fn wasm_info(wasm: &[u8]) -> (r: Result<WasmInfo, VelaError>)
    ensures
        r matches Ok(info) ==> is_summary(&info),
{
    let (events, failed) = info_events(wasm);
    if let Some(e) = failed {
        return Err(e);
    }
    let info = summarize(&events)?;
    assert(summarizes(events@, &info));
    Ok(info)
}

} // verus!
