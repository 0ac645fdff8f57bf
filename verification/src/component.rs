use vstd::prelude::*;
use vstd::slice::slice_subrange;
use wasm_encoder::Component;

use crate::encode::{
    component_content, component_finish, component_header, component_new, component_raw_section,
    component_section_id, core_module_section_id, framed_section,
};
use crate::error::VelaError;
use crate::wasm::{is_component_header, parser_is_component, PayloadStream, Section};

verus! {

/// The message of the error for a binary that is not a component.
pub open spec fn not_component_message() -> Seq<char> {
    "input is not a Component Model WASM"@
}

/// `r` is the error for a binary that is not a component.
pub open spec fn is_not_component_error(r: Result<Vec<u8>, VelaError>) -> bool {
    r matches Err(VelaError::NotComponent(m)) && m@ == not_component_message()
}

/// The bytes `start..end` of `data`, or an error when the range is not inside it.
fn byte_range<'a>(data: &'a [u8], start: u64, end: u64) -> (r: Result<&'a [u8], VelaError>)
    ensures
        r matches Ok(s) ==> start <= end <= data@.len() && s@ == data@.subrange(start as int, end as int),
        r is Err <==> !(start <= end <= data@.len()),
        r matches Err(e) ==> e is InvalidWasm,
{
    if start <= end && end <= data.len() as u64 {
        Ok(slice_subrange(data, start as usize, end as usize))
    } else {
        Err(VelaError::InvalidWasm("section range outside the binary".to_owned()))
    }
}

/// A payload of a component, as far as rebuilding it is concerned.
#[derive(Clone, Copy, PartialEq, Eq, Structural, Debug)]
pub enum PayloadKind {
    /// A core module starts.
    ModuleStart,
    /// A nested component starts.
    ComponentStart,
    /// A module or component ends.
    End,
    /// Any other payload.
    Other,
}

/// What rebuilding a component does with one payload.
#[derive(Clone, Copy, PartialEq, Eq, Structural, Debug)]
pub enum Step {
    /// Process the top-level core module that starts here; it is written when it ends.
    ProcessModule,
    /// Remember the top-level nested component that starts here; it is copied when it ends.
    SaveComponent,
    /// A top-level module or nested component ends: write it.
    Flush,
    /// A top-level payload: copy its section, if it is one.
    Copy,
    /// A payload inside a nested module or component: nothing to do.
    Skip,
}

/// The step for a payload of kind `kind` met at nesting depth `depth`, and
/// the depth after it. A module or component start goes one level deeper and
/// an end one level up; only at depth 0 is anything done, except at the end
/// that brings the depth back to 0.
pub open spec fn step_spec(depth: nat, kind: PayloadKind) -> (nat, Step) {
    match kind {
        PayloadKind::ModuleStart => (depth + 1, if depth == 0 { Step::ProcessModule } else { Step::Skip }),
        PayloadKind::ComponentStart => (depth + 1, if depth == 0 { Step::SaveComponent } else { Step::Skip }),
        PayloadKind::End => if depth == 0 {
            (0, Step::Copy)
        } else {
            ((depth - 1) as nat, if depth == 1 { Step::Flush } else { Step::Skip })
        },
        PayloadKind::Other => (depth, if depth == 0 { Step::Copy } else { Step::Skip }),
    }
}

/// The step for a payload of kind `kind` at nesting depth `depth`, and the
/// depth after it; `None` when a start would take the depth past `u32::MAX`.
pub fn nest_step(depth: u32, kind: PayloadKind) -> (r: Option<(u32, Step)>)
    ensures
        r is None <==> depth == u32::MAX && (kind is ModuleStart || kind is ComponentStart),
        r matches Some((d, s)) ==> d == step_spec(depth as nat, kind).0 && s == step_spec(depth as nat, kind).1,
{
    match kind {
        PayloadKind::ModuleStart => {
            if depth == u32::MAX {
                None
            } else if depth == 0 {
                Some((1, Step::ProcessModule))
            } else {
                Some((depth + 1, Step::Skip))
            }
        },
        PayloadKind::ComponentStart => {
            if depth == u32::MAX {
                None
            } else if depth == 0 {
                Some((1, Step::SaveComponent))
            } else {
                Some((depth + 1, Step::Skip))
            }
        },
        PayloadKind::End => {
            if depth == 0 {
                Some((0, Step::Copy))
            } else if depth == 1 {
                Some((0, Step::Flush))
            } else {
                Some((depth - 1, Step::Skip))
            }
        },
        PayloadKind::Other => {
            if depth == 0 {
                Some((0, Step::Copy))
            } else {
                Some((depth, Step::Skip))
            }
        },
    }
}

/// Nothing inside a nested module or component is processed or copied on
/// its own: below the top level every payload is skipped, except the end
/// that closes the nested item, which writes it as a whole.
pub proof fn law_nested_payloads_skipped(depth: nat, kind: PayloadKind)
    requires
        depth >= 1,
    ensures
        step_spec(depth, kind).1 is Skip || (depth == 1 && kind is End && step_spec(depth, kind).1 is Flush),
        step_spec(depth, kind).0 >= 1 || (depth == 1 && kind is End),
{
}

/// `e` is an error that `f` gives back for some contiguous part of `wasm`.
pub open spec fn module_failed<F: Fn(&[u8]) -> Result<Vec<u8>, VelaError>>(
    f: F,
    wasm: Seq<u8>,
    e: VelaError,
) -> bool {
    exists|b: &[u8]|
        #[trigger] call_ensures(f, (b,), Err(e)) && exists|i: int, j: int|
            0 <= i <= j <= wasm.len() && b@ == wasm.subrange(i, j)
}

/// `x` is a contiguous part of `wasm`.
pub open spec fn is_part_of(x: Seq<u8>, wasm: Seq<u8>) -> bool {
    exists|i: int, j: int| 0 <= i <= j <= wasm.len() && x == #[trigger] wasm.subrange(i, j)
}

/// The sections `secs` (each an id and its data) framed one after another.
pub open spec fn framed_sections(secs: Seq<(u8, Seq<u8>)>) -> Seq<u8>
    decreases secs.len(),
{
    if secs.len() == 0 {
        Seq::empty()
    } else {
        framed_sections(secs.drop_last()) + framed_section(secs.last().0, secs.last().1)
    }
}

/// One section of a rebuilt component: bytes of `wasm` copied as they are, or
/// a core module section (id 1) holding what `f` gave back for bytes of `wasm`.
pub open spec fn is_rebuilt_section<F: Fn(&[u8]) -> Result<Vec<u8>, VelaError>>(
    f: F,
    wasm: Seq<u8>,
    s: (u8, Seq<u8>),
) -> bool {
    ||| is_part_of(s.1, wasm)
    ||| s.0 == 1 && exists|b: &[u8], v: Vec<u8>|
        #[trigger] call_ensures(f, (b,), Ok(v)) && v@ == s.1 && is_part_of(b@, wasm)
}

/// `out` is the component header followed by framed sections, each of which
/// is a section of `wasm` rebuilt with `f`.
pub open spec fn is_rebuilt_component<F: Fn(&[u8]) -> Result<Vec<u8>, VelaError>>(
    f: F,
    wasm: Seq<u8>,
    out: Seq<u8>,
) -> bool {
    exists|secs: Seq<(u8, Seq<u8>)>|
        out == component_header() + #[trigger] framed_sections(secs) && forall|k: int|
            0 <= k < secs.len() ==> is_rebuilt_section(f, wasm, #[trigger] secs[k])
}

proof fn note_section(secs: Seq<(u8, Seq<u8>)>, id: u8, data: Seq<u8>)
    ensures
        component_header() + framed_sections(secs.push((id, data))) == component_header() + framed_sections(secs)
            + framed_section(id, data),
        secs.push((id, data)).last() == (id, data),
        forall|k: int| 0 <= k < secs.len() ==> #[trigger] secs.push((id, data))[k] == secs[k],
{
    assert(secs.push((id, data)).drop_last() =~= secs);
    assert(component_header() + (framed_sections(secs) + framed_section(id, data)) =~= component_header()
        + framed_sections(secs) + framed_section(id, data));
}

/// Append a raw section of id `id` holding `data` to `component`; a section
/// whose data does not fit a `u32` length is refused and nothing is written.
fn add_raw_section(component: &mut Component, id: u8, data: &[u8]) -> (r: Result<(), VelaError>)
    ensures
        r is Err <==> data@.len() > u32::MAX,
        r is Ok ==> component_content(*final(component)) == component_content(*old(component)) + framed_section(
            id,
            data@,
        ),
        r matches Err(e) ==> e is InvalidWasm,
        r is Err ==> *final(component) == *old(component),
{
    if data.len() > u32::MAX as usize {
        return Err(VelaError::InvalidWasm("section too large".to_owned()));
    }
    component_raw_section(component, id, data);
    Ok(())
}

/// Parse a Component Model binary and rebuild it, applying `process_module`
/// to the bytes of each core module at its top level.
///
/// Every other top-level section is copied as it is, nested components
/// included (their own modules are not processed); each section written is
/// framed with its id and length after the component header. A section too
/// large for a `u32` length is refused as invalid. A binary that does not
/// start with the component header is refused with `NotComponent`.
pub fn process_component<F: Fn(&[u8]) -> Result<Vec<u8>, VelaError>>(
    wasm: &[u8],
    process_module: F,
) -> (r: Result<Vec<u8>, VelaError>)
    requires
        forall|b: &[u8]| #[trigger] process_module.requires((b,)),
    ensures
        !is_component_header(wasm@) ==> is_not_component_error(r),
        r is Ok ==> is_component_header(wasm@),
        is_component_header(wasm@) ==> (r matches Err(e) ==> e is Wasm || e is InvalidWasm || module_failed(
            process_module,
            wasm@,
            e,
        )),
        r matches Ok(out) ==> is_rebuilt_component(process_module, wasm@, out@),
{
    if !parser_is_component(wasm) {
        return Err(VelaError::NotComponent("input is not a Component Model WASM".to_owned()));
    }
    let mut stream = PayloadStream::new(wasm);
    match stream.next() {
        Some(Ok(item)) => {
            match item.section {
                Section::Version { component: true } => {},
                _ => {
                    // The parser reports the component header as a component version.
                    return Err(VelaError::InvalidWasm("component header not read as a component".to_owned()));
                },
            }
        },
        Some(Err(e)) => return Err(e),
        None => {
            return Err(VelaError::InvalidWasm("component header not read as a component".to_owned()));
        },
    }
    // Nested modules and components are tracked by depth so that their own
    // payloads are not copied into the top-level component.
    let mut component = component_new();
    let mut nested_depth: u32 = 0;
    let mut module_bytes: Option<Vec<u8>> = None;
    let mut nested_component: Option<(u64, u64)> = None;
    // The sections written so far, each with its id and data.
    let ghost mut secs: Seq<(u8, Seq<u8>)> = Seq::empty();
    proof {
        assert(component_header() + framed_sections(secs) =~= component_header());
    }
    loop
        invariant
            stream.wf(),
            is_component_header(wasm@),
            forall|b: &[u8]| #[trigger] process_module.requires((b,)),
            component_content(component) == component_header() + framed_sections(secs),
            forall|k: int| 0 <= k < secs.len() ==> is_rebuilt_section(process_module, wasm@, #[trigger] secs[k]),
            module_bytes matches Some(v) ==> exists|b: &[u8]|
                #[trigger] call_ensures(process_module, (b,), Ok(v)) && is_part_of(b@, wasm@),
        decreases stream.remaining(), stream.depth(),
    {
        let item = match stream.next() {
            None => break,
            Some(Err(e)) => return Err(e),
            Some(Ok(item)) => item,
        };
        let (kind, range) = match item.section {
            Section::Module { start, end } => (PayloadKind::ModuleStart, Some((start, end))),
            Section::Component { start, end } => (PayloadKind::ComponentStart, Some((start, end))),
            Section::End => (PayloadKind::End, None),
            _ => (PayloadKind::Other, None),
        };
        let (depth, step) = match nest_step(nested_depth, kind) {
            Some(r) => r,
            None => return Err(VelaError::InvalidWasm("nesting too deep".to_owned())),
        };
        nested_depth = depth;
        match step {
            Step::ProcessModule => {
                if let Some((start, end)) = range {
                    let raw = byte_range(wasm, start, end)?;
                    match process_module(raw) {
                        Ok(processed) => {
                            module_bytes = Some(processed);
                            proof {
                                assert(call_ensures(process_module, (raw,), Ok(module_bytes.unwrap())));
                                assert(is_part_of(raw@, wasm@));
                            }
                        },
                        Err(e) => {
                            proof {
                                assert(call_ensures(process_module, (raw,), Err(e)));
                                assert(module_failed(process_module, wasm@, e));
                            }
                            return Err(e);
                        },
                    }
                }
            },
            Step::SaveComponent => {
                nested_component = range;
            },
            Step::Flush => {
                if let Some(bytes) = module_bytes.take() {
                    let id = core_module_section_id();
                    add_raw_section(&mut component, id, bytes.as_slice())?;
                    proof {
                        let b = choose|b: &[u8]| #[trigger] call_ensures(process_module, (b,), Ok(bytes)) && is_part_of(b@, wasm@);
                        assert(call_ensures(process_module, (b,), Ok(bytes)));
                        note_section(secs, id, bytes@);
                        secs = secs.push((id, bytes@));
                    }
                } else if let Some((start, end)) = nested_component.take() {
                    let raw = byte_range(wasm, start, end)?;
                    let id = component_section_id();
                    add_raw_section(&mut component, id, raw)?;
                    proof {
                        assert(is_part_of(raw@, wasm@));
                        note_section(secs, id, raw@);
                        secs = secs.push((id, raw@));
                    }
                }
            },
            Step::Copy => {
                if let Some((id, start, end)) = item.raw {
                    let raw = byte_range(wasm, start, end)?;
                    add_raw_section(&mut component, id, raw)?;
                    proof {
                        assert(is_part_of(raw@, wasm@));
                        note_section(secs, id, raw@);
                        secs = secs.push((id, raw@));
                    }
                }
            },
            Step::Skip => {},
        }
    }
    let out = component_finish(component);
    proof {
        assert(out@ == component_header() + framed_sections(secs));
    }
    Ok(out)
}

} // verus!
