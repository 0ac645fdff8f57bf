//! Writing WebAssembly binaries through `wasm_encoder`.
//!
//! The outside types are opaque here; each trusted function makes one call
//! into `wasm_encoder` (or into its `Reencode` trait for the library's
//! renumberer) and converts its arguments and result.
use vstd::prelude::*;
use wasm_encoder::reencode::{Error as ReencodeError, Reencode};
use wasm_encoder::{
    CodeSection, Component, DataSection, ElementSection, ExportSection, FunctionSection,
    GlobalSection, ImportSection, MemorySection, Module, RawSection, TableSection, TagSection,
    TypeSection,
};

use crate::renumber::{ModuleRenumberer, UnmappedIndex};

verus! {

#[verifier::external_type_specification]
#[verifier::external_body]
pub struct ExModule(wasm_encoder::Module);

#[verifier::external_type_specification]
#[verifier::external_body]
pub struct ExComponent(wasm_encoder::Component);

#[verifier::external_type_specification]
#[verifier::external_body]
pub struct ExFunctionSection(wasm_encoder::FunctionSection);

#[verifier::external_type_specification]
#[verifier::external_body]
pub struct ExCodeSection(wasm_encoder::CodeSection);

#[verifier::external_type_specification]
#[verifier::external_body]
pub struct ExTypeSection(wasm_encoder::TypeSection);

#[verifier::external_type_specification]
#[verifier::external_body]
pub struct ExImportSection(wasm_encoder::ImportSection);

#[verifier::external_type_specification]
#[verifier::external_body]
pub struct ExTableSection(wasm_encoder::TableSection);

#[verifier::external_type_specification]
#[verifier::external_body]
pub struct ExMemorySection(wasm_encoder::MemorySection);

#[verifier::external_type_specification]
#[verifier::external_body]
pub struct ExGlobalSection(wasm_encoder::GlobalSection);

#[verifier::external_type_specification]
#[verifier::external_body]
pub struct ExTagSection(wasm_encoder::TagSection);

#[verifier::external_type_specification]
#[verifier::external_body]
pub struct ExExportSection(wasm_encoder::ExportSection);

#[verifier::external_type_specification]
#[verifier::external_body]
pub struct ExElementSection(wasm_encoder::ElementSection);

#[verifier::external_type_specification]
#[verifier::external_body]
pub struct ExDataSection(wasm_encoder::DataSection);

#[verifier::external_type_specification]
#[verifier::external_body]
pub struct ExEncoderMemoryType(wasm_encoder::MemoryType);

#[verifier::external_type_specification]
#[verifier::external_body]
#[verifier::reject_recursive_types(E)]
pub struct ExReencodeError<E>(wasm_encoder::reencode::Error<E>);

/// `Default::default` of an encoder section: an empty section.
#[verifier::external_body]
pub(crate) fn empty_section<S: Default>() -> S {
    S::default()
}

/// The bytes that a `wasm_encoder::Module` holds: its buffer, which starts as
/// the module header, grows by one encoded section per `Module::section`,
/// and is what `Module::finish` hands out.
pub uninterp spec fn module_content(module: Module) -> Seq<u8>;

/// The bytes that a `wasm_encoder::Component` holds: its buffer, which starts
/// as the component header, grows by one encoded section per
/// `Component::section`, and is what `Component::finish` hands out.
pub uninterp spec fn component_content(component: Component) -> Seq<u8>;

/// The eight bytes that start every core module: `\0asm` and version 1.
pub open spec fn core_module_header() -> Seq<u8> {
    seq![0x00u8, 0x61u8, 0x73u8, 0x6du8, 0x01u8, 0x00u8, 0x00u8, 0x00u8]
}

/// The eight bytes that start every component: `\0asm`, version 0x0d, layer 1.
pub open spec fn component_header() -> Seq<u8> {
    seq![0x00u8, 0x61u8, 0x73u8, 0x6du8, 0x0du8, 0x00u8, 0x01u8, 0x00u8]
}

/// The unsigned LEB128 encoding of `n` with the fewest bytes: seven bits per
/// byte, low bits first, the high bit set on every byte but the last.
pub open spec fn leb128(n: nat) -> Seq<u8>
    decreases n,
{
    if n < 128 {
        seq![n as u8]
    } else {
        seq![(n % 128 + 128) as u8] + leb128(n / 128)
    }
}

/// A section as the binary format frames it: its id, the LEB128 length of
/// its data, and the data.
pub open spec fn framed_section(id: u8, data: Seq<u8>) -> Seq<u8> {
    seq![id] + leb128(data.len()) + data
}

/// `s` starts with the bytes of `prefix`.
pub open spec fn starts_with(s: Seq<u8>, prefix: Seq<u8>) -> bool {
    &&& prefix.len() <= s.len()
    &&& forall|i: int| 0 <= i < prefix.len() ==> #[trigger] s[i] == prefix[i]
}

/// `wasm_encoder::Module::new`: a module that holds only the header.
#[verifier::external_body]
pub(crate) fn module_new() -> (m: Module)
    ensures
        module_content(m) == core_module_header(),
{
    Module::new()
}

/// `wasm_encoder::Module::section`: append an encoded section (its id byte
/// first, so the module grows); what the module held stays in front.
#[verifier::external_body]
pub(crate) fn module_section<S: wasm_encoder::Section>(module: &mut Module, section: &S)
    ensures
        starts_with(module_content(*final(module)), module_content(*old(module))),
        module_content(*final(module)).len() > module_content(*old(module)).len(),
{
    module.section(section);
}

/// `wasm_encoder::Module::section` with a start section for `function_index`
/// (the module grows by at least its id byte); what the module held stays in
/// front.
#[verifier::external_body]
pub(crate) fn module_start_section(module: &mut Module, function_index: u32)
    ensures
        starts_with(module_content(*final(module)), module_content(*old(module))),
        module_content(*final(module)).len() > module_content(*old(module)).len(),
{
    module.section(&wasm_encoder::StartSection { function_index });
}

/// `wasm_encoder::Module::section` with a data count section for `count`
/// (the module grows by at least its id byte); what the module held stays in
/// front.
#[verifier::external_body]
pub(crate) fn module_data_count_section(module: &mut Module, count: u32)
    ensures
        starts_with(module_content(*final(module)), module_content(*old(module))),
        module_content(*final(module)).len() > module_content(*old(module)).len(),
{
    module.section(&wasm_encoder::DataCountSection { count });
}

/// `wasm_encoder::Module::finish`: the bytes that the module holds.
#[verifier::external_body]
pub(crate) fn module_finish(module: Module) -> (r: Vec<u8>)
    ensures
        r@ == module_content(module),
{
    module.finish()
}

/// `wasm_encoder::FunctionSection::function`: declare a function of type `ty`.
#[verifier::external_body]
pub(crate) fn function_section_add(section: &mut FunctionSection, ty: u32) {
    section.function(ty);
}

/// `wasm_encoder::MemorySection::memory`: declare a memory.
#[verifier::external_body]
pub(crate) fn memory_section_add(section: &mut MemorySection, ty: wasm_encoder::MemoryType) {
    section.memory(ty);
}

/// `Reencode::type_index` of the renumberer: type indices are kept. Like
/// every re-encoding call below, it leaves the renumberer as it was: the
/// renumberer's own methods only read its maps.
#[verifier::external_body]
pub(crate) fn reencode_type_index(r: &mut ModuleRenumberer, ty: u32) -> (res: Result<u32, ReencodeError<UnmappedIndex>>)
    ensures
        *final(r) == *old(r),
{
    r.type_index(ty)
}

/// `Reencode::parse_function_body`: append `body` with its indices
/// renumbered; leaves the renumberer as it was.
#[verifier::external_body]
pub(crate) fn reencode_function_body(
    r: &mut ModuleRenumberer,
    code: &mut CodeSection,
    body: wasmparser::FunctionBody,
) -> (res: Result<(), ReencodeError<UnmappedIndex>>)
    ensures
        *final(r) == *old(r),
{
    r.parse_function_body(code, body)
}

/// `Reencode::parse_type_section`; leaves the renumberer as it was.
#[verifier::external_body]
pub(crate) fn reencode_type_section(
    r: &mut ModuleRenumberer,
    types: &mut TypeSection,
    s: wasmparser::SectionLimited<wasmparser::RecGroup>,
) -> (res: Result<(), ReencodeError<UnmappedIndex>>)
    ensures
        *final(r) == *old(r),
{
    r.parse_type_section(types, s)
}

/// `Reencode::parse_import`; leaves the renumberer as it was.
#[verifier::external_body]
pub(crate) fn reencode_import(
    r: &mut ModuleRenumberer,
    imports: &mut ImportSection,
    import: wasmparser::Import,
) -> (res: Result<(), ReencodeError<UnmappedIndex>>)
    ensures
        *final(r) == *old(r),
{
    r.parse_import(imports, import)
}

/// `Reencode::parse_table`; leaves the renumberer as it was.
#[verifier::external_body]
pub(crate) fn reencode_table(
    r: &mut ModuleRenumberer,
    tables: &mut TableSection,
    table: wasmparser::Table,
) -> (res: Result<(), ReencodeError<UnmappedIndex>>)
    ensures
        *final(r) == *old(r),
{
    r.parse_table(tables, table)
}

/// `Reencode::memory_type`; leaves the renumberer as it was.
#[verifier::external_body]
pub(crate) fn reencode_memory_type(
    r: &mut ModuleRenumberer,
    ty: wasmparser::MemoryType,
) -> (res: Result<wasm_encoder::MemoryType, ReencodeError<UnmappedIndex>>)
    ensures
        *final(r) == *old(r),
{
    r.memory_type(ty)
}

/// `Reencode::parse_global`; leaves the renumberer as it was.
#[verifier::external_body]
pub(crate) fn reencode_global(
    r: &mut ModuleRenumberer,
    globals: &mut GlobalSection,
    global: wasmparser::Global,
) -> (res: Result<(), ReencodeError<UnmappedIndex>>)
    ensures
        *final(r) == *old(r),
{
    r.parse_global(globals, global)
}

/// `Reencode::parse_tag_section`; leaves the renumberer as it was.
#[verifier::external_body]
pub(crate) fn reencode_tag_section(
    r: &mut ModuleRenumberer,
    tags: &mut TagSection,
    s: wasmparser::SectionLimited<wasmparser::TagType>,
) -> (res: Result<(), ReencodeError<UnmappedIndex>>)
    ensures
        *final(r) == *old(r),
{
    r.parse_tag_section(tags, s)
}

/// `Reencode::parse_export_section`; leaves the renumberer as it was.
#[verifier::external_body]
pub(crate) fn reencode_export_section(
    r: &mut ModuleRenumberer,
    exports: &mut ExportSection,
    s: wasmparser::SectionLimited<wasmparser::Export>,
) -> (res: Result<(), ReencodeError<UnmappedIndex>>)
    ensures
        *final(r) == *old(r),
{
    r.parse_export_section(exports, s)
}

/// `Reencode::parse_element_section`; leaves the renumberer as it was.
#[verifier::external_body]
pub(crate) fn reencode_element_section(
    r: &mut ModuleRenumberer,
    elements: &mut ElementSection,
    s: wasmparser::SectionLimited<wasmparser::Element>,
) -> (res: Result<(), ReencodeError<UnmappedIndex>>)
    ensures
        *final(r) == *old(r),
{
    r.parse_element_section(elements, s)
}

/// `Reencode::parse_data_section`; leaves the renumberer as it was.
#[verifier::external_body]
pub(crate) fn reencode_data_section(
    r: &mut ModuleRenumberer,
    data: &mut DataSection,
    s: wasmparser::SectionLimited<wasmparser::Data>,
) -> (res: Result<(), ReencodeError<UnmappedIndex>>)
    ensures
        *final(r) == *old(r),
{
    r.parse_data_section(data, s)
}

/// `Reencode::parse_custom_section`: append a custom section to `module`
/// (what the module held stays in front, also on an error, which comes
/// before anything is appended; on success the module grows by at least the
/// section's id byte); leaves the renumberer as it was.
#[verifier::external_body]
pub(crate) fn reencode_custom_section(
    r: &mut ModuleRenumberer,
    module: &mut Module,
    s: wasmparser::CustomSectionReader,
) -> (res: Result<(), ReencodeError<UnmappedIndex>>)
    ensures
        *final(r) == *old(r),
        starts_with(module_content(*final(module)), module_content(*old(module))),
        res is Ok ==> module_content(*final(module)).len() > module_content(*old(module)).len(),
{
    r.parse_custom_section(module, s)
}

/// The `Debug` rendering of a re-encoding error.
#[verifier::external_body]
pub(crate) fn reencode_error_text(e: ReencodeError<UnmappedIndex>) -> String {
    format!("{e:?}")
}

/// `wasm_encoder::Component::new`: a component that holds only the header.
#[verifier::external_body]
pub(crate) fn component_new() -> (c: Component)
    ensures
        component_content(c) == component_header(),
{
    Component::new()
}

/// `wasm_encoder::Component::section` with a `RawSection` of id `id`: the id,
/// then the data as `[u8]` encodes it (its length as a LEB128 `u32`, then
/// its bytes), are appended. The length encoding asserts that it fits in a
/// `u32`.
#[verifier::external_body]
pub(crate) fn component_raw_section(component: &mut Component, id: u8, data: &[u8])
    requires
        data@.len() <= u32::MAX,
    ensures
        component_content(*final(component)) == component_content(*old(component)) + framed_section(id, data@),
{
    component.section(&RawSection { id, data });
}

/// `wasm_encoder::Component::finish`: the bytes that the component holds.
#[verifier::external_body]
pub(crate) fn component_finish(component: Component) -> (r: Vec<u8>)
    ensures
        r@ == component_content(component),
{
    component.finish()
}

/// `u8::from(ComponentSectionId::CoreModule)`: the section id of a core
/// module in a component, which the crate defines as 1.
#[verifier::external_body]
pub(crate) fn core_module_section_id() -> (id: u8)
    ensures
        id == 1,
{
    wasm_encoder::ComponentSectionId::CoreModule.into()
}

/// `u8::from(ComponentSectionId::Component)`: the section id of a nested
/// component, which the crate defines as 4.
#[verifier::external_body]
pub(crate) fn component_section_id() -> (id: u8)
    ensures
        id == 4,
{
    wasm_encoder::ComponentSectionId::Component.into()
}

} // verus!
