//! Reading WebAssembly binaries through `wasmparser`.
//!
//! The outside types are opaque here; each trusted function makes one call
//! into `wasmparser` and converts what comes back into plain values of this
//! library. The loops that walk a binary are verified code.
use vstd::prelude::*;
use vstd::slice::slice_subrange;

use wasmparser::{
    BinaryReader, ConstExpr, Data, DataKind, Element, ElementItems, ElementKind, Encoding, Export,
    ExternalKind, FromReader, FunctionBody, Global, Import, ImportItemCompact, Imports, MemArgTarget,
    Operator, OperatorsReader, Parser, Payload, SectionLimited, SectionLimitedIntoIter, TypeRef,
};
use wasmparser::Error as WasmError;

use crate::error::VelaError;
use crate::ops::{AccessTarget, ExternKind, Op};

verus! {

#[verifier::external_type_specification]
#[verifier::external_body]
pub struct ExParser(wasmparser::Parser);

#[verifier::external_type_specification]
#[verifier::external_body]
pub struct ExPayload<'a>(wasmparser::Payload<'a>);

#[verifier::external_type_specification]
#[verifier::external_body]
pub struct ExWasmError(wasmparser::Error);

#[verifier::external_type_specification]
#[verifier::external_body]
#[verifier::reject_recursive_types(T)]
pub struct ExSectionLimited<'a, T>(wasmparser::SectionLimited<'a, T>);

#[verifier::external_type_specification]
#[verifier::external_body]
#[verifier::reject_recursive_types(T)]
pub struct ExSectionLimitedIntoIter<'a, T>(wasmparser::SectionLimitedIntoIter<'a, T>);

#[verifier::external_type_specification]
#[verifier::external_body]
pub struct ExImports<'a>(wasmparser::Imports<'a>);

#[verifier::external_type_specification]
#[verifier::external_body]
pub struct ExImport<'a>(wasmparser::Import<'a>);

#[verifier::external_type_specification]
#[verifier::external_body]
pub struct ExImportItemCompact<'a>(wasmparser::ImportItemCompact<'a>);

#[verifier::external_type_specification]
#[verifier::external_body]
pub struct ExTypeRef(wasmparser::TypeRef);

#[verifier::external_type_specification]
#[verifier::external_body]
pub struct ExExport<'a>(wasmparser::Export<'a>);

#[verifier::external_type_specification]
#[verifier::external_body]
pub struct ExElement<'a>(wasmparser::Element<'a>);

#[verifier::external_type_specification]
#[verifier::external_body]
pub struct ExConstExpr<'a>(wasmparser::ConstExpr<'a>);

#[verifier::external_type_specification]
#[verifier::external_body]
pub struct ExGlobal<'a>(wasmparser::Global<'a>);

#[verifier::external_type_specification]
#[verifier::external_body]
pub struct ExData<'a>(wasmparser::Data<'a>);

#[verifier::external_type_specification]
#[verifier::external_body]
pub struct ExTable<'a>(wasmparser::Table<'a>);

#[verifier::external_type_specification]
#[verifier::external_body]
pub struct ExMemoryType(wasmparser::MemoryType);

#[verifier::external_type_specification]
#[verifier::external_body]
pub struct ExTagType(wasmparser::TagType);

#[verifier::external_type_specification]
#[verifier::external_body]
pub struct ExRecGroup(wasmparser::RecGroup);

#[verifier::external_type_specification]
#[verifier::external_body]
pub struct ExCustomSectionReader<'a>(wasmparser::CustomSectionReader<'a>);

#[verifier::external_type_specification]
#[verifier::external_body]
pub struct ExFunctionBody<'a>(wasmparser::FunctionBody<'a>);

#[verifier::external_type_specification]
#[verifier::external_body]
pub struct ExOperatorsReader<'a>(wasmparser::OperatorsReader<'a>);

#[verifier::external_type_specification]
#[verifier::external_body]
pub struct ExBinaryReader<'a>(wasmparser::BinaryReader<'a>);

/// One step of `wasmparser::Parser::parse`.
pub(crate) enum Chunk<'a> {
    NeedMoreData(usize),
    Parsed { consumed: usize, payload: wasmparser::Payload<'a> },
}

/// A payload of a module or component, with the parts that this library reads.
pub enum Section<'a> {
    Version { component: bool },
    Type(wasmparser::SectionLimited<'a, wasmparser::RecGroup>),
    Import(wasmparser::SectionLimited<'a, wasmparser::Imports<'a>>),
    Function(wasmparser::SectionLimited<'a, u32>),
    Table(wasmparser::SectionLimited<'a, wasmparser::Table<'a>>),
    Memory(wasmparser::SectionLimited<'a, wasmparser::MemoryType>),
    Tag(wasmparser::SectionLimited<'a, wasmparser::TagType>),
    Global(wasmparser::SectionLimited<'a, wasmparser::Global<'a>>),
    Export(wasmparser::SectionLimited<'a, wasmparser::Export<'a>>),
    Start { func: u32 },
    Element(wasmparser::SectionLimited<'a, wasmparser::Element<'a>>),
    DataCount { count: u32 },
    Data(wasmparser::SectionLimited<'a, wasmparser::Data<'a>>),
    CodeStart { count: u32 },
    CodeEntry(wasmparser::FunctionBody<'a>),
    Module { start: u64, end: u64 },
    Component { start: u64, end: u64 },
    Custom(wasmparser::CustomSectionReader<'a>),
    End,
    Other,
}

/// The first eight bytes of a component: the magic number `\0asm`, the
/// component version 0x0d and the component layer 1, both little-endian.
pub open spec fn is_component_header(bytes: Seq<u8>) -> bool {
    &&& bytes.len() >= 8
    &&& bytes[0] == 0x00u8
    &&& bytes[1] == 0x61u8
    &&& bytes[2] == 0x73u8
    &&& bytes[3] == 0x6du8
    &&& bytes[4] == 0x0du8
    &&& bytes[5] == 0x00u8
    &&& bytes[6] == 0x01u8
    &&& bytes[7] == 0x00u8
}

/// `wasmparser::Parser::is_component`: whether `bytes` starts with the
/// component header (its source compares the first eight bytes with it).
#[verifier::external_body]
pub(crate) fn parser_is_component(bytes: &[u8]) -> (r: bool)
    ensures
        r == is_component_header(bytes@),
{
    wasmparser::Parser::is_component(bytes)
}

/// `wasmparser::Parser::new(0)`: a parser for a binary that starts at offset 0.
#[verifier::external_body]
pub(crate) fn parser_new() -> wasmparser::Parser {
    wasmparser::Parser::new(0)
}

/// `wasmparser::Parser::parse` with `eof` set: every byte of the input is
/// present. Its source returns `NeedMoreData` only when `eof` is false, and a
/// parsed chunk never consumes more bytes than it was given.
#[verifier::external_body]
pub(crate) fn parser_parse<'a>(parser: &mut wasmparser::Parser, data: &'a [u8]) -> (r: Result<
    Chunk<'a>,
    wasmparser::Error,
>)
    ensures
        r matches Ok(c) ==> c matches Chunk::Parsed { consumed, .. } && consumed <= data@.len(),
{
    match parser.parse(data, true) {
        Ok(wasmparser::Chunk::NeedMoreData(n)) => Ok(Chunk::NeedMoreData(n)),
        Ok(wasmparser::Chunk::Parsed { consumed, payload }) => Ok(Chunk::Parsed { consumed, payload }),
        Err(e) => Err(e),
    }
}

/// `wasmparser::Payload::as_section`: the section id and the byte range of a
/// payload that is a whole section.
#[verifier::external_body]
pub(crate) fn payload_as_section(payload: &wasmparser::Payload) -> Option<(u8, u64, u64)> {
    match payload.as_section() {
        Some((id, range)) => Some((id, range.start, range.end)),
        None => None,
    }
}

/// Tells apart the payloads of the type, import, function, table and memory
/// sections, moving their readers; any other payload is handed back.
#[verifier::external_body]
fn classify_a<'a>(p: Payload<'a>) -> (r: Result<Section<'a>, Payload<'a>>)
    ensures
        r matches Ok(s) ==> s is Type || s is Import || s is Function || s is Table || s is Memory,
{
    match p {
        Payload::TypeSection(r) => Ok(Section::Type(r)),
        Payload::ImportSection(r) => Ok(Section::Import(r)),
        Payload::FunctionSection(r) => Ok(Section::Function(r)),
        Payload::TableSection(r) => Ok(Section::Table(r)),
        Payload::MemorySection(r) => Ok(Section::Memory(r)),
        other => Err(other),
    }
}

/// Tells apart the payloads of the tag, global, export, element and data
/// sections, moving their readers; any other payload is handed back.
#[verifier::external_body]
fn classify_b<'a>(p: Payload<'a>) -> (r: Result<Section<'a>, Payload<'a>>)
    ensures
        r matches Ok(s) ==> s is Tag || s is Global || s is Export || s is Element || s is Data,
{
    match p {
        Payload::TagSection(r) => Ok(Section::Tag(r)),
        Payload::GlobalSection(r) => Ok(Section::Global(r)),
        Payload::ExportSection(r) => Ok(Section::Export(r)),
        Payload::ElementSection(r) => Ok(Section::Element(r)),
        Payload::DataSection(r) => Ok(Section::Data(r)),
        other => Err(other),
    }
}

/// Tells apart the version header, the start and data count sections, the
/// start and entries of the code section and custom sections, moving their
/// fields; any other payload is handed back.
#[verifier::external_body]
fn classify_c<'a>(p: Payload<'a>) -> (r: Result<Section<'a>, Payload<'a>>)
    ensures
        r matches Ok(s) ==> s is Version || s is Start || s is DataCount || s is CodeStart || s is CodeEntry
            || s is Custom,
{
    match p {
        Payload::Version { encoding, .. } => Ok(Section::Version { component: encoding == Encoding::Component }),
        Payload::StartSection { func, .. } => Ok(Section::Start { func }),
        Payload::DataCountSection { count, .. } => Ok(Section::DataCount { count }),
        Payload::CodeSectionStart { count, .. } => Ok(Section::CodeStart { count }),
        Payload::CodeSectionEntry(b) => Ok(Section::CodeEntry(b)),
        Payload::CustomSection(r) => Ok(Section::Custom(r)),
        other => Err(other),
    }
}

/// Tells apart nested modules and components (handing out the sub-parser and
/// the byte range) and the end of a binary; every other payload is `Other`.
#[verifier::external_body]
fn classify_d<'a>(p: Payload<'a>) -> (r: (Section<'a>, Option<Parser>))
    ensures
        r.0 is Module || r.0 is Component || r.0 is End || r.0 is Other,
        r.1 is Some <==> (r.0 is Module || r.0 is Component),
{
    match p {
        Payload::ModuleSection { parser, unchecked_range: r } => (Section::Module { start: r.start, end: r.end }, Some(parser)),
        Payload::ComponentSection { parser, unchecked_range: r } => (Section::Component { start: r.start, end: r.end }, Some(parser)),
        Payload::End(_) => (Section::End, None),
        _ => (Section::Other, None),
    }
}

/// A payload as a `Section`, with the sub-parser of a nested module or
/// component: there is a sub-parser exactly when the payload starts one.
fn classify_payload<'a>(p: Payload<'a>) -> (r: (Section<'a>, Option<Parser>))
    ensures
        r.1 is Some <==> (r.0 is Module || r.0 is Component),
{
    match classify_a(p) {
        Ok(s) => (s, None),
        Err(p) => match classify_b(p) {
            Ok(s) => (s, None),
            Err(p) => match classify_c(p) {
                Ok(s) => (s, None),
                Err(p) => classify_d(p),
            },
        },
    }
}

/// One payload of the stream: what it is, and its section id and byte range
/// when it is a whole section.
pub struct Item<'a> {
    pub section: Section<'a>,
    pub raw: Option<(u8, u64, u64)>,
}

/// The payloads of a binary in order, nested modules and components included:
/// after a nested module or component starts, its payloads follow up to its
/// `End`, and then those of the enclosing binary resume.
pub(crate) struct PayloadStream<'a> {
    data: &'a [u8],
    pos: usize,
    cur: wasmparser::Parser,
    stack: Vec<wasmparser::Parser>,
    done: bool,
}

impl<'a> PayloadStream<'a> {
    pub closed spec fn remaining(&self) -> nat {
        if self.pos <= self.data@.len() {
            (self.data@.len() - self.pos) as nat
        } else {
            0
        }
    }

    pub closed spec fn depth(&self) -> nat {
        if self.done {
            0
        } else {
            self.stack@.len() + 1
        }
    }

    pub closed spec fn wf(&self) -> bool {
        self.pos <= self.data@.len()
    }

    /// The outermost `End` or an error has been handed out.
    pub closed spec fn is_done(&self) -> bool {
        self.done
    }

    /// How many nested modules and components are open.
    pub closed spec fn nesting(&self) -> nat {
        self.stack@.len()
    }

    pub fn new(data: &'a [u8]) -> (s: Self)
        ensures
            s.wf(),
            !s.is_done(),
            s.nesting() == 0,
    {
        PayloadStream { data, pos: 0, cur: parser_new(), stack: Vec::new(), done: false }
    }

    /// The next payload; `None` once the outermost `End` or an error was returned.
    ///
    /// A nested module or component start opens one more level of nesting, an
    /// `End` closes one (the outermost `End` finishes the stream), and every
    /// other payload leaves the nesting as it is. After an error the stream is
    /// finished.
    pub fn next(&mut self) -> (r: Option<Result<Item<'a>, VelaError>>)
        requires
            old(self).wf(),
        ensures
            final(self).wf(),
            r is Some ==> final(self).remaining() < old(self).remaining() || (final(self).remaining()
                == old(self).remaining() && final(self).depth() < old(self).depth()),
            r is None <==> old(self).is_done(),
            old(self).is_done() ==> *final(self) == *old(self),
            r matches Some(Err(_)) ==> final(self).is_done(),
            r matches Some(Err(e)) ==> e is Wasm || e is InvalidWasm,
            r matches Some(Ok(item)) ==> {
                if item.section is Module || item.section is Component {
                    !final(self).is_done() && final(self).nesting() == old(self).nesting() + 1
                } else if item.section is End {
                    if old(self).nesting() == 0 {
                        final(self).is_done()
                    } else {
                        !final(self).is_done() && final(self).nesting() == old(self).nesting() - 1
                    }
                } else {
                    !final(self).is_done() && final(self).nesting() == old(self).nesting()
                }
            },
    {
        if self.done {
            return None;
        }
        let rest = slice_subrange(self.data, self.pos, self.data.len());
        let chunk = match parser_parse(&mut self.cur, rest) {
            Ok(c) => c,
            Err(e) => {
                self.done = true;
                return Some(Err(VelaError::Wasm(e)));
            },
        };
        let (consumed, payload) = match chunk {
            Chunk::Parsed { consumed, payload } => (consumed, payload),
            Chunk::NeedMoreData(_) => {
                self.done = true;
                return Some(Err(VelaError::InvalidWasm("unexpected end of input".to_owned())));
            },
        };
        self.pos = self.pos + consumed;
        let raw = payload_as_section(&payload);
        let (section, sub) = classify_payload(payload);
        match section {
            Section::End => {
                match self.stack.pop() {
                    Some(p) => {
                        self.cur = p;
                    },
                    None => {
                        self.done = true;
                    },
                }
            },
            _ => {
                if consumed == 0 {
                    // Only the end of a binary is reported without consuming input.
                    self.done = true;
                    return Some(Err(VelaError::InvalidWasm("parser made no progress".to_owned())));
                }
                if let Some(p) = sub {
                    let mut parent = p;
                    std::mem::swap(&mut self.cur, &mut parent);
                    self.stack.push(parent);
                }
            },
        }
        Some(Ok(Item { section, raw }))
    }
}

/// The items of `v` in reverse order: popping them hands them out first to last.
pub(crate) fn reversed<T>(v: Vec<T>) -> (r: Vec<T>)
    ensures
        r@ == v@.reverse(),
{
    let ghost orig = v@;
    let mut v = v;
    let mut r: Vec<T> = Vec::new();
    while v.len() > 0
        invariant
            v@ == orig.subrange(0, v@.len() as int),
            r@ == orig.subrange(v@.len() as int, orig.len() as int).reverse(),
            v@.len() <= orig.len(),
        decreases v@.len(),
    {
        let ghost m = v@.len() as int;
        let x = v.pop().unwrap();
        r.push(x);
        proof {
            assert(r@ =~= orig.subrange(m - 1, orig.len() as int).reverse());
        }
    }
    proof {
        assert(orig.subrange(0, orig.len() as int) =~= orig);
    }
    r
}

/// Popping from the reversed rest of `s` after position `i` hands out `s[i]`.
pub(crate) proof fn lemma_reverse_front<T>(s: Seq<T>, i: int)
    requires
        0 <= i < s.len(),
    ensures
        s.subrange(i, s.len() as int).reverse().len() == s.len() - i,
        s.subrange(i, s.len() as int).reverse().last() == s[i],
        s.subrange(i, s.len() as int).reverse().drop_last() =~= s.subrange(i + 1, s.len() as int).reverse(),
{
}

/// `wasmparser::SectionLimited::count`: the item count that the section declares.
#[verifier::external_body]
pub(crate) fn section_count<'a, T>(s: &SectionLimited<'a, T>) -> u32 {
    s.count()
}

/// `IntoIterator::into_iter` of a `wasmparser::SectionLimited`.
#[verifier::external_body]
pub(crate) fn section_items<'a, T: FromReader<'a>>(s: SectionLimited<'a, T>) -> SectionLimitedIntoIter<'a, T> {
    s.into_iter()
}

/// `Iterator::next` of a `wasmparser::SectionLimitedIntoIter`. Its source
/// yields the declared number of items, then an error if bytes are left over
/// in the section, and `None` from then on, or after the first error.
#[verifier::external_body]
pub(crate) fn section_next<'a, T: FromReader<'a>>(it: &mut SectionLimitedIntoIter<'a, T>) -> Option<Result<T, WasmError>> {
    it.next()
}

/// The items of a section, read until the end or the first error.
///
/// The section iterator yields at most one item more than the declared count
/// (a trailing error), so at most that many steps are taken.
pub(crate) fn collect_items<'a, T: FromReader<'a>>(s: SectionLimited<'a, T>) -> (r: Result<Vec<T>, VelaError>)
    ensures
        r matches Err(e) ==> e.is_parse_error(),
        r matches Ok(v) ==> v@.len() <= u32::MAX as int + 1,
{
    let n = section_count(&s);
    let mut it = section_items(s);
    let mut out: Vec<T> = Vec::new();
    let mut i: u64 = 0;
    while i <= n as u64
        invariant
            i <= n as u64 + 1,
            out@.len() == i,
        decreases n as u64 + 1 - i,
    {
        match section_next(&mut it) {
            None => break,
            Some(Err(e)) => return Err(VelaError::Wasm(e)),
            Some(Ok(x)) => out.push(x),
        }
        i = i + 1;
    }
    Ok(out)
}

#[verifier::external_type_specification]
#[verifier::external_body]
pub struct ExOperator<'a>(wasmparser::Operator<'a>);

#[verifier::external_type_specification]
#[verifier::external_body]
pub struct ExMemArgTarget(wasmparser::MemArgTarget);

/// `wasmparser::OperatorsReader::eof`.
#[verifier::external_body]
pub(crate) fn ops_eof(r: &OperatorsReader) -> bool {
    r.eof()
}

/// `wasmparser::OperatorsReader::get_binary_reader`.
#[verifier::external_body]
pub(crate) fn ops_binary_reader<'a>(r: &OperatorsReader<'a>) -> BinaryReader<'a> {
    r.get_binary_reader()
}

/// `wasmparser::BinaryReader::bytes_remaining`.
#[verifier::external_body]
pub(crate) fn reader_bytes_remaining(r: &BinaryReader) -> usize {
    r.bytes_remaining()
}

/// `wasmparser::OperatorsReader::read`: the next operator.
#[verifier::external_body]
pub(crate) fn ops_read<'a>(r: &mut OperatorsReader<'a>) -> Result<Operator<'a>, WasmError> {
    r.read()
}

/// Tells apart the operators that name a function or a global, and the
/// indirect calls (which name a table); any other operator is handed back.
#[verifier::external_body]
fn op_kind_a<'a>(o: Operator<'a>) -> Result<Op, Operator<'a>> {
    match o {
        Operator::Call { function_index } => Ok(Op::Call(function_index)),
        Operator::ReturnCall { function_index } => Ok(Op::ReturnCall(function_index)),
        Operator::RefFunc { function_index } => Ok(Op::RefFunc(function_index)),
        Operator::GlobalGet { global_index } => Ok(Op::GlobalGet(global_index)),
        Operator::GlobalSet { global_index } => Ok(Op::GlobalSet(global_index)),
        Operator::CallIndirect { table_index, .. } => Ok(Op::CallIndirect(table_index)),
        Operator::ReturnCallIndirect { table_index, .. } => Ok(Op::ReturnCallIndirect(table_index)),
        other => Err(other),
    }
}

/// Tells apart the table operators; any other operator is handed back.
#[verifier::external_body]
fn op_kind_b<'a>(o: Operator<'a>) -> Result<Op, Operator<'a>> {
    match o {
        Operator::TableGet { table } => Ok(Op::TableGet(table)),
        Operator::TableSet { table } => Ok(Op::TableSet(table)),
        Operator::TableGrow { table } => Ok(Op::TableGrow(table)),
        Operator::TableSize { table } => Ok(Op::TableSize(table)),
        Operator::TableFill { table } => Ok(Op::TableFill(table)),
        Operator::TableCopy { dst_table, src_table } => Ok(Op::TableCopy { dst_table, src_table }),
        Operator::TableInit { table, .. } => Ok(Op::TableInit(table)),
        other => Err(other),
    }
}

/// Tells apart the bulk memory operators; any other operator is handed back.
#[verifier::external_body]
fn op_kind_c<'a>(o: Operator<'a>) -> Result<Op, Operator<'a>> {
    match o {
        Operator::MemorySize { mem } => Ok(Op::MemorySize(mem)),
        Operator::MemoryGrow { mem } => Ok(Op::MemoryGrow(mem)),
        Operator::MemoryFill { mem } => Ok(Op::MemoryFill(mem)),
        Operator::MemoryCopy { dst_mem, src_mem } => Ok(Op::MemoryCopy { dst_mem, src_mem }),
        Operator::MemoryInit { mem, .. } => Ok(Op::MemoryInit(mem)),
        other => Err(other),
    }
}

/// Tells apart the first half of the plain loads, moving the target of their
/// memory argument; any other operator is handed back.
#[verifier::external_body]
fn op_load_a<'a>(o: Operator<'a>) -> Result<MemArgTarget, Operator<'a>> {
    match o {
        Operator::I32Load { memarg } | Operator::I64Load { memarg } => Ok(memarg.target),
        Operator::F32Load { memarg } | Operator::F64Load { memarg } => Ok(memarg.target),
        Operator::I32Load8S { memarg } | Operator::I32Load8U { memarg } => Ok(memarg.target),
        Operator::I32Load16S { memarg } => Ok(memarg.target),
        other => Err(other),
    }
}

/// Tells apart the second half of the plain loads, moving the target of their
/// memory argument; any other operator is handed back.
#[verifier::external_body]
fn op_load_b<'a>(o: Operator<'a>) -> Result<MemArgTarget, Operator<'a>> {
    match o {
        Operator::I32Load16U { memarg } | Operator::I64Load8S { memarg } => Ok(memarg.target),
        Operator::I64Load8U { memarg } | Operator::I64Load16S { memarg } => Ok(memarg.target),
        Operator::I64Load16U { memarg } | Operator::I64Load32S { memarg } => Ok(memarg.target),
        Operator::I64Load32U { memarg } => Ok(memarg.target),
        other => Err(other),
    }
}

/// Tells apart the plain stores, moving the target of their memory argument;
/// any other operator is handed back.
#[verifier::external_body]
fn op_store<'a>(o: Operator<'a>) -> Result<MemArgTarget, Operator<'a>> {
    match o {
        Operator::I32Store { memarg } | Operator::I64Store { memarg } => Ok(memarg.target),
        Operator::F32Store { memarg } | Operator::F64Store { memarg } => Ok(memarg.target),
        Operator::I32Store8 { memarg } | Operator::I32Store16 { memarg } => Ok(memarg.target),
        Operator::I64Store8 { memarg } | Operator::I64Store16 { memarg } => Ok(memarg.target),
        Operator::I64Store32 { memarg } => Ok(memarg.target),
        other => Err(other),
    }
}

/// Tells the two variants of `wasmparser::MemArgTarget` apart.
#[verifier::external_body]
fn access_target(t: MemArgTarget) -> AccessTarget {
    match t {
        MemArgTarget::Memory(i) => AccessTarget::Memory(i),
        MemArgTarget::Array(i) => AccessTarget::Array(i),
    }
}

/// An operator as an `Op`: the index it refers to, or `Other`.
fn op_of(o: Operator) -> Op {
    match op_kind_a(o) {
        Ok(op) => op,
        Err(o) => match op_kind_b(o) {
            Ok(op) => op,
            Err(o) => match op_kind_c(o) {
                Ok(op) => op,
                Err(o) => match op_load_a(o) {
                    Ok(t) => Op::MemoryAccess(access_target(t)),
                    Err(o) => match op_load_b(o) {
                        Ok(t) => Op::MemoryAccess(access_target(t)),
                        Err(o) => match op_store(o) {
                            Ok(t) => Op::MemoryAccess(access_target(t)),
                            Err(_) => Op::Other,
                        },
                    },
                },
            },
        },
    }
}

/// Every operator of a reader, in order, until it is exhausted or fails.
///
/// Each operator takes at least one byte, so at most as many operators as
/// the reader has bytes left are read.
pub(crate) fn read_ops(r: OperatorsReader) -> (res: Result<Vec<Op>, VelaError>)
    ensures
        res matches Err(e) ==> e.is_parse_error(),
{
    let mut r = r;
    let limit = reader_bytes_remaining(&ops_binary_reader(&r));
    let mut out: Vec<Op> = Vec::new();
    let mut n: usize = 0;
    while !ops_eof(&r)
        invariant
            n <= limit,
        decreases limit - n,
    {
        if n == limit {
            return Err(VelaError::InvalidWasm("operators run past their expression".to_owned()));
        }
        match ops_read(&mut r) {
            Ok(o) => out.push(op_of(o)),
            Err(e) => return Err(VelaError::Wasm(e)),
        }
        n = n + 1;
    }
    Ok(out)
}

/// `wasmparser::FunctionBody::get_operators_reader`: the operators after the locals.
#[verifier::external_body]
pub(crate) fn body_operators<'a>(b: &FunctionBody<'a>) -> Result<OperatorsReader<'a>, WasmError> {
    b.get_operators_reader()
}

/// `wasmparser::FunctionBody::as_bytes`: the bytes of the body (locals and code).
#[verifier::external_body]
pub(crate) fn body_bytes<'a>(b: &FunctionBody<'a>) -> &'a [u8] {
    b.as_bytes()
}

/// `wasmparser::ConstExpr::get_operators_reader`.
#[verifier::external_body]
pub(crate) fn const_operators<'a>(c: &ConstExpr<'a>) -> OperatorsReader<'a> {
    c.get_operators_reader()
}

/// The operators of a function body.
pub(crate) fn body_ops(b: &FunctionBody) -> (res: Result<Vec<Op>, VelaError>)
    ensures
        res matches Err(e) ==> e.is_parse_error(),
{
    match body_operators(b) {
        Ok(r) => read_ops(r),
        Err(e) => Err(VelaError::Wasm(e)),
    }
}

/// Tells the variants of `wasmparser::TypeRef` apart.
#[verifier::external_body]
fn type_ref_kind(t: &TypeRef) -> ExternKind {
    match t {
        TypeRef::Func(_) => ExternKind::Func,
        TypeRef::Table(_) => ExternKind::Table,
        TypeRef::Memory(_) => ExternKind::Memory,
        TypeRef::Global(_) => ExternKind::Global,
        TypeRef::Tag(_) => ExternKind::Tag,
        TypeRef::FuncExact(_) => ExternKind::FuncExact,
    }
}

/// The `ty` field of a `wasmparser::Import`.
#[verifier::external_body]
fn import_type_ref(i: &Import) -> TypeRef {
    i.ty
}

/// The `ty` field of a `wasmparser::ImportItemCompact`.
#[verifier::external_body]
fn compact_type_ref(i: &ImportItemCompact) -> TypeRef {
    i.ty
}

/// A group of imports of the import section.
pub(crate) enum ImportGroup<'a> {
    Single(Import<'a>),
    Compact1 { module: &'a str, items: SectionLimited<'a, ImportItemCompact<'a>> },
    Compact2 { module: &'a str, ty: TypeRef, names: SectionLimited<'a, &'a str> },
}

/// Tells the variants of `wasmparser::Imports` apart, moving their fields.
#[verifier::external_body]
fn import_group<'a>(g: Imports<'a>) -> ImportGroup<'a> {
    match g {
        Imports::Single(_, i) => ImportGroup::Single(i),
        Imports::Compact1 { module, items } => ImportGroup::Compact1 { module, items },
        Imports::Compact2 { module, ty, names } => ImportGroup::Compact2 { module, ty, names },
    }
}

/// The import that an item of a compact group stands for.
#[verifier::external_body]
fn compact1_import<'a>(module: &'a str, item: ImportItemCompact<'a>) -> Import<'a> {
    Import { module, name: item.name, ty: item.ty }
}

/// The import that a name of a compact group with a shared type stands for.
#[verifier::external_body]
fn compact2_import<'a>(module: &'a str, ty: TypeRef, name: &'a str) -> Import<'a> {
    Import { module, name, ty }
}

/// Every import of the import section, in order, with its kind; groups of
/// compact imports are flattened.
pub(crate) fn read_imports<'a>(r: SectionLimited<'a, Imports<'a>>) -> (res: Result<Vec<(ExternKind, Import<'a>)>, VelaError>)
    ensures
        res matches Err(e) ==> e.is_parse_error(),
{
    let groups = collect_items(r)?;
    let ghost all = groups@;
    let n = groups.len();
    let mut out: Vec<(ExternKind, Import<'a>)> = Vec::new();
    let mut rest = reversed(groups);
    let mut g: usize = 0;
    while g < n
        invariant
            g <= n,
            n == all.len(),
            rest@ == all.subrange(g as int, n as int).reverse(),
        decreases n - g,
    {
        proof {
            lemma_reverse_front(all, g as int);
        }
        let group = rest.pop().unwrap();
        match import_group(group) {
            ImportGroup::Single(i) => {
                let k = type_ref_kind(&import_type_ref(&i));
                out.push((k, i));
            },
            ImportGroup::Compact1 { module, items } => {
                let items = collect_items(items)?;
                let ghost listed = items@;
                let m = items.len();
                let mut left = reversed(items);
                let mut j: usize = 0;
                while j < m
                    invariant
                        j <= m,
                        m == listed.len(),
                        left@ == listed.subrange(j as int, m as int).reverse(),
                    decreases m - j,
                {
                    proof {
                        lemma_reverse_front(listed, j as int);
                    }
                    let item = left.pop().unwrap();
                    let k = type_ref_kind(&compact_type_ref(&item));
                    out.push((k, compact1_import(module, item)));
                    j = j + 1;
                }
            },
            ImportGroup::Compact2 { module, ty, names } => {
                let names = collect_items(names)?;
                let k = type_ref_kind(&ty);
                let mut j: usize = 0;
                while j < names.len()
                    invariant
                        j <= names@.len(),
                    decreases names@.len() - j,
                {
                    out.push((k, compact2_import(module, ty, names[j])));
                    j = j + 1;
                }
            },
        }
        g = g + 1;
    }
    Ok(out)
}

/// The kind and index of a `wasmparser::Export`.
#[verifier::external_body]
fn export_entry(e: &Export) -> (ExternKind, u32) {
    let k = match e.kind {
        ExternalKind::Func => ExternKind::Func,
        ExternalKind::Table => ExternKind::Table,
        ExternalKind::Memory => ExternKind::Memory,
        ExternalKind::Global => ExternKind::Global,
        ExternalKind::Tag => ExternKind::Tag,
        ExternalKind::FuncExact => ExternKind::FuncExact,
    };
    (k, e.index)
}

/// Every export of the export section, in order: kind and index.
pub(crate) fn read_exports(r: SectionLimited<Export>) -> (res: Result<Vec<(ExternKind, u32)>, VelaError>)
    ensures
        res matches Err(e) ==> e.is_parse_error(),
{
    let items = collect_items(r)?;
    let mut out: Vec<(ExternKind, u32)> = Vec::new();
    let mut i: usize = 0;
    while i < items.len()
        invariant
            i <= items@.len(),
        decreases items@.len() - i,
    {
        out.push(export_entry(&items[i]));
        i = i + 1;
    }
    Ok(out)
}

/// The items of an element segment.
pub(crate) enum ElemItems<'a> {
    Functions(SectionLimited<'a, u32>),
    Expressions(SectionLimited<'a, ConstExpr<'a>>),
}

/// The table of an active element segment (`Some(None)` when the segment
/// names no table) with its offset expression, `None` for a passive or
/// declared one, and the items.
#[verifier::external_body]
fn element_parts<'a>(e: Element<'a>) -> (Option<(Option<u32>, ConstExpr<'a>)>, ElemItems<'a>) {
    let active = match e.kind {
        ElementKind::Active { table_index, offset_expr } => Some((table_index, offset_expr)),
        _ => None,
    };
    let items = match e.items {
        ElementItems::Functions(r) => ElemItems::Functions(r),
        ElementItems::Expressions(_, r) => ElemItems::Expressions(r),
    };
    (active, items)
}

/// An element segment as plain values.
pub struct ElemInfo {
    /// For an active segment, the table it names, if any.
    pub active_table: Option<Option<u32>>,
    /// For an active segment, the operators of its offset expression.
    pub offset: Option<Vec<Op>>,
    /// The function indices, when the segment lists functions.
    pub functions: Option<Vec<u32>>,
    /// The operators of each expression, when the segment lists expressions.
    pub exprs: Option<Vec<Vec<Op>>>,
}

/// `e` carries item lists as `read_elements` reads them: none when `items` is
/// false, otherwise exactly one of the two kinds.
pub(crate) open spec fn elem_items_read(e: ElemInfo, items: bool) -> bool {
    if items {
        e.functions is Some != e.exprs is Some
    } else {
        e.functions is None && e.exprs is None
    }
}

/// Every element segment of the element section, in order. With `items`
/// false, the item lists are not read; with `items` true, each segment comes
/// with its function list or with the operators of its expressions.
pub(crate) fn read_elements(r: SectionLimited<Element>, items: bool) -> (res: Result<Vec<ElemInfo>, VelaError>)
    ensures
        res matches Ok(v) ==> forall|i: int| 0 <= i < v@.len() ==> #[trigger] elem_items_read(v@[i], items),
        res matches Err(e) ==> e.is_parse_error(),
{
    let segs = collect_items(r)?;
    let ghost all = segs@;
    let n = segs.len();
    let mut rest = reversed(segs);
    let mut out: Vec<ElemInfo> = Vec::new();
    let mut i: usize = 0;
    while i < n
        invariant
            i <= n,
            n == all.len(),
            rest@ == all.subrange(i as int, n as int).reverse(),
            forall|k: int| 0 <= k < out@.len() ==> #[trigger] elem_items_read(out@[k], items),
        decreases n - i,
    {
        proof {
            lemma_reverse_front(all, i as int);
        }
        let ghost before = out@;
        let (active, elem_items) = element_parts(rest.pop().unwrap());
        let (active_table, offset) = match active {
            Some((t, e)) => (Some(t), Some(read_ops(const_operators(&e))?)),
            None => (None, None),
        };
        if !items {
            out.push(ElemInfo { active_table, offset, functions: None, exprs: None });
        } else {
            match elem_items {
                ElemItems::Functions(fr) => {
                    let fs = collect_items(fr)?;
                    out.push(ElemInfo { active_table, offset, functions: Some(fs), exprs: None });
                },
                ElemItems::Expressions(er) => {
                    let exprs = collect_items(er)?;
                    let mut ops: Vec<Vec<Op>> = Vec::new();
                    let mut j: usize = 0;
                    while j < exprs.len()
                        invariant
                            j <= exprs@.len(),
                        decreases exprs@.len() - j,
                    {
                        ops.push(read_ops(const_operators(&exprs[j]))?);
                        j = j + 1;
                    }
                    out.push(ElemInfo { active_table, offset, functions: None, exprs: Some(ops) });
                },
            }
        }
        proof {
            assert forall|k: int| 0 <= k < out@.len() implies #[trigger] elem_items_read(out@[k], items) by {
                if k < before.len() {
                    assert(out@[k] == before[k]);
                }
            }
        }
        i = i + 1;
    }
    Ok(out)
}

/// The `init_expr` field of a `wasmparser::Global`.
#[verifier::external_body]
fn global_init<'a>(g: &Global<'a>) -> ConstExpr<'a> {
    g.init_expr.clone()
}

/// The operators of each global's initializer, in order.
pub(crate) fn read_global_inits(r: SectionLimited<Global>) -> (res: Result<Vec<Vec<Op>>, VelaError>)
    ensures
        res matches Err(e) ==> e.is_parse_error(),
{
    let items = collect_items(r)?;
    let mut out: Vec<Vec<Op>> = Vec::new();
    let mut i: usize = 0;
    while i < items.len()
        invariant
            i <= items@.len(),
        decreases items@.len() - i,
    {
        out.push(read_ops(const_operators(&global_init(&items[i])))?);
        i = i + 1;
    }
    Ok(out)
}

/// The memory and the offset expression of a `wasmparser::Data` segment
/// when it is active.
#[verifier::external_body]
fn data_active<'a>(d: &Data<'a>) -> Option<(u32, ConstExpr<'a>)> {
    match &d.kind {
        DataKind::Active { memory_index, offset_expr } => Some((*memory_index, offset_expr.clone())),
        DataKind::Passive => None,
    }
}

/// For each data segment, in order: its memory and the operators of its
/// offset expression when it is active, `None` when it is passive.
pub(crate) fn read_data_memories(r: SectionLimited<Data>) -> (res: Result<Vec<Option<(u32, Vec<Op>)>>, VelaError>)
    ensures
        res matches Err(e) ==> e.is_parse_error(),
{
    let items = collect_items(r)?;
    let mut out: Vec<Option<(u32, Vec<Op>)>> = Vec::new();
    let mut i: usize = 0;
    while i < items.len()
        invariant
            i <= items@.len(),
        decreases items@.len() - i,
    {
        match data_active(&items[i]) {
            Some((m, e)) => out.push(Some((m, read_ops(const_operators(&e))?))),
            None => out.push(None),
        }
        i = i + 1;
    }
    Ok(out)
}

} // verus!
