//! The module-level read/write interface to WebAssembly binaries, and the
//! plain values that the rest of the library reads from a module.

use parity_wasm::elements::{
    DataSegment as WasmDataSegment, ExportEntry as WasmExportEntry, GlobalEntry as WasmGlobalEntry,
    GlobalType, InitExpr, Instruction as I, Internal, Module, ValueType,
};
use vstd::prelude::*;
use vstd::string::StringSliceAdditionalSpecFns;

verus! {

#[verifier::external_type_specification]
#[verifier::external_body]
pub struct ExModule(parity_wasm::elements::Module);

#[verifier::external_type_specification]
#[verifier::external_body]
pub struct ExWasmError(parity_wasm::elements::Error);

/// An instruction of a constant expression, as far as this library tells
/// instructions apart.
#[derive(Clone, Copy, Debug, PartialEq, Eq, Structural)]
pub enum Instr {
    I32Const(i32),
    End,
    Other,
}

/// What an export refers to, as far as this library tells targets apart.
#[derive(Clone, Copy, Debug, PartialEq, Eq, Structural)]
pub enum ExportTarget {
    Global(u32),
    Other,
}

/// A data segment: its offset expression (empty for a passive segment) and
/// its payload.
pub struct DataSegment {
    pub offset: Vec<Instr>,
    pub payload: Vec<u8>,
}

/// A global: whether it is mutable, whether its value type is `i32`, and its
/// initialiser.
pub struct GlobalEntry {
    pub is_mutable: bool,
    pub is_i32: bool,
    pub init: Vec<Instr>,
}

/// An export: the bytes of its field name and its target.
pub struct ExportEntry {
    pub name: Vec<u8>,
    pub target: ExportTarget,
}

/// A custom section: the bytes of its name and its payload.
pub struct CustomSection {
    pub name: Vec<u8>,
    pub payload: Vec<u8>,
}

pub type DataView = (Seq<Instr>, Seq<u8>);

pub type GlobalView = (bool, bool, Seq<Instr>);

pub type ExportView = (Seq<u8>, ExportTarget);

pub type CustomView = (Seq<u8>, Seq<u8>);

impl View for DataSegment {
    type V = DataView;

    open spec fn view(&self) -> DataView {
        (self.offset@, self.payload@)
    }
}

impl View for GlobalEntry {
    type V = GlobalView;

    open spec fn view(&self) -> GlobalView {
        (self.is_mutable, self.is_i32, self.init@)
    }
}

impl View for ExportEntry {
    type V = ExportView;

    open spec fn view(&self) -> ExportView {
        (self.name@, self.target)
    }
}

impl View for CustomSection {
    type V = CustomView;

    open spec fn view(&self) -> CustomView {
        (self.name@, self.payload@)
    }
}

/// The views of a sequence of entries.
pub open spec fn views<T: View>(s: Seq<T>) -> Seq<T::V> {
    s.map_values(|x: T| x@)
}

/// The expression `i32.const k; end`.
pub open spec fn const_expr(k: i32) -> Seq<Instr> {
    seq![Instr::I32Const(k), Instr::End]
}

/// The module that `b` decodes to, if it is a WebAssembly binary.
pub uninterp spec fn decoded(b: Seq<u8>) -> Option<Module>;

/// The binary encoding of `m`, if it can be encoded.
pub uninterp spec fn encoded(m: Module) -> Option<Seq<u8>>;

/// The segments of the data section of `m`, if it has one.
pub uninterp spec fn data_of(m: Module) -> Option<Seq<DataView>>;

/// The entries of the global section of `m`, if it has one.
pub uninterp spec fn globals_of(m: Module) -> Option<Seq<GlobalView>>;

/// The entries of the export section of `m`, if it has one.
pub uninterp spec fn exports_of(m: Module) -> Option<Seq<ExportView>>;

/// The custom sections of `m`, in order.
pub uninterp spec fn customs_of(m: Module) -> Seq<CustomView>;

/// `m` with the payload of its data segment `i` replaced by `p`.
pub uninterp spec fn with_payload(m: Module, i: int, p: Seq<u8>) -> Module;

/// Whether `m`, once encoded, decodes back to itself.
pub open spec fn decodes_back(m: Module) -> bool {
    encoded(m) is Some ==> decoded(encoded(m)->Some_0) == Some(m)
}

/// The bytes of a custom section named `name` that holds `payload`, when
/// its length fits in one LEB128 byte.
pub open spec fn custom_frame(name: Seq<u8>, payload: Seq<u8>) -> Seq<u8> {
    seq![0u8, (1 + name.len() + payload.len()) as u8, name.len() as u8] + name + payload
}

/// `b`, which decodes to `m`, followed by a custom section named `name` that
/// holds `payload`, decodes to `m` with that section added last.
pub open spec fn decodes_with_custom(m: Module, b: Seq<u8>, name: Seq<u8>, payload: Seq<u8>) -> bool {
    let m2 = decoded(b + custom_frame(name, payload));
    &&& m2 is Some
    &&& customs_of(m2->Some_0) == customs_of(m).push((name, payload))
    &&& data_of(m2->Some_0) == data_of(m)
    &&& globals_of(m2->Some_0) == globals_of(m)
    &&& exports_of(m2->Some_0) == exports_of(m)
}

/// Relies on parity_wasm::deserialize_buffer: decoding is a function of the
/// bytes; Module's serializer writes back what its deserializer read; and
/// after bytes that are a module's own encoding, the deserializer reads a
/// complete custom section as one more section.
#[verifier::external_body]
pub(crate) fn decode_module(b: &[u8]) -> (r: Result<Module, parity_wasm::elements::Error>)
    ensures
        r is Ok <==> decoded(b@) is Some,
        r is Ok ==> decoded(b@) == Some(r->Ok_0),
        r is Ok ==> decodes_back(r->Ok_0),
        r is Ok && encoded(r->Ok_0) == Some(b@) ==> forall|t: &str, payload: Seq<u8>|
            1 + t.spec_bytes().len() + payload.len() <= 127
                ==> #[trigger] decodes_with_custom(r->Ok_0, b@, t.spec_bytes(), payload),
{
    parity_wasm::deserialize_buffer(b)
}

/// Relies on parity_wasm::serialize: encoding is a function of the module,
/// and it writes into a vector, which does not fail.
#[verifier::external_body]
pub(crate) fn encode_module(m: &Module) -> (r: Result<Vec<u8>, parity_wasm::elements::Error>)
    ensures
        r is Ok,
        r is Ok <==> encoded(*m) is Some,
        r is Ok ==> encoded(*m) == Some(r->Ok_0@),
{
    parity_wasm::serialize(m.clone())
}

/// Relies on Module::data_section, DataSegment::offset and DataSegment::value.
#[verifier::external_body]
pub(crate) fn data_segments(m: &Module) -> (r: Option<Vec<DataSegment>>)
    ensures
        r is Some <==> data_of(*m) is Some,
        r is Some ==> views(r->Some_0@) == data_of(*m)->Some_0,
{
    m.data_section().map(|s| s.entries().iter().map(|d| DataSegment {
        offset: d.offset().as_ref().map_or(Vec::new(), |e| e.code().iter().map(|i| match i {
            I::I32Const(k) => Instr::I32Const(*k),
            I::End => Instr::End,
            _ => Instr::Other,
        }).collect()),
        payload: d.value().to_vec(),
    }).collect())
}

/// Relies on Module::global_section, GlobalEntry::global_type and
/// GlobalEntry::init_expr.
#[verifier::external_body]
pub(crate) fn global_entries(m: &Module) -> (r: Option<Vec<GlobalEntry>>)
    ensures
        r is Some <==> globals_of(*m) is Some,
        r is Some ==> views(r->Some_0@) == globals_of(*m)->Some_0,
{
    m.global_section().map(|s| s.entries().iter().map(|g| GlobalEntry {
        is_mutable: g.global_type().is_mutable(),
        is_i32: matches!(g.global_type().content_type(), ValueType::I32),
        init: g.init_expr().code().iter().map(|i| match i {
            I::I32Const(k) => Instr::I32Const(*k),
            I::End => Instr::End,
            _ => Instr::Other,
        }).collect(),
    }).collect())
}

/// Relies on Module::export_section, ExportEntry::field and
/// ExportEntry::internal.
#[verifier::external_body]
pub(crate) fn export_entries(m: &Module) -> (r: Option<Vec<ExportEntry>>)
    ensures
        r is Some <==> exports_of(*m) is Some,
        r is Some ==> views(r->Some_0@) == exports_of(*m)->Some_0,
{
    m.export_section().map(|s| s.entries().iter().map(|e| ExportEntry {
        name: e.field().as_bytes().to_vec(),
        target: match e.internal() {
            Internal::Global(i) => ExportTarget::Global(*i),
            _ => ExportTarget::Other,
        },
    }).collect())
}

/// Relies on Module::custom_sections, CustomSection::name and
/// CustomSection::payload.
#[verifier::external_body]
pub(crate) fn custom_sections(m: &Module) -> (r: Vec<CustomSection>)
    ensures
        views(r@) == customs_of(*m),
{
    m.custom_sections().map(|c| CustomSection {
        name: c.name().as_bytes().to_vec(),
        payload: c.payload().to_vec(),
    }).collect()
}

/// Relies on Module::data_section_mut and DataSegment::new: appends an active
/// segment for memory 0 at `offset`, which the serializer writes and the
/// deserializer reads back.
#[verifier::external_body]
pub(crate) fn push_data_segment(m: &mut Module, offset: i32, payload: Vec<u8>)
    requires
        data_of(*old(m)) is Some,
    ensures
        data_of(*final(m)) == Some(data_of(*old(m))->Some_0.push((const_expr(offset), payload@))),
        globals_of(*final(m)) == globals_of(*old(m)),
        exports_of(*final(m)) == exports_of(*old(m)),
        customs_of(*final(m)) == customs_of(*old(m)),
        decodes_back(*old(m)) ==> decodes_back(*final(m)),
{
    if let Some(s) = m.data_section_mut() {
        let expr = InitExpr::new(vec![I::I32Const(offset), I::End]);
        s.entries_mut().push(WasmDataSegment::new(0, Some(expr), payload));
    }
}

/// Relies on Module::global_section_mut and GlobalEntry::new: appends an
/// immutable `i32` global initialised to `value`, which the serializer
/// writes and the deserializer reads back.
#[verifier::external_body]
pub(crate) fn push_i32_global(m: &mut Module, value: i32)
    requires
        globals_of(*old(m)) is Some,
    ensures
        globals_of(*final(m)) == Some(globals_of(*old(m))->Some_0.push((false, true, const_expr(value)))),
        data_of(*final(m)) == data_of(*old(m)),
        exports_of(*final(m)) == exports_of(*old(m)),
        customs_of(*final(m)) == customs_of(*old(m)),
        decodes_back(*old(m)) ==> decodes_back(*final(m)),
{
    if let Some(s) = m.global_section_mut() {
        let expr = InitExpr::new(vec![I::I32Const(value), I::End]);
        s.entries_mut().push(WasmGlobalEntry::new(GlobalType::new(ValueType::I32, false), expr));
    }
}

/// Relies on Module::export_section_mut and ExportEntry::new: appends an
/// export of the global `index` under `name`, which the serializer writes
/// and the deserializer reads back.
#[verifier::external_body]
pub(crate) fn push_global_export(m: &mut Module, name: &str, index: u32)
    requires
        exports_of(*old(m)) is Some,
    ensures
        exports_of(*final(m)) == Some(exports_of(*old(m))->Some_0.push((name.spec_bytes(), ExportTarget::Global(index)))),
        data_of(*final(m)) == data_of(*old(m)),
        globals_of(*final(m)) == globals_of(*old(m)),
        customs_of(*final(m)) == customs_of(*old(m)),
        decodes_back(*old(m)) ==> decodes_back(*final(m)),
{
    if let Some(s) = m.export_section_mut() {
        s.entries_mut().push(WasmExportEntry::new(name.to_string(), Internal::Global(index)));
    }
}

/// Relies on Module::data_section_mut and DataSegment::value_mut: replaces
/// the payload of the data segment `i`; a later replacement overrides it,
/// and putting back the payload that was there gives the same module.
#[verifier::external_body]
pub(crate) fn set_data_payload(m: &mut Module, i: usize, payload: Vec<u8>)
    requires
        data_of(*old(m)) is Some,
        i < data_of(*old(m))->Some_0.len(),
    ensures
        *final(m) == with_payload(*old(m), i as int, payload@),
        data_of(*final(m)) == Some(data_of(*old(m))->Some_0.update(i as int, (data_of(*old(m))->Some_0[i as int].0, payload@))),
        globals_of(*final(m)) == globals_of(*old(m)),
        exports_of(*final(m)) == exports_of(*old(m)),
        customs_of(*final(m)) == customs_of(*old(m)),
        decodes_back(*old(m)) ==> decodes_back(*final(m)),
        forall|q: Seq<u8>| #[trigger] with_payload(*final(m), i as int, q) == with_payload(*old(m), i as int, q),
        with_payload(*old(m), i as int, data_of(*old(m))->Some_0[i as int].1) == *old(m),
{
    if let Some(s) = m.data_section_mut() {
        *s.entries_mut()[i].value_mut() = payload;
    }
}

} // verus!
