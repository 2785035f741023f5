//! The decoder of the module format, which this library does not verify.
//!
//! Decoding is done by the `wasmparser` crate. What it yields is carried
//! through the two streams below. Every contract in this file is believed,
//! not proved: it says what the decoder's source shows, and the scan in
//! `scanner` is proved from it.

use vstd::prelude::*;
use crate::bytes::starts_with;
use crate::import::{Import, ImportPair};
use crate::machine::Encoding;

verus! {

/// What decoding one import entry gave.
pub enum EntryModel {
    /// The entry was decoded.
    Import(ImportPair),
    /// The entry could not be decoded.
    Failed,
}

/// What decoding one top-level unit of a payload gave.
pub enum UnitModel {
    /// The header, with the encoding it announces.
    Header(Encoding),
    /// An import section, with what decoding each of its entries gives, in
    /// order.
    Imports(Seq<EntryModel>),
    /// The end marker.
    End,
    /// A section of any other kind.
    Other,
    /// The unit could not be decoded.
    Failed,
}

/// The magic bytes at the start of a module or component: a zero byte and
/// `asm`.
pub open spec fn binary_magic() -> Seq<u8> {
    seq![0x00u8, 0x61, 0x73, 0x6d]
}

/// The error type of `wasmparser`, carried through and never looked into.
#[verifier::external_type_specification]
#[verifier::external_body]
pub struct ExDecodeError(wasmparser::BinaryReaderError);

/// The iterator over the import entries of one section that
/// `SectionLimited::into_imports` returns. Its type has no name, so it is kept
/// boxed in this struct, which hides it from the verifier.
#[verifier::external_body]
pub struct ImportStream<'a> {
    inner: Box<dyn Iterator<Item = Result<wasmparser::Import<'a>, wasmparser::BinaryReaderError>> + 'a>,
}

/// The iterator over the top-level units of one payload that
/// `Parser::parse_all` returns. Its type has no name, so it is kept boxed in
/// this struct, which hides it from the verifier.
#[verifier::external_body]
pub struct UnitStream<'a> {
    inner: Box<dyn Iterator<Item = Result<wasmparser::Payload<'a>, wasmparser::BinaryReaderError>> + 'a>,
}

/// What the entries still to come from an import stream decode to, in order.
/// The iterator reads a section of a byte slice and a count it holds, so what
/// it will yield is fixed when it is made, and it ends.
pub uninterp spec fn pending_imports(stream: ImportStream<'_>) -> Seq<EntryModel>;

/// What the units still to come from a unit stream decode to, in order. The
/// iterator reads a byte slice front to back, so what it will yield is fixed
/// when it is made, and it ends.
pub uninterp spec fn pending_units(stream: UnitStream<'_>) -> Seq<UnitModel>;

/// What `wasmparser` decodes the payload `bytes` to: the units that
/// `Parser::new(0).parse_all(bytes)` yields, in order.
pub uninterp spec fn decoded_units(bytes: Seq<u8>) -> Seq<UnitModel>;

/// One decoded top-level unit, as far as the scan reads it.
pub enum Unit<'a> {
    /// The header, with the encoding it announces.
    Header(Encoding),
    /// An import section, whose entries are decoded on demand.
    Imports(ImportStream<'a>),
    /// The end marker.
    End,
    /// A section of any other kind, which is not decoded.
    Other,
}

impl<'a> Unit<'a> {
    /// What this unit stands for.
    pub open spec fn model(self) -> UnitModel {
        match self {
            Unit::Header(encoding) => UnitModel::Header(encoding),
            Unit::Imports(stream) => UnitModel::Imports(pending_imports(stream)),
            Unit::End => UnitModel::End,
            Unit::Other => UnitModel::Other,
        }
    }
}

/// Starts decoding `bytes` with `wasmparser::Parser::new(0).parse_all(bytes)`.
///
/// Nothing is decoded yet. The stream will yield what `decoded_units` names
/// for these bytes. On bytes that do not begin with the magic bytes that is a
/// single failure: the decoder reads the magic first, returns an error if it
/// is not there, and yields nothing after an error.
#[verifier::external_body]
pub(crate) fn open_units<'a>(bytes: &'a [u8]) -> (stream: UnitStream<'a>)
    ensures
        pending_units(stream) == decoded_units(bytes@),
        !starts_with(bytes@, binary_magic()) ==> pending_units(stream) == seq![UnitModel::Failed],
{
    UnitStream { inner: Box::new(wasmparser::Parser::new(0).parse_all(bytes)) }
}

/// Takes the next unit from the iterator that `parse_all` returned.
///
/// The result is `None` when nothing is pending. Otherwise the first pending
/// unit leaves the stream: an error of the decoder stands for `Failed`, and a
/// payload is told apart by its variant alone (`Version` with its encoding,
/// `ImportSection`, `End`, anything else). For an import section the reader is
/// turned into its entry iterator with `into_imports`, which decodes nothing
/// yet.
#[verifier::external_body]
pub(crate) fn next_unit<'a>(stream: &mut UnitStream<'a>) -> (next: Option<
    Result<Unit<'a>, wasmparser::BinaryReaderError>,
>)
    ensures
        next is None ==> pending_units(*old(stream)).len() == 0,
        next is None ==> pending_units(*final(stream)) == pending_units(*old(stream)),
        next is Some ==> pending_units(*old(stream)).len() > 0,
        next is Some ==> pending_units(*final(stream)) == pending_units(*old(stream)).drop_first(),
        next matches Some(Err(_)) ==> pending_units(*old(stream))[0] == UnitModel::Failed,
        next matches Some(Ok(unit)) ==> pending_units(*old(stream))[0] == unit.model(),
{
    Some(Ok(match stream.inner.next()? {
        Err(error) => return Some(Err(error)),
        Ok(wasmparser::Payload::Version { encoding: wasmparser::Encoding::Module, .. }) => Unit::Header(Encoding::Module),
        Ok(wasmparser::Payload::Version { encoding: wasmparser::Encoding::Component, .. }) => Unit::Header(Encoding::Component),
        Ok(wasmparser::Payload::ImportSection(reader)) => Unit::Imports(ImportStream { inner: Box::new(reader.into_imports()) }),
        Ok(wasmparser::Payload::End(_)) => Unit::End,
        Ok(_) => Unit::Other,
    }))
}

/// Takes the next entry from the iterator that `into_imports` returned.
///
/// The result is `None` when nothing is pending. Otherwise the first pending
/// entry leaves the stream: an error of the decoder stands for `Failed`, and
/// of a decoded import the two names are handed out as they are.
#[verifier::external_body]
pub(crate) fn next_import<'a>(stream: &mut ImportStream<'a>) -> (next: Option<
    Result<Import<'a>, wasmparser::BinaryReaderError>,
>)
    ensures
        next is None ==> pending_imports(*old(stream)).len() == 0,
        next is None ==> pending_imports(*final(stream)) == pending_imports(*old(stream)),
        next is Some ==> pending_imports(*old(stream)).len() > 0,
        next is Some ==> pending_imports(*final(stream)) == pending_imports(
            *old(stream),
        ).drop_first(),
        next matches Some(Err(_)) ==> pending_imports(*old(stream))[0] == EntryModel::Failed,
        next matches Some(Ok(import)) ==> pending_imports(*old(stream))[0] == EntryModel::Import(
            import@,
        ),
{
    match stream.inner.next()? {
        Err(error) => Some(Err(error)),
        Ok(import) => Some(Ok(Import { module: import.module, name: import.name })),
    }
}

} // verus!
