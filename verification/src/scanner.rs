//! The scan of one payload for an import.

use vstd::prelude::*;
use crate::bytes::starts_with;
use crate::decode::{
    binary_magic, decoded_units, next_import, next_unit, open_units, pending_imports,
    pending_units, EntryModel, ImportStream, Unit, UnitModel,
};
use crate::import::{pair_of, ImportPair, ImportQuery};
use crate::machine::{Encoding, ScanState};
use crate::verdict::ScanVerdict;

verus! {

/// The state after one entry of an import section.
pub open spec fn after_entry(state: ScanState, entry: EntryModel, query: ImportPair) -> ScanState {
    match entry {
        EntryModel::Import(import) => state.after_import(import, query),
        EntryModel::Failed => state.after_failure(),
    }
}

/// The state after the entries of an import section, taken in order.
pub open spec fn after_entries(
    state: ScanState,
    entries: Seq<EntryModel>,
    query: ImportPair,
) -> ScanState
    decreases entries.len(),
{
    if entries.len() == 0 {
        state
    } else {
        after_entries(after_entry(state, entries[0], query), entries.drop_first(), query)
    }
}

/// The state after one top-level unit.
pub open spec fn after_unit(state: ScanState, unit: UnitModel, query: ImportPair) -> ScanState {
    match unit {
        UnitModel::Header(encoding) => state.after_header(encoding),
        UnitModel::Imports(entries) => after_entries(state.after_section(), entries, query),
        UnitModel::End => state.after_end(),
        UnitModel::Other => state.after_section(),
        UnitModel::Failed => state.after_failure(),
    }
}

/// The state after a sequence of top-level units, taken in order.
pub open spec fn after_units(state: ScanState, units: Seq<UnitModel>, query: ImportPair) -> ScanState
    decreases units.len(),
{
    if units.len() == 0 {
        state
    } else {
        after_units(after_unit(state, units[0], query), units.drop_first(), query)
    }
}

/// The verdict on a payload that decodes to `units`, for the import `query`.
pub open spec fn scan_verdict(units: Seq<UnitModel>, query: ImportPair) -> ScanVerdict {
    after_units(ScanState::Start, units, query).verdict()
}

/// A final state stays what it is through any entries.
pub proof fn lemma_final_through_entries(
    state: ScanState,
    entries: Seq<EntryModel>,
    query: ImportPair,
)
    requires
        state.is_final(),
    ensures
        after_entries(state, entries, query) == state,
    decreases entries.len(),
{
    if entries.len() > 0 {
        lemma_final_through_entries(state, entries.drop_first(), query);
    }
}

/// A final state stays what it is through any units.
pub proof fn lemma_final_through_units(state: ScanState, units: Seq<UnitModel>, query: ImportPair)
    requires
        state.is_final(),
    ensures
        after_units(state, units, query) == state,
    decreases units.len(),
{
    if units.len() > 0 {
        match units[0] {
            UnitModel::Imports(entries) => lemma_final_through_entries(state, entries, query),
            _ => {},
        }
        lemma_final_through_units(state, units.drop_first(), query);
    }
}

/// The state after a single unit.
pub proof fn lemma_single_unit(state: ScanState, unit: UnitModel, query: ImportPair)
    ensures
        after_units(state, seq![unit], query) == after_unit(state, unit, query),
{
    assert(seq![unit].drop_first() =~= Seq::<UnitModel>::empty());
    reveal_with_fuel(after_units, 2);
}

/// The state after two runs of units, one behind the other, is the state
/// after the second run from where the first one ends.
pub proof fn lemma_units_in_two_runs(
    state: ScanState,
    first: Seq<UnitModel>,
    second: Seq<UnitModel>,
    query: ImportPair,
)
    ensures
        after_units(state, first + second, query) == after_units(
            after_units(state, first, query),
            second,
            query,
        ),
    decreases first.len(),
{
    if first.len() == 0 {
        assert(first + second =~= second);
    } else {
        assert((first + second)[0] == first[0]);
        assert((first + second).drop_first() =~= first.drop_first() + second);
        lemma_units_in_two_runs(
            after_unit(state, first[0], query),
            first.drop_first(),
            second,
            query,
        );
    }
}

/// Whether every entry of `entries` was decoded.
pub open spec fn all_decoded(entries: Seq<EntryModel>) -> bool {
    forall|j: int| 0 <= j < entries.len() ==> #[trigger] entries[j] is Import
}

/// Whether `entries` holds the import `query`.
pub open spec fn lists(entries: Seq<EntryModel>, query: ImportPair) -> bool {
    exists|j: int| 0 <= j < entries.len() && #[trigger] entries[j] == EntryModel::Import(query)
}

/// Whether `unit` is a section whose entries, if it is an import section, were
/// all decoded.
pub open spec fn is_sound_section(unit: UnitModel) -> bool {
    match unit {
        UnitModel::Other => true,
        UnitModel::Imports(entries) => all_decoded(entries),
        _ => false,
    }
}

/// Whether `units` is what a well-formed module decodes to: the header of a
/// module, then sections that decode, then the end marker.
pub open spec fn is_well_formed(units: Seq<UnitModel>) -> bool {
    &&& units.len() >= 2
    &&& units[0] == UnitModel::Header(Encoding::Module)
    &&& units.last() == UnitModel::End
    &&& forall|i: int| 0 < i < units.len() - 1 ==> is_sound_section(#[trigger] units[i])
}

/// Whether an import section among `units` holds the import `query`.
pub open spec fn declares(units: Seq<UnitModel>, query: ImportPair) -> bool {
    exists|i: int|
        0 <= i < units.len() && (#[trigger] units[i] matches UnitModel::Imports(entries) && lists(
            entries,
            query,
        ))
}

/// A walk under way through entries that were all decoded ends as `Matched`
/// if the query is among them, and goes on otherwise.
pub proof fn lemma_entries_decide(entries: Seq<EntryModel>, query: ImportPair)
    requires
        all_decoded(entries),
    ensures
        after_entries(ScanState::Scanning, entries, query) == if lists(entries, query) {
            ScanState::Matched
        } else {
            ScanState::Scanning
        },
    decreases entries.len(),
{
    if entries.len() > 0 {
        let rest = entries.drop_first();
        assert(entries[0] is Import);
        assert forall|j: int| 0 <= j < rest.len() implies #[trigger] rest[j] is Import by {
            assert(rest[j] == entries[j + 1]);
        }
        if entries[0] == EntryModel::Import(query) {
            lemma_final_through_entries(ScanState::Matched, rest, query);
        } else {
            lemma_entries_decide(rest, query);
            if lists(rest, query) {
                let j = choose|j: int|
                    0 <= j < rest.len() && #[trigger] rest[j] == EntryModel::Import(query);
                assert(entries[j + 1] == EntryModel::Import(query));
            }
            if lists(entries, query) {
                let j = choose|j: int|
                    0 <= j < entries.len() && #[trigger] entries[j] == EntryModel::Import(query);
                assert(rest[j - 1] == EntryModel::Import(query));
            }
        }
    }
}

/// A walk under way through sections that decode ends as `Matched` if one of
/// them declares the query, and goes on otherwise.
pub proof fn lemma_sections_decide(units: Seq<UnitModel>, query: ImportPair)
    requires
        forall|i: int| 0 <= i < units.len() ==> is_sound_section(#[trigger] units[i]),
    ensures
        after_units(ScanState::Scanning, units, query) == if declares(units, query) {
            ScanState::Matched
        } else {
            ScanState::Scanning
        },
    decreases units.len(),
{
    if units.len() > 0 {
        let rest = units.drop_first();
        assert(is_sound_section(units[0]));
        assert forall|i: int| 0 <= i < rest.len() implies is_sound_section(#[trigger] rest[i]) by {
            assert(rest[i] == units[i + 1]);
        }
        let hit = units[0] matches UnitModel::Imports(entries) && lists(entries, query);
        match units[0] {
            UnitModel::Imports(entries) => lemma_entries_decide(entries, query),
            _ => {},
        }
        if hit {
            lemma_final_through_units(ScanState::Matched, rest, query);
        } else {
            lemma_sections_decide(rest, query);
            if declares(rest, query) {
                let i = choose|i: int|
                    0 <= i < rest.len() && (#[trigger] rest[i] matches UnitModel::Imports(entries)
                        && lists(entries, query));
                assert(units[i + 1] == rest[i]);
            }
            if declares(units, query) {
                let i = choose|i: int|
                    0 <= i < units.len() && (#[trigger] units[i] matches UnitModel::Imports(
                        entries,
                    ) && lists(entries, query));
                assert(rest[i - 1] == units[i]);
            }
        }
    }
}

/// On a well-formed module the verdict is `Found` if an import section
/// declares the query, and `NotFound` if none does.
pub proof fn lemma_well_formed_verdict(units: Seq<UnitModel>, query: ImportPair)
    requires
        is_well_formed(units),
    ensures
        declares(units, query) ==> scan_verdict(units, query) == ScanVerdict::Found,
        !declares(units, query) ==> scan_verdict(units, query) == ScanVerdict::NotFound,
{
    let last = units.len() - 1;
    let sections = units.subrange(1, last);
    let head = seq![units[0]];
    let tail = seq![units[last]];
    assert(units =~= head + (sections + tail));
    lemma_units_in_two_runs(ScanState::Start, head, sections + tail, query);
    lemma_single_unit(ScanState::Start, units[0], query);
    lemma_units_in_two_runs(ScanState::Scanning, sections, tail, query);
    assert forall|i: int| 0 <= i < sections.len() implies is_sound_section(
        #[trigger] sections[i],
    ) by {
        assert(sections[i] == units[i + 1]);
    }
    lemma_sections_decide(sections, query);
    let middle = after_units(ScanState::Scanning, sections, query);
    lemma_single_unit(middle, units[last], query);
    if declares(sections, query) {
        let i = choose|i: int|
            0 <= i < sections.len() && (#[trigger] sections[i] matches UnitModel::Imports(entries)
                && lists(entries, query));
        assert(units[i + 1] == sections[i]);
    }
    if declares(units, query) {
        let i = choose|i: int|
            0 <= i < units.len() && (#[trigger] units[i] matches UnitModel::Imports(entries)
                && lists(entries, query));
        assert(sections[i - 1] == units[i]);
    }
}

/// A payload whose first unit is not the header of a module is no module:
/// one that decodes to nothing, that fails at once, that announces another
/// encoding, or that begins with anything else.
pub proof fn lemma_header_must_come_first(units: Seq<UnitModel>, query: ImportPair)
    requires
        units.len() == 0 || units[0] != UnitModel::Header(Encoding::Module),
    ensures
        scan_verdict(units, query) == ScanVerdict::NotAModule,
{
    if units.len() > 0 {
        match units[0] {
            UnitModel::Imports(entries) => {
                lemma_final_through_entries(ScanState::Malformed, entries, query);
            },
            _ => {},
        }
        assert(after_unit(ScanState::Start, units[0], query) == ScanState::Malformed);
        lemma_final_through_units(ScanState::Malformed, units.drop_first(), query);
    }
}

/// Entries end a walk as `Matched` only if the query is among them.
pub proof fn lemma_matched_entry_is_listed(
    state: ScanState,
    entries: Seq<EntryModel>,
    query: ImportPair,
)
    requires
        state != ScanState::Matched,
        after_entries(state, entries, query) == ScanState::Matched,
    ensures
        lists(entries, query),
    decreases entries.len(),
{
    if entries.len() > 0 {
        let next = after_entry(state, entries[0], query);
        if next == ScanState::Matched {
            assert(entries[0] == EntryModel::Import(query));
        } else {
            lemma_matched_entry_is_listed(next, entries.drop_first(), query);
            let j = choose|j: int|
                0 <= j < entries.drop_first().len() && #[trigger] entries.drop_first()[j]
                    == EntryModel::Import(query);
            assert(entries[j + 1] == EntryModel::Import(query));
        }
    }
}

/// Units end a scan as `Matched` only if an import section among them holds
/// the query.
pub proof fn lemma_matched_unit_declares(state: ScanState, units: Seq<UnitModel>, query: ImportPair)
    requires
        state != ScanState::Matched,
        after_units(state, units, query) == ScanState::Matched,
    ensures
        declares(units, query),
    decreases units.len(),
{
    if units.len() > 0 {
        let next = after_unit(state, units[0], query);
        if next == ScanState::Matched {
            match units[0] {
                UnitModel::Imports(entries) => {
                    lemma_matched_entry_is_listed(state.after_section(), entries, query);
                },
                _ => {},
            }
            assert(units[0] matches UnitModel::Imports(entries) && lists(entries, query));
        } else {
            let rest = units.drop_first();
            lemma_matched_unit_declares(next, rest, query);
            let i = choose|i: int|
                0 <= i < rest.len() && (#[trigger] rest[i] matches UnitModel::Imports(entries)
                    && lists(entries, query));
            assert(units[i + 1] == rest[i]);
        }
    }
}

/// The verdict is `Found` only on a payload that begins with the header of a
/// module and has an import section that holds the query.
pub proof fn lemma_found_is_declared(units: Seq<UnitModel>, query: ImportPair)
    requires
        scan_verdict(units, query) == ScanVerdict::Found,
    ensures
        units.len() > 0,
        units[0] == UnitModel::Header(Encoding::Module),
        declares(units, query),
{
    if units.len() == 0 || units[0] != UnitModel::Header(Encoding::Module) {
        lemma_header_must_come_first(units, query);
    }
    lemma_matched_unit_declares(ScanState::Start, units, query);
}

/// A failure of the decoder before the scan is over makes the payload no
/// module, whatever lies behind the failure.
pub proof fn lemma_failure_ends_scan(
    before: Seq<UnitModel>,
    behind: Seq<UnitModel>,
    query: ImportPair,
)
    requires
        !after_units(ScanState::Start, before, query).is_final(),
    ensures
        scan_verdict(before + seq![UnitModel::Failed] + behind, query) == ScanVerdict::NotAModule,
{
    let failed = seq![UnitModel::Failed];
    let state = after_units(ScanState::Start, before, query);
    lemma_units_in_two_runs(ScanState::Start, before + failed, behind, query);
    lemma_units_in_two_runs(ScanState::Start, before, failed, query);
    lemma_single_unit(state, UnitModel::Failed, query);
    lemma_final_through_units(ScanState::Malformed, behind, query);
}

/// Once the units decoded so far end the scan, what lies behind them has no
/// say: the verdict is the same whatever follows.
pub proof fn lemma_rest_has_no_say(
    decided: Seq<UnitModel>,
    behind: Seq<UnitModel>,
    query: ImportPair,
)
    requires
        after_units(ScanState::Start, decided, query).is_final(),
    ensures
        scan_verdict(decided + behind, query) == scan_verdict(decided, query),
{
    lemma_units_in_two_runs(ScanState::Start, decided, behind, query);
    lemma_final_through_units(after_units(ScanState::Start, decided, query), behind, query);
}

/// A module whose first import entry is the query is `Found`, whatever the
/// entries and the units behind that entry are, failures among them or not.
pub proof fn lemma_first_entry_decides(
    entries: Seq<EntryModel>,
    behind: Seq<UnitModel>,
    query: ImportPair,
)
    requires
        entries.len() > 0,
        entries[0] == EntryModel::Import(query),
    ensures
        scan_verdict(
            seq![UnitModel::Header(Encoding::Module), UnitModel::Imports(entries)] + behind,
            query,
        ) == ScanVerdict::Found,
{
    let decided = seq![UnitModel::Header(Encoding::Module), UnitModel::Imports(entries)];
    lemma_final_through_entries(ScanState::Matched, entries.drop_first(), query);
    assert(after_entries(ScanState::Scanning, entries, query) == ScanState::Matched);
    assert(decided.drop_first() =~= seq![UnitModel::Imports(entries)]);
    assert(decided.drop_first().drop_first() =~= Seq::<UnitModel>::empty());
    assert(after_units(ScanState::Start, decided, query) == ScanState::Matched) by {
        reveal_with_fuel(after_units, 3);
    }
    lemma_rest_has_no_say(decided, behind, query);
}

/// An entry matches the query only if both names are the same, character for
/// character: a walk under way ends as `Matched` exactly then.
pub proof fn lemma_match_is_exact(import: ImportPair, query: ImportPair)
    ensures
        ScanState::Scanning.after_import(import, query) == ScanState::Matched <==> (import.module
            =~= query.module && import.name =~= query.name),
        ScanState::Scanning.after_import(import, query) == ScanState::Scanning <==> !(
        import.module =~= query.module && import.name =~= query.name),
{
}

/// Walks the entries of one import section from the state `from`, one at a
/// time, and stops at the first that ends the scan.
fn scan_imports(from: ScanState, stream: &mut ImportStream, query: &ImportQuery) -> (next:
    ScanState)
    ensures
        next == after_entries(from, pending_imports(*old(stream)), query@),
{
    let mut state = from;
    while !state.finished()
        invariant
            after_entries(state, pending_imports(*stream), query@) == after_entries(
                from,
                pending_imports(*old(stream)),
                query@,
            ),
        decreases pending_imports(*stream).len(),
    {
        match next_import(stream) {
            None => {
                return state;
            },
            Some(Err(_)) => {
                state = state.on_failure();
            },
            Some(Ok(import)) => {
                state = state.on_import(&import, query);
            },
        }
    }
    proof {
        lemma_final_through_entries(state, pending_imports(*stream), query@);
    }
    state
}

/// Scans the payload `wasm` for an import of `name` from `module`.
///
/// The payload is decoded unit by unit: the header must come first and
/// announce a module, the entries of import sections are compared with the
/// query one at a time, other sections are passed over. The scan stops at the
/// first match (`Found`), at the end marker (`NotFound`), or at the first thing
/// that is not a module or does not decode (`NotAModule`); what lies behind
/// that point is never decoded. Bytes that do not begin with the magic bytes
/// of the format are `NotAModule`.
pub fn wasm_contains_import(wasm: &[u8], module: &str, name: &str) -> (verdict: ScanVerdict)
    ensures
        verdict == scan_verdict(decoded_units(wasm@), pair_of(module, name)),
        !starts_with(wasm@, binary_magic()) ==> verdict == ScanVerdict::NotAModule,
{
    let query = ImportQuery { module, name };
    let mut stream = open_units(wasm);
    let mut state = ScanState::Start;
    proof {
        if !starts_with(wasm@, binary_magic()) {
            lemma_header_must_come_first(decoded_units(wasm@), query@);
        }
    }
    while !state.finished()
        invariant
            query@ == pair_of(module, name),
            after_units(state, pending_units(stream), query@) == after_units(
                ScanState::Start,
                decoded_units(wasm@),
                query@,
            ),
        decreases pending_units(stream).len(),
    {
        match next_unit(&mut stream) {
            None => {
                return state.to_verdict();
            },
            Some(Err(_)) => {
                state = state.on_failure();
            },
            Some(Ok(unit)) => {
                match unit {
                    Unit::Header(encoding) => {
                        state = state.on_header(encoding);
                    },
                    Unit::Imports(imports) => {
                        let mut imports = imports;
                        state = scan_imports(state.on_section(), &mut imports, &query);
                    },
                    Unit::End => {
                        state = state.on_end();
                    },
                    Unit::Other => {
                        state = state.on_section();
                    },
                }
            },
        }
    }
    proof {
        lemma_final_through_units(state, pending_units(stream), query@);
    }
    state.to_verdict()
}

} // verus!
