//! The scan of one archive for a member that declares an import.
//!
//! The archive is read by the `ar` crate, which this library does not verify:
//! the contracts of `open_archive` and `next_member` are believed, not proved.

use vstd::prelude::*;
use crate::bytes::starts_with;
use crate::decode::decoded_units;
use crate::import::{pair_of, ImportPair};
use crate::layout::{first_walk, magic, reaches, seek, seek_member, start_walk, WalkModel};
use crate::scanner::{scan_verdict, wasm_contains_import};
use crate::verdict::ScanVerdict;

verus! {

/// Why an archive could not be read to the point that decides the scan.
#[derive(Clone, Copy, Debug, PartialEq, Eq, Structural)]
pub enum MalformedArchive {
    /// The walk over the headers refused the header of the next member, or of
    /// a table before it, so the member was not read.
    Layout,
    /// The reader failed: the magic bytes are missing or wrong, or a member
    /// header is cut short or holds a field that cannot be read.
    Header,
    /// A member declares more payload than the archive holds.
    Payload,
}

/// One member of an archive, as the reader hands it out.
#[derive(Debug)]
pub struct ArchiveMember {
    /// The name of the member.
    pub name: Vec<u8>,
    /// The length of the payload that the header declares.
    pub size: u64,
    /// The payload that was read: `size` bytes, or fewer if the archive ends
    /// before.
    pub data: Vec<u8>,
}

/// What reading one member gave, in mathematical form.
pub enum MemberModel {
    /// The member was read.
    Member { name: Seq<u8>, size: int, data: Seq<u8> },
    /// The reader failed.
    Failed,
}

impl View for ArchiveMember {
    type V = MemberModel;

    open spec fn view(&self) -> MemberModel {
        MemberModel::Member { name: self.name@, size: self.size as int, data: self.data@ }
    }
}

impl ArchiveMember {
    /// The payload of the member, if all of it is there.
    pub fn payload(&self) -> (payload: Result<&[u8], MalformedArchive>)
        ensures
            payload is Ok == (self.data@.len() == self.size),
            payload matches Ok(bytes) ==> bytes@ == self.data@,
            payload matches Err(error) ==> error == MalformedArchive::Payload,
    {
        if self.data.len() as u64 == self.size {
            Ok(self.data.as_slice())
        } else {
            Err(MalformedArchive::Payload)
        }
    }
}

/// The error type of the reader, `std::io::Error`, carried through and never
/// looked into.
#[verifier::external_type_specification]
#[verifier::external_body]
pub struct ExReadError(std::io::Error);

/// An `ar::Archive` over a byte slice. The type is bounded by `std::io::Read`,
/// which keeps it from being declared as it is, so it is kept in this struct,
/// which hides it from the verifier.
#[verifier::external_body]
pub struct MemberStream<'a> {
    inner: ar::Archive<&'a [u8]>,
}

/// What the members still to come from a member stream are read as, in
/// order: the outcomes of the calls of `next_entry` that have not been made
/// yet. The reader reads a byte slice front to back, so what it will yield is
/// fixed when it is made, and it ends.
pub uninterp spec fn pending_members(stream: MemberStream<'_>) -> Seq<MemberModel>;

/// The bytes that a member stream was opened on.
pub uninterp spec fn source_bytes(stream: MemberStream<'_>) -> Seq<u8>;

/// What `ar` reads the archive `bytes` as: the sequence of outcomes that
/// `next_entry` gives on an `Archive` over these bytes, each member with its
/// payload read to the end.
pub uninterp spec fn archive_members(bytes: Seq<u8>) -> Seq<MemberModel>;

/// How many outcomes a member stream has handed out.
pub open spec fn handed_out(stream: MemberStream<'_>) -> int {
    archive_members(source_bytes(stream)).len() - pending_members(stream).len()
}

/// Opens a reader on `bytes` with `ar::Archive::new`.
///
/// Nothing is read yet. The stream will yield what `archive_members` names for
/// these bytes. On bytes that do not begin with the magic bytes that is a
/// single failure: the reader reads the magic first, returns an error if it is
/// not there, and yields nothing after an error.
#[verifier::external_body]
pub(crate) fn open_archive<'a>(bytes: &'a [u8]) -> (stream: MemberStream<'a>)
    ensures
        source_bytes(stream) == bytes@,
        pending_members(stream) == archive_members(bytes@),
        !starts_with(bytes@, magic()) ==> pending_members(stream) == seq![MemberModel::Failed],
{
    MemberStream { inner: ar::Archive::new(bytes) }
}

/// Reads the next member with `ar::Archive::next_entry`, and its payload with
/// `read_to_end`.
///
/// `next_entry` reads the headers up to that of the next member. It looks a
/// long name up in the name table without checking the reference, and panics
/// on one beyond the table; it allocates a name table or a long name of the
/// declared length before it reads it. The `requires` keeps both away: the
/// walk of `layout` has reached the member that this call reads, so that in
/// every header up to it the reference lies in its table and such a length
/// within the bytes.
///
/// The result is `None` when nothing is pending. Otherwise the first pending
/// outcome leaves the stream: an error of the reader stands for `Failed`, and
/// of a member the name, the declared size and the payload are handed out.
#[verifier::external_body]
pub(crate) fn next_member<'a>(stream: &mut MemberStream<'a>) -> (next: Option<
    Result<ArchiveMember, std::io::Error>,
>)
    requires
        handed_out(*old(stream)) >= 0,
        reaches(
            source_bytes(*old(stream)),
            first_walk(source_bytes(*old(stream))),
            handed_out(*old(stream)) as nat,
        ),
    ensures
        source_bytes(*final(stream)) == source_bytes(*old(stream)),
        next is None ==> pending_members(*old(stream)).len() == 0,
        next is None ==> pending_members(*final(stream)) == pending_members(*old(stream)),
        next is Some ==> pending_members(*old(stream)).len() > 0,
        next is Some ==> pending_members(*final(stream)) == pending_members(
            *old(stream),
        ).drop_first(),
        next matches Some(Err(_)) ==> pending_members(*old(stream))[0] == MemberModel::Failed,
        next matches Some(Ok(member)) ==> pending_members(*old(stream))[0] == member@,
{
    let mut entry = match stream.inner.next_entry()? {
        Ok(entry) => entry,
        Err(error) => return Some(Err(error)),
    };
    let mut data = Vec::new();
    match std::io::Read::read_to_end(&mut entry, &mut data) {
        Ok(_) => Some(Ok(ArchiveMember { name: entry.header().identifier().to_vec(), size: entry.header().size(), data })),
        Err(error) => Some(Err(error)),
    }
}

/// Whether the members `members` of the archive `bytes`, taken in order, show
/// the import `query`, when the walk over the headers stands at `walk`.
///
/// The walk goes one member ahead of the reader. The first thing that decides
/// ends the scan: a header that the walk refuses gives the error `Layout`, a
/// failure of the reader or a member cut short gives its error, a member whose
/// payload decodes to a module with the import gives `Ok(true)`. What lies
/// behind it has no say. A member that is no module, or a module without the
/// import, is passed over.
pub open spec fn outcome_from(
    bytes: Seq<u8>,
    walk: WalkModel,
    members: Seq<MemberModel>,
    query: ImportPair,
) -> Result<bool, MalformedArchive>
    decreases members.len(),
{
    match seek(bytes, walk) {
        None => Err(MalformedArchive::Layout),
        Some(behind) => if members.len() == 0 {
            Ok(false)
        } else {
            match members[0] {
                MemberModel::Failed => Err(MalformedArchive::Header),
                MemberModel::Member { name, size, data } => if data.len() != size {
                    Err(MalformedArchive::Payload)
                } else if scan_verdict(decoded_units(data), query) == ScanVerdict::Found {
                    Ok(true)
                } else {
                    outcome_from(bytes, behind, members.drop_first(), query)
                },
            }
        },
    }
}

/// Whether the archive `bytes` shows the import `query`.
pub open spec fn archive_outcome(bytes: Seq<u8>, query: ImportPair) -> Result<
    bool,
    MalformedArchive,
> {
    outcome_from(bytes, first_walk(bytes), archive_members(bytes), query)
}

/// Whether a scan passes over `member`: it was read whole, and its payload is
/// no module with the import `query`.
pub open spec fn passes_over(member: MemberModel, query: ImportPair) -> bool {
    member matches MemberModel::Member { name, size, data } && data.len() == size && scan_verdict(
        decoded_units(data),
        query,
    ) != ScanVerdict::Found
}

/// Whether `member` shows the import `query`: it was read whole, and its
/// payload is a module with the import.
pub open spec fn shows(member: MemberModel, query: ImportPair) -> bool {
    member matches MemberModel::Member { name, size, data } && data.len() == size && scan_verdict(
        decoded_units(data),
        query,
    ) == ScanVerdict::Found
}

/// If the member at `at` shows the import, the scan passes over those before
/// it and the walk reaches it, the outcome is `Ok(true)`, however many
/// members there are and whatever lies behind that member.
pub proof fn lemma_match_decides(
    bytes: Seq<u8>,
    walk: WalkModel,
    members: Seq<MemberModel>,
    at: nat,
    query: ImportPair,
)
    requires
        at < members.len(),
        reaches(bytes, walk, at),
        forall|i: int| 0 <= i < at ==> passes_over(#[trigger] members[i], query),
        shows(members[at as int], query),
    ensures
        outcome_from(bytes, walk, members, query) == Ok::<bool, MalformedArchive>(true),
    decreases at,
{
    if at > 0 {
        let rest = members.drop_first();
        assert(passes_over(members[0], query));
        assert forall|i: int| 0 <= i < at - 1 implies passes_over(#[trigger] rest[i], query) by {
            assert(rest[i] == members[i + 1]);
        }
        assert(rest[at - 1] == members[at as int]);
        lemma_match_decides(bytes, seek(bytes, walk)->0, rest, (at - 1) as nat, query);
    }
}

/// If the scan passes over every member and the walk reaches the end behind
/// them, the outcome is `Ok(false)`.
pub proof fn lemma_no_match_decides(
    bytes: Seq<u8>,
    walk: WalkModel,
    members: Seq<MemberModel>,
    query: ImportPair,
)
    requires
        reaches(bytes, walk, members.len()),
        forall|i: int| 0 <= i < members.len() ==> passes_over(#[trigger] members[i], query),
    ensures
        outcome_from(bytes, walk, members, query) == Ok::<bool, MalformedArchive>(false),
    decreases members.len(),
{
    if members.len() > 0 {
        let rest = members.drop_first();
        assert(passes_over(members[0], query));
        assert forall|i: int| 0 <= i < rest.len() implies passes_over(#[trigger] rest[i], query) by {
            assert(rest[i] == members[i + 1]);
        }
        lemma_no_match_decides(bytes, seek(bytes, walk)->0, rest, query);
    }
}

/// The outcome is `Ok(true)` only if a member shows the import, the scan
/// passes over those before it and the walk reaches it.
pub proof fn lemma_shown_has_a_match(
    bytes: Seq<u8>,
    walk: WalkModel,
    members: Seq<MemberModel>,
    query: ImportPair,
) -> (at: nat)
    requires
        outcome_from(bytes, walk, members, query) == Ok::<bool, MalformedArchive>(true),
    ensures
        at < members.len(),
        reaches(bytes, walk, at),
        forall|i: int| 0 <= i < at ==> passes_over(#[trigger] members[i], query),
        shows(members[at as int], query),
    decreases members.len(),
{
    if shows(members[0], query) {
        0
    } else {
        let rest = members.drop_first();
        let behind = lemma_shown_has_a_match(bytes, seek(bytes, walk)->0, rest, query);
        assert forall|i: int| 0 <= i < behind + 1 implies passes_over(
            #[trigger] members[i],
            query,
        ) by {
            if i > 0 {
                assert(members[i] == rest[i - 1]);
            }
        }
        assert(members[behind as int + 1] == rest[behind as int]);
        behind + 1
    }
}

/// The outcome is fixed once it is `Ok(true)` or an error: members added
/// behind those that were read do not change it.
pub proof fn lemma_rest_of_archive_has_no_say(
    bytes: Seq<u8>,
    walk: WalkModel,
    read: Seq<MemberModel>,
    behind: Seq<MemberModel>,
    query: ImportPair,
)
    requires
        outcome_from(bytes, walk, read, query) != Ok::<bool, MalformedArchive>(false),
    ensures
        outcome_from(bytes, walk, read + behind, query) == outcome_from(bytes, walk, read, query),
    decreases read.len(),
{
    if seek(bytes, walk) is Some && read.len() > 0 {
        assert((read + behind)[0] == read[0]);
        assert((read + behind).drop_first() =~= read.drop_first() + behind);
        if passes_over(read[0], query) {
            lemma_rest_of_archive_has_no_say(
                bytes,
                seek(bytes, walk)->0,
                read.drop_first(),
                behind,
                query,
            );
        }
    }
}

/// Scans the archive `archive` for a member that is a module and imports
/// `name` from `module`.
///
/// The members are read one after the other and each payload is scanned; the
/// first match ends the scan with `Ok(true)`, and members that are no modules
/// do not stand in the way. Before a member is read, its header and those of
/// the tables before it are walked, and a header that the walk refuses ends
/// the scan with the error `Layout`. A failure of the reader ends it with
/// `Header`, as bytes without the magic at their start do, and a member with
/// less payload than its header declares ends it with `Payload`. `Ok(false)`
/// means that every member was read and none matched.
pub fn rlib_contains_import(archive: &[u8], module: &str, name: &str) -> (found: Result<
    bool,
    MalformedArchive,
>)
    ensures
        found == archive_outcome(archive@, pair_of(module, name)),
        !starts_with(archive@, magic()) ==> found == Err::<bool, MalformedArchive>(
            MalformedArchive::Header,
        ),
{
    let mut walk = start_walk(archive);
    let mut stream = open_archive(archive);
    let ghost mut taken: nat = 0;
    loop
        invariant
            !starts_with(archive@, magic()) ==> archive_outcome(archive@, pair_of(module, name))
                == Err::<bool, MalformedArchive>(MalformedArchive::Header),
            source_bytes(stream) == archive@,
            handed_out(stream) == taken,
            forall|count: nat| #[trigger]
                reaches(archive@, first_walk(archive@), taken + count) == reaches(
                    archive@,
                    walk@,
                    count,
                ),
            outcome_from(archive@, walk@, pending_members(stream), pair_of(module, name))
                == archive_outcome(archive@, pair_of(module, name)),
        decreases pending_members(stream).len(),
    {
        let behind = match seek_member(archive, walk) {
            None => {
                return Err(MalformedArchive::Layout);
            },
            Some(behind) => behind,
        };
        proof {
            assert(reaches(archive@, first_walk(archive@), taken + 0));
            assert forall|count: nat| #[trigger]
                reaches(archive@, first_walk(archive@), taken + 1 + count) == reaches(
                    archive@,
                    behind@,
                    count,
                ) by {
                assert(reaches(archive@, first_walk(archive@), taken + (count + 1)) == reaches(
                    archive@,
                    walk@,
                    count + 1,
                ));
            }
        }
        match next_member(&mut stream) {
            None => {
                return Ok(false);
            },
            Some(Err(_)) => {
                return Err(MalformedArchive::Header);
            },
            Some(Ok(member)) => {
                match member.payload() {
                    Err(error) => {
                        return Err(error);
                    },
                    Ok(payload) => {
                        if wasm_contains_import(payload, module, name).demonstrates() {
                            return Ok(true);
                        }
                    },
                }
            },
        }
        walk = behind;
        proof {
            taken = taken + 1;
        }
    }
}

} // verus!
