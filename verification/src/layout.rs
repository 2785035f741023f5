//! A walk over the headers of an archive, one step ahead of the archive
//! reader.
//!
//! The reader looks long file names up in a name table and reads tables of a
//! declared length in one piece. It checks neither the reference against the
//! table nor the length against the bytes that are there. This walk follows
//! the headers as the reader does, tells where the next member lies, and
//! refuses a header at which either would go wrong, or behind which it cannot
//! follow the layout: one with a number field that is not plain, or a symbol
//! table under a short name behind a member with a long one.
//!
//! The walk reads the member name, the size field, and, where the name refers
//! to a table or carries a length, that number. It does not read the other
//! header fields, so it goes on where the reader stops over one of them.

use vstd::prelude::*;
use vstd::slice::slice_subrange;
use crate::bytes::{has_prefix, starts_with};
use crate::number::{plain_number, read_number};

verus! {

/// The length of the magic bytes at the start of an archive.
pub const MAGIC_LEN: usize = 8;

/// The length of a member header.
pub const HEADER_LEN: usize = 60;

/// The length of the name field at the start of a header.
pub const NAME_LEN: usize = 16;

/// The magic bytes: `!<arch>` and a line feed.
pub open spec fn magic() -> Seq<u8> {
    seq![0x21u8, 0x3c, 0x61, 0x72, 0x63, 0x68, 0x3e, 0x0a]
}

/// The name of the symbol table of the GNU family: `/`.
pub open spec fn gnu_symbols() -> Seq<u8> {
    seq![0x2fu8]
}

/// The name of the name table of the GNU family: `//`.
pub open spec fn gnu_names() -> Seq<u8> {
    seq![0x2fu8, 0x2f]
}

/// The mark of a long name of the BSD family: `#1/`.
pub open spec fn bsd_long_name() -> Seq<u8> {
    seq![0x23u8, 0x31, 0x2f]
}

/// A name of the symbol table of the BSD family: `__.SYMDEF`.
pub open spec fn bsd_symbols() -> Seq<u8> {
    seq![0x5fu8, 0x5f, 0x2e, 0x53, 0x59, 0x4d, 0x44, 0x45, 0x46]
}

/// The other name of the symbol table of the BSD family: `__.SYMDEF SORTED`.
pub open spec fn bsd_sorted_symbols() -> Seq<u8> {
    seq![
        0x5fu8,
        0x5f,
        0x2e,
        0x53,
        0x59,
        0x4d,
        0x44,
        0x45,
        0x46,
        0x20,
        0x53,
        0x4f,
        0x52,
        0x54,
        0x45,
        0x44,
    ]
}

/// The family of archive layouts that the headers read so far show.
#[derive(Clone, Copy, Debug, PartialEq, Eq, Structural)]
pub enum Family {
    /// Short names only, so far.
    Common,
    /// Long names follow their header.
    Bsd,
    /// Long names stand in a name table.
    Gnu,
}

/// Where the walk stands, in mathematical form.
pub struct CursorModel {
    /// The offset of the next byte to read.
    pub pos: int,
    /// The family that the headers read so far show.
    pub family: Family,
    /// The length of the name table read last, 0 if none was.
    pub table_len: int,
    /// Whether a padding byte comes before the next header.
    pub padded: bool,
}

/// Where the walk stands.
#[derive(Clone, Copy, Debug)]
pub struct Cursor {
    /// The offset of the next byte to read.
    pub pos: usize,
    /// The family that the headers read so far show.
    pub family: Family,
    /// The length of the name table read last, 0 if none was.
    pub table_len: u64,
    /// Whether a padding byte comes before the next header.
    pub padded: bool,
}

impl View for Cursor {
    type V = CursorModel;

    open spec fn view(&self) -> CursorModel {
        CursorModel {
            pos: self.pos as int,
            family: self.family,
            table_len: self.table_len as int,
            padded: self.padded,
        }
    }
}

/// What one step of the walk finds, in mathematical form.
pub enum StepModel {
    /// The reader ends here, or fails here by itself.
    Stop,
    /// The header is refused.
    Refuse,
    /// A table, which the reader passes over on its way to the next member.
    /// The walk goes on behind it, from this cursor.
    Table(CursorModel),
    /// A member, which the reader hands out. The walk goes on behind it, from
    /// this cursor.
    Member(CursorModel),
}

/// What one step of the walk finds.
#[derive(Clone, Copy, Debug)]
pub enum Step {
    /// The reader ends here, or fails here by itself.
    Stop,
    /// The header is refused.
    Refuse,
    /// A table, which the reader passes over on its way to the next member.
    /// The walk goes on behind it, from this cursor.
    Table(Cursor),
    /// A member, which the reader hands out. The walk goes on behind it, from
    /// this cursor.
    Member(Cursor),
}

impl View for Step {
    type V = StepModel;

    open spec fn view(&self) -> StepModel {
        match self {
            Step::Stop => StepModel::Stop,
            Step::Refuse => StepModel::Refuse,
            Step::Table(cursor) => StepModel::Table(cursor@),
            Step::Member(cursor) => StepModel::Member(cursor@),
        }
    }
}

/// Where the walk stands between two members, in mathematical form.
pub enum WalkModel {
    /// The walk goes on from this cursor.
    At(CursorModel),
    /// The walk is over: the reader ends, or fails by itself, before it
    /// reaches another header.
    Done,
}

/// Where the walk stands between two members.
#[derive(Clone, Copy, Debug)]
pub enum Walk {
    /// The walk goes on from this cursor.
    At(Cursor),
    /// The walk is over: the reader ends, or fails by itself, before it
    /// reaches another header.
    Done,
}

impl View for Walk {
    type V = WalkModel;

    open spec fn view(&self) -> WalkModel {
        match self {
            Walk::At(cursor) => WalkModel::At(cursor@),
            Walk::Done => WalkModel::Done,
        }
    }
}

/// Whether the name field of `header` holds `name` and then spaces only.
pub open spec fn name_is(header: Seq<u8>, name: Seq<u8>) -> bool {
    &&& name.len() <= NAME_LEN
    &&& starts_with(header, name)
    &&& forall|i: int| name.len() <= i < NAME_LEN ==> #[trigger] header[i] == 0x20
}

/// Whether the name field of `header`, without the spaces at its end, ends
/// with a slash.
pub open spec fn name_ends_with_slash(header: Seq<u8>) -> bool {
    exists|at: int|
        0 <= at < NAME_LEN && #[trigger] header[at] == 0x2f && forall|i: int|
            at < i < NAME_LEN ==> #[trigger] header[i] == 0x20
}

/// The cursor behind a member of `size` bytes whose payload begins at `body`,
/// where `rest` bytes are left from there on: the reader passes over the
/// payload, or over what is left of it.
pub open spec fn behind_payload(
    body: int,
    rest: int,
    size: int,
    family: Family,
    table_len: int,
) -> CursorModel {
    CursorModel {
        pos: body + if size <= rest {
            size
        } else {
            rest
        },
        family,
        table_len,
        padded: size % 2 == 1,
    }
}

/// Whether the long name of `name_len` bytes that begins at `body` is `name`,
/// without the zero bytes at its end.
pub open spec fn long_name_is(bytes: Seq<u8>, body: int, name_len: int, name: Seq<u8>) -> bool {
    &&& name.len() <= name_len
    &&& bytes.subrange(body, body + name.len()) == name
    &&& forall|i: int| body + name.len() <= i < body + name_len ==> #[trigger] bytes[i] == 0x00
}

/// What the walk finds at a header of `size` bytes whose name begins with a
/// slash, in an archive that is not of the BSD family: a symbol table, a name
/// table, or a member whose name is a reference into the name table.
pub open spec fn slash_step(
    header: Seq<u8>,
    body: int,
    rest: int,
    size: int,
    cur: CursorModel,
) -> StepModel {
    if name_is(header, gnu_symbols()) {
        StepModel::Table(behind_payload(body, rest, size, Family::Gnu, cur.table_len))
    } else if name_is(header, gnu_names()) {
        if size > rest {
            StepModel::Refuse
        } else {
            StepModel::Table(behind_payload(body, rest, size, Family::Gnu, size))
        }
    } else {
        match plain_number(header.subrange(1, 16)) {
            None => StepModel::Refuse,
            Some(index) => if index > cur.table_len {
                StepModel::Refuse
            } else {
                StepModel::Member(behind_payload(body, rest, size, Family::Gnu, cur.table_len))
            },
        }
    }
}

/// What the walk finds at a header of `size` bytes whose name is the mark of
/// a long name, in an archive that is not of the GNU family: the long name
/// stands at `body`, before the payload, and counts as part of it. A long
/// name that is one of the two names of the symbol table makes a table.
pub open spec fn long_name_step(
    bytes: Seq<u8>,
    body: int,
    size: int,
    cur: CursorModel,
) -> StepModel {
    let header = bytes.subrange(body - HEADER_LEN, body);
    let rest = bytes.len() - body;
    match plain_number(header.subrange(3, 16)) {
        None => StepModel::Refuse,
        Some(name_len) => if size < name_len {
            StepModel::Stop
        } else if name_len > rest {
            StepModel::Refuse
        } else {
            let next = behind_payload(
                body + name_len,
                rest - name_len,
                size - name_len,
                Family::Bsd,
                cur.table_len,
            );
            if long_name_is(bytes, body, name_len, bsd_symbols()) || long_name_is(
                bytes,
                body,
                name_len,
                bsd_sorted_symbols(),
            ) {
                StepModel::Table(next)
            } else {
                StepModel::Member(next)
            }
        },
    }
}

/// The family that the header `header` shows, when the headers before it
/// showed `family`: a slash at the end of the name shows the GNU family,
/// unless the archive is of the BSD family already.
pub open spec fn family_with(header: Seq<u8>, family: Family) -> Family {
    if family != Family::Bsd && name_ends_with_slash(header) {
        Family::Gnu
    } else {
        family
    }
}

/// What the walk finds at the header that ends at `body`, where the payload
/// begins.
pub open spec fn header_step(bytes: Seq<u8>, body: int, cur: CursorModel) -> StepModel {
    let header = bytes.subrange(body - HEADER_LEN, body);
    let rest = bytes.len() - body;
    match plain_number(header.subrange(48, 58)) {
        None => StepModel::Refuse,
        Some(size) => if cur.family != Family::Bsd && header[0] == 0x2f {
            slash_step(header, body, rest, size, cur)
        } else {
            let family = family_with(header, cur.family);
            if family != Family::Gnu && starts_with(header, bsd_long_name()) {
                long_name_step(bytes, body, size, cur)
            } else if family == Family::Bsd && (name_is(header, bsd_symbols()) || name_is(
                header,
                bsd_sorted_symbols(),
            )) {
                StepModel::Refuse
            } else {
                StepModel::Member(behind_payload(body, rest, size, family, cur.table_len))
            }
        },
    }
}

/// What one step of the walk finds from `cur`. The reader stops by itself at
/// a padding byte that is no line feed, at the end of the bytes, and where
/// fewer bytes than a header are left.
pub open spec fn step(bytes: Seq<u8>, cur: CursorModel) -> StepModel {
    if cur.padded && cur.pos < bytes.len() && bytes[cur.pos] != 0x0a {
        StepModel::Stop
    } else {
        let pos = if cur.padded && cur.pos < bytes.len() {
            cur.pos + 1
        } else {
            cur.pos
        };
        if bytes.len() - pos < HEADER_LEN {
            StepModel::Stop
        } else {
            header_step(bytes, pos + HEADER_LEN, cur)
        }
    }
}

/// What the walk finds from `cur` on, behind the tables that come first: a
/// member, a header that is refused, or the place where the reader stops.
pub open spec fn member_step(bytes: Seq<u8>, cur: CursorModel) -> StepModel
    decreases bytes.len() - cur.pos,
{
    match step(bytes, cur) {
        StepModel::Table(next) => if cur.pos < next.pos <= bytes.len() {
            member_step(bytes, next)
        } else {
            StepModel::Stop
        },
        found => found,
    }
}

/// The cursor behind the magic bytes.
pub open spec fn first_cursor() -> CursorModel {
    CursorModel { pos: MAGIC_LEN as int, family: Family::Common, table_len: 0, padded: false }
}

/// The walk before the first member of `bytes`. Without the magic bytes
/// there is nothing to walk: the reader fails by itself on the first read.
pub open spec fn first_walk(bytes: Seq<u8>) -> WalkModel {
    if starts_with(bytes, magic()) {
        WalkModel::At(first_cursor())
    } else {
        WalkModel::Done
    }
}

/// Where the walk stands behind the next member, `Done` if the reader stops
/// before it comes to another member; `None` if the walk refuses a header on
/// the way.
pub open spec fn seek(bytes: Seq<u8>, walk: WalkModel) -> Option<WalkModel> {
    match walk {
        WalkModel::Done => Some(WalkModel::Done),
        WalkModel::At(cur) => match member_step(bytes, cur) {
            StepModel::Refuse => None,
            StepModel::Member(next) => Some(WalkModel::At(next)),
            _ => Some(WalkModel::Done),
        },
    }
}

/// Whether the walk from `walk` on passes `count` members and reaches the one
/// behind them, or the place where the reader stops, without a refusal.
pub open spec fn reaches(bytes: Seq<u8>, walk: WalkModel, count: nat) -> bool
    decreases count,
{
    match seek(bytes, walk) {
        None => false,
        Some(next) => count == 0 || reaches(bytes, next, (count - 1) as nat),
    }
}

/// Whether the name field of `header` holds spaces only from `from` on.
fn blank_from(header: &[u8], from: usize) -> (blank: bool)
    requires
        header@.len() >= NAME_LEN,
        from <= NAME_LEN,
    ensures
        blank == forall|i: int| from <= i < NAME_LEN ==> #[trigger] header@[i] == 0x20,
{
    let mut i: usize = from;
    while i < NAME_LEN
        invariant
            header@.len() >= NAME_LEN,
            from <= i <= NAME_LEN,
            forall|k: int| from <= k < i ==> #[trigger] header@[k] == 0x20,
        decreases NAME_LEN - i,
    {
        if header[i] != 0x20 {
            return false;
        }
        i += 1;
    }
    true
}

/// Whether the name field of `header` holds `name` and then spaces only.
fn holds_name<const N: usize>(header: &[u8], name: &[u8; N]) -> (held: bool)
    requires
        header@.len() >= NAME_LEN,
    ensures
        held == name_is(header@, name@),
{
    N <= NAME_LEN && has_prefix(header, name) && blank_from(header, N)
}

/// Whether the name field of `header`, without the spaces at its end, ends
/// with a slash.
fn ends_with_slash(header: &[u8]) -> (found: bool)
    requires
        header@.len() >= NAME_LEN,
    ensures
        found == name_ends_with_slash(header@),
{
    let mut i: usize = NAME_LEN;
    while i > 0
        invariant
            header@.len() >= NAME_LEN,
            i <= NAME_LEN,
            forall|k: int| i <= k < NAME_LEN ==> #[trigger] header@[k] == 0x20,
        decreases i,
    {
        i -= 1;
        if header[i] != 0x20 {
            let found = header[i] == 0x2f;
            proof {
                if !found {
                    assert forall|at: int|
                        !(0 <= at < NAME_LEN && #[trigger] header@[at] == 0x2f && forall|k: int|
                            at < k < NAME_LEN ==> #[trigger] header@[k] == 0x20) by {
                        if 0 <= at < i && header@[at] == 0x2f {
                            assert(header@[i as int] != 0x20);
                        }
                    }
                }
            }
            return found;
        }
    }
    false
}

/// The cursor behind a member of `size` bytes whose payload begins at `body`.
fn pass_payload(bytes: &[u8], body: usize, size: u64, family: Family, table_len: u64) -> (next:
    Cursor)
    requires
        body <= bytes@.len(),
    ensures
        next@ == behind_payload(
            body as int,
            bytes@.len() - body,
            size as int,
            family,
            table_len as int,
        ),
        body <= next.pos <= bytes@.len(),
{
    let rest: usize = bytes.len() - body;
    let pos: usize = if size <= rest as u64 {
        body + size as usize
    } else {
        bytes.len()
    };
    Cursor { pos, family, table_len, padded: size % 2 == 1 }
}

/// Whether the long name of `name_len` bytes that begins at `body` is `name`,
/// without the zero bytes at its end.
fn holds_long_name<const N: usize>(
    bytes: &[u8],
    body: usize,
    name_len: usize,
    name: &[u8; N],
) -> (held: bool)
    requires
        body + name_len <= bytes@.len(),
    ensures
        held == long_name_is(bytes@, body as int, name_len as int, name@),
{
    if N > name_len {
        return false;
    }
    let total: usize = bytes.len();
    let field = slice_subrange(bytes, body, body + name_len);
    assert(field@.subrange(0, N as int) =~= bytes@.subrange(body as int, body + N));
    if !has_prefix(field, name) {
        return false;
    }
    let mut i: usize = N;
    while i < name_len
        invariant
            N <= i <= name_len,
            body + name_len <= bytes@.len() == total,
            forall|k: int| body + N <= k < body + i ==> #[trigger] bytes@[k] == 0x00,
        decreases name_len - i,
    {
        if bytes[body + i] != 0x00 {
            return false;
        }
        i += 1;
    }
    true
}

/// The name `__.SYMDEF`.
fn symbols_name() -> (name: [u8; 9])
    ensures
        name@ == bsd_symbols(),
{
    let name: [u8; 9] = [0x5f, 0x5f, 0x2e, 0x53, 0x59, 0x4d, 0x44, 0x45, 0x46];
    assert(name@ =~= bsd_symbols());
    name
}

/// The name `__.SYMDEF SORTED`.
fn sorted_symbols_name() -> (name: [u8; 16])
    ensures
        name@ == bsd_sorted_symbols(),
{
    let name: [u8; 16] = [
        0x5f,
        0x5f,
        0x2e,
        0x53,
        0x59,
        0x4d,
        0x44,
        0x45,
        0x46,
        0x20,
        0x53,
        0x4f,
        0x52,
        0x54,
        0x45,
        0x44,
    ];
    assert(name@ =~= bsd_sorted_symbols());
    name
}

/// What the walk finds at a header whose name begins with a slash.
fn read_slash_header(bytes: &[u8], body: usize, size: u64, cur: &Cursor) -> (found: Step)
    requires
        HEADER_LEN <= body <= bytes@.len(),
    ensures
        found@ == slash_step(
            bytes@.subrange(body - HEADER_LEN, body as int),
            body as int,
            bytes@.len() - body,
            size as int,
            cur@,
        ),
        found matches Step::Table(next) ==> body <= next.pos <= bytes@.len(),
        found matches Step::Member(next) ==> body <= next.pos <= bytes@.len(),
{
    let start: usize = body - HEADER_LEN;
    let header = slice_subrange(bytes, start, body);
    let rest: usize = bytes.len() - body;
    let symbols: [u8; 1] = [0x2f];
    let names: [u8; 2] = [0x2f, 0x2f];
    proof {
        assert(symbols@ =~= gnu_symbols());
        assert(names@ =~= gnu_names());
        assert(header@.subrange(1, 16) =~= bytes@.subrange(start + 1, start + 16));
    }
    if holds_name(header, &symbols) {
        Step::Table(pass_payload(bytes, body, size, Family::Gnu, cur.table_len))
    } else if holds_name(header, &names) {
        if size > rest as u64 {
            Step::Refuse
        } else {
            Step::Table(pass_payload(bytes, body, size, Family::Gnu, size))
        }
    } else {
        match read_number(bytes, start + 1, start + 16) {
            None => Step::Refuse,
            Some(index) => if index > cur.table_len {
                Step::Refuse
            } else {
                Step::Member(pass_payload(bytes, body, size, Family::Gnu, cur.table_len))
            },
        }
    }
}

/// What the walk finds at a header whose name is the mark of a long name.
fn read_long_name_header(bytes: &[u8], body: usize, size: u64, cur: &Cursor) -> (found: Step)
    requires
        HEADER_LEN <= body <= bytes@.len(),
    ensures
        found@ == long_name_step(bytes@, body as int, size as int, cur@),
        found matches Step::Table(next) ==> body <= next.pos <= bytes@.len(),
        found matches Step::Member(next) ==> body <= next.pos <= bytes@.len(),
{
    let start: usize = body - HEADER_LEN;
    let rest: usize = bytes.len() - body;
    let symbols = symbols_name();
    let sorted = sorted_symbols_name();
    proof {
        let header = bytes@.subrange(start as int, body as int);
        assert(header.subrange(3, 16) =~= bytes@.subrange(start + 3, start + 16));
    }
    match read_number(bytes, start + 3, start + 16) {
        None => Step::Refuse,
        Some(name_len) => if size < name_len {
            Step::Stop
        } else if name_len > rest as u64 {
            Step::Refuse
        } else {
            let next = pass_payload(
                bytes,
                body + name_len as usize,
                size - name_len,
                Family::Bsd,
                cur.table_len,
            );
            if holds_long_name(bytes, body, name_len as usize, &symbols) || holds_long_name(
                bytes,
                body,
                name_len as usize,
                &sorted,
            ) {
                Step::Table(next)
            } else {
                Step::Member(next)
            }
        },
    }
}

/// Whether the name field of `header` holds one of the two names of the
/// symbol table of the BSD family.
fn names_bsd_symbols(header: &[u8]) -> (named: bool)
    requires
        header@.len() >= NAME_LEN,
    ensures
        named == (name_is(header@, bsd_symbols()) || name_is(header@, bsd_sorted_symbols())),
{
    let symbols = symbols_name();
    let sorted = sorted_symbols_name();
    holds_name(header, &symbols) || holds_name(header, &sorted)
}

/// What the walk finds at the header that ends at `body`.
fn read_header(bytes: &[u8], body: usize, cur: &Cursor) -> (found: Step)
    requires
        HEADER_LEN <= body <= bytes@.len(),
    ensures
        found@ == header_step(bytes@, body as int, cur@),
        found matches Step::Table(next) ==> body <= next.pos <= bytes@.len(),
        found matches Step::Member(next) ==> body <= next.pos <= bytes@.len(),
{
    let start: usize = body - HEADER_LEN;
    let header = slice_subrange(bytes, start, body);
    proof {
        assert(header@.subrange(48, 58) =~= bytes@.subrange(start + 48, start + 58));
    }
    let size: u64 = match read_number(bytes, start + 48, start + 58) {
        None => {
            return Step::Refuse;
        },
        Some(size) => size,
    };
    if cur.family != Family::Bsd && header[0] == 0x2f {
        return read_slash_header(bytes, body, size, cur);
    }
    let family = if cur.family != Family::Bsd && ends_with_slash(header) {
        Family::Gnu
    } else {
        cur.family
    };
    let long_name: [u8; 3] = [0x23, 0x31, 0x2f];
    assert(long_name@ =~= bsd_long_name());
    if family != Family::Gnu && has_prefix(header, &long_name) {
        read_long_name_header(bytes, body, size, cur)
    } else if family == Family::Bsd && names_bsd_symbols(header) {
        Step::Refuse
    } else {
        Step::Member(pass_payload(bytes, body, size, family, cur.table_len))
    }
}

/// Takes one step of the walk from `cur`. A step that goes on moves the
/// cursor forward, by a header at least, and not beyond the end of the bytes.
pub fn next_step(bytes: &[u8], cur: &Cursor) -> (found: Step)
    ensures
        found@ == step(bytes@, cur@),
        found matches Step::Table(next) ==> cur.pos < next.pos <= bytes@.len(),
        found matches Step::Member(next) ==> cur.pos < next.pos <= bytes@.len(),
{
    let mut pos: usize = cur.pos;
    if pos > bytes.len() {
        return Step::Stop;
    }
    if cur.padded && pos < bytes.len() {
        if bytes[pos] != 0x0a {
            return Step::Stop;
        }
        pos += 1;
    }
    if bytes.len() - pos < HEADER_LEN {
        return Step::Stop;
    }
    read_header(bytes, pos + HEADER_LEN, cur)
}

/// Walks from `cur` over the tables that come first, to the next member, to
/// a header that is refused, or to the place where the reader stops.
pub fn next_member_step(bytes: &[u8], cur: &Cursor) -> (found: Step)
    ensures
        found@ == member_step(bytes@, cur@),
        !(found is Table),
        found matches Step::Member(next) ==> cur.pos < next.pos <= bytes@.len(),
{
    let mut at: Cursor = *cur;
    loop
        invariant
            cur.pos <= at.pos,
            member_step(bytes@, at@) == member_step(bytes@, cur@),
        decreases bytes@.len() - at.pos,
    {
        match next_step(bytes, &at) {
            Step::Table(next) => {
                at = next;
            },
            found => {
                return found;
            },
        }
    }
}

/// The walk before the first member of `bytes`.
pub fn start_walk(bytes: &[u8]) -> (walk: Walk)
    ensures
        walk@ == first_walk(bytes@),
{
    let start: [u8; 8] = [0x21, 0x3c, 0x61, 0x72, 0x63, 0x68, 0x3e, 0x0a];
    assert(start@ =~= magic());
    if has_prefix(bytes, &start) {
        Walk::At(Cursor { pos: MAGIC_LEN, family: Family::Common, table_len: 0, padded: false })
    } else {
        Walk::Done
    }
}

/// Moves the walk behind the next member, or to its end if the reader stops
/// before another member. The result is `None` if a header on the way is
/// refused: one whose size is not a plain number, whose name refers to a place
/// beyond the name table read before it, whose name table or long name is
/// longer than the bytes that are left, or that names a symbol table in a way
/// the walk cannot follow.
pub fn seek_member(bytes: &[u8], walk: Walk) -> (next: Option<Walk>)
    ensures
        next is Some == seek(bytes@, walk@) is Some,
        next matches Some(behind) ==> seek(bytes@, walk@) == Some(behind@),
{
    match walk {
        Walk::Done => Some(Walk::Done),
        Walk::At(cur) => match next_member_step(bytes, &cur) {
            Step::Refuse => None,
            Step::Member(behind) => Some(Walk::At(behind)),
            _ => Some(Walk::Done),
        },
    }
}

} // verus!
