use import_scan::layout::{
    next_member_step, next_step, seek_member, start_walk, Cursor, Family, Step, Walk,
};

fn header(name: &str, size: &str) -> Vec<u8> {
    let mut out = Vec::new();
    for (text, width) in [(name, 16), ("0", 12), ("0", 6), ("0", 6), ("644", 8), (size, 10)] {
        let bytes = text.as_bytes();
        assert!(bytes.len() <= width);
        out.extend_from_slice(bytes);
        out.resize(out.len() + width - bytes.len(), b' ');
    }
    out.extend_from_slice(b"`\n");
    assert_eq!(out.len() % 60, 0);
    out
}

fn archive(parts: &[&[u8]]) -> Vec<u8> {
    let mut out = b"!<arch>\n".to_vec();
    for part in parts {
        out.extend_from_slice(part);
    }
    out
}

fn first() -> Cursor {
    Cursor { pos: 8, family: Family::Common, table_len: 0, padded: false }
}

fn step_of(found: Step) -> Option<(usize, Family, u64, bool)> {
    match found {
        Step::Table(cursor) | Step::Member(cursor) => {
            Some((cursor.pos, cursor.family, cursor.table_len, cursor.padded))
        },
        Step::Stop => None,
        Step::Refuse => panic!("the walk refused the header"),
    }
}

fn is_table(found: Step) -> bool {
    matches!(found, Step::Table(_))
}

fn is_member(found: Step) -> bool {
    matches!(found, Step::Member(_))
}

fn members_reached(bytes: &[u8]) -> Result<usize, usize> {
    let mut walk = start_walk(bytes);
    let mut members = 0;
    loop {
        match seek_member(bytes, walk) {
            None => return Err(members),
            Some(Walk::Done) => return Ok(members),
            Some(behind) => {
                members += 1;
                walk = behind;
            },
        }
    }
}

fn is_safe_to_read(bytes: &[u8]) -> bool {
    members_reached(bytes).is_ok()
}

fn refuses(found: Step) -> bool {
    matches!(found, Step::Refuse)
}

fn stops(found: Step) -> bool {
    matches!(found, Step::Stop)
}

#[test]
fn walk_stops_at_the_end() {
    assert!(stops(next_step(b"!<arch>\n", &first())));
}

#[test]
fn walk_stops_at_a_header_cut_short() {
    let bytes = archive(&[&header("foo.o", "4")[..59]]);
    assert!(stops(next_step(&bytes, &first())));
}

#[test]
fn walk_passes_a_member() {
    let bytes = archive(&[&header("foo.o", "4"), b"abcd", &header("bar.o", "0")]);
    assert_eq!(step_of(next_step(&bytes, &first())), Some((72, Family::Common, 0, false)));
    let second = Cursor { pos: 72, family: Family::Common, table_len: 0, padded: false };
    assert_eq!(step_of(next_step(&bytes, &second)), Some((132, Family::Common, 0, false)));
    let third = Cursor { pos: 132, family: Family::Common, table_len: 0, padded: false };
    assert!(stops(next_step(&bytes, &third)));
}

#[test]
fn walk_passes_a_member_of_odd_size_and_its_padding() {
    let bytes = archive(&[&header("foo.o", "5"), b"abcde\n", &header("bar.o", "0")]);
    assert_eq!(step_of(next_step(&bytes, &first())), Some((73, Family::Common, 0, true)));
    let second = Cursor { pos: 73, family: Family::Common, table_len: 0, padded: true };
    assert_eq!(step_of(next_step(&bytes, &second)), Some((134, Family::Common, 0, false)));
}

#[test]
fn walk_stops_at_padding_that_is_no_line_feed() {
    let bytes = archive(&[&header("foo.o", "5"), b"abcde?", &header("bar.o", "0")]);
    let second = Cursor { pos: 73, family: Family::Common, table_len: 0, padded: true };
    assert!(stops(next_step(&bytes, &second)));
}

#[test]
fn walk_passes_over_what_is_left_of_a_payload_cut_short() {
    let bytes = archive(&[&header("foo.o", "40"), b"abcd"]);
    assert_eq!(step_of(next_step(&bytes, &first())), Some((72, Family::Common, 0, false)));
}

#[test]
fn walk_ends_without_the_last_padding() {
    let bytes = archive(&[&header("foo.o", "3"), b"abc"]);
    assert_eq!(step_of(next_step(&bytes, &first())), Some((71, Family::Common, 0, true)));
    let second = Cursor { pos: 71, family: Family::Common, table_len: 0, padded: true };
    assert!(stops(next_step(&bytes, &second)));
}

#[test]
fn size_must_be_a_plain_number() {
    for size in ["", "x", "+4", " 4", "4x", "4 2", "-1"] {
        let bytes = archive(&[&header("foo.o", size), b"abcd"]);
        assert!(refuses(next_step(&bytes, &first())));
        assert!(!is_safe_to_read(&bytes));
    }
}

#[test]
fn slash_at_the_end_of_a_name_shows_the_gnu_family() {
    let bytes = archive(&[&header("foo.o/", "4"), b"abcd"]);
    assert_eq!(step_of(next_step(&bytes, &first())), Some((72, Family::Gnu, 0, false)));
}

#[test]
fn symbol_table_of_the_gnu_family_is_passed() {
    let bytes = archive(&[&header("/", "6"), b"symbol", &header("foo.o/", "0")]);
    assert_eq!(step_of(next_step(&bytes, &first())), Some((74, Family::Gnu, 0, false)));
}

#[test]
fn name_table_sets_the_length_for_references() {
    let bytes = archive(&[&header("//", "10"), b"long_name/", &header("/0", "4"), b"abcd"]);
    assert_eq!(step_of(next_step(&bytes, &first())), Some((78, Family::Gnu, 10, false)));
    let second = Cursor { pos: 78, family: Family::Gnu, table_len: 10, padded: false };
    assert_eq!(step_of(next_step(&bytes, &second)), Some((142, Family::Gnu, 10, false)));
    assert!(is_safe_to_read(&bytes));
}

#[test]
fn reference_must_lie_in_the_name_table() {
    let bytes = archive(&[&header("/11", "4"), b"abcd"]);
    let inside = Cursor { pos: 8, family: Family::Gnu, table_len: 11, padded: false };
    let outside = Cursor { pos: 8, family: Family::Gnu, table_len: 10, padded: false };
    assert_eq!(step_of(next_step(&bytes, &inside)), Some((72, Family::Gnu, 11, false)));
    assert!(refuses(next_step(&bytes, &outside)));
    assert!(refuses(next_step(&bytes, &first())));
}

#[test]
fn reference_must_be_a_plain_number() {
    for name in ["/x", "/ 1", "/+1", "/1/", "/1x"] {
        let bytes = archive(&[&header(name, "4"), b"abcd"]);
        let cursor = Cursor { pos: 8, family: Family::Gnu, table_len: 100, padded: false };
        assert!(refuses(next_step(&bytes, &cursor)));
    }
}

#[test]
fn name_table_must_fit_in_the_archive() {
    let fits = archive(&[&header("//", "4"), b"abcd"]);
    let short = archive(&[&header("//", "5"), b"abcd"]);
    assert_eq!(step_of(next_step(&fits, &first())), Some((72, Family::Gnu, 4, false)));
    assert!(refuses(next_step(&short, &first())));
}

#[test]
fn long_name_behind_the_header_shows_the_bsd_family() {
    let bytes = archive(&[&header("#1/8", "12"), b"longname", b"abcd"]);
    assert_eq!(step_of(next_step(&bytes, &first())), Some((80, Family::Bsd, 0, false)));
}

#[test]
fn long_name_counts_as_payload_for_the_padding() {
    let bytes = archive(&[&header("#1/8", "13"), b"longname", b"abcde\n"]);
    assert_eq!(step_of(next_step(&bytes, &first())), Some((81, Family::Bsd, 0, true)));
    let even = archive(&[&header("#1/7", "12"), b"longnam", b"abcde\n"]);
    assert_eq!(step_of(next_step(&even, &first())), Some((80, Family::Bsd, 0, true)));
}

#[test]
fn long_name_must_fit_in_the_archive() {
    let bytes = archive(&[&header("#1/8", "12"), b"longnam"]);
    assert!(refuses(next_step(&bytes, &first())));
}

#[test]
fn long_name_longer_than_the_member_stops_the_walk() {
    let bytes = archive(&[&header("#1/8", "4"), b"longname"]);
    assert!(stops(next_step(&bytes, &first())));
    assert!(is_safe_to_read(&bytes));
}

#[test]
fn length_of_a_long_name_must_be_a_plain_number() {
    let bytes = archive(&[&header("#1/x", "12"), b"longname", b"abcd"]);
    assert!(refuses(next_step(&bytes, &first())));
}

#[test]
fn families_do_not_mix() {
    let bytes = archive(&[&header("#1/8", "12"), b"longname", b"abcd"]);
    let gnu = Cursor { pos: 8, family: Family::Gnu, table_len: 0, padded: false };
    assert_eq!(step_of(next_step(&bytes, &gnu)), Some((80, Family::Gnu, 0, false)));
    let reference = archive(&[&header("/11", "4"), b"abcd"]);
    let bsd = Cursor { pos: 8, family: Family::Bsd, table_len: 0, padded: false };
    assert_eq!(step_of(next_step(&reference, &bsd)), Some((72, Family::Bsd, 0, false)));
    let slash = archive(&[&header("foo.o/", "4"), b"abcd"]);
    assert_eq!(step_of(next_step(&slash, &bsd)), Some((72, Family::Bsd, 0, false)));
}

#[test]
fn symbol_table_under_a_short_name_is_refused_in_the_bsd_family() {
    let bsd = Cursor { pos: 8, family: Family::Bsd, table_len: 0, padded: false };
    for name in ["__.SYMDEF", "__.SYMDEF SORTED"] {
        let bytes = archive(&[&header(name, "4"), b"abcd"]);
        assert!(refuses(next_step(&bytes, &bsd)));
        assert_eq!(step_of(next_step(&bytes, &first())), Some((72, Family::Common, 0, false)));
    }
    let other = archive(&[&header("__.SYMDEF2", "4"), b"abcd"]);
    assert_eq!(step_of(next_step(&other, &bsd)), Some((72, Family::Bsd, 0, false)));
}

#[test]
fn bytes_without_the_magic_pass() {
    assert!(is_safe_to_read(b""));
    assert!(is_safe_to_read(b"!<arch>"));
    assert!(is_safe_to_read(b"?<arch>\n/99             0           0     0     644     4         `\nabcd"));
}

#[test]
fn whole_archives_pass() {
    assert!(is_safe_to_read(b"!<arch>\n"));
    let bytes = archive(&[
        &header("/", "3"),
        b"sym\n",
        &header("//", "21"),
        b"a_long_name.o/\nb.o/\n\n\n",
        &header("/0", "5"),
        b"abcde\n",
        &header("short.o/", "2"),
        b"ab",
        &header("/15", "1"),
        b"x",
    ]);
    assert!(is_safe_to_read(&bytes));
}

#[test]
fn refusal_behind_good_members_refuses_the_archive() {
    let bytes = archive(&[&header("foo.o", "4"), b"abcd", &header("/7", "4"), b"abcd"]);
    assert!(!is_safe_to_read(&bytes));
}

#[test]
fn table_names_may_be_followed_by_spaces_only() {
    for name in ["/", "//"] {
        let bytes = archive(&[&header(name, "4"), b"abcd"]);
        assert!(is_table(next_step(&bytes, &first())));
    }
    for name in ["/ /", "// /", "///", "//a", "/a"] {
        let bytes = archive(&[&header(name, "4"), b"abcd"]);
        assert!(refuses(next_step(&bytes, &first())));
    }
}

#[test]
fn slash_at_the_end_of_the_name_is_found_behind_spaces_too() {
    for name in ["foo.o/", "0123456789abcde/", "a /", "a/b/"] {
        let bytes = archive(&[&header(name, "4"), b"abcd"]);
        assert_eq!(step_of(next_step(&bytes, &first())), Some((72, Family::Gnu, 0, false)));
    }
    for name in ["foo.o", "foo/o", "", "a/ b"] {
        let bytes = archive(&[&header(name, "4"), b"abcd"]);
        assert_eq!(step_of(next_step(&bytes, &first())), Some((72, Family::Common, 0, false)));
    }
}

#[test]
fn cursor_beyond_the_bytes_stops_the_walk() {
    let cursor = Cursor { pos: 9, family: Family::Common, table_len: 0, padded: true };
    assert!(stops(next_step(b"!<arch>\n", &cursor)));
    assert!(stops(next_member_step(b"!<arch>\n", &cursor)));
    assert!(matches!(seek_member(b"!<arch>\n", Walk::At(cursor)), Some(Walk::Done)));
}

#[test]
fn tables_and_members_are_told_apart() {
    let symbols = archive(&[&header("/", "4"), b"abcd"]);
    assert!(is_table(next_step(&symbols, &first())));
    let names = archive(&[&header("//", "4"), b"abcd"]);
    assert!(is_table(next_step(&names, &first())));
    let member = archive(&[&header("foo.o", "4"), b"abcd"]);
    assert!(is_member(next_step(&member, &first())));
    let reference = archive(&[&header("/0", "4"), b"abcd"]);
    assert!(is_member(next_step(&reference, &first())));
    let long = archive(&[&header("#1/8", "12"), b"longname", b"abcd"]);
    assert!(is_member(next_step(&long, &first())));
    let long_symbols = archive(&[&header("#1/12", "16"), b"__.SYMDEF\0\0\0", b"abcd"]);
    assert!(is_table(next_step(&long_symbols, &first())));
    let long_sorted = archive(&[&header("#1/16", "20"), b"__.SYMDEF SORTED", b"abcd"]);
    assert!(is_table(next_step(&long_sorted, &first())));
    let padded_with_spaces = archive(&[&header("#1/12", "16"), b"__.SYMDEF   ", b"abcd"]);
    assert!(is_member(next_step(&padded_with_spaces, &first())));
    let longer = archive(&[&header("#1/12", "16"), b"__.SYMDEF2\0\0", b"abcd"]);
    assert!(is_member(next_step(&longer, &first())));
}

#[test]
fn long_names_are_compared_without_the_zeros_at_their_end() {
    for (name, table) in [
        (&b"__.SYMDEF"[..], true),
        (&b"__.SYMDEF\0"[..], true),
        (&b"__.SYMDEF\0\0\0\0\0\0\0"[..], true),
        (&b"__.SYMDEF SORTED\0\0"[..], true),
        (&b"__.SYMDEF\0a\0"[..], false),
        (&b"__.SYMDEG\0\0\0"[..], false),
        (&b"__.SYMDE"[..], false),
        (&b"__.SYMDEF SORTE"[..], false),
        (&b"__.SYMDEF SORTED!"[..], false),
        (&b"\0\0\0"[..], false),
        (&b""[..], false),
    ] {
        let size = (name.len() + 4).to_string();
        let mark = format!("#1/{}", name.len());
        let bytes = archive(&[&header(&mark, &size), name, b"abcd"]);
        assert_eq!(is_table(next_step(&bytes, &first())), table);
        assert_eq!(is_member(next_step(&bytes, &first())), !table);
    }
}

#[test]
fn seeking_passes_the_tables_before_a_member() {
    let bytes = archive(&[
        &header("/", "4"),
        b"abcd",
        &header("//", "10"),
        b"long_name/",
        &header("/0", "3"),
        b"abc\n",
        &header("short.o/", "0"),
    ]);
    assert_eq!(step_of(next_member_step(&bytes, &first())), Some((205, Family::Gnu, 10, true)));
    assert!(is_member(next_member_step(&bytes, &first())));
    assert_eq!(members_reached(&bytes), Ok(2));
}

#[test]
fn seeking_stops_behind_the_last_member() {
    let bytes = archive(&[&header("foo.o", "4"), b"abcd"]);
    let start = start_walk(&bytes);
    let behind = seek_member(&bytes, start).unwrap();
    assert!(matches!(behind, Walk::At(cursor) if cursor.pos == 72));
    let end = seek_member(&bytes, behind).unwrap();
    assert!(matches!(end, Walk::Done));
    assert!(matches!(seek_member(&bytes, end), Some(Walk::Done)));
}

#[test]
fn seeking_without_the_magic_is_over_at_once() {
    assert!(matches!(start_walk(b"?<arch>\n"), Walk::Done));
    assert!(matches!(start_walk(b"!<arch>"), Walk::Done));
    assert!(matches!(start_walk(b"!<arch>\n"), Walk::At(cursor) if cursor.pos == 8));
}

#[test]
fn refusal_comes_when_the_walk_gets_there() {
    let bytes = archive(&[&header("foo.o", "4"), b"abcd", &header("/7", "4"), b"abcd"]);
    assert_eq!(members_reached(&bytes), Err(1));
    let table_first = archive(&[&header("//", "9"), b"abcd"]);
    assert_eq!(members_reached(&table_first), Err(0));
}
