//! Chapter lists read back from finished files: the `chpl` atom's layout and
//! the walk through the atoms that leads to it.

use vstd::prelude::*;

verus! {

/// Longest chapter title, in bytes, that is accepted from a `chpl` atom.
pub const MAX_TITLE_LEN: u32 = 10 * 1024;

/// A chapter read from a file: title, start and duration in milliseconds.
#[derive(Debug, Clone, PartialEq)]
pub struct Chapter {
    pub title: String,
    pub start_time: u64,
    pub duration: u64,
}

/// The text that `String::from_utf8_lossy` makes of `bytes`.
pub uninterp spec fn utf8_lossy(bytes: Seq<u8>) -> Seq<char>;

/// Calls `String::from_utf8_lossy`: invalid sequences become U+FFFD, and valid
/// UTF-8 is decoded as it stands.
#[verifier::external_body]
pub(crate) fn decode_lossy(bytes: &[u8]) -> (s: String)
    ensures
        s@ == utf8_lossy(bytes@),
        vstd::utf8::valid_utf8(bytes@) ==> s@ == vstd::utf8::decode_utf8(bytes@),
{
    String::from_utf8_lossy(bytes).to_string()
}

/// The value of big-endian bytes.
pub open spec fn be_value(s: Seq<u8>) -> nat
    decreases s.len(),
{
    if s.len() == 0 {
        0
    } else {
        be_value(s.drop_last()) * 256 + (s.last() as nat)
    }
}

/// `256` to the power `k`.
pub open spec fn pow256(k: nat) -> nat
    decreases k,
{
    if k == 0 {
        1
    } else {
        pow256((k - 1) as nat) * 256
    }
}

/// Big-endian values of `k` bytes stay below `256^k`.
proof fn lemma_be_bound(s: Seq<u8>)
    ensures
        be_value(s) < pow256(s.len()),
    decreases s.len(),
{
    if s.len() > 0 {
        lemma_be_bound(s.drop_last());
        let a = be_value(s.drop_last());
        let p = pow256((s.len() - 1) as nat);
        let l = s.last();
        assert(a * 256 + l < p * 256) by (nonlinear_arith)
            requires
                a < p,
                l < 256,
        ;
    }
}

/// The big-endian value of the `k` bytes of `b` at `off`.
fn read_be(b: &[u8], off: usize, k: usize) -> (v: u64)
    requires
        off + k <= b@.len(),
        k <= 8,
    ensures
        v == be_value(b@.subrange(off as int, off + k)),
{
    let mut acc: u64 = 0;
    let mut i: usize = 0;
    assert(b@.subrange(off as int, off as int) =~= Seq::<u8>::empty());
    while i < k
        invariant
            i <= k,
            k <= 8,
            off + k <= b.len(),
            acc == be_value(b@.subrange(off as int, off + i)),
        decreases k - i,
    {
        assert(be_value(b@.subrange(off as int, off + i + 1)) == acc * 256 + b@[off + i]) by {
            assert(b@.subrange(off as int, off + i + 1).drop_last() =~= b@.subrange(
                off as int,
                off + i,
            ));
        }
        proof {
            lemma_be_bound(b@.subrange(off as int, off + i + 1));
            assert(pow256(8) == 18446744073709551616) by {
                reveal_with_fuel(pow256, 9);
            }
            lemma_pow256_monotone((i + 1) as nat, 8);
            assert(b@.subrange(off as int, off + i + 1).drop_last() =~= b@.subrange(
                off as int,
                off + i,
            ));
        }
        assert(acc * 256 + b@[off + i] < 18446744073709551616);
        acc = acc * 256 + (b[off + i] as u64);
        i = i + 1;
    }
    acc
}

/// Powers of 256 grow with the exponent.
proof fn lemma_pow256_monotone(i: nat, j: nat)
    requires
        i <= j,
    ensures
        pow256(i) <= pow256(j),
    decreases j - i,
{
    if i < j {
        lemma_pow256_monotone(i, (j - 1) as nat);
    }
}

/// One entry of a `chpl` atom: start in milliseconds and the title's bytes.
pub struct ChplEntry {
    pub start: nat,
    pub title: Seq<u8>,
}

/// The entries of a `chpl` atom's content `b`, reading at most `n` of them
/// from position `off`: each is an 8-byte big-endian start in 100 ns units, a
/// one-byte title length (1 to 255) and the title. Reading stops at the first
/// entry that does not fit.
pub open spec fn chpl_entries(b: Seq<u8>, off: int, n: nat) -> Seq<ChplEntry>
    decreases n,
{
    if n == 0 || off < 0 || off + 9 > b.len() {
        seq![]
    } else {
        let tl = b[off + 8] as int;
        if tl == 0 || off + 9 + tl > b.len() {
            seq![]
        } else {
            seq![
                ChplEntry {
                    start: be_value(b.subrange(off, off + 8)) / 10_000,
                    title: b.subrange(off + 9, off + 9 + tl),
                },
            ] + chpl_entries(b, off + 9 + tl, (n - 1) as nat)
        }
    }
}

/// The entries of a whole `chpl` atom content: a version byte, three flag
/// bytes, four reserved bytes when the version is not zero, a one-byte
/// chapter count, then the entries.
pub open spec fn chpl_content_entries(b: Seq<u8>) -> Seq<ChplEntry> {
    if b.len() < 4 {
        seq![]
    } else {
        let header: int = if b[0] != 0 {
            8
        } else {
            4
        };
        if b.len() < header + 1 {
            seq![]
        } else {
            chpl_entries(b, header + 1, b[header] as nat)
        }
    }
}

/// The duration of entry `i`: up to the next entry's start (zero when the
/// next starts earlier), and zero for the last.
pub open spec fn chpl_duration(e: Seq<ChplEntry>, i: int) -> nat {
    if i + 1 < e.len() {
        if e[i + 1].start >= e[i].start {
            (e[i + 1].start - e[i].start) as nat
        } else {
            0
        }
    } else {
        0
    }
}

/// Whether `t` is the title that `bytes` decode to: leniently, and as they
/// stand where they are valid UTF-8.
pub open spec fn title_read(t: Seq<char>, bytes: Seq<u8>) -> bool {
    &&& t == utf8_lossy(bytes)
    &&& vstd::utf8::valid_utf8(bytes) ==> t == vstd::utf8::decode_utf8(bytes)
}

/// Chapters from the content of a `chpl` atom: titles decoded leniently,
/// starts in milliseconds, each duration running to the next chapter's start.
pub fn parse_chpl_content(b: &[u8]) -> (r: Vec<Chapter>)
    ensures
        r@.len() == chpl_content_entries(b@).len(),
        forall|i: int|
            0 <= i < r@.len() ==> {
                let e = chpl_content_entries(b@);
                &&& (#[trigger] r@[i]).start_time == e[i].start
                &&& title_read(r@[i].title@, e[i].title)
                &&& r@[i].duration == chpl_duration(e, i)
            },
{
    let mut chapters: Vec<Chapter> = Vec::new();
    if b.len() < 4 {
        return chapters;
    }
    let header: usize = if b[0] != 0 {
        8
    } else {
        4
    };
    if b.len() < header + 1 {
        return chapters;
    }
    let num: u8 = b[header];
    let mut offset: usize = header + 1;
    let ghost e = chpl_content_entries(b@);
    let mut read: u8 = 0;
    assert(e == chpl_entries(b@, offset as int, num as nat));
    while read < num
        invariant
            read <= num,
            read <= e.len(),
            offset <= b@.len(),
            e == chpl_content_entries(b@),
            chapters@.len() == read,
            e == chpl_entries(b@, (header + 1) as int, num as nat),
            chpl_entries(b@, (header + 1) as int, num as nat) =~= e.take(read as int)
                + chpl_entries(b@, offset as int, (num - read) as nat),
            forall|i: int|
                0 <= i < read ==> (#[trigger] chapters@[i]).start_time == e[i].start
                    && title_read(chapters@[i].title@, e[i].title),
        ensures
            read <= num,
            read <= e.len(),
            e == chpl_content_entries(b@),
            chapters@.len() == read,
            chpl_entries(b@, (header + 1) as int, num as nat) =~= e.take(read as int)
                + chpl_entries(b@, offset as int, (num - read) as nat),
            chpl_entries(b@, offset as int, (num - read) as nat) =~= Seq::<ChplEntry>::empty(),
            e == chpl_entries(b@, (header + 1) as int, num as nat),
            forall|i: int|
                0 <= i < read ==> (#[trigger] chapters@[i]).start_time == e[i].start
                    && title_read(chapters@[i].title@, e[i].title),
        decreases num - read,
    {
        if b.len() - offset < 9 {
            break;
        }
        let start = read_be(b, offset, 8) / 10_000;
        let tl: usize = b[offset + 8] as usize;
        if tl == 0 || b.len() - offset - 9 < tl {
            break;
        }
        let mut title_bytes: Vec<u8> = Vec::new();
        let mut k: usize = 0;
        while k < tl
            invariant
                k <= tl,
                offset + 9 + tl <= b.len(),
                title_bytes@ =~= b@.subrange(offset + 9, offset + 9 + k),
            decreases tl - k,
        {
            title_bytes.push(b[offset + 9 + k]);
            k = k + 1;
        }
        let title = decode_lossy(title_bytes.as_slice());
        let ghost rest = chpl_entries(b@, offset as int, (num - read) as nat);
        let ghost entry = ChplEntry {
            start: be_value(b@.subrange(offset as int, offset + 8)) / 10_000,
            title: b@.subrange(offset + 9, offset + 9 + tl),
        };
        let ghost after = chpl_entries(b@, offset + 9 + tl, (num - read - 1) as nat);
        assert(b@[offset + 8] as int == tl);
        assert(rest == seq![entry] + after);
        assert(title_bytes@ =~= entry.title);
        assert(e =~= e.take(read as int) + rest);
        assert((e.take(read as int) + rest)[read as int] == rest[0]);
        assert(rest[0] == entry);
        assert(e[read as int] == entry);
        assert(e.take(read + 1) =~= e.take(read as int).push(entry));
        assert(e.take(read as int) + rest =~= e.take(read + 1) + after);
        chapters.push(Chapter { title, start_time: start, duration: 0 });
        offset = offset + 9 + tl;
        read = read + 1;
    }
    proof {
        assert(e =~= e.take(read as int) + Seq::<ChplEntry>::empty());
        assert(e.len() == read);
    }
    let n = chapters.len();
    let mut i: usize = 0;
    let mut out: Vec<Chapter> = Vec::new();
    while i < n
        invariant
            i <= n,
            n == chapters@.len(),
            n == e.len(),
            out@.len() == i,
            forall|j: int|
                0 <= j < n ==> (#[trigger] chapters@[j]).start_time == e[j].start
                    && title_read(chapters@[j].title@, e[j].title),
            forall|j: int|
                0 <= j < i ==> {
                    &&& (#[trigger] out@[j]).start_time == e[j].start
                    &&& title_read(out@[j].title@, e[j].title)
                    &&& out@[j].duration == chpl_duration(e, j)
                },
        decreases n - i,
    {
        let duration: u64 = if i + 1 < n {
            chapters[i + 1].start_time.saturating_sub(chapters[i].start_time)
        } else {
            0
        };
        let c = &chapters[i];
        out.push(Chapter { title: c.title.clone(), start_time: c.start_time, duration });
        i = i + 1;
    }
    out
}

/// Where the walk through a file's atoms stands.
#[derive(Debug, Clone, Copy, PartialEq, Eq, Structural)]
pub enum AtomLevel {
    /// The file's top level, after the `ftyp` atom.
    Top,
    /// Inside `moov`.
    Moov,
    /// Inside `moov/udta`.
    Udta,
    /// Inside `moov/udta/meta`, after its four version and flag bytes.
    Meta,
}

/// What to do after reading an atom header.
#[derive(Debug, Clone, Copy, PartialEq, Eq, Structural)]
pub enum AtomStep {
    /// Stop: no chapters here.
    Stop,
    /// The atom is empty: read the next header.
    Next,
    /// Skip this many bytes of atom body, then read the next header.
    Skip(u32),
    /// Descend into the atom, whose body has this many bytes.
    Enter(AtomLevel, u32),
    /// Read and parse a `chpl` body of this many bytes.
    ReadChpl(u32),
}

/// The length field of an atom header.
pub open spec fn atom_len(h: Seq<u8>) -> nat {
    be_value(h.subrange(0, 4))
}

/// Whether the identifier of header `h` is `id`.
pub open spec fn atom_is(h: Seq<u8>, id: Seq<u8>) -> bool {
    h.subrange(4, 8) == id
}

/// The container that `level` descends into for the atom identifier of `h`.
pub open spec fn child_level(level: AtomLevel, h: Seq<u8>) -> Option<AtomLevel> {
    match level {
        AtomLevel::Top => if atom_is(h, seq![109u8, 111, 111, 118]) {
            Some(AtomLevel::Moov)
        } else {
            None
        },
        AtomLevel::Moov => if atom_is(h, seq![117u8, 100, 116, 97]) {
            Some(AtomLevel::Udta)
        } else {
            None
        },
        AtomLevel::Udta => if atom_is(h, seq![109u8, 101, 116, 97]) {
            Some(AtomLevel::Meta)
        } else {
            None
        },
        AtomLevel::Meta => None,
    }
}

/// Whether `level` reads a `chpl` atom found there.
pub open spec fn chpl_allowed(level: AtomLevel) -> bool {
    level == AtomLevel::Udta || level == AtomLevel::Meta
}

/// The step for an atom header: fewer than eight bytes read or a length
/// below eight stops; a container on the path to `chpl` is entered; a `chpl`
/// atom inside `udta` or `meta` is read; an empty atom moves on; any other
/// atom is skipped.
pub open spec fn atom_step_spec(level: AtomLevel, h: Seq<u8>) -> AtomStep {
    if h.len() < 8 || atom_len(h) < 8 {
        AtomStep::Stop
    } else if child_level(level, h) is Some {
        AtomStep::Enter(child_level(level, h).unwrap(), (atom_len(h) - 8) as u32)
    } else if chpl_allowed(level) && atom_is(h, seq![99u8, 104, 112, 108]) {
        AtomStep::ReadChpl((atom_len(h) - 8) as u32)
    } else if atom_len(h) == 8 {
        AtomStep::Next
    } else {
        AtomStep::Skip((atom_len(h) - 8) as u32)
    }
}

/// Whether the four identifier bytes of `h` are `a b c d`.
fn ident_is(h: &[u8], a: u8, b: u8, c: u8, d: u8) -> (r: bool)
    requires
        h@.len() >= 8,
    ensures
        r == atom_is(h@, seq![a, b, c, d]),
{
    let r = h[4] == a && h[5] == b && h[6] == c && h[7] == d;
    if r {
        assert(h@.subrange(4, 8) =~= seq![a, b, c, d]);
    } else {
        proof {
            if h@.subrange(4, 8) == seq![a, b, c, d] {
                assert(h@.subrange(4, 8)[0] == a);
                assert(h@.subrange(4, 8)[1] == b);
                assert(h@.subrange(4, 8)[2] == c);
                assert(h@.subrange(4, 8)[3] == d);
            }
        }
    }
    r
}

/// The step to take after reading the header bytes `h` at `level`.
pub fn atom_step(level: AtomLevel, h: &[u8]) -> (s: AtomStep)
    ensures
        s == atom_step_spec(level, h@),
{
    if h.len() < 8 {
        return AtomStep::Stop;
    }
    let len = read_be(h, 0, 4);
    proof {
        lemma_be_bound(h@.subrange(0, 4));
        assert(pow256(4) == 4294967296) by {
            reveal_with_fuel(pow256, 5);
        }
    }
    if len < 8 {
        return AtomStep::Stop;
    }
    let body = (len - 8) as u32;
    match level {
        AtomLevel::Top => {
            if ident_is(h, 109, 111, 111, 118) {
                return AtomStep::Enter(AtomLevel::Moov, body);
            }
        },
        AtomLevel::Moov => {
            if ident_is(h, 117, 100, 116, 97) {
                return AtomStep::Enter(AtomLevel::Udta, body);
            }
        },
        AtomLevel::Udta => {
            if ident_is(h, 109, 101, 116, 97) {
                return AtomStep::Enter(AtomLevel::Meta, body);
            }
        },
        AtomLevel::Meta => {},
    }
    if (level == AtomLevel::Udta || level == AtomLevel::Meta) && ident_is(h, 99, 104, 112, 108) {
        return AtomStep::ReadChpl(body);
    }
    if len == 8 {
        AtomStep::Next
    } else {
        AtomStep::Skip(body)
    }
}

/// The length of the leading `ftyp` atom, or `None` when the header `h` does
/// not name one (the file is then not an MP4 file).
pub fn ftyp_len(h: &[u8]) -> (r: Option<u32>)
    ensures
        h@.len() < 8 ==> r is None,
        h@.len() >= 8 ==> (r is Some <==> atom_is(h@, seq![102u8, 116, 121, 112])),
        r matches Some(n) ==> n == atom_len(h@),
{
    if h.len() < 8 {
        return None;
    }
    if ident_is(h, 102, 116, 121, 112) {
        let len = read_be(h, 0, 4);
        proof {
            lemma_be_bound(h@.subrange(0, 4));
            assert(pow256(4) == 4294967296) by {
                reveal_with_fuel(pow256, 5);
            }
        }
        Some(len as u32)
    } else {
        None
    }
}

/// Law: a header of a `chpl` atom (bytes 4 to 7 are `c h p l`, length at
/// least eight) inside `udta` or `meta` reads the chapter list: the step is
/// `ReadChpl` of the atom's body length, never a skip.
pub proof fn lemma_chpl_is_read(level: AtomLevel, h: Seq<u8>)
    requires
        level == AtomLevel::Udta || level == AtomLevel::Meta,
        h.len() >= 8,
        atom_len(h) >= 8,
        h[4] == 99u8,
        h[5] == 104u8,
        h[6] == 112u8,
        h[7] == 108u8,
    ensures
        atom_step_spec(level, h) == AtomStep::ReadChpl((atom_len(h) - 8) as u32),
{
    assert(h.subrange(4, 8) =~= seq![99u8, 104, 112, 108]);
    assert(h.subrange(4, 8) != seq![109u8, 101, 116, 97]) by {
        assert(h.subrange(4, 8)[0] != 109u8);
    }
}

} // verus!
