//! The STL and OBJ mesh formats.
//!
//! An STL file is either binary (an 80-byte header, a little-endian count
//! and 50-byte facet records) or ASCII (`facet normal` and `vertex` lines).
//! This module frames both: it finds the facets and hands back the numbers
//! as the file holds them (the bits of binary floats, the words of ASCII
//! ones), for the caller to turn into coordinates. For OBJ files it groups
//! the decoder's index lists into triangles.

use crate::error::{Error, IoFailure};
use crate::text::{
    begins_with, leading_space, lossy_chars, lossy_decoded, split_at_char, split_on, split_words,
    starts_with, trim_start, utf8_chars, words,
};
use vstd::prelude::*;
use vstd::utf8::{decode_utf8, valid_utf8};

verus! {

/// The word `facet`.
pub open spec fn facet_word() -> Seq<char> {
    seq!['f', 'a', 'c', 'e', 't']
}

/// The word `normal`.
pub open spec fn normal_word() -> Seq<char> {
    seq!['n', 'o', 'r', 'm', 'a', 'l']
}

/// The word `vertex`.
pub open spec fn vertex_word() -> Seq<char> {
    seq!['v', 'e', 'r', 't', 'e', 'x']
}

/// The word `solid`, which opens an ASCII STL file.
pub open spec fn solid_word() -> Seq<char> {
    seq!['s', 'o', 'l', 'i', 'd']
}

/// A facet as an ASCII file writes it: its three coordinates of the latest
/// `facet normal` line, if any came before, and the three coordinates of
/// each of its `vertex` lines, as words.
pub struct TextFacet {
    pub normal: Option<Vec<Vec<char>>>,
    pub corners: Vec<Vec<Vec<char>>>,
}

/// The words of a word list.
pub open spec fn word_seq(v: Seq<Vec<char>>) -> Seq<Seq<char>> {
    v.map_values(|w: Vec<char>| w@)
}

impl View for TextFacet {
    type V = (Option<Seq<Seq<char>>>, Seq<Seq<Seq<char>>>);

    open spec fn view(&self) -> (Option<Seq<Seq<char>>>, Seq<Seq<Seq<char>>>) {
        (
            match self.normal {
                Some(n) => Some(word_seq(n@)),
                None => None,
            },
            self.corners@.map_values(|c: Vec<Vec<char>>| word_seq(c@)),
        )
    }
}

/// Where a scan of an ASCII STL file stands: the words of the latest
/// normal, the vertices read for the facet in progress, and the facets
/// completed.
pub struct AsciiScan {
    pub normal: Option<Seq<Seq<char>>>,
    pub pending: Seq<Seq<Seq<char>>>,
    pub facets: Seq<(Option<Seq<Seq<char>>>, Seq<Seq<Seq<char>>>)>,
}

/// The scan before any line.
pub open spec fn scan_start() -> AsciiScan {
    AsciiScan { normal: None, pending: seq![], facets: seq![] }
}

/// The scan after a line with words `w`: a `facet normal x y z` line sets
/// the normal; a `vertex x y z` line adds a vertex, and every third one
/// completes a facet with the normal seen last; other lines change
/// nothing.
pub open spec fn scan_step(s: AsciiScan, w: Seq<Seq<char>>) -> AsciiScan {
    if w.len() >= 5 && w[0] == facet_word() && w[1] == normal_word() {
        AsciiScan { normal: Some(w.subrange(2, 5)), ..s }
    } else if w.len() >= 4 && w[0] == vertex_word() {
        let p = s.pending.push(w.subrange(1, 4));
        if p.len() == 3 {
            AsciiScan { normal: s.normal, pending: seq![], facets: s.facets.push((s.normal, p)) }
        } else {
            AsciiScan { pending: p, ..s }
        }
    } else {
        s
    }
}

/// The scan after the given lines.
pub open spec fn scan_lines(lines: Seq<Seq<char>>) -> AsciiScan
    decreases lines.len(),
{
    if lines.len() == 0 {
        scan_start()
    } else {
        scan_step(scan_lines(lines.drop_last()), words(lines.last()))
    }
}

/// The facets of an ASCII STL text, line by line.
pub open spec fn ascii_facets(text: Seq<char>) -> Seq<(Option<Seq<Seq<char>>>, Seq<Seq<Seq<char>>>)> {
    scan_lines(split_on(text, '\n')).facets
}

/// How a line moves the scan: `facet normal x y z` sets the normal to
/// `x y z`; `vertex x y z` adds the vertex `x y z`, and the third one in a
/// row completes a facet with the latest normal and starts the next facet
/// afresh; a line that is neither leaves the scan as it was.
pub proof fn lemma_scan_reads_lines(s: AsciiScan, w: Seq<Seq<char>>)
    ensures
        w.len() >= 5 && w[0] == facet_word() && w[1] == normal_word() ==> scan_step(s, w) == (
        AsciiScan { normal: Some(seq![w[2], w[3], w[4]]), pending: s.pending, facets: s.facets }),
        w.len() >= 4 && w[0] == vertex_word() && s.pending.len() < 2 ==> scan_step(s, w) == (
        AsciiScan { normal: s.normal, pending: s.pending.push(seq![w[1], w[2], w[3]]), facets: s.facets }),
        w.len() >= 4 && w[0] == vertex_word() && s.pending.len() == 2 ==> scan_step(s, w) == (
        AsciiScan {
            normal: s.normal,
            pending: seq![],
            facets: s.facets.push((s.normal, s.pending.push(seq![w[1], w[2], w[3]]))),
        }),
        !(w.len() >= 5 && w[0] == facet_word()) && !(w.len() >= 4 && w[0] == vertex_word())
            ==> scan_step(s, w) == s,
{
    if w.len() >= 5 {
        assert(w.subrange(2, 5) =~= seq![w[2], w[3], w[4]]);
    }
    if w.len() >= 4 {
        assert(w.subrange(1, 4) =~= seq![w[1], w[2], w[3]]);
        if w[0] == vertex_word() {
            assert(w[0][0] == 'v');
            assert(facet_word()[0] == 'f');
        }
    }
}

/// Whether a scanned facet is a triangle: three corners of three
/// coordinates each, and a normal of three coordinates if it has one.
pub open spec fn is_triangle(f: (Option<Seq<Seq<char>>>, Seq<Seq<Seq<char>>>)) -> bool {
    &&& (f.0 matches Some(n) ==> n.len() == 3)
    &&& f.1.len() == 3
    &&& forall|k: int| 0 <= k < 3 ==> (#[trigger] f.1[k]).len() == 3
}

/// Whether a scan is in shape: a normal of three coordinates, fewer than
/// three pending vertices of three coordinates each, and triangles only.
pub open spec fn scan_in_shape(s: AsciiScan) -> bool {
    &&& (s.normal matches Some(n) ==> n.len() == 3)
    &&& s.pending.len() < 3
    &&& forall|k: int| 0 <= k < s.pending.len() ==> (#[trigger] s.pending[k]).len() == 3
    &&& forall|k: int| 0 <= k < s.facets.len() ==> is_triangle(#[trigger] s.facets[k])
}

proof fn lemma_scan_stays_in_shape(lines: Seq<Seq<char>>)
    ensures
        scan_in_shape(scan_lines(lines)),
    decreases lines.len(),
{
    if lines.len() > 0 {
        lemma_scan_stays_in_shape(lines.drop_last());
        let s = scan_lines(lines.drop_last());
        let w = words(lines.last());
        if w.len() >= 4 && w[0] == vertex_word() && !(w.len() >= 5 && w[0] == facet_word() && w[1]
            == normal_word()) {
            let p = s.pending.push(w.subrange(1, 4));
            if p.len() == 3 {
                let f = (s.normal, p);
                assert(is_triangle(f)) by {
                    assert forall|k: int| 0 <= k < 3 implies (#[trigger] f.1[k]).len() == 3 by {
                        if k < 2 {
                            assert(p[k] == s.pending[k]);
                        }
                    }
                }
                let t = s.facets.push(f);
                assert forall|k: int| 0 <= k < t.len() implies is_triangle(#[trigger] t[k]) by {
                    if k < s.facets.len() {
                        assert(t[k] == s.facets[k]);
                    }
                }
            } else {
                assert forall|k: int| 0 <= k < p.len() implies (#[trigger] p[k]).len() == 3 by {
                    if k < s.pending.len() {
                        assert(p[k] == s.pending[k]);
                    }
                }
            }
        }
    }
}

/// Every facet of an ASCII STL text is a triangle: three corners of three
/// coordinates, and a normal of three coordinates when there is one.
pub proof fn lemma_ascii_facets_are_triangles(text: Seq<char>)
    ensures
        forall|k: int| 0 <= k < ascii_facets(text).len() ==> is_triangle(#[trigger] ascii_facets(text)[k]),
{
    lemma_scan_stays_in_shape(split_on(text, '\n'));
}

/// The number that four bytes from `at` on hold, least significant first,
/// as `u32::from_le_bytes` reads it.
pub open spec fn le_u32(b: Seq<u8>, at: int) -> nat {
    b[at] as nat + 256 * (b[at + 1] as nat) + 65536 * (b[at + 2] as nat) + 16777216 * (
    b[at + 3] as nat)
}

/// The number of facet records a binary STL file announces.
pub open spec fn announced(b: Seq<u8>) -> nat {
    le_u32(b, 80)
}

/// The facets of a binary STL file that are read: as many as announced,
/// or as many whole 50-byte records as follow the header, if fewer.
pub open spec fn binary_count(b: Seq<u8>) -> nat {
    let whole = ((b.len() - 84) / 50) as nat;
    if announced(b) < whole {
        announced(b)
    } else {
        whole
    }
}

/// The twelve 32-bit words of facet record `t` (the normal, then the three
/// vertices, three coordinates each).
pub open spec fn binary_record(b: Seq<u8>, t: int) -> Seq<u32> {
    Seq::new(12, |k: int| le_u32(b, 84 + 50 * t + 4 * k) as u32)
}

/// The facets of a binary STL file.
pub open spec fn binary_facets(b: Seq<u8>) -> Seq<Seq<u32>> {
    Seq::new(binary_count(b), |t: int| binary_record(b, t))
}

/// Binary facet records follow the 84-byte header 50 bytes apart (a normal
/// and three vertices of three little-endian 32-bit words each, then two
/// attribute bytes): word `k` of facet `t` is the number at byte
/// `84 + 50 t + 4 k`, and every word read lies inside the file.
pub proof fn lemma_binary_records_are_50_bytes_apart(b: Seq<u8>)
    requires
        b.len() >= 84,
    ensures
        forall|t: int, k: int|
            0 <= t < binary_facets(b).len() && 0 <= k < 12 ==> (#[trigger] binary_facets(b)[t][k]) as nat
                == le_u32(b, 84 + 50 * t + 4 * k),
        forall|t: int, k: int|
            0 <= t < binary_facets(b).len() && 0 <= k < 12 ==> 84 + 50 * t + 4 * k + 4 <= b.len()
                && #[trigger] binary_facets(b)[t][k] == binary_facets(b)[t][k],
        binary_facets(b).len() <= announced(b),
        84 + 50 * binary_facets(b).len() <= b.len(),
{
    let n = binary_count(b);
    assert(84 + 50 * n <= b.len()) by (nonlinear_arith)
        requires
            n <= (b.len() - 84) / 50,
            b.len() >= 84,
    ;
    assert forall|t: int, k: int| 0 <= t < binary_facets(b).len() && 0 <= k < 12 implies (
    #[trigger] binary_facets(b)[t][k]) as nat == le_u32(b, 84 + 50 * t + 4 * k) by {
        assert(le_u32(b, 84 + 50 * t + 4 * k) < 4294967296) by {
            let at = 84 + 50 * t + 4 * k;
            assert(b[at] < 256 && b[at + 1] < 256 && b[at + 2] < 256 && b[at + 3] < 256);
        }
    }
    assert forall|t: int, k: int| 0 <= t < binary_facets(b).len() && 0 <= k < 12 implies 84 + 50 * t
        + 4 * k + 4 <= b.len() && #[trigger] binary_facets(b)[t][k] == binary_facets(b)[t][k] by {
        assert(84 + 50 * t + 50 <= 84 + 50 * n) by (nonlinear_arith)
            requires
                t < n,
        ;
    }
}

/// Whether the file is exactly as long as the binary layout with the
/// announced count: then it is binary, whatever its header says.
pub open spec fn binary_size_matches(b: Seq<u8>) -> bool {
    b.len() >= 84 && b.len() == 84 + 50 * announced(b)
}

/// Whether the header, read as text, starts with `solid` after any white
/// space.
pub open spec fn header_says_solid(b: Seq<u8>) -> bool {
    begins_with(trim_start(lossy_decoded(b.take(80))), solid_word())
}

/// Whether an STL file (of at least 80 bytes) is read as ASCII.
pub open spec fn looks_ascii(b: Seq<u8>) -> bool {
    !binary_size_matches(b) && header_says_solid(b)
}

/// A file exactly as long as the binary layout with its announced count is
/// read as binary, even when its header starts with `solid`.
pub proof fn lemma_binary_size_wins(b: Seq<u8>)
    requires
        binary_size_matches(b),
    ensures
        !looks_ascii(b),
{
}

/// The facets of an STL file, in the form its layout gives them.
pub enum StlFacets {
    /// Binary facets: twelve words each, the bits of the normal's and the
    /// vertices' `f32` coordinates.
    Binary(Vec<[u32; 12]>),
    /// ASCII facets, as words.
    Ascii(Vec<TextFacet>),
}

/// Read a little-endian `u32` at `at`.
fn read_le_u32(b: &[u8], at: usize) -> (r: u32)
    requires
        at + 4 <= b@.len(),
    ensures
        r == le_u32(b@, at as int),
{
    (b[at] as u32) + (b[at + 1] as u32) * 256 + (b[at + 2] as u32) * 65536 + (b[at + 3] as u32)
        * 16777216
}

/// The facets of a binary STL file; `Io(UnexpectedEof)` when it is too
/// short to hold the header and the count.
pub fn parse_stl_binary(b: &[u8]) -> (r: Result<Vec<[u32; 12]>, Error>)
    ensures
        b@.len() < 84 <==> r is Err,
        r is Err ==> r matches Err(Error::Io(IoFailure::UnexpectedEof)),
        r matches Ok(v) ==> v@.len() == binary_facets(b@).len() && forall|t: int|
            0 <= t < v@.len() ==> (#[trigger] v@[t])@ == binary_facets(b@)[t],
        r matches Ok(v) ==> forall|t: int, k: int|
            0 <= t < v@.len() && 0 <= k < 12 ==> (#[trigger] v@[t]@[k]) as nat == le_u32(
                b@,
                84 + 50 * t + 4 * k,
            ),
{
    proof {
        if b@.len() >= 84 {
            lemma_binary_records_are_50_bytes_apart(b@);
        }
    }
    if b.len() < 84 {
        return Err(Error::Io(IoFailure::UnexpectedEof));
    }
    let count = read_le_u32(b, 80);
    let whole: usize = (b.len() - 84) / 50;
    let n: usize = if (count as u64) < (whole as u64) {
        count as usize
    } else {
        whole
    };
    assert(n == binary_count(b@));
    let mut out: Vec<[u32; 12]> = Vec::new();
    let mut t: usize = 0;
    while t < n
        invariant
            t <= n,
            n == binary_count(b@),
            n <= (b@.len() - 84) / 50,
            b@.len() >= 84,
            b@.len() == b.len(),
            out@.len() == t,
            forall|j: int| 0 <= j < t ==> (#[trigger] out@[j])@ == binary_facets(b@)[j],
        decreases n - t,
    {
        assert(84 + 50 * t + 50 <= b@.len()) by (nonlinear_arith)
            requires
                t < n,
                n <= (b@.len() - 84) / 50,
        ;
        let at: usize = 84 + 50 * t;
        let rec = [
            read_le_u32(b, at),
            read_le_u32(b, at + 4),
            read_le_u32(b, at + 8),
            read_le_u32(b, at + 12),
            read_le_u32(b, at + 16),
            read_le_u32(b, at + 20),
            read_le_u32(b, at + 24),
            read_le_u32(b, at + 28),
            read_le_u32(b, at + 32),
            read_le_u32(b, at + 36),
            read_le_u32(b, at + 40),
            read_le_u32(b, at + 44),
        ];
        assert(rec@ =~= binary_record(b@, t as int));
        out.push(rec);
        t = t + 1;
    }
    Ok(out)
}

/// Copy a word.
fn copy_word(w: &Vec<char>) -> (r: Vec<char>)
    ensures
        r@ == w@,
{
    let mut out: Vec<char> = Vec::new();
    let mut i: usize = 0;
    while i < w.len()
        invariant
            i <= w@.len(),
            out@ == w@.take(i as int),
        decreases w@.len() - i,
    {
        out.push(w[i]);
        assert(w@.take(i + 1) =~= w@.take(i as int).push(w@[i as int]));
        i = i + 1;
    }
    assert(w@.take(w@.len() as int) =~= w@);
    out
}

/// Copy a list of words.
fn copy_words(v: &Vec<Vec<char>>) -> (r: Vec<Vec<char>>)
    ensures
        word_seq(r@) == word_seq(v@),
{
    let mut out: Vec<Vec<char>> = Vec::new();
    let mut i: usize = 0;
    while i < v.len()
        invariant
            i <= v@.len(),
            word_seq(out@) == word_seq(v@.take(i as int)),
        decreases v@.len() - i,
    {
        let ghost prev = out@;
        out.push(copy_word(&v[i]));
        assert(word_seq(v@.take(i + 1)) =~= word_seq(v@.take(i as int)).push(v@[i as int]@));
        assert(word_seq(out@) =~= word_seq(prev).push(v@[i as int]@));
        i = i + 1;
    }
    assert(v@.take(v@.len() as int) =~= v@);
    out
}

/// Whether a word is the given keyword.
fn is_keyword(w: &Vec<char>, k: &[char]) -> (r: bool)
    ensures
        r == (w@ == k@),
{
    if w.len() != k.len() {
        return false;
    }
    let r = starts_with(w.as_slice(), k);
    assert(w@.take(k@.len() as int) =~= w@);
    r
}

/// Remove three words from position `at` on.
fn take_three(w: &mut Vec<Vec<char>>, at: usize) -> (r: Vec<Vec<char>>)
    requires
        at + 3 <= old(w)@.len(),
    ensures
        word_seq(r@) == word_seq(old(w)@).subrange(at as int, at + 3),
{
    let ghost before = w@;
    let a = w.remove(at);
    let b = w.remove(at);
    let c = w.remove(at);
    let mut r: Vec<Vec<char>> = Vec::new();
    r.push(a);
    r.push(b);
    r.push(c);
    assert(word_seq(r@) =~= word_seq(before).subrange(at as int, at + 3));
    r
}

/// The facets of an ASCII STL text.
pub fn parse_stl_text(text: &[char]) -> (r: Vec<TextFacet>)
    ensures
        r@.map_values(|f: TextFacet| f@) == ascii_facets(text@),
{
    let lines = split_at_char(text, '\n');
    let ghost ls = split_on(text@, '\n');
    let facet_kw = ['f', 'a', 'c', 'e', 't'];
    let normal_kw = ['n', 'o', 'r', 'm', 'a', 'l'];
    let vertex_kw = ['v', 'e', 'r', 't', 'e', 'x'];
    assert(facet_kw@ =~= facet_word());
    assert(normal_kw@ =~= normal_word());
    assert(vertex_kw@ =~= vertex_word());
    let mut normal: Option<Vec<Vec<char>>> = None;
    let mut pending: Vec<Vec<Vec<char>>> = Vec::new();
    let mut facets: Vec<TextFacet> = Vec::new();
    let mut i: usize = 0;
    while i < lines.len()
        invariant
            i <= lines@.len(),
            lines@.len() == ls.len(),
            forall|k: int| 0 <= k < lines@.len() ==> (#[trigger] lines@[k])@ == ls[k],
            facet_kw@ == facet_word(),
            normal_kw@ == normal_word(),
            vertex_kw@ == vertex_word(),
            ({
                let s = scan_lines(ls.take(i as int));
                &&& match normal {
                    Some(n) => s.normal == Some(word_seq(n@)),
                    None => s.normal is None,
                }
                &&& pending@.map_values(|c: Vec<Vec<char>>| word_seq(c@)) == s.pending
                &&& facets@.map_values(|f: TextFacet| f@) == s.facets
            }),
        decreases lines@.len() - i,
    {
        let ghost s0 = scan_lines(ls.take(i as int));
        assert(ls.take(i + 1).drop_last() =~= ls.take(i as int));
        assert(ls.take(i + 1).last() == ls[i as int]);
        let mut w = split_words(lines[i].as_slice());
        let ghost ws = words(ls[i as int]);
        assert(word_seq(w@) =~= ws);
        if w.len() >= 5 && is_keyword(&w[0], &facet_kw) && is_keyword(&w[1], &normal_kw) {
            assert(ws[0] == w@[0]@ && ws[1] == w@[1]@);
            let n = take_three(&mut w, 2);
            normal = Some(n);
        } else if w.len() >= 4 && is_keyword(&w[0], &vertex_kw) {
            assert(ws[0] == w@[0]@);
            assert(!(ws.len() >= 5 && ws[0] == facet_word() && ws[1] == normal_word())) by {
                if ws.len() >= 5 && ws[0] == facet_word() {
                    assert(ws[0][0] == 'v');
                }
            }
            let corner = take_three(&mut w, 1);
            let ghost before = pending@;
            pending.push(corner);
            assert(pending@.map_values(|c: Vec<Vec<char>>| word_seq(c@)) =~= s0.pending.push(
                ws.subrange(1, 4),
            )) by {
                assert(before.map_values(|c: Vec<Vec<char>>| word_seq(c@)) == s0.pending);
            }
            if pending.len() == 3 {
                let corners = pending;
                pending = Vec::new();
                let n = match &normal {
                    Some(v) => Some(copy_words(v)),
                    None => None,
                };
                let f = TextFacet { normal: n, corners };
                let ghost fb = facets@;
                facets.push(f);
                assert(facets@.map_values(|f: TextFacet| f@) =~= fb.map_values(|f: TextFacet| f@).push(f@));
                assert(pending@.map_values(|c: Vec<Vec<char>>| word_seq(c@)) =~= Seq::<Seq<Seq<char>>>::empty());
            }
        } else {
            assert(!(ws.len() >= 5 && ws[0] == facet_word() && ws[1] == normal_word())) by {
                if ws.len() >= 5 && ws[0] == facet_word() && ws[1] == normal_word() {
                    assert(w@[0]@ == ws[0]);
                    assert(w@[1]@ == ws[1]);
                }
            }
            assert(!(ws.len() >= 4 && ws[0] == vertex_word())) by {
                if ws.len() >= 4 && ws[0] == vertex_word() {
                    assert(w@[0]@ == ws[0]);
                }
            }
        }
        i = i + 1;
    }
    assert(ls.take(ls.len() as int) =~= ls);
    facets
}

/// The facets of an STL file of any layout, or why there are none.
///
/// A file of the binary size for its announced count is binary; else a
/// header that reads `solid` marks ASCII; else it is binary.
pub fn read_stl(b: &[u8]) -> (r: Result<StlFacets, Error>)
    ensures
        b@.len() < 80 ==> r matches Err(Error::Io(IoFailure::UnexpectedEof)),
        b@.len() >= 80 && looks_ascii(b@) && !valid_utf8(b@) ==> r matches Err(
            Error::Io(IoFailure::InvalidUtf8),
        ),
        b@.len() >= 80 && looks_ascii(b@) && valid_utf8(b@) ==> {
            let facets = ascii_facets(decode_utf8(b@));
            &&& facets.len() == 0 ==> (r matches Err(Error::InvalidData(m)) && m@
                == "no triangles found in STL file"@)
            &&& facets.len() > 0 ==> (r matches Ok(StlFacets::Ascii(v)) && v@.map_values(
                |f: TextFacet| f@,
            ) == facets)
        },
        b@.len() >= 80 && !looks_ascii(b@) && b@.len() < 84 ==> r matches Err(
            Error::Io(IoFailure::UnexpectedEof),
        ),
        b@.len() >= 84 && !looks_ascii(b@) ==> {
            let facets = binary_facets(b@);
            &&& facets.len() == 0 ==> (r matches Err(Error::InvalidData(m)) && m@
                == "no triangles found in STL file"@)
            &&& facets.len() > 0 ==> (r matches Ok(StlFacets::Binary(v)) && v@.len() == facets.len()
                && forall|t: int| 0 <= t < v@.len() ==> (#[trigger] v@[t])@ == facets[t])
        },
        r matches Ok(StlFacets::Binary(v)) ==> forall|t: int, k: int|
            0 <= t < v@.len() && 0 <= k < 12 ==> (#[trigger] v@[t]@[k]) as nat == le_u32(
                b@,
                84 + 50 * t + 4 * k,
            ),
{
    proof {
        if b@.len() >= 84 {
            lemma_binary_records_are_50_bytes_apart(b@);
        }
    }
    if b.len() < 80 {
        return Err(Error::Io(IoFailure::UnexpectedEof));
    }
    let mut size_matches = false;
    if b.len() >= 84 {
        let count = read_le_u32(b, 80) as u64;
        size_matches = (b.len() as u64) == 84 + 50 * count;
    }
    let header = lossy_chars(&b[0..80]);
    assert(b@.subrange(0, 80) =~= b@.take(80));
    let start = leading_space(header.as_slice());
    let rest = slice_from(header.as_slice(), start);
    let solid = ['s', 'o', 'l', 'i', 'd'];
    assert(solid@ =~= solid_word());
    let says_solid = starts_with(rest.as_slice(), &solid);
    if !size_matches && says_solid {
        match utf8_chars(b) {
            None => Err(Error::Io(IoFailure::InvalidUtf8)),
            Some(text) => {
                let facets = parse_stl_text(text.as_slice());
                if facets.len() == 0 {
                    Err(Error::InvalidData("no triangles found in STL file".to_owned()))
                } else {
                    Ok(StlFacets::Ascii(facets))
                }
            },
        }
    } else {
        match parse_stl_binary(b) {
            Err(e) => Err(e),
            Ok(facets) => {
                if facets.len() == 0 {
                    Err(Error::InvalidData("no triangles found in STL file".to_owned()))
                } else {
                    Ok(StlFacets::Binary(facets))
                }
            },
        }
    }
}

/// The characters of `s` from `start` on.
fn slice_from(s: &[char], start: usize) -> (r: Vec<char>)
    requires
        start <= s@.len(),
    ensures
        r@ == s@.subrange(start as int, s@.len() as int),
{
    let mut out: Vec<char> = Vec::new();
    let mut i: usize = start;
    while i < s.len()
        invariant
            start <= i <= s@.len(),
            out@ == s@.subrange(start as int, i as int),
        decreases s@.len() - i,
    {
        out.push(s[i]);
        assert(s@.subrange(start as int, i + 1) =~= s@.subrange(start as int, i as int).push(s@[i as int]));
        i = i + 1;
    }
    out
}


/// One model of an OBJ file as the decoder gives it: its corner indices,
/// three to a triangle, and how many position and normal coordinates it
/// has (three to a vertex).
pub struct ObjModel {
    pub indices: Vec<u32>,
    pub position_len: usize,
    pub normal_len: usize,
}

impl View for ObjModel {
    type V = (Seq<u32>, nat, nat);

    open spec fn view(&self) -> (Seq<u32>, nat, nat) {
        (self.indices@, self.position_len as nat, self.normal_len as nat)
    }
}

/// A triangle of an OBJ file: the model it belongs to, the indices of its
/// three corners, and whether the model gives a normal for each corner.
pub struct ObjFace {
    pub model: usize,
    pub corners: [u32; 3],
    pub has_normals: bool,
}

impl View for ObjFace {
    type V = (nat, Seq<u32>, bool);

    open spec fn view(&self) -> (nat, Seq<u32>, bool) {
        (self.model as nat, self.corners@, self.has_normals)
    }
}

/// Whether a model with `normal_len` normal coordinates has a normal for
/// vertex `i`.
pub open spec fn has_normal(i: u32, normal_len: nat) -> bool {
    3 * i + 3 <= normal_len
}

/// The triangles of model number `k`: each whole group of three indices;
/// an incomplete group at the end is dropped.
pub open spec fn model_faces(k: nat, m: (Seq<u32>, nat, nat)) -> Seq<(nat, Seq<u32>, bool)> {
    Seq::new(
        m.0.len() / 3,
        |t: int|
            (
                k,
                m.0.subrange(3 * t, 3 * t + 3),
                has_normal(m.0[3 * t], m.2) && has_normal(m.0[3 * t + 1], m.2) && has_normal(
                    m.0[3 * t + 2],
                    m.2,
                ),
            ),
    )
}

/// The triangles of all models, model by model.
pub open spec fn all_faces(models: Seq<(Seq<u32>, nat, nat)>) -> Seq<(nat, Seq<u32>, bool)>
    decreases models.len(),
{
    if models.len() == 0 {
        seq![]
    } else {
        all_faces(models.drop_last()) + model_faces((models.len() - 1) as nat, models.last())
    }
}

/// Group the OBJ models' index lists into triangles; `InvalidData` when
/// there are none.
pub fn obj_faces(models: &Vec<ObjModel>) -> (r: Result<Vec<ObjFace>, Error>)
    ensures
        ({
            let faces = all_faces(models@.map_values(|m: ObjModel| m@));
            &&& faces.len() == 0 ==> (r matches Err(Error::InvalidData(m)) && m@
                == "no triangles found in OBJ file"@)
            &&& faces.len() > 0 ==> (r matches Ok(v) && v@.map_values(|f: ObjFace| f@) == faces)
        }),
{
    let ghost ms = models@.map_values(|m: ObjModel| m@);
    let mut out: Vec<ObjFace> = Vec::new();
    let mut k: usize = 0;
    while k < models.len()
        invariant
            k <= models@.len(),
            ms == models@.map_values(|m: ObjModel| m@),
            out@.map_values(|f: ObjFace| f@) == all_faces(ms.take(k as int)),
        decreases models@.len() - k,
    {
        let model = &models[k];
        let ghost m = model@;
        assert(ms.take(k + 1).drop_last() =~= ms.take(k as int));
        assert(ms.take(k + 1).last() == m);
        let ghost prefix = out@.map_values(|f: ObjFace| f@);
        let groups = model.indices.len() / 3;
        let mut t: usize = 0;
        while t < groups
            invariant
                t <= groups,
                k < models@.len(),
                groups == m.0.len() / 3,
                model.indices@ == m.0,
                model.indices@.len() == model.indices.len(),
                m == models@[k as int]@,
                *model == models@[k as int],
                out@.map_values(|f: ObjFace| f@) == prefix + model_faces(k as nat, m).take(t as int),
            decreases groups - t,
        {
            assert(3 * t + 3 <= model.indices@.len());
            let a = model.indices[3 * t];
            let b = model.indices[3 * t + 1];
            let c = model.indices[3 * t + 2];
            let n = model.normal_len as u64;
            let has_normals = 3 * (a as u64) + 3 <= n && 3 * (b as u64) + 3 <= n && 3 * (c as u64) + 3
                <= n;
            let face = ObjFace { model: k, corners: [a, b, c], has_normals };
            assert(face.corners@ =~= m.0.subrange(3 * t, 3 * t + 3));
            let ghost before = out@;
            out.push(face);
            assert(out@.map_values(|f: ObjFace| f@) =~= before.map_values(|f: ObjFace| f@).push(face@));
            assert(model_faces(k as nat, m).take(t + 1) =~= model_faces(k as nat, m).take(t as int).push(
                face@,
            ));
            t = t + 1;
        }
        assert(model_faces(k as nat, m).take(groups as int) =~= model_faces(k as nat, m));
        k = k + 1;
    }
    assert(ms.take(models@.len() as int) =~= ms);
    if out.len() == 0 {
        Err(Error::InvalidData("no triangles found in OBJ file".to_owned()))
    } else {
        Ok(out)
    }
}

/// The kinds of file that can be loaded.
#[derive(Debug, Clone, Copy, PartialEq, Eq, Structural)]
pub enum FileKind {
    Obj,
    Stl,
    Gif,
}

/// The text that `str::to_lowercase` makes of a string.
pub uninterp spec fn lowercased(s: Seq<char>) -> Seq<char>;

/// Lowercases a string with `str::to_lowercase`. Claimed: the result is
/// `lowercased` of the string.
#[verifier::external_body]
fn to_lowercase(s: &str) -> (r: String)
    ensures
        r@ == lowercased(s@),
{
    s.to_lowercase()
}

/// The kind of file a lowercase extension names.
pub open spec fn kind_named(ext: Seq<char>) -> Option<FileKind> {
    if ext == seq!['o', 'b', 'j'] {
        Some(FileKind::Obj)
    } else if ext == seq!['s', 't', 'l'] {
        Some(FileKind::Stl)
    } else if ext == seq!['g', 'i', 'f'] {
        Some(FileKind::Gif)
    } else {
        None
    }
}

/// Whether the characters `s` spell the word `w`.
fn spells(s: &[char], w: &[char]) -> (r: bool)
    ensures
        r == (s@ == w@),
{
    if s.len() != w.len() {
        return false;
    }
    let r = starts_with(s, w);
    assert(s@.take(w@.len() as int) =~= s@);
    r
}

/// The kind of file an extension names, whatever its case.
pub fn file_kind(ext: &str) -> (r: Option<FileKind>)
    ensures
        r == kind_named(lowercased(ext@)),
{
    let lower = to_lowercase(ext);
    let c = crate::text::chars_of(lower.as_str());
    let obj = ['o', 'b', 'j'];
    let stl = ['s', 't', 'l'];
    let gif = ['g', 'i', 'f'];
    assert(obj@ =~= seq!['o', 'b', 'j']);
    assert(stl@ =~= seq!['s', 't', 'l']);
    assert(gif@ =~= seq!['g', 'i', 'f']);
    if spells(c.as_slice(), &obj) {
        Some(FileKind::Obj)
    } else if spells(c.as_slice(), &stl) {
        Some(FileKind::Stl)
    } else if spells(c.as_slice(), &gif) {
        Some(FileKind::Gif)
    } else {
        None
    }
}

/// The mesh format an extension names: OBJ or STL, whatever the case;
/// anything else is `UnsupportedFormat` with the lowercased extension.
pub fn mesh_format(ext: &str) -> (r: Result<FileKind, Error>)
    ensures
        kind_named(lowercased(ext@)) == Some(FileKind::Obj) ==> r matches Ok(FileKind::Obj),
        kind_named(lowercased(ext@)) == Some(FileKind::Stl) ==> r matches Ok(FileKind::Stl),
        !(kind_named(lowercased(ext@)) == Some(FileKind::Obj) || kind_named(lowercased(ext@)) == Some(
            FileKind::Stl,
        )) ==> (r matches Err(Error::UnsupportedFormat(m)) && m@ == lowercased(ext@)),
{
    match file_kind(ext) {
        Some(FileKind::Obj) => Ok(FileKind::Obj),
        Some(FileKind::Stl) => Ok(FileKind::Stl),
        _ => Err(Error::UnsupportedFormat(to_lowercase(ext))),
    }
}

} // verus!
