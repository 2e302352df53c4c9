//! The hydration codec: a bit-exact, lossless encoding of page data into
//! text that can sit verbatim inside one markup attribute.
//!
//! Encoding goes in two steps: a canonical byte serialization of the page
//! value (little-endian lengths and character code points, fixed field
//! order), then lowercase hexadecimal, whose alphabet is URL-safe,
//! attribute-safe and padding-free. Decoding is the exact inverse and fails
//! on any text that is not the encoding of some page value. An empty page
//! still encodes to a non-empty token, so "present but empty" and "absent"
//! stay distinguishable.

use vstd::bytes::{
    lemma_auto_spec_u32_to_from_le_bytes, lemma_auto_spec_u64_to_from_le_bytes,
    spec_u32_from_le_bytes, spec_u32_to_le_bytes, spec_u64_from_le_bytes, spec_u64_to_le_bytes,
    u32_from_le_bytes, u32_to_le_bytes, u64_from_le_bytes, u64_to_le_bytes,
};
use vstd::prelude::*;
use vstd::slice::slice_subrange;
use vstd::utf8::is_scalar;

use crate::model::{PasteSummary, SummaryView, UserPage, UserPageView};
use crate::text::{chars_string, str_chars};

verus! {

// ---------------------------------------------------------------------------
// Canonical byte serialization (spec)
// ---------------------------------------------------------------------------
/// Eight little-endian bytes.
pub open spec fn ser_u64(n: u64) -> Seq<u8> {
    spec_u64_to_le_bytes(n)
}

/// One character: its code point as four little-endian bytes.
pub open spec fn ser_char(c: char) -> Seq<u8> {
    spec_u32_to_le_bytes(c as u32)
}

/// The characters of a string, in order, without a length.
pub open spec fn ser_chars_body(s: Seq<char>) -> Seq<u8>
    decreases s.len(),
{
    if s.len() == 0 {
        seq![]
    } else {
        ser_char(s[0]) + ser_chars_body(s.drop_first())
    }
}

/// A string: its character count, then its characters.
pub open spec fn ser_chars(s: Seq<char>) -> Seq<u8> {
    ser_u64(s.len() as u64) + ser_chars_body(s)
}

/// An optional string: a presence tag, then the string if present.
pub open spec fn ser_opt_chars(o: Option<Seq<char>>) -> Seq<u8> {
    match o {
        None => seq![0u8],
        Some(s) => seq![1u8] + ser_chars(s),
    }
}

/// One paste summary, fields in declaration order.
pub open spec fn ser_summary(s: SummaryView) -> Seq<u8> {
    ser_chars(s.id) + ser_opt_chars(s.user) + ser_chars(s.title) + ser_chars(s.ascendancy_or_class)
        + ser_chars(s.version) + ser_chars(s.main_skill_name) + ser_u64(s.last_modified)
}

/// A list of summaries, in order, without a count.
pub open spec fn ser_summaries(l: Seq<SummaryView>) -> Seq<u8>
    decreases l.len(),
{
    if l.len() == 0 {
        seq![]
    } else {
        ser_summary(l[0]) + ser_summaries(l.drop_first())
    }
}

/// A whole page: the user's name, the summary count, then the summaries.
pub open spec fn ser_page(v: UserPageView) -> Seq<u8> {
    ser_chars(v.name) + ser_u64(v.pastes.len() as u64) + ser_summaries(v.pastes)
}

/// Every string in `s` fits the on-wire count fields. Holds of the view of
/// every executable [`PasteSummary`].
pub open spec fn bounded_summary(s: SummaryView) -> bool {
    &&& s.id.len() < 0x1_0000_0000_0000_0000
    &&& (s.user matches Some(u) ==> u.len() < 0x1_0000_0000_0000_0000)
    &&& s.title.len() < 0x1_0000_0000_0000_0000
    &&& s.ascendancy_or_class.len() < 0x1_0000_0000_0000_0000
    &&& s.version.len() < 0x1_0000_0000_0000_0000
    &&& s.main_skill_name.len() < 0x1_0000_0000_0000_0000
}

/// Every length in `v` fits the on-wire count fields. Holds of the view of
/// every executable [`UserPage`].
pub open spec fn bounded_page(v: UserPageView) -> bool {
    &&& v.name.len() < 0x1_0000_0000_0000_0000
    &&& v.pastes.len() < 0x1_0000_0000_0000_0000
    &&& forall|i: int| 0 <= i < v.pastes.len() ==> bounded_summary(#[trigger] v.pastes[i])
}

// ---------------------------------------------------------------------------
// Serialization helper lemmas
// ---------------------------------------------------------------------------
/// Appending one character extends the body serialization at the end.
pub proof fn lemma_ser_chars_body_snoc(s: Seq<char>, c: char)
    ensures
        ser_chars_body(s.push(c)) == ser_chars_body(s) + ser_char(c),
    decreases s.len(),
{
    lemma_auto_spec_u32_to_from_le_bytes();
    if s.len() == 0 {
        reveal_with_fuel(ser_chars_body, 2);
        assert(s.push(c)[0] == c);
        assert(s.push(c).drop_first() =~= Seq::<char>::empty());
        assert(ser_chars_body(s.push(c)) =~= ser_char(c));
        assert(ser_chars_body(s) + ser_char(c) =~= ser_char(c));
    } else {
        assert(s.push(c).drop_first() =~= s.drop_first().push(c));
        lemma_ser_chars_body_snoc(s.drop_first(), c);
        assert(ser_chars_body(s.push(c)) =~= ser_chars_body(s) + ser_char(c));
    }
}

/// Appending one summary extends the list serialization at the end.
pub proof fn lemma_ser_summaries_snoc(l: Seq<SummaryView>, s: SummaryView)
    ensures
        ser_summaries(l.push(s)) == ser_summaries(l) + ser_summary(s),
    decreases l.len(),
{
    lemma_auto_spec_u32_to_from_le_bytes();
    lemma_auto_spec_u64_to_from_le_bytes();
    if l.len() == 0 {
        reveal_with_fuel(ser_summaries, 2);
        assert(l.push(s)[0] == s);
        assert(l.push(s).drop_first() =~= Seq::<SummaryView>::empty());
        assert(ser_summaries(l.push(s)) =~= ser_summary(s));
        assert(ser_summaries(l) + ser_summary(s) =~= ser_summary(s));
    } else {
        assert(l.push(s).drop_first() =~= l.drop_first().push(s));
        lemma_ser_summaries_snoc(l.drop_first(), s);
        assert(ser_summaries(l.push(s)) =~= ser_summaries(l) + ser_summary(s));
    }
}

// ---------------------------------------------------------------------------
// Canonical parser (spec)
// ---------------------------------------------------------------------------
/// Reads eight little-endian bytes at `pos`.
pub open spec fn p_u64(b: Seq<u8>, pos: int) -> Option<(u64, int)> {
    if 0 <= pos && pos + 8 <= b.len() {
        Some((spec_u64_from_le_bytes(b.subrange(pos, pos + 8)), pos + 8))
    } else {
        None
    }
}

/// Reads one character at `pos`: four little-endian bytes that must form a
/// Unicode scalar value.
pub open spec fn p_char(b: Seq<u8>, pos: int) -> Option<(char, int)> {
    if 0 <= pos && pos + 4 <= b.len() {
        let u = spec_u32_from_le_bytes(b.subrange(pos, pos + 4));
        if is_scalar(u) {
            Some((u as char, pos + 4))
        } else {
            None
        }
    } else {
        None
    }
}

/// Reads exactly `n` characters starting at `pos`.
pub open spec fn p_chars_n(b: Seq<u8>, pos: int, n: nat) -> Option<(Seq<char>, int)>
    decreases n,
{
    if n == 0 {
        Some((Seq::empty(), pos))
    } else {
        match p_char(b, pos) {
            None => None,
            Some((c, p1)) => match p_chars_n(b, p1, (n - 1) as nat) {
                None => None,
                Some((s, p2)) => Some((seq![c] + s, p2)),
            },
        }
    }
}

/// Reads a string at `pos`: its character count, then its characters.
pub open spec fn p_chars(b: Seq<u8>, pos: int) -> Option<(Seq<char>, int)> {
    match p_u64(b, pos) {
        None => None,
        Some((n, p1)) => p_chars_n(b, p1, n as nat),
    }
}

/// Reads an optional string at `pos`; only the tags `0` and `1` are valid.
pub open spec fn p_opt_chars(b: Seq<u8>, pos: int) -> Option<(Option<Seq<char>>, int)> {
    if 0 <= pos && pos < b.len() {
        if b[pos] == 0u8 {
            Some((None, pos + 1))
        } else if b[pos] == 1u8 {
            match p_chars(b, pos + 1) {
                None => None,
                Some((s, p1)) => Some((Some(s), p1)),
            }
        } else {
            None
        }
    } else {
        None
    }
}

/// Reads one paste summary at `pos`, fields in declaration order.
pub open spec fn p_summary(b: Seq<u8>, pos: int) -> Option<(SummaryView, int)> {
    match p_chars(b, pos) {
        None => None,
        Some((id, p1)) => match p_opt_chars(b, p1) {
            None => None,
            Some((user, p2)) => match p_chars(b, p2) {
                None => None,
                Some((title, p3)) => match p_chars(b, p3) {
                    None => None,
                    Some((asc, p4)) => match p_chars(b, p4) {
                        None => None,
                        Some((version, p5)) => match p_chars(b, p5) {
                            None => None,
                            Some((skill, p6)) => match p_u64(b, p6) {
                                None => None,
                                Some((lm, p7)) => Some(
                                    (
                                        SummaryView {
                                            id,
                                            user,
                                            title,
                                            ascendancy_or_class: asc,
                                            version,
                                            main_skill_name: skill,
                                            last_modified: lm,
                                        },
                                        p7,
                                    ),
                                ),
                            },
                        },
                    },
                },
            },
        },
    }
}

/// Reads exactly `n` paste summaries starting at `pos`.
pub open spec fn p_summaries(b: Seq<u8>, pos: int, n: nat) -> Option<(Seq<SummaryView>, int)>
    decreases n,
{
    if n == 0 {
        Some((Seq::empty(), pos))
    } else {
        match p_summary(b, pos) {
            None => None,
            Some((s, p1)) => match p_summaries(b, p1, (n - 1) as nat) {
                None => None,
                Some((l, p2)) => Some((seq![s] + l, p2)),
            },
        }
    }
}

/// Reads a whole page starting at `pos`.
pub open spec fn p_page_at(b: Seq<u8>, pos: int) -> Option<(UserPageView, int)> {
    match p_chars(b, pos) {
        None => None,
        Some((name, p1)) => match p_u64(b, p1) {
            None => None,
            Some((n, p2)) => match p_summaries(b, p2, n as nat) {
                None => None,
                Some((pastes, p3)) => Some((UserPageView { name, pastes }, p3)),
            },
        },
    }
}

/// What a byte sequence deserializes to: a whole page with nothing left
/// over, or nothing.
pub open spec fn p_page(b: Seq<u8>) -> Option<UserPageView> {
    match p_page_at(b, 0) {
        None => None,
        Some((v, p)) => if p == b.len() {
            Some(v)
        } else {
            None
        },
    }
}

// ---------------------------------------------------------------------------
// Parsing a serialization gives the value back (spec round trip)
// ---------------------------------------------------------------------------
/// Splits knowledge about a subrange equal to a concatenation into knowledge
/// about the two halves.
proof fn lemma_subrange_concat(b: Seq<u8>, pos: int, x: Seq<u8>, y: Seq<u8>)
    requires
        0 <= pos,
        pos + x.len() + y.len() <= b.len(),
        b.subrange(pos, pos + x.len() + y.len()) == x + y,
    ensures
        b.subrange(pos, pos + x.len()) == x,
        b.subrange(pos + x.len(), pos + x.len() + y.len()) == y,
{
    let whole = b.subrange(pos, pos + x.len() + y.len());
    assert forall|i: int| 0 <= i < x.len() implies b.subrange(pos, pos + x.len())[i] == x[i] by {
        assert(whole[i] == (x + y)[i]);
    }
    assert(b.subrange(pos, pos + x.len()) =~= x);
    assert forall|i: int| 0 <= i < y.len() implies b.subrange(
        pos + x.len(),
        pos + x.len() + y.len(),
    )[i] == y[i] by {
        assert(whole[x.len() + i] == (x + y)[x.len() + i]);
    }
    assert(b.subrange(pos + x.len(), pos + x.len() + y.len()) =~= y);
}

proof fn lemma_p_u64_at(b: Seq<u8>, pos: int, n: u64)
    requires
        0 <= pos,
        pos + 8 <= b.len(),
        b.subrange(pos, pos + 8) == ser_u64(n),
    ensures
        p_u64(b, pos) == Some((n, pos + 8)),
{
    lemma_auto_spec_u64_to_from_le_bytes();
}

proof fn lemma_p_char_at(b: Seq<u8>, pos: int, c: char)
    requires
        0 <= pos,
        pos + 4 <= b.len(),
        b.subrange(pos, pos + 4) == ser_char(c),
    ensures
        p_char(b, pos) == Some((c, pos + 4)),
{
    lemma_auto_spec_u32_to_from_le_bytes();
    vstd::utf8::char_is_scalar(c);
    vstd::utf8::char_u32_cast(c, c as u32);
    assert(spec_u32_to_le_bytes(c as u32).len() == 4);
    assert(spec_u32_from_le_bytes(spec_u32_to_le_bytes(c as u32)) == c as u32);
}

/// The serialized body of `s` has four bytes per character.
pub proof fn lemma_ser_chars_body_len(s: Seq<char>)
    ensures
        ser_chars_body(s).len() == 4 * s.len(),
    decreases s.len(),
{
    lemma_auto_spec_u32_to_from_le_bytes();
    if s.len() > 0 {
        lemma_ser_chars_body_len(s.drop_first());
    }
}

proof fn lemma_p_chars_n_at(b: Seq<u8>, pos: int, s: Seq<char>)
    requires
        0 <= pos,
        pos + 4 * s.len() <= b.len(),
        b.subrange(pos, pos + 4 * s.len()) == ser_chars_body(s),
    ensures
        p_chars_n(b, pos, s.len()) == Some((s, pos + 4 * s.len())),
    decreases s.len(),
{
    lemma_auto_spec_u32_to_from_le_bytes();
    if s.len() == 0 {
        assert(p_chars_n(b, pos, 0) == Some((Seq::<char>::empty(), pos)));
        assert(s =~= Seq::<char>::empty());
    } else {
        let rest = s.drop_first();
        lemma_ser_chars_body_len(rest);
        assert(ser_chars_body(s) == ser_char(s[0]) + ser_chars_body(rest));
        lemma_subrange_concat(b, pos, ser_char(s[0]), ser_chars_body(rest));
        lemma_p_char_at(b, pos, s[0]);
        lemma_p_chars_n_at(b, pos + 4, rest);
        assert(seq![s[0]] + rest =~= s);
    }
}

proof fn lemma_p_chars_at(b: Seq<u8>, pos: int, s: Seq<char>)
    requires
        0 <= pos,
        s.len() < 0x1_0000_0000_0000_0000,
        pos + 8 + 4 * s.len() <= b.len(),
        b.subrange(pos, pos + 8 + 4 * s.len()) == ser_chars(s),
    ensures
        p_chars(b, pos) == Some((s, pos + 8 + 4 * s.len())),
{
    lemma_auto_spec_u64_to_from_le_bytes();
    lemma_ser_chars_body_len(s);
    lemma_subrange_concat(b, pos, ser_u64(s.len() as u64), ser_chars_body(s));
    lemma_p_u64_at(b, pos, s.len() as u64);
    lemma_p_chars_n_at(b, pos + 8, s);
}

proof fn lemma_p_opt_chars_at(b: Seq<u8>, pos: int, o: Option<Seq<char>>)
    requires
        0 <= pos,
        (o matches Some(s) ==> s.len() < 0x1_0000_0000_0000_0000),
        pos + ser_opt_chars(o).len() <= b.len(),
        b.subrange(pos, pos + ser_opt_chars(o).len()) == ser_opt_chars(o),
    ensures
        p_opt_chars(b, pos) == Some((o, pos + ser_opt_chars(o).len())),
{
    lemma_auto_spec_u64_to_from_le_bytes();
    match o {
        None => {
            assert(b[pos] == ser_opt_chars(o)[0]);
        },
        Some(s) => {
            lemma_ser_chars_body_len(s);
            assert(ser_opt_chars(o) == seq![1u8] + ser_chars(s));
            lemma_subrange_concat(b, pos, seq![1u8], ser_chars(s));
            assert(b[pos] == b.subrange(pos, pos + 1)[0]);
            lemma_p_chars_at(b, pos + 1, s);
        },
    }
}

proof fn lemma_p_summary_at(b: Seq<u8>, pos: int, s: SummaryView)
    requires
        0 <= pos,
        bounded_summary(s),
        pos + ser_summary(s).len() <= b.len(),
        b.subrange(pos, pos + ser_summary(s).len()) == ser_summary(s),
    ensures
        p_summary(b, pos) == Some((s, pos + ser_summary(s).len())),
{
    let c1 = ser_chars(s.id);
    let c2 = ser_opt_chars(s.user);
    let c3 = ser_chars(s.title);
    let c4 = ser_chars(s.ascendancy_or_class);
    let c5 = ser_chars(s.version);
    let c6 = ser_chars(s.main_skill_name);
    let c7 = ser_u64(s.last_modified);
    assert(ser_summary(s) =~= c1 + (c2 + (c3 + (c4 + (c5 + (c6 + c7))))));
    lemma_subrange_concat(b, pos, c1, c2 + (c3 + (c4 + (c5 + (c6 + c7)))));
    let p1 = pos + c1.len();
    lemma_subrange_concat(b, p1, c2, c3 + (c4 + (c5 + (c6 + c7))));
    let p2 = p1 + c2.len();
    lemma_subrange_concat(b, p2, c3, c4 + (c5 + (c6 + c7)));
    let p3 = p2 + c3.len();
    lemma_subrange_concat(b, p3, c4, c5 + (c6 + c7));
    let p4 = p3 + c4.len();
    lemma_subrange_concat(b, p4, c5, c6 + c7);
    let p5 = p4 + c5.len();
    lemma_subrange_concat(b, p5, c6, c7);
    let p6 = p5 + c6.len();
    lemma_auto_spec_u64_to_from_le_bytes();
    lemma_ser_chars_body_len(s.id);
    lemma_ser_chars_body_len(s.title);
    lemma_ser_chars_body_len(s.ascendancy_or_class);
    lemma_ser_chars_body_len(s.version);
    lemma_ser_chars_body_len(s.main_skill_name);
    lemma_p_chars_at(b, pos, s.id);
    lemma_p_opt_chars_at(b, p1, s.user);
    lemma_p_chars_at(b, p2, s.title);
    lemma_p_chars_at(b, p3, s.ascendancy_or_class);
    lemma_p_chars_at(b, p4, s.version);
    lemma_p_chars_at(b, p5, s.main_skill_name);
    lemma_p_u64_at(b, p6, s.last_modified);
}

/// Summaries within machine bounds, as [`bounded_page`] requires of a list.
pub open spec fn bounded_summaries(l: Seq<SummaryView>) -> bool {
    forall|i: int| 0 <= i < l.len() ==> bounded_summary(#[trigger] l[i])
}

proof fn lemma_p_summaries_at(b: Seq<u8>, pos: int, l: Seq<SummaryView>)
    requires
        0 <= pos,
        bounded_summaries(l),
        pos + ser_summaries(l).len() <= b.len(),
        b.subrange(pos, pos + ser_summaries(l).len()) == ser_summaries(l),
    ensures
        p_summaries(b, pos, l.len()) == Some((l, pos + ser_summaries(l).len())),
    decreases l.len(),
{
    if l.len() == 0 {
        assert(l =~= Seq::<SummaryView>::empty());
    } else {
        let rest = l.drop_first();
        assert(ser_summaries(l) == ser_summary(l[0]) + ser_summaries(rest));
        lemma_subrange_concat(b, pos, ser_summary(l[0]), ser_summaries(rest));
        lemma_p_summary_at(b, pos, l[0]);
        assert(bounded_summaries(rest)) by {
            assert(forall|i: int| 0 <= i < rest.len() ==> rest[i] == l[i + 1]);
        }
        lemma_p_summaries_at(b, pos + ser_summary(l[0]).len(), rest);
        assert(seq![l[0]] + rest =~= l);
    }
}

/// Deserializing the canonical serialization of any in-bounds page value
/// yields exactly that value: the byte-level round trip.
pub proof fn lemma_p_page_ser(v: UserPageView)
    requires
        bounded_page(v),
    ensures
        p_page(ser_page(v)) == Some(v),
{
    let b = ser_page(v);
    let c1 = ser_chars(v.name);
    let c2 = ser_u64(v.pastes.len() as u64);
    let c3 = ser_summaries(v.pastes);
    lemma_auto_spec_u64_to_from_le_bytes();
    lemma_ser_chars_body_len(v.name);
    assert(b =~= c1 + (c2 + c3));
    assert(b.subrange(0, b.len() as int) =~= b);
    lemma_subrange_concat(b, 0, c1, c2 + c3);
    let p1 = c1.len() as int;
    lemma_subrange_concat(b, p1, c2, c3);
    let p2 = p1 + 8;
    lemma_p_chars_at(b, 0, v.name);
    lemma_p_u64_at(b, p1, v.pastes.len() as u64);
    assert(bounded_summaries(v.pastes));
    lemma_p_summaries_at(b, p2, v.pastes);
}

// ---------------------------------------------------------------------------
// Executable serializer
// ---------------------------------------------------------------------------
fn push_u64(out: &mut Vec<u8>, n: u64)
    ensures
        final(out)@ == old(out)@ + ser_u64(n),
{
    let bs = u64_to_le_bytes(n);
    out.extend_from_slice(bs.as_slice());
}

fn push_str(out: &mut Vec<u8>, s: &str)
    ensures
        final(out)@ == old(out)@ + ser_chars(s@),
        s@.len() < 0x1_0000_0000_0000_0000,
{
    let cs = str_chars(s);
    let n = cs.len();
    push_u64(out, n as u64);
    let ghost base = out@;
    let mut i: usize = 0;
    while i < cs.len()
        invariant
            0 <= i <= cs@.len(),
            cs@ == s@,
            s@.len() == n as int,
            out@ == base + ser_chars_body(s@.take(i as int)),
        decreases cs@.len() - i,
    {
        let c = cs[i];
        let bs = u32_to_le_bytes(c as u32);
        out.extend_from_slice(bs.as_slice());
        proof {
            assert(s@.take(i as int).push(s@[i as int]) =~= s@.take(i as int + 1));
            lemma_ser_chars_body_snoc(s@.take(i as int), s@[i as int]);
        }
        i = i + 1;
    }
    proof {
        assert(s@.take(n as int) =~= s@);
    }
}

fn push_summary(out: &mut Vec<u8>, s: &PasteSummary)
    ensures
        final(out)@ == old(out)@ + ser_summary(s@),
        bounded_summary(s@),
{
    push_str(out, s.id.as_str());
    match &s.user {
        None => {
            out.push(0u8);
            proof {
                assert(out@ =~= old(out)@ + ser_chars(s@.id) + ser_opt_chars(s@.user));
            }
        },
        Some(u) => {
            out.push(1u8);
            push_str(out, u.as_str());
            proof {
                assert(out@ =~= old(out)@ + ser_chars(s@.id) + ser_opt_chars(s@.user));
            }
        },
    }
    push_str(out, s.title.as_str());
    push_str(out, s.ascendancy_or_class.as_str());
    push_str(out, s.version.as_str());
    push_str(out, s.main_skill_name.as_str());
    push_u64(out, s.last_modified);
    proof {
        assert(out@ =~= old(out)@ + ser_summary(s@));
    }
}

/// The canonical byte serialization of a page.
pub fn serialize_page(page: &UserPage) -> (r: Vec<u8>)
    ensures
        r@ == ser_page(page@),
        bounded_page(page@),
{
    let mut out: Vec<u8> = Vec::new();
    push_str(&mut out, page.name.as_str());
    push_u64(&mut out, page.pastes.len() as u64);
    let ghost base = out@;
    let ghost pv = page@.pastes;
    let mut i: usize = 0;
    while i < page.pastes.len()
        invariant
            0 <= i <= pv.len(),
            pv == page@.pastes,
            pv.len() == page.pastes@.len(),
            forall|j: int| 0 <= j < pv.len() ==> pv[j] == page.pastes@[j]@,
            forall|j: int| 0 <= j < i ==> bounded_summary(#[trigger] pv[j]),
            out@ == base + ser_summaries(pv.take(i as int)),
        decreases pv.len() - i,
    {
        push_summary(&mut out, &page.pastes[i]);
        proof {
            assert(pv.take(i as int).push(pv[i as int]) =~= pv.take(i as int + 1));
            lemma_ser_summaries_snoc(pv.take(i as int), pv[i as int]);
        }
        i = i + 1;
    }
    proof {
        assert(pv.take(pv.len() as int) =~= pv);
        assert(out@ =~= ser_page(page@));
    }
    out
}

// ---------------------------------------------------------------------------
// Executable parser
// ---------------------------------------------------------------------------
/// Relies on `char::from_u32`: returns the character with the given code
/// point exactly when the value is a Unicode scalar value.
#[verifier::external_body]
fn char_from_u32(u: u32) -> (r: Option<char>)
    ensures
        r is Some <==> is_scalar(u),
        r matches Some(c) ==> c as u32 == u,
{
    char::from_u32(u)
}

fn parse_u64(b: &Vec<u8>, pos: usize) -> (r: Option<(u64, usize)>)
    ensures
        r matches Some(t) ==> p_u64(b@, pos as int) == Some((t.0, t.1 as int)),
        r is None ==> p_u64(b@, pos as int) is None,
{
    if b.len() >= 8 && pos <= b.len() - 8 {
        let s = slice_subrange(b.as_slice(), pos, pos + 8);
        let x = u64_from_le_bytes(s);
        Some((x, pos + 8))
    } else {
        None
    }
}

fn parse_char(b: &Vec<u8>, pos: usize) -> (r: Option<(char, usize)>)
    ensures
        r matches Some(t) ==> p_char(b@, pos as int) == Some((t.0, t.1 as int)),
        r is None ==> p_char(b@, pos as int) is None,
{
    if b.len() >= 4 && pos <= b.len() - 4 {
        let s = slice_subrange(b.as_slice(), pos, pos + 4);
        let u = u32_from_le_bytes(s);
        match char_from_u32(u) {
            Some(c) => {
                proof {
                    vstd::utf8::char_u32_cast(c, u);
                }
                Some((c, pos + 4))
            },
            None => None,
        }
    } else {
        None
    }
}

fn parse_chars(b: &Vec<u8>, pos: usize) -> (r: Option<(String, usize)>)
    ensures
        r matches Some(t) ==> p_chars(b@, pos as int) == Some((t.0@, t.1 as int)),
        r is None ==> p_chars(b@, pos as int) is None,
{
    let (n, start) = match parse_u64(b, pos) {
        Some(t) => t,
        None => {
            return None;
        },
    };
    let mut acc: Vec<char> = Vec::new();
    let mut cur = start;
    let mut i: u64 = 0;
    while i < n
        invariant
            0 <= i <= n,
            acc@.len() == i as int,
            p_u64(b@, pos as int) == Some((n, start as int)),
            match p_chars_n(b@, cur as int, (n - i) as nat) {
                Some((s, e)) => p_chars_n(b@, start as int, n as nat) == Some((acc@ + s, e)),
                None => p_chars_n(b@, start as int, n as nat) is None,
            },
        decreases n - i,
    {
        let (c, next) = match parse_char(b, cur) {
            Some(t) => t,
            None => {
                return None;
            },
        };
        let ghost old_acc = acc@;
        acc.push(c);
        proof {
            let rem = (n - i) as nat;
            assert(p_chars_n(b@, cur as int, rem) == match p_chars_n(
                b@,
                next as int,
                (rem - 1) as nat,
            ) {
                Some((s2, e)) => Some((seq![c] + s2, e)),
                None => None::<(Seq<char>, int)>,
            });
            if let Some((s2, e)) = p_chars_n(b@, next as int, (rem - 1) as nat) {
                assert(old_acc + (seq![c] + s2) =~= acc@ + s2);
            }
        }
        cur = next;
        i = i + 1;
    }
    proof {
        assert(p_chars_n(b@, cur as int, 0) == Some((Seq::<char>::empty(), cur as int)));
        assert(acc@ + Seq::<char>::empty() =~= acc@);
    }
    Some((chars_string(&acc), cur))
}

fn parse_opt_chars(b: &Vec<u8>, pos: usize) -> (r: Option<(Option<String>, usize)>)
    ensures
        r matches Some(t) ==> p_opt_chars(b@, pos as int) == Some(
            (
                match t.0 {
                    Some(s) => Some(s@),
                    None => None,
                },
                t.1 as int,
            ),
        ),
        r is None ==> p_opt_chars(b@, pos as int) is None,
{
    if pos < b.len() {
        let tag = b[pos];
        if tag == 0 {
            Some((None, pos + 1))
        } else if tag == 1 {
            match parse_chars(b, pos + 1) {
                Some((s, p1)) => Some((Some(s), p1)),
                None => None,
            }
        } else {
            None
        }
    } else {
        None
    }
}

fn parse_summary(b: &Vec<u8>, pos: usize) -> (r: Option<(PasteSummary, usize)>)
    ensures
        r matches Some(t) ==> p_summary(b@, pos as int) == Some((t.0@, t.1 as int)),
        r is None ==> p_summary(b@, pos as int) is None,
{
    let (id, p1) = match parse_chars(b, pos) {
        Some(t) => t,
        None => {
            return None;
        },
    };
    let (user, p2) = match parse_opt_chars(b, p1) {
        Some(t) => t,
        None => {
            return None;
        },
    };
    let (title, p3) = match parse_chars(b, p2) {
        Some(t) => t,
        None => {
            return None;
        },
    };
    let (asc, p4) = match parse_chars(b, p3) {
        Some(t) => t,
        None => {
            return None;
        },
    };
    let (version, p5) = match parse_chars(b, p4) {
        Some(t) => t,
        None => {
            return None;
        },
    };
    let (skill, p6) = match parse_chars(b, p5) {
        Some(t) => t,
        None => {
            return None;
        },
    };
    let (lm, p7) = match parse_u64(b, p6) {
        Some(t) => t,
        None => {
            return None;
        },
    };
    Some(
        (
            PasteSummary {
                id,
                user,
                title,
                ascendancy_or_class: asc,
                version,
                main_skill_name: skill,
                last_modified: lm,
            },
            p7,
        ),
    )
}

fn parse_summaries(b: &Vec<u8>, pos: usize, n: u64) -> (r: Option<(Vec<PasteSummary>, usize)>)
    ensures
        r matches Some(t) ==> p_summaries(b@, pos as int, n as nat) == Some(
            (t.0@.map_values(|p: PasteSummary| p@), t.1 as int),
        ),
        r is None ==> p_summaries(b@, pos as int, n as nat) is None,
{
    let mut acc: Vec<PasteSummary> = Vec::new();
    let mut cur = pos;
    let mut i: u64 = 0;
    proof {
        assert(acc@.map_values(|p: PasteSummary| p@) =~= Seq::<SummaryView>::empty());
    }
    while i < n
        invariant
            0 <= i <= n,
            acc@.len() == i as int,
            match p_summaries(b@, cur as int, (n - i) as nat) {
                Some((l, e)) => p_summaries(b@, pos as int, n as nat) == Some(
                    (acc@.map_values(|p: PasteSummary| p@) + l, e),
                ),
                None => p_summaries(b@, pos as int, n as nat) is None,
            },
        decreases n - i,
    {
        let (s, next) = match parse_summary(b, cur) {
            Some(t) => t,
            None => {
                return None;
            },
        };
        let ghost old_views = acc@.map_values(|p: PasteSummary| p@);
        let ghost sv = s@;
        acc.push(s);
        proof {
            assert(acc@.map_values(|p: PasteSummary| p@) =~= old_views.push(sv));
            let rem = (n - i) as nat;
            if let Some((l2, e)) = p_summaries(b@, next as int, (rem - 1) as nat) {
                assert(old_views + (seq![sv] + l2) =~= old_views.push(sv) + l2);
            }
        }
        cur = next;
        i = i + 1;
    }
    proof {
        let views = acc@.map_values(|p: PasteSummary| p@);
        assert(p_summaries(b@, cur as int, 0) == Some((Seq::<SummaryView>::empty(), cur as int)));
        assert(views + Seq::<SummaryView>::empty() =~= views);
    }
    Some((acc, cur))
}

/// Deserializes a canonical byte serialization back into a page; fails on
/// anything that is not exactly the serialization of one page value.
pub fn parse_page(b: &Vec<u8>) -> (r: Option<UserPage>)
    ensures
        r matches Some(page) ==> p_page(b@) == Some(page@),
        r is None ==> p_page(b@) is None,
{
    let (name, p1) = match parse_chars(b, 0) {
        Some(t) => t,
        None => {
            return None;
        },
    };
    let (n, p2) = match parse_u64(b, p1) {
        Some(t) => t,
        None => {
            return None;
        },
    };
    let (pastes, p3) = match parse_summaries(b, p2, n) {
        Some(t) => t,
        None => {
            return None;
        },
    };
    if p3 != b.len() {
        return None;
    }
    Some(UserPage { name, pastes })
}

// ---------------------------------------------------------------------------
// Hexadecimal text layer
// ---------------------------------------------------------------------------
/// The lowercase hexadecimal digit for a value below sixteen.
pub open spec fn hex_digit(d: int) -> char {
    if d < 10 {
        ((48 + d) as u8) as char
    } else {
        ((87 + d) as u8) as char
    }
}

/// The lowercase hexadecimal rendering of a byte sequence: two digits per
/// byte, high nibble first. Every character is URL- and attribute-safe.
pub open spec fn hex_of(b: Seq<u8>) -> Seq<char> {
    Seq::new(
        2 * b.len(),
        |i: int|
            if i % 2 == 0 {
                hex_digit(b[i / 2] as int / 16)
            } else {
                hex_digit(b[i / 2] as int % 16)
            },
    )
}

/// A lowercase hexadecimal digit character.
pub open spec fn is_hex_char(c: char) -> bool {
    ('0' <= c && c <= '9') || ('a' <= c && c <= 'f')
}

/// The value of a lowercase hexadecimal digit character.
pub open spec fn hex_val(c: char) -> int {
    if '0' <= c && c <= '9' {
        c as int - 48
    } else {
        c as int - 87
    }
}

/// The bytes a character sequence spells in lowercase hexadecimal, or
/// nothing when the length is odd or any character is not a digit.
pub open spec fn unhex(s: Seq<char>) -> Option<Seq<u8>> {
    if s.len() % 2 == 0 && (forall|i: int| 0 <= i < s.len() ==> is_hex_char(#[trigger] s[i])) {
        Some(
            Seq::new(
                s.len() / 2,
                |i: int| (hex_val(s[2 * i]) * 16 + hex_val(s[2 * i + 1])) as u8,
            ),
        )
    } else {
        None
    }
}

/// Every character of a hexadecimal rendering is a lowercase digit — an
/// alphabet that can sit verbatim inside a markup attribute or a URL.
pub proof fn lemma_hex_attribute_safe(b: Seq<u8>)
    ensures
        forall|i: int| 0 <= i < hex_of(b).len() ==> is_hex_char(#[trigger] hex_of(b)[i]),
{
    let h = hex_of(b);
    assert forall|i: int| 0 <= i < h.len() implies is_hex_char(#[trigger] h[i]) by {
        let d = if i % 2 == 0 {
            b[i / 2] as int / 16
        } else {
            b[i / 2] as int % 16
        };
        assert(0 <= d < 16);
        assert(h[i] == hex_digit(d));
    }
}

/// Reading back a hexadecimal rendering yields the original bytes: the text
/// layer's round trip.
pub proof fn lemma_unhex_hex(b: Seq<u8>)
    ensures
        unhex(hex_of(b)) == Some(b),
{
    let h = hex_of(b);
    lemma_hex_attribute_safe(b);
    let u = unhex(h).unwrap();
    assert forall|i: int| 0 <= i < b.len() implies u[i] == b[i] by {
        let v = b[i] as int;
        let hi = v / 16;
        let lo = v % 16;
        assert(0 <= hi < 16);
        assert(0 <= lo < 16);
        assert(h[2 * i] == hex_digit(hi));
        assert(h[2 * i + 1] == hex_digit(lo));
        assert(hex_val(hex_digit(hi)) == hi);
        assert(hex_val(hex_digit(lo)) == lo);
        assert(hi * 16 + lo == v);
    }
    assert(u =~= b);
}

pub(crate) fn hex_digit_exec(d: u8) -> (c: char)
    requires
        d < 16,
    ensures
        c == hex_digit(d as int),
{
    if d < 10 {
        (48 + d) as char
    } else {
        (87 + d) as char
    }
}

/// Renders bytes as lowercase hexadecimal characters.
fn hex_chars(b: &Vec<u8>) -> (r: Vec<char>)
    ensures
        r@ == hex_of(b@),
{
    let mut r: Vec<char> = Vec::new();
    let mut i: usize = 0;
    proof {
        assert(r@ =~= hex_of(b@.take(0)));
    }
    while i < b.len()
        invariant
            0 <= i <= b@.len(),
            r@ == hex_of(b@.take(i as int)),
        decreases b@.len() - i,
    {
        let byte = b[i];
        r.push(hex_digit_exec(byte / 16));
        r.push(hex_digit_exec(byte % 16));
        proof {
            let t0 = b@.take(i as int);
            let t1 = b@.take(i as int + 1);
            assert forall|j: int| 0 <= j < 2 * t1.len() implies hex_of(t1)[j] == hex_of(t0).push(
                hex_digit(b@[i as int] as int / 16),
            ).push(hex_digit(b@[i as int] as int % 16))[j] by {
                assert(t1[j / 2] == if j / 2 < i as int {
                    t0[j / 2]
                } else {
                    b@[i as int]
                });
            }
            assert(hex_of(t1) =~= r@);
        }
        i = i + 1;
    }
    proof {
        assert(b@.take(b@.len() as int) =~= b@);
    }
    r
}

fn hex_val_exec(c: char) -> (r: Option<u8>)
    ensures
        r matches Some(v) ==> is_hex_char(c) && v == hex_val(c) && v < 16,
        r is None ==> !is_hex_char(c),
{
    if '0' <= c && c <= '9' {
        Some(((c as u32) - 48) as u8)
    } else if 'a' <= c && c <= 'f' {
        Some(((c as u32) - 87) as u8)
    } else {
        None
    }
}

/// Reads lowercase hexadecimal characters back into bytes.
fn unhex_chars(s: &Vec<char>) -> (r: Option<Vec<u8>>)
    ensures
        r matches Some(v) ==> unhex(s@) == Some(v@),
        r is None ==> unhex(s@) is None,
{
    if s.len() % 2 != 0 {
        return None;
    }
    let mut r: Vec<u8> = Vec::new();
    let mut i: usize = 0;
    while i < s.len()
        invariant
            0 <= i <= s@.len(),
            i % 2 == 0,
            s@.len() % 2 == 0,
            r@.len() == i as int / 2,
            forall|j: int| 0 <= j < i ==> is_hex_char(#[trigger] s@[j]),
            forall|k: int|
                0 <= k < i / 2 ==> r@[k] == (hex_val(s@[2 * k]) * 16 + hex_val(s@[2 * k + 1])) as u8,
        decreases s@.len() - i,
    {
        let hi = match hex_val_exec(s[i]) {
            Some(v) => v,
            None => {
                return None;
            },
        };
        let lo = match hex_val_exec(s[i + 1]) {
            Some(v) => v,
            None => {
                return None;
            },
        };
        r.push(hi * 16 + lo);
        i = i + 2;
    }
    proof {
        assert(unhex(s@) matches Some(u) && u =~= r@);
    }
    Some(r)
}

// ---------------------------------------------------------------------------
// The codec surface
// ---------------------------------------------------------------------------
/// The encoded text of a page value: hexadecimal over its canonical byte
/// serialization.
pub open spec fn encode_spec(v: UserPageView) -> Seq<char> {
    hex_of(ser_page(v))
}

/// What a payload text decodes to: the unique page value it encodes, or
/// nothing when it is not a valid encoding.
pub open spec fn decode_spec(s: Seq<char>) -> Option<UserPageView> {
    match unhex(s) {
        None => None,
        Some(b) => p_page(b),
    }
}

/// Encodes a page for embedding in a markup attribute. The result is never
/// empty — even a page with no pastes yields a token whose presence can be
/// told from an absent attribute.
pub fn encode(page: &UserPage) -> (r: String)
    ensures
        r@ == encode_spec(page@),
        bounded_page(page@),
        r@.len() > 0,
        forall|i: int| 0 <= i < r@.len() ==> is_hex_char(#[trigger] r@[i]),
{
    let bytes = serialize_page(page);
    proof {
        lemma_auto_spec_u64_to_from_le_bytes();
        assert(ser_page(page@).len() >= 8);
        lemma_hex_attribute_safe(ser_page(page@));
    }
    let hc = hex_chars(&bytes);
    chars_string(&hc)
}

/// Decodes an embedded payload text. Returns the page value the text
/// encodes; fails on any text that is not exactly the encoding of one page
/// value (odd length, a character outside the alphabet, malformed or
/// trailing bytes).
pub fn decode(s: &str) -> (r: Option<UserPage>)
    ensures
        r matches Some(page) ==> decode_spec(s@) == Some(page@),
        r is None ==> decode_spec(s@) is None,
{
    let cs = str_chars(s);
    let bytes = match unhex_chars(&cs) {
        Some(b) => b,
        None => {
            return None;
        },
    };
    parse_page(&bytes)
}

/// The codec round trip: decoding the encoding of any in-bounds page value
/// yields exactly that value, the empty listing included. Together with the
/// contracts of [`encode`] and [`decode`] this pins the behaviour of
/// `decode(encode(v))` for every representable `v`.
pub proof fn lemma_codec_round_trip(v: UserPageView)
    requires
        bounded_page(v),
    ensures
        decode_spec(encode_spec(v)) == Some(v),
{
    lemma_unhex_hex(ser_page(v));
    lemma_p_page_ser(v);
}

} // verus!
