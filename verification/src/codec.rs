use vstd::prelude::*;
use vstd::utf8::decode_utf8;
use vstd::utf8::encode_utf8;
use vstd::utf8::valid_utf8;

use crate::gig::Gig;
use crate::gig::GigModel;
use crate::gig::GigStatus;

verus! {

/// The byte budget one serialized gig record may occupy.
pub const MAX_RECORD_BYTES: usize = 2048;

/// The little-endian encoding of a 64-bit integer.
pub open spec fn le64(x: u64) -> Seq<u8> {
    seq![
        (x & 0xff) as u8,
        ((x >> 8) & 0xff) as u8,
        ((x >> 16) & 0xff) as u8,
        ((x >> 24) & 0xff) as u8,
        ((x >> 32) & 0xff) as u8,
        ((x >> 40) & 0xff) as u8,
        ((x >> 48) & 0xff) as u8,
        ((x >> 56) & 0xff) as u8,
    ]
}

/// The 64-bit integer read back from eight little-endian bytes.
pub open spec fn from_le64(s: Seq<u8>) -> u64
    recommends
        s.len() == 8,
{
    (s[0] as u64) | ((s[1] as u64) << 8) | ((s[2] as u64) << 16) | ((s[3] as u64) << 24)
        | ((s[4] as u64) << 32) | ((s[5] as u64) << 40) | ((s[6] as u64) << 48)
        | ((s[7] as u64) << 56)
}

/// A text field on the wire: the byte length of its UTF-8 form, then the bytes.
pub open spec fn str_seg(s: Seq<char>) -> Seq<u8> {
    le64(encode_utf8(s).len() as u64) + encode_utf8(s)
}

/// An optional text field: a one-byte tag, then the field when present.
pub open spec fn opt_str_seg(o: Option<Seq<char>>) -> Seq<u8> {
    match o {
        Option::None => seq![0u8],
        Option::Some(s) => seq![1u8] + str_seg(s),
    }
}

/// An optional integer field: a one-byte tag, then the integer when present.
pub open spec fn opt_u64_seg(o: Option<u64>) -> Seq<u8> {
    match o {
        Option::None => seq![0u8],
        Option::Some(x) => seq![1u8] + le64(x),
    }
}

/// The one-byte tag of a status.
pub open spec fn status_tag(s: GigStatus) -> u8 {
    match s {
        GigStatus::Open => 0,
        GigStatus::Assigned => 1,
        GigStatus::Approved => 2,
        GigStatus::Disputed => 3,
    }
}

/// The serialized form of a gig record: all fields in declaration order.
pub open spec fn gig_encoding(m: GigModel) -> Seq<u8> {
    le64(m.id) + str_seg(m.title) + str_seg(m.description) + str_seg(m.employer) + le64(
        m.deadline,
    ) + opt_str_seg(m.assigned_to) + seq![status_tag(m.status)] + le64(m.created_at) + opt_u64_seg(
        m.updated_at,
    )
}

/// The UTF-8 bytes of a string, as a fresh vector.
fn string_bytes(s: &String) -> (r: Vec<u8>)
    ensures
        r@ == encode_utf8(s@),
{
    vstd::slice::slice_to_vec(s.as_str().as_bytes())
}

/// Appends the little-endian bytes of an integer.
fn push_u64(out: &mut Vec<u8>, x: u64)
    ensures
        final(out)@ == old(out)@ + le64(x),
{
    out.push((x & 0xff) as u8);
    out.push(((x >> 8) & 0xff) as u8);
    out.push(((x >> 16) & 0xff) as u8);
    out.push(((x >> 24) & 0xff) as u8);
    out.push(((x >> 32) & 0xff) as u8);
    out.push(((x >> 40) & 0xff) as u8);
    out.push(((x >> 48) & 0xff) as u8);
    out.push(((x >> 56) & 0xff) as u8);
    assert(out@ =~= old(out)@ + le64(x));
}

/// Appends the contents of a byte vector.
fn push_bytes(out: &mut Vec<u8>, b: &Vec<u8>)
    ensures
        final(out)@ == old(out)@ + b@,
{
    let n = b.len();
    let mut i: usize = 0;
    while i < n
        invariant
            n == b@.len(),
            i <= n,
            out@ == old(out)@ + b@.subrange(0, i as int),
        decreases n - i,
    {
        out.push(b[i]);
        i = i + 1;
        assert(out@ =~= old(out)@ + b@.subrange(0, i as int));
    }
    assert(out@ =~= old(out)@ + b@);
}

/// Appends a length-prefixed text field.
fn push_str(out: &mut Vec<u8>, s: &String)
    ensures
        final(out)@ == old(out)@ + str_seg(s@),
{
    let bytes = string_bytes(s);
    push_u64(out, bytes.len() as u64);
    push_bytes(out, &bytes);
    assert(out@ =~= old(out)@ + str_seg(s@));
}

/// The one-byte tag of a status.
fn status_byte(s: GigStatus) -> (r: u8)
    ensures
        r == status_tag(s),
{
    match s {
        GigStatus::Open => 0,
        GigStatus::Assigned => 1,
        GigStatus::Approved => 2,
        GigStatus::Disputed => 3,
    }
}

/// What one parsing step yields: an eight-byte little-endian integer.
pub open spec fn sp_read_u64(b: Seq<u8>, pos: int) -> Option<(u64, int)> {
    if 0 <= pos && pos + 8 <= b.len() {
        Option::Some((from_le64(b.subrange(pos, pos + 8)), pos + 8))
    } else {
        Option::None
    }
}

/// What one parsing step yields: a single tag byte.
pub open spec fn sp_read_tag(b: Seq<u8>, pos: int) -> Option<(u8, int)> {
    if 0 <= pos && pos + 1 <= b.len() {
        Option::Some((b[pos], pos + 1))
    } else {
        Option::None
    }
}

/// What one parsing step yields: a length-prefixed text field.
pub open spec fn sp_read_str(b: Seq<u8>, pos: int) -> Option<(Seq<char>, int)> {
    match sp_read_u64(b, pos) {
        Option::None => Option::None,
        Option::Some((n, p)) => if p + n <= b.len() && valid_utf8(b.subrange(p, p + n)) {
            Option::Some((decode_utf8(b.subrange(p, p + n)), p + n))
        } else {
            Option::None
        },
    }
}

/// What one parsing step yields: an optional text field.
pub open spec fn sp_read_opt_str(b: Seq<u8>, pos: int) -> Option<(Option<Seq<char>>, int)> {
    match sp_read_tag(b, pos) {
        Option::None => Option::None,
        Option::Some((t, p)) => if t == 0 {
            Option::Some((Option::None, p))
        } else if t == 1 {
            match sp_read_str(b, p) {
                Option::None => Option::None,
                Option::Some((s, p2)) => Option::Some((Option::Some(s), p2)),
            }
        } else {
            Option::None
        },
    }
}

/// What one parsing step yields: an optional integer field.
pub open spec fn sp_read_opt_u64(b: Seq<u8>, pos: int) -> Option<(Option<u64>, int)> {
    match sp_read_tag(b, pos) {
        Option::None => Option::None,
        Option::Some((t, p)) => if t == 0 {
            Option::Some((Option::None, p))
        } else if t == 1 {
            match sp_read_u64(b, p) {
                Option::None => Option::None,
                Option::Some((x, p2)) => Option::Some((Option::Some(x), p2)),
            }
        } else {
            Option::None
        },
    }
}

/// What one parsing step yields: a status tag.
pub open spec fn sp_read_status(b: Seq<u8>, pos: int) -> Option<(GigStatus, int)> {
    match sp_read_tag(b, pos) {
        Option::None => Option::None,
        Option::Some((t, p)) => if t == 0 {
            Option::Some((GigStatus::Open, p))
        } else if t == 1 {
            Option::Some((GigStatus::Assigned, p))
        } else if t == 2 {
            Option::Some((GigStatus::Approved, p))
        } else if t == 3 {
            Option::Some((GigStatus::Disputed, p))
        } else {
            Option::None
        },
    }
}

/// The record a byte string parses to, when it is a well-formed serialized
/// gig consumed in full.
pub open spec fn spec_parse(b: Seq<u8>) -> Option<GigModel> {
    match sp_read_u64(b, 0) {
        Option::None => Option::None,
        Option::Some((id, p1)) => match sp_read_str(b, p1) {
            Option::None => Option::None,
            Option::Some((title, p2)) => match sp_read_str(b, p2) {
                Option::None => Option::None,
                Option::Some((description, p3)) => match sp_read_str(b, p3) {
                    Option::None => Option::None,
                    Option::Some((employer, p4)) => match sp_read_u64(b, p4) {
                        Option::None => Option::None,
                        Option::Some((deadline, p5)) => match sp_read_opt_str(b, p5) {
                            Option::None => Option::None,
                            Option::Some((assigned_to, p6)) => match sp_read_status(b, p6) {
                                Option::None => Option::None,
                                Option::Some((status, p7)) => match sp_read_u64(b, p7) {
                                    Option::None => Option::None,
                                    Option::Some((created_at, p8)) => match sp_read_opt_u64(
                                        b,
                                        p8,
                                    ) {
                                        Option::None => Option::None,
                                        Option::Some((updated_at, p9)) => if p9 == b.len() {
                                            Option::Some(
                                                GigModel {
                                                    id,
                                                    title,
                                                    description,
                                                    employer,
                                                    deadline,
                                                    assigned_to,
                                                    status,
                                                    created_at,
                                                    updated_at,
                                                },
                                            )
                                        } else {
                                            Option::None
                                        },
                                    },
                                },
                            },
                        },
                    },
                },
            },
        },
    }
}

/// Serializes a gig record.
pub fn encode_gig(g: &Gig) -> (r: Vec<u8>)
    ensures
        r@ == gig_encoding(g@),
{
    let mut out: Vec<u8> = Vec::new();
    push_u64(&mut out, g.id);
    push_str(&mut out, &g.title);
    push_str(&mut out, &g.description);
    push_str(&mut out, &g.employer);
    push_u64(&mut out, g.deadline);
    match &g.assigned_to {
        Option::None => out.push(0u8),
        Option::Some(w) => {
            out.push(1u8);
            push_str(&mut out, w);
        },
    }
    out.push(status_byte(g.status));
    push_u64(&mut out, g.created_at);
    match &g.updated_at {
        Option::None => out.push(0u8),
        Option::Some(t) => {
            out.push(1u8);
            push_u64(&mut out, *t);
        },
    }
    assert(out@ =~= gig_encoding(g@));
    out
}

/// Reading eight little-endian bytes of an integer yields that integer.
pub proof fn lemma_from_le64_le64(x: u64)
    ensures
        from_le64(le64(x)) == x,
{
    let s = le64(x);
    let b0 = (x & 0xff) as u8;
    let b1 = ((x >> 8) & 0xff) as u8;
    let b2 = ((x >> 16) & 0xff) as u8;
    let b3 = ((x >> 24) & 0xff) as u8;
    let b4 = ((x >> 32) & 0xff) as u8;
    let b5 = ((x >> 40) & 0xff) as u8;
    let b6 = ((x >> 48) & 0xff) as u8;
    let b7 = ((x >> 56) & 0xff) as u8;
    assert(s[0] == b0 && s[1] == b1 && s[2] == b2 && s[3] == b3 && s[4] == b4 && s[5] == b5 && s[6]
        == b6 && s[7] == b7);
    assert((b0 as u64) | ((b1 as u64) << 8) | ((b2 as u64) << 16) | ((b3 as u64) << 24) | ((
    b4 as u64) << 32) | ((b5 as u64) << 40) | ((b6 as u64) << 48) | ((b7 as u64) << 56) == x)
        by (bit_vector)
        requires
            b0 == (x & 0xff) as u8,
            b1 == ((x >> 8) & 0xff) as u8,
            b2 == ((x >> 16) & 0xff) as u8,
            b3 == ((x >> 24) & 0xff) as u8,
            b4 == ((x >> 32) & 0xff) as u8,
            b5 == ((x >> 40) & 0xff) as u8,
            b6 == ((x >> 48) & 0xff) as u8,
            b7 == ((x >> 56) & 0xff) as u8,
    ;
}

/// An integer segment parses back to the integer it was written from.
pub proof fn lemma_read_u64_at(b: Seq<u8>, pos: int, x: u64)
    requires
        0 <= pos,
        pos + 8 <= b.len(),
        b.subrange(pos, pos + 8) == le64(x),
    ensures
        sp_read_u64(b, pos) == Option::<(u64, int)>::Some((x, pos + 8)),
{
    lemma_from_le64_le64(x);
}

/// A text segment parses back to the character sequence it was written from.
pub proof fn lemma_read_str_at(b: Seq<u8>, pos: int, s: Seq<char>)
    requires
        0 <= pos,
        encode_utf8(s).len() < 0x1_0000_0000_0000_0000,
        pos + str_seg(s).len() <= b.len(),
        b.subrange(pos, pos + str_seg(s).len()) == str_seg(s),
    ensures
        sp_read_str(b, pos) == Option::<(Seq<char>, int)>::Some((s, pos + str_seg(s).len())),
{
    broadcast use vstd::utf8::encode_utf8_valid_utf8;
    broadcast use vstd::utf8::encode_utf8_decode_utf8;

    let ulen = encode_utf8(s).len() as int;
    let n64 = encode_utf8(s).len() as u64;
    assert(str_seg(s).len() == 8 + ulen);
    lemma_split_at(b, le64(n64), encode_utf8(s), pos, pos + str_seg(s).len());
    lemma_read_u64_at(b, pos, n64);
    assert(n64 as int == ulen);
    assert(decode_utf8(b.subrange(pos + 8, pos + 8 + ulen)) == s);
}

/// A stretch of bytes equal to a concatenation splits into its two parts.
pub proof fn lemma_split_at(b: Seq<u8>, p: Seq<u8>, s: Seq<u8>, lo: int, hi: int)
    requires
        0 <= lo <= hi <= b.len(),
        hi - lo == p.len() + s.len(),
        b.subrange(lo, hi) == p + s,
    ensures
        b.subrange(lo, lo + p.len()) == p,
        b.subrange(lo + p.len(), hi) == s,
{
    let pl = p.len() as int;
    assert forall|i: int| 0 <= i < pl implies b.subrange(lo, lo + pl)[i] == p[i] by {
        assert(b.subrange(lo, hi)[i] == (p + s)[i]);
    }
    assert(b.subrange(lo, lo + pl) =~= p);
    assert forall|i: int| 0 <= i < s.len() implies b.subrange(lo + pl, hi)[i] == s[i] by {
        assert(b.subrange(lo, hi)[pl + i] == b[lo + pl + i]);
        assert((p + s)[pl + i] == s[i]);
        assert(b.subrange(lo + pl, hi)[i] == b[lo + pl + i]);
    }
    assert(b.subrange(lo + pl, hi) =~= s);
}

/// Offsets of the successive segments inside a serialized gig record.
pub open spec fn off1(m: GigModel) -> int {
    8
}

pub open spec fn off2(m: GigModel) -> int {
    off1(m) + str_seg(m.title).len()
}

pub open spec fn off3(m: GigModel) -> int {
    off2(m) + str_seg(m.description).len()
}

pub open spec fn off4(m: GigModel) -> int {
    off3(m) + str_seg(m.employer).len()
}

pub open spec fn off5(m: GigModel) -> int {
    off4(m) + 8
}

pub open spec fn off6(m: GigModel) -> int {
    off5(m) + opt_str_seg(m.assigned_to).len()
}

pub open spec fn off7(m: GigModel) -> int {
    off6(m) + 1
}

pub open spec fn off8(m: GigModel) -> int {
    off7(m) + 8
}

pub open spec fn off9(m: GigModel) -> int {
    off8(m) + opt_u64_seg(m.updated_at).len()
}

/// A serialized gig record splits at the offsets into its nine segments.
#[verifier::rlimit(100)]
pub proof fn lemma_encoding_splits(m: GigModel)
    ensures
        gig_encoding(m).len() == off9(m),
        gig_encoding(m).subrange(0, off1(m)) == le64(m.id),
        gig_encoding(m).subrange(off1(m), off2(m)) == str_seg(m.title),
        gig_encoding(m).subrange(off2(m), off3(m)) == str_seg(m.description),
        gig_encoding(m).subrange(off3(m), off4(m)) == str_seg(m.employer),
        gig_encoding(m).subrange(off4(m), off5(m)) == le64(m.deadline),
        gig_encoding(m).subrange(off5(m), off6(m)) == opt_str_seg(m.assigned_to),
        gig_encoding(m).subrange(off6(m), off7(m)) == seq![status_tag(m.status)],
        gig_encoding(m).subrange(off7(m), off8(m)) == le64(m.created_at),
        gig_encoding(m).subrange(off8(m), off9(m)) == opt_u64_seg(m.updated_at),
{
    let b = gig_encoding(m);
    let s1 = le64(m.id);
    let s2 = str_seg(m.title);
    let s3 = str_seg(m.description);
    let s4 = str_seg(m.employer);
    let s5 = le64(m.deadline);
    let s6 = opt_str_seg(m.assigned_to);
    let s7 = seq![status_tag(m.status)];
    let s8 = le64(m.created_at);
    let s9 = opt_u64_seg(m.updated_at);
    let p2 = s1 + s2;
    let p3 = p2 + s3;
    let p4 = p3 + s4;
    let p5 = p4 + s5;
    let p6 = p5 + s6;
    let p7 = p6 + s7;
    let p8 = p7 + s8;
    assert(b.subrange(0, off9(m)) =~= b);
    lemma_split_at(b, p8, s9, 0, off9(m));
    lemma_split_at(b, p7, s8, 0, off8(m));
    lemma_split_at(b, p6, s7, 0, off7(m));
    lemma_split_at(b, p5, s6, 0, off6(m));
    lemma_split_at(b, p4, s5, 0, off5(m));
    lemma_split_at(b, p3, s4, 0, off4(m));
    lemma_split_at(b, p2, s3, 0, off3(m));
    lemma_split_at(b, s1, s2, 0, off2(m));
}

/// Round trip: a serialized gig record that fits the byte budget parses
/// back to exactly the record it was written from.
#[verifier::rlimit(100)]
pub proof fn lemma_parse_encoding(m: GigModel)
    requires
        gig_encoding(m).len() <= MAX_RECORD_BYTES,
    ensures
        spec_parse(gig_encoding(m)) == Option::<GigModel>::Some(m),
{
    let b = gig_encoding(m);
    let o1 = off1(m);
    let o2 = off2(m);
    let o3 = off3(m);
    let o4 = off4(m);
    let o5 = off5(m);
    let o6 = off6(m);
    let o7 = off7(m);
    let o8 = off8(m);
    let o9 = off9(m);
    lemma_encoding_splits(m);
    assert(b.len() == o9);
    lemma_read_u64_at(b, 0, m.id);
    lemma_read_str_at(b, o1, m.title);
    lemma_read_str_at(b, o2, m.description);
    lemma_read_str_at(b, o3, m.employer);
    lemma_read_u64_at(b, o4, m.deadline);
    match m.assigned_to {
        Option::None => {
            assert(b[o5] == b.subrange(o5, o6)[0]);
            assert(sp_read_opt_str(b, o5) == Option::<(Option<Seq<char>>, int)>::Some(
                (Option::None, o6),
            ));
        },
        Option::Some(w) => {
            lemma_split_at(b, seq![1u8], str_seg(w), o5, o6);
            assert(b[o5] == b.subrange(o5, o5 + 1)[0]);
            lemma_read_str_at(b, o5 + 1, w);
            assert(sp_read_opt_str(b, o5) == Option::<(Option<Seq<char>>, int)>::Some(
                (Option::Some(w), o6),
            ));
        },
    }
    assert(b[o6] == b.subrange(o6, o7)[0]);
    assert(sp_read_status(b, o6) == Option::<(GigStatus, int)>::Some((m.status, o7)));
    lemma_read_u64_at(b, o7, m.created_at);
    match m.updated_at {
        Option::None => {
            assert(b[o8] == b.subrange(o8, o9)[0]);
            assert(sp_read_opt_u64(b, o8) == Option::<(Option<u64>, int)>::Some(
                (Option::None, o9),
            ));
        },
        Option::Some(t) => {
            lemma_split_at(b, seq![1u8], le64(t), o8, o9);
            assert(b[o8] == b.subrange(o8, o8 + 1)[0]);
            lemma_read_u64_at(b, o8 + 1, t);
            assert(sp_read_opt_u64(b, o8) == Option::<(Option<u64>, int)>::Some(
                (Option::Some(t), o9),
            ));
        },
    }
    assert(sp_read_u64(b, 0) == Option::<(u64, int)>::Some((m.id, o1)));
    assert(sp_read_str(b, o1) == Option::<(Seq<char>, int)>::Some((m.title, o2)));
    assert(sp_read_str(b, o2) == Option::<(Seq<char>, int)>::Some((m.description, o3)));
    assert(sp_read_str(b, o3) == Option::<(Seq<char>, int)>::Some((m.employer, o4)));
    assert(sp_read_u64(b, o4) == Option::<(u64, int)>::Some((m.deadline, o5)));
    assert(sp_read_opt_str(b, o5) == Option::<(Option<Seq<char>>, int)>::Some(
        (m.assigned_to, o6),
    ));
    assert(sp_read_status(b, o6) == Option::<(GigStatus, int)>::Some((m.status, o7)));
    assert(sp_read_u64(b, o7) == Option::<(u64, int)>::Some((m.created_at, o8)));
    assert(sp_read_opt_u64(b, o8) == Option::<(Option<u64>, int)>::Some((m.updated_at, o9)));
    assert(spec_parse(b) == Option::<GigModel>::Some(m));
}

/// Relies on String::from_utf8: it succeeds exactly on valid UTF-8 input
/// and returns the string those bytes encode.
#[verifier::external_body]
fn bytes_to_string(b: Vec<u8>) -> (r: Option<String>)
    ensures
        match r {
            Option::Some(s) => valid_utf8(b@) && s@ == decode_utf8(b@),
            Option::None => !valid_utf8(b@),
        },
{
    String::from_utf8(b).ok()
}

/// Whether two byte vectors hold the same bytes.
pub fn bytes_eq(a: &Vec<u8>, b: &Vec<u8>) -> (r: bool)
    ensures
        r <==> a@ == b@,
{
    let n = a.len();
    if n != b.len() {
        return false;
    }
    let mut i: usize = 0;
    while i < n
        invariant
            n == a@.len(),
            n == b@.len(),
            i <= n,
            forall|j: int| 0 <= j < i ==> a@[j] == b@[j],
        decreases n - i,
    {
        if a[i] != b[i] {
            return false;
        }
        i = i + 1;
    }
    proof {
        assert(a@ =~= b@);
    }
    true
}

/// Reads an eight-byte little-endian integer.
fn read_u64(b: &Vec<u8>, pos: usize) -> (r: Option<(u64, usize)>)
    requires
        pos <= b@.len(),
    ensures
        match sp_read_u64(b@, pos as int) {
            Option::Some((x, p)) => (r matches Some(xp) && xp.0 == x && xp.1 == p),
            Option::None => r is None,
        },
{
    if b.len() - pos < 8 {
        return None;
    }
    let b0: u64 = b[pos] as u64;
    let b1: u64 = b[pos + 1] as u64;
    let b2: u64 = b[pos + 2] as u64;
    let b3: u64 = b[pos + 3] as u64;
    let b4: u64 = b[pos + 4] as u64;
    let b5: u64 = b[pos + 5] as u64;
    let b6: u64 = b[pos + 6] as u64;
    let b7: u64 = b[pos + 7] as u64;
    let x: u64 = b0 | (b1 << 8) | (b2 << 16) | (b3 << 24) | (b4 << 32) | (b5 << 40) | (b6 << 48)
        | (b7 << 56);
    proof {
        let s = b@.subrange(pos as int, pos as int + 8);
        assert(s[0] == b@[pos as int] && s[1] == b@[pos as int + 1] && s[2] == b@[pos as int + 2]
            && s[3] == b@[pos as int + 3] && s[4] == b@[pos as int + 4] && s[5] == b@[pos as int
            + 5] && s[6] == b@[pos as int + 6] && s[7] == b@[pos as int + 7]);
    }
    Some((x, pos + 8))
}

/// Reads a single byte.
fn read_tag(b: &Vec<u8>, pos: usize) -> (r: Option<(u8, usize)>)
    requires
        pos <= b@.len(),
    ensures
        match sp_read_tag(b@, pos as int) {
            Option::Some((t, p)) => (r matches Some(tp) && tp.0 == t && tp.1 == p),
            Option::None => r is None,
        },
{
    if pos < b.len() {
        Some((b[pos], pos + 1))
    } else {
        None
    }
}

/// Copies a range of bytes into a fresh vector.
fn read_chunk(b: &Vec<u8>, pos: usize, n: usize) -> (r: Vec<u8>)
    requires
        pos + n <= b@.len(),
    ensures
        r@ == b@.subrange(pos as int, pos as int + n as int),
{
    let blen = b.len();
    let mut out: Vec<u8> = Vec::new();
    let mut i: usize = 0;
    while i < n
        invariant
            blen == b@.len(),
            pos + n <= blen,
            i <= n,
            out@ == b@.subrange(pos as int, pos as int + i as int),
        decreases n - i,
    {
        out.push(b[pos + i]);
        i = i + 1;
        assert(out@ =~= b@.subrange(pos as int, pos as int + i as int));
    }
    out
}

/// Reads a length-prefixed text field.
fn read_str(b: &Vec<u8>, pos: usize) -> (r: Option<(String, usize)>)
    requires
        pos <= b@.len(),
    ensures
        match sp_read_str(b@, pos as int) {
            Option::Some((s, p)) => (r matches Some(sp) && sp.0@ == s && sp.1 == p),
            Option::None => r is None,
        },
{
    let (n64, p) = match read_u64(b, pos) {
        None => {
            return None;
        },
        Some(xp) => xp,
    };
    if n64 > (b.len() - p) as u64 {
        return None;
    }
    let n = n64 as usize;
    let chunk = read_chunk(b, p, n);
    match bytes_to_string(chunk) {
        None => None,
        Some(s) => Some((s, p + n)),
    }
}

/// Deserializes a gig record; yields nothing unless the whole byte string is
/// a well-formed serialized gig.
pub fn decode_gig(b: &Vec<u8>) -> (r: Option<Gig>)
    ensures
        match spec_parse(b@) {
            Option::Some(m) => (r matches Some(g) && g@ == m),
            Option::None => r is None,
        },
{
    let (id, p1) = match read_u64(b, 0) {
        None => {
            return None;
        },
        Some(v) => v,
    };
    let (title, p2) = match read_str(b, p1) {
        None => {
            return None;
        },
        Some(v) => v,
    };
    let (description, p3) = match read_str(b, p2) {
        None => {
            return None;
        },
        Some(v) => v,
    };
    let (employer, p4) = match read_str(b, p3) {
        None => {
            return None;
        },
        Some(v) => v,
    };
    let (deadline, p5) = match read_u64(b, p4) {
        None => {
            return None;
        },
        Some(v) => v,
    };
    let (tag_a, p5a) = match read_tag(b, p5) {
        None => {
            return None;
        },
        Some(v) => v,
    };
    let (assigned_to, p6) = if tag_a == 0 {
        (None, p5a)
    } else if tag_a == 1 {
        match read_str(b, p5a) {
            None => {
                return None;
            },
            Some((w, p)) => (Some(w), p),
        }
    } else {
        return None;
    };
    let (tag_s, p7) = match read_tag(b, p6) {
        None => {
            return None;
        },
        Some(v) => v,
    };
    let status = if tag_s == 0 {
        GigStatus::Open
    } else if tag_s == 1 {
        GigStatus::Assigned
    } else if tag_s == 2 {
        GigStatus::Approved
    } else if tag_s == 3 {
        GigStatus::Disputed
    } else {
        return None;
    };
    let (created_at, p8) = match read_u64(b, p7) {
        None => {
            return None;
        },
        Some(v) => v,
    };
    let (tag_u, p8a) = match read_tag(b, p8) {
        None => {
            return None;
        },
        Some(v) => v,
    };
    let (updated_at, p9) = if tag_u == 0 {
        (None, p8a)
    } else if tag_u == 1 {
        match read_u64(b, p8a) {
            None => {
                return None;
            },
            Some((t, p)) => (Some(t), p),
        }
    } else {
        return None;
    };
    if p9 != b.len() {
        return None;
    }
    Some(
        Gig {
            id,
            title,
            description,
            employer,
            deadline,
            assigned_to,
            status,
            created_at,
            updated_at,
        },
    )
}

} // verus!
