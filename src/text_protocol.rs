//! The pipe-delimited text tracking protocol.
//!
//! A datagram is UTF-8 text of `|`-separated tokens. A token `key#v1,v2,...`
//! carries a vector (`=head` carries head rotation then head position,
//! `rightEye` and `leftEye` an eye rotation); a token `key-value` carries a
//! blend-shape weight in hundredths. Numbers of vectors are kept as their
//! field text: the host reads them as floating point, an unreadable or missing
//! field as zero.
use vstd::prelude::*;

use crate::chars::{
    chars_eq, chars_of, find_char, find_from, find_in, lemma_find_from_range, lower_of, string_of,
    sub_chars, to_lowercase,
};
use crate::frame::{TrackingFrame, Vector3};
use vstd::utf8::{decode_utf8, valid_utf8};

verus! {

/// `s` cut at every `sep`; an empty `s` gives one empty piece.
pub open spec fn split_on(s: Seq<char>, sep: char) -> Seq<Seq<char>>
    decreases s.len(),
{
    if s.len() == 0 {
        seq![Seq::empty()]
    } else {
        let rest = split_on(s.drop_last(), sep);
        if s.last() == sep {
            rest.push(Seq::empty())
        } else {
            rest.update(rest.len() - 1, rest.last().push(s.last()))
        }
    }
}

proof fn lemma_split_on_nonempty(s: Seq<char>, sep: char)
    ensures
        split_on(s, sep).len() >= 1,
    decreases s.len(),
{
    if s.len() > 0 {
        lemma_split_on_nonempty(s.drop_last(), sep);
    }
}

/// The pieces of `v[lo..hi]` cut at every `sep`.
fn split_range(v: &Vec<char>, lo: usize, hi: usize, sep: char) -> (r: Vec<Vec<char>>)
    requires
        lo <= hi <= v@.len(),
    ensures
        r@.map_values(|p: Vec<char>| p@) == split_on(v@.subrange(lo as int, hi as int), sep),
{
    let mut done: Vec<Vec<char>> = Vec::new();
    let mut cur: Vec<char> = Vec::new();
    let mut i = lo;
    proof {
        assert(v@.subrange(lo as int, lo as int) =~= Seq::<char>::empty());
        assert(done@.map_values(|p: Vec<char>| p@).push(cur@) =~= seq![Seq::<char>::empty()]);
    }
    while i < hi
        invariant
            lo <= i <= hi <= v@.len(),
            done@.map_values(|p: Vec<char>| p@).push(cur@) == split_on(
                v@.subrange(lo as int, i as int),
                sep,
            ),
        decreases hi - i,
    {
        let c = v[i];
        let ghost before = v@.subrange(lo as int, i as int);
        let ghost after = v@.subrange(lo as int, i + 1);
        assert(after.drop_last() == before);
        assert(after.last() == c);
        if c == sep {
            let piece = cur;
            done.push(piece);
            cur = Vec::new();
            proof {
                assert(done@.map_values(|p: Vec<char>| p@) =~= split_on(before, sep));
                assert(done@.map_values(|p: Vec<char>| p@).push(cur@) =~= split_on(after, sep));
            }
        } else {
            cur.push(c);
            proof {
                let rest = split_on(before, sep);
                assert(done@.map_values(|p: Vec<char>| p@).push(cur@) =~= rest.update(
                    rest.len() - 1,
                    rest.last().push(c),
                ));
            }
        }
        i = i + 1;
    }
    done.push(cur);
    done
}

/// `s[i..]` with every non-overlapping occurrence of `p`, left to right,
/// replaced by `r`.
pub open spec fn replace_from(s: Seq<char>, p: Seq<char>, r: Seq<char>, i: int) -> Seq<char>
    decreases s.len() - i,
{
    if i < 0 || i >= s.len() {
        Seq::empty()
    } else if p.len() > 0 && i + p.len() <= s.len() && s.subrange(i, i + p.len()) == p {
        r + replace_from(s, p, r, i + p.len())
    } else {
        seq![s[i]] + replace_from(s, p, r, i + 1)
    }
}

/// `s` with every non-overlapping occurrence of `p`, left to right, replaced by `r`.
pub open spec fn replace_all(s: Seq<char>, p: Seq<char>, r: Seq<char>) -> Seq<char> {
    replace_from(s, p, r, 0)
}

/// Whether `v` holds `p` at position `i`.
fn occurs_at(v: &Vec<char>, i: usize, p: &Vec<char>) -> (r: bool)
    requires
        i <= v@.len(),
    ensures
        r == (i + p@.len() <= v@.len() && v@.subrange(i as int, i + p@.len()) == p@),
{
    let n = v.len();
    if p.len() > n - i {
        return false;
    }
    let mut k: usize = 0;
    while k < p.len()
        invariant
            n == v@.len(),
            i <= v@.len(),
            i + p@.len() <= v@.len(),
            k <= p@.len(),
            v@.subrange(i as int, i + k) == p@.subrange(0, k as int),
        decreases p@.len() - k,
    {
        if v[i + k] != p[k] {
            assert(v@.subrange(i as int, i + p@.len())[k as int] != p@[k as int]);
            return false;
        }
        assert(v@.subrange(i as int, i + k + 1) == v@.subrange(i as int, i + k).push(v@[i + k]));
        assert(p@.subrange(0, k + 1) == p@.subrange(0, k as int).push(p@[k as int]));
        k = k + 1;
    }
    assert(p@.subrange(0, k as int) == p@);
    true
}

/// `v` with every non-overlapping occurrence of `p`, left to right, replaced by `r`.
fn replace_chars(v: &Vec<char>, p: &Vec<char>, r: &Vec<char>) -> (out: Vec<char>)
    ensures
        out@ == replace_all(v@, p@, r@),
{
    let mut out: Vec<char> = Vec::new();
    let mut i: usize = 0;
    while i < v.len()
        invariant
            i <= v@.len(),
            out@ + replace_from(v@, p@, r@, i as int) == replace_all(v@, p@, r@),
        decreases v@.len() - i,
    {
        if p.len() > 0 && occurs_at(v, i, p) {
            let ghost before = out@;
            let mut k: usize = 0;
            while k < r.len()
                invariant
                    k <= r@.len(),
                    out@ == before + r@.subrange(0, k as int),
                decreases r@.len() - k,
            {
                out.push(r[k]);
                assert(r@.subrange(0, k + 1) == r@.subrange(0, k as int).push(r@[k as int]));
                k = k + 1;
            }
            assert(r@.subrange(0, k as int) == r@);
            assert(before + (r@ + replace_from(v@, p@, r@, i + p@.len())) == out@ + replace_from(
                v@,
                p@,
                r@,
                i + p@.len(),
            ));
            i = i + p.len();
        } else {
            let ghost before = out@;
            out.push(v[i]);
            assert(before + (seq![v@[i as int]] + replace_from(v@, p@, r@, i + 1)) == out@
                + replace_from(v@, p@, r@, i + 1));
            i = i + 1;
        }
    }
    assert(out@ + replace_from(v@, p@, r@, i as int) == out@ + Seq::<char>::empty());
    out
}

/// The value of a run of decimal digits.
pub open spec fn digits_value(d: Seq<char>) -> int
    decreases d.len(),
{
    if d.len() == 0 {
        0
    } else {
        digits_value(d.drop_last()) * 10 + (d.last() as int - '0' as int)
    }
}

/// Whether every character of `d` is a decimal digit.
pub open spec fn all_digits(d: Seq<char>) -> bool {
    forall|i: int| 0 <= i < d.len() ==> '0' <= #[trigger] d[i] <= '9'
}

/// The `i16` that `s` writes: an optional `+` or `-`, then one or more decimal
/// digits, whose value fits.
pub open spec fn parse_i16(s: Seq<char>) -> Option<i16> {
    let neg = s.len() > 0 && s[0] == '-';
    let signed = s.len() > 0 && (s[0] == '-' || s[0] == '+');
    let d = if signed { s.subrange(1, s.len() as int) } else { s };
    let v = if neg { -digits_value(d) } else { digits_value(d) };
    if d.len() == 0 || !all_digits(d) || v < -32768 || v > 32767 {
        None
    } else {
        Some(v as i16)
    }
}

proof fn lemma_digits_value_grows(d: Seq<char>, k: int)
    requires
        all_digits(d),
        0 <= k <= d.len(),
    ensures
        0 <= digits_value(d.subrange(0, k)) <= digits_value(d),
    decreases d.len() - k,
{
    if k < d.len() {
        lemma_digits_value_grows(d, k + 1);
        let t = d.subrange(0, k + 1);
        assert(t.drop_last() == d.subrange(0, k));
        assert('0' <= d[k] <= '9');
    } else {
        assert(d.subrange(0, k) == d);
        lemma_digits_nonneg(d);
    }
}

proof fn lemma_digits_nonneg(d: Seq<char>)
    requires
        all_digits(d),
    ensures
        digits_value(d) >= 0,
    decreases d.len(),
{
    if d.len() > 0 {
        assert(all_digits(d.drop_last()));
        lemma_digits_nonneg(d.drop_last());
        assert('0' <= d[d.len() - 1] <= '9');
    }
}

/// Reads `v` as an `i16`, as [`parse_i16`] says.
fn read_i16(v: &Vec<char>) -> (r: Option<i16>)
    ensures
        r == parse_i16(v@),
{
    let neg = v.len() > 0 && v[0] == '-';
    let signed = v.len() > 0 && (v[0] == '-' || v[0] == '+');
    let start: usize = if signed { 1 } else { 0 };
    let ghost d = if signed { v@.subrange(1, v@.len() as int) } else { v@ };
    if start == v.len() {
        return None;
    }
    let mut acc: u32 = 0;
    let mut i = start;
    while i < v.len()
        invariant
            start <= i <= v@.len(),
            start < v@.len(),
            neg == (v@.len() > 0 && v@[0] == '-'),
            signed == (v@.len() > 0 && (v@[0] == '-' || v@[0] == '+')),
            start == (if signed { 1usize } else { 0usize }),
            d == (if signed { v@.subrange(1, v@.len() as int) } else { v@ }),
            d == v@.subrange(start as int, v@.len() as int),
            forall|k: int| 0 <= k < i - start ==> '0' <= #[trigger] d[k] <= '9',
            acc as int == digits_value(d.subrange(0, i - start)),
            acc <= 32768,
        decreases v@.len() - i,
    {
        let c = v[i];
        assert(d[i - start] == c);
        if c < '0' || c > '9' {
            assert(!('0' <= d[i - start] <= '9'));
            assert(!all_digits(d));
            return None;
        }
        let next = acc * 10 + (c as u32 - '0' as u32);
        proof {
            let t = d.subrange(0, i - start + 1);
            assert(t.drop_last() == d.subrange(0, i - start));
            assert(t.last() == c);
            assert(digits_value(t) == next as int);
        }
        if next > 32768 {
            proof {
                if all_digits(d) {
                    lemma_digits_value_grows(d, i - start + 1);
                }
            }
            return None;
        }
        acc = next;
        i = i + 1;
    }
    assert(d.subrange(0, i - start) == d);
    if neg {
        Some((0 - acc as i32) as i16)
    } else if acc > 32767 {
        None
    } else {
        Some(acc as i16)
    }
}

/// Something in a datagram that was skipped.
#[derive(Debug, Clone, PartialEq, Eq)]
pub enum TextIssue {
    /// The datagram is not UTF-8; nothing was read.
    InvalidUtf8,
    /// A `key#values` token whose key is not known.
    UnknownKey { key: String },
    /// A non-empty token of neither form.
    Unrecognized { token: String },
    /// A `key-value` token whose value is not an `i16`; the weight is zero.
    UnreadableWeight { key: String, value: String },
}

/// What a [`TextIssue`] stands for.
pub enum TextIssueModel {
    InvalidUtf8,
    UnknownKey { key: Seq<char> },
    Unrecognized { token: Seq<char> },
    UnreadableWeight { key: Seq<char>, value: Seq<char> },
}

impl View for TextIssue {
    type V = TextIssueModel;

    open spec fn view(&self) -> TextIssueModel {
        match self {
            TextIssue::InvalidUtf8 => TextIssueModel::InvalidUtf8,
            TextIssue::UnknownKey { key } => TextIssueModel::UnknownKey { key: key@ },
            TextIssue::Unrecognized { token } => TextIssueModel::Unrecognized { token: token@ },
            TextIssue::UnreadableWeight { key, value } => TextIssueModel::UnreadableWeight {
                key: key@,
                value: value@,
            },
        }
    }
}

/// A decoded datagram: vectors as field text, blend-shape weights in
/// hundredths, and what was skipped, in order.
#[derive(Debug, Clone)]
pub struct TextDecoded {
    pub frame: TrackingFrame<String, i16>,
    pub issues: Vec<TextIssue>,
}

/// What a [`TextDecoded`] stands for.
pub struct TextModel {
    pub head_rotation: Option<Vector3<Seq<char>>>,
    pub head_position: Option<Vector3<Seq<char>>>,
    pub left_eye_rotation: Option<Vector3<Seq<char>>>,
    pub right_eye_rotation: Option<Vector3<Seq<char>>>,
    pub blend_shapes: Map<Seq<char>, i16>,
    pub issues: Seq<TextIssueModel>,
}

/// The view of an optional vector of strings.
pub open spec fn opt_vector_view(o: Option<Vector3<String>>) -> Option<Vector3<Seq<char>>> {
    match o {
        Some(v) => Some(v@),
        None => None,
    }
}

impl View for TextDecoded {
    type V = TextModel;

    open spec fn view(&self) -> TextModel {
        TextModel {
            head_rotation: opt_vector_view(self.frame.head_rotation),
            head_position: opt_vector_view(self.frame.head_position),
            left_eye_rotation: opt_vector_view(self.frame.left_eye_rotation),
            right_eye_rotation: opt_vector_view(self.frame.right_eye_rotation),
            blend_shapes: self.frame.blend_shapes.map(),
            issues: self.issues@.map_values(|i: TextIssue| i@),
        }
    }
}

impl TextDecoded {
    /// The blend-shape table has unique names.
    pub open spec fn wf(&self) -> bool {
        self.frame.blend_shapes.wf()
    }
}

/// Nothing read yet.
pub open spec fn empty_model() -> TextModel {
    TextModel {
        head_rotation: None,
        head_position: None,
        left_eye_rotation: None,
        right_eye_rotation: None,
        blend_shapes: Map::empty(),
        issues: Seq::empty(),
    }
}

/// Field `i` of `parts`, or the empty text past the end.
pub open spec fn field(parts: Seq<Seq<char>>, i: int) -> Seq<char> {
    if 0 <= i < parts.len() {
        parts[i]
    } else {
        Seq::empty()
    }
}

/// Fields `i`, `i + 1` and `i + 2` of `parts` as a vector.
pub open spec fn vector_at(parts: Seq<Seq<char>>, i: int) -> Vector3<Seq<char>> {
    Vector3 { x: field(parts, i), y: field(parts, i + 1), z: field(parts, i + 2) }
}

/// The blend-shape name that key `k` stands for: `_L` written `left`, `_R`
/// written `right`, then lowercase.
pub open spec fn blend_key(k: Seq<char>) -> Seq<char> {
    lower_of(replace_all(replace_all(k, "_L"@, "left"@), "_R"@, "right"@))
}

/// The weight, in hundredths, that `v` writes; zero when it writes none.
pub open spec fn blend_weight(v: Seq<char>) -> i16 {
    match parse_i16(v) {
        Some(n) => n,
        None => 0,
    }
}

/// The issues `is`, with one more when `v` writes no weight for key `k`.
pub open spec fn note_weight(is: Seq<TextIssueModel>, k: Seq<char>, v: Seq<char>) -> Seq<
    TextIssueModel,
> {
    if parse_i16(v) is None {
        is.push(TextIssueModel::UnreadableWeight { key: k, value: v })
    } else {
        is
    }
}

/// `m` after reading token `t`.
pub open spec fn apply_token(m: TextModel, t: Seq<char>) -> TextModel {
    match find_char(t, '#') {
        Some(h) => {
            let k = t.subrange(0, h);
            let parts = split_on(t.subrange(h + 1, t.len() as int), ',');
            if k == "=head"@ {
                TextModel {
                    head_rotation: Some(vector_at(parts, 0)),
                    head_position: Some(vector_at(parts, 3)),
                    ..m
                }
            } else if k == "rightEye"@ {
                TextModel { right_eye_rotation: Some(vector_at(parts, 0)), ..m }
            } else if k == "leftEye"@ {
                TextModel { left_eye_rotation: Some(vector_at(parts, 0)), ..m }
            } else {
                TextModel { issues: m.issues.push(TextIssueModel::UnknownKey { key: k }), ..m }
            }
        },
        None => match find_char(t, '-') {
            Some(d) => TextModel {
                blend_shapes: m.blend_shapes.insert(
                    blend_key(t.subrange(0, d)),
                    blend_weight(t.subrange(d + 1, t.len() as int)),
                ),
                issues: note_weight(
                    m.issues,
                    t.subrange(0, d),
                    t.subrange(d + 1, t.len() as int),
                ),
                ..m
            },
            None => if t.len() == 0 {
                m
            } else {
                TextModel { issues: m.issues.push(TextIssueModel::Unrecognized { token: t }), ..m }
            },
        },
    }
}

/// `m` after reading the tokens `ts` in order.
pub open spec fn apply_tokens(m: TextModel, ts: Seq<Seq<char>>) -> TextModel
    decreases ts.len(),
{
    if ts.len() == 0 {
        m
    } else {
        apply_token(apply_tokens(m, ts.drop_last()), ts.last())
    }
}

/// What the text `s` decodes to.
pub open spec fn decode_text_spec(s: Seq<char>) -> TextModel {
    apply_tokens(empty_model(), split_on(s, '|'))
}

/// What the datagram `b` decodes to: its text, or nothing but an issue when
/// it is not UTF-8.
pub open spec fn decode_bytes_spec(b: Seq<u8>) -> TextModel {
    if valid_utf8(b) {
        decode_text_spec(decode_utf8(b))
    } else {
        TextModel { issues: seq![TextIssueModel::InvalidUtf8], ..empty_model() }
    }
}

/// Field `i` of `parts` as a string.
fn field_text(parts: &Vec<Vec<char>>, i: usize) -> (r: String)
    ensures
        r@ == field(parts@.map_values(|p: Vec<char>| p@), i as int),
{
    if i < parts.len() {
        string_of(&parts[i])
    } else {
        String::new()
    }
}

/// Fields `i`, `i + 1` and `i + 2` of `parts` as a vector.
fn vector_text(parts: &Vec<Vec<char>>, i: usize) -> (r: Vector3<String>)
    requires
        i + 2 <= usize::MAX,
    ensures
        r@ == vector_at(parts@.map_values(|p: Vec<char>| p@), i as int),
{
    Vector3 { x: field_text(parts, i), y: field_text(parts, i + 1), z: field_text(parts, i + 2) }
}

/// The blend-shape name that key `k` stands for, as [`blend_key`] says.
fn blend_name(k: &Vec<char>) -> (r: String)
    ensures
        r@ == blend_key(k@),
{
    let a = replace_chars(k, &chars_of("_L"), &chars_of("left"));
    let b = replace_chars(&a, &chars_of("_R"), &chars_of("right"));
    let s = string_of(&b);
    to_lowercase(s.as_str())
}

/// Reads token `t` into `out`, as [`apply_token`] says.
fn read_token(out: &mut TextDecoded, t: &Vec<char>)
    requires
        old(out).wf(),
    ensures
        final(out).wf(),
        final(out)@ == apply_token(old(out)@, t@),
{
    let ghost issues0 = old(out).issues@;
    let n = t.len();
    match find_in(t, '#') {
        Some(h) => {
            proof {
                lemma_find_from_range(t@, '#', 0);
            }
            let k = sub_chars(t, 0, h);
            let parts = split_range(t, h + 1, n, ',');
            if chars_eq(&k, &chars_of("=head")) {
                out.frame.head_rotation = Some(vector_text(&parts, 0));
                out.frame.head_position = Some(vector_text(&parts, 3));
            } else if chars_eq(&k, &chars_of("rightEye")) {
                out.frame.right_eye_rotation = Some(vector_text(&parts, 0));
            } else if chars_eq(&k, &chars_of("leftEye")) {
                out.frame.left_eye_rotation = Some(vector_text(&parts, 0));
            } else {
                let issue = TextIssue::UnknownKey { key: string_of(&k) };
                out.issues.push(issue);
                assert(out.issues@.map_values(|i: TextIssue| i@) =~= issues0.map_values(
                    |i: TextIssue| i@,
                ).push(issue@));
            }
        },
        None => match find_in(t, '-') {
            Some(d) => {
                proof {
                    lemma_find_from_range(t@, '-', 0);
                }
                let k = sub_chars(t, 0, d);
                let v = sub_chars(t, d + 1, n);
                let name = blend_name(&k);
                let w = match read_i16(&v) {
                    Some(n) => n,
                    None => {
                        let issue = TextIssue::UnreadableWeight {
                            key: string_of(&k),
                            value: string_of(&v),
                        };
                        out.issues.push(issue);
                        assert(out.issues@.map_values(|i: TextIssue| i@) =~= issues0.map_values(
                            |i: TextIssue| i@,
                        ).push(issue@));
                        0
                    },
                };
                out.frame.blend_shapes.insert(name, w);
            },
            None => {
                if t.len() > 0 {
                    let issue = TextIssue::Unrecognized { token: string_of(t) };
                    out.issues.push(issue);
                    assert(out.issues@.map_values(|i: TextIssue| i@) =~= issues0.map_values(
                        |i: TextIssue| i@,
                    ).push(issue@));
                }
            },
        },
    }
}

/// Decodes the text `s`, as [`decode_text_spec`] says.
pub fn decode_text(s: &str) -> (r: TextDecoded)
    ensures
        r.wf(),
        r@ == decode_text_spec(s@),
{
    let v = chars_of(s);
    let toks = split_range(&v, 0, v.len(), '|');
    let ghost ts = toks@.map_values(|p: Vec<char>| p@);
    assert(v@.subrange(0, v@.len() as int) == s@);
    let mut out = TextDecoded { frame: TrackingFrame::empty(), issues: Vec::new() };
    assert(out@ == empty_model()) by {
        assert(out.issues@.map_values(|i: TextIssue| i@) =~= Seq::<TextIssueModel>::empty());
    }
    let mut i: usize = 0;
    while i < toks.len()
        invariant
            i <= toks@.len(),
            ts == toks@.map_values(|p: Vec<char>| p@),
            out.wf(),
            out@ == apply_tokens(empty_model(), ts.subrange(0, i as int)),
        decreases toks@.len() - i,
    {
        read_token(&mut out, &toks[i]);
        assert(ts.subrange(0, i + 1).drop_last() == ts.subrange(0, i as int));
        i = i + 1;
    }
    assert(ts.subrange(0, i as int) == ts);
    out
}

/// Relies on `std::str::from_utf8`: it succeeds exactly on well-formed UTF-8,
/// and the text then holds the characters that the bytes encode.
#[verifier::external_body]
fn utf8_text(b: &[u8]) -> (r: Option<&str>)
    ensures
        r is Some <==> valid_utf8(b@),
        r matches Some(s) ==> s@ == decode_utf8(b@),
{
    std::str::from_utf8(b).ok()
}

/// Decoders of tracking datagrams.
pub struct DataParser;

impl DataParser {
    /// Decodes a datagram of the text protocol, as [`decode_bytes_spec`] says.
    pub fn ifacial_mocap(data: &[u8]) -> (r: TextDecoded)
        ensures
            r.wf(),
            r@ == decode_bytes_spec(data@),
    {
        match utf8_text(data) {
            Some(s) => decode_text(s),
            None => {
                let mut out = TextDecoded { frame: TrackingFrame::empty(), issues: Vec::new() };
                out.issues.push(TextIssue::InvalidUtf8);
                assert(out.issues@.map_values(|i: TextIssue| i@) =~= seq![TextIssueModel::InvalidUtf8]);
                out
            },
        }
    }
}

/// The pieces of `vs` written one after another with `sep` between them.
pub open spec fn join_with(vs: Seq<Seq<char>>, sep: char) -> Seq<char>
    decreases vs.len(),
{
    if vs.len() <= 1 {
        if vs.len() == 0 {
            Seq::empty()
        } else {
            vs[0]
        }
    } else {
        join_with(vs.drop_last(), sep).push(sep) + vs.last()
    }
}

/// Whether `c` occurs in `s`.
pub open spec fn holds_char(s: Seq<char>, c: char) -> bool {
    exists|i: int| 0 <= i < s.len() && s[i] == c
}

proof fn lemma_split_append_plain(x: Seq<char>, b: Seq<char>, sep: char)
    requires
        !holds_char(b, sep),
    ensures
        split_on(x + b, sep) == split_on(x, sep).update(
            split_on(x, sep).len() - 1,
            split_on(x, sep).last() + b,
        ),
    decreases b.len(),
{
    lemma_split_on_nonempty(x, sep);
    let sx = split_on(x, sep);
    if b.len() == 0 {
        assert(x + b == x);
        assert(sx.last() + b == sx.last());
        assert(sx.update(sx.len() - 1, sx.last()) == sx);
    } else {
        let bd = b.drop_last();
        assert(!holds_char(bd, sep)) by {
            if holds_char(bd, sep) {
                let i = choose|i: int| 0 <= i < bd.len() && bd[i] == sep;
                assert(b[i] == sep);
            }
        }
        lemma_split_append_plain(x, bd, sep);
        assert((x + b).drop_last() == x + bd);
        assert((x + b).last() == b.last());
        assert(b[b.len() - 1] != sep);
        assert((sx.last() + bd).push(b.last()) == sx.last() + b);
        let rest = split_on(x + bd, sep);
        assert(rest.update(rest.len() - 1, rest.last().push(b.last())) =~= sx.update(
            sx.len() - 1,
            sx.last() + b,
        ));
    }
}

/// Cutting pieces that do not hold the separator, joined by it, gives them back.
pub proof fn lemma_split_join(vs: Seq<Seq<char>>, sep: char)
    requires
        vs.len() >= 1,
        forall|i: int| 0 <= i < vs.len() ==> !holds_char(#[trigger] vs[i], sep),
    ensures
        split_on(join_with(vs, sep), sep) == vs,
    decreases vs.len(),
{
    if vs.len() == 1 {
        lemma_split_append_plain(Seq::empty(), vs[0], sep);
        assert(Seq::<char>::empty() + vs[0] == vs[0]);
        assert(split_on(Seq::<char>::empty(), sep) == seq![Seq::<char>::empty()]);
        assert(seq![Seq::<char>::empty()].update(0, Seq::<char>::empty() + vs[0]) =~= vs);
    } else {
        let d = vs.drop_last();
        lemma_split_join(d, sep);
        let x = join_with(d, sep).push(sep);
        assert(x.drop_last() == join_with(d, sep));
        assert(split_on(x, sep) == d.push(Seq::<char>::empty()));
        lemma_split_append_plain(x, vs.last(), sep);
        assert(Seq::<char>::empty() + vs.last() == vs.last());
        assert(d.push(Seq::<char>::empty()).update(d.len() as int, vs.last()) =~= vs);
    }
}

proof fn lemma_find_after_plain(a: Seq<char>, b: Seq<char>, c: char, i: int)
    requires
        0 <= i <= a.len(),
        forall|j: int| i <= j < a.len() ==> a[j] != c,
    ensures
        find_from(a + b, c, i) == (match find_from(b, c, 0) {
            Some(k) => Some(a.len() + k),
            None => None::<int>,
        }),
    decreases a.len() + b.len() - i,
{
    if i < a.len() {
        lemma_find_after_plain(a, b, c, i + 1);
    } else {
        lemma_find_shift(a, b, c, 0);
    }
}

proof fn lemma_find_shift(a: Seq<char>, b: Seq<char>, c: char, k: int)
    requires
        0 <= k <= b.len(),
    ensures
        find_from(a + b, c, a.len() + k) == (match find_from(b, c, k) {
            Some(j) => Some(a.len() + j),
            None => None::<int>,
        }),
    decreases b.len() - k,
{
    if k < b.len() {
        assert((a + b)[a.len() + k] == b[k]);
        lemma_find_shift(a, b, c, k + 1);
    }
}

proof fn lemma_find_none(s: Seq<char>, c: char, i: int)
    requires
        0 <= i,
        !holds_char(s, c),
    ensures
        find_from(s, c, i) is None,
    decreases s.len() - i,
{
    if i < s.len() {
        assert(s[i] != c);
        lemma_find_none(s, c, i + 1);
    }
}

proof fn lemma_join_plain(vs: Seq<Seq<char>>, sep: char, c: char)
    requires
        c != sep,
        forall|i: int| 0 <= i < vs.len() ==> !holds_char(#[trigger] vs[i], c),
    ensures
        !holds_char(join_with(vs, sep), c),
    decreases vs.len(),
{
    if vs.len() > 1 {
        let d = vs.drop_last();
        lemma_join_plain(d, sep, c);
        let j = join_with(vs, sep);
        if holds_char(j, c) {
            let i = choose|i: int| 0 <= i < j.len() && j[i] == c;
            let x = join_with(d, sep).push(sep);
            if i >= x.len() {
                assert(vs.last()[i - x.len()] == c);
                assert(holds_char(vs[vs.len() - 1], c));
            } else if i < x.len() - 1 {
                assert(join_with(d, sep)[i] == c);
            }
        }
    } else if vs.len() == 1 {
        assert(!holds_char(vs[0], c));
    }
}

/// Text without `|` is one token.
proof fn lemma_single_token(t: Seq<char>)
    requires
        !holds_char(t, '|'),
    ensures
        decode_text_spec(t) == apply_token(empty_model(), t),
{
    lemma_split_append_plain(Seq::empty(), t, '|');
    assert(Seq::<char>::empty() + t == t);
    assert(split_on(Seq::<char>::empty(), '|') == seq![Seq::<char>::empty()]);
    assert(split_on(t, '|') =~= seq![t]);
    assert(seq![t].drop_last() =~= Seq::<Seq<char>>::empty());
    assert(apply_tokens(empty_model(), Seq::<Seq<char>>::empty()) == empty_model());
}

/// A datagram of one `=head` token with six values, none holding `,`, `#` or
/// `|`, decodes to a head rotation of the first three values and a head
/// position of the last three.
pub proof fn lemma_head_token(vals: Seq<Seq<char>>)
    requires
        vals.len() == 6,
        forall|i: int|
            0 <= i < 6 ==> !holds_char(#[trigger] vals[i], ',') && !holds_char(vals[i], '#')
                && !holds_char(vals[i], '|'),
    ensures
        decode_text_spec("=head#"@ + join_with(vals, ',')).head_rotation == Some(
            Vector3 { x: vals[0], y: vals[1], z: vals[2] },
        ),
        decode_text_spec("=head#"@ + join_with(vals, ',')).head_position == Some(
            Vector3 { x: vals[3], y: vals[4], z: vals[5] },
        ),
{
    reveal_strlit("=head#");
    reveal_strlit("=head");
    let pre = "=head#"@;
    let body = join_with(vals, ',');
    let t = pre + body;
    lemma_split_join(vals, ',');
    lemma_join_plain(vals, ',', '#');
    lemma_join_plain(vals, ',', '|');
    assert(!holds_char(t, '|')) by {
        if holds_char(t, '|') {
            let i = choose|i: int| 0 <= i < t.len() && t[i] == '|';
            if i >= pre.len() {
                assert(body[i - pre.len()] == '|');
            }
        }
    }
    lemma_single_token(t);
    assert(t[0] == '=' && t[1] == 'h' && t[2] == 'e' && t[3] == 'a' && t[4] == 'd');
    assert(t[5] == '#');
    assert(find_from(t, '#', 5) == Some(5int));
    assert(find_from(t, '#', 4) == Some(5int));
    assert(find_from(t, '#', 3) == Some(5int));
    assert(find_from(t, '#', 2) == Some(5int));
    assert(find_from(t, '#', 1) == Some(5int));
    assert(find_from(t, '#', 0) == Some(5int));
    assert(t.subrange(0, 5) =~= "=head"@);
    assert(t.subrange(6, t.len() as int) =~= body);
}

/// A datagram of one token `key-value`, where `key` holds none of `-`, `#` and
/// `|` and `value` holds neither `#` nor `|`, decodes to exactly one blend shape:
/// the name that [`blend_key`] makes of `key`, weighing what [`blend_weight`]
/// reads from `value`, in hundredths; an issue is recorded exactly when
/// `value` is not an `i16`.
pub proof fn lemma_blend_token(key: Seq<char>, value: Seq<char>)
    requires
        !holds_char(key, '-') && !holds_char(key, '#') && !holds_char(key, '|'),
        !holds_char(value, '#') && !holds_char(value, '|'),
    ensures
        decode_text_spec(key + "-"@ + value).blend_shapes == map![
            blend_key(key) => blend_weight(value),
        ],
        decode_text_spec(key + "-"@ + value).head_rotation is None,
        decode_text_spec(key + "-"@ + value).issues == note_weight(Seq::empty(), key, value),
{
    reveal_strlit("-");
    let t = key + "-"@ + value;
    assert(t =~= key + (seq!['-'] + value));
    assert(!holds_char(t, '|')) by {
        if holds_char(t, '|') {
            let i = choose|i: int| 0 <= i < t.len() && t[i] == '|';
            if i < key.len() {
                assert(key[i] == '|');
            } else if i > key.len() {
                assert(value[i - key.len() - 1] == '|');
            }
        }
    }
    assert(!holds_char(t, '#')) by {
        if holds_char(t, '#') {
            let i = choose|i: int| 0 <= i < t.len() && t[i] == '#';
            if i < key.len() {
                assert(key[i] == '#');
            } else if i > key.len() {
                assert(value[i - key.len() - 1] == '#');
            }
        }
    }
    lemma_single_token(t);
    lemma_find_none(t, '#', 0);
    assert forall|j: int| 0 <= j < key.len() implies key[j] != '-' by {
        if key[j] == '-' {
            assert(holds_char(key, '-'));
        }
    }
    lemma_find_after_plain(key, seq!['-'] + value, '-', 0);
    assert((seq!['-'] + value)[0] == '-');
    assert(find_from(seq!['-'] + value, '-', 0) == Some(0int));
    assert(find_from(t, '-', 0) == Some(key.len() as int));
    assert(t.subrange(0, key.len() as int) =~= key);
    assert(t.subrange(key.len() as int + 1, t.len() as int) =~= value);
    assert(Map::<Seq<char>, i16>::empty().insert(blend_key(key), blend_weight(value)) =~= map![
        blend_key(key) => blend_weight(value),
    ]);
}

/// An empty datagram decodes to a frame with no vectors, no blend shapes and
/// no issues.
pub proof fn lemma_empty_datagram()
    ensures
        decode_bytes_spec(Seq::empty()) == empty_model(),
{
    assert(valid_utf8(Seq::<u8>::empty()));
    assert(decode_utf8(Seq::<u8>::empty()) =~= Seq::<char>::empty());
    assert(!holds_char(Seq::<char>::empty(), '|'));
    lemma_single_token(Seq::<char>::empty());
    assert(find_from(Seq::<char>::empty(), '#', 0) is None);
    assert(find_from(Seq::<char>::empty(), '-', 0) is None);
}

} // verus!
