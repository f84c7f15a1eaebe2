//! Recolouring of the piece artwork and the style sheet that embeds it.
//!
//! The artwork is SVG text drawn in black. Each piece is offered in several
//! colours by rewriting the black colour codes and by giving the root `<svg>`
//! element a default `fill`. All of it works on the bytes of the text.

use vstd::prelude::*;
use vstd::string::is_ascii_spec_bytes;

use crate::sheet::{lemma_lists_push, lists, Entry, RuleSheet};

verus! {

// ----- Bytes of ASCII literals -----

/// The bytes of an ASCII text, one per character.
pub open spec fn ascii(s: Seq<char>) -> Seq<u8> {
    Seq::new(s.len(), |i: int| s[i] as u8)
}

/// The bytes of a string literal made of ASCII characters.
pub(crate) fn literal(s: &'static str) -> (b: &'static [u8])
    requires
        vstd::string::is_ascii(s),
    ensures
        b@ == ascii(s@),
{
    proof {
        is_ascii_spec_bytes(s);
    }
    let b = s.as_bytes();
    assert(b@ =~= ascii(s@));
    b
}

/// Appends every byte of `other` to `v`.
pub(crate) fn push_all(v: &mut Vec<u8>, other: &[u8])
    ensures
        final(v)@ == old(v)@ + other@,
{
    let ghost start = v@;
    let mut i: usize = 0;
    while i < other.len()
        invariant
            i <= other.len(),
            v@ == start + other@.subrange(0, i as int),
        decreases other.len() - i,
    {
        v.push(other[i]);
        i += 1;
        assert(v@ =~= start + other@.subrange(0, i as int));
    }
    assert(other@.subrange(0, other.len() as int) =~= other@);
}

// ----- Case-insensitive matching -----

/// ASCII lower case of one byte; other bytes stay as they are.
pub open spec fn lower(b: u8) -> u8 {
    if 65 <= b <= 90 {
        (b + 32) as u8
    } else {
        b
    }
}

fn ascii_lower(b: u8) -> (r: u8)
    ensures
        r == lower(b),
{
    if 65 <= b && b <= 90 {
        b + 32
    } else {
        b
    }
}

/// `pat` occurs in `s` at position `i`, letters compared without regard to case.
pub open spec fn matches_ci_at(s: Seq<u8>, i: int, pat: Seq<u8>) -> bool {
    &&& 0 <= i
    &&& i + pat.len() <= s.len()
    &&& forall|k: int| 0 <= k < pat.len() ==> lower(s[i + k]) == lower(#[trigger] pat[k])
}

fn matches_ci(s: &[u8], i: usize, pat: &[u8]) -> (r: bool)
    requires
        i <= s.len(),
    ensures
        r == matches_ci_at(s@, i as int, pat@),
{
    if pat.len() > s.len() - i {
        return false;
    }
    let mut k: usize = 0;
    while k < pat.len()
        invariant
            k <= pat.len(),
            i + pat.len() <= s.len(),
            forall|j: int| 0 <= j < k ==> lower(s@[i + j]) == lower(#[trigger] pat@[j]),
        decreases pat.len() - k,
    {
        if ascii_lower(s[i + k]) != ascii_lower(pat[k]) {
            return false;
        }
        k += 1;
    }
    true
}

// ----- Replacing colour codes -----

/// `s` from position `i` on, with every occurrence of `from` (found left to
/// right, compared without regard to case, never overlapping) replaced by `to`.
pub open spec fn replaced_ci(s: Seq<u8>, from: Seq<u8>, to: Seq<u8>, i: nat) -> Seq<u8>
    decreases s.len() - i,
{
    if i >= s.len() {
        Seq::empty()
    } else if from.len() > 0 && matches_ci_at(s, i as int, from) {
        to + replaced_ci(s, from, to, i + from.len())
    } else {
        seq![s[i as int]] + replaced_ci(s, from, to, i + 1)
    }
}

/// Replaces each occurrence of `from` in `input`, in any letter case, by `to`.
pub fn replace_hex_color_ci(input: &[u8], from: &[u8], to: &[u8]) -> (res: Vec<u8>)
    requires
        from.len() > 0,
    ensures
        res@ == replaced_ci(input@, from@, to@, 0),
{
    let mut result: Vec<u8> = Vec::new();
    let mut i: usize = 0;
    while i < input.len()
        invariant
            i <= input.len(),
            from.len() > 0,
            result@ + replaced_ci(input@, from@, to@, i as nat) == replaced_ci(
                input@,
                from@,
                to@,
                0,
            ),
        decreases input.len() - i,
    {
        let ghost before = result@;
        if matches_ci(input, i, from) {
            push_all(&mut result, to);
            proof {
                let rest = replaced_ci(input@, from@, to@, (i + from.len()) as nat);
                assert(before + (to@ + rest) =~= (before + to@) + rest);
            }
            i += from.len();
        } else {
            result.push(input[i]);
            proof {
                let rest = replaced_ci(input@, from@, to@, (i + 1) as nat);
                assert(before + (seq![input@[i as int]] + rest) =~= before.push(input@[i as int])
                    + rest);
            }
            i += 1;
        }
    }
    result
}

/// `b` is an ASCII hexadecimal digit.
pub open spec fn is_hex_digit(b: u8) -> bool {
    (48 <= b <= 57) || (65 <= b <= 70) || (97 <= b <= 102)
}

/// A short colour code `from` at position `i` of `s` that does not run on
/// into a longer code: no hexadecimal digit follows it.
pub open spec fn short_code_at(s: Seq<u8>, i: int, from: Seq<u8>) -> bool {
    &&& matches_ci_at(s, i, from)
    &&& !(i + from.len() < s.len() && is_hex_digit(s[i + from.len()]))
}

/// `s` from position `i` on, with every short colour code `from` (see
/// `short_code_at`) replaced by `to`.
pub open spec fn replaced_short(s: Seq<u8>, from: Seq<u8>, to: Seq<u8>, i: nat) -> Seq<u8>
    decreases s.len() - i,
{
    if i >= s.len() {
        Seq::empty()
    } else if from.len() > 0 && short_code_at(s, i as int, from) {
        to + replaced_short(s, from, to, i + from.len())
    } else {
        seq![s[i as int]] + replaced_short(s, from, to, i + 1)
    }
}

/// Replaces each occurrence of the short colour code `from` in `input`, in any
/// letter case, by `to`, except where a hexadecimal digit follows it (there it
/// is the start of a longer code).
pub fn replace_short_hex_color(input: &[u8], from: &[u8], to: &[u8]) -> (res: Vec<u8>)
    requires
        from.len() > 0,
    ensures
        res@ == replaced_short(input@, from@, to@, 0),
{
    let mut result: Vec<u8> = Vec::new();
    let mut i: usize = 0;
    while i < input.len()
        invariant
            i <= input.len(),
            from.len() > 0,
            result@ + replaced_short(input@, from@, to@, i as nat) == replaced_short(
                input@,
                from@,
                to@,
                0,
            ),
        decreases input.len() - i,
    {
        let ghost before = result@;
        let found = matches_ci(input, i, from);
        let code = found && !(i + from.len() < input.len() && is_hex(input[i + from.len()]));
        if code {
            push_all(&mut result, to);
            proof {
                let rest = replaced_short(input@, from@, to@, (i + from.len()) as nat);
                assert(before + (to@ + rest) =~= (before + to@) + rest);
            }
            i += from.len();
        } else {
            result.push(input[i]);
            proof {
                let rest = replaced_short(input@, from@, to@, (i + 1) as nat);
                assert(before + (seq![input@[i as int]] + rest) =~= before.push(input@[i as int])
                    + rest);
            }
            i += 1;
        }
    }
    result
}

fn is_hex(b: u8) -> (r: bool)
    ensures
        r == is_hex_digit(b),
{
    (48 <= b && b <= 57) || (65 <= b && b <= 70) || (97 <= b && b <= 102)
}

// ----- The root element's `fill` attribute -----

/// Length of the whitespace character that starts at position `i` of the
/// UTF-8 text `t`, or 0 where none starts there. Whitespace is what
/// `char::is_whitespace` accepts: U+0009 to U+000D, U+0020, U+0085, U+00A0,
/// U+1680, U+2000 to U+200A, U+2028, U+2029, U+202F, U+205F and U+3000.
pub open spec fn ws_len(t: Seq<u8>, i: int) -> nat {
    if 0 <= i < t.len() && ((9 <= t[i] <= 13) || t[i] == 32) {
        1
    } else if 0 <= i && i + 1 < t.len() && t[i] == 0xc2 && (t[i + 1] == 0x85 || t[i + 1]
        == 0xa0) {
        2
    } else if 0 <= i && i + 2 < t.len() && ((t[i] == 0xe1 && t[i + 1] == 0x9a && t[i + 2]
        == 0x80) || (t[i] == 0xe2 && t[i + 1] == 0x80 && ((0x80 <= t[i + 2] <= 0x8a) || t[i
        + 2] == 0xa8 || t[i + 2] == 0xa9 || t[i + 2] == 0xaf)) || (t[i] == 0xe2 && t[i + 1]
        == 0x81 && t[i + 2] == 0x9f) || (t[i] == 0xe3 && t[i + 1] == 0x80 && t[i + 2]
        == 0x80)) {
        3
    } else {
        0
    }
}

pub(crate) fn whitespace_len(t: &[u8], i: usize) -> (n: usize)
    requires
        i <= t.len(),
    ensures
        n == ws_len(t@, i as int),
{
    let len = t.len();
    if i < len && ((9 <= t[i] && t[i] <= 13) || t[i] == 32) {
        1
    } else if len - i > 1 && t[i] == 0xc2 && (t[i + 1] == 0x85 || t[i + 1] == 0xa0) {
        2
    } else if len - i > 2 && ((t[i] == 0xe1 && t[i + 1] == 0x9a && t[i + 2] == 0x80) || (t[i]
        == 0xe2 && t[i + 1] == 0x80 && ((0x80 <= t[i + 2] && t[i + 2] <= 0x8a) || t[i + 2]
        == 0xa8 || t[i + 2] == 0xa9 || t[i + 2] == 0xaf)) || (t[i] == 0xe2 && t[i + 1] == 0x81
        && t[i + 2] == 0x9f) || (t[i] == 0xe3 && t[i + 1] == 0x80 && t[i + 2] == 0x80)) {
        3
    } else {
        0
    }
}

/// After skipping the whitespace that starts at position `i` of `t`, the
/// next byte is `=`.
pub open spec fn eq_after_ws(t: Seq<u8>, i: nat) -> bool
    decreases t.len() - i,
{
    if i >= t.len() {
        false
    } else if ws_len(t, i as int) > 0 {
        eq_after_ws(t, i + ws_len(t, i as int))
    } else {
        t[i as int] == 61
    }
}

fn equals_after_whitespace(t: &[u8], start: usize) -> (r: bool)
    requires
        start <= t.len(),
    ensures
        r == eq_after_ws(t@, start as nat),
{
    let mut i = start;
    loop
        invariant
            start <= i <= t.len(),
            eq_after_ws(t@, start as nat) == eq_after_ws(t@, i as nat),
        decreases t.len() - i,
    {
        if i >= t.len() {
            return false;
        }
        let n = whitespace_len(t, i);
        if n == 0 {
            return t[i] == 61;
        }
        i += n;
    }
}

/// The word `fill` starts at position `p` of the tag text `t` and is used as
/// an attribute: an `=` follows it directly, or a space or tab follows it and
/// the first byte after the whitespace there is `=`.
pub open spec fn fill_at(t: Seq<u8>, p: int) -> bool {
    &&& 0 <= p
    &&& p + 4 < t.len()
    &&& t[p] == 102 && t[p + 1] == 105 && t[p + 2] == 108 && t[p + 3] == 108
    &&& (t[p + 4] == 61 || ((t[p + 4] == 32 || t[p + 4] == 9) && eq_after_ws(
        t,
        (p + 4) as nat,
    )))
}

/// The tag text `t` (in lower case) gives a `fill` attribute.
pub open spec fn has_fill(t: Seq<u8>) -> bool {
    exists|p: int| fill_at(t, p)
}

/// Whether the tag text `tag` (in lower case) gives a `fill` attribute.
pub fn has_fill_attribute(tag: &[u8]) -> (r: bool)
    ensures
        r == has_fill(tag@),
{
    let mut p: usize = 0;
    while p < tag.len()
        invariant
            p <= tag.len(),
            forall|q: int| 0 <= q < p ==> !fill_at(tag@, q),
        decreases tag.len() - p,
    {
        if tag.len() - p > 4 && tag[p] == 102 && tag[p + 1] == 105 && tag[p + 2] == 108 && tag[p
            + 3] == 108 {
            let next = tag[p + 4];
            if next == 61 {
                assert(fill_at(tag@, p as int));
                return true;
            }
            if (next == 32 || next == 9) && equals_after_whitespace(tag, p + 4) {
                assert(fill_at(tag@, p as int));
                return true;
            }
        }
        p += 1;
    }
    assert forall|q: int| !fill_at(tag@, q) by {
        if 0 <= q < tag.len() {
        }
    }
    false
}

/// The first position at or after `i` where `pat` occurs in `s`, letters
/// compared without regard to case.
pub open spec fn first_ci(s: Seq<u8>, pat: Seq<u8>, i: nat) -> Option<nat>
    decreases s.len() - i,
{
    if i >= s.len() {
        None
    } else if matches_ci_at(s, i as int, pat) {
        Some(i)
    } else {
        first_ci(s, pat, i + 1)
    }
}

fn find_ci(s: &[u8], pat: &[u8]) -> (r: Option<usize>)
    ensures
        r matches Some(p) ==> first_ci(s@, pat@, 0) == Some(p as nat),
        r is None ==> first_ci(s@, pat@, 0) is None,
{
    let mut i: usize = 0;
    while i < s.len()
        invariant
            i <= s.len(),
            first_ci(s@, pat@, 0) == first_ci(s@, pat@, i as nat),
        decreases s.len() - i,
    {
        if matches_ci(s, i, pat) {
            return Some(i);
        }
        i += 1;
    }
    None
}

/// The first position at or after `i` where the byte `b` stands in `s`.
pub open spec fn first_byte(s: Seq<u8>, b: u8, i: nat) -> Option<nat>
    decreases s.len() - i,
{
    if i >= s.len() {
        None
    } else if s[i as int] == b {
        Some(i)
    } else {
        first_byte(s, b, i + 1)
    }
}

pub(crate) fn find_byte(s: &[u8], b: u8, from: usize) -> (r: Option<usize>)
    requires
        from <= s.len(),
    ensures
        r matches Some(p) ==> first_byte(s@, b, from as nat) == Some(p as nat),
        r is None ==> first_byte(s@, b, from as nat) is None,
{
    let mut i: usize = from;
    while i < s.len()
        invariant
            from <= i <= s.len(),
            first_byte(s@, b, from as nat) == first_byte(s@, b, i as nat),
        decreases s.len() - i,
    {
        if s[i] == b {
            return Some(i);
        }
        i += 1;
    }
    None
}

/// Every byte of `s` in ASCII lower case.
pub open spec fn lowered(s: Seq<u8>) -> Seq<u8> {
    Seq::new(s.len(), |i: int| lower(s[i]))
}

/// `svg` with ` fill="<color>"` written into its first `<svg` tag (found
/// without regard to case) right after the tag's name, unless that tag
/// already gives a `fill` attribute or is not closed by a `>`.
pub open spec fn injected(svg: Seq<u8>, color: Seq<u8>) -> Seq<u8> {
    match first_ci(svg, ascii("<svg"@), 0) {
        None => svg,
        Some(start) => match first_byte(svg, 62, start) {
            None => svg,
            Some(end) => if has_fill(lowered(svg.subrange(start as int, end as int))) {
                svg
            } else {
                svg.subrange(0, start + 4int) + ascii(" fill=\""@) + color + ascii("\""@)
                    + svg.subrange(start + 4int, svg.len() as int)
            },
        },
    }
}

fn lowered_range(s: &[u8], from: usize, to: usize) -> (r: Vec<u8>)
    requires
        from <= to <= s.len(),
    ensures
        r@ == lowered(s@.subrange(from as int, to as int)),
{
    let mut r: Vec<u8> = Vec::new();
    let mut i = from;
    while i < to
        invariant
            from <= i <= to <= s.len(),
            r@ == lowered(s@.subrange(from as int, i as int)),
        decreases to - i,
    {
        r.push(ascii_lower(s[i]));
        i += 1;
        assert(r@ =~= lowered(s@.subrange(from as int, i as int)));
    }
    r
}

/// Gives the root `<svg>` element a default `fill` of `color` where it has
/// none of its own.
pub fn inject_fill_on_svg_root(svg: &[u8], color: &[u8]) -> (res: Vec<u8>)
    ensures
        res@ == injected(svg@, color@),
{
    let open_tag = "<svg";
    proof {
        reveal_strlit("<svg");
    }
    let pat = literal(open_tag);
    match find_ci(svg, pat) {
        None => slice_copy(svg),
        Some(start) => {
            proof {
                lemma_first_ci_found(svg@, pat@, 0);
                assert(pat@.len() == 4);
            }
            match find_byte(svg, 62, start) {
                None => slice_copy(svg),
                Some(end) => {
                    proof {
                        lemma_first_byte_found(svg@, 62, start as nat);
                    }
                    let tag = lowered_range(svg, start, end);
                    if has_fill_attribute(&tag) {
                        slice_copy(svg)
                    } else {
                        let attr = " fill=\"";
                        let quote = "\"";
                        proof {
                            reveal_strlit(" fill=\"");
                            reveal_strlit("\"");
                        }
                        let mut out: Vec<u8> = Vec::new();
                        push_range(&mut out, svg, 0, start + 4);
                        push_all(&mut out, literal(attr));
                        push_all(&mut out, color);
                        push_all(&mut out, literal(quote));
                        push_range(&mut out, svg, start + 4, svg.len());
                        out
                    }
                },
            }
        },
    }
}

proof fn lemma_first_ci_found(s: Seq<u8>, pat: Seq<u8>, i: nat)
    ensures
        first_ci(s, pat, i) matches Some(p) ==> i <= p < s.len() && matches_ci_at(
            s,
            p as int,
            pat,
        ),
    decreases s.len() - i,
{
    if i < s.len() && !matches_ci_at(s, i as int, pat) {
        lemma_first_ci_found(s, pat, i + 1);
    }
}

pub proof fn lemma_first_byte_found(s: Seq<u8>, b: u8, i: nat)
    ensures
        first_byte(s, b, i) matches Some(p) ==> i <= p < s.len() && s[p as int] == b,
    decreases s.len() - i,
{
    if i < s.len() && s[i as int] != b {
        lemma_first_byte_found(s, b, i + 1);
    }
}

/// A copy of the bytes of `s`.
pub(crate) fn slice_copy(s: &[u8]) -> (v: Vec<u8>)
    ensures
        v@ == s@,
{
    let mut v: Vec<u8> = Vec::new();
    push_all(&mut v, s);
    v
}

/// Appends the bytes of `s` from `from` up to `to` to `v`.
pub(crate) fn push_range(v: &mut Vec<u8>, s: &[u8], from: usize, to: usize)
    requires
        from <= to <= s.len(),
    ensures
        final(v)@ == old(v)@ + s@.subrange(from as int, to as int),
{
    let ghost start = v@;
    let mut i = from;
    while i < to
        invariant
            from <= i <= to <= s.len(),
            v@ == start + s@.subrange(from as int, i as int),
        decreases to - i,
    {
        v.push(s[i]);
        i += 1;
        assert(v@ =~= start + s@.subrange(from as int, i as int));
    }
}

// ----- Recolouring -----

/// The artwork `svg` drawn in `color` in place of black: `#000000` and the
/// short `#000` (in any letter case) become `color`, and the root element
/// gets `color` as its default fill.
pub open spec fn recolored(svg: Seq<u8>, color: Seq<u8>) -> Seq<u8> {
    injected(
        replaced_short(
            replaced_ci(svg, ascii("#000000"@), color, 0),
            ascii("#000"@),
            color,
            0,
        ),
        color,
    )
}

/// Recolours the black artwork `svg` to `color`.
pub fn replace_color(svg: &[u8], color: &[u8]) -> (res: Vec<u8>)
    ensures
        res@ == recolored(svg@, color@),
{
    let long_code = "#000000";
    let short_code = "#000";
    proof {
        reveal_strlit("#000000");
        reveal_strlit("#000");
    }
    let step = replace_hex_color_ci(svg, literal(long_code), color);
    let step = replace_short_hex_color(&step, literal(short_code), color);
    inject_fill_on_svg_root(&step, color)
}

// ----- Data URIs and style rules -----

/// The standard base64 encoding of `data`: the RFC 4648 alphabet with `=`
/// padding, as `base64::engine::general_purpose::STANDARD` produces it.
pub uninterp spec fn base64_standard(data: Seq<u8>) -> Seq<u8>;

/// Base64 of `data`.
///
/// Trusted: calls `base64::Engine::encode` with the `STANDARD` engine of the
/// `base64` crate and takes the bytes of the returned `String`. The contract
/// names the result `base64_standard(data)` and says nothing more of it. The
/// call panics only where the encoded length overflows `usize`, which a
/// length of at most `isize::MAX` rules out.
#[verifier::external_body]
fn encode_base64(data: &[u8]) -> (res: Vec<u8>)
    requires
        data.len() <= isize::MAX,
    ensures
        res@ == base64_standard(data@),
{
    base64::Engine::encode(&base64::engine::general_purpose::STANDARD, data).into_bytes()
}

/// The `data:` URI that embeds the SVG text `svg`.
pub open spec fn data_uri(svg: Seq<u8>) -> Seq<u8> {
    ascii("data:image/svg+xml;base64,"@) + base64_standard(svg)
}

/// The `data:` URI that embeds the SVG text `svg`, base64-encoded.
pub fn svg_to_data_uri(svg: &[u8]) -> (res: Vec<u8>)
    requires
        svg.len() <= isize::MAX,
    ensures
        res@ == data_uri(svg@),
{
    let prefix = "data:image/svg+xml;base64,";
    proof {
        reveal_strlit("data:image/svg+xml;base64,");
    }
    let mut out = slice_copy(literal(prefix));
    let encoded = encode_base64(svg);
    push_all(&mut out, &encoded);
    out
}

/// The style rule that shows the image `uri` on elements of class
/// `image-<class_name>`.
pub open spec fn css_rule_text(class_name: Seq<u8>, uri: Seq<u8>) -> Seq<u8> {
    ascii(".image-"@) + class_name + ascii(" { background-image: url(\""@) + uri + ascii(
        "\"); background-repeat: no-repeat; }"@,
    )
}

/// The style rule for class `image-<class_name>` with background `uri`.
pub fn css_rule(class_name: &[u8], uri: &[u8]) -> (res: Vec<u8>)
    ensures
        res@ == css_rule_text(class_name@, uri@),
{
    let head = ".image-";
    let middle = " { background-image: url(\"";
    let tail = "\"); background-repeat: no-repeat; }";
    proof {
        reveal_strlit(".image-");
        reveal_strlit(" { background-image: url(\"");
        reveal_strlit("\"); background-repeat: no-repeat; }");
    }
    let mut out = slice_copy(literal(head));
    push_all(&mut out, class_name);
    push_all(&mut out, literal(middle));
    push_all(&mut out, uri);
    push_all(&mut out, literal(tail));
    out
}

/// The colours each piece is drawn in: its name and its colour code.
pub open spec fn palette() -> Seq<(Seq<u8>, Seq<u8>)> {
    seq![
        (ascii("black"@), ascii("#000000"@)),
        (ascii("blue"@), ascii("#0000ff"@)),
        (ascii("red"@), ascii("#bf0000"@)),
    ]
}

/// The colours each piece is drawn in, as (name, colour code).
pub fn color_map() -> (res: Vec<(Vec<u8>, Vec<u8>)>)
    ensures
        res@.len() == palette().len(),
        forall|i: int|
            #![trigger res@[i]]
            0 <= i < res@.len() ==> (res@[i].0@ == palette()[i].0 && res@[i].1@
                == palette()[i].1),
{
    proof {
        reveal_strlit("black");
        reveal_strlit("#000000");
        reveal_strlit("blue");
        reveal_strlit("#0000ff");
        reveal_strlit("red");
        reveal_strlit("#bf0000");
    }
    let mut res: Vec<(Vec<u8>, Vec<u8>)> = Vec::new();
    res.push((slice_copy(literal("black")), slice_copy(literal("#000000"))));
    res.push((slice_copy(literal("blue")), slice_copy(literal("#0000ff"))));
    res.push((slice_copy(literal("red")), slice_copy(literal("#bf0000"))));
    res
}

/// `s` ends with `suffix`.
pub open spec fn ends_with(s: Seq<u8>, suffix: Seq<u8>) -> bool {
    suffix.len() <= s.len() && s.subrange(s.len() - suffix.len(), s.len() as int) == suffix
}

pub(crate) fn has_suffix(s: &[u8], suffix: &[u8]) -> (r: bool)
    ensures
        r == ends_with(s@, suffix@),
{
    if suffix.len() > s.len() {
        return false;
    }
    let base = s.len() - suffix.len();
    let mut k: usize = 0;
    while k < suffix.len()
        invariant
            base + suffix.len() == s.len(),
            k <= suffix.len(),
            forall|j: int| 0 <= j < k ==> s@[base + j] == #[trigger] suffix@[j],
        decreases suffix.len() - k,
    {
        if s[base + k] != suffix[k] {
            assert(s@.subrange(base as int, s.len() as int)[k as int] != suffix@[k as int]);
            return false;
        }
        k += 1;
    }
    assert(s@.subrange(base as int, s.len() as int) =~= suffix@);
    true
}

/// The name of a file with every trailing `.svg` removed.
pub open spec fn without_svg_extension(name: Seq<u8>) -> Seq<u8>
    decreases name.len(),
{
    if name.len() >= 4 && ends_with(name, ascii(".svg"@)) {
        without_svg_extension(name.subrange(0, name.len() - 4))
    } else {
        name
    }
}

/// Removes every trailing `.svg` from a file name.
pub fn trim_svg_extension(name: &[u8]) -> (res: Vec<u8>)
    ensures
        res@ == without_svg_extension(name@),
{
    let ext = ".svg";
    proof {
        reveal_strlit(".svg");
    }
    let ext = literal(ext);
    let mut end = name.len();
    assert(name@.subrange(0, end as int) =~= name@);
    while end >= 4 && has_suffix(&slice_copy_range(name, 0, end), ext)
        invariant
            end <= name.len(),
            ext@ == ascii(".svg"@),
            ext@.len() == 4,
            without_svg_extension(name@) == without_svg_extension(
                name@.subrange(0, end as int),
            ),
        decreases end,
    {
        assert(name@.subrange(0, end as int).subrange(0, end - 4) =~= name@.subrange(
            0,
            end - 4,
        ));
        end -= 4;
    }
    slice_copy_range(name, 0, end)
}

/// A copy of the bytes of `s` from `from` up to `to`.
pub(crate) fn slice_copy_range(s: &[u8], from: usize, to: usize) -> (v: Vec<u8>)
    requires
        from <= to <= s.len(),
    ensures
        v@ == s@.subrange(from as int, to as int),
{
    let mut v: Vec<u8> = Vec::new();
    push_range(&mut v, s, from, to);
    v
}

/// What every file name of coloured artwork ends with.
pub open spec fn color_svg_suffix() -> Seq<u8> {
    ascii(".colors-black-blue-red.svg"@)
}

/// The name of a file of coloured artwork without its ending
/// `.colors-black-blue-red.svg`: the rank or mark it draws.
pub fn artwork_id(file_name: &[u8]) -> (res: Vec<u8>)
    requires
        ends_with(file_name@, color_svg_suffix()),
    ensures
        res@ == file_name@.subrange(0, file_name@.len() - color_svg_suffix().len()),
{
    proof {
        reveal_strlit(".colors-black-blue-red.svg");
    }
    slice_copy_range(file_name, 0, file_name.len() - 26)
}

/// Whether `file_name` names coloured artwork.
pub fn is_color_svg_name(file_name: &[u8]) -> (r: bool)
    ensures
        r == ends_with(file_name@, color_svg_suffix()),
{
    let suffix = ".colors-black-blue-red.svg";
    proof {
        reveal_strlit(".colors-black-blue-red.svg");
    }
    has_suffix(file_name, literal(suffix))
}

// ----- The style sheet of all artwork -----

/// Names and texts of artwork files, as bytes.
pub open spec fn artwork_view(files: Seq<(Vec<u8>, Vec<u8>)>) -> Seq<(Seq<u8>, Seq<u8>)> {
    files.map_values(|f: (Vec<u8>, Vec<u8>)| (f.0@, f.1@))
}

/// The rule for a file of scenery (board, grass, trees): class and key come
/// from the file name without `.svg`, the key led by `0-`.
pub open spec fn scenery_rule(file: (Seq<u8>, Seq<u8>)) -> Entry {
    let class_name = without_svg_extension(file.0);
    (ascii("0-"@) + class_name, css_rule_text(class_name, data_uri(file.1)))
}

/// The rank or mark that a file of coloured artwork draws.
pub open spec fn id_of(file_name: Seq<u8>) -> Seq<u8> {
    file_name.subrange(0, file_name.len() - color_svg_suffix().len())
}

/// The rule for a file of coloured artwork in one colour: the class is the
/// drawn rank or mark, a `-` and the colour's name; the key is `group`
/// followed by the class.
pub open spec fn colored_rule(
    group: Seq<u8>,
    file: (Seq<u8>, Seq<u8>),
    color: (Seq<u8>, Seq<u8>),
) -> Entry {
    let class_name = id_of(file.0) + seq![45u8] + color.0;
    (group + class_name, css_rule_text(class_name, data_uri(recolored(file.1, color.1))))
}

/// The rules for a file of coloured artwork, one per colour of the palette.
pub open spec fn file_rules(group: Seq<u8>, file: (Seq<u8>, Seq<u8>)) -> Seq<Entry> {
    palette().map_values(|c: (Seq<u8>, Seq<u8>)| colored_rule(group, file, c))
}

/// The rules for the files of coloured artwork, file after file.
pub open spec fn colored_rules(group: Seq<u8>, files: Seq<(Seq<u8>, Seq<u8>)>) -> Seq<Entry>
    decreases files.len(),
{
    if files.len() == 0 {
        Seq::empty()
    } else {
        colored_rules(group, files.drop_last()) + file_rules(group, files.last())
    }
}

/// All rules in the order they are made: scenery, then pieces (key led by
/// `1-`), then rank marks (key led by `2-`).
pub open spec fn artwork_rules(
    scenery: Seq<(Seq<u8>, Seq<u8>)>,
    pieces: Seq<(Seq<u8>, Seq<u8>)>,
    ranks: Seq<(Seq<u8>, Seq<u8>)>,
) -> Seq<Entry> {
    scenery.map_values(|f: (Seq<u8>, Seq<u8>)| scenery_rule(f)) + colored_rules(
        ascii("1-"@),
        pieces,
    ) + colored_rules(ascii("2-"@), ranks)
}

/// Every file of `files` names coloured artwork, and each colouring of it is
/// short enough to be held and encoded.
pub open spec fn colorable(files: Seq<(Seq<u8>, Seq<u8>)>) -> bool {
    forall|i: int|
        #![trigger files[i]]
        0 <= i < files.len() ==> {
            &&& ends_with(files[i].0, color_svg_suffix())
            &&& forall|c: int|
                0 <= c < palette().len() ==> recolored(files[i].1, palette()[c].1).len()
                    <= isize::MAX
        }
}

fn concat(a: &[u8], b: &[u8]) -> (r: Vec<u8>)
    ensures
        r@ == a@ + b@,
{
    let mut r = slice_copy(a);
    push_all(&mut r, b);
    r
}

/// The style sheet for all artwork: a rule per scenery file, and a rule per
/// colour for each piece and each rank mark, kept in the order of their keys.
pub fn artwork_sheet(
    scenery: &Vec<(Vec<u8>, Vec<u8>)>,
    pieces: &Vec<(Vec<u8>, Vec<u8>)>,
    ranks: &Vec<(Vec<u8>, Vec<u8>)>,
) -> (sheet: RuleSheet)
    requires
        forall|i: int| 0 <= i < scenery@.len() ==> (#[trigger] scenery@[i]).1@.len() <= isize::MAX,
        colorable(artwork_view(pieces@)),
        colorable(artwork_view(ranks@)),
    ensures
        sheet.wf(),
        lists(
            sheet@,
            artwork_rules(artwork_view(scenery@), artwork_view(pieces@), artwork_view(ranks@)),
        ),
{
    let zero = "0-";
    let one = "1-";
    let two = "2-";
    proof {
        reveal_strlit("0-");
        reveal_strlit("1-");
        reveal_strlit("2-");
    }
    let ghost scenery_view = artwork_view(scenery@);
    let ghost scenery_pairs = scenery_view.map_values(|f: (Seq<u8>, Seq<u8>)| scenery_rule(f));
    let zero = literal(zero);
    let mut sheet = RuleSheet::new();
    let mut i: usize = 0;
    while i < scenery.len()
        invariant
            i <= scenery.len(),
            zero@ == ascii("0-"@),
            scenery_view == artwork_view(scenery@),
            scenery_pairs == scenery_view.map_values(|f: (Seq<u8>, Seq<u8>)| scenery_rule(f)),
            forall|j: int| 0 <= j < scenery@.len() ==> (#[trigger] scenery@[j]).1@.len() <= isize::MAX,
            sheet.wf(),
            lists(sheet@, scenery_pairs.subrange(0, i as int)),
        decreases scenery.len() - i,
    {
        let name = &scenery[i].0;
        let svg = &scenery[i].1;
        let class_name = trim_svg_extension(name.as_slice());
        let key = concat(zero, class_name.as_slice());
        let uri = svg_to_data_uri(svg.as_slice());
        let rule = css_rule(class_name.as_slice(), uri.as_slice());
        let ghost before = sheet@;
        let ghost entry = (key@, rule@);
        sheet.insert(key, rule);
        proof {
            assert(entry == scenery_pairs[i as int]);
            lemma_lists_push(before, sheet@, scenery_pairs.subrange(0, i as int), entry);
            assert(scenery_pairs.subrange(0, i as int).push(entry) =~= scenery_pairs.subrange(
                0,
                i + 1,
            ));
        }
        i += 1;
    }
    assert(scenery_pairs.subrange(0, i as int) =~= scenery_pairs);
    add_colored(&mut sheet, literal(one), pieces, Ghost(scenery_pairs));
    let ghost with_pieces = scenery_pairs + colored_rules(ascii("1-"@), artwork_view(pieces@));
    add_colored(&mut sheet, literal(two), ranks, Ghost(with_pieces));
    sheet
}

/// Adds to `sheet` the rules for coloured artwork `files` under key group
/// `group`.
fn add_colored(
    sheet: &mut RuleSheet,
    group: &[u8],
    files: &Vec<(Vec<u8>, Vec<u8>)>,
    Ghost(pairs): Ghost<Seq<Entry>>,
)
    requires
        old(sheet).wf(),
        lists(old(sheet)@, pairs),
        colorable(artwork_view(files@)),
    ensures
        final(sheet).wf(),
        lists(final(sheet)@, pairs + colored_rules(group@, artwork_view(files@))),
{
    let ghost view = artwork_view(files@);
    let colors = color_map();
    let mut i: usize = 0;
    assert(pairs + colored_rules(group@, view.subrange(0, 0)) =~= pairs);
    while i < files.len()
        invariant
            i <= files.len(),
            view == artwork_view(files@),
            colorable(view),
            colors@.len() == palette().len(),
            forall|c: int|
                #![trigger colors@[c]]
                0 <= c < colors@.len() ==> (colors@[c].0@ == palette()[c].0 && colors@[c].1@
                    == palette()[c].1),
            sheet.wf(),
            lists(sheet@, pairs + colored_rules(group@, view.subrange(0, i as int))),
        decreases files.len() - i,
    {
        let name = &files[i].0;
        let svg = &files[i].1;
        let ghost file = view[i as int];
        assert(file == (name@, svg@));
        let id = artwork_id(name.as_slice());
        let ghost base = pairs + colored_rules(group@, view.subrange(0, i as int));
        let ghost these = file_rules(group@, file);
        let mut c: usize = 0;
        assert(base + these.subrange(0, 0) =~= base);
        while c < colors.len()
            invariant
                c <= colors@.len(),
                colors@.len() == palette().len(),
                forall|k: int|
                    #![trigger colors@[k]]
                    0 <= k < colors@.len() ==> (colors@[k].0@ == palette()[k].0 && colors@[k].1@
                        == palette()[k].1),
                file == (name@, svg@),
                id@ == id_of(name@),
                these == file_rules(group@, file),
                forall|k: int|
                    0 <= k < palette().len() ==> recolored(file.1, palette()[k].1).len()
                        <= isize::MAX,
                sheet.wf(),
                lists(sheet@, base + these.subrange(0, c as int)),
            decreases colors@.len() - c,
        {
            let color_name = &colors[c].0;
            let color_code = &colors[c].1;
            let mut class_name = slice_copy(id.as_slice());
            class_name.push(45u8);
            push_all(&mut class_name, color_name.as_slice());
            let key = concat(group, class_name.as_slice());
            let colored = replace_color(svg.as_slice(), color_code.as_slice());
            let uri = svg_to_data_uri(colored.as_slice());
            let rule = css_rule(class_name.as_slice(), uri.as_slice());
            let ghost before = sheet@;
            let ghost entry = (key@, rule@);
            sheet.insert(key, rule);
            proof {
                assert(class_name@ =~= id_of(file.0) + seq![45u8] + palette()[c as int].0);
                assert(entry == these[c as int]);
                lemma_lists_push(before, sheet@, base + these.subrange(0, c as int), entry);
                assert((base + these.subrange(0, c as int)).push(entry) =~= base
                    + these.subrange(0, c + 1));
            }
            c += 1;
        }
        proof {
            assert(these.subrange(0, c as int) =~= these);
            let upto = view.subrange(0, i + 1);
            assert(upto.drop_last() =~= view.subrange(0, i as int));
            assert(upto.last() == file);
            assert(base + these =~= pairs + colored_rules(group@, upto));
        }
        i += 1;
    }
    assert(view.subrange(0, i as int) =~= view);
}

} // verus!
