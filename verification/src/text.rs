//! Character-level helpers shared by the parsers and layout code.
use vstd::prelude::*;
use vstd::utf8::*;
use vstd::string::StringSliceAdditionalSpecFns;
use unicode_segmentation::UnicodeSegmentation;
use unicode_width::UnicodeWidthStr;

verus! {

/// Appends one character to a `String` (`String::push`).
#[verifier::external_body]
pub(crate) fn push_char(s: &mut String, c: char)
    ensures
        final(s)@ == old(s)@.push(c),
{
    s.push(c);
}

/// The characters of a string slice, in order.
pub fn chars_of(s: &str) -> (r: Vec<char>)
    ensures
        r@ == s@,
{
    let mut out: Vec<char> = Vec::new();
    for c in it: s.chars()
        invariant
            out@ == it.seq().take(it.index() as int),
            it.seq() == s@,
    {
        out.push(c);
    }
    out
}

/// A `String` holding exactly the given characters.
pub fn string_from_chars(v: &[char]) -> (r: String)
    ensures
        r@ == v@,
{
    let mut out = String::new();
    let mut i: usize = 0;
    while i < v.len()
        invariant
            i <= v@.len(),
            out@ == v@.take(i as int),
        decreases v@.len() - i,
    {
        push_char(&mut out, v[i]);
        assert(v@.take(i as int).push(v@[i as int]) =~= v@.take(i + 1));
        i = i + 1;
    }
    assert(v@.take(v@.len() as int) =~= v@);
    out
}

/// Exact equality of two character sequences.
pub fn chars_eq(a: &[char], b: &[char]) -> (r: bool)
    ensures
        r == (a@ == b@),
{
    if a.len() != b.len() {
        return false;
    }
    let mut i: usize = 0;
    while i < a.len()
        invariant
            a@.len() == b@.len(),
            i <= a@.len(),
            forall|j: int| 0 <= j < i ==> a@[j] == b@[j],
        decreases a@.len() - i,
    {
        if a[i] != b[i] {
            return false;
        }
        i = i + 1;
    }
    assert(a@ =~= b@);
    true
}

/// Whether `s` is exactly the literal `lit`.
pub fn is_lit(s: &[char], lit: &str) -> (r: bool)
    ensures
        r == (s@ == lit@),
{
    let l = chars_of(lit);
    chars_eq(s, l.as_slice())
}

pub open spec fn starts_with_spec(s: Seq<char>, p: Seq<char>) -> bool {
    p.len() <= s.len() && s.take(p.len() as int) == p
}

/// Whether `s` begins with the literal `lit`.
pub fn starts_with_lit(s: &[char], lit: &str) -> (r: bool)
    ensures
        r == starts_with_spec(s@, lit@),
{
    let p = chars_of(lit);
    if p.len() > s.len() {
        return false;
    }
    let mut i: usize = 0;
    while i < p.len()
        invariant
            p@ == lit@,
            p@.len() <= s@.len(),
            i <= p@.len(),
            forall|j: int| 0 <= j < i ==> s@[j] == p@[j],
        decreases p@.len() - i,
    {
        if s[i] != p[i] {
            assert(s@.take(p@.len() as int)[i as int] != p@[i as int]);
            return false;
        }
        i = i + 1;
    }
    assert(s@.take(p@.len() as int) =~= p@);
    true
}

/// The characters `s[from..to]`.
pub fn sub_chars(s: &[char], from: usize, to: usize) -> (r: Vec<char>)
    requires
        from <= to <= s@.len(),
    ensures
        r@ == s@.subrange(from as int, to as int),
{
    let mut out: Vec<char> = Vec::new();
    let mut i = from;
    while i < to
        invariant
            from <= i <= to <= s@.len(),
            out@ == s@.subrange(from as int, i as int),
        decreases to - i,
    {
        out.push(s[i]);
        assert(s@.subrange(from as int, i as int).push(s@[i as int]) =~= s@.subrange(
            from as int,
            i + 1,
        ));
        i = i + 1;
    }
    out
}

/// `s` with the leading `lit` removed, when `s` starts with it.
pub fn strip_prefix_lit(s: &[char], lit: &str) -> (r: Option<Vec<char>>)
    ensures
        r is Some <==> starts_with_spec(s@, lit@),
        r matches Some(rest) ==> rest@ == s@.skip(lit@.len() as int),
{
    if starts_with_lit(s, lit) {
        let n = lit.unicode_len();
        Some(sub_chars(s, n, s.len()))
    } else {
        None
    }
}

/// Unicode `White_Space`, the set that `char::is_whitespace` and `str::trim` use.
pub open spec fn is_ws(c: char) -> bool {
    ||| ('\u{9}' <= c && c <= '\u{d}')
    ||| c == ' '
    ||| c == '\u{85}'
    ||| c == '\u{a0}'
    ||| c == '\u{1680}'
    ||| ('\u{2000}' <= c && c <= '\u{200a}')
    ||| c == '\u{2028}'
    ||| c == '\u{2029}'
    ||| c == '\u{202f}'
    ||| c == '\u{205f}'
    ||| c == '\u{3000}'
}

pub fn is_whitespace(c: char) -> (r: bool)
    ensures
        r == is_ws(c),
{
    ('\u{9}' <= c && c <= '\u{d}') || c == ' ' || c == '\u{85}' || c == '\u{a0}' || c
        == '\u{1680}' || ('\u{2000}' <= c && c <= '\u{200a}') || c == '\u{2028}' || c
        == '\u{2029}' || c == '\u{202f}' || c == '\u{205f}' || c == '\u{3000}'
}

/// Index of the first non-whitespace character (or the length).
pub open spec fn trim_start_index(s: Seq<char>) -> int
    decreases s.len(),
{
    if s.len() == 0 || !is_ws(s[0]) {
        0
    } else {
        1 + trim_start_index(s.drop_first())
    }
}

/// Index just past the last non-whitespace character (or 0).
pub open spec fn trim_end_index(s: Seq<char>) -> int
    decreases s.len(),
{
    if s.len() == 0 || !is_ws(s.last()) {
        s.len() as int
    } else {
        trim_end_index(s.drop_last())
    }
}

/// `str::trim`: `s` without leading and trailing whitespace.
pub open spec fn trim_spec(s: Seq<char>) -> Seq<char> {
    let e = trim_end_index(s);
    s.take(e).skip(trim_start_index(s.take(e)))
}

proof fn lemma_trim_start_bounds(s: Seq<char>)
    ensures
        0 <= trim_start_index(s) <= s.len(),
        forall|j: int| 0 <= j < trim_start_index(s) ==> is_ws(#[trigger] s[j]),
        trim_start_index(s) < s.len() ==> !is_ws(s[trim_start_index(s)]),
    decreases s.len(),
{
    if s.len() > 0 && is_ws(s[0]) {
        lemma_trim_start_bounds(s.drop_first());
        assert forall|j: int| 0 <= j < trim_start_index(s) implies is_ws(#[trigger] s[j]) by {
            if j > 0 {
                assert(s[j] == s.drop_first()[j - 1]);
            }
        }
    }
}

proof fn lemma_trim_end_bounds(s: Seq<char>)
    ensures
        0 <= trim_end_index(s) <= s.len(),
        forall|j: int| trim_end_index(s) <= j < s.len() ==> is_ws(#[trigger] s[j]),
        trim_end_index(s) > 0 ==> !is_ws(s[trim_end_index(s) - 1]),
    decreases s.len(),
{
    if s.len() > 0 && is_ws(s.last()) {
        lemma_trim_end_bounds(s.drop_last());
        assert forall|j: int| trim_end_index(s) <= j < s.len() implies is_ws(#[trigger] s[j]) by {
            if j < s.len() - 1 {
                assert(s[j] == s.drop_last()[j]);
            }
        }
    }
}

proof fn lemma_trim_start_char(s: Seq<char>, k: int)
    requires
        0 <= k <= s.len(),
        forall|j: int| 0 <= j < k ==> is_ws(#[trigger] s[j]),
        k < s.len() ==> !is_ws(s[k]),
    ensures
        trim_start_index(s) == k,
    decreases s.len(),
{
    if k > 0 {
        assert forall|j: int| 0 <= j < k - 1 implies is_ws(#[trigger] s.drop_first()[j]) by {
            assert(s.drop_first()[j] == s[j + 1]);
        }
        if k - 1 < s.drop_first().len() {
            assert(s.drop_first()[k - 1] == s[k]);
        }
        lemma_trim_start_char(s.drop_first(), k - 1);
    }
}

proof fn lemma_trim_end_char(s: Seq<char>, k: int)
    requires
        0 <= k <= s.len(),
        forall|j: int| k <= j < s.len() ==> is_ws(#[trigger] s[j]),
        k > 0 ==> !is_ws(s[k - 1]),
    ensures
        trim_end_index(s) == k,
    decreases s.len(),
{
    if k < s.len() {
        assert forall|j: int| k <= j < s.drop_last().len() implies is_ws(
            #[trigger] s.drop_last()[j],
        ) by {
            assert(s.drop_last()[j] == s[j]);
        }
        if k > 0 {
            assert(s.drop_last()[k - 1] == s[k - 1]);
        }
        assert(is_ws(s[s.len() - 1]));
        lemma_trim_end_char(s.drop_last(), k);
    }
}

/// `str::trim` over a character vector.
pub fn trim_chars(s: &[char]) -> (r: Vec<char>)
    ensures
        r@ == trim_spec(s@),
{
    let mut e = s.len();
    while e > 0 && is_whitespace(s[e - 1])
        invariant
            e <= s@.len(),
            forall|j: int| e <= j < s@.len() ==> is_ws(#[trigger] s@[j]),
        decreases e,
    {
        e = e - 1;
    }
    proof {
        lemma_trim_end_char(s@, e as int);
    }
    let mut b: usize = 0;
    while b < e && is_whitespace(s[b])
        invariant
            b <= e <= s@.len(),
            forall|j: int| 0 <= j < b ==> is_ws(#[trigger] s@[j]),
        decreases e - b,
    {
        b = b + 1;
    }
    proof {
        let t = s@.take(e as int);
        assert forall|j: int| 0 <= j < b implies is_ws(#[trigger] t[j]) by {
            assert(t[j] == s@[j]);
        }
        if b < e {
            assert(t[b as int] == s@[b as int]);
        }
        lemma_trim_start_char(t, b as int);
        assert(t.skip(b as int) =~= s@.subrange(b as int, e as int));
    }
    sub_chars(s, b, e)
}

/// `str::trim` over a string slice.
pub fn trim_str(s: &str) -> (r: Vec<char>)
    ensures
        r@ == trim_spec(s@),
{
    let v = chars_of(s);
    trim_chars(v.as_slice())
}

/// Position of the first `'\n'` at or after `i` (or the length).
pub open spec fn next_newline(s: Seq<char>, i: int) -> int
    decreases s.len() - i,
{
    if i >= s.len() {
        s.len() as int
    } else if s[i] == '\n' {
        i
    } else {
        next_newline(s, i + 1)
    }
}

/// A line terminated by `'\n'` loses one trailing `'\r'`.
pub open spec fn strip_cr(line: Seq<char>) -> Seq<char> {
    if line.len() > 0 && line.last() == '\r' {
        line.drop_last()
    } else {
        line
    }
}

/// `str::lines` from position `start`: pieces between `'\n'`s, with the
/// `"\r\n"` ending accepted and no empty piece after a final newline.
pub open spec fn lines_from(s: Seq<char>, start: int) -> Seq<Seq<char>>
    decreases s.len() - start,
{
    if start < 0 || start >= s.len() {
        seq![]
    } else {
        let j = next_newline(s, start);
        proof {
            lemma_next_newline(s, start);
        }
        if j < s.len() {
            seq![strip_cr(s.subrange(start, j))] + lines_from(s, j + 1)
        } else {
            seq![s.subrange(start, j)]
        }
    }
}

pub open spec fn lines_spec(s: Seq<char>) -> Seq<Seq<char>> {
    lines_from(s, 0)
}

pub proof fn lemma_next_newline(s: Seq<char>, i: int)
    requires
        0 <= i <= s.len(),
    ensures
        i <= next_newline(s, i) <= s.len(),
        next_newline(s, i) < s.len() ==> s[next_newline(s, i)] == '\n',
        forall|k: int| i <= k < next_newline(s, i) ==> s[k] != '\n',
    decreases s.len() - i,
{
    if i < s.len() && s[i] != '\n' {
        lemma_next_newline(s, i + 1);
    }
}

proof fn lemma_next_newline_at(s: Seq<char>, i: int, j: int)
    requires
        0 <= i <= j <= s.len(),
        forall|k: int| i <= k < j ==> s[k] != '\n',
        j < s.len() ==> s[j] == '\n',
    ensures
        next_newline(s, i) == j,
    decreases j - i,
{
    if i < j {
        lemma_next_newline_at(s, i + 1, j);
    }
}

/// The lines of a character sequence, as `str::lines` yields them.
pub fn lines_of(s: &[char]) -> (r: Vec<Vec<char>>)
    ensures
        r@.len() == lines_spec(s@).len(),
        forall|i: int| 0 <= i < r@.len() ==> #[trigger] r@[i]@ == lines_spec(s@)[i],
{
    let mut out: Vec<Vec<char>> = Vec::new();
    let mut start: usize = 0;
    let ghost mut acc: Seq<Seq<char>> = seq![];
    while start < s.len()
        invariant
            start <= s@.len(),
            acc + lines_from(s@, start as int) == lines_spec(s@),
            out@.len() == acc.len(),
            forall|i: int| 0 <= i < out@.len() ==> #[trigger] out@[i]@ == acc[i],
        decreases s@.len() - start,
    {
        let mut j = start;
        while j < s.len() && s[j] != '\n'
            invariant
                start <= j <= s@.len(),
                forall|k: int| start <= k < j ==> s@[k] != '\n',
            decreases s@.len() - j,
        {
            j = j + 1;
        }
        proof {
            lemma_next_newline_at(s@, start as int, j as int);
        }
        let piece = sub_chars(s, start, j);
        if j < s.len() {
            let mut line = piece;
            if line.len() > 0 && line[line.len() - 1] == '\r' {
                line.pop();
                proof {
                    assert(line@ =~= strip_cr(s@.subrange(start as int, j as int)));
                }
            }
            proof {
                let old_acc = acc;
                acc = acc.push(line@);
                assert(lines_from(s@, start as int) == seq![line@] + lines_from(s@, j + 1));
                assert(old_acc + (seq![line@] + lines_from(s@, j + 1)) =~= acc + lines_from(
                    s@,
                    j + 1,
                ));
            }
            out.push(line);
            start = j + 1;
        } else {
            proof {
                let old_acc = acc;
                acc = acc.push(piece@);
                assert(lines_from(s@, start as int) == seq![piece@]);
                assert(lines_from(s@, j as int) == Seq::<Seq<char>>::empty());
                assert(old_acc + seq![piece@] =~= acc + lines_from(s@, j as int));
            }
            out.push(piece);
            start = j;
        }
    }
    assert(acc =~= lines_spec(s@));
    out
}

/// Whether `needle` occurs in `hay` as a contiguous run.
pub open spec fn contains_spec(hay: Seq<char>, needle: Seq<char>) -> bool {
    exists|k: int|
        0 <= k && k + needle.len() <= hay.len() && #[trigger] hay.subrange(k, k + needle.len())
            == needle
}

fn matches_at(hay: &[char], needle: &[char], k: usize) -> (r: bool)
    requires
        k + needle@.len() <= hay@.len(),
    ensures
        r == (hay@.subrange(k as int, k + needle@.len()) == needle@),
{
    let hl = hay.len();
    let mut i: usize = 0;
    while i < needle.len()
        invariant
            hl == hay@.len(),
            k + needle@.len() <= hay@.len(),
            i <= needle@.len(),
            forall|j: int| 0 <= j < i ==> hay@[k + j] == needle@[j],
        decreases needle@.len() - i,
    {
        assert(k + i < hay@.len());
        let idx: usize = k + i;
        if hay[idx] != needle[i] {
            assert(hay@.subrange(k as int, k + needle@.len())[i as int] != needle@[i as int]);
            return false;
        }
        i = i + 1;
    }
    assert(hay@.subrange(k as int, k + needle@.len()) =~= needle@);
    true
}

/// `str::contains` for a character pattern.
pub fn contains_chars(hay: &[char], needle: &[char]) -> (r: bool)
    ensures
        r == contains_spec(hay@, needle@),
{
    if needle.len() > hay.len() {
        return false;
    }
    let last = hay.len() - needle.len();
    let mut k: usize = 0;
    while k < last
        invariant
            k <= last,
            last + needle@.len() == hay@.len(),
            forall|m: int|
                0 <= m < k ==> #[trigger] hay@.subrange(m, m + needle@.len()) != needle@,
        decreases last - k,
    {
        if matches_at(hay, needle, k) {
            return true;
        }
        k = k + 1;
    }
    if matches_at(hay, needle, last) {
        return true;
    }
    assert forall|m: int|
        0 <= m && m + needle@.len() <= hay@.len() implies #[trigger] hay@.subrange(
        m,
        m + needle@.len(),
    ) != needle@ by {
        assert(m <= last);
    }
    false
}

/// What `unicode-width` reports as the display width of a string.
pub uninterp spec fn unicode_width_of(s: Seq<char>) -> usize;

/// `UnicodeWidthStr::width` of the `unicode-width` crate: the number of
/// terminal columns the string occupies, as that crate's tables give it.
/// The contract only names the result; it claims nothing about its value.
#[verifier::external_body]
fn width_of_str(s: &str) -> (w: usize)
    ensures
        w == unicode_width_of(s@),
{
    UnicodeWidthStr::width(s)
}

/// Display width of a string in terminal cells.
pub fn display_width(s: &str) -> (w: usize)
    ensures
        w == unicode_width_of(s@),
{
    width_of_str(s)
}

/// Display width of a character sequence in terminal cells.
pub fn display_width_chars(s: &[char]) -> (w: usize)
    ensures
        w == unicode_width_of(s@),
{
    let t = string_from_chars(s);
    width_of_str(t.as_str())
}

/// What `str::to_lowercase` returns for a string.
pub uninterp spec fn unicode_lowercase(s: Seq<char>) -> Seq<char>;

/// `str::to_lowercase` of std: the Unicode lowercase mapping of each
/// character. The contract only names the result.
#[verifier::external_body]
fn lowercase_str(s: &str) -> (r: String)
    ensures
        r@ == unicode_lowercase(s@),
{
    s.to_lowercase()
}

/// Lowercase form of a string.
pub fn to_lowercase(s: &str) -> (r: Vec<char>)
    ensures
        r@ == unicode_lowercase(s@),
{
    let l = lowercase_str(s);
    chars_of(l.as_str())
}

/// How `unicode-segmentation` splits a string into extended grapheme clusters.
pub uninterp spec fn grapheme_split(s: Seq<char>) -> Seq<Seq<char>>;

/// `UnicodeSegmentation::graphemes(s, true)` of the `unicode-segmentation`
/// crate: the extended grapheme clusters of `s`, in order. The contract names
/// the result; it states no property of the segmentation itself.
#[verifier::external_body]
pub(crate) fn graphemes_of(s: &str) -> (r: Vec<String>)
    ensures
        r@.len() == grapheme_split(s@).len(),
        forall|i: int| 0 <= i < r@.len() ==> #[trigger] r@[i]@ == grapheme_split(s@)[i],
{
    s.graphemes(true).map(|g| g.to_string()).collect()
}

/// `String::from_utf8` of std: the text encoded by `bytes` when they are
/// valid UTF-8, otherwise an error.
#[verifier::external_body]
fn utf8_to_string(bytes: Vec<u8>) -> (r: Option<String>)
    ensures
        r is Some <==> valid_utf8(bytes@),
        r matches Some(s) ==> s@ == decode_utf8(bytes@),
{
    String::from_utf8(bytes).ok()
}

/// Decodes UTF-8 bytes into a `String`.
pub fn decode_utf8_bytes(bytes: Vec<u8>) -> (r: Option<String>)
    ensures
        r is Some <==> valid_utf8(bytes@),
        r matches Some(s) ==> s@ == decode_utf8(bytes@),
{
    utf8_to_string(bytes)
}

} // verus!

verus! {

/// `parts` joined with `sep` between neighbours (`[String]::join`).
pub open spec fn join_spec(parts: Seq<Seq<char>>, sep: Seq<char>) -> Seq<char>
    decreases parts.len(),
{
    if parts.len() == 0 {
        seq![]
    } else if parts.len() == 1 {
        parts[0]
    } else {
        join_spec(parts.drop_last(), sep) + sep + parts.last()
    }
}

/// The character views of a list of strings.
pub open spec fn strings_view(v: Seq<String>) -> Seq<Seq<char>> {
    v.map_values(|s: String| s@)
}

/// Joins strings with a separator.
pub fn join_strings(parts: &Vec<String>, sep: &str) -> (r: String)
    ensures
        r@ == join_spec(strings_view(parts@), sep@),
{
    let mut out = String::new();
    let ghost view = strings_view(parts@);
    let mut i: usize = 0;
    while i < parts.len()
        invariant
            view == strings_view(parts@),
            i <= parts@.len(),
            out@ == join_spec(view.take(i as int), sep@),
        decreases parts@.len() - i,
    {
        assert(view.take(i + 1).drop_last() =~= view.take(i as int));
        assert(view.take(i + 1).last() == parts@[i as int]@);
        if i != 0 {
            out.append(sep);
        }
        out.append(parts[i].as_str());
        if i == 0 {
            assert(view.take(1) =~= seq![parts@[0]@]);
            assert(out@ =~= parts@[0]@);
        }
        i = i + 1;
    }
    assert(view.take(parts@.len() as int) =~= view);
    out
}

/// A copy of a list of strings with the same contents.
pub fn clone_strings(v: &Vec<String>) -> (r: Vec<String>)
    ensures
        r@ == v@,
{
    let mut out: Vec<String> = Vec::new();
    let mut i: usize = 0;
    while i < v.len()
        invariant
            i <= v@.len(),
            out@ == v@.take(i as int),
        decreases v@.len() - i,
    {
        out.push(v[i].clone());
        assert(v@.take(i as int).push(v@[i as int]) =~= v@.take(i + 1));
        i = i + 1;
    }
    assert(v@.take(v@.len() as int) =~= v@);
    out
}

/// UTF-8 byte length of a string (`String::len`).
pub open spec fn byte_len(s: Seq<char>) -> usize {
    encode_utf8(s).len() as usize
}

pub fn string_byte_len(s: &String) -> (r: usize)
    ensures
        r == byte_len(s@),
{
    let t: &str = s.as_str();
    assert(t.spec_bytes() == encode_utf8(s@));
    t.len()
}

} // verus!
