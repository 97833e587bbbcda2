//! Characters, lines and trimming: the text primitives that fixed-position
//! extraction is built from.
use vstd::prelude::*;
use vstd::utf8::{decode_utf8, valid_utf8};

verus! {

/// Whether `c` has Unicode's White_Space property (what `str::trim` removes).
pub open spec fn is_white_space(c: char) -> bool {
    ||| '\u{9}' <= c <= '\u{d}'
    ||| c == ' '
    ||| c == '\u{85}'
    ||| c == '\u{a0}'
    ||| c == '\u{1680}'
    ||| '\u{2000}' <= c <= '\u{200a}'
    ||| c == '\u{2028}'
    ||| c == '\u{2029}'
    ||| c == '\u{202f}'
    ||| c == '\u{205f}'
    ||| c == '\u{3000}'
}

/// `s` without its leading white space.
pub open spec fn trim_start(s: Seq<char>) -> Seq<char>
    decreases s.len(),
{
    if s.len() > 0 && is_white_space(s[0]) {
        trim_start(s.drop_first())
    } else {
        s
    }
}

/// `s` without its trailing white space.
pub open spec fn trim_end(s: Seq<char>) -> Seq<char>
    decreases s.len(),
{
    if s.len() > 0 && is_white_space(s.last()) {
        trim_end(s.drop_last())
    } else {
        s
    }
}

/// `s` without surrounding white space.
pub open spec fn trim(s: Seq<char>) -> Seq<char> {
    trim_end(trim_start(s))
}

/// The value of the character range `[start, end)` of `line`, trimmed; `None`
/// when the range is not inside the line.
pub open spec fn slice_spec(line: Seq<char>, start: int, end: int) -> Option<Seq<char>> {
    if 0 <= start <= end <= line.len() {
        Some(trim(line.subrange(start, end)))
    } else {
        None
    }
}

/// The bytes of `b` up to the first newline (all of `b` when there is none).
pub open spec fn first_line_len(b: Seq<u8>) -> int
    decreases b.len(),
{
    if b.len() == 0 {
        0
    } else if b[0] == 10u8 {
        0
    } else {
        1 + first_line_len(b.drop_first())
    }
}

/// A line ended by a newline as `BufRead::lines` hands it out: one carriage
/// return before the newline is dropped.
pub open spec fn strip_cr(l: Seq<u8>) -> Seq<u8> {
    if l.len() > 0 && l.last() == 13u8 {
        l.drop_last()
    } else {
        l
    }
}

/// The lines of `b`: split at each newline, a final newline ends the last
/// line rather than starting an empty one. A carriage return just before a
/// newline is dropped; one that ends the data is kept.
pub open spec fn split_lines(b: Seq<u8>) -> Seq<Seq<u8>>
    decreases b.len(),
{
    if b.len() == 0 {
        seq![]
    } else {
        let n = first_line_len(b);
        if 0 <= n < b.len() {
            seq![strip_cr(b.subrange(0, n))] + split_lines(b.subrange(n + 1, b.len() as int))
        } else {
            seq![b]
        }
    }
}

/// The text of a line, when its bytes are UTF-8.
pub open spec fn line_text(l: Seq<u8>) -> Option<Seq<char>> {
    if valid_utf8(l) {
        Some(decode_utf8(l))
    } else {
        None
    }
}

pub fn is_white_space_char(c: char) -> (r: bool)
    ensures
        r == is_white_space(c),
{
    ('\u{9}' <= c && c <= '\u{d}') || c == ' ' || c == '\u{85}' || c == '\u{a0}' || c
        == '\u{1680}' || ('\u{2000}' <= c && c <= '\u{200a}') || c == '\u{2028}' || c
        == '\u{2029}' || c == '\u{202f}' || c == '\u{205f}' || c == '\u{3000}'
}

/// Relies on `str::chars`: the characters of `s`, in order.
#[verifier::external_body]
fn chars_of(s: &str) -> (r: Vec<char>)
    ensures
        r@ == s@,
{
    s.chars().collect()
}

/// Relies on `FromIterator<char> for String`: the characters `v[from..to]` as a string.
#[verifier::external_body]
fn string_of_chars(v: &[char], from: usize, to: usize) -> (r: String)
    requires
        from <= to <= v@.len(),
    ensures
        r@ == v@.subrange(from as int, to as int),
{
    v[from..to].iter().collect()
}

/// Relies on `String::from_utf8`: it succeeds exactly on valid UTF-8 and then
/// holds the decoded characters.
#[verifier::external_body]
fn utf8_string(b: &[u8]) -> (r: Option<String>)
    ensures
        r is Some <==> valid_utf8(b@),
        r matches Some(s) ==> s@ == decode_utf8(b@),
{
    String::from_utf8(b.to_vec()).ok()
}

proof fn lemma_trim_start_step(s: Seq<char>, i: int, j: int)
    requires
        0 <= i < j <= s.len(),
        is_white_space(s[i]),
    ensures
        trim_start(s.subrange(i, j)) == trim_start(s.subrange(i + 1, j)),
{
    assert(s.subrange(i, j).drop_first() =~= s.subrange(i + 1, j));
}

proof fn lemma_trim_end_step(s: Seq<char>, i: int, j: int)
    requires
        0 <= i < j <= s.len(),
        is_white_space(s[j - 1]),
    ensures
        trim_end(s.subrange(i, j)) == trim_end(s.subrange(i, j - 1)),
{
    assert(s.subrange(i, j).drop_last() =~= s.subrange(i, j - 1));
}

/// The characters `v[from..to]` with surrounding white space removed.
pub fn trimmed(v: &[char], from: usize, to: usize) -> (r: String)
    requires
        from <= to <= v@.len(),
    ensures
        r@ == trim(v@.subrange(from as int, to as int)),
{
    let mut i: usize = from;
    while i < to && is_white_space_char(v[i])
        invariant
            from <= i <= to <= v@.len(),
            trim_start(v@.subrange(from as int, to as int)) == trim_start(
                v@.subrange(i as int, to as int),
            ),
        decreases to - i,
    {
        proof {
            lemma_trim_start_step(v@, i as int, to as int);
        }
        i = i + 1;
    }
    let ghost rest = v@.subrange(i as int, to as int);
    assert(trim_start(rest) == rest) by {
        if rest.len() > 0 {
            assert(rest[0] == v@[i as int]);
        }
    }
    let mut j: usize = to;
    while j > i && is_white_space_char(v[j - 1])
        invariant
            from <= i <= j <= to <= v@.len(),
            trim_end(rest) == trim_end(v@.subrange(i as int, j as int)),
            rest == v@.subrange(i as int, to as int),
        decreases j - i,
    {
        proof {
            lemma_trim_end_step(v@, i as int, j as int);
        }
        j = j - 1;
    }
    let ghost kept = v@.subrange(i as int, j as int);
    assert(trim_end(kept) == kept) by {
        if kept.len() > 0 {
            assert(kept.last() == v@[j - 1]);
        }
    }
    string_of_chars(v, i, j)
}

/// The trimmed text of the character range `[start, end)` of `input`.
/// A range that reaches past the end of the line is an error: the line is
/// too short for its layout.
pub fn slice_line(input: &String, position: (usize, usize)) -> (r: Option<String>)
    ensures
        r is Some <==> slice_spec(input@, position.0 as int, position.1 as int) is Some,
        r matches Some(s) ==> Some(s@) == slice_spec(
            input@,
            position.0 as int,
            position.1 as int,
        ),
{
    let (start, end) = position;
    let cs = chars_of(input.as_str());
    if start <= end && end <= cs.len() {
        Some(trimmed(cs.as_slice(), start, end))
    } else {
        None
    }
}

/// The byte ranges `ranges` picks out of `b`.
pub open spec fn ranges_view(b: Seq<u8>, ranges: Seq<(usize, usize)>) -> Seq<Seq<u8>> {
    ranges.map_values(|p: (usize, usize)| b.subrange(p.0 as int, p.1 as int))
}

proof fn lemma_first_line_step(b: Seq<u8>, pos: int, k: int)
    requires
        0 <= pos <= k < b.len(),
        b[k] != 10u8,
    ensures
        first_line_len(b.subrange(k, b.len() as int)) == 1 + first_line_len(
            b.subrange(k + 1, b.len() as int),
        ),
{
    assert(b.subrange(k, b.len() as int).drop_first() =~= b.subrange(k + 1, b.len() as int));
}

/// Where the lines of `b` lie: for each line, the range of its bytes
/// without the newline and without a carriage return before it.
pub fn line_ranges(b: &[u8]) -> (r: Vec<(usize, usize)>)
    ensures
        forall|k: int| 0 <= k < r@.len() ==> (#[trigger] r@[k]).0 <= r@[k].1 <= b@.len(),
        ranges_view(b@, r@) == split_lines(b@),
{
    let mut r: Vec<(usize, usize)> = Vec::new();
    let mut pos: usize = 0;
    let ghost len = b@.len() as int;
    assert(b@.subrange(0, len) =~= b@);
    assert(ranges_view(b@, r@) + split_lines(b@) =~= split_lines(b@));
    while pos < b.len()
        invariant
            pos <= b@.len(),
            len == b@.len(),
            forall|k: int| 0 <= k < r@.len() ==> (#[trigger] r@[k]).0 <= r@[k].1 <= b@.len(),
            split_lines(b@) == ranges_view(b@, r@) + split_lines(b@.subrange(pos as int, len)),
        decreases b@.len() - pos,
    {
        let mut k: usize = pos;
        while k < b.len() && b[k] != 10u8
            invariant
                pos <= k <= b@.len(),
                len == b@.len(),
                first_line_len(b@.subrange(pos as int, len)) == (k - pos) + first_line_len(
                    b@.subrange(k as int, len),
                ),
            decreases b@.len() - k,
        {
            proof {
                lemma_first_line_step(b@, pos as int, k as int);
            }
            k = k + 1;
        }
        let ghost rest = b@.subrange(pos as int, len);
        let mut end: usize = k;
        if k < b.len() && end > pos && b[end - 1] == 13u8 {
            end = end - 1;
        }
        proof {
            assert(first_line_len(rest) == k - pos);
            if k < b.len() {
                assert(strip_cr(rest.subrange(0, k - pos)) =~= b@.subrange(pos as int, end as int));
            } else {
                assert(rest =~= b@.subrange(pos as int, end as int));
            }
        }
        let ghost old_r = r@;
        r.push((pos, end));
        proof {
            assert(ranges_view(b@, r@) =~= ranges_view(b@, old_r).push(
                b@.subrange(pos as int, end as int),
            ));
        }
        if k < b.len() {
            proof {
                assert(rest.subrange(k - pos + 1, rest.len() as int) =~= b@.subrange(k + 1, len));
            }
            pos = k + 1;
        } else {
            proof {
                assert(rest.subrange(0, k - pos) =~= rest);
                assert(b@.subrange(len, len) =~= Seq::<u8>::empty());
            }
            pos = k;
        }
        assert(split_lines(b@) =~= ranges_view(b@, r@) + split_lines(
            b@.subrange(pos as int, len),
        ));
    }
    proof {
        assert(b@.subrange(pos as int, len) =~= Seq::<u8>::empty());
        assert(ranges_view(b@, r@) + Seq::<Seq<u8>>::empty() =~= ranges_view(b@, r@));
    }
    r
}

/// The characters of `s`.
pub fn line_chars(s: &String) -> (r: Vec<char>)
    ensures
        r@ == s@,
{
    chars_of(s.as_str())
}

/// The text of one line's bytes, `None` when they are not UTF-8.
pub fn decode_line(b: &[u8]) -> (r: Option<String>)
    ensures
        r is Some <==> line_text(b@) is Some,
        r matches Some(s) ==> Some(s@) == line_text(b@),
{
    utf8_string(b)
}

/// A fixed range of a line long enough for it is its trimmed substring; a
/// line shorter than the range's end yields no value rather than a
/// truncated one.
pub proof fn lemma_fixed_range(line: Seq<char>, start: int, end: int)
    requires
        0 <= start <= end,
    ensures
        line.len() >= end ==> slice_spec(line, start, end) == Some(trim(line.subrange(start, end))),
        line.len() < end ==> slice_spec(line, start, end) is None,
{
}

} // verus!
