//! Verified text utilities: whitespace tokenization, line splitting,
//! integer parsing, and substring predicates.
//!
//! The platform enumeration tools answer with plain text; everything the
//! library learns from them goes through the functions in this module, so
//! each one carries an exact contract.

use vstd::prelude::*;

verus! {

/// Whitespace as the tokenizer understands it.
pub open spec fn is_ws(c: char) -> bool {
    c == ' ' || c == '\t' || c == '\r' || c == '\n'
}

fn is_ws_exec(c: char) -> (r: bool)
    ensures
        r == is_ws(c),
{
    c == ' ' || c == '\t' || c == '\r' || c == '\n'
}

/// Index just past the whitespace-free field that starts at `i`.
pub open spec fn field_end(s: Seq<char>, i: int) -> int
    decreases s.len() - i,
{
    if i < 0 || i >= s.len() || is_ws(s[i]) {
        i
    } else {
        field_end(s, i + 1)
    }
}

/// The whitespace-separated fields of `s`, starting the scan at `i`.
pub open spec fn fields_from(s: Seq<char>, i: int) -> Seq<Seq<char>>
    decreases s.len() - i,
    via fields_from_decreases
{
    if i < 0 || i >= s.len() {
        seq![]
    } else if is_ws(s[i]) {
        fields_from(s, i + 1)
    } else {
        seq![s.subrange(i, field_end(s, i))] + fields_from(s, field_end(s, i))
    }
}

#[via_fn]
proof fn fields_from_decreases(s: Seq<char>, i: int) {
    if 0 <= i < s.len() && !is_ws(s[i]) {
        lemma_field_end_bounds(s, i + 1);
    }
}

/// The whitespace-separated fields of `s`, as `str::split_whitespace` yields
/// them: maximal runs of non-whitespace characters, in order.
pub open spec fn spec_fields(s: Seq<char>) -> Seq<Seq<char>> {
    fields_from(s, 0)
}

proof fn lemma_field_end_bounds(s: Seq<char>, i: int)
    requires
        0 <= i <= s.len(),
    ensures
        i <= field_end(s, i) <= s.len(),
    decreases s.len() - i,
{
    if i < s.len() && !is_ws(s[i]) {
        lemma_field_end_bounds(s, i + 1);
    }
}

/// Splits `s` into its whitespace-separated fields.
pub fn split_fields(s: &str) -> (r: Vec<String>)
    ensures
        r.deep_view() == spec_fields(s@),
{
    let len: usize = s.unicode_len();
    let mut out: Vec<String> = Vec::new();
    let mut i: usize = 0;
    while i < len
        invariant
            0 <= i <= len,
            len == s@.len(),
            fields_from(s@, 0) == out.deep_view() + fields_from(s@, i as int),
        decreases len - i,
    {
        let c = s.get_char(i);
        if is_ws_exec(c) {
            assert(fields_from(s@, i as int) == fields_from(s@, i + 1));
            i = i + 1;
        } else {
            let start: usize = i;
            let mut j: usize = i + 1;
            while j < len && !is_ws_exec(s.get_char(j))
                invariant
                    start < j <= len,
                    len == s@.len(),
                    field_end(s@, start as int) == field_end(s@, j as int),
                decreases len - j,
            {
                j = j + 1;
            }
            proof {
                lemma_field_end_bounds(s@, j as int);
                assert(field_end(s@, j as int) == j);
            }
            let field = s.substring_char(start, j).to_owned();
            proof {
                assert(fields_from(s@, start as int) =~= seq![s@.subrange(
                    start as int,
                    field_end(s@, start as int),
                )] + fields_from(s@, field_end(s@, start as int)));
            }
            out.push(field);
            proof {
                assert(out.deep_view() =~= out.deep_view().drop_last().push(
                    s@.subrange(start as int, j as int),
                ));
            }
            i = j;
        }
    }
    assert(fields_from(s@, i as int) =~= Seq::<Seq<char>>::empty());
    assert(out.deep_view() =~= out.deep_view() + Seq::<Seq<char>>::empty());
    out
}

/// Index of the first `'\n'` at or after `i`, or the end of `s`.
pub open spec fn line_end(s: Seq<char>, i: int) -> int
    decreases s.len() - i,
{
    if i < 0 || i >= s.len() || s[i] == '\n' {
        i
    } else {
        line_end(s, i + 1)
    }
}

proof fn lemma_line_end_bounds(s: Seq<char>, i: int)
    requires
        0 <= i <= s.len(),
    ensures
        i <= line_end(s, i) <= s.len(),
        line_end(s, i) < s.len() ==> s[line_end(s, i)] == '\n',
    decreases s.len() - i,
{
    if i < s.len() && s[i] != '\n' {
        lemma_line_end_bounds(s, i + 1);
    }
}

/// One line's content: the text up to the next newline, with a trailing
/// `'\r'` removed, as `str::lines` yields it.
pub open spec fn line_content(s: Seq<char>, i: int) -> Seq<char> {
    let raw = s.subrange(i, line_end(s, i));
    if raw.len() > 0 && raw.last() == '\r' {
        raw.drop_last()
    } else {
        raw
    }
}

/// The lines of `s` from position `i` on.
pub open spec fn lines_from(s: Seq<char>, i: int) -> Seq<Seq<char>>
    decreases s.len() + 1 - i,
    via lines_from_decreases
{
    if i < 0 || i >= s.len() {
        seq![]
    } else {
        seq![line_content(s, i)] + lines_from(s, line_end(s, i) + 1)
    }
}

#[via_fn]
proof fn lines_from_decreases(s: Seq<char>, i: int) {
    if 0 <= i < s.len() {
        lemma_line_end_bounds(s, i);
    }
}

/// The lines of `s`, as `str::lines` yields them: split at `'\n'`, each line
/// stripped of a trailing `'\r'`, with no empty line after a final newline.
pub open spec fn spec_lines(s: Seq<char>) -> Seq<Seq<char>> {
    lines_from(s, 0)
}

/// Splits `s` into lines.
pub fn split_lines(s: &str) -> (r: Vec<String>)
    ensures
        r.deep_view() == spec_lines(s@),
{
    let len: usize = s.unicode_len();
    let mut out: Vec<String> = Vec::new();
    let mut i: usize = 0;
    while i < len
        invariant
            0 <= i <= len,
            len == s@.len(),
            lines_from(s@, 0) == out.deep_view() + lines_from(s@, i as int),
        decreases len - i,
    {
        let start: usize = i;
        let mut j: usize = i;
        while j < len && s.get_char(j) != '\n'
            invariant
                start <= j <= len,
                len == s@.len(),
                line_end(s@, start as int) == line_end(s@, j as int),
            decreases len - j,
        {
            j = j + 1;
        }
        assert(line_end(s@, j as int) == j);
        let content_end: usize = if j > start && s.get_char(j - 1) == '\r' {
            j - 1
        } else {
            j
        };
        let line = s.substring_char(start, content_end).to_owned();
        proof {
            let raw = s@.subrange(start as int, j as int);
            if raw.len() > 0 && raw.last() == '\r' {
                assert(line@ =~= line_content(s@, start as int));
            } else {
                assert(line@ =~= line_content(s@, start as int));
            }
        }
        out.push(line);
        proof {
            assert(out.deep_view() =~= out.deep_view().drop_last().push(
                line_content(s@, start as int),
            ));
            assert(lines_from(s@, start as int) =~= seq![line_content(s@, start as int)]
                + lines_from(s@, j + 1));
        }
        if j < len {
            i = j + 1;
        } else {
            proof {
                assert(lines_from(s@, j + 1) =~= lines_from(s@, len as int));
            }
            i = len;
        }
    }
    assert(lines_from(s@, i as int) =~= Seq::<Seq<char>>::empty());
    assert(out.deep_view() =~= out.deep_view() + Seq::<Seq<char>>::empty());
    out
}

/// A decimal digit.
pub open spec fn is_digit(c: char) -> bool {
    '0' <= c && c <= '9'
}

/// The numeric value of a digit character.
pub open spec fn digit_val(c: char) -> nat {
    ((c as int) - ('0' as int)) as nat
}

/// Whether every character of `s` is a decimal digit.
pub open spec fn all_digits(s: Seq<char>) -> bool {
    forall|k: int| 0 <= k < s.len() ==> is_digit(#[trigger] s[k])
}

/// The value of a digit string, most significant digit first.
pub open spec fn digits_val(s: Seq<char>) -> nat
    decreases s.len(),
{
    if s.len() == 0 {
        0
    } else {
        digits_val(s.drop_last()) * 10 + digit_val(s.last())
    }
}

/// The digit string (after an optional leading `'+'`) that `str::parse`
/// would read for an unsigned integer type, or `None` where it would fail
/// for a reason other than range.
pub open spec fn unsigned_body(s: Seq<char>) -> Option<Seq<char>> {
    let body = if s.len() > 0 && s[0] == '+' {
        s.skip(1)
    } else {
        s
    };
    if body.len() > 0 && all_digits(body) {
        Some(body)
    } else {
        None
    }
}

/// What `str::parse::<u16>` returns on `s`.
pub open spec fn parse_u16_spec(s: Seq<char>) -> Option<u16> {
    match unsigned_body(s) {
        Some(body) => if digits_val(body) <= u16::MAX {
            Some(digits_val(body) as u16)
        } else {
            None
        },
        None => None,
    }
}

proof fn lemma_digits_val_take_step(s: Seq<char>, i: int)
    requires
        0 <= i < s.len(),
    ensures
        digits_val(s.take(i + 1)) == digits_val(s.take(i)) * 10 + digit_val(s[i]),
{
    assert(s.take(i + 1).drop_last() =~= s.take(i));
    assert(s.take(i + 1).last() == s[i]);
}

proof fn lemma_digits_val_overflow(s: Seq<char>, i: int, bound: nat)
    requires
        0 <= i <= s.len(),
        digits_val(s.take(i)) > bound,
    ensures
        digits_val(s) > bound,
    decreases s.len() - i,
{
    if i < s.len() {
        lemma_digits_val_take_step(s, i);
        lemma_digits_val_overflow(s, i + 1, bound);
    } else {
        assert(s.take(i) =~= s);
    }
}

/// Reads the digits of `s` from index `from` on, as `str::parse` does for an
/// unsigned type with ceiling `bound`.
fn parse_digits(s: &str, from: usize, bound: u64) -> (r: Option<u64>)
    requires
        from <= s@.len(),
        bound < 0x8000_0000_0000_0000,
    ensures
        ({
            let body = s@.skip(from as int);
            match r {
                Some(v) => body.len() > 0 && all_digits(body) && digits_val(body) == v
                    && v <= bound,
                None => !(body.len() > 0 && all_digits(body) && digits_val(body) <= bound),
            }
        }),
{
    let len: usize = s.unicode_len();
    let ghost body = s@.skip(from as int);
    if from == len {
        return None;
    }
    let mut acc: u64 = 0;
    let mut i: usize = from;
    while i < len
        invariant
            from <= i <= len,
            len == s@.len(),
            body == s@.skip(from as int),
            bound < 0x8000_0000_0000_0000,
            all_digits(body.take(i - from)),
            acc == digits_val(body.take(i - from)),
            acc <= bound,
        decreases len - i,
    {
        let c = s.get_char(i);
        assert(body[i - from] == c);
        if !('0' <= c && c <= '9') {
            assert(!all_digits(body));
            return None;
        }
        let d: u64 = (c as u32 as u64) - 48;
        proof {
            lemma_digits_val_take_step(body, i - from);
        }
        if acc > bound / 10 {
            proof {
                lemma_digits_val_overflow(body, i + 1 - from, bound as nat);
            }
            return None;
        }
        let next: u64 = acc * 10;
        if d > bound - next {
            proof {
                lemma_digits_val_overflow(body, i + 1 - from, bound as nat);
            }
            return None;
        }
        acc = next + d;
        i = i + 1;
    }
    assert(body.take(i - from) =~= body);
    Some(acc)
}

/// What `str::parse::<u16>` returns: digits with an optional leading `'+'`,
/// rejected when empty, malformed, or out of range.
pub fn parse_u16(s: &str) -> (r: Option<u16>)
    ensures
        r == parse_u16_spec(s@),
{
    let len: usize = s.unicode_len();
    let from: usize = if len > 0 && s.get_char(0) == '+' {
        1
    } else {
        0
    };
    assert(s@.skip(from as int) =~= (if s@.len() > 0 && s@[0] == '+' {
        s@.skip(1)
    } else {
        s@
    }));
    match parse_digits(s, from, 65535) {
        Some(v) => Some(v as u16),
        None => None,
    }
}

/// What `str::parse::<i32>` returns on `s`.
pub open spec fn parse_i32_spec(s: Seq<char>) -> Option<i32> {
    if s.len() > 0 && s[0] == '-' {
        let body = s.skip(1);
        if body.len() > 0 && all_digits(body) && digits_val(body) <= 0x8000_0000 {
            Some((-(digits_val(body) as int)) as i32)
        } else {
            None
        }
    } else {
        let body = if s.len() > 0 && s[0] == '+' {
            s.skip(1)
        } else {
            s
        };
        if body.len() > 0 && all_digits(body) && digits_val(body) <= i32::MAX {
            Some(digits_val(body) as i32)
        } else {
            None
        }
    }
}

/// What `str::parse::<i32>` returns: an optional sign and digits, rejected
/// when empty, malformed, or out of range.
pub fn parse_i32(s: &str) -> (r: Option<i32>)
    ensures
        r == parse_i32_spec(s@),
{
    let len: usize = s.unicode_len();
    if len > 0 && s.get_char(0) == '-' {
        assert(s@.skip(1) =~= s@.skip(1));
        match parse_digits(s, 1, 0x8000_0000) {
            Some(v) => Some((-(v as i64)) as i32),
            None => None,
        }
    } else {
        let from: usize = if len > 0 && s.get_char(0) == '+' {
            1
        } else {
            0
        };
        assert(s@.skip(from as int) =~= (if s@.len() > 0 && s@[0] == '+' {
            s@.skip(1)
        } else {
            s@
        }));
        match parse_digits(s, from, 0x7fff_ffff) {
            Some(v) => Some(v as i32),
            None => None,
        }
    }
}

/// Whether `needle` occurs in `hay` as a contiguous run.
pub open spec fn contains_seq(hay: Seq<char>, needle: Seq<char>) -> bool {
    exists|i: int|
        0 <= i && i + needle.len() <= hay.len() && #[trigger] hay.subrange(i, i + needle.len())
            == needle
}

/// Whether `s` begins with `prefix`.
pub open spec fn starts_with_seq(s: Seq<char>, prefix: Seq<char>) -> bool {
    prefix.len() <= s.len() && s.subrange(0, prefix.len() as int) == prefix
}

/// Whether `s` ends with `suffix`.
pub open spec fn ends_with_seq(s: Seq<char>, suffix: Seq<char>) -> bool {
    suffix.len() <= s.len() && s.subrange(s.len() - suffix.len(), s.len() as int) == suffix
}

/// Character-for-character equality of two string slices.
pub fn str_eq(a: &str, b: &str) -> (r: bool)
    ensures
        r == (a@ == b@),
{
    let alen: usize = a.unicode_len();
    let blen: usize = b.unicode_len();
    if alen != blen {
        assert(a@ != b@);
        return false;
    }
    let mut i: usize = 0;
    while i < alen
        invariant
            0 <= i <= alen,
            alen == a@.len(),
            alen == b@.len(),
            forall|k: int| 0 <= k < i ==> a@[k] == b@[k],
        decreases alen - i,
    {
        if a.get_char(i) != b.get_char(i) {
            return false;
        }
        i = i + 1;
    }
    assert(a@ =~= b@);
    true
}

/// Whether `s` begins with `prefix`, as `str::starts_with` decides it.
pub fn starts_with(s: &str, prefix: &str) -> (r: bool)
    ensures
        r == starts_with_seq(s@, prefix@),
{
    let slen: usize = s.unicode_len();
    let plen: usize = prefix.unicode_len();
    if plen > slen {
        return false;
    }
    let mut i: usize = 0;
    while i < plen
        invariant
            0 <= i <= plen,
            plen == prefix@.len(),
            plen <= s@.len(),
            slen == s@.len(),
            forall|k: int| 0 <= k < i ==> s@[k] == prefix@[k],
        decreases plen - i,
    {
        if s.get_char(i) != prefix.get_char(i) {
            assert(s@.subrange(0, plen as int)[i as int] != prefix@[i as int]);
            return false;
        }
        i = i + 1;
    }
    assert(s@.subrange(0, plen as int) =~= prefix@);
    true
}

/// Whether `s` ends with `suffix`, as `str::ends_with` decides it.
pub fn ends_with(s: &str, suffix: &str) -> (r: bool)
    ensures
        r == ends_with_seq(s@, suffix@),
{
    let slen: usize = s.unicode_len();
    let xlen: usize = suffix.unicode_len();
    if xlen > slen {
        return false;
    }
    let base: usize = slen - xlen;
    let mut i: usize = 0;
    while i < xlen
        invariant
            0 <= i <= xlen,
            xlen == suffix@.len(),
            base == s@.len() - xlen,
            slen == s@.len(),
            forall|k: int| 0 <= k < i ==> s@[base + k] == suffix@[k],
        decreases xlen - i,
    {
        if s.get_char(base + i) != suffix.get_char(i) {
            assert(s@.subrange(base as int, slen as int)[i as int] != suffix@[i as int]);
            return false;
        }
        i = i + 1;
    }
    assert(s@.subrange(base as int, slen as int) =~= suffix@);
    true
}

/// Whether `needle` occurs in `hay`, as `str::contains` decides it for a
/// string pattern.
pub fn contains(hay: &str, needle: &str) -> (r: bool)
    ensures
        r == contains_seq(hay@, needle@),
{
    let hlen: usize = hay.unicode_len();
    let nlen: usize = needle.unicode_len();
    if nlen > hlen {
        return false;
    }
    let mut i: usize = 0;
    while i <= hlen - nlen
        invariant
            0 <= i <= hlen - nlen + 1,
            hlen == hay@.len(),
            nlen == needle@.len(),
            nlen <= hlen,
            forall|k: int|
                0 <= k < i ==> #[trigger] hay@.subrange(k, k + needle@.len()) != needle@,
        decreases hlen + 1 - nlen - i,
    {
        let mut j: usize = 0;
        let mut matched: bool = true;
        while j < nlen
            invariant
                0 <= j <= nlen,
                0 <= i,
                i + nlen <= hlen,
                hlen == hay@.len(),
                nlen == needle@.len(),
                matched == (forall|k: int| 0 <= k < j ==> hay@[i + k] == needle@[k]),
            decreases nlen - j,
        {
            if hay.get_char(i + j) != needle.get_char(j) {
                matched = false;
                assert(hay@[i + j] != needle@[j as int]);
                j = nlen;
            } else {
                j = j + 1;
            }
        }
        if matched {
            assert(hay@.subrange(i as int, i + needle@.len()) =~= needle@);
            return true;
        }
        proof {
            if hay@.subrange(i as int, i + needle@.len()) == needle@ {
                assert(forall|k: int|
                    0 <= k < nlen ==> hay@[i + k] == #[trigger] hay@.subrange(
                        i as int,
                        i + needle@.len(),
                    )[k]);
            }
        }
        i = i + 1;
    }
    assert forall|p: int| 0 <= p && p + needle@.len() <= hay@.len() implies #[trigger] hay@
        .subrange(p, p + needle@.len()) != needle@ by {
        assert(p < i);
    }
    false
}

/// Index of the first non-whitespace character at or after `i`.
pub open spec fn ws_run_end(s: Seq<char>, i: int) -> int
    decreases s.len() - i,
{
    if i < 0 || i >= s.len() || !is_ws(s[i]) {
        i
    } else {
        ws_run_end(s, i + 1)
    }
}

/// Index just past the last non-whitespace character before `j`.
pub open spec fn ws_run_start(s: Seq<char>, j: int) -> int
    decreases j,
{
    if j <= 0 || j > s.len() || !is_ws(s[j - 1]) {
        j
    } else {
        ws_run_start(s, j - 1)
    }
}

/// `s` with leading and trailing whitespace removed, as `str::trim` yields it.
pub open spec fn trim_spec(s: Seq<char>) -> Seq<char> {
    let lo = ws_run_end(s, 0);
    let hi = ws_run_start(s, s.len() as int);
    if lo <= hi {
        s.subrange(lo, hi)
    } else {
        seq![]
    }
}

proof fn lemma_ws_run_end_bounds(s: Seq<char>, i: int)
    requires
        0 <= i <= s.len(),
    ensures
        i <= ws_run_end(s, i) <= s.len(),
        ws_run_end(s, i) < s.len() ==> !is_ws(s[ws_run_end(s, i)]),
    decreases s.len() - i,
{
    if i < s.len() && is_ws(s[i]) {
        lemma_ws_run_end_bounds(s, i + 1);
    }
}

proof fn lemma_ws_run_start_bounds(s: Seq<char>, j: int)
    requires
        0 <= j <= s.len(),
    ensures
        0 <= ws_run_start(s, j) <= j,
        ws_run_start(s, j) > 0 ==> !is_ws(s[ws_run_start(s, j) - 1]),
    decreases j,
{
    if j > 0 && is_ws(s[j - 1]) {
        lemma_ws_run_start_bounds(s, j - 1);
    }
}

/// Removes leading and trailing whitespace.
pub fn trim(s: &str) -> (r: String)
    ensures
        r@ == trim_spec(s@),
{
    let len: usize = s.unicode_len();
    let mut lo: usize = 0;
    while lo < len && is_ws_exec(s.get_char(lo))
        invariant
            0 <= lo <= len,
            len == s@.len(),
            ws_run_end(s@, 0) == ws_run_end(s@, lo as int),
        decreases len - lo,
    {
        lo = lo + 1;
    }
    assert(ws_run_end(s@, lo as int) == lo);
    let mut hi: usize = len;
    while hi > lo && is_ws_exec(s.get_char(hi - 1))
        invariant
            lo <= hi <= len,
            len == s@.len(),
            ws_run_start(s@, len as int) == ws_run_start(s@, hi as int),
        decreases hi,
    {
        hi = hi - 1;
    }
    proof {
        lemma_ws_run_start_bounds(s@, hi as int);
        if hi > lo {
            assert(ws_run_start(s@, hi as int) == hi);
        } else {
            assert(ws_run_start(s@, hi as int) >= lo || ws_run_start(s@, hi as int) < lo);
        }
    }
    if hi <= lo {
        proof {
            lemma_ws_run_start_bounds(s@, hi as int);
        }
        let r = String::new();
        assert(r@ =~= trim_spec(s@));
        return r;
    }
    let r = s.substring_char(lo, hi).to_owned();
    assert(r@ =~= trim_spec(s@));
    r
}

/// Index of the first character differing from `c` at or after `i`.
pub open spec fn same_run_end(s: Seq<char>, c: char, i: int) -> int
    decreases s.len() - i,
{
    if i < 0 || i >= s.len() || s[i] != c {
        i
    } else {
        same_run_end(s, c, i + 1)
    }
}

/// Index just past the last character differing from `c` before `j`.
pub open spec fn same_run_start(s: Seq<char>, c: char, j: int) -> int
    decreases j,
{
    if j <= 0 || j > s.len() || s[j - 1] != c {
        j
    } else {
        same_run_start(s, c, j - 1)
    }
}

/// `s` with every leading and trailing `c` removed, as `str::trim_matches`
/// yields it.
pub open spec fn strip_matches_spec(s: Seq<char>, c: char) -> Seq<char> {
    let lo = same_run_end(s, c, 0);
    let hi = same_run_start(s, c, s.len() as int);
    if lo <= hi {
        s.subrange(lo, hi)
    } else {
        seq![]
    }
}

proof fn lemma_same_run_start_bounds(s: Seq<char>, c: char, j: int)
    requires
        0 <= j <= s.len(),
    ensures
        0 <= same_run_start(s, c, j) <= j,
    decreases j,
{
    if j > 0 && s[j - 1] == c {
        lemma_same_run_start_bounds(s, c, j - 1);
    }
}

/// Removes every leading and trailing `c`.
pub fn strip_matches(s: &str, c: char) -> (r: String)
    ensures
        r@ == strip_matches_spec(s@, c),
{
    let len: usize = s.unicode_len();
    let mut lo: usize = 0;
    while lo < len && s.get_char(lo) == c
        invariant
            0 <= lo <= len,
            len == s@.len(),
            same_run_end(s@, c, 0) == same_run_end(s@, c, lo as int),
        decreases len - lo,
    {
        lo = lo + 1;
    }
    assert(same_run_end(s@, c, lo as int) == lo);
    let mut hi: usize = len;
    while hi > lo && s.get_char(hi - 1) == c
        invariant
            lo <= hi <= len,
            len == s@.len(),
            same_run_start(s@, c, len as int) == same_run_start(s@, c, hi as int),
        decreases hi,
    {
        hi = hi - 1;
    }
    if hi <= lo {
        proof {
            lemma_same_run_start_bounds(s@, c, hi as int);
        }
        let r = String::new();
        assert(r@ =~= strip_matches_spec(s@, c));
        return r;
    }
    assert(same_run_start(s@, c, hi as int) == hi);
    let r = s.substring_char(lo, hi).to_owned();
    assert(r@ =~= strip_matches_spec(s@, c));
    r
}

/// Index of the first occurrence of `c` in `s` at or after `i`, or the
/// length of `s`.
pub open spec fn char_pos_from(s: Seq<char>, c: char, i: int) -> int
    decreases s.len() - i,
{
    if i < 0 || i >= s.len() || s[i] == c {
        i
    } else {
        char_pos_from(s, c, i + 1)
    }
}

proof fn lemma_char_pos_bounds(s: Seq<char>, c: char, i: int)
    requires
        0 <= i <= s.len(),
    ensures
        i <= char_pos_from(s, c, i) <= s.len(),
        char_pos_from(s, c, i) < s.len() ==> s[char_pos_from(s, c, i)] == c,
        forall|k: int| i <= k < char_pos_from(s, c, i) ==> s[k] != c,
    decreases s.len() - i,
{
    if i < s.len() && s[i] != c {
        lemma_char_pos_bounds(s, c, i + 1);
    }
}

/// Index of the first occurrence of `c`, as `str::find` reports it.
pub fn find_char(s: &str, c: char) -> (r: Option<usize>)
    ensures
        ({
            let p = char_pos_from(s@, c, 0);
            match r {
                Some(idx) => idx == p && p < s@.len() && s@[p] == c,
                None => p == s@.len(),
            }
        }),
{
    let len: usize = s.unicode_len();
    let mut i: usize = 0;
    while i < len && s.get_char(i) != c
        invariant
            0 <= i <= len,
            len == s@.len(),
            char_pos_from(s@, c, 0) == char_pos_from(s@, c, i as int),
        decreases len - i,
    {
        i = i + 1;
    }
    assert(char_pos_from(s@, c, i as int) == i);
    if i < len {
        Some(i)
    } else {
        None
    }
}

/// The text after the last occurrence of `c` in `s`, or all of `s` when it
/// has none: what `split(c).last()` yields.
pub open spec fn after_last(s: Seq<char>, c: char) -> Seq<char>
    decreases s.len(),
{
    if s.len() == 0 {
        s
    } else if s.last() == c {
        seq![]
    } else {
        after_last(s.drop_last(), c).push(s.last())
    }
}

proof fn lemma_after_last_absent(s: Seq<char>, c: char)
    requires
        forall|k: int| 0 <= k < s.len() ==> s[k] != c,
    ensures
        after_last(s, c) == s,
    decreases s.len(),
{
    if s.len() > 0 {
        lemma_after_last_absent(s.drop_last(), c);
        assert(after_last(s, c) =~= s);
    }
}

proof fn lemma_after_last_suffix(s: Seq<char>, c: char, p: int)
    requires
        0 <= p < s.len(),
        s[p] == c,
        forall|k: int| p < k < s.len() ==> s[k] != c,
    ensures
        after_last(s, c) == s.subrange(p + 1, s.len() as int),
    decreases s.len(),
{
    if p == s.len() - 1 {
        assert(after_last(s, c) =~= s.subrange(p + 1, s.len() as int));
    } else {
        lemma_after_last_suffix(s.drop_last(), c, p);
        assert(s.drop_last().subrange(p + 1, s.len() - 1).push(s.last()) =~= s.subrange(
            p + 1,
            s.len() as int,
        ));
    }
}

/// The text after the last occurrence of `c`.
pub fn suffix_after_last(s: &str, c: char) -> (r: String)
    ensures
        r@ == after_last(s@, c),
{
    let len: usize = s.unicode_len();
    let mut i: usize = len;
    while i > 0 && s.get_char(i - 1) != c
        invariant
            0 <= i <= len,
            len == s@.len(),
            forall|k: int| i <= k < len ==> s@[k] != c,
        decreases i,
    {
        i = i - 1;
    }
    let r = s.substring_char(i, len).to_owned();
    proof {
        if i == 0 {
            lemma_after_last_absent(s@, c);
            assert(r@ =~= after_last(s@, c));
        } else {
            lemma_after_last_suffix(s@, c, i - 1);
            assert(r@ =~= after_last(s@, c));
        }
    }
    r
}

/// The text after the last occurrence of a present character is shorter
/// than the whole.
pub proof fn lemma_after_last_shorter(s: Seq<char>, c: char)
    requires
        has_char(s, c),
    ensures
        after_last(s, c).len() < s.len(),
    decreases s.len(),
{
    if s.len() > 0 && s.last() != c {
        let k = choose|k: int| 0 <= k < s.len() && s[k] == c;
        assert(s.drop_last()[k] == c);
        lemma_after_last_shorter(s.drop_last(), c);
    }
}

/// Whether `s` holds `c` anywhere.
pub open spec fn has_char(s: Seq<char>, c: char) -> bool {
    exists|k: int| 0 <= k < s.len() && s[k] == c
}

/// Whether `s` holds `c`, as `str::contains` decides it for a char pattern.
pub fn contains_char(s: &str, c: char) -> (r: bool)
    ensures
        r == has_char(s@, c),
{
    let len: usize = s.unicode_len();
    let mut i: usize = 0;
    while i < len
        invariant
            0 <= i <= len,
            len == s@.len(),
            forall|k: int| 0 <= k < i ==> s@[k] != c,
        decreases len - i,
    {
        if s.get_char(i) == c {
            return true;
        }
        i = i + 1;
    }
    false
}

/// `s` with every trailing copy of `suf` removed, as `str::trim_end_matches`
/// yields it.
pub open spec fn strip_all_suffix(s: Seq<char>, suf: Seq<char>) -> Seq<char>
    decreases s.len(),
{
    if suf.len() > 0 && ends_with_seq(s, suf) {
        strip_all_suffix(s.take(s.len() - suf.len()), suf)
    } else {
        s
    }
}

fn ends_at(s: &str, e: usize, suf: &str) -> (r: bool)
    requires
        e <= s@.len(),
    ensures
        r == ends_with_seq(s@.take(e as int), suf@),
{
    let xlen: usize = suf.unicode_len();
    if xlen > e {
        return false;
    }
    let base: usize = e - xlen;
    let mut i: usize = 0;
    while i < xlen
        invariant
            0 <= i <= xlen,
            xlen == suf@.len(),
            base == e - xlen,
            e <= s@.len(),
            forall|k: int| 0 <= k < i ==> s@[base + k] == suf@[k],
        decreases xlen - i,
    {
        if s.get_char(base + i) != suf.get_char(i) {
            assert(s@.take(e as int).subrange(base as int, e as int)[i as int] != suf@[i as int]);
            return false;
        }
        i = i + 1;
    }
    assert(s@.take(e as int).subrange(base as int, e as int) =~= suf@);
    true
}

/// Removes every trailing copy of `suf`.
pub fn trim_end_matches(s: &str, suf: &str) -> (r: String)
    requires
        suf@.len() > 0,
    ensures
        r@ == strip_all_suffix(s@, suf@),
{
    let len: usize = s.unicode_len();
    let xlen: usize = suf.unicode_len();
    let mut e: usize = len;
    proof {
        assert(s@.take(len as int) =~= s@);
    }
    while ends_at(s, e, suf)
        invariant
            0 <= e <= len,
            len == s@.len(),
            xlen == suf@.len(),
            xlen > 0,
            strip_all_suffix(s@, suf@) == strip_all_suffix(s@.take(e as int), suf@),
        decreases e,
    {
        proof {
            assert(s@.take(e as int).take(e - xlen) =~= s@.take(e - xlen));
        }
        e = e - xlen;
    }
    let r = s.substring_char(0, e).to_owned();
    assert(r@ =~= s@.take(e as int));
    r
}

/// A path separator, on either family of operating systems.
pub open spec fn is_path_sep(c: char) -> bool {
    c == '/' || c == '\\'
}

fn is_path_sep_exec(c: char) -> (r: bool)
    ensures
        r == is_path_sep(c),
{
    c == '/' || c == '\\'
}

/// Index just past the separator-free path component that starts at `i`.
pub open spec fn component_end(s: Seq<char>, i: int) -> int
    decreases s.len() - i,
{
    if i < 0 || i >= s.len() || is_path_sep(s[i]) {
        i
    } else {
        component_end(s, i + 1)
    }
}

/// The non-empty components of a path, split at `'/'` and `'\\'`.
pub open spec fn components_from(s: Seq<char>, i: int) -> Seq<Seq<char>>
    decreases s.len() - i,
    via components_from_decreases
{
    if i < 0 || i >= s.len() {
        seq![]
    } else if is_path_sep(s[i]) {
        components_from(s, i + 1)
    } else {
        seq![s.subrange(i, component_end(s, i))] + components_from(s, component_end(s, i))
    }
}

#[via_fn]
proof fn components_from_decreases(s: Seq<char>, i: int) {
    if 0 <= i < s.len() && !is_path_sep(s[i]) {
        lemma_component_end_bounds(s, i + 1);
    }
}

/// The non-empty components of a path.
pub open spec fn path_components(s: Seq<char>) -> Seq<Seq<char>> {
    components_from(s, 0)
}

proof fn lemma_component_end_bounds(s: Seq<char>, i: int)
    requires
        0 <= i <= s.len(),
    ensures
        i <= component_end(s, i) <= s.len(),
    decreases s.len() - i,
{
    if i < s.len() && !is_path_sep(s[i]) {
        lemma_component_end_bounds(s, i + 1);
    }
}

/// Splits a path into its non-empty components.
pub fn split_path_components(s: &str) -> (r: Vec<String>)
    ensures
        r.deep_view() == path_components(s@),
{
    let len: usize = s.unicode_len();
    let mut out: Vec<String> = Vec::new();
    let mut i: usize = 0;
    while i < len
        invariant
            0 <= i <= len,
            len == s@.len(),
            components_from(s@, 0) == out.deep_view() + components_from(s@, i as int),
        decreases len - i,
    {
        let c = s.get_char(i);
        if is_path_sep_exec(c) {
            assert(components_from(s@, i as int) == components_from(s@, i + 1));
            i = i + 1;
        } else {
            let start: usize = i;
            let mut j: usize = i + 1;
            while j < len && !is_path_sep_exec(s.get_char(j))
                invariant
                    start < j <= len,
                    len == s@.len(),
                    component_end(s@, start as int) == component_end(s@, j as int),
                decreases len - j,
            {
                j = j + 1;
            }
            proof {
                lemma_component_end_bounds(s@, j as int);
                assert(component_end(s@, j as int) == j);
            }
            let part = s.substring_char(start, j).to_owned();
            proof {
                assert(components_from(s@, start as int) =~= seq![s@.subrange(
                    start as int,
                    component_end(s@, start as int),
                )] + components_from(s@, component_end(s@, start as int)));
            }
            out.push(part);
            proof {
                assert(out.deep_view() =~= out.deep_view().drop_last().push(
                    s@.subrange(start as int, j as int),
                ));
            }
            i = j;
        }
    }
    assert(components_from(s@, i as int) =~= Seq::<Seq<char>>::empty());
    assert(out.deep_view() =~= out.deep_view() + Seq::<Seq<char>>::empty());
    out
}

/// Whether some string of `v` reads as `x`.
pub fn vec_contains_str(v: &Vec<String>, x: &str) -> (r: bool)
    ensures
        r == v.deep_view().contains(x@),
{
    let mut i: usize = 0;
    while i < v.len()
        invariant
            0 <= i <= v.len(),
            forall|k: int| 0 <= k < i ==> v.deep_view()[k] != x@,
        decreases v.len() - i,
    {
        proof {
            assert(v.deep_view()[i as int] == v@[i as int]@);
        }
        if str_eq(v[i].as_str(), x) {
            assert(v.deep_view()[i as int] == x@);
            return true;
        }
        i = i + 1;
    }
    assert(forall|k: int| 0 <= k < v.deep_view().len() ==> v.deep_view()[k] != x@);
    false
}

/// The strings of `s` joined by `sep`.
pub open spec fn join_with(s: Seq<Seq<char>>, sep: Seq<char>) -> Seq<char>
    decreases s.len(),
{
    if s.len() == 0 {
        seq![]
    } else if s.len() == 1 {
        s[0]
    } else {
        join_with(s.drop_last(), sep) + sep + s.last()
    }
}

/// Joins the strings of `v` with `sep`, as `[String]::join` does.
pub fn join_strings(v: &Vec<String>, sep: &str) -> (r: String)
    ensures
        r@ == join_with(v.deep_view(), sep@),
{
    let mut out = String::new();
    let mut i: usize = 0;
    while i < v.len()
        invariant
            0 <= i <= v.len(),
            out@ == join_with(v.deep_view().take(i as int), sep@),
        decreases v.len() - i,
    {
        if i > 0 {
            out.append(sep);
        }
        out.append(v[i].as_str());
        proof {
            assert(v.deep_view()[i as int] == v@[i as int]@);
            assert(v.deep_view().take(i + 1).drop_last() =~= v.deep_view().take(i as int));
            assert(v.deep_view().take(i + 1).last() == v.deep_view()[i as int]);
        }
        i = i + 1;
    }
    assert(v.deep_view().take(v@.len() as int) =~= v.deep_view());
    out
}

/// Lexicographic order on character sequences, by code point.
pub open spec fn str_lt(a: Seq<char>, b: Seq<char>) -> bool
    decreases a.len(),
{
    if b.len() == 0 {
        false
    } else if a.len() == 0 {
        true
    } else if a[0] != b[0] {
        (a[0] as int) < (b[0] as int)
    } else {
        str_lt(a.skip(1), b.skip(1))
    }
}

/// Exactly one of `a < b`, `a == b`, `b < a` holds.
pub proof fn lemma_str_lt_trichotomy(a: Seq<char>, b: Seq<char>)
    ensures
        str_lt(a, b) || a == b || str_lt(b, a),
        str_lt(a, b) ==> a != b && !str_lt(b, a),
        a == b ==> !str_lt(a, b),
    decreases a.len() + b.len(),
{
    if a.len() > 0 && b.len() > 0 && a[0] == b[0] {
        lemma_str_lt_trichotomy(a.skip(1), b.skip(1));
        if a.skip(1) == b.skip(1) {
            assert forall|i: int| 0 <= i < a.len() implies a[i] == b[i] by {
                if i >= 1 {
                    assert(a.skip(1)[i - 1] == b.skip(1)[i - 1]);
                }
            }
            assert(a =~= b);
        }
        if a == b {
            assert(a.skip(1) =~= b.skip(1));
        }
    } else if a.len() == 0 && b.len() == 0 {
        assert(a =~= b);
    }
}

/// Lexicographic order is transitive.
pub proof fn lemma_str_lt_transitive(a: Seq<char>, b: Seq<char>, c: Seq<char>)
    requires
        str_lt(a, b),
        str_lt(b, c),
    ensures
        str_lt(a, c),
    decreases a.len() + b.len() + c.len(),
{
    if a.len() > 0 && b.len() > 0 && c.len() > 0 && a[0] == b[0] && b[0] == c[0] {
        lemma_str_lt_transitive(a.skip(1), b.skip(1), c.skip(1));
    }
}

/// Whether `a` orders strictly before `b`, by code point.
pub fn str_lt_exec(a: &str, b: &str) -> (r: bool)
    ensures
        r == str_lt(a@, b@),
{
    let alen: usize = a.unicode_len();
    let blen: usize = b.unicode_len();
    let mut i: usize = 0;
    proof {
        assert(a@.skip(0) =~= a@);
        assert(b@.skip(0) =~= b@);
    }
    while i < alen && i < blen
        invariant
            0 <= i,
            i <= alen,
            i <= blen,
            alen == a@.len(),
            blen == b@.len(),
            str_lt(a@, b@) == str_lt(a@.skip(i as int), b@.skip(i as int)),
        decreases alen - i,
    {
        let ca = a.get_char(i);
        let cb = b.get_char(i);
        proof {
            assert(a@.skip(i as int)[0] == ca);
            assert(b@.skip(i as int)[0] == cb);
            assert(a@.skip(i as int).skip(1) =~= a@.skip(i + 1));
            assert(b@.skip(i as int).skip(1) =~= b@.skip(i + 1));
        }
        if ca != cb {
            return (ca as u32) < (cb as u32);
        }
        i = i + 1;
    }
    proof {
        assert(i >= alen || i >= blen);
        if i >= blen {
            assert(b@.skip(i as int).len() == 0);
        } else {
            assert(a@.skip(i as int).len() == 0);
            assert(b@.skip(i as int).len() > 0);
        }
    }
    i >= alen && i < blen
}

/// What `str::to_lowercase` returns: a function of the characters alone.
pub uninterp spec fn lower_of(s: Seq<char>) -> Seq<char>;

/// Relies on `str::to_lowercase`: the Unicode-lowercased text, which
/// depends on the input characters alone.
#[verifier::external_body]
pub fn to_lowercase(s: &str) -> (r: String)
    ensures
        r@ == lower_of(s@),
{
    s.to_lowercase()
}

/// What `char::is_alphanumeric` returns: a property of the character alone.
pub uninterp spec fn alnum(c: char) -> bool;

/// Relies on `char::is_alphanumeric`: whether the character is in a Unicode
/// letter or number category, a property of the character alone.
#[verifier::external_body]
pub fn is_alphanumeric(c: char) -> (r: bool)
    ensures
        r == alnum(c),
{
    c.is_alphanumeric()
}

} // verus!
