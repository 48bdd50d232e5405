//! Character and string utilities shared by the parsing and formatting code.

use vstd::prelude::*;

verus! {

/// Code point of `c` after ASCII lowering: `'A'..='Z'` maps down 32, all
/// other characters keep their own code point.
pub open spec fn lower_code(c: char) -> u32 {
    if 65 <= c as u32 && c as u32 <= 90 {
        (c as u32 + 32) as u32
    } else {
        c as u32
    }
}

/// Whether `a`, lowered to ASCII lowercase, spells exactly `b`.
pub open spec fn lower_is(a: Seq<char>, b: Seq<char>) -> bool {
    a.len() == b.len() && forall|i: int| 0 <= i < a.len() ==> lower_code(a[i]) == b[i] as u32
}

/// Whether two string slices hold the same characters.
pub fn str_eq(a: &str, b: &str) -> (r: bool)
    ensures
        r == (a@ == b@),
{
    let a_len = a.unicode_len();
    let b_len = b.unicode_len();
    if a_len != b_len {
        return false;
    }
    let mut i: usize = 0;
    while i < a_len
        invariant
            i <= a_len,
            a_len == a@.len(),
            b_len == b@.len(),
            a_len == b_len,
            forall|j: int| 0 <= j < i ==> a@[j] == b@[j],
        decreases a_len - i,
    {
        if a.get_char(i) != b.get_char(i) {
            return false;
        }
        i += 1;
    }
    proof {
        assert(a@ =~= b@);
    }
    true
}

/// Whether `a` equals `b` up to ASCII case (callers pass a lowercase
/// pattern for `b`).
pub fn eq_ignore_ascii_case(a: &str, b: &str) -> (r: bool)
    ensures
        r == lower_is(a@, b@),
{
    let a_len = a.unicode_len();
    let b_len = b.unicode_len();
    if a_len != b_len {
        return false;
    }
    let mut i: usize = 0;
    while i < a_len
        invariant
            i <= a_len,
            a_len == a@.len(),
            b_len == b@.len(),
            a_len == b_len,
            forall|j: int| 0 <= j < i ==> lower_code(a@[j]) == b@[j] as u32,
        decreases a_len - i,
    {
        let ca = a.get_char(i) as u32;
        let cb = b.get_char(i) as u32;
        let lowered: u32 = if 65 <= ca && ca <= 90 {
            ca + 32
        } else {
            ca
        };
        if lowered != cb {
            return false;
        }
        i += 1;
    }
    true
}

/// Lexicographic order on character sequences by code point, with a proper
/// prefix ordered first. Matches the order `str` comparison gives, since
/// UTF-8 byte order agrees with code-point order.
pub open spec fn lex_le(a: Seq<char>, b: Seq<char>) -> bool
    decreases a.len(),
{
    if a.len() == 0 {
        true
    } else if b.len() == 0 {
        false
    } else if (a[0] as u32) < (b[0] as u32) {
        true
    } else if (a[0] as u32) > (b[0] as u32) {
        false
    } else {
        lex_le(a.drop_first(), b.drop_first())
    }
}

/// The lexicographic order relates every pair, one way or the other.
pub proof fn lemma_lex_le_total(a: Seq<char>, b: Seq<char>)
    ensures
        lex_le(a, b) || lex_le(b, a),
    decreases a.len(),
{
    if a.len() == 0 || b.len() == 0 {
    } else if (a[0] as u32) == (b[0] as u32) {
        lemma_lex_le_total(a.drop_first(), b.drop_first());
    }
}

/// The lexicographic order is transitive.
pub proof fn lemma_lex_le_trans(a: Seq<char>, b: Seq<char>, c: Seq<char>)
    requires
        lex_le(a, b),
        lex_le(b, c),
    ensures
        lex_le(a, c),
    decreases a.len(),
{
    if a.len() == 0 || b.len() == 0 || c.len() == 0 {
    } else if (a[0] as u32) == (b[0] as u32) && (b[0] as u32) == (c[0] as u32) {
        lemma_lex_le_trans(a.drop_first(), b.drop_first(), c.drop_first());
    }
}

/// Executable form of the lexicographic comparison.
pub fn lex_le_exec(a: &str, b: &str) -> (r: bool)
    ensures
        r == lex_le(a@, b@),
{
    let a_len = a.unicode_len();
    let b_len = b.unicode_len();
    let mut i: usize = 0;
    proof {
        assert(a@.skip(0) =~= a@);
        assert(b@.skip(0) =~= b@);
    }
    loop
        invariant
            i <= a_len,
            i <= b_len,
            a_len == a@.len(),
            b_len == b@.len(),
            lex_le(a@, b@) == lex_le(a@.skip(i as int), b@.skip(i as int)),
        decreases a_len - i,
    {
        if i == a_len {
            proof {
                assert(a@.skip(i as int).len() == 0);
            }
            return true;
        }
        if i == b_len {
            proof {
                assert(b@.skip(i as int).len() == 0);
                assert(a@.skip(i as int).len() > 0);
            }
            return false;
        }
        let ca = a.get_char(i) as u32;
        let cb = b.get_char(i) as u32;
        proof {
            assert(a@.skip(i as int)[0] == a@[i as int]);
            assert(b@.skip(i as int)[0] == b@[i as int]);
        }
        if ca < cb {
            return true;
        }
        if ca > cb {
            return false;
        }
        proof {
            assert(a@.skip(i as int).drop_first() =~= a@.skip(i as int + 1));
            assert(b@.skip(i as int).drop_first() =~= b@.skip(i as int + 1));
        }
        i += 1;
    }
}

/// Separators inside one listing row: blank, tab, and a stray carriage
/// return from a remote that emits CRLF line ends.
pub open spec fn is_space(c: char) -> bool {
    c == ' ' || c == '\t' || c == '\r'
}

/// Whitespace trimmed from both ends of command output.
pub open spec fn is_ws(c: char) -> bool {
    c == ' ' || c == '\t' || c == '\r' || c == '\n'
}

/// Index of the first occurrence of `c` in `s`, or `s.len()` if absent.
pub open spec fn first_idx(s: Seq<char>, c: char) -> nat
    decreases s.len(),
{
    if s.len() == 0 {
        0
    } else if s[0] == c {
        0
    } else {
        1 + first_idx(s.drop_first(), c)
    }
}

/// Characterizes `first_idx` by its position: `n` is the first occurrence
/// exactly when nothing before it matches and `n` itself does (or is the end).
pub proof fn lemma_first_idx_is(s: Seq<char>, c: char, n: nat)
    requires
        n <= s.len(),
        forall|k: int| 0 <= k < n ==> s[k] != c,
        n < s.len() ==> s[n as int] == c,
    ensures
        first_idx(s, c) == n,
    decreases n,
{
    if s.len() == 0 {
    } else if n == 0 {
    } else {
        lemma_first_idx_is(s.drop_first(), c, (n - 1) as nat);
    }
}

/// `first_idx` never passes the end of the sequence.
pub proof fn lemma_first_idx_le_len(s: Seq<char>, c: char)
    ensures
        first_idx(s, c) <= s.len(),
        first_idx(s, c) < s.len() ==> s[first_idx(s, c) as int] == c,
    decreases s.len(),
{
    if s.len() == 0 {
    } else if s[0] == c {
    } else {
        lemma_first_idx_le_len(s.drop_first(), c);
    }
}

/// The lines of `s`: maximal chunks between `'\n'` characters, with a final
/// newline producing no empty last line.
pub open spec fn spec_lines(s: Seq<char>) -> Seq<Seq<char>>
    decreases s.len(),
    via spec_lines_dec
{
    if s.len() == 0 {
        seq![]
    } else {
        let i = first_idx(s, '\n');
        if i >= s.len() {
            seq![s]
        } else {
            seq![s.take(i as int)] + spec_lines(s.skip(i as int + 1))
        }
    }
}

#[via_fn]
proof fn spec_lines_dec(s: Seq<char>) {
    lemma_first_idx_le_len(s, '\n');
}

/// Finds the first occurrence of `c` in `s` at or after `from`.
pub fn find_char(s: &str, from: usize, c: char) -> (j: usize)
    requires
        from <= s@.len(),
    ensures
        from <= j <= s@.len(),
        j < s@.len() ==> s@[j as int] == c,
        forall|k: int| from <= k < j ==> s@[k] != c,
{
    let len = s.unicode_len();
    let mut j = from;
    while j < len
        invariant
            from <= j <= len,
            len == s@.len(),
            forall|k: int| from <= k < j ==> s@[k] != c,
        decreases len - j,
    {
        if s.get_char(j) == c {
            return j;
        }
        j += 1;
    }
    j
}

/// Splits `s` into its lines.
pub fn split_lines(s: &str) -> (r: Vec<String>)
    ensures
        r.deep_view() == spec_lines(s@),
{
    let len = s.unicode_len();
    let mut r: Vec<String> = Vec::new();
    let mut pos: usize = 0;
    proof {
        assert(s@.skip(0) =~= s@);
        assert(r.deep_view() =~= Seq::<Seq<char>>::empty());
    }
    while pos < len
        invariant
            pos <= len,
            len == s@.len(),
            spec_lines(s@) == r.deep_view() + spec_lines(s@.skip(pos as int)),
        decreases len - pos,
    {
        let ghost prev = r.deep_view();
        let ghost rest = s@.skip(pos as int);
        let j = find_char(s, pos, '\n');
        let chunk = String::from_str(s.substring_char(pos, j));
        proof {
            lemma_first_idx_is(rest, '\n', (j - pos) as nat);
            assert(rest.take((j - pos) as int) =~= s@.subrange(pos as int, j as int));
        }
        r.push(chunk);
        proof {
            assert(r.deep_view() =~= prev.push(chunk@));
        }
        if j == len {
            proof {
                assert(rest =~= s@.subrange(pos as int, j as int));
                assert(spec_lines(rest) =~= seq![chunk@]);
            }
            pos = len;
            proof {
                assert(s@.skip(pos as int).len() == 0);
                assert(spec_lines(s@) =~= r.deep_view() + spec_lines(s@.skip(pos as int)));
            }
        } else {
            proof {
                assert(rest.skip((j - pos) as int + 1) =~= s@.skip(j as int + 1));
                assert(spec_lines(rest) =~= seq![chunk@] + spec_lines(s@.skip(j as int + 1)));
            }
            pos = j + 1;
            proof {
                assert(spec_lines(s@) =~= r.deep_view() + spec_lines(s@.skip(pos as int)));
            }
        }
    }
    proof {
        assert(s@.skip(pos as int).len() == 0);
        assert(r.deep_view() =~= spec_lines(s@));
    }
    r
}

/// Length of the maximal leading run of non-blank characters.
pub open spec fn run_len(s: Seq<char>) -> nat
    decreases s.len(),
{
    if s.len() == 0 || is_space(s[0]) {
        0
    } else {
        1 + run_len(s.drop_first())
    }
}

/// Characterizes `run_len` by its end position.
pub proof fn lemma_run_len_is(s: Seq<char>, n: nat)
    requires
        n <= s.len(),
        forall|k: int| 0 <= k < n ==> !is_space(s[k]),
        n < s.len() ==> is_space(s[n as int]),
    ensures
        run_len(s) == n,
    decreases n,
{
    if s.len() == 0 || n == 0 {
    } else {
        lemma_run_len_is(s.drop_first(), (n - 1) as nat);
    }
}

/// `run_len` never passes the end of the sequence.
pub proof fn lemma_run_len_le_len(s: Seq<char>)
    ensures
        run_len(s) <= s.len(),
        s.len() > 0 && !is_space(s[0]) ==> run_len(s) >= 1,
    decreases s.len(),
{
    if s.len() == 0 || is_space(s[0]) {
    } else {
        lemma_run_len_le_len(s.drop_first());
    }
}

/// The blank-separated fields of one listing row: each maximal run of
/// non-blank characters, in order.
pub open spec fn spec_fields(s: Seq<char>) -> Seq<Seq<char>>
    decreases s.len(),
    via spec_fields_dec
{
    if s.len() == 0 {
        seq![]
    } else if is_space(s[0]) {
        spec_fields(s.drop_first())
    } else {
        seq![s.take(run_len(s) as int)] + spec_fields(s.skip(run_len(s) as int))
    }
}

#[via_fn]
proof fn spec_fields_dec(s: Seq<char>) {
    lemma_run_len_le_len(s);
}

/// Finds the first blank at or after `from`.
fn find_space(s: &str, from: usize) -> (j: usize)
    requires
        from <= s@.len(),
    ensures
        from <= j <= s@.len(),
        j < s@.len() ==> is_space(s@[j as int]),
        forall|k: int| from <= k < j ==> !is_space(s@[k]),
{
    let len = s.unicode_len();
    let mut j = from;
    while j < len
        invariant
            from <= j <= len,
            len == s@.len(),
            forall|k: int| from <= k < j ==> !is_space(s@[k]),
        decreases len - j,
    {
        let c = s.get_char(j);
        if c == ' ' || c == '\t' || c == '\r' {
            return j;
        }
        j += 1;
    }
    j
}

/// Splits one row into its blank-separated fields.
pub fn split_fields(s: &str) -> (r: Vec<String>)
    ensures
        r.deep_view() == spec_fields(s@),
{
    let len = s.unicode_len();
    let mut r: Vec<String> = Vec::new();
    let mut pos: usize = 0;
    proof {
        assert(s@.skip(0) =~= s@);
        assert(r.deep_view() =~= Seq::<Seq<char>>::empty());
    }
    while pos < len
        invariant
            pos <= len,
            len == s@.len(),
            spec_fields(s@) == r.deep_view() + spec_fields(s@.skip(pos as int)),
        decreases len - pos,
    {
        let ghost rest = s@.skip(pos as int);
        let c = s.get_char(pos);
        if c == ' ' || c == '\t' || c == '\r' {
            pos += 1;
            proof {
                assert(rest.drop_first() =~= s@.skip(pos as int));
            }
        } else {
            let ghost prev = r.deep_view();
            let j = find_space(s, pos);
            let field = String::from_str(s.substring_char(pos, j));
            proof {
                lemma_run_len_is(rest, (j - pos) as nat);
                assert(rest.take((j - pos) as int) =~= s@.subrange(pos as int, j as int));
                assert(rest.skip((j - pos) as int) =~= s@.skip(j as int));
            }
            r.push(field);
            proof {
                assert(r.deep_view() =~= prev.push(field@));
                assert(spec_fields(rest) =~= seq![field@] + spec_fields(s@.skip(j as int)));
            }
            pos = j;
            proof {
                assert(spec_fields(s@) =~= r.deep_view() + spec_fields(s@.skip(pos as int)));
            }
        }
    }
    proof {
        assert(s@.skip(pos as int).len() == 0);
        assert(r.deep_view() =~= spec_fields(s@));
    }
    r
}

/// Whether `c` is a decimal digit.
pub open spec fn is_digit(c: char) -> bool {
    48 <= c as u32 && c as u32 <= 57
}

/// Numeric value of a digit character; zero for anything else.
pub open spec fn digit_val(c: char) -> nat {
    if is_digit(c) {
        (c as u32 - 48) as nat
    } else {
        0
    }
}

/// Whether every character of `s` is a decimal digit.
pub open spec fn all_digits(s: Seq<char>) -> bool {
    forall|i: int| 0 <= i < s.len() ==> is_digit(s[i])
}

/// The number the digit string `s` spells, most significant digit first.
pub open spec fn num_val(s: Seq<char>) -> nat
    decreases s.len(),
{
    if s.len() == 0 {
        0
    } else {
        num_val(s.drop_last()) * 10 + digit_val(s.last())
    }
}

/// What parsing `s` as an unsigned 64-bit size yields: the spelled value for
/// a pure digit string that fits, nothing otherwise.
pub open spec fn spec_parse_u64(s: Seq<char>) -> Option<u64> {
    if s.len() > 0 && all_digits(s) && num_val(s) <= u64::MAX {
        Some(num_val(s) as u64)
    } else {
        None
    }
}

/// A digit string is worth at least any of its prefixes.
proof fn lemma_num_val_prefix_le(s: Seq<char>, i: int)
    requires
        0 <= i <= s.len(),
    ensures
        num_val(s.take(i)) <= num_val(s),
    decreases s.len() - i,
{
    if i == s.len() {
        assert(s.take(i) =~= s);
    } else {
        lemma_num_val_prefix_le(s, i + 1);
        assert(s.take(i + 1).drop_last() =~= s.take(i));
        assert(num_val(s.take(i + 1)) == num_val(s.take(i)) * 10 + digit_val(s.take(i + 1).last()));
    }
}

/// Parses a decimal digit string into a 64-bit value.
pub fn parse_u64(s: &str) -> (r: Option<u64>)
    ensures
        r == spec_parse_u64(s@),
{
    let len = s.unicode_len();
    if len == 0 {
        return None;
    }
    let mut acc: u64 = 0;
    let mut i: usize = 0;
    proof {
        assert(s@.take(0) =~= Seq::<char>::empty());
    }
    while i < len
        invariant
            i <= len,
            len == s@.len(),
            forall|k: int| 0 <= k < i ==> is_digit(s@[k]),
            acc == num_val(s@.take(i as int)),
        decreases len - i,
    {
        let c = s.get_char(i) as u32;
        if c < 48 || c > 57 {
            return None;
        }
        let d = (c - 48) as u64;
        proof {
            assert(s@.take(i as int + 1).drop_last() =~= s@.take(i as int));
        }
        if acc > (u64::MAX - d) / 10 {
            proof {
                lemma_num_val_prefix_le(s@, i as int + 1);
                assert(num_val(s@.take(i as int + 1)) == acc * 10 + d);
                assert(num_val(s@) > u64::MAX) by (nonlinear_arith)
                    requires
                        acc > (u64::MAX - d) / 10,
                        d < 10,
                        num_val(s@) >= num_val(s@.take(i as int + 1)),
                        num_val(s@.take(i as int + 1)) == acc * 10 + d,
                ;
            }
            return None;
        }
        proof {
            assert(acc * 10 + d <= u64::MAX) by (nonlinear_arith)
                requires
                    acc <= (u64::MAX - d) / 10,
                    d < 10,
            ;
        }
        acc = acc * 10 + d;
        i += 1;
    }
    proof {
        assert(s@.take(len as int) =~= s@);
    }
    Some(acc)
}

/// Whether `pat` occurs inside `s` as a contiguous run.
pub open spec fn contains_seq(s: Seq<char>, pat: Seq<char>) -> bool {
    exists|i: int| match_at(s, pat, i)
}

/// Whether `pat` occurs in `s` starting at `i`.
pub open spec fn match_at(s: Seq<char>, pat: Seq<char>, i: int) -> bool {
    0 <= i && i + pat.len() <= s.len() && s.subrange(i, i + pat.len()) == pat
}

/// Checks for an occurrence of `pat` starting at `i`.
pub(crate) fn matches_at(s: &str, pat: &str, i: usize) -> (r: bool)
    requires
        i + pat@.len() <= s@.len(),
        s@.len() <= usize::MAX,
    ensures
        r == match_at(s@, pat@, i as int),
{
    let plen = pat.unicode_len();
    let mut k: usize = 0;
    while k < plen
        invariant
            k <= plen,
            plen == pat@.len(),
            i + plen <= s@.len(),
            s@.len() <= usize::MAX,
            forall|m: int| 0 <= m < k ==> s@[i + m] == pat@[m],
        decreases plen - k,
    {
        if s.get_char(i + k) != pat.get_char(k) {
            proof {
                assert(s@.subrange(i as int, i as int + pat@.len())[k as int] != pat@[k as int]);
            }
            return false;
        }
        k += 1;
    }
    proof {
        assert(s@.subrange(i as int, i as int + pat@.len()) =~= pat@);
    }
    true
}

/// Substring search.
pub fn contains_str(s: &str, pat: &str) -> (r: bool)
    ensures
        r == contains_seq(s@, pat@),
{
    let slen = s.unicode_len();
    let plen = pat.unicode_len();
    if plen > slen {
        return false;
    }
    if plen == 0 {
        proof {
            assert(s@.subrange(0, 0) =~= pat@);
            assert(match_at(s@, pat@, 0));
        }
        return true;
    }
    let mut i: usize = 0;
    while i <= slen - plen
        invariant
            plen == pat@.len(),
            slen == s@.len(),
            0 < plen <= slen,
            i <= slen - plen + 1,
            forall|m: int| 0 <= m < i ==> !match_at(s@, pat@, m),
        decreases slen + 1 - plen - i,
    {
        if matches_at(s, pat, i) {
            return true;
        }
        i += 1;
    }
    false
}

/// Whether `s` starts with `pat`.
pub open spec fn starts_with(s: Seq<char>, pat: Seq<char>) -> bool {
    pat.len() <= s.len() && s.subrange(0, pat.len() as int) == pat
}

/// Prefix test.
pub fn starts_with_exec(s: &str, pat: &str) -> (r: bool)
    ensures
        r == starts_with(s@, pat@),
{
    if pat.unicode_len() > s.unicode_len() {
        return false;
    }
    matches_at(s, pat, 0)
}

/// `s` with the whitespace stripped from both ends.
pub open spec fn spec_trim(s: Seq<char>) -> Seq<char>
    decreases s.len(),
{
    if s.len() == 0 {
        s
    } else if is_ws(s[0]) {
        spec_trim(s.drop_first())
    } else if is_ws(s.last()) {
        spec_trim(s.drop_last())
    } else {
        s
    }
}

/// Trims whitespace and compares against a pattern; used to read one-word
/// sentinels out of command output.
pub fn trimmed_is(s: &str, pat: &str) -> (r: bool)
    ensures
        r == (spec_trim(s@) == pat@),
{
    let len = s.unicode_len();
    let mut lo: usize = 0;
    let mut hi: usize = len;
    proof {
        assert(s@.subrange(0, len as int) =~= s@);
    }
    while lo < hi
        invariant
            lo <= hi <= len,
            len == s@.len(),
            spec_trim(s@) == spec_trim(s@.subrange(lo as int, hi as int)),
        decreases hi - lo,
    {
        let c = s.get_char(lo);
        if c == ' ' || c == '\t' || c == '\r' || c == '\n' {
            proof {
                assert(s@.subrange(lo as int, hi as int).drop_first() =~= s@.subrange(
                    lo as int + 1,
                    hi as int,
                ));
            }
            lo += 1;
        } else {
            let d = s.get_char(hi - 1);
            if d == ' ' || d == '\t' || d == '\r' || d == '\n' {
                proof {
                    assert(s@.subrange(lo as int, hi as int).drop_last() =~= s@.subrange(
                        lo as int,
                        hi as int - 1,
                    ));
                    assert(s@.subrange(lo as int, hi as int).last() == s@[hi as int - 1]);
                }
                hi -= 1;
            } else {
                let mid = s.substring_char(lo, hi);
                proof {
                    assert(s@.subrange(lo as int, hi as int)[0] == s@[lo as int]);
                    assert(s@.subrange(lo as int, hi as int).last() == s@[hi as int - 1]);
                }
                return str_eq(mid, pat);
            }
        }
    }
    let r = pat.unicode_len() == 0;
    proof {
        assert(s@.subrange(lo as int, hi as int).len() == 0);
        if pat@.len() == 0 {
            assert(spec_trim(s@) =~= pat@);
        }
    }
    r
}

/// The fields joined back with single blanks: how a listing row's name is
/// reassembled from its trailing fields.
pub open spec fn join_space(ts: Seq<Seq<char>>) -> Seq<char>
    decreases ts.len(),
{
    if ts.len() == 0 {
        seq![]
    } else if ts.len() == 1 {
        ts[0]
    } else {
        ts[0] + seq![' '] + join_space(ts.drop_first())
    }
}

/// Joins the fields of `v` from index `from` on with single blanks.
pub fn join_fields_from(v: &Vec<String>, from: usize) -> (r: String)
    requires
        from < v@.len(),
    ensures
        r@ == join_space(v.deep_view().skip(from as int)),
{
    let n = v.len();
    let mut r = String::new();
    r.append(v[from].as_str());
    proof {
        let ts = v.deep_view().skip(from as int);
        assert(v.deep_view()[from as int] == v@[from as int]@);
        assert(r@ =~= ts[0]);
        assert(ts.drop_first() =~= v.deep_view().skip(from as int + 1));
        if ts.len() == 1 {
            assert(v.deep_view().skip(from as int + 1).len() == 0);
            assert(join_space(ts) =~= r@ + join_space_tail(v.deep_view().skip(from as int + 1)));
        } else {
            assert(join_space(ts) =~= r@ + join_space_tail(v.deep_view().skip(from as int + 1)));
        }
    }
    let mut i = from + 1;
    while i < n
        invariant
            from < i <= n,
            n == v@.len(),
            v.deep_view().len() == v@.len(),
            join_space(v.deep_view().skip(from as int)) == r@ + join_space_tail(
                v.deep_view().skip(i as int),
            ),
        decreases n - i,
    {
        let ghost prefix = r@;
        r.append(" ");
        r.append(v[i].as_str());
        proof {
            let tail = v.deep_view().skip(i as int);
            assert(tail.len() > 0);
            assert(tail[0] == v.deep_view()[i as int]);
            assert(v.deep_view()[i as int] == v@[i as int]@);
            assert(tail.drop_first() =~= v.deep_view().skip(i as int + 1));
            reveal_strlit(" ");
            assert(r@ =~= prefix + seq![' '] + tail[0]);
            if tail.len() == 1 {
                assert(v.deep_view().skip(i as int + 1).len() == 0);
                assert(join_space(tail) == tail[0]);
                assert(join_space(v.deep_view().skip(from as int)) =~= (prefix + seq![' ']
                    + tail[0]) + join_space_tail(v.deep_view().skip(i as int + 1)));
            } else {
                assert(join_space(tail) == tail[0] + seq![' '] + join_space(tail.drop_first()));
                assert(join_space(v.deep_view().skip(from as int)) =~= (prefix + seq![' ']
                    + tail[0]) + join_space_tail(v.deep_view().skip(i as int + 1)));
            }
        }
        i += 1;
    }
    proof {
        assert(v.deep_view().skip(i as int).len() == 0);
        assert(join_space(v.deep_view().skip(from as int)) =~= r@);
    }
    r
}

/// The tail of a join: empty for no fields, otherwise a blank and the rest.
pub open spec fn join_space_tail(ts: Seq<Seq<char>>) -> Seq<char> {
    if ts.len() == 0 {
        seq![]
    } else {
        seq![' '] + join_space(ts)
    }
}

/// The character for one decimal digit value.
pub open spec fn digit_char(d: nat) -> char {
    if d == 0 {
        '0'
    } else if d == 1 {
        '1'
    } else if d == 2 {
        '2'
    } else if d == 3 {
        '3'
    } else if d == 4 {
        '4'
    } else if d == 5 {
        '5'
    } else if d == 6 {
        '6'
    } else if d == 7 {
        '7'
    } else if d == 8 {
        '8'
    } else {
        '9'
    }
}

/// The decimal digits of `n`, most significant first; zero is written "0".
pub open spec fn spec_decimal(n: nat) -> Seq<char>
    decreases n,
{
    if n < 10 {
        seq![digit_char(n)]
    } else {
        spec_decimal(n / 10) + seq![digit_char(n % 10)]
    }
}

/// One digit as text.
fn digit_str(d: u64) -> (r: &'static str)
    requires
        d < 10,
    ensures
        r@ == seq![digit_char(d as nat)],
{
    proof {
        reveal_strlit("0");
        reveal_strlit("1");
        reveal_strlit("2");
        reveal_strlit("3");
        reveal_strlit("4");
        reveal_strlit("5");
        reveal_strlit("6");
        reveal_strlit("7");
        reveal_strlit("8");
        reveal_strlit("9");
    }
    let r = match d {
        0 => "0",
        1 => "1",
        2 => "2",
        3 => "3",
        4 => "4",
        5 => "5",
        6 => "6",
        7 => "7",
        8 => "8",
        _ => "9",
    };
    proof {
        assert(r@ =~= seq![digit_char(d as nat)]);
    }
    r
}

/// Writes `n` in decimal.
pub fn u64_to_string(n: u64) -> (r: String)
    ensures
        r@ == spec_decimal(n as nat),
    decreases n,
{
    if n < 10 {
        String::from_str(digit_str(n))
    } else {
        let mut r = u64_to_string(n / 10);
        r.append(digit_str(n % 10));
        proof {
            assert(r@ =~= spec_decimal((n / 10) as nat) + seq![digit_char((n % 10) as nat)]);
        }
        r
    }
}

/// Index of the last occurrence of `c` in `s`, or `-1` if absent.
pub open spec fn last_idx(s: Seq<char>, c: char) -> int
    decreases s.len(),
{
    if s.len() == 0 {
        -1
    } else if s.last() == c {
        s.len() - 1
    } else {
        last_idx(s.drop_last(), c)
    }
}

/// Characterizes `last_idx` by its position: `j` is the last occurrence
/// exactly when `j` matches (or is `-1`) and nothing after it does.
pub proof fn lemma_last_idx_is(s: Seq<char>, c: char, j: int)
    requires
        -1 <= j < s.len() || j == -1,
        j >= 0 ==> s[j] == c,
        forall|k: int| j < k < s.len() ==> s[k] != c,
    ensures
        last_idx(s, c) == j,
    decreases s.len(),
{
    if s.len() == 0 {
    } else if s.last() == c {
        assert(j == s.len() - 1);
    } else {
        lemma_last_idx_is(s.drop_last(), c, j);
    }
}

} // verus!
