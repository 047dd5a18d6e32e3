//! Verified text utilities shared by the import engine and the cover
//! resolver: whitespace trimming, case-insensitive comparison, integer
//! parsing, substring search and replacement, comma splitting, and
//! decimal formatting.
//!
//! All functions are specified over `Seq<char>` views.  Whitespace and
//! case folding are deliberately ASCII-only, matching the behaviour of
//! the catalog store's `LOWER` collation on the data this library
//! handles.

use vstd::prelude::*;

verus! {

/// Characters the library treats as trimmable whitespace.
pub open spec fn is_space_char(c: char) -> bool {
    c == ' ' || c == '\t' || c == '\n' || c == '\r' || c == '\u{b}' || c == '\u{c}'
}

fn is_space(c: char) -> (r: bool)
    ensures
        r == is_space_char(c),
{
    c == ' ' || c == '\t' || c == '\n' || c == '\r' || c == '\u{b}' || c == '\u{c}'
}

/// The sequence with leading whitespace removed.
pub open spec fn trim_start_spec(s: Seq<char>) -> Seq<char>
    decreases s.len(),
{
    if s.len() > 0 && is_space_char(s[0]) {
        trim_start_spec(s.skip(1))
    } else {
        s
    }
}

/// The sequence with trailing whitespace removed.
pub open spec fn trim_end_spec(s: Seq<char>) -> Seq<char>
    decreases s.len(),
{
    if s.len() > 0 && is_space_char(s[s.len() - 1]) {
        trim_end_spec(s.take(s.len() - 1))
    } else {
        s
    }
}

/// The sequence with leading and trailing whitespace removed.
pub open spec fn trimmed(s: Seq<char>) -> Seq<char> {
    trim_end_spec(trim_start_spec(s))
}

proof fn lemma_trim_start_at(s: Seq<char>, i: int)
    requires
        0 <= i <= s.len(),
        forall|k: int| 0 <= k < i ==> is_space_char(s[k]),
        i == s.len() || !is_space_char(s[i]),
    ensures
        trim_start_spec(s) == s.skip(i),
    decreases i,
{
    if i == 0 {
        assert(s.skip(0) =~= s);
    } else {
        let t = s.skip(1);
        assert(forall|k: int| 0 <= k < i - 1 ==> is_space_char(t[k]));
        lemma_trim_start_at(t, i - 1);
        assert(t.skip(i - 1) =~= s.skip(i));
    }
}

proof fn lemma_trim_end_at(s: Seq<char>, j: int)
    requires
        0 <= j <= s.len(),
        forall|k: int| j <= k < s.len() ==> is_space_char(s[k]),
        j == 0 || !is_space_char(s[j - 1]),
    ensures
        trim_end_spec(s) == s.take(j),
    decreases s.len() - j,
{
    if j == s.len() {
        assert(s.take(j) =~= s);
    } else {
        assert(is_space_char(s[s.len() - 1]));
        let t = s.take(s.len() - 1);
        assert(forall|k: int| j <= k < t.len() ==> is_space_char(t[k]));
        lemma_trim_end_at(t, j);
        assert(t.take(j) =~= s.take(j));
    }
}

/// Where the untrimmed characters of `s` lie between `i` and `j`,
/// trimming yields exactly that window.
pub proof fn lemma_trimmed_subrange(s: Seq<char>, i: int, j: int)
    requires
        0 <= i <= j <= s.len(),
        forall|k: int| 0 <= k < i ==> is_space_char(s[k]),
        forall|k: int| j <= k < s.len() ==> is_space_char(s[k]),
        i == j || (!is_space_char(s[i]) && !is_space_char(s[j - 1])),
    ensures
        trimmed(s) == s.subrange(i, j),
{
    if i == j {
        lemma_trim_start_at(s, s.len() as int);
        assert(trim_start_spec(s) =~= s.subrange(i, j));
    } else {
        lemma_trim_start_at(s, i);
        let u = s.skip(i);
        assert(forall|k: int| j - i <= k < u.len() ==> is_space_char(u[k]));
        assert(!is_space_char(u[j - i - 1]));
        lemma_trim_end_at(u, j - i);
        assert(u.take(j - i) =~= s.subrange(i, j));
    }
}

proof fn lemma_trim_start_len(s: Seq<char>)
    ensures
        trim_start_spec(s).len() <= s.len(),
    decreases s.len(),
{
    if s.len() > 0 && is_space_char(s[0]) {
        lemma_trim_start_len(s.skip(1));
    }
}

proof fn lemma_trim_end_len(s: Seq<char>)
    ensures
        trim_end_spec(s).len() <= s.len(),
    decreases s.len(),
{
    if s.len() > 0 && is_space_char(s[s.len() - 1]) {
        lemma_trim_end_len(s.take(s.len() - 1));
    }
}

/// Trimming never lengthens a sequence.
pub proof fn lemma_trimmed_len(s: Seq<char>)
    ensures
        trimmed(s).len() <= s.len(),
{
    lemma_trim_start_len(s);
    lemma_trim_end_len(trim_start_spec(s));
}

/// Remove leading and trailing whitespace.
pub fn trim_str(s: &str) -> (r: String)
    ensures
        r@ == trimmed(s@),
{
    let len: usize = s.unicode_len();
    let mut start: usize = 0;
    while start < len && is_space(s.get_char(start))
        invariant
            len == s@.len(),
            start <= len,
            forall|k: int| 0 <= k < start ==> is_space_char(s@[k]),
        decreases len - start,
    {
        start = start + 1;
    }
    let mut end: usize = len;
    while end > start && is_space(s.get_char(end - 1))
        invariant
            len == s@.len(),
            start <= end <= len,
            forall|k: int| end <= k < len ==> is_space_char(s@[k]),
            start < len ==> !is_space_char(s@[start as int]),
        decreases end,
    {
        end = end - 1;
    }
    proof {
        if start == len {
            lemma_trimmed_subrange(s@, start as int, end as int);
        } else {
            lemma_trimmed_subrange(s@, start as int, end as int);
        }
    }
    let sub = s.substring_char(start, end);
    sub.to_owned()
}

/// ASCII case folding on a character code: upper-case letters map to
/// lower case, every other code is unchanged.
pub open spec fn lower_code(u: u32) -> u32 {
    if 65 <= u <= 90 {
        (u + 32) as u32
    } else {
        u
    }
}

/// The sequence of case-folded character codes of `s`.
pub open spec fn lower_seq(s: Seq<char>) -> Seq<u32> {
    s.map_values(|c: char| lower_code(c as u32))
}

/// Equality up to ASCII case.
pub open spec fn eq_case_insensitive(a: Seq<char>, b: Seq<char>) -> bool {
    lower_seq(a) == lower_seq(b)
}

fn lower_u32(u: u32) -> (r: u32)
    ensures
        r == lower_code(u),
{
    if 65 <= u && u <= 90 {
        u + 32
    } else {
        u
    }
}

/// Compare two strings ignoring ASCII case.
pub fn eq_ignore_case(a: &str, b: &str) -> (r: bool)
    ensures
        r == eq_case_insensitive(a@, b@),
{
    let alen: usize = a.unicode_len();
    let blen: usize = b.unicode_len();
    if alen != blen {
        proof {
            assert(lower_seq(a@).len() != lower_seq(b@).len());
        }
        return false;
    }
    let mut i: usize = 0;
    while i < alen
        invariant
            alen == a@.len(),
            alen == b@.len(),
            i <= alen,
            forall|k: int| 0 <= k < i ==> lower_code(a@[k] as u32) == lower_code(b@[k] as u32),
        decreases alen - i,
    {
        let ca = a.get_char(i);
        let cb = b.get_char(i);
        if lower_u32(ca as u32) != lower_u32(cb as u32) {
            proof {
                assert(lower_seq(a@)[i as int] != lower_seq(b@)[i as int]);
            }
            return false;
        }
        i = i + 1;
    }
    proof {
        assert(lower_seq(a@) =~= lower_seq(b@));
    }
    true
}

/// Whether a character code is an ASCII decimal digit.
pub open spec fn is_digit_code(u: u32) -> bool {
    48 <= u <= 57
}

/// A non-empty sequence consisting only of ASCII digits.
pub open spec fn all_digits(s: Seq<char>) -> bool {
    s.len() > 0 && forall|i: int| 0 <= i < s.len() ==> is_digit_code(s[i] as u32)
}

/// The value of a digit sequence read in base ten.
pub open spec fn digits_val(s: Seq<char>) -> int
    decreases s.len(),
{
    if s.len() == 0 {
        0
    } else {
        10 * digits_val(s.drop_last()) + (s.last() as u32 - 48)
    }
}

/// The result of parsing `s` as a signed 64-bit integer: an optional
/// sign followed by one or more digits, rejected when the value does
/// not fit.
pub open spec fn parse_i64_spec(s: Seq<char>) -> Option<i64> {
    let neg = s.len() > 0 && s[0] == '-';
    let ds = if s.len() > 0 && (s[0] == '+' || s[0] == '-') {
        s.skip(1)
    } else {
        s
    };
    if !all_digits(ds) {
        None
    } else {
        let v = if neg {
            -digits_val(ds)
        } else {
            digits_val(ds)
        };
        if i64::MIN <= v <= i64::MAX {
            Some(v as i64)
        } else {
            None
        }
    }
}

/// Parse a signed 64-bit integer, mirroring `parse_i64_spec`.
pub fn parse_i64(s: &str) -> (r: Option<i64>)
    ensures
        r == parse_i64_spec(s@),
{
    let len: usize = s.unicode_len();
    let mut start: usize = 0;
    let mut neg: bool = false;
    if len > 0 {
        let c0 = s.get_char(0);
        if c0 == '+' {
            start = 1;
        } else if c0 == '-' {
            neg = true;
            start = 1;
        }
    }
    let ghost ds: Seq<char> = s@.skip(start as int);
    proof {
        assert(s@.skip(0) =~= s@);
    }
    if start >= len {
        proof {
            assert(ds.len() == 0);
        }
        return None;
    }
    let mut i: usize = start;
    let mut acc: u64 = 0;
    let mut over: bool = false;
    while i < len
        invariant
            len == s@.len(),
            start <= i <= len,
            start as int == (if s@.len() > 0 && (s@[0] == '+' || s@[0] == '-') {
                1int
            } else {
                0int
            }),
            ds == s@.skip(start as int),
            forall|k: int| start <= k < i ==> is_digit_code(s@[k] as u32),
            over ==> digits_val(s@.subrange(start as int, i as int)) > 0x8000_0000_0000_0000,
            !over ==> acc == digits_val(s@.subrange(start as int, i as int))
                && acc <= 0x8000_0000_0000_0000,
        decreases len - i,
    {
        let c = s.get_char(i);
        let u = c as u32;
        if !(48 <= u && u <= 57) {
            proof {
                assert(s@.skip(0) =~= s@);
                assert(ds[i - start] == s@[i as int]);
                assert(!all_digits(ds));
            }
            return None;
        }
        let d: u64 = (u - 48) as u64;
        proof {
            let p = s@.subrange(start as int, i as int);
            let p2 = s@.subrange(start as int, i as int + 1);
            assert(p2.drop_last() =~= p);
            assert(p2.last() == s@[i as int]);
            assert(digits_val(p2) == 10 * digits_val(p) + d);
        }
        if over {
        } else {
            let t: u128 = (acc as u128) * 10 + (d as u128);
            if t > 0x8000_0000_0000_0000u128 {
                over = true;
            } else {
                acc = t as u64;
            }
        }
        i = i + 1;
    }
    proof {
        assert(s@.subrange(start as int, len as int) =~= ds);
        assert(all_digits(ds));
    }
    if over {
        return None;
    }
    if neg {
        if acc == 0x8000_0000_0000_0000u64 {
            Some(i64::MIN)
        } else {
            Some(0i64 - (acc as i64))
        }
    } else {
        if acc >= 0x8000_0000_0000_0000u64 {
            None
        } else {
            Some(acc as i64)
        }
    }
}

/// Whether `pat` occurs as a contiguous subsequence of `s`.
pub open spec fn has_substring(s: Seq<char>, pat: Seq<char>) -> bool {
    exists|i: int| 0 <= i && i + pat.len() <= s.len() && #[trigger] s.subrange(i, i + pat.len())
        == pat
}

fn match_at(s: &str, slen: usize, i: usize, pat: &str, plen: usize) -> (r: bool)
    requires
        slen == s@.len(),
        plen == pat@.len(),
        i <= slen,
    ensures
        r == (i + plen <= slen && s@.subrange(i as int, i as int + plen as int) == pat@),
{
    if plen > slen - i {
        return false;
    }
    let mut j: usize = 0;
    while j < plen
        invariant
            slen == s@.len(),
            plen == pat@.len(),
            i + plen <= slen,
            j <= plen,
            forall|k: int| 0 <= k < j ==> s@[i + k] == pat@[k],
        decreases plen - j,
    {
        if s.get_char(i + j) != pat.get_char(j) {
            proof {
                assert(s@.subrange(i as int, i as int + plen as int)[j as int] == s@[i + j]);
            }
            return false;
        }
        j = j + 1;
    }
    proof {
        assert(s@.subrange(i as int, i as int + plen as int) =~= pat@);
    }
    true
}

/// Substring search, specified by `has_substring`.
pub fn str_contains(s: &str, pat: &str) -> (r: bool)
    ensures
        r == has_substring(s@, pat@),
{
    let slen: usize = s.unicode_len();
    let plen: usize = pat.unicode_len();
    if plen > slen {
        return false;
    }
    let mut i: usize = 0;
    while plen <= slen - i
        invariant
            slen == s@.len(),
            plen == pat@.len(),
            plen <= slen,
            i <= slen,
            forall|k: int| 0 <= k < i ==> #[trigger] s@.subrange(k, k + pat@.len()) != pat@,
        decreases slen - i,
    {
        if match_at(s, slen, i, pat, plen) {
            return true;
        }
        proof {
            if plen == 0 {
                assert(s@.subrange(i as int, i as int) =~= pat@);
            }
        }
        i = i + 1;
    }
    false
}

/// `s` with every non-overlapping occurrence of `pat` replaced by
/// `rep`, scanning left to right.
pub open spec fn replace_spec(s: Seq<char>, pat: Seq<char>, rep: Seq<char>) -> Seq<char>
    decreases s.len(),
{
    if pat.len() == 0 {
        s
    } else if s.len() < pat.len() {
        s
    } else if s.subrange(0, pat.len() as int) == pat {
        rep + replace_spec(s.skip(pat.len() as int), pat, rep)
    } else {
        seq![s[0]] + replace_spec(s.skip(1), pat, rep)
    }
}

/// Replace every occurrence of `pat` in `s` by `rep`.
pub fn replace_str(s: &str, pat: &str, rep: &str) -> (r: String)
    requires
        pat@.len() >= 1,
    ensures
        r@ == replace_spec(s@, pat@, rep@),
{
    let slen: usize = s.unicode_len();
    let plen: usize = pat.unicode_len();
    let mut out: String = String::new();
    let mut i: usize = 0;
    proof {
        assert(s@.skip(0) =~= s@);
        assert(out@ + replace_spec(s@, pat@, rep@) =~= replace_spec(s@, pat@, rep@));
    }
    while i < slen
        invariant
            slen == s@.len(),
            plen == pat@.len(),
            plen >= 1,
            i <= slen,
            replace_spec(s@, pat@, rep@) == out@ + replace_spec(s@.skip(i as int), pat@, rep@),
        decreases slen - i,
    {
        let ghost tail = s@.skip(i as int);
        if match_at(s, slen, i, pat, plen) {
            proof {
                assert(tail.subrange(0, pat@.len() as int) =~= s@.subrange(
                    i as int,
                    i as int + plen as int,
                ));
                assert(tail.skip(pat@.len() as int) =~= s@.skip(i as int + plen as int));
                assert(replace_spec(tail, pat@, rep@) == rep@ + replace_spec(
                    s@.skip(i as int + plen as int),
                    pat@,
                    rep@,
                ));
            }
            out.append(rep);
            i = i + plen;
        } else {
            proof {
                if i + plen <= slen {
                    assert(tail.subrange(0, pat@.len() as int) =~= s@.subrange(
                        i as int,
                        i as int + plen as int,
                    ));
                } else {
                    assert(tail.len() < pat@.len());
                }
                assert(tail.skip(1) =~= s@.skip(i as int + 1));
                if tail.len() >= pat@.len() {
                    assert(replace_spec(tail, pat@, rep@) == seq![s@[i as int]] + replace_spec(
                        s@.skip(i as int + 1),
                        pat@,
                        rep@,
                    ));
                } else {
                    assert(replace_spec(tail, pat@, rep@) == tail);
                    assert(tail =~= seq![s@[i as int]] + s@.skip(i as int + 1));
                    assert(replace_spec(s@.skip(i as int + 1), pat@, rep@) == s@.skip(i as int + 1));
                }
            }
            let one = s.substring_char(i, i + 1);
            proof {
                assert(one@ =~= seq![s@[i as int]]);
            }
            out.append(one);
            i = i + 1;
        }
    }
    proof {
        assert(s@.skip(slen as int) =~= Seq::<char>::empty());
        assert(replace_spec(Seq::<char>::empty(), pat@, rep@) == Seq::<char>::empty());
        assert(out@ + Seq::<char>::empty() =~= out@);
    }
    out
}

/// The views of a sequence of strings.
pub open spec fn strings_view(ss: Seq<String>) -> Seq<Seq<char>> {
    ss.map_values(|t: String| t@)
}

/// `s` split on every comma; the empty sequence splits into one empty
/// token.
pub open spec fn split_commas_spec(s: Seq<char>) -> Seq<Seq<char>>
    decreases s.len(),
{
    if s.len() == 0 {
        seq![Seq::<char>::empty()]
    } else {
        let rest = split_commas_spec(s.skip(1));
        if s[0] == ',' {
            seq![Seq::<char>::empty()] + rest
        } else {
            seq![seq![s[0]] + rest[0]] + rest.skip(1)
        }
    }
}

pub proof fn lemma_split_commas_len(s: Seq<char>)
    ensures
        split_commas_spec(s).len() >= 1,
    decreases s.len(),
{
    if s.len() > 0 {
        lemma_split_commas_len(s.skip(1));
    }
}

/// Splitting yields at least one token and at most one more token
/// than there are characters.
pub proof fn lemma_split_commas_count(s: Seq<char>)
    ensures
        1 <= split_commas_spec(s).len() <= s.len() + 1,
    decreases s.len(),
{
    if s.len() > 0 {
        lemma_split_commas_count(s.skip(1));
    }
}

spec fn graft_first(prefix: Seq<char>, rest: Seq<Seq<char>>) -> Seq<Seq<char>> {
    seq![prefix + rest[0]] + rest.skip(1)
}

/// Split `s` on commas.
pub fn split_commas(s: &str) -> (r: Vec<String>)
    ensures
        strings_view(r@) == split_commas_spec(s@),
{
    let len: usize = s.unicode_len();
    let mut done: Vec<String> = Vec::new();
    let mut cur: String = String::new();
    let mut i: usize = 0;
    proof {
        lemma_split_commas_len(s@);
        assert(s@.skip(0) =~= s@);
        let whole = split_commas_spec(s@);
        assert(graft_first(cur@, whole) =~= whole);
        assert(strings_view(done@) + graft_first(cur@, whole) =~= whole);
    }
    while i < len
        invariant
            len == s@.len(),
            i <= len,
            split_commas_spec(s@) == strings_view(done@) + graft_first(
                cur@,
                split_commas_spec(s@.skip(i as int)),
            ),
        decreases len - i,
    {
        let ghost tail = s@.skip(i as int);
        let ghost rest = split_commas_spec(s@.skip(i as int + 1));
        proof {
            lemma_split_commas_len(s@.skip(i as int + 1));
            assert(tail[0] == s@[i as int]);
            assert(tail.skip(1) =~= s@.skip(i as int + 1));
        }
        let c = s.get_char(i);
        if c == ',' {
            proof {
                assert(split_commas_spec(tail) == seq![Seq::<char>::empty()] + rest);
                assert(graft_first(cur@, seq![Seq::<char>::empty()] + rest) =~= seq![cur@] + rest);
                assert(graft_first(Seq::<char>::empty(), rest) =~= rest);
            }
            done.push(cur);
            cur = String::new();
            proof {
                assert(strings_view(done@) =~= strings_view(done@.drop_last()) + seq![
                    done@.last()@,
                ]);
                assert(strings_view(done@) + graft_first(cur@, rest) =~= split_commas_spec(s@));
            }
        } else {
            proof {
                assert(split_commas_spec(tail) == seq![seq![s@[i as int]] + rest[0]] + rest.skip(
                    1,
                ));
                assert(graft_first(cur@, split_commas_spec(tail)) =~= seq![cur@ + (seq![
                    s@[i as int],
                ] + rest[0])] + rest.skip(1));
                assert(cur@ + (seq![s@[i as int]] + rest[0]) =~= (cur@ + seq![s@[i as int]])
                    + rest[0]);
            }
            let one = s.substring_char(i, i + 1);
            proof {
                assert(one@ =~= seq![s@[i as int]]);
            }
            cur.append(one);
            proof {
                assert(graft_first(cur@, rest) =~= seq![cur@ + rest[0]] + rest.skip(1));
                assert(strings_view(done@) + graft_first(cur@, rest) =~= split_commas_spec(s@));
            }
        }
        i = i + 1;
    }
    proof {
        assert(s@.skip(len as int) =~= Seq::<char>::empty());
        let rest = split_commas_spec(Seq::<char>::empty());
        assert(rest =~= seq![Seq::<char>::empty()]);
        assert(graft_first(cur@, rest) =~= seq![cur@]);
    }
    done.push(cur);
    proof {
        assert(strings_view(done@) =~= strings_view(done@.drop_last()) + seq![done@.last()@]);
        assert(strings_view(done@) =~= split_commas_spec(s@));
    }
    done
}

/// The decimal digit character for a value below ten.
pub open spec fn dec_digit_char(d: int) -> char {
    if d == 0 {
        '0'
    } else if d == 1 {
        '1'
    } else if d == 2 {
        '2'
    } else if d == 3 {
        '3'
    } else if d == 4 {
        '4'
    } else if d == 5 {
        '5'
    } else if d == 6 {
        '6'
    } else if d == 7 {
        '7'
    } else if d == 8 {
        '8'
    } else {
        '9'
    }
}

/// The decimal representation of a non-negative integer.
pub open spec fn dec_str(n: int) -> Seq<char>
    decreases n,
{
    if n <= 9 {
        seq![dec_digit_char(n)]
    } else {
        dec_str(n / 10) + seq![dec_digit_char(n % 10)]
    }
}

fn digit_str(d: u64) -> (r: &'static str)
    requires
        d <= 9,
    ensures
        r@ == seq![dec_digit_char(d as int)],
{
    proof {
        reveal_strlit("0");
        reveal_strlit("1");
        reveal_strlit("2");
        reveal_strlit("3");
        reveal_strlit("4");
        reveal_strlit("5");
        reveal_strlit("6");
        reveal_strlit("7");
        reveal_strlit("8");
        reveal_strlit("9");
    }
    let r = if d == 0 {
        "0"
    } else if d == 1 {
        "1"
    } else if d == 2 {
        "2"
    } else if d == 3 {
        "3"
    } else if d == 4 {
        "4"
    } else if d == 5 {
        "5"
    } else if d == 6 {
        "6"
    } else if d == 7 {
        "7"
    } else if d == 8 {
        "8"
    } else {
        "9"
    };
    proof {
        assert(r@ =~= seq![dec_digit_char(d as int)]);
    }
    r
}

/// Format a non-negative integer in decimal.
pub fn u64_to_string(n: u64) -> (r: String)
    ensures
        r@ == dec_str(n as int),
    decreases n,
{
    if n <= 9 {
        let d = digit_str(n);
        d.to_owned()
    } else {
        let mut r = u64_to_string(n / 10);
        r.append(digit_str(n % 10));
        r
    }
}

} // verus!
