//! Small verified string helpers shared across the library, together with the
//! few string primitives the standard library provides and the verifier has
//! no specification for.

use vstd::prelude::*;
use vstd::string::StrSliceExecFns;
use vstd::string::StringExecFns;

verus! {

/// Relies on String::push: appends exactly the one character.
#[verifier::external_body]
pub(crate) fn push_char(s: &mut String, c: char)
    ensures
        final(s)@ == old(s)@.push(c),
{
    s.push(c);
}

/// Character-for-character equality of two string slices.
pub fn str_eq(a: &str, b: &str) -> (r: bool)
    ensures
        r == (a@ == b@),
{
    let alen = a.unicode_len();
    let blen = b.unicode_len();
    if alen != blen {
        return false;
    }
    let mut i: usize = 0;
    while i < alen
        invariant
            alen == a@.len(),
            alen == b@.len(),
            i <= alen,
            forall|j: int| 0 <= j < i ==> a@[j] == b@[j],
        decreases alen - i,
    {
        if a.get_char(i) != b.get_char(i) {
            return false;
        }
        i = i + 1;
    }
    proof {
        assert(a@ =~= b@);
    }
    true
}

/// True when `p` is a leading piece of `s`.
pub open spec fn is_prefix_of(p: Seq<char>, s: Seq<char>) -> bool {
    p.len() <= s.len() && s.take(p.len() as int) == p
}

/// True when `p` is a trailing piece of `s`.
pub open spec fn is_suffix_of(p: Seq<char>, s: Seq<char>) -> bool {
    p.len() <= s.len() && s.skip(s.len() - p.len()) == p
}

/// Whether `s` starts with the prefix `p`.
pub fn starts_with(s: &str, p: &str) -> (r: bool)
    ensures
        r == is_prefix_of(p@, s@),
{
    let slen = s.unicode_len();
    let plen = p.unicode_len();
    if plen > slen {
        assert(!is_prefix_of(p@, s@));
        return false;
    }
    let mut i: usize = 0;
    while i < plen
        invariant
            slen == s@.len(),
            plen == p@.len(),
            plen <= slen,
            i <= plen,
            forall|j: int| 0 <= j < i ==> s@[j] == p@[j],
        decreases plen - i,
    {
        if s.get_char(i) != p.get_char(i) {
            assert(s@.take(p@.len() as int)[i as int] != p@[i as int]);
            return false;
        }
        i = i + 1;
    }
    proof {
        assert(s@.take(p@.len() as int) =~= p@);
    }
    true
}

/// Whether `s` ends with the suffix `p`.
pub fn ends_with(s: &str, p: &str) -> (r: bool)
    ensures
        r == is_suffix_of(p@, s@),
{
    let slen = s.unicode_len();
    let plen = p.unicode_len();
    if plen > slen {
        assert(!is_suffix_of(p@, s@));
        return false;
    }
    let off = slen - plen;
    let mut i: usize = 0;
    while i < plen
        invariant
            slen == s@.len(),
            plen == p@.len(),
            off == slen - plen,
            plen <= slen,
            i <= plen,
            forall|j: int| 0 <= j < i ==> s@[off + j] == p@[j],
        decreases plen - i,
    {
        if s.get_char(off + i) != p.get_char(i) {
            assert(s@.skip(s@.len() - p@.len())[i as int] != p@[i as int]);
            return false;
        }
        i = i + 1;
    }
    proof {
        assert(s@.skip(s@.len() - p@.len()) =~= p@);
    }
    true
}

/// The characters of `s` from `from` (inclusive) to `to` (exclusive), as an
/// owned string.
pub fn substring(s: &str, from: usize, to: usize) -> (r: String)
    requires
        from <= to <= s@.len(),
    ensures
        r@ == s@.subrange(from as int, to as int),
{
    let piece = s.substring_char(from, to);
    piece.to_owned()
}

/// What str::to_lowercase returns for a given sequence of characters. The
/// result is a function of the characters alone.
pub uninterp spec fn lower_of(s: Seq<char>) -> Seq<char>;

/// Relies on str::to_lowercase: the lowercase form depends on the characters
/// alone, and an empty string stays empty.
#[verifier::external_body]
pub(crate) fn to_lowercase(s: &str) -> (r: String)
    ensures
        r@ == lower_of(s@),
        s@.len() == 0 ==> r@.len() == 0,
{
    s.to_lowercase()
}

/// What char::is_alphanumeric returns for a given character.
pub uninterp spec fn char_alphanumeric(c: char) -> bool;

/// Relies on char::is_alphanumeric: whether a character counts as
/// alphanumeric is fixed by the character alone.
#[verifier::external_body]
pub(crate) fn is_alphanumeric(c: char) -> (r: bool)
    ensures
        r == char_alphanumeric(c),
{
    c.is_alphanumeric()
}

/// A decimal digit.
pub open spec fn is_digit_char(c: char) -> bool {
    48 <= c as u32 && c as u32 <= 57
}

/// The numeric value of a decimal digit.
pub open spec fn digit_val(c: char) -> int {
    c as u32 - 48
}

/// Every character of `s` is a decimal digit.
pub open spec fn all_digits(s: Seq<char>) -> bool {
    forall|i: int| 0 <= i < s.len() ==> is_digit_char(#[trigger] s[i])
}

/// The value of a string of decimal digits, most significant first.
pub open spec fn dec_value(s: Seq<char>) -> int
    decreases s.len(),
{
    if s.len() == 0 {
        0
    } else {
        dec_value(s.drop_last()) * 10 + digit_val(s.last())
    }
}

/// The digits of a signed decimal literal: everything after an optional
/// leading sign.
pub open spec fn num_body(s: Seq<char>) -> Seq<char> {
    if s.len() > 0 && (s[0] == '+' || s[0] == '-') {
        s.drop_first()
    } else {
        s
    }
}

/// Whether a signed decimal literal carries a minus sign.
pub open spec fn num_negative(s: Seq<char>) -> bool {
    s.len() > 0 && s[0] == '-'
}

/// The value of a signed decimal literal.
pub open spec fn signed_value(s: Seq<char>) -> int {
    if num_negative(s) {
        -dec_value(num_body(s))
    } else {
        dec_value(num_body(s))
    }
}

/// What parsing a signed 32-bit decimal literal yields: the value, when the
/// text is an optional sign followed by one or more digits and the value is
/// in range; nothing otherwise.
pub open spec fn spec_parse_i32(s: Seq<char>) -> Option<i32> {
    if num_body(s).len() > 0 && all_digits(num_body(s)) && i32::MIN <= signed_value(s)
        && signed_value(s) <= i32::MAX {
        Some(signed_value(s) as i32)
    } else {
        None
    }
}

proof fn lemma_dec_value_nonneg(s: Seq<char>)
    requires
        all_digits(s),
    ensures
        dec_value(s) >= 0,
    decreases s.len(),
{
    if s.len() > 0 {
        assert forall|i: int| 0 <= i < s.drop_last().len() implies is_digit_char(
            #[trigger] s.drop_last()[i],
        ) by {
            assert(s.drop_last()[i] == s[i]);
        }
        lemma_dec_value_nonneg(s.drop_last());
        assert(is_digit_char(s.last()));
    }
}

/// Parses a signed 32-bit decimal literal, exactly as [`spec_parse_i32`]
/// describes: an optional sign, then only digits, and the value in range.
pub fn parse_i32(s: &str) -> (r: Option<i32>)
    ensures
        r == spec_parse_i32(s@),
{
    let len = s.unicode_len();
    if len == 0 {
        return None;
    }
    let first = s.get_char(0);
    let neg = first == '-';
    let has_sign = first == '-' || first == '+';
    let start: usize = if has_sign {
        1
    } else {
        0
    };
    proof {
        if has_sign {
            assert(num_body(s@) =~= s@.skip(1));
        } else {
            assert(num_body(s@) =~= s@);
        }
    }
    if start == len {
        return None;
    }
    let bound: i64 = 10_000_000_000;
    let mut acc: i64 = 0;
    let mut i: usize = start;
    proof {
        assert(s@.subrange(start as int, start as int) =~= Seq::<char>::empty());
    }
    while i < len
        invariant
            len == s@.len(),
            start <= i <= len,
            start <= 1,
            bound == 10_000_000_000,
            0 <= acc <= 0x7fff_ffff_ffff_ffffi64 / 10,
            all_digits(s@.subrange(start as int, i as int)),
            acc == dec_value(s@.subrange(start as int, i as int)) || (acc >= bound && dec_value(
                s@.subrange(start as int, i as int),
            ) >= acc),
            num_body(s@) == s@.skip(start as int),
        decreases len - i,
    {
        let c = s.get_char(i);
        let u = c as u32;
        if u < 48 || u > 57 {
            proof {
                assert(num_body(s@)[i - start] == c);
                assert(!is_digit_char(c));
                assert(!all_digits(num_body(s@)));
            }
            return None;
        }
        let d: i64 = (u - 48) as i64;
        let ghost prefix = s@.subrange(start as int, i as int);
        let ghost prefix2 = s@.subrange(start as int, i as int + 1);
        proof {
            assert(prefix2.drop_last() =~= prefix);
            assert(prefix2.last() == c);
            assert(dec_value(prefix2) == dec_value(prefix) * 10 + digit_val(c));
            assert forall|k: int| 0 <= k < prefix2.len() implies is_digit_char(
                #[trigger] prefix2[k],
            ) by {
                if k < prefix.len() {
                    assert(prefix2[k] == prefix[k]);
                }
            }
            lemma_dec_value_nonneg(prefix);
        }
        if acc < bound {
            acc = acc * 10 + d;
        } else {
            proof {
                assert(dec_value(prefix2) >= dec_value(prefix));
            }
        }
        i = i + 1;
    }
    proof {
        assert(s@.subrange(start as int, len as int) =~= num_body(s@));
        lemma_dec_value_nonneg(num_body(s@));
    }
    let limit: i64 = if neg {
        2_147_483_648
    } else {
        2_147_483_647
    };
    if acc <= limit {
        let v: i64 = if neg {
            -acc
        } else {
            acc
        };
        Some(v as i32)
    } else {
        None
    }
}

/// What char::is_whitespace returns for a given character.
pub uninterp spec fn char_whitespace(c: char) -> bool;

/// Relies on char::is_whitespace: whether a character counts as whitespace
/// is fixed by the character alone.
#[verifier::external_body]
pub(crate) fn is_whitespace(c: char) -> (r: bool)
    ensures
        r == char_whitespace(c),
{
    c.is_whitespace()
}

/// `s` without its leading whitespace.
pub open spec fn trim_start_of(s: Seq<char>) -> Seq<char>
    decreases s.len(),
{
    if s.len() > 0 && char_whitespace(s[0]) {
        trim_start_of(s.drop_first())
    } else {
        s
    }
}

/// `s` without its trailing whitespace.
pub open spec fn trim_end_of(s: Seq<char>) -> Seq<char>
    decreases s.len(),
{
    if s.len() > 0 && char_whitespace(s.last()) {
        trim_end_of(s.drop_last())
    } else {
        s
    }
}

/// `s` without leading or trailing whitespace.
pub open spec fn trim_of(s: Seq<char>) -> Seq<char> {
    trim_end_of(trim_start_of(s))
}

proof fn lemma_trim_start_at(s: Seq<char>, a: int)
    requires
        0 <= a <= s.len(),
        forall|j: int| 0 <= j < a ==> char_whitespace(s[j]),
        a < s.len() ==> !char_whitespace(s[a]),
    ensures
        trim_start_of(s) == s.skip(a),
    decreases a,
{
    if a == 0 {
        assert(s.skip(0) =~= s);
    } else {
        assert(char_whitespace(s[0]));
        let t = s.drop_first();
        assert forall|j: int| 0 <= j < a - 1 implies char_whitespace(t[j]) by {
            assert(t[j] == s[j + 1]);
        }
        if a - 1 < t.len() {
            assert(t[a - 1] == s[a]);
        }
        lemma_trim_start_at(t, a - 1);
        assert(t.skip(a - 1) =~= s.skip(a));
    }
}

proof fn lemma_trim_end_at(s: Seq<char>, b: int)
    requires
        0 <= b <= s.len(),
        forall|j: int| b <= j < s.len() ==> char_whitespace(s[j]),
        b > 0 ==> !char_whitespace(s[b - 1]),
    ensures
        trim_end_of(s) == s.take(b),
    decreases s.len() - b,
{
    if b == s.len() {
        assert(s.take(b) =~= s);
        if s.len() > 0 {
            assert(!char_whitespace(s.last()));
        }
    } else {
        assert(char_whitespace(s.last()));
        let t = s.drop_last();
        assert forall|j: int| b <= j < t.len() implies char_whitespace(t[j]) by {
            assert(t[j] == s[j]);
        }
        if b > 0 {
            assert(t[b - 1] == s[b - 1]);
        }
        lemma_trim_end_at(t, b);
        assert(t.take(b) =~= s.take(b));
    }
}

fn first_non_ws(s: &str) -> (r: usize)
    ensures
        r <= s@.len(),
        forall|j: int| 0 <= j < r ==> char_whitespace(s@[j]),
        r < s@.len() ==> !char_whitespace(s@[r as int]),
{
    let len = s.unicode_len();
    let mut i: usize = 0;
    while i < len
        invariant
            len == s@.len(),
            i <= len,
            forall|j: int| 0 <= j < i ==> char_whitespace(s@[j]),
        decreases len - i,
    {
        if !is_whitespace(s.get_char(i)) {
            return i;
        }
        i = i + 1;
    }
    len
}

fn last_non_ws_end(s: &str, from: usize) -> (r: usize)
    requires
        from <= s@.len(),
    ensures
        from <= r <= s@.len(),
        forall|j: int| r <= j < s@.len() ==> char_whitespace(s@[j]),
        r > from ==> !char_whitespace(s@[r - 1]),
{
    let len = s.unicode_len();
    let mut b: usize = len;
    while b > from
        invariant
            len == s@.len(),
            from <= b <= len,
            forall|j: int| b <= j < len ==> char_whitespace(s@[j]),
        decreases b,
    {
        if !is_whitespace(s.get_char(b - 1)) {
            return b;
        }
        b = b - 1;
    }
    from
}

/// Removes leading and trailing whitespace, exactly as [`trim_of`] says.
pub fn trim(s: &str) -> (r: String)
    ensures
        r@ == trim_of(s@),
{
    let a = first_non_ws(s);
    let b = last_non_ws_end(s, a);
    proof {
        lemma_trim_start_at(s@, a as int);
        let t = s@.skip(a as int);
        assert forall|j: int| b - a <= j < t.len() implies char_whitespace(t[j]) by {
            assert(t[j] == s@[j + a]);
        }
        if b > a {
            assert(t[b - a - 1] == s@[b - 1]);
        }
        lemma_trim_end_at(t, b - a);
        assert(t.take(b - a) =~= s@.subrange(a as int, b as int));
    }
    substring(s, a, b)
}

/// `s` with every leading occurrence of `p` removed, one after the other.
pub open spec fn strip_all_prefix(s: Seq<char>, p: Seq<char>) -> Seq<char>
    decreases s.len(),
{
    if p.len() > 0 && is_prefix_of(p, s) && s.len() >= p.len() {
        strip_all_prefix(s.skip(p.len() as int), p)
    } else {
        s
    }
}

/// Removes every leading occurrence of `p` from `s`, exactly as
/// [`strip_all_prefix`] says.
pub fn strip_prefix_repeatedly(s: &str, p: &str) -> (r: String)
    ensures
        r@ == strip_all_prefix(s@, p@),
    decreases s@.len(),
{
    let plen = p.unicode_len();
    if plen > 0 && starts_with(s, p) {
        let len = s.unicode_len();
        let rest = substring(s, plen, len);
        if rest.as_str().unicode_len() < len {
            strip_prefix_repeatedly(rest.as_str(), p)
        } else {
            rest
        }
    } else {
        s.to_owned()
    }
}

/// One line of a text, accumulating the current line in `cur`: lines are
/// split at each newline, a carriage return before the newline is dropped,
/// and a last line without a newline is kept as it stands.
pub open spec fn strip_cr(l: Seq<char>) -> Seq<char> {
    if l.len() > 0 && l.last() == '\r' {
        l.drop_last()
    } else {
        l
    }
}

pub open spec fn lines_rec(s: Seq<char>, cur: Seq<char>) -> Seq<Seq<char>>
    decreases s.len(),
{
    if s.len() == 0 {
        if cur.len() == 0 {
            Seq::empty()
        } else {
            seq![cur]
        }
    } else if s[0] == '\n' {
        seq![strip_cr(cur)] + lines_rec(s.drop_first(), Seq::empty())
    } else {
        lines_rec(s.drop_first(), cur.push(s[0]))
    }
}

/// The lines of a text, as the standard line iterator yields them: split at
/// newlines, each line stripped of a trailing carriage return, the final
/// newline optional.
pub open spec fn spec_lines(s: Seq<char>) -> Seq<Seq<char>> {
    lines_rec(s, Seq::empty())
}

proof fn lemma_lines_rec_no_nl(s: Seq<char>, cur: Seq<char>)
    requires
        forall|j: int| 0 <= j < s.len() ==> s[j] != '\n',
    ensures
        lines_rec(s, cur) == if cur.len() + s.len() == 0 {
            Seq::<Seq<char>>::empty()
        } else {
            seq![cur + s]
        },
    decreases s.len(),
{
    if s.len() == 0 {
        if cur.len() > 0 {
            assert(cur + s =~= cur);
        }
    } else {
        let t = s.drop_first();
        assert forall|j: int| 0 <= j < t.len() implies t[j] != '\n' by {
            assert(t[j] == s[j + 1]);
        }
        lemma_lines_rec_no_nl(t, cur.push(s[0]));
        assert(cur.push(s[0]) + t =~= cur + s);
        assert(cur.push(s[0]).len() + t.len() > 0);
    }
}

proof fn lemma_lines_rec_nl(s: Seq<char>, cur: Seq<char>, k: int)
    requires
        0 <= k < s.len(),
        s[k] == '\n',
        forall|j: int| 0 <= j < k ==> s[j] != '\n',
    ensures
        lines_rec(s, cur) == seq![strip_cr(cur + s.take(k))] + lines_rec(
            s.skip(k + 1),
            Seq::empty(),
        ),
    decreases k,
{
    if k == 0 {
        assert(cur + s.take(0) =~= cur);
        assert(s.drop_first() =~= s.skip(1));
    } else {
        let t = s.drop_first();
        assert forall|j: int| 0 <= j < k - 1 implies t[j] != '\n' by {
            assert(t[j] == s[j + 1]);
        }
        assert(t[k - 1] == s[k]);
        lemma_lines_rec_nl(t, cur.push(s[0]), k - 1);
        assert(cur.push(s[0]) + t.take(k - 1) =~= cur + s.take(k));
        assert(t.skip(k) =~= s.skip(k + 1));
    }
}

/// Splits a text into its lines, exactly as [`spec_lines`] says.
pub fn split_lines(s: &str) -> (r: Vec<String>)
    ensures
        r@.map_values(|l: String| l@) == spec_lines(s@),
{
    let len = s.unicode_len();
    let mut out: Vec<String> = Vec::new();
    let mut start: usize = 0;
    let mut i: usize = 0;
    proof {
        assert(s@.skip(0) =~= s@);
        assert(out@.map_values(|l: String| l@) =~= Seq::<Seq<char>>::empty());
    }
    while i < len
        invariant
            len == s@.len(),
            start <= i <= len,
            forall|j: int| start <= j < i ==> s@[j] != '\n',
            spec_lines(s@) == out@.map_values(|l: String| l@) + lines_rec(
                s@.skip(start as int),
                Seq::empty(),
            ),
        decreases len - i,
    {
        if s.get_char(i) == '\n' {
            let end = if i > start && s.get_char(i - 1) == '\r' {
                i - 1
            } else {
                i
            };
            let line = substring(s, start, end);
            let ghost tail = s@.skip(start as int);
            proof {
                assert forall|j: int| 0 <= j < i - start implies tail[j] != '\n' by {
                    assert(tail[j] == s@[j + start]);
                }
                assert(tail[i - start] == s@[i as int]);
                lemma_lines_rec_nl(tail, Seq::empty(), i - start);
                assert(Seq::<char>::empty() + tail.take(i - start) =~= s@.subrange(
                    start as int,
                    i as int,
                ));
                assert(tail.skip(i - start + 1) =~= s@.skip(i as int + 1));
                if i > start && s@[i - 1] == '\r' {
                    assert(s@.subrange(start as int, i as int).last() == '\r');
                    assert(s@.subrange(start as int, i as int).drop_last() =~= s@.subrange(
                        start as int,
                        end as int,
                    ));
                } else {
                    if s@.subrange(start as int, i as int).len() > 0 {
                        assert(s@.subrange(start as int, i as int).last() == s@[i - 1]);
                    }
                }
                assert(line@ == strip_cr(s@.subrange(start as int, i as int)));
                assert(out@.push(line).map_values(|l: String| l@) =~= out@.map_values(
                    |l: String| l@,
                ).push(line@));
            }
            out.push(line);
            start = i + 1;
        }
        i = i + 1;
    }
    if start < len {
        let line = substring(s, start, len);
        let ghost tail = s@.skip(start as int);
        proof {
            assert forall|j: int| 0 <= j < tail.len() implies tail[j] != '\n' by {
                assert(tail[j] == s@[j + start]);
            }
            lemma_lines_rec_no_nl(tail, Seq::empty());
            assert(Seq::<char>::empty() + tail =~= s@.subrange(start as int, len as int));
            assert(out@.push(line).map_values(|l: String| l@) =~= out@.map_values(
                |l: String| l@,
            ).push(line@));
        }
        out.push(line);
    } else {
        proof {
            let tail = s@.skip(start as int);
            assert(tail.len() == 0);
            lemma_lines_rec_no_nl(tail, Seq::empty());
            assert(out@.map_values(|l: String| l@) + lines_rec(tail, Seq::empty())
                =~= out@.map_values(|l: String| l@));
        }
    }
    out
}

/// The parts joined with the separator between each neighbouring pair.
pub open spec fn join_with(parts: Seq<Seq<char>>, sep: Seq<char>) -> Seq<char>
    decreases parts.len(),
{
    if parts.len() == 0 {
        Seq::empty()
    } else if parts.len() == 1 {
        parts[0]
    } else {
        parts[0] + sep + join_with(parts.drop_first(), sep)
    }
}

/// Joins strings with a separator, exactly as [`join_with`] says.
pub fn join_with_sep(parts: &Vec<String>, sep: &str) -> (r: String)
    ensures
        r@ == join_with(parts@.map_values(|p: String| p@), sep@),
{
    let ghost views = parts@.map_values(|p: String| p@);
    let mut out = String::new();
    let n = parts.len();
    let mut i: usize = 0;
    while i < n
        invariant
            n == parts@.len(),
            i <= n,
            views == parts@.map_values(|p: String| p@),
            i == 0 ==> out@.len() == 0,
            0 < i < n ==> join_with(views, sep@) == out@ + sep@ + join_with(
                views.skip(i as int),
                sep@,
            ),
            (i > 0 && i == n) ==> join_with(views, sep@) == out@,
        decreases n - i,
    {
        let ghost prev = out@;
        if i > 0 {
            out.append(sep);
        }
        out.append(parts[i].as_str());
        proof {
            let rest = views.skip(i as int);
            assert(rest[0] == views[i as int]);
            assert(rest.drop_first() =~= views.skip(i as int + 1));
            if i == 0 {
                assert(out@ =~= views[0]);
                if n > 1 {
                    assert(join_with(views, sep@) == views[0] + sep@ + join_with(
                        rest.drop_first(),
                        sep@,
                    ));
                    assert(out@ + sep@ + join_with(views.skip(1), sep@) =~= join_with(
                        views,
                        sep@,
                    ));
                }
            } else {
                if i + 1 < n {
                    assert(rest.len() > 1);
                    assert(join_with(rest, sep@) == rest[0] + sep@ + join_with(
                        rest.drop_first(),
                        sep@,
                    ));
                    assert(prev + sep@ + join_with(rest, sep@) =~= out@ + sep@ + join_with(
                        views.skip(i as int + 1),
                        sep@,
                    ));
                } else {
                    assert(rest.len() == 1);
                    assert(join_with(rest, sep@) == rest[0]);
                }
            }
        }
        i = i + 1;
    }
    proof {
        if n == 0 {
            assert(out@ =~= join_with(views, sep@));
        }
    }
    out
}

/// The character for a single decimal digit.
pub open spec fn spec_digit_char(d: int) -> char {
    ((48 + d) as u8) as char
}

/// The decimal digits of a non-negative number, most significant first.
pub open spec fn dec_chars(n: int) -> Seq<char>
    recommends
        n >= 0,
    decreases n,
{
    if n < 10 {
        seq![spec_digit_char(n)]
    } else {
        dec_chars(n / 10).push(spec_digit_char(n % 10))
    }
}

/// The decimal rendering of a signed number: a minus sign where negative,
/// then the digits.
pub open spec fn int_dec_chars(n: int) -> Seq<char> {
    if n < 0 {
        seq!['-'] + dec_chars(-n)
    } else {
        dec_chars(n)
    }
}

/// Renders an unsigned 32-bit number in decimal.
pub fn u32_to_string(n: u32) -> (r: String)
    ensures
        r@ == dec_chars(n as int),
    decreases n,
{
    let d = (n % 10) as u8;
    if n < 10 {
        let mut s = String::new();
        push_char(&mut s, (48 + d) as char);
        proof {
            assert(s@ =~= dec_chars(n as int));
        }
        s
    } else {
        let mut s = u32_to_string(n / 10);
        push_char(&mut s, (48 + d) as char);
        s
    }
}

/// Renders a signed 32-bit number in decimal.
pub fn i32_to_string(n: i32) -> (r: String)
    ensures
        r@ == int_dec_chars(n as int),
{
    if n >= 0 {
        u32_to_string(n as u32)
    } else {
        let m: u32 = (-(n as i64)) as u32;
        let mut s = String::new();
        push_char(&mut s, '-');
        let digits = u32_to_string(m);
        s.append(digits.as_str());
        proof {
            assert(s@ =~= seq!['-'] + dec_chars(m as int));
        }
        s
    }
}

/// The position of the first occurrence of `c` in `s`, or `None` when `c`
/// does not occur.
pub fn find_char(s: &str, c: char) -> (r: Option<usize>)
    ensures
        match r {
            Some(i) => i < s@.len() && s@[i as int] == c && (forall|j: int|
                0 <= j < i ==> s@[j] != c),
            None => forall|j: int| 0 <= j < s@.len() ==> s@[j] != c,
        },
{
    let len = s.unicode_len();
    let mut i: usize = 0;
    while i < len
        invariant
            len == s@.len(),
            i <= len,
            forall|j: int| 0 <= j < i ==> s@[j] != c,
        decreases len - i,
    {
        if s.get_char(i) == c {
            return Some(i);
        }
        i = i + 1;
    }
    None
}

/// The position just past the last occurrence of `c` in `s`, or `None` when
/// `c` does not occur.
pub fn rfind_char(s: &str, c: char) -> (r: Option<usize>)
    ensures
        match r {
            Some(i) => i < s@.len() && s@[i as int] == c && (forall|j: int|
                i < j < s@.len() ==> s@[j] != c),
            None => forall|j: int| 0 <= j < s@.len() ==> s@[j] != c,
        },
{
    let len = s.unicode_len();
    let mut i: usize = len;
    while i > 0
        invariant
            len == s@.len(),
            i <= len,
            forall|j: int| i <= j < len ==> s@[j] != c,
        decreases i,
    {
        i = i - 1;
        if s.get_char(i) == c {
            return Some(i);
        }
    }
    None
}

} // verus!
