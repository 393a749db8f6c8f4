//! Splitting, trimming and number parsing on strings, as the instruction
//! reference is read.
use vstd::prelude::*;
use vstd::string::StrSliceExecFns;
use vstd::string::StringExecFns;

verus! {

/// Whether `c` is white space in the sense of Unicode's `White_Space` property.
pub open spec fn is_ws(c: char) -> bool {
    let u = c as u32;
    ||| u == 0x20
    ||| 0x09 <= u <= 0x0d
    ||| u == 0x85
    ||| u == 0xa0
    ||| u == 0x1680
    ||| 0x2000 <= u <= 0x200a
    ||| u == 0x2028
    ||| u == 0x2029
    ||| u == 0x202f
    ||| u == 0x205f
    ||| u == 0x3000
}

/// Whether `c` is white space.
pub fn is_whitespace(c: char) -> (r: bool)
    ensures
        r == is_ws(c),
{
    let u = c as u32;
    u == 0x20 || (0x09 <= u && u <= 0x0d) || u == 0x85 || u == 0xa0 || u == 0x1680 || (0x2000 <= u
        && u <= 0x200a) || u == 0x2028 || u == 0x2029 || u == 0x202f || u == 0x205f || u == 0x3000
}

/// `s` without its leading white space.
pub open spec fn trim_start(s: Seq<char>) -> Seq<char>
    decreases s.len(),
{
    if s.len() > 0 && is_ws(s[0]) {
        trim_start(s.drop_first())
    } else {
        s
    }
}

/// `s` without its trailing characters for which `pred` holds.
pub open spec fn trim_end_by(s: Seq<char>, pred: spec_fn(char) -> bool) -> Seq<char>
    decreases s.len(),
{
    if s.len() > 0 && pred(s.last()) {
        trim_end_by(s.drop_last(), pred)
    } else {
        s
    }
}

/// White space, as a predicate.
pub open spec fn ws_pred() -> spec_fn(char) -> bool {
    |c: char| is_ws(c)
}

/// The character `x`, as a predicate.
pub open spec fn char_pred(x: char) -> spec_fn(char) -> bool {
    |c: char| c == x
}

/// `s` without leading and trailing white space.
pub open spec fn trim(s: Seq<char>) -> Seq<char> {
    trim_end_by(trim_start(s), ws_pred())
}

/// `s` without leading and trailing white space (`str::trim`).
pub fn trim_str(s: &str) -> (r: &str)
    ensures
        r@ == trim(s@),
{
    let n = s.unicode_len();
    let mut i: usize = 0;
    assert(s@.subrange(0, n as int) =~= s@);
    while i < n && is_whitespace(s.get_char(i))
        invariant
            n == s@.len(),
            i <= n,
            trim_start(s@) == trim_start(s@.subrange(i as int, n as int)),
        decreases n - i,
    {
        assert(s@.subrange(i as int, n as int).drop_first() =~= s@.subrange(i + 1, n as int));
        i += 1;
    }
    assert(trim_start(s@) == s@.subrange(i as int, n as int));
    let mut j: usize = n;
    while j > i && is_whitespace(s.get_char(j - 1))
        invariant
            n == s@.len(),
            i <= j <= n,
            trim(s@) == trim_end_by(s@.subrange(i as int, j as int), ws_pred()),
        decreases j,
    {
        assert(s@.subrange(i as int, j as int).drop_last() =~= s@.subrange(i as int, j - 1));
        j -= 1;
    }
    s.substring_char(i, j)
}

/// `s` without its trailing `x` characters (`str::trim_end_matches` with a char).
pub fn trim_end_char(s: &str, x: char) -> (r: &str)
    ensures
        r@ == trim_end_by(s@, char_pred(x)),
{
    let n = s.unicode_len();
    let mut j: usize = n;
    assert(s@.subrange(0, n as int) =~= s@);
    while j > 0 && s.get_char(j - 1) == x
        invariant
            n == s@.len(),
            j <= n,
            trim_end_by(s@, char_pred(x)) == trim_end_by(s@.subrange(0, j as int), char_pred(x)),
        decreases j,
    {
        assert(s@.subrange(0, j as int).drop_last() =~= s@.subrange(0, j - 1));
        j -= 1;
    }
    s.substring_char(0, j)
}

/// Tokens found so far in a left-to-right scan for white-space separated
/// words, and the word being read.
pub open spec fn ws_scan(s: Seq<char>) -> (Seq<Seq<char>>, Seq<char>)
    decreases s.len(),
{
    if s.len() == 0 {
        (Seq::empty(), Seq::empty())
    } else {
        let (toks, cur) = ws_scan(s.drop_last());
        if is_ws(s.last()) {
            if cur.len() > 0 {
                (toks.push(cur), Seq::empty())
            } else {
                (toks, Seq::empty())
            }
        } else {
            (toks, cur.push(s.last()))
        }
    }
}

/// The white-space separated words of `s`, in order.
pub open spec fn split_ws(s: Seq<char>) -> Seq<Seq<char>> {
    let (toks, cur) = ws_scan(s);
    if cur.len() > 0 {
        toks.push(cur)
    } else {
        toks
    }
}

/// The views of a sequence of string slices.
pub open spec fn views<'a>(v: Seq<&'a str>) -> Seq<Seq<char>> {
    v.map_values(|t: &'a str| t@)
}

/// The white-space separated words of `s` (`str::split_whitespace`).
pub fn split_whitespace(s: &str) -> (r: Vec<&str>)
    ensures
        views(r@) == split_ws(s@),
{
    let n = s.unicode_len();
    let mut toks: Vec<&str> = Vec::new();
    let mut start: usize = 0;
    let mut i: usize = 0;
    while i < n
        invariant
            n == s@.len(),
            start <= i <= n,
            views(toks@) == ws_scan(s@.take(i as int)).0,
            ws_scan(s@.take(i as int)).1 == s@.subrange(start as int, i as int),
        decreases n - i,
    {
        let c = s.get_char(i);
        assert(s@.take(i + 1).drop_last() =~= s@.take(i as int));
        assert(s@.take(i + 1).last() == c);
        if is_whitespace(c) {
            if start < i {
                let t = s.substring_char(start, i);
                toks.push(t);
                assert(views(toks@) =~= ws_scan(s@.take(i + 1)).0);
            }
            start = i + 1;
            assert(s@.subrange(start as int, i + 1) =~= Seq::<char>::empty());
        } else {
            assert(s@.subrange(start as int, i + 1) =~= s@.subrange(start as int, i as int).push(c));
        }
        i += 1;
    }
    assert(s@.take(n as int) =~= s@);
    if start < n {
        let t = s.substring_char(start, n);
        toks.push(t);
        assert(views(toks@) =~= split_ws(s@));
    } else {
        assert(s@.subrange(start as int, n as int) =~= Seq::<char>::empty());
    }
    toks
}

/// Index of the first `c` in `s`, or the length of `s` when there is none.
pub open spec fn index_of(s: Seq<char>, c: char) -> int
    decreases s.len(),
{
    if s.len() == 0 {
        0
    } else if s[0] == c {
        0
    } else {
        1 + index_of(s.drop_first(), c)
    }
}

/// `index_of` is a position in `s` or just past its end.
pub proof fn lemma_index_of_bound(s: Seq<char>, c: char)
    ensures
        0 <= index_of(s, c) <= s.len(),
        index_of(s, c) < s.len() ==> s[index_of(s, c)] == c,
    decreases s.len(),
{
    if s.len() > 0 && s[0] != c {
        lemma_index_of_bound(s.drop_first(), c);
    }
}

/// `index_of` is the first position holding `c`.
pub proof fn lemma_index_of(s: Seq<char>, c: char, k: int)
    requires
        0 <= k <= s.len(),
        k < s.len() ==> s[k] == c,
        forall|j: int| 0 <= j < k ==> s[j] != c,
    ensures
        index_of(s, c) == k,
    decreases s.len(),
{
    if s.len() > 0 && s[0] != c {
        lemma_index_of(s.drop_first(), c, k - 1);
    }
}

/// `s` split at `sep` into at most `n` pieces, the last piece holding the
/// rest (`str::splitn`).
pub open spec fn splitn(s: Seq<char>, n: nat, sep: char) -> Seq<Seq<char>>
    decreases n,
{
    if n <= 1 {
        seq![s]
    } else {
        let k = index_of(s, sep);
        if k == s.len() {
            seq![s]
        } else {
            seq![s.take(k)] + splitn(s.skip(k + 1), (n - 1) as nat, sep)
        }
    }
}

/// `s` split at `sep` into at most `n` pieces, the last piece holding the rest.
pub fn split_n(s: &str, n: usize, sep: char) -> (r: Vec<&str>)
    requires
        n >= 1,
    ensures
        views(r@) == splitn(s@, n as nat, sep),
{
    let mut pieces: Vec<&str> = Vec::new();
    let mut rest = s;
    let mut left: usize = n;
    while left > 1
        invariant
            1 <= left <= n,
            views(pieces@) + splitn(rest@, left as nat, sep) == splitn(s@, n as nat, sep),
        ensures
            views(pieces@) + splitn(rest@, left as nat, sep) == splitn(s@, n as nat, sep),
            splitn(rest@, left as nat, sep) == seq![rest@],
        decreases left,
    {
        let len = rest.unicode_len();
        let mut k: usize = 0;
        while k < len && rest.get_char(k) != sep
            invariant
                len == rest@.len(),
                k <= len,
                forall|j: int| 0 <= j < k ==> rest@[j] != sep,
            decreases len - k,
        {
            k += 1;
        }
        proof {
            lemma_index_of(rest@, sep, k as int);
        }
        if k == len {
            break;
        }
        let head = rest.substring_char(0, k);
        let tail = rest.substring_char(k + 1, len);
        assert(head@ =~= rest@.take(k as int));
        assert(tail@ =~= rest@.skip(k + 1));
        let ghost old_pieces = pieces@;
        pieces.push(head);
        assert(views(pieces@) =~= views(old_pieces).push(head@));
        assert(views(pieces@) + splitn(tail@, (left - 1) as nat, sep) =~= views(old_pieces) + splitn(
            rest@,
            left as nat,
            sep,
        ));
        rest = tail;
        left -= 1;
    }
    let ghost old_pieces = pieces@;
    pieces.push(rest);
    assert(views(pieces@) =~= views(old_pieces) + splitn(rest@, left as nat, sep));
    pieces
}

/// The words of `parts` joined with `sep` between them (`[T]::join`).
pub open spec fn join(parts: Seq<Seq<char>>, sep: Seq<char>) -> Seq<char>
    decreases parts.len(),
{
    if parts.len() == 0 {
        Seq::empty()
    } else if parts.len() == 1 {
        parts[0]
    } else {
        join(parts.drop_last(), sep) + sep + parts.last()
    }
}

/// The views of a sequence of strings.
pub open spec fn string_views(v: Seq<String>) -> Seq<Seq<char>> {
    v.map_values(|t: String| t@)
}

/// The strings of `parts` joined with a space between them.
pub fn join_space(parts: &Vec<String>) -> (r: String)
    ensures
        r@ == join(string_views(parts@), " "@),
{
    let mut r = String::new();
    let n = parts.len();
    let mut i: usize = 0;
    while i < n
        invariant
            n == parts@.len(),
            i <= n,
            r@ == join(string_views(parts@).take(i as int), " "@),
        decreases n - i,
    {
        assert(string_views(parts@).take(i + 1).drop_last() =~= string_views(parts@).take(i as int));
        if i > 0 {
            r.append(" ");
        }
        r.append(parts[i].as_str());
        i += 1;
    }
    assert(string_views(parts@).take(n as int) =~= string_views(parts@));
    r
}

/// The value of digit `c` in base `radix`, if it is one (`char::to_digit`).
pub open spec fn digit_value(c: char, radix: u32) -> Option<int> {
    let u = c as u32;
    let d = if 0x30 <= u <= 0x39 {
        u - 0x30
    } else if 0x61 <= u <= 0x7a {
        u - 0x61 + 10
    } else if 0x41 <= u <= 0x5a {
        u - 0x41 + 10
    } else {
        100
    };
    if d < radix { Some(d) } else { None }
}

/// Whether every character of `s` is a digit in base `radix`.
pub open spec fn all_digits(s: Seq<char>, radix: u32) -> bool {
    forall|i: int| 0 <= i < s.len() ==> digit_value(#[trigger] s[i], radix) is Some
}

/// The number that the digits `s` write in base `radix`.
pub open spec fn digits_value(s: Seq<char>, radix: u32) -> int
    decreases s.len(),
{
    if s.len() == 0 {
        0
    } else {
        digits_value(s.drop_last(), radix) * radix + digit_value(s.last(), radix)->0
    }
}

/// The digits of a number as `from_str_radix` reads them: one optional
/// leading `+` is skipped.
pub open spec fn unsigned_digits(s: Seq<char>) -> Seq<char> {
    if s.len() > 0 && s[0] == '+' { s.drop_first() } else { s }
}

/// The unsigned number `s` writes in base `radix`, if it is one and is at
/// most `max`: at least one digit after an optional `+`, nothing but digits
/// (`from_str_radix` for an unsigned type whose largest value is `max`).
pub open spec fn parse_uint_spec(s: Seq<char>, radix: u32, max: int) -> Option<int> {
    let d = unsigned_digits(s);
    if d.len() > 0 && all_digits(d, radix) && digits_value(d, radix) <= max {
        Some(digits_value(d, radix))
    } else {
        None
    }
}

/// A longer run of digits never writes a smaller number.
proof fn lemma_digits_value_grows(s: Seq<char>, radix: u32, k: int)
    requires
        0 <= k <= s.len(),
        2 <= radix <= 36,
        all_digits(s, radix),
    ensures
        0 <= digits_value(s.take(k), radix) <= digits_value(s, radix),
    decreases s.len(),
{
    if k < s.len() {
        assert(all_digits(s.drop_last(), radix));
        lemma_digits_value_grows(s.drop_last(), radix, k);
        assert(s.drop_last().take(k) =~= s.take(k));
        let v = digits_value(s.drop_last(), radix);
        assert(v * radix >= v) by (nonlinear_arith)
            requires v >= 0, radix >= 2;
    } else {
        assert(s.take(k) =~= s);
        lemma_digits_value_nonneg(s, radix);
    }
}

/// Digits write a number of at least zero.
proof fn lemma_digits_value_nonneg(s: Seq<char>, radix: u32)
    requires
        2 <= radix <= 36,
        all_digits(s, radix),
    ensures
        digits_value(s, radix) >= 0,
    decreases s.len(),
{
    if s.len() > 0 {
        assert(all_digits(s.drop_last(), radix));
        lemma_digits_value_nonneg(s.drop_last(), radix);
        let v = digits_value(s.drop_last(), radix);
        assert(v * radix >= 0) by (nonlinear_arith)
            requires v >= 0, radix >= 2;
    }
}

/// The value of digit `c` in base `radix`.
fn to_digit(c: char, radix: u32) -> (r: Option<u32>)
    requires
        radix <= 36,
    ensures
        match r {
            Some(d) => digit_value(c, radix) == Some(d as int),
            None => digit_value(c, radix) is None,
        },
{
    let u = c as u32;
    let d = if 0x30 <= u && u <= 0x39 {
        u - 0x30
    } else if 0x61 <= u && u <= 0x7a {
        u - 0x61 + 10
    } else if 0x41 <= u && u <= 0x5a {
        u - 0x41 + 10
    } else {
        100
    };
    if d < radix {
        Some(d)
    } else {
        None
    }
}

/// The unsigned number `s` writes in base `radix`, if it is one and is at
/// most `max` (`from_str_radix`, and `str::parse` in base 10).
pub fn parse_uint(s: &str, radix: u32, max: usize) -> (r: Option<usize>)
    requires
        2 <= radix <= 36,
    ensures
        r == (match parse_uint_spec(s@, radix, max as int) {
            Some(v) => Some(v as usize),
            None => None,
        }),
        r matches Some(v) ==> parse_uint_spec(s@, radix, max as int) == Some(v as int),
{
    let n = s.unicode_len();
    let mut i: usize = 0;
    if n > 0 && s.get_char(0) == '+' {
        i = 1;
    }
    let ghost d = unsigned_digits(s@);
    let ghost start = i as int;
    assert(d =~= s@.subrange(start, n as int));
    if i == n {
        assert(d.len() == 0);
        return None;
    }
    assert(d.len() > 0);
    let mut v: usize = 0;
    while i < n
        invariant
            n == s@.len(),
            0 <= start <= 1,
            start <= i <= n,
            d == s@.subrange(start, n as int),
            d.len() == n - start,
            d == unsigned_digits(s@),
            2 <= radix <= 36,
            v <= max,
            all_digits(d.take(i - start), radix),
            v == digits_value(d.take(i - start), radix),
        decreases n - i,
    {
        let c = s.get_char(i);
        let ghost k = i - start;
        assert(d[k] == c);
        assert(d.take(k + 1).drop_last() =~= d.take(k as int));
        assert(d.take(k + 1).last() == c);
        match to_digit(c, radix) {
            None => {
                assert(!all_digits(d, radix));
                return None;
            },
            Some(digit) => {
                assert(all_digits(d.take(k + 1), radix));
                let next = match v.checked_mul(radix as usize) {
                    Some(m) => m.checked_add(digit as usize),
                    None => None,
                };
                match next {
                    Some(nv) if nv <= max => {
                        v = nv;
                    },
                    _ => {
                        proof {
                            assert(digits_value(d.take(k + 1), radix) == v * radix + digit);
                            assert(v * radix + digit > max);
                            if all_digits(d, radix) {
                                lemma_digits_value_grows(d, radix, k + 1);
                            }
                        }
                        return None;
                    },
                }
            },
        }
        i += 1;
    }
    assert(d.take(n - start) =~= d);
    assert(parse_uint_spec(s@, radix, max as int) == Some(v as int));
    Some(v)
}

} // verus!
