//! Character-level helpers: equality, decimal rendering and parsing.
use vstd::prelude::*;

verus! {

broadcast use vstd::string::group_string_axioms;

/// The characters of `s`, in order.
pub fn chars_of(s: &str) -> (v: Vec<char>)
    ensures
        v@ == s@,
{
    let mut v: Vec<char> = Vec::new();
    for c in it: s.chars()
        invariant
            v@ == it.seq().take(it.index()),
    {
        v.push(c);
    }
    v
}


/// Value of `c` read as a digit in base `radix` (10 or 16), if it is one.
pub open spec fn digit_value(c: char, radix: nat) -> Option<nat> {
    let u = c as u32;
    if 48 <= u <= 57 {
        if u - 48 < radix { Some((u - 48) as nat) } else { None }
    } else if radix == 16 && 97 <= u <= 102 {
        Some((u - 87) as nat)
    } else if radix == 16 && 65 <= u <= 70 {
        Some((u - 55) as nat)
    } else {
        None
    }
}

/// Every character of `s` is a digit in base `radix`.
pub open spec fn all_digits(s: Seq<char>, radix: nat) -> bool {
    forall|i: int| 0 <= i < s.len() ==> (#[trigger] digit_value(s[i], radix)) is Some
}

/// The number that the digit string `s` denotes in base `radix`.
pub open spec fn digits_value(s: Seq<char>, radix: nat) -> nat
    decreases s.len(),
{
    if s.len() == 0 {
        0
    } else {
        digits_value(s.drop_last(), radix) * radix + digit_value(s.last(), radix).unwrap_or(0)
    }
}

/// What follows an optional single leading `+`.
pub open spec fn unsigned_body(s: Seq<char>) -> Seq<char> {
    if s.len() > 0 && s[0] == '+' {
        s.drop_first()
    } else {
        s
    }
}

/// How std reads an unsigned integer of at most `max` in base `radix`:
/// an optional `+`, then one or more digits, and no overflow.
pub open spec fn parse_unsigned(s: Seq<char>, radix: nat, max: nat) -> Option<nat> {
    let body = unsigned_body(s);
    if body.len() > 0 && all_digits(body, radix) && digits_value(body, radix) <= max {
        Some(digits_value(body, radix))
    } else {
        None
    }
}

/// The decimal digit character for `d` (0 to 9).
pub open spec fn digit_char(d: nat) -> char {
    if d == 0 { '0' }
    else if d == 1 { '1' }
    else if d == 2 { '2' }
    else if d == 3 { '3' }
    else if d == 4 { '4' }
    else if d == 5 { '5' }
    else if d == 6 { '6' }
    else if d == 7 { '7' }
    else if d == 8 { '8' }
    else { '9' }
}

/// Decimal rendering of `n`, without leading zeros.
pub open spec fn decimal(n: nat) -> Seq<char>
    decreases n,
{
    if n < 10 {
        seq![digit_char(n)]
    } else {
        decimal(n / 10).push(digit_char(n % 10))
    }
}

proof fn lemma_digits_value_prefix(s: Seq<char>, k: int, radix: nat)
    requires
        0 <= k <= s.len(),
        radix >= 1,
    ensures
        digits_value(s.take(k), radix) <= digits_value(s, radix),
    decreases s.len(),
{
    if k < s.len() {
        assert(s.drop_last().take(k) =~= s.take(k));
        lemma_digits_value_prefix(s.drop_last(), k, radix);
        assert(digits_value(s.drop_last(), radix) <= digits_value(s.drop_last(), radix) * radix)
            by (nonlinear_arith) requires radix >= 1;
    } else {
        assert(s.take(k) =~= s);
    }
}

fn digit_value_exec(c: char, radix: u32) -> (r: Option<u32>)
    requires
        radix == 10 || radix == 16,
    ensures
        r matches Some(v) ==> digit_value(c, radix as nat) == Some(v as nat) && v < radix,
        r is None ==> digit_value(c, radix as nat) is None,
{
    let u = c as u32;
    if 48 <= u && u <= 57 {
        if u - 48 < radix { Some(u - 48) } else { None }
    } else if radix == 16 && 97 <= u && u <= 102 {
        Some(u - 87)
    } else if radix == 16 && 65 <= u && u <= 70 {
        Some(u - 55)
    } else {
        None
    }
}

/// Reads an unsigned integer of at most `max` from `s` in base `radix`, as
/// std's `from_str_radix` does for the unsigned types.
pub fn parse_unsigned_exec(s: &str, radix: u32, max: u64) -> (r: Option<u64>)
    requires
        radix == 10 || radix == 16,
    ensures
        r matches Some(v) ==> parse_unsigned(s@, radix as nat, max as nat) == Some(v as nat),
        r is None ==> parse_unsigned(s@, radix as nat, max as nat) is None,
{
    let chars = chars_of(s);
    let start: usize = if chars.len() > 0 && chars[0] == '+' { 1 } else { 0 };
    let ghost body = unsigned_body(s@);
    assert(body =~= chars@.subrange(start as int, chars@.len() as int));
    if start >= chars.len() {
        return None;
    }
    let mut acc: u64 = 0;
    let mut i: usize = start;
    while i < chars.len()
        invariant
            start <= i <= chars.len(),
            body =~= chars@.subrange(start as int, chars@.len() as int),
            body == unsigned_body(s@),
            radix == 10 || radix == 16,
            all_digits(body.take(i - start), radix as nat),
            acc as nat == digits_value(body.take(i - start), radix as nat),
            acc <= max,
        decreases chars.len() - i,
    {
        let d = digit_value_exec(chars[i], radix);
        let ghost k = i - start;
        assert(body.take(k + 1).drop_last() =~= body.take(k));
        assert(body.take(k + 1).last() == chars@[i as int]);
        match d {
            None => {
                assert(body[k] == chars@[i as int]);
                assert(digit_value(body[k], radix as nat) is None);
                assert(!all_digits(body, radix as nat));
                return None;
            }
            Some(dv) => {
                if dv as u64 > max || acc > (max - dv as u64) / (radix as u64) {
                    proof {
                        if dv <= max {
                            assert(acc * radix + dv > max) by (nonlinear_arith)
                                requires acc > (max - dv) / (radix as int), radix > 0, dv <= max;
                        }
                        assert(acc * radix + dv > max) by (nonlinear_arith)
                            requires dv > max || acc * radix + dv > max, acc >= 0, radix > 0;
                        assert(digits_value(body.take(k + 1), radix as nat)
                            == digits_value(body.take(k), radix as nat) * radix + dv);
                        lemma_digits_value_prefix(body, k + 1, radix as nat);
                    }
                    return None;
                }
                proof {
                    assert(acc * radix + dv <= max) by (nonlinear_arith)
                        requires acc <= (max - dv) / (radix as int), radix > 0, dv <= max;
                }
                acc = acc * (radix as u64) + dv as u64;
                i = i + 1;
                assert forall|j: int| 0 <= j < body.take(i - start).len() implies
                    (#[trigger] digit_value(body.take(i - start)[j], radix as nat)) is Some by {
                    if j < k {
                        assert(body.take(i - start)[j] == body.take(k)[j]);
                    }
                }
            }
        }
    }
    assert(body.take(i - start) =~= body);
    Some(acc)
}


fn digit_str(d: u64) -> (r: &'static str)
    requires
        d < 10,
    ensures
        r@ == seq![digit_char(d as nat)],
{
    proof {
        reveal_strlit("0");
        reveal_strlit("1");
        reveal_strlit("2");
        reveal_strlit("3");
        reveal_strlit("4");
        reveal_strlit("5");
        reveal_strlit("6");
        reveal_strlit("7");
        reveal_strlit("8");
        reveal_strlit("9");
    }
    let r = if d == 0 { "0" }
    else if d == 1 { "1" }
    else if d == 2 { "2" }
    else if d == 3 { "3" }
    else if d == 4 { "4" }
    else if d == 5 { "5" }
    else if d == 6 { "6" }
    else if d == 7 { "7" }
    else if d == 8 { "8" }
    else { "9" };
    assert(r@ =~= seq![digit_char(d as nat)]);
    r
}

/// Decimal rendering of `n`, as `to_string` gives it.
pub fn u64_to_decimal(n: u64) -> (r: String)
    ensures
        r@ == decimal(n as nat),
    decreases n,
{
    if n < 10 {
        digit_str(n).to_string()
    } else {
        let mut s = u64_to_decimal(n / 10);
        s.append(digit_str(n % 10));
        s
    }
}

/// Whether `a` and `b` hold the same characters.
pub fn str_eq(a: &str, b: &str) -> (r: bool)
    ensures
        r == (a@ == b@),
{
    let x = chars_of(a);
    let y = chars_of(b);
    if x.len() != y.len() {
        return false;
    }
    let mut i: usize = 0;
    while i < x.len()
        invariant
            x@ == a@,
            y@ == b@,
            x.len() == y.len(),
            i <= x.len(),
            forall|j: int| 0 <= j < i ==> x@[j] == y@[j],
        decreases x.len() - i,
    {
        if x[i] != y[i] {
            return false;
        }
        i = i + 1;
    }
    assert(x@ =~= y@);
    true
}

/// `c` with an ASCII capital letter turned to lower case.
pub open spec fn ascii_lower(c: char) -> char {
    if 65 <= (c as u32) <= 90 { ((c as u32) + 32) as char } else { c }
}

/// `s` with its ASCII capital letters turned to lower case.
pub open spec fn ascii_lowercase(s: Seq<char>) -> Seq<char> {
    s.map_values(|c: char| ascii_lower(c))
}

/// Whether `s`, with ASCII capitals lowered, reads as the lower-case word `word`.
pub fn lower_eq(s: &str, word: &str) -> (r: bool)
    ensures
        r == (ascii_lowercase(s@) == word@),
{
    let x = chars_of(s);
    let y = chars_of(word);
    if x.len() != y.len() {
        assert(ascii_lowercase(s@).len() == s@.len());
        return false;
    }
    let mut i: usize = 0;
    while i < x.len()
        invariant
            x@ == s@,
            y@ == word@,
            x.len() == y.len(),
            i <= x.len(),
            forall|j: int| 0 <= j < i ==> ascii_lower(x@[j]) == y@[j],
        decreases x.len() - i,
    {
        let c = x[i];
        let u = c as u32;
        let l: char = if 65 <= u && u <= 90 { ((u + 32) as u8) as char } else { c };
        assert(l == ascii_lower(c));
        if l != y[i] {
            assert(ascii_lowercase(s@)[i as int] != word@[i as int]);
            return false;
        }
        i = i + 1;
    }
    assert(ascii_lowercase(s@) =~= word@);
    true
}

/// Characters that std counts as white space (`char::is_whitespace`).
pub open spec fn is_whitespace(c: char) -> bool {
    let u = c as u32;
    (9 <= u <= 13) || u == 32 || u == 0x85 || u == 0xA0 || u == 0x1680
        || (0x2000 <= u <= 0x200A) || u == 0x2028 || u == 0x2029 || u == 0x202F
        || u == 0x205F || u == 0x3000
}

fn is_whitespace_exec(c: char) -> (r: bool)
    ensures
        r == is_whitespace(c),
{
    let u = c as u32;
    (9 <= u && u <= 13) || u == 32 || u == 0x85 || u == 0xA0 || u == 0x1680
        || (0x2000 <= u && u <= 0x200A) || u == 0x2028 || u == 0x2029 || u == 0x202F
        || u == 0x205F || u == 0x3000
}

/// Number of white-space characters at the start of `s`.
pub open spec fn leading_ws(s: Seq<char>) -> nat
    decreases s.len(),
{
    if s.len() > 0 && is_whitespace(s[0]) { 1 + leading_ws(s.drop_first()) } else { 0 }
}

/// Number of white-space characters at the end of `s`.
pub open spec fn trailing_ws(s: Seq<char>) -> nat
    decreases s.len(),
{
    if s.len() > 0 && is_whitespace(s.last()) { 1 + trailing_ws(s.drop_last()) } else { 0 }
}

/// `s` without white space at either end, as `str::trim` gives it.
pub open spec fn trim(s: Seq<char>) -> Seq<char> {
    let t = s.skip(leading_ws(s) as int);
    t.take(t.len() - trailing_ws(t))
}

proof fn lemma_leading_ws(s: Seq<char>, k: int)
    requires
        0 <= k <= s.len(),
        forall|j: int| 0 <= j < k ==> is_whitespace(#[trigger] s[j]),
        k == s.len() || !is_whitespace(s[k]),
    ensures
        leading_ws(s) == k,
    decreases k,
{
    if k > 0 {
        lemma_leading_ws(s.drop_first(), k - 1);
    }
}

proof fn lemma_trailing_ws(s: Seq<char>, k: int)
    requires
        0 <= k <= s.len(),
        forall|j: int| s.len() - k <= j < s.len() ==> is_whitespace(#[trigger] s[j]),
        k == s.len() || !is_whitespace(s[s.len() - k - 1]),
    ensures
        trailing_ws(s) == k,
    decreases k,
{
    if k > 0 {
        lemma_trailing_ws(s.drop_last(), k - 1);
    }
}

proof fn lemma_ws_bounds(s: Seq<char>)
    ensures
        leading_ws(s) <= s.len(),
        trailing_ws(s) <= s.len(),
    decreases s.len(),
{
    if s.len() > 0 {
        lemma_ws_bounds(s.drop_first());
        lemma_ws_bounds(s.drop_last());
    }
}

/// `s` without white space at either end.
pub fn trim_str(s: &str) -> (r: String)
    ensures
        r@ == trim(s@),
{
    let v = chars_of(s);
    let mut a: usize = 0;
    while a < v.len() && is_whitespace_exec(v[a])
        invariant
            v@ == s@,
            a <= v.len(),
            forall|j: int| 0 <= j < a ==> is_whitespace(#[trigger] v@[j]),
        decreases v.len() - a,
    {
        a = a + 1;
    }
    proof { lemma_leading_ws(s@, a as int); }
    let mut b: usize = v.len();
    while b > a && is_whitespace_exec(v[b - 1])
        invariant
            v@ == s@,
            a <= b <= v.len(),
            forall|j: int| b <= j < v.len() ==> is_whitespace(#[trigger] v@[j]),
        decreases b,
    {
        b = b - 1;
    }
    proof {
        let t = s@.skip(a as int);
        assert forall|j: int| t.len() - (v.len() - b) <= j < t.len() implies is_whitespace(#[trigger] t[j]) by {
            assert(t[j] == v@[a + j]);
        }
        if b > a {
            assert(t[t.len() - (v.len() - b) - 1] == v@[b - 1]);
        }
        lemma_trailing_ws(t, (v.len() - b) as int);
    }
    let r = s.substring_char(a, b).to_string();
    assert(r@ =~= trim(s@));
    r
}

/// Index of the first `sep` in `s`, if any.
pub open spec fn find_char(s: Seq<char>, sep: char) -> Option<int> {
    if exists|i: int| 0 <= i < s.len() && s[i] == sep {
        Some(choose|i: int| 0 <= i < s.len() && s[i] == sep && forall|j: int| 0 <= j < i ==> s[j] != sep)
    } else {
        None
    }
}

/// Index of the first `sep` in `s`, if any.
pub fn find_char_exec(s: &str, sep: char) -> (r: Option<usize>)
    ensures
        r matches Some(i) ==> i < s@.len() && s@[i as int] == sep
            && forall|j: int| 0 <= j < i ==> s@[j] != sep,
        r is None ==> forall|j: int| 0 <= j < s@.len() ==> s@[j] != sep,
{
    let v = chars_of(s);
    let mut i: usize = 0;
    while i < v.len()
        invariant
            v@ == s@,
            i <= v.len(),
            forall|j: int| 0 <= j < i ==> v@[j] != sep,
        decreases v.len() - i,
    {
        if v[i] == sep {
            return Some(i);
        }
        i = i + 1;
    }
    None
}


/// Whether `pat` occurs in `s` at offset `i`.
pub open spec fn occurs_at(s: Seq<char>, pat: Seq<char>, i: int) -> bool {
    0 <= i && i + pat.len() <= s.len() && s.subrange(i, i + pat.len()) == pat
}

/// Whether `pat` occurs somewhere in `s`.
pub open spec fn has_substring(s: Seq<char>, pat: Seq<char>) -> bool {
    exists|i: int| occurs_at(s, pat, i)
}

fn occurs_at_exec(s: &Vec<char>, pat: &Vec<char>, i: usize) -> (r: bool)
    requires
        i + pat.len() <= s.len(),
    ensures
        r == occurs_at(s@, pat@, i as int),
{
    let mut j: usize = 0;
    while j < pat.len()
        invariant
            i + pat.len() <= s.len(),
            j <= pat.len(),
            forall|k: int| 0 <= k < j ==> s@[i + k] == pat@[k],
        decreases pat.len() - j,
    {
        if s[i + j] != pat[j] {
            assert(s@.subrange(i as int, i + pat.len())[j as int] != pat@[j as int]);
            return false;
        }
        j = j + 1;
    }
    assert(s@.subrange(i as int, i + pat.len()) =~= pat@);
    true
}

/// Whether `pat` occurs somewhere in `s`.
pub fn contains_substring(s: &str, pat: &str) -> (r: bool)
    ensures
        r == has_substring(s@, pat@),
{
    let sv = chars_of(s);
    let pv = chars_of(pat);
    if pv.len() > sv.len() {
        return false;
    }
    let last = sv.len() - pv.len();
    let mut i: usize = 0;
    while i <= last
        invariant
            sv@ == s@,
            pv@ == pat@,
            last == sv.len() - pv.len(),
            i <= last + 1,
            forall|k: int| 0 <= k < i ==> !occurs_at(s@, pat@, k),
        decreases last + 1 - i,
    {
        if occurs_at_exec(&sv, &pv, i) {
            return true;
        }
        if i == last {
            return false;
        }
        i = i + 1;
    }
    false
}

/// `a`, `b` and `c` joined.
pub fn concat3(a: &str, b: &str, c: &str) -> (r: String)
    ensures
        r@ == a@ + b@ + c@,
{
    let mut m = a.to_string();
    m.append(b);
    m.append(c);
    m
}

/// The pieces of `s` between occurrences of `sep`, as std's `split` yields
/// them: empty pieces included, and always at least one.
pub open spec fn split_char(s: Seq<char>, sep: char) -> Seq<Seq<char>>
    decreases s.len(),
{
    if s.len() == 0 {
        seq![Seq::<char>::empty()]
    } else {
        let p = split_char(s.drop_last(), sep);
        if s.last() == sep {
            p.push(Seq::<char>::empty())
        } else {
            p.update(p.len() - 1, p.last().push(s.last()))
        }
    }
}

/// Splitting never yields an empty list of pieces.
pub proof fn lemma_split_nonempty(s: Seq<char>, sep: char)
    ensures
        split_char(s, sep).len() >= 1,
    decreases s.len(),
{
    if s.len() > 0 {
        lemma_split_nonempty(s.drop_last(), sep);
    }
}

/// The pieces of `s` between occurrences of `sep`.
pub fn split_str(s: &str, sep: char) -> (r: Vec<String>)
    ensures
        crate::order::strs(r@) == split_char(s@, sep),
{
    let v = chars_of(s);
    let mut pieces: Vec<String> = Vec::new();
    let mut start: usize = 0;
    let mut i: usize = 0;
    assert(s@.take(0) =~= Seq::<char>::empty());
    assert(crate::order::strs(pieces@).push(s@.subrange(0, 0)) =~= split_char(s@.take(0), sep));
    while i < v.len()
        invariant
            v@ == s@,
            start <= i <= v.len(),
            crate::order::strs(pieces@).push(s@.subrange(start as int, i as int)) == split_char(s@.take(i as int), sep),
        decreases v.len() - i,
    {
        let ghost t = s@.take(i + 1);
        assert(t.drop_last() =~= s@.take(i as int));
        proof { lemma_split_nonempty(s@.take(i as int), sep); }
        if v[i] == sep {
            let ghost before = pieces@;
            pieces.push(s.substring_char(start, i).to_string());
            assert(crate::order::strs(pieces@) =~= crate::order::strs(before).push(s@.subrange(start as int, i as int)));
            start = i + 1;
            assert(t.last() == s@[i as int]);
            assert(s@.subrange(start as int, i + 1) =~= Seq::<char>::empty());
            assert(split_char(t, sep) == split_char(s@.take(i as int), sep).push(Seq::<char>::empty()));
            assert(crate::order::strs(pieces@).push(s@.subrange(start as int, i + 1)) =~= split_char(t, sep));
        } else {
            assert(s@.subrange(start as int, i + 1) =~= s@.subrange(start as int, i as int).push(s@[i as int]));
            assert(t.last() == s@[i as int]);
            let ghost p = split_char(s@.take(i as int), sep);
            assert(split_char(t, sep) == p.update(p.len() - 1, p.last().push(t.last())));
            assert(crate::order::strs(pieces@).push(s@.subrange(start as int, i + 1)) =~= split_char(t, sep));
        }
        i = i + 1;
    }
    let ghost before = pieces@;
    pieces.push(s.substring_char(start, v.len()).to_string());
    assert(crate::order::strs(pieces@) =~= crate::order::strs(before).push(s@.subrange(start as int, i as int)));
    assert(s@.take(i as int) =~= s@);
    pieces
}

/// What precedes the first `sep` in `s`, or all of `s`.
pub open spec fn before_char(s: Seq<char>, sep: char) -> Seq<char> {
    match find_char(s, sep) {
        Some(i) => s.take(i),
        None => s,
    }
}

/// The view of an optional string.
pub open spec fn opt_view(o: Option<String>) -> Option<Seq<char>> {
    match o {
        Some(s) => Some(s@),
        None => None,
    }
}

/// Clone of an optional string.
pub fn clone_opt(o: &Option<String>) -> (r: Option<String>)
    ensures
        opt_view(r) == opt_view(*o),
{
    match o {
        Some(s) => Some(s.clone()),
        None => None,
    }
}

/// The view of a result whose error is a string.
pub open spec fn result_view<T>(r: Result<T, String>) -> Result<T, Seq<char>> {
    match r {
        Ok(v) => Ok(v),
        Err(e) => Err(e@),
    }
}

/// What std's integer parsing reports when it scans `body` (after an
/// optional `+`) from the left, having read the value `acc`: the first
/// character that is no digit, or the first digit past `max`; empty when
/// nothing is wrong.
pub open spec fn scan_error(body: Seq<char>, acc: nat, max: nat) -> Seq<char>
    decreases body.len(),
{
    if body.len() == 0 {
        Seq::empty()
    } else {
        match digit_value(body[0], 10) {
            None => "invalid digit found in string"@,
            Some(d) => if acc * 10 + d > max {
                "number too large to fit in target type"@
            } else {
                scan_error(body.drop_first(), acc * 10 + d, max)
            },
        }
    }
}

/// The message of std's error for a decimal integer of at most `max` that
/// `s` does not hold.
pub open spec fn int_error_text(s: Seq<char>, max: nat) -> Seq<char> {
    if s.len() == 0 {
        "cannot parse integer from empty string"@
    } else if unsigned_body(s).len() == 0 {
        "invalid digit found in string"@
    } else {
        scan_error(unsigned_body(s), 0, max)
    }
}

/// Reads a decimal integer of at most `max` as std does, or gives the
/// message of std's error.
pub fn parse_decimal_or_error(s: &str, max: u64) -> (r: Result<u64, String>)
    ensures
        match r {
            Ok(v) => parse_unsigned(s@, 10, max as nat) == Some(v as nat),
            Err(e) => parse_unsigned(s@, 10, max as nat) is None && e@ == int_error_text(s@, max as nat),
        },
{
    let chars = chars_of(s);
    if chars.len() == 0 {
        return Err("cannot parse integer from empty string".to_string());
    }
    let start: usize = if chars[0] == '+' { 1 } else { 0 };
    let ghost body = unsigned_body(s@);
    assert(body =~= chars@.subrange(start as int, chars@.len() as int));
    if start >= chars.len() {
        return Err("invalid digit found in string".to_string());
    }
    let mut acc: u64 = 0;
    let mut i: usize = start;
    assert(body.skip(0) =~= body);
    assert(body.take(0) =~= Seq::<char>::empty());
    while i < chars.len()
        invariant
            start <= i <= chars.len(),
            start < chars.len(),
            body =~= chars@.subrange(start as int, chars@.len() as int),
            body == unsigned_body(s@),
            s@.len() > 0,
            body.len() > 0,
            all_digits(body.take(i - start), 10),
            acc as nat == digits_value(body.take(i - start), 10),
            acc <= max,
            int_error_text(s@, max as nat) == scan_error(body.skip(i - start), acc as nat, max as nat),
        decreases chars.len() - i,
    {
        let ghost k = i - start;
        assert(body.take(k + 1).drop_last() =~= body.take(k));
        assert(body.take(k + 1).last() == chars@[i as int]);
        assert(body.skip(k)[0] == chars@[i as int]);
        assert(body.skip(k).drop_first() =~= body.skip(k + 1));
        let c = chars[i];
        let u = c as u32;
        if !(48 <= u && u <= 57) {
            assert(digit_value(body[k], 10) is None);
            assert(!all_digits(body, 10));
            return Err("invalid digit found in string".to_string());
        }
        let dv: u64 = (u - 48) as u64;
        assert(digit_value(c, 10) == Some(dv as nat));
        if dv > max || acc > (max - dv) / 10 {
            proof {
                if dv <= max {
                    assert(acc * 10 + dv > max) by (nonlinear_arith)
                        requires acc > (max - dv) / 10, dv <= max;
                }
                assert(acc * 10 + dv > max) by (nonlinear_arith)
                    requires dv > max || acc * 10 + dv > max, acc >= 0;
                assert(digits_value(body.take(k + 1), 10) == digits_value(body.take(k), 10) * 10 + dv);
                lemma_digits_value_prefix(body, k + 1, 10);
            }
            return Err("number too large to fit in target type".to_string());
        }
        proof {
            assert(acc * 10 + dv <= max) by (nonlinear_arith)
                requires acc <= (max - dv) / 10, dv <= max;
        }
        acc = acc * 10 + dv;
        i = i + 1;
        assert forall|j: int| 0 <= j < body.take(i - start).len() implies
            (#[trigger] digit_value(body.take(i - start)[j], 10)) is Some by {
            if j < k {
                assert(body.take(i - start)[j] == body.take(k)[j]);
            }
        }
    }
    assert(body.take(i - start) =~= body);
    Ok(acc)
}

/// The strings of `s` joined with `sep` between them.
pub open spec fn join(s: Seq<Seq<char>>, sep: Seq<char>) -> Seq<char>
    decreases s.len(),
{
    if s.len() == 0 {
        Seq::empty()
    } else if s.len() == 1 {
        s[0]
    } else {
        join(s.drop_last(), sep) + sep + s.last()
    }
}

/// The strings of `v` joined with `sep` between them.
pub fn join_strings(v: &Vec<String>, sep: &str) -> (r: String)
    ensures
        r@ == join(crate::order::strs(v@), sep@),
{
    let ghost s = crate::order::strs(v@);
    let mut r = String::new();
    let mut i: usize = 0;
    assert(s.take(0) =~= Seq::<Seq<char>>::empty());
    while i < v.len()
        invariant
            i <= v.len(),
            s == crate::order::strs(v@),
            r@ == join(s.take(i as int), sep@),
        decreases v.len() - i,
    {
        assert(s.take(i + 1).drop_last() =~= s.take(i as int));
        if i > 0 {
            r.append(sep);
        }
        r.append(v[i].as_str());
        proof {
            if i == 0 {
                assert(r@ =~= s.take(1)[0]);
            }
        }
        i = i + 1;
    }
    assert(s.take(i as int) =~= s);
    r
}

/// `true` or `false`, as a `bool` is displayed.
pub open spec fn bool_text(b: bool) -> Seq<char> {
    if b { "true"@ } else { "false"@ }
}

/// The decimal rendering of `n` is a string of digits that reads back as `n`.
pub proof fn lemma_decimal_reads_back(n: nat)
    ensures
        decimal(n).len() >= 1,
        all_digits(decimal(n), 10),
        digits_value(decimal(n), 10) == n,
        ascii_lowercase(decimal(n)) == decimal(n),
        forall|i: int| 0 <= i < decimal(n).len() ==> 48 <= (#[trigger] decimal(n)[i] as u32) <= 57,
    decreases n,
{
    if n >= 10 {
        lemma_decimal_reads_back(n / 10);
        let d = decimal(n);
        assert(d.drop_last() =~= decimal(n / 10));
        assert forall|i: int| 0 <= i < d.len() implies 48 <= (#[trigger] d[i] as u32) <= 57 by {
            if i < d.len() - 1 {
                assert(d[i] == decimal(n / 10)[i]);
            }
        }
        assert forall|i: int| 0 <= i < d.len() implies (#[trigger] digit_value(d[i], 10)) is Some by {
            assert(48 <= (d[i] as u32) <= 57);
        }
        assert(digit_value(digit_char(n % 10), 10) == Some(n % 10));
        assert(d.last() == digit_char(n % 10));
        assert(digits_value(d, 10) == digits_value(decimal(n / 10), 10) * 10 + n % 10);
        assert((n / 10) * 10 + n % 10 == n) by (nonlinear_arith);
        assert(digits_value(d, 10) == n);
    } else {
        assert(digit_value(digit_char(n), 10) == Some(n));
        assert(decimal(n).drop_last() =~= Seq::<char>::empty());
        assert(decimal(n).last() == digit_char(n));
        assert forall|i: int| 0 <= i < decimal(n).len() implies (#[trigger] digit_value(decimal(n)[i], 10)) is Some by {
            assert(i == 0);
        }
        assert(digits_value(Seq::<char>::empty(), 10) == 0);
        assert(digits_value(decimal(n), 10) == digits_value(decimal(n).drop_last(), 10) * 10 + n);
        assert(digits_value(decimal(n), 10) == n);
    }
    assert(ascii_lowercase(decimal(n)) =~= decimal(n)) by {
        assert forall|i: int| 0 <= i < decimal(n).len() implies
            ascii_lowercase(decimal(n))[i] == decimal(n)[i] by {
            assert(48 <= (decimal(n)[i] as u32) <= 57);
        }
    }
}

/// A decimal rendering is read back by `parse_unsigned` when it fits.
pub proof fn lemma_parse_decimal(n: nat, max: nat)
    requires
        n <= max,
    ensures
        parse_unsigned(decimal(n), 10, max) == Some(n),
{
    lemma_decimal_reads_back(n);
    assert(decimal(n)[0] != '+') by {
        assert(48 <= (decimal(n)[0] as u32) <= 57);
    }
}

} // verus!
