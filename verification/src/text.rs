//! Text: the few operations on strings that the rest of the crate is stated in.

use vstd::prelude::*;

verus! {

/// `String::push`: appends the given char to the end of the string.
pub assume_specification[ String::push ](s: &mut String, c: char)
    ensures
        final(s)@ == old(s)@.push(c),
;

// ---------------------------------------------------------------------------
// Numbers
// ---------------------------------------------------------------------------

/// The decimal digit `d`.
pub open spec fn digit(d: nat) -> char
    recommends
        d < 10,
{
    (48 + d) as char
}

/// `n` in decimal, without leading zeros.
pub open spec fn decimal(n: nat) -> Seq<char>
    decreases n,
{
    if n < 10 {
        seq![digit(n)]
    } else {
        decimal(n / 10).push(digit(n % 10))
    }
}

/// Appends `n` in decimal.
pub fn push_decimal(out: &mut String, n: u64)
    ensures
        final(out)@ == old(out)@ + decimal(n as nat),
    decreases n,
{
    if n >= 10 {
        push_decimal(out, n / 10);
    }
    let c: char = (48 + (n % 10) as u8) as char;
    proof {
        assert(c == digit((n % 10) as nat));
    }
    out.push(c);
    proof {
        assert(out@ =~= old(out)@ + decimal(n as nat));
    }
}

/// `n` in decimal.
pub fn decimal_text(n: u64) -> (r: String)
    ensures
        r@ == decimal(n as nat),
{
    let mut out = String::new();
    push_decimal(&mut out, n);
    proof {
        assert(out@ =~= decimal(n as nat));
    }
    out
}

/// The characters of `s`.
pub fn chars_of(s: &str) -> (r: Vec<char>)
    ensures
        r@ == s@,
{
    let mut r: Vec<char> = Vec::new();
    for c in it: s.chars()
        invariant
            r@ =~= s@.take(it.index() as int),
            it.seq() == s@,
    {
        r.push(c);
    }
    proof {
        assert(s@.take(s@.len() as int) =~= s@);
    }
    r
}


/// The characters `from..to` of `s`, as a string.
pub fn text_of(s: &Vec<char>, from: usize, to: usize) -> (r: String)
    requires
        from <= to <= s@.len(),
    ensures
        r@ == s@.subrange(from as int, to as int),
{
    let mut out = String::new();
    let mut i: usize = from;
    while i < to
        invariant
            from <= i <= to <= s@.len(),
            out@ =~= s@.subrange(from as int, i as int),
        decreases to - i,
    {
        out.push(s[i]);
        i = i + 1;
    }
    out
}

/// Whether `a` and `b` hold the same characters.
pub fn same(a: &str, b: &str) -> (r: bool)
    ensures
        r == (a@ == b@),
{
    a.to_owned() == b.to_owned()
}

/// What each of `v` holds.
pub open spec fn texts(v: Seq<String>) -> Seq<Seq<char>> {
    v.map_values(|s: String| s@)
}

/// What `t` holds, if it is there.
pub open spec fn opt_text(t: Option<String>) -> Option<Seq<char>> {
    match t {
        Some(s) => Some(s@),
        None => None,
    }
}

/// A copy of `t`.
pub fn copy_opt(t: &Option<String>) -> (r: Option<String>)
    ensures
        r == *t,
{
    match t {
        Some(s) => Some(s.clone()),
        None => None,
    }
}

/// A copy of `v`.
pub fn copy_texts(v: &Vec<String>) -> (r: Vec<String>)
    ensures
        r@ == v@,
{
    let mut r: Vec<String> = Vec::new();
    let mut i: usize = 0;
    while i < v.len()
        invariant
            i <= v@.len(),
            r@ =~= v@.take(i as int),
        decreases v@.len() - i,
    {
        r.push(v[i].clone());
        i = i + 1;
    }
    r
}

// ---------------------------------------------------------------------------
// Searching
// ---------------------------------------------------------------------------

/// Where `c` first stands in `s` at or after `from`, or the length of `s`.
pub open spec fn first_from(s: Seq<char>, c: char, from: int) -> int
    decreases s.len() - from,
{
    if from < 0 || from >= s.len() {
        s.len() as int
    } else if s[from] == c {
        from
    } else {
        first_from(s, c, from + 1)
    }
}

/// Where `c` first stands in `s`, or the length of `s`.
pub open spec fn first_of(s: Seq<char>, c: char) -> int {
    first_from(s, c, 0)
}

/// Where `c` last stands in `s` before `to`, or -1.
pub open spec fn last_before(s: Seq<char>, c: char, to: int) -> int
    decreases to,
{
    if to <= 0 || to > s.len() {
        -1
    } else if s[to - 1] == c {
        to - 1
    } else {
        last_before(s, c, to - 1)
    }
}

/// Where `c` last stands in `s`, or -1.
pub open spec fn last_of(s: Seq<char>, c: char) -> int {
    last_before(s, c, s.len() as int)
}

/// Where `c` first stands at or after `from`.
pub fn find_from(s: &Vec<char>, c: char, from: usize) -> (r: usize)
    requires
        from <= s@.len(),
    ensures
        r == first_from(s@, c, from as int),
        from <= r <= s@.len(),
        r < s@.len() ==> s@[r as int] == c,
{
    let mut i: usize = from;
    while i < s.len()
        invariant
            from <= i <= s@.len(),
            first_from(s@, c, from as int) == first_from(s@, c, i as int),
        decreases s@.len() - i,
    {
        if s[i] == c {
            return i;
        }
        i = i + 1;
    }
    i
}

/// Where `c` last stands.
pub fn find_last(s: &Vec<char>, c: char) -> (r: Option<usize>)
    ensures
        match r {
            Some(i) => i < s@.len() && i == last_of(s@, c) && s@[i as int] == c,
            None => last_of(s@, c) == -1,
        },
{
    let mut i: usize = s.len();
    while i > 0
        invariant
            i <= s@.len(),
            last_of(s@, c) == last_before(s@, c, i as int),
        decreases i,
    {
        if s[i - 1] == c {
            return Some(i - 1);
        }
        i = i - 1;
    }
    None
}

/// Whether `s` begins with `p`.
pub fn starts_with(s: &str, p: &str) -> (r: bool)
    ensures
        r == p@.is_prefix_of(s@),
{
    let a = chars_of(s);
    let b = chars_of(p);
    if b.len() > a.len() {
        return false;
    }
    let mut i: usize = 0;
    while i < b.len()
        invariant
            a@ == s@,
            b@ == p@,
            i <= b@.len() <= a@.len(),
            b@.take(i as int) =~= a@.take(i as int),
        decreases b@.len() - i,
    {
        if a[i] != b[i] {
            proof {
                if p@.is_prefix_of(s@) {
                    assert(p@[i as int] == s@.subrange(0, p@.len() as int)[i as int]);
                }
            }
            return false;
        }
        i = i + 1;
    }
    proof {
        assert(p@ =~= s@.subrange(0, p@.len() as int)) by {
            assert(b@.take(b@.len() as int) =~= b@);
            assert(a@.take(b@.len() as int) =~= a@.subrange(0, b@.len() as int));
        }
    }
    true
}

// ---------------------------------------------------------------------------
// Whitespace
// ---------------------------------------------------------------------------

/// The characters with the Unicode property White_Space.
pub open spec fn white(c: char) -> bool {
    ||| 0x9 <= c as u32 <= 0xd
    ||| c as u32 == 0x20
    ||| c as u32 == 0x85
    ||| c as u32 == 0xa0
    ||| c as u32 == 0x1680
    ||| 0x2000 <= c as u32 <= 0x200a
    ||| c as u32 == 0x2028
    ||| c as u32 == 0x2029
    ||| c as u32 == 0x202f
    ||| c as u32 == 0x205f
    ||| c as u32 == 0x3000
}

/// Whether `c` is whitespace.
pub fn is_white(c: char) -> (r: bool)
    ensures
        r == white(c),
{
    let n: u32 = c as u32;
    (0x9 <= n && n <= 0xd) || n == 0x20 || n == 0x85 || n == 0xa0 || n == 0x1680 || (0x2000 <= n
        && n <= 0x200a) || n == 0x2028 || n == 0x2029 || n == 0x202f || n == 0x205f || n == 0x3000
}

/// `s` without the whitespace it begins with.
pub open spec fn trim_start(s: Seq<char>) -> Seq<char>
    decreases s.len(),
{
    if s.len() > 0 && white(s[0]) {
        trim_start(s.skip(1))
    } else {
        s
    }
}

/// `s` without the whitespace it ends with.
pub open spec fn trim_end(s: Seq<char>) -> Seq<char>
    decreases s.len(),
{
    if s.len() > 0 && white(s.last()) {
        trim_end(s.drop_last())
    } else {
        s
    }
}

/// `s` without the whitespace around it.
pub open spec fn trimmed(s: Seq<char>) -> Seq<char> {
    trim_end(trim_start(s))
}

/// `s` without the whitespace around it.
pub fn trim(s: &str) -> (r: String)
    ensures
        r@ == trimmed(s@),
{
    let v = chars_of(s);
    let mut i: usize = 0;
    proof {
        assert(v@.skip(0) =~= v@);
    }
    while i < v.len() && is_white(v[i])
        invariant
            i <= v@.len(),
            trim_start(v@) == trim_start(v@.skip(i as int)),
        decreases v@.len() - i,
    {
        proof {
            assert(v@.skip(i as int).skip(1) =~= v@.skip(i + 1));
        }
        i = i + 1;
    }
    let mut j: usize = v.len();
    proof {
        assert(v@.skip(i as int) =~= v@.subrange(i as int, j as int));
        assert(trim_start(v@) == v@.subrange(i as int, j as int));
    }
    while j > i && is_white(v[j - 1])
        invariant
            i <= j <= v@.len(),
            trimmed(v@) == trim_end(v@.subrange(i as int, j as int)),
        decreases j,
    {
        proof {
            assert(v@.subrange(i as int, j as int).drop_last() =~= v@.subrange(i as int, j - 1));
        }
        j = j - 1;
    }
    text_of(&v, i, j)
}

// ---------------------------------------------------------------------------
// Building
// ---------------------------------------------------------------------------

/// `parts` one after the other, with `sep` between them.
pub open spec fn joined(parts: Seq<Seq<char>>, sep: Seq<char>) -> Seq<char>
    decreases parts.len(),
{
    if parts.len() == 0 {
        Seq::empty()
    } else if parts.len() == 1 {
        parts[0]
    } else {
        joined(parts.drop_last(), sep) + sep + parts.last()
    }
}

/// `parts` one after the other, with `sep` between them.
pub fn join(parts: &Vec<String>, sep: &str) -> (r: String)
    ensures
        r@ == joined(texts(parts@), sep@),
{
    let mut out = String::new();
    let mut i: usize = 0;
    while i < parts.len()
        invariant
            i <= parts@.len(),
            out@ =~= joined(texts(parts@).take(i as int), sep@),
        decreases parts@.len() - i,
    {
        proof {
            assert(texts(parts@).take(i + 1).drop_last() =~= texts(parts@).take(i as int));
        }
        if i > 0 {
            out.append(sep);
        }
        out.append(parts[i].as_str());
        i = i + 1;
    }
    proof {
        assert(texts(parts@).take(parts@.len() as int) =~= texts(parts@));
    }
    out
}

/// `parts` one after the other.
pub open spec fn concat(parts: Seq<Seq<char>>) -> Seq<char>
    decreases parts.len(),
{
    if parts.len() == 0 {
        Seq::empty()
    } else {
        concat(parts.drop_last()) + parts.last()
    }
}

/// Putting a part in front puts it in front of the whole.
pub proof fn lemma_joined_front(head: Seq<char>, rest: Seq<Seq<char>>, sep: Seq<char>)
    requires
        rest.len() > 0,
    ensures
        joined(seq![head] + rest, sep) == head + sep + joined(rest, sep),
    decreases rest.len(),
{
    let all = seq![head] + rest;
    assert(all.drop_last() =~= seq![head] + rest.drop_last());
    if rest.len() == 1 {
        assert(all.drop_last() =~= seq![head]);
        assert(joined(all.drop_last(), sep) == head);
        assert(joined(all, sep) =~= head + sep + joined(rest, sep));
    } else {
        lemma_joined_front(head, rest.drop_last(), sep);
        assert(joined(all, sep) =~= head + sep + joined(rest, sep));
    }
}

/// `part` as a path under `base`.
pub open spec fn under(base: Seq<char>, part: Seq<char>) -> Seq<char> {
    if base.len() == 0 || base.last() == '/' {
        base + part
    } else {
        base + "/"@ + part
    }
}

/// `part` as a path under `base`.
pub fn join_path(base: &str, part: &str) -> (r: String)
    ensures
        r@ == under(base@, part@),
{
    let n: usize = base.unicode_len();
    let mut out = base.to_owned();
    if n > 0 && base.get_char(n - 1) != '/' {
        out.append("/");
    }
    out.append(part);
    out
}

/// `n` spaces.
pub open spec fn spaces(n: int) -> Seq<char> {
    Seq::new(n as nat, |i: int| ' ')
}

/// `s` followed by as many spaces as it takes to be `width` characters long.
pub open spec fn padded(s: Seq<char>, width: int) -> Seq<char> {
    if s.len() >= width {
        s
    } else {
        s + spaces(width - s.len())
    }
}

/// Appends `s`, and spaces up to a width of `width` characters.
pub fn push_padded(out: &mut String, s: &str, width: usize)
    ensures
        final(out)@ == old(out)@ + padded(s@, width as int),
{
    out.append(s);
    let mut n: usize = s.unicode_len();
    let ghost start = n as int;
    while n < width
        invariant
            start <= n,
            start < width ==> n <= width,
            start >= width ==> n == start,
            out@ =~= old(out)@ + s@ + spaces(n - start),
        decreases width - n,
    {
        out.push(' ');
        n = n + 1;
    }
    proof {
        assert(out@ =~= old(out)@ + padded(s@, width as int));
    }
}

// ---------------------------------------------------------------------------
// Reading numbers
// ---------------------------------------------------------------------------

/// Whether `c` is a decimal digit.
pub open spec fn is_digit(c: char) -> bool {
    48 <= c as u32 <= 57
}

/// Whether `s` holds decimal digits alone.
pub open spec fn all_digits(s: Seq<char>) -> bool {
    forall|i: int| 0 <= i < s.len() ==> is_digit(#[trigger] s[i])
}

/// The number that the digits `s` stand for.
pub open spec fn number(s: Seq<char>) -> nat
    decreases s.len(),
{
    if s.len() == 0 {
        0
    } else {
        number(s.drop_last()) * 10 + (s.last() as u32 - 48) as nat
    }
}

/// What `s` says as a port: decimal digits, after a `+` if there is one, for a
/// number below 65536.
pub open spec fn port_of(s: Seq<char>) -> Option<u16> {
    let body = if s.len() > 0 && s[0] == '+' {
        s.skip(1)
    } else {
        s
    };
    if body.len() > 0 && all_digits(body) && number(body) < 0x10000 {
        Some(number(body) as u16)
    } else {
        None
    }
}

proof fn lemma_number_grows(s: Seq<char>, i: int)
    requires
        0 <= i <= s.len(),
    ensures
        number(s.take(i)) <= number(s),
    decreases s.len(),
{
    if i < s.len() {
        lemma_number_grows(s.drop_last(), i);
        assert(s.drop_last().take(i) =~= s.take(i));
    } else {
        assert(s.take(i) =~= s);
    }
}

/// Reads `s` as a port.
pub fn read_port(s: &str) -> (r: Option<u16>)
    ensures
        r == port_of(s@),
{
    let v = chars_of(s);
    let start: usize = if v.len() > 0 && v[0] == '+' {
        1
    } else {
        0
    };
    let ghost body = v@.skip(start as int);
    proof {
        assert(v@.skip(0) =~= v@);
    }
    if v.len() == start {
        return None;
    }
    let mut n: u32 = 0;
    let mut i: usize = start;
    while i < v.len()
        invariant
            start <= i <= v@.len(),
            v@ == s@,
            start == (if v@.len() > 0 && v@[0] == '+' {
                1int
            } else {
                0int
            }),
            start == 0 ==> body == v@,
            body == v@.skip(start as int),
            n < 0x10000,
            n == number(body.take(i - start)),
            forall|j: int| 0 <= j < i - start ==> is_digit(#[trigger] body[j]),
        decreases v@.len() - i,
    {
        let c: u32 = v[i] as u32;
        proof {
            assert(body[i - start] == v@[i as int]);
            assert(body.take(i - start + 1).drop_last() =~= body.take(i - start));
            lemma_number_grows(body, i - start + 1);
        }
        if c < 48 || c > 57 {
            proof {
                assert(!is_digit(body[i - start]));
                assert(!all_digits(body));
            }
            return None;
        }
        n = n * 10 + (c - 48);
        if n >= 0x10000 {
            return None;
        }
        i = i + 1;
    }
    proof {
        assert(body.take(body.len() as int) =~= body);
    }
    Some(n as u16)
}

// ---------------------------------------------------------------------------
// Hexadecimal
// ---------------------------------------------------------------------------

/// The hexadecimal digit `d`, in lower case.
pub open spec fn hex_digit(d: int) -> char {
    if d < 10 {
        (48 + d) as char
    } else {
        (87 + d) as char
    }
}

/// `bytes` in hexadecimal, two lower-case digits each.
pub open spec fn hex(bytes: Seq<u8>) -> Seq<char>
    decreases bytes.len(),
{
    if bytes.len() == 0 {
        Seq::empty()
    } else {
        hex(bytes.drop_last()).push(hex_digit(bytes.last() as int / 16)).push(
            hex_digit(bytes.last() as int % 16),
        )
    }
}

fn hex_char(d: u8) -> (r: char)
    requires
        d < 16,
    ensures
        r == hex_digit(d as int),
{
    if d < 10 {
        (48 + d) as char
    } else {
        (87 + d) as char
    }
}

/// `bytes` in hexadecimal.
pub fn hex_text(bytes: &Vec<u8>) -> (r: String)
    ensures
        r@ == hex(bytes@),
{
    let mut out = String::new();
    let mut i: usize = 0;
    while i < bytes.len()
        invariant
            i <= bytes@.len(),
            out@ == hex(bytes@.take(i as int)),
        decreases bytes@.len() - i,
    {
        proof {
            assert(bytes@.take(i + 1).drop_last() =~= bytes@.take(i as int));
        }
        out.push(hex_char(bytes[i] / 16));
        out.push(hex_char(bytes[i] % 16));
        i = i + 1;
    }
    proof {
        assert(bytes@.take(bytes@.len() as int) =~= bytes@);
    }
    out
}

// ---------------------------------------------------------------------------
// What can be relied on
// ---------------------------------------------------------------------------

/// Where a character is found: it stands there, and nowhere before, and where it is
/// not found it stands nowhere.
pub proof fn the_first_is_found(s: Seq<char>, c: char, from: int)
    requires
        0 <= from <= s.len(),
    ensures
        from <= first_from(s, c, from) <= s.len(),
        forall|i: int| from <= i < first_from(s, c, from) ==> s[i] != c,
        first_from(s, c, from) < s.len() ==> s[first_from(s, c, from)] == c,
    decreases s.len() - from,
{
    if from < s.len() && s[from] != c {
        the_first_is_found(s, c, from + 1);
    }
}

proof fn lemma_last_before(s: Seq<char>, c: char, to: int)
    requires
        0 <= to <= s.len(),
    ensures
        -1 <= last_before(s, c, to) < to || last_before(s, c, to) == -1,
        forall|i: int| last_before(s, c, to) < i < to ==> s[i] != c,
        last_before(s, c, to) >= 0 ==> s[last_before(s, c, to)] == c,
    decreases to,
{
    if to > 0 && s[to - 1] != c {
        lemma_last_before(s, c, to - 1);
    }
}

/// Where a character is found last: it stands there, and nowhere after, and where it
/// is not found it stands nowhere.
pub proof fn the_last_is_found(s: Seq<char>, c: char)
    ensures
        -1 <= last_of(s, c) < s.len(),
        forall|i: int| last_of(s, c) < i < s.len() ==> s[i] != c,
        last_of(s, c) >= 0 ==> s[last_of(s, c)] == c,
{
    lemma_last_before(s, c, s.len() as int);
}

proof fn lemma_trim_start_split(s: Seq<char>)
    ensures
        exists|n: int|
            0 <= n <= s.len() && #[trigger] s.skip(n) == trim_start(s) && forall|i: int|
                0 <= i < n ==> white(#[trigger] s[i]),
        trim_start(s).len() > 0 ==> !white(trim_start(s)[0]),
    decreases s.len(),
{
    if s.len() > 0 && white(s[0]) {
        let t = s.skip(1);
        lemma_trim_start_split(t);
        let n = choose|n: int|
            0 <= n <= t.len() && #[trigger] t.skip(n) == trim_start(t) && forall|i: int|
                0 <= i < n ==> white(#[trigger] t[i]);
        assert(s.skip(n + 1) =~= t.skip(n));
        assert forall|i: int| 0 <= i < n + 1 implies white(#[trigger] s[i]) by {
            if i > 0 {
                assert(s[i] == t[i - 1]);
            }
        }
        assert(s.skip(n + 1) == trim_start(s));
    } else {
        assert(s.skip(0) =~= s);
    }
}

proof fn lemma_trim_end_split(s: Seq<char>)
    ensures
        exists|n: int|
            0 <= n <= s.len() && #[trigger] s.take(n) == trim_end(s) && forall|i: int|
                n <= i < s.len() ==> white(#[trigger] s[i]),
        trim_end(s).len() > 0 ==> !white(trim_end(s).last()),
    decreases s.len(),
{
    if s.len() > 0 && white(s.last()) {
        let t = s.drop_last();
        lemma_trim_end_split(t);
        let n = choose|n: int|
            0 <= n <= t.len() && #[trigger] t.take(n) == trim_end(t) && forall|i: int|
                n <= i < t.len() ==> white(#[trigger] t[i]);
        assert(s.take(n) =~= t.take(n));
        assert forall|i: int| n <= i < s.len() implies white(#[trigger] s[i]) by {
            if i < t.len() {
                assert(s[i] == t[i]);
            }
        }
        assert(s.take(n) == trim_end(s));
    } else {
        assert(s.take(s.len() as int) =~= s);
    }
}

/// Trimming takes whitespace from the ends, all of it, and nothing else: what was cut
/// off is white, and what is left begins and ends with something that is not.
pub proof fn trimming_takes_whitespace_from_the_ends(s: Seq<char>) -> (ends: (int, int))
    ensures
        0 <= ends.0 <= ends.1 <= s.len(),
        trimmed(s) == s.subrange(ends.0, ends.1),
        forall|i: int| 0 <= i < ends.0 ==> white(#[trigger] s[i]),
        forall|i: int| ends.1 <= i < s.len() ==> white(#[trigger] s[i]),
        trimmed(s).len() > 0 ==> !white(trimmed(s)[0]) && !white(trimmed(s).last()),
{
    lemma_trim_start_split(s);
    let a = choose|n: int|
        0 <= n <= s.len() && #[trigger] s.skip(n) == trim_start(s) && forall|i: int|
            0 <= i < n ==> white(#[trigger] s[i]);
    let t = s.skip(a);
    lemma_trim_end_split(t);
    let n = choose|n: int|
        0 <= n <= t.len() && #[trigger] t.take(n) == trim_end(t) && forall|i: int|
            n <= i < t.len() ==> white(#[trigger] t[i]);
    assert(t.take(n) =~= s.subrange(a, a + n));
    assert forall|i: int| a + n <= i < s.len() implies white(#[trigger] s[i]) by {
        assert(s[i] == t[i - a]);
    }
    if n > 0 {
        assert(t.take(n)[0] == t[0]);
    }
    (a, a + n)
}

/// What has no whitespace at its ends is left as it is, whatever whitespace is put
/// around it.
pub proof fn whitespace_around_makes_no_difference(
    before: Seq<char>,
    core: Seq<char>,
    after: Seq<char>,
)
    requires
        forall|i: int| 0 <= i < before.len() ==> white(#[trigger] before[i]),
        forall|i: int| 0 <= i < after.len() ==> white(#[trigger] after[i]),
        core.len() > 0,
        !white(core[0]),
        !white(core.last()),
    ensures
        trimmed(before + core + after) == core,
{
    let s = before + core + after;
    let ends = trimming_takes_whitespace_from_the_ends(s);
    let a = before.len() as int;
    let b = a + core.len();
    assert(s[a] == core[0]);
    assert(s[b - 1] == core.last());
    assert(ends.0 <= a);
    assert(ends.1 >= b);
    if ends.0 < a {
        assert(trimmed(s)[0] == s[ends.0]);
        assert(s[ends.0] == before[ends.0]);
    }
    if ends.1 > b {
        assert(trimmed(s).last() == s[ends.1 - 1]);
        assert(s[ends.1 - 1] == after[ends.1 - 1 - b]);
    }
    assert(s.subrange(a, b) =~= core);
}

/// Joining one part gives that part.
pub proof fn one_part_is_joined_as_it_is(part: Seq<char>, sep: Seq<char>)
    ensures
        joined(seq![part], sep) == part,
        joined(Seq::empty(), sep) == Seq::<char>::empty(),
{
}

/// Joining parts puts the separator between them, once, and loses none of them:
/// wherever a list is split, the two halves are joined with the separator between.
pub proof fn joining_splits_anywhere(a: Seq<Seq<char>>, b: Seq<Seq<char>>, sep: Seq<char>)
    requires
        a.len() > 0,
        b.len() > 0,
    ensures
        joined(a + b, sep) == joined(a, sep) + sep + joined(b, sep),
    decreases b.len(),
{
    let all = a + b;
    if b.len() == 1 {
        assert(all.drop_last() =~= a);
        assert(joined(all, sep) =~= joined(a, sep) + sep + joined(b, sep));
    } else {
        assert(all.drop_last() =~= a + b.drop_last());
        joining_splits_anywhere(a, b.drop_last(), sep);
        assert(joined(all, sep) =~= joined(a, sep) + sep + joined(b, sep));
    }
}

/// Parts one after the other are all there, in order: wherever a list is split, the
/// two halves follow each other.
pub proof fn parts_follow_each_other(a: Seq<Seq<char>>, b: Seq<Seq<char>>)
    ensures
        concat(a + b) == concat(a) + concat(b),
    decreases b.len(),
{
    if b.len() == 0 {
        assert(a + b =~= a);
        assert(concat(a) + concat(b) =~= concat(a));
    } else {
        assert((a + b).drop_last() =~= a + b.drop_last());
        parts_follow_each_other(a, b.drop_last());
        assert(concat(a + b) =~= concat(a) + concat(b));
    }
}

/// One part is as it is.
pub proof fn one_part_follows_nothing(part: Seq<char>)
    ensures
        concat(seq![part]) == part,
        concat(Seq::empty()) == Seq::<char>::empty(),
{
    assert(seq![part].drop_last() =~= Seq::empty());
    assert(concat(seq![part].drop_last()) =~= Seq::<char>::empty());
    assert(concat(seq![part]) =~= part);
}

/// Whether `part` stands in `text`.
pub open spec fn holds(text: Seq<char>, part: Seq<char>) -> bool {
    exists|before: Seq<char>, after: Seq<char>| text == #[trigger] (before + part + after)
}

/// Every one of the parts stands in the whole.
pub proof fn every_part_is_there(parts: Seq<Seq<char>>, i: int)
    requires
        0 <= i < parts.len(),
    ensures
        holds(concat(parts), parts[i]),
{
    let a = parts.take(i);
    let b = parts.skip(i + 1);
    assert(parts =~= a + seq![parts[i]] + b);
    parts_follow_each_other(a + seq![parts[i]], b);
    parts_follow_each_other(a, seq![parts[i]]);
    one_part_follows_nothing(parts[i]);
    assert(concat(parts) == concat(a) + parts[i] + concat(b));
}

/// A longer text holds what a part of it holds.
pub proof fn what_is_held_stays_held(
    left: Seq<char>,
    text: Seq<char>,
    right: Seq<char>,
    part: Seq<char>,
)
    requires
        holds(text, part),
    ensures
        holds(left + text + right, part),
{
    let (before, after) = choose|before: Seq<char>, after: Seq<char>|
        text == #[trigger] (before + part + after);
    assert(left + text + right =~= (left + before) + part + (after + right));
}

/// Padding puts spaces after a text until it is wide enough, and changes none of it.
pub proof fn padding_adds_spaces_only(s: Seq<char>, width: int)
    ensures
        padded(s, width).len() == if s.len() >= width {
            s.len() as int
        } else {
            width
        },
        padded(s, width).take(s.len() as int) == s,
        forall|i: int| s.len() <= i < padded(s, width).len() ==> padded(s, width)[i] == ' ',
{
    assert(padded(s, width).take(s.len() as int) =~= s);
}

/// A path under another begins with that one, ends with its own, and has exactly one
/// slash more where the first does not end with one.
pub proof fn paths_are_joined_by_one_slash(base: Seq<char>, part: Seq<char>)
    ensures
        base.is_prefix_of(under(base, part)),
        under(base, part).skip(under(base, part).len() - part.len()) == part,
        base.len() == 0 ==> under(base, part) == part,
        base.len() > 0 && base.last() == '/' ==> under(base, part) == base + part,
        base.len() > 0 && base.last() != '/' ==> under(base, part) == base + seq!['/'] + part,
{
    reveal_strlit("/");
    let r = under(base, part);
    assert(r.subrange(0, base.len() as int) =~= base);
    assert(r.skip(r.len() - part.len()) =~= part);
    if base.len() == 0 {
        assert(r =~= part);
    } else if base.last() != '/' {
        assert(r =~= base + seq!['/'] + part);
    }
}

/// A number reads back from its digits, has no leading zero, and is never empty.
pub proof fn numbers_read_back(n: nat)
    ensures
        all_digits(decimal(n)),
        number(decimal(n)) == n,
        decimal(n).len() > 0,
        n > 0 ==> decimal(n)[0] != '0',
    decreases n,
{
    if n < 10 {
        let s = decimal(n);
        assert(s.drop_last() =~= Seq::empty());
        assert(number(s.drop_last()) == 0);
        assert(s[0] == digit(n));
    } else {
        numbers_read_back(n / 10);
        let s = decimal(n);
        let front = decimal(n / 10);
        assert(s.drop_last() =~= front);
        assert forall|i: int| 0 <= i < s.len() implies is_digit(#[trigger] s[i]) by {
            if i < front.len() {
                assert(s[i] == front[i]);
            }
        }
        assert(s[0] == front[0]);
    }
}

/// A port reads back from its digits, also after a `+`; a number that is too large for
/// a port does not, and neither does a text that holds anything else.
pub proof fn ports_read_back(n: nat, s: Seq<char>)
    ensures
        n < 0x10000 ==> port_of(decimal(n)) == Some(n as u16),
        n < 0x10000 ==> port_of(seq!['+'] + decimal(n)) == Some(n as u16),
        n >= 0x10000 ==> port_of(decimal(n)) is None,
        s.len() == 0 ==> port_of(s) is None,
        (exists|i: int| 0 < i < s.len() && !is_digit(#[trigger] s[i])) ==> port_of(s) is None,
{
    numbers_read_back(n);
    assert(is_digit(decimal(n)[0]));
    assert((seq!['+'] + decimal(n)).skip(1) =~= decimal(n));
    if exists|i: int| 0 < i < s.len() && !is_digit(#[trigger] s[i]) {
        let i = choose|i: int| 0 < i < s.len() && !is_digit(#[trigger] s[i]);
        assert(s.skip(1)[i - 1] == s[i]);
    }
}

/// The value of a hexadecimal digit.
pub open spec fn hex_value(c: char) -> int {
    if c as u32 <= 57 {
        c as u32 - 48
    } else {
        c as u32 - 87
    }
}

/// Bytes read back from their hexadecimal digits, two for each byte, the higher first.
pub proof fn bytes_read_back(bytes: Seq<u8>, i: int)
    requires
        0 <= i < bytes.len(),
    ensures
        hex(bytes).len() == 2 * bytes.len(),
        hex_value(hex(bytes)[2 * i]) * 16 + hex_value(hex(bytes)[2 * i + 1]) == bytes[i],
    decreases bytes.len(),
{
    let front = bytes.drop_last();
    lemma_hex_len(front);
    assert(hex(bytes).len() == 2 * bytes.len());
    if i < front.len() {
        bytes_read_back(front, i);
        assert(hex(bytes)[2 * i] == hex(front)[2 * i]);
        assert(hex(bytes)[2 * i + 1] == hex(front)[2 * i + 1]);
        assert(front[i] == bytes[i]);
    }
}

proof fn lemma_hex_len(bytes: Seq<u8>)
    ensures
        hex(bytes).len() == 2 * bytes.len(),
    decreases bytes.len(),
{
    if bytes.len() > 0 {
        lemma_hex_len(bytes.drop_last());
    }
}

/// The characters that count as whitespace: tab to carriage return, the space, and the
/// other separators that Unicode gives the property.
pub proof fn whitespace_is_what_unicode_says(c: char)
    ensures
        white(c) <==> {
            let n = c as u32;
            ||| 9 <= n <= 13
            ||| n == 32
            ||| n == 133
            ||| n == 160
            ||| n == 5760
            ||| 8192 <= n <= 8202
            ||| n == 8232
            ||| n == 8233
            ||| n == 8239
            ||| n == 8287
            ||| n == 12288
        },
{
}

/// What a list of texts holds is what each of them holds, one for one.
pub proof fn every_text_is_held(v: Seq<String>)
    ensures
        texts(v).len() == v.len(),
        forall|i: int| 0 <= i < v.len() ==> #[trigger] texts(v)[i] == v[i]@,
{
}

/// A text that may be missing holds what it holds.
pub proof fn an_optional_text_is_held(t: Option<String>)
    ensures
        opt_text(t) is Some == t is Some,
        t is Some ==> opt_text(t)->0 == t->0@,
{
}

}
