//! Character-level building blocks shared by the line-based protocols and
//! the kernel socket-table reader: whitespace, trimming, splitting, and
//! unsigned number syntax in radix 10 and 16.
use vstd::prelude::*;
use vstd::string::StringExecFns;

verus! {

/// The characters with the Unicode `White_Space` property, which is what
/// `char::is_whitespace` tests.
pub open spec fn is_white_space(c: char) -> bool {
    let u = c as u32;
    ||| 0x09 <= u <= 0x0D
    ||| u == 0x20
    ||| u == 0x85
    ||| u == 0xA0
    ||| u == 0x1680
    ||| 0x2000 <= u <= 0x200A
    ||| u == 0x2028
    ||| u == 0x2029
    ||| u == 0x202F
    ||| u == 0x205F
    ||| u == 0x3000
}

pub fn is_white_space_char(c: char) -> (b: bool)
    ensures
        b == is_white_space(c),
{
    let u = c as u32;
    (0x09 <= u && u <= 0x0D) || u == 0x20 || u == 0x85 || u == 0xA0 || u == 0x1680 || (0x2000
        <= u && u <= 0x200A) || u == 0x2028 || u == 0x2029 || u == 0x202F || u == 0x205F || u
        == 0x3000
}

/// The text with its leading whitespace removed.
pub open spec fn trim_start(s: Seq<char>) -> Seq<char>
    decreases s.len(),
{
    if s.len() > 0 && is_white_space(s[0]) {
        trim_start(s.drop_first())
    } else {
        s
    }
}

/// The text with its trailing whitespace removed.
pub open spec fn trim_end(s: Seq<char>) -> Seq<char>
    decreases s.len(),
{
    if s.len() > 0 && is_white_space(s.last()) {
        trim_end(s.drop_last())
    } else {
        s
    }
}

/// What `str::trim` gives back.
pub open spec fn trim(s: Seq<char>) -> Seq<char> {
    trim_end(trim_start(s))
}

/// The characters of a string slice, in order.
pub fn chars_of(s: &str) -> (v: Vec<char>)
    ensures
        v@ == s@,
{
    broadcast use vstd::string::group_string_axioms;
    let mut v: Vec<char> = Vec::new();
    for c in it: s.chars()
        invariant
            v@ == it.seq().take(it.index()),
    {
        v.push(c);
        assert(v@ =~= it.seq().take(it.index() + 1));
    }
    v
}

/// A copy of the characters `s[from..to]`.
pub fn sub_chars(s: &Vec<char>, from: usize, to: usize) -> (r: Vec<char>)
    requires
        from <= to <= s@.len(),
    ensures
        r@ == s@.subrange(from as int, to as int),
{
    let mut r: Vec<char> = Vec::new();
    let mut i = from;
    while i < to
        invariant
            from <= i <= to <= s@.len(),
            r@ == s@.subrange(from as int, i as int),
        decreases to - i,
    {
        r.push(s[i]);
        i = i + 1;
        assert(r@ =~= s@.subrange(from as int, i as int));
    }
    r
}

/// Index of the first character at or after `from` that is not whitespace
/// (or `s.len()` if there is none).
fn skip_white_space(s: &Vec<char>, from: usize) -> (j: usize)
    requires
        from <= s@.len(),
    ensures
        from <= j <= s@.len(),
        trim_start(s@.subrange(from as int, s@.len() as int)) == s@.subrange(j as int, s@.len() as int),
        forall|k: int| from <= k < j ==> is_white_space(#[trigger] s@[k]),
        j < s@.len() ==> !is_white_space(s@[j as int]),
{
    let n = s.len();
    let mut j = from;
    while j < n && is_white_space_char(s[j])
        invariant
            from <= j <= n == s@.len(),
            trim_start(s@.subrange(from as int, n as int)) == trim_start(s@.subrange(j as int, n as int)),
            forall|k: int| from <= k < j ==> is_white_space(#[trigger] s@[k]),
        decreases n - j,
    {
        assert(s@.subrange(j as int, n as int).drop_first() =~= s@.subrange(j + 1, n as int));
        j = j + 1;
    }
    j
}

/// The text of `s` with leading and trailing whitespace removed, as `str::trim` does.
pub fn trim_chars(s: &Vec<char>) -> (r: Vec<char>)
    ensures
        r@ == trim(s@),
{
    let n = s.len();
    let i = skip_white_space(s, 0);
    assert(s@.subrange(0, n as int) =~= s@);
    let mut j = n;
    while j > i && is_white_space_char(s[j - 1])
        invariant
            i <= j <= n == s@.len(),
            trim_end(s@.subrange(i as int, n as int)) == trim_end(s@.subrange(i as int, j as int)),
        decreases j,
    {
        assert(s@.subrange(i as int, j as int).drop_last() =~= s@.subrange(i as int, j - 1));
        j = j - 1;
    }
    sub_chars(s, i, j)
}

/// The number of leading characters of `s` that are not whitespace.
pub open spec fn word_len(s: Seq<char>) -> nat
    decreases s.len(),
{
    if s.len() == 0 || is_white_space(s[0]) {
        0
    } else {
        1 + word_len(s.drop_first())
    }
}

pub proof fn lemma_trim_start_shape(s: Seq<char>)
    ensures
        trim_start(s).len() <= s.len(),
        trim_start(s).len() > 0 ==> !is_white_space(trim_start(s)[0]),
        trim_start(s) == s.subrange(s.len() - trim_start(s).len(), s.len() as int),
    decreases s.len(),
{
    if s.len() > 0 && is_white_space(s[0]) {
        lemma_trim_start_shape(s.drop_first());
        assert(s.drop_first().subrange(
            s.drop_first().len() - trim_start(s).len(),
            s.drop_first().len() as int,
        ) =~= s.subrange(s.len() - trim_start(s).len(), s.len() as int));
    } else {
        assert(s.subrange(0, s.len() as int) =~= s);
    }
}

pub proof fn lemma_word_len_bound(s: Seq<char>)
    ensures
        word_len(s) <= s.len(),
        s.len() > 0 && !is_white_space(s[0]) ==> word_len(s) >= 1,
    decreases s.len(),
{
    if s.len() > 0 && !is_white_space(s[0]) {
        lemma_word_len_bound(s.drop_first());
    }
}

/// The maximal runs of non-whitespace characters of `s`, in order: what
/// `str::split_whitespace` yields.
pub open spec fn split_whitespace(s: Seq<char>) -> Seq<Seq<char>>
    decreases s.len(),
{
    let t = trim_start(s);
    if t.len() == 0 {
        Seq::empty()
    } else {
        let w = word_len(t);
        proof {
            lemma_trim_start_shape(s);
            lemma_word_len_bound(t);
        }
        seq![t.subrange(0, w as int)] + split_whitespace(t.subrange(w as int, t.len() as int))
    }
}

/// The views of a sequence of character vectors.
pub open spec fn views(v: Seq<Vec<char>>) -> Seq<Seq<char>> {
    v.map_values(|w: Vec<char>| w@)
}

/// Index just past the run of non-whitespace characters that starts at `from`.
fn skip_word(s: &Vec<char>, from: usize) -> (k: usize)
    requires
        from <= s@.len(),
    ensures
        from <= k <= s@.len(),
        word_len(s@.subrange(from as int, s@.len() as int)) == k - from,
{
    let n = s.len();
    let mut k = from;
    while k < n && !is_white_space_char(s[k])
        invariant
            from <= k <= n == s@.len(),
            word_len(s@.subrange(from as int, n as int)) == (k - from) + word_len(
                s@.subrange(k as int, n as int),
            ),
        decreases n - k,
    {
        assert(s@.subrange(k as int, n as int).drop_first() =~= s@.subrange(k + 1, n as int));
        k = k + 1;
    }
    k
}

/// The whitespace-separated words of `s`, as `str::split_whitespace` gives them.
pub fn split_whitespace_chars(s: &Vec<char>) -> (r: Vec<Vec<char>>)
    ensures
        views(r@) == split_whitespace(s@),
{
    let n = s.len();
    let mut r: Vec<Vec<char>> = Vec::new();
    let mut i: usize = 0;
    assert(s@.subrange(0, n as int) =~= s@);
    loop
        invariant
            i <= n == s@.len(),
            views(r@) + split_whitespace(s@.subrange(i as int, n as int)) == split_whitespace(s@),
        decreases n - i,
    {
        let j = skip_white_space(s, i);
        if j == n {
            assert(s@.subrange(j as int, n as int).len() == 0);
            assert(split_whitespace(s@.subrange(i as int, n as int)) =~= Seq::<Seq<char>>::empty());
            assert(views(r@) =~= views(r@) + Seq::<Seq<char>>::empty());
            return r;
        }
        let k = skip_word(s, j);
        let ghost u = s@.subrange(i as int, n as int);
        let ghost t = s@.subrange(j as int, n as int);
        assert(trim_start(u) == t);
        assert(word_len(t) == k - j);
        assert(t.subrange(0, (k - j) as int) =~= s@.subrange(j as int, k as int));
        assert(t.subrange((k - j) as int, t.len() as int) =~= s@.subrange(k as int, n as int));
        assert(split_whitespace(u) == seq![s@.subrange(j as int, k as int)] + split_whitespace(
            s@.subrange(k as int, n as int),
        ));
        let w = sub_chars(s, j, k);
        let ghost before = r@;
        r.push(w);
        assert(views(r@) =~= views(before).push(w@));
        assert(views(r@) + split_whitespace(s@.subrange(k as int, n as int)) =~= views(before)
            + split_whitespace(u));
        i = k;
    }
}

/// The pieces of `s` between occurrences of `sep`, as `str::split` with a
/// single character pattern yields them (always at least one piece).
pub open spec fn split_on(s: Seq<char>, sep: char) -> Seq<Seq<char>>
    decreases s.len(),
{
    if s.len() == 0 {
        seq![Seq::empty()]
    } else {
        let p = split_on(s.drop_last(), sep);
        if s.last() == sep {
            p.push(Seq::empty())
        } else {
            p.update(p.len() - 1, p.last().push(s.last()))
        }
    }
}

pub proof fn lemma_split_on_nonempty(s: Seq<char>, sep: char)
    ensures
        split_on(s, sep).len() >= 1,
    decreases s.len(),
{
    if s.len() > 0 {
        lemma_split_on_nonempty(s.drop_last(), sep);
    }
}

/// The pieces of `s` between occurrences of `sep`.
pub fn split_on_chars(s: &Vec<char>, sep: char) -> (r: Vec<Vec<char>>)
    ensures
        views(r@) == split_on(s@, sep),
        r@.len() >= 1,
{
    let n = s.len();
    let mut done: Vec<Vec<char>> = Vec::new();
    let mut cur: Vec<char> = Vec::new();
    let mut i: usize = 0;
    while i < n
        invariant
            i <= n == s@.len(),
            views(done@).push(cur@) == split_on(s@.subrange(0, i as int), sep),
        decreases n - i,
    {
        let c = s[i];
        let ghost prev = s@.subrange(0, i as int);
        assert(s@.subrange(0, i + 1).drop_last() =~= prev);
        proof { lemma_split_on_nonempty(prev, sep); }
        if c == sep {
            let ghost d0 = done@;
            let finished = cur;
            cur = Vec::new();
            done.push(finished);
            assert(views(done@) =~= views(d0).push(finished@));
        } else {
            let ghost c0 = cur@;
            cur.push(c);
            assert(views(done@).push(cur@) =~= views(done@).push(c0).update(
                views(done@).len() as int,
                c0.push(c),
            ));
        }
        i = i + 1;
    }
    assert(s@.subrange(0, n as int) =~= s@);
    let ghost d0 = done@;
    done.push(cur);
    assert(views(done@) =~= views(d0).push(cur@));
    done
}

/// A line with one carriage return removed from its end, if it has one.
pub open spec fn strip_cr(l: Seq<char>) -> Seq<char> {
    if l.len() > 0 && l.last() == '\r' {
        l.drop_last()
    } else {
        l
    }
}

/// The lines of `s` as `str::lines` (and `BufRead::lines`) yields them: the
/// text is cut after each `'\n'`, the line ending (`"\n"` or `"\r\n"`) is
/// removed, and an empty remainder after the last line ending is no line.
pub open spec fn lines(s: Seq<char>) -> Seq<Seq<char>> {
    let p = split_on(s, '\n');
    let body = p.take(p.len() - 1).map_values(|l: Seq<char>| strip_cr(l));
    if p.last().len() == 0 {
        body
    } else {
        body.push(p.last())
    }
}

/// The lines of `s`, as `str::lines` gives them.
pub fn lines_chars(s: &Vec<char>) -> (r: Vec<Vec<char>>)
    ensures
        views(r@) == lines(s@),
{
    let pieces = split_on_chars(s, '\n');
    let ghost p = split_on(s@, '\n');
    let m = pieces.len();
    let mut r: Vec<Vec<char>> = Vec::new();
    let mut i: usize = 0;
    while i + 1 < m
        invariant
            1 <= m == pieces@.len() == p.len(),
            views(pieces@) == p,
            i <= m - 1,
            views(r@) == p.take(i as int).map_values(|l: Seq<char>| strip_cr(l)),
        decreases m - i,
    {
        let piece = &pieces[i];
        assert(piece@ == p[i as int]);
        let k = piece.len();
        let l = if k > 0 && piece[k - 1] == '\r' {
            sub_chars(piece, 0, k - 1)
        } else {
            sub_chars(piece, 0, k)
        };
        assert(l@ =~= strip_cr(p[i as int]));
        let ghost before = r@;
        r.push(l);
        assert(views(r@) =~= views(before).push(l@));
        assert(p.take(i + 1).map_values(|l: Seq<char>| strip_cr(l)) =~= p.take(i as int).map_values(
            |l: Seq<char>| strip_cr(l),
        ).push(strip_cr(p[i as int])));
        i = i + 1;
    }
    let last = &pieces[m - 1];
    assert(i == m - 1);
    assert(last@ == p.last());
    let ghost body = p.take(p.len() - 1).map_values(|l: Seq<char>| strip_cr(l));
    assert(views(r@) == body);
    if last.len() > 0 {
        let l = sub_chars(last, 0, last.len());
        let ghost before = r@;
        r.push(l);
        assert(l@ =~= p.last());
        assert(views(r@) =~= views(before).push(l@));
        assert(views(r@) == body.push(p.last()));
    }
    r
}

/// The text with every trailing `'\r'` and `'\n'` removed, as
/// `str::trim_end_matches(['\r', '\n'])` gives it.
pub open spec fn trim_line_end(s: Seq<char>) -> Seq<char>
    decreases s.len(),
{
    if s.len() > 0 && (s.last() == '\r' || s.last() == '\n') {
        trim_line_end(s.drop_last())
    } else {
        s
    }
}

/// The text with every trailing carriage return and line feed removed.
pub fn trim_line_end_chars(s: &Vec<char>) -> (r: Vec<char>)
    ensures
        r@ == trim_line_end(s@),
{
    let mut j = s.len();
    assert(s@.subrange(0, j as int) =~= s@);
    while j > 0 && (s[j - 1] == '\r' || s[j - 1] == '\n')
        invariant
            j <= s@.len(),
            trim_line_end(s@) == trim_line_end(s@.subrange(0, j as int)),
        decreases j,
    {
        assert(s@.subrange(0, j as int).drop_last() =~= s@.subrange(0, j - 1));
        j = j - 1;
    }
    sub_chars(s, 0, j)
}

/// The rest of `s` after `prefix`, if `s` begins with `prefix`
/// (`str::strip_prefix`).
pub open spec fn strip_prefix(s: Seq<char>, prefix: Seq<char>) -> Option<Seq<char>> {
    if prefix.len() <= s.len() && s.subrange(0, prefix.len() as int) == prefix {
        Some(s.subrange(prefix.len() as int, s.len() as int))
    } else {
        None
    }
}

/// Whether `s` begins with `prefix`.
pub fn starts_with_chars(s: &Vec<char>, prefix: &Vec<char>) -> (b: bool)
    ensures
        b == (prefix@.len() <= s@.len() && s@.subrange(0, prefix@.len() as int) == prefix@),
{
    if prefix.len() > s.len() {
        return false;
    }
    let mut i: usize = 0;
    while i < prefix.len()
        invariant
            prefix@.len() <= s@.len(),
            i <= prefix@.len(),
            s@.subrange(0, i as int) == prefix@.subrange(0, i as int),
        decreases prefix@.len() - i,
    {
        if s[i] != prefix[i] {
            assert(s@.subrange(0, prefix@.len() as int)[i as int] != prefix@[i as int]);
            return false;
        }
        assert(s@.subrange(0, i + 1) =~= s@.subrange(0, i as int).push(s@[i as int]));
        assert(prefix@.subrange(0, i + 1) =~= prefix@.subrange(0, i as int).push(prefix@[i as int]));
        i = i + 1;
    }
    assert(prefix@.subrange(0, i as int) =~= prefix@);
    true
}

/// The rest of `s` after `prefix`, if `s` begins with `prefix`.
pub fn strip_prefix_chars(s: &Vec<char>, prefix: &Vec<char>) -> (r: Option<Vec<char>>)
    ensures
        match r {
            Some(v) => strip_prefix(s@, prefix@) == Some(v@),
            None => strip_prefix(s@, prefix@) is None,
        },
{
    if starts_with_chars(s, prefix) {
        Some(sub_chars(s, prefix.len(), s.len()))
    } else {
        None
    }
}

/// Whether two character sequences are equal.
pub fn chars_eq(a: &Vec<char>, b: &Vec<char>) -> (r: bool)
    ensures
        r == (a@ == b@),
{
    if a.len() != b.len() {
        return false;
    }
    let r = starts_with_chars(a, b);
    assert(a@.subrange(0, b@.len() as int) =~= a@);
    r
}

/// The value of one digit in the given radix (`char::to_digit`), for radixes
/// up to 36.
pub open spec fn digit_value(c: char, radix: nat) -> Option<nat> {
    let u = c as u32;
    let v: int = if 0x30 <= u <= 0x39 {
        u - 0x30
    } else if 0x61 <= u <= 0x7A {
        u - 0x61 + 10
    } else if 0x41 <= u <= 0x5A {
        u - 0x41 + 10
    } else {
        36
    };
    if v < radix {
        Some(v as nat)
    } else {
        None
    }
}

/// The value of a nonempty or empty string of digits, most significant first;
/// `None` when one of them is no digit of the radix.
pub open spec fn digits_value(d: Seq<char>, radix: nat) -> Option<nat>
    decreases d.len(),
{
    if d.len() == 0 {
        Some(0)
    } else {
        match (digits_value(d.drop_last(), radix), digit_value(d.last(), radix)) {
            (Some(a), Some(b)) => Some(a * radix + b),
            _ => None,
        }
    }
}

/// What `from_str_radix` (and `str::parse` in radix 10) gives back for an
/// unsigned integer type whose largest value is `max`: an optional `'+'`,
/// then one or more digits, and a value that fits.
pub open spec fn parse_unsigned(s: Seq<char>, radix: nat, max: nat) -> Option<nat> {
    if s.len() == 0 {
        None
    } else {
        let d = if s[0] == '+' {
            s.drop_first()
        } else {
            s
        };
        if d.len() == 0 {
            None
        } else {
            match digits_value(d, radix) {
                Some(v) => if v <= max {
                    Some(v)
                } else {
                    None
                },
                None => None,
            }
        }
    }
}

proof fn lemma_digits_prefix(d: Seq<char>, radix: nat, k: int)
    requires
        0 <= k <= d.len(),
        radix >= 1,
    ensures
        digits_value(d.subrange(0, k), radix) is None ==> digits_value(d, radix) is None,
        digits_value(d, radix) is Some ==> digits_value(d.subrange(0, k), radix) is Some
            && digits_value(d.subrange(0, k), radix)->0 <= digits_value(d, radix)->0,
    decreases d.len() - k,
{
    if k == d.len() {
        assert(d.subrange(0, k) =~= d);
    } else {
        lemma_digits_prefix(d.drop_last(), radix, k);
        assert(d.drop_last().subrange(0, k) =~= d.subrange(0, k));
        if digits_value(d, radix) is Some {
            let a = digits_value(d.drop_last(), radix)->0;
            let b = digit_value(d.last(), radix)->0;
            assert(a <= a * radix + b) by (nonlinear_arith)
                requires
                    radix >= 1,
            ;
        }
    }
}

fn digit_value_exec(c: char, radix: u64) -> (r: Option<u64>)
    requires
        radix <= 36,
    ensures
        match r {
            Some(v) => digit_value(c, radix as nat) == Some(v as nat),
            None => digit_value(c, radix as nat) is None,
        },
{
    let u = c as u32;
    let v: u64 = if 0x30 <= u && u <= 0x39 {
        (u - 0x30) as u64
    } else if 0x61 <= u && u <= 0x7A {
        (u - 0x61 + 10) as u64
    } else if 0x41 <= u && u <= 0x5A {
        (u - 0x41 + 10) as u64
    } else {
        36
    };
    if v < radix {
        Some(v)
    } else {
        None
    }
}

/// Parses an unsigned integer no larger than `max` in radix 10 or 16, with the
/// syntax of `from_str_radix`.
pub fn parse_unsigned_chars(s: &Vec<char>, radix: u64, max: u64) -> (r: Option<u64>)
    requires
        radix == 10 || radix == 16,
    ensures
        match r {
            Some(v) => parse_unsigned(s@, radix as nat, max as nat) == Some(v as nat),
            None => parse_unsigned(s@, radix as nat, max as nat) is None,
        },
{
    let n = s.len();
    if n == 0 {
        return None;
    }
    let start: usize = if s[0] == '+' { 1 } else { 0 };
    let ghost d = if s@[0] == '+' { s@.drop_first() } else { s@ };
    assert(d =~= s@.subrange(start as int, n as int));
    if start == n {
        return None;
    }
    let mut acc: u64 = 0;
    let mut i = start;
    assert(d.subrange(0, 0) =~= Seq::<char>::empty());
    while i < n
        invariant
            start <= i <= n == s@.len(),
            start < n,
            d == s@.subrange(start as int, n as int),
            d == (if s@[0] == '+' { s@.drop_first() } else { s@ }),
            radix == 10 || radix == 16,
            digits_value(d.subrange(0, i - start), radix as nat) == Some(acc as nat),
            acc <= max,
        decreases n - i,
    {
        let k = i - start;
        assert(d.subrange(0, k + 1).drop_last() =~= d.subrange(0, k as int));
        assert(d.subrange(0, k + 1).last() == s@[i as int]);
        match digit_value_exec(s[i], radix) {
            None => {
                proof {
                    lemma_digits_prefix(d, radix as nat, k + 1);
                }
                return None;
            },
            Some(dv) => {
                assert((acc as u128) * (radix as u128) <= 0xffff_ffff_ffff_ffffu128 * 16) by (nonlinear_arith)
                    requires
                        acc <= 0xffff_ffff_ffff_ffffu64,
                        radix <= 16,
                ;
                let next: u128 = (acc as u128) * (radix as u128) + (dv as u128);
                if next > max as u128 {
                    proof {
                        lemma_digits_prefix(d, radix as nat, k + 1);
                    }
                    return None;
                }
                acc = next as u64;
            },
        }
        i = i + 1;
    }
    assert(d.subrange(0, (n - start) as int) =~= d);
    Some(acc)
}

/// The digit character for a value below 16, upper case for letters.
pub open spec fn digit_char(v: nat) -> char {
    if v < 10 {
        (0x30 + v) as char
    } else {
        (0x41 + v - 10) as char
    }
}

/// The shortest digit string of `n` in the radix, most significant digit
/// first, upper-case letters (what `Display` and `UpperHex` print).
pub open spec fn format_radix(n: nat, radix: nat) -> Seq<char>
    decreases n,
{
    if radix < 2 || n < radix {
        seq![digit_char(n)]
    } else {
        proof {
            assert(n / radix < n) by (nonlinear_arith)
                requires
                    radix >= 2,
                    n >= radix,
            ;
        }
        format_radix(n / radix, radix).push(digit_char(n % radix))
    }
}

/// The decimal text of `n`.
pub open spec fn decimal(n: nat) -> Seq<char> {
    format_radix(n, 10)
}

proof fn lemma_digit_char(v: nat, radix: nat)
    requires
        v < radix,
        radix == 10 || radix == 16,
    ensures
        digit_value(digit_char(v), radix) == Some(v),
        digit_char(v) != '+',
{
}

/// Reading back the digits of a number gives the number.
pub proof fn lemma_format_radix_value(n: nat, radix: nat)
    requires
        radix == 10 || radix == 16,
    ensures
        digits_value(format_radix(n, radix), radix) == Some(n),
        format_radix(n, radix).len() >= 1,
        format_radix(n, radix)[0] != '+',
    decreases n,
{
    if n < radix {
        lemma_digit_char(n, radix);
        assert(format_radix(n, radix).drop_last() =~= Seq::<char>::empty());
        assert(digits_value(Seq::<char>::empty(), radix) == Some(0nat));
        assert(0 * radix + n == n) by (nonlinear_arith);
    } else {
        assert(n / radix < n && n % radix < radix && n == (n / radix) * radix + n % radix)
            by (nonlinear_arith)
            requires
                radix >= 2,
                n >= radix,
        ;
        lemma_format_radix_value(n / radix, radix);
        lemma_digit_char(n % radix, radix);
        assert(format_radix(n, radix).drop_last() =~= format_radix(n / radix, radix));
        assert(format_radix(n, radix).last() == digit_char(n % radix));
        assert(format_radix(n, radix)[0] == format_radix(n / radix, radix)[0]);
    }
}

fn digit_char_exec(v: u64) -> (c: char)
    requires
        v < 16,
    ensures
        c == digit_char(v as nat),
{
    if v < 10 {
        ((0x30u8 + v as u8) as char)
    } else {
        ((0x41u8 + (v as u8 - 10)) as char)
    }
}

/// The digits of `n` in radix 10 or 16, as `Display` or `UpperHex` prints them.
pub fn format_radix_chars(n: u64, radix: u64) -> (r: Vec<char>)
    requires
        radix == 10 || radix == 16,
    ensures
        r@ == format_radix(n as nat, radix as nat),
{
    let mut out: Vec<char> = Vec::new();
    let mut m = n;
    while m >= radix
        invariant
            radix == 10 || radix == 16,
            format_radix(n as nat, radix as nat) == format_radix(m as nat, radix as nat) + out@,
        decreases m,
    {
        let dc = digit_char_exec(m % radix);
        let ghost before = out@;
        out.insert(0, dc);
        assert(format_radix(m as nat, radix as nat) == format_radix((m / radix) as nat, radix as nat).push(
            digit_char((m % radix) as nat),
        ));
        assert(format_radix((m / radix) as nat, radix as nat).push(digit_char((m % radix) as nat)) + before
            =~= format_radix((m / radix) as nat, radix as nat) + out@);
        m = m / radix;
    }
    let first = digit_char_exec(m);
    let ghost before = out@;
    out.insert(0, first);
    assert(format_radix(m as nat, radix as nat) == seq![first]);
    assert(format_radix(m as nat, radix as nat) + before =~= out@);
    out
}

/// Appends one character to a string (`String::push`).
#[verifier::external_body]
fn push_char(s: &mut String, c: char)
    ensures
        final(s)@ == old(s)@.push(c),
{
    s.push(c);
}

/// The text that std's `Debug` formatting gives for a string slice: the
/// characters between double quotes, with quotes, backslashes and
/// non-printable characters escaped.
pub uninterp spec fn debug_quoted(s: Seq<char>) -> Seq<char>;

/// `format!("{:?}", s)` on a string slice. The contract names the result
/// `debug_quoted(s@)` and says nothing more of it: the escaping rules are
/// std's and are not restated here.
#[verifier::external_body]
pub(crate) fn debug_quote(s: &str) -> (r: String)
    ensures
        r@ == debug_quoted(s@),
{
    format!("{:?}", s)
}

/// A string holding exactly the given characters.
pub fn string_of(v: &Vec<char>) -> (s: String)
    ensures
        s@ == v@,
{
    let mut s = String::new();
    let mut i: usize = 0;
    while i < v.len()
        invariant
            i <= v@.len(),
            s@ == v@.subrange(0, i as int),
        decreases v@.len() - i,
    {
        push_char(&mut s, v[i]);
        assert(v@.subrange(0, i + 1) =~= v@.subrange(0, i as int).push(v@[i as int]));
        i = i + 1;
    }
    assert(v@.subrange(0, i as int) =~= v@);
    s
}

/// Appends the characters of `tail` to `v`.
pub fn extend_chars(v: &mut Vec<char>, tail: &Vec<char>)
    ensures
        final(v)@ == old(v)@ + tail@,
{
    let mut i: usize = 0;
    while i < tail.len()
        invariant
            i <= tail@.len(),
            v@ == old(v)@ + tail@.subrange(0, i as int),
        decreases tail@.len() - i,
    {
        v.push(tail[i]);
        assert(old(v)@ + tail@.subrange(0, i + 1) =~= (old(v)@ + tail@.subrange(0, i as int)).push(tail@[i as int]));
        i = i + 1;
    }
    assert(tail@.subrange(0, i as int) =~= tail@);
}

/// The characters of a formatted number are ASCII digits and capital letters.
pub proof fn lemma_format_radix_chars(n: nat, radix: nat)
    requires
        radix == 10 || radix == 16,
    ensures
        forall|i: int|
            0 <= i < format_radix(n, radix).len() ==> 0x30 <= (#[trigger] format_radix(n, radix)[i]) as u32
                <= 0x46,
    decreases n,
{
    if n >= radix {
        assert(n / radix < n && n % radix < radix) by (nonlinear_arith)
            requires
                radix >= 2,
                n >= radix,
        ;
        lemma_format_radix_chars(n / radix, radix);
        let p = format_radix(n / radix, radix);
        assert forall|i: int| 0 <= i < format_radix(n, radix).len() implies 0x30 <= (
        #[trigger] format_radix(n, radix)[i]) as u32 <= 0x46 by {
            if i < p.len() {
                assert(format_radix(n, radix)[i] == p[i]);
            }
        }
    }
}

/// `before`, the decimal digits of `n`, then `after`.
pub fn text_with_number(before: &str, n: u16, after: &str) -> (s: String)
    ensures
        s@ == before@ + decimal(n as nat) + after@,
{
    let mut s = String::from_str(before);
    let digits = string_of(&format_radix_chars(n as u64, 10));
    s.append(digits.as_str());
    s.append(after);
    s
}

} // verus!
