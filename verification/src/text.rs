//! Character-level text handling shared by the path classifier and the
//! configuration parser: lines, trimming, searching and ASCII case folding,
//! each specified over `Seq<char>`.
use vstd::prelude::*;
use vstd::std_specs::iter::IteratorSpec;

verus! {

// ---------------------------------------------------------------------------
// Specifications
// ---------------------------------------------------------------------------

/// White space as `char::is_whitespace` defines it: the characters with the
/// Unicode `White_Space` property.
pub open spec fn is_white_space(c: char) -> bool {
    let u = c as u32;
    ||| 0x09 <= u <= 0x0D
    ||| u == 0x20
    ||| u == 0x85
    ||| u == 0xA0
    ||| u == 0x1680
    ||| 0x2000 <= u <= 0x200A
    ||| u == 0x2028
    ||| u == 0x2029
    ||| u == 0x202F
    ||| u == 0x205F
    ||| u == 0x3000
}

/// `s` without its leading white space.
pub open spec fn trim_start(s: Seq<char>) -> Seq<char>
    decreases s.len(),
{
    if s.len() > 0 && is_white_space(s[0]) {
        trim_start(s.drop_first())
    } else {
        s
    }
}

/// `s` without its trailing white space.
pub open spec fn trim_end(s: Seq<char>) -> Seq<char>
    decreases s.len(),
{
    if s.len() > 0 && is_white_space(s.last()) {
        trim_end(s.drop_last())
    } else {
        s
    }
}

/// `s` without leading and trailing white space, as `str::trim` returns it.
pub open spec fn trim(s: Seq<char>) -> Seq<char> {
    trim_end(trim_start(s))
}

/// The index of the first occurrence of `c` in `s`, if any.
pub open spec fn find_char(s: Seq<char>, c: char) -> Option<int>
    decreases s.len(),
{
    if s.len() == 0 {
        None
    } else if s[0] == c {
        Some(0)
    } else {
        match find_char(s.drop_first(), c) {
            Some(i) => Some(i + 1),
            None => None,
        }
    }
}

/// A line without the `'\r'` that ends it, if it ends with one.
pub open spec fn strip_cr(l: Seq<char>) -> Seq<char> {
    if l.len() > 0 && l.last() == '\r' {
        l.drop_last()
    } else {
        l
    }
}

/// The lines of `s` as `str::lines` yields them: pieces separated by
/// `'\n'`, a `'\r'` just before a `'\n'` dropped, and no empty last line
/// after a final `'\n'`.
pub open spec fn text_lines(s: Seq<char>) -> Seq<Seq<char>>
    decreases s.len(),
{
    if s.len() == 0 {
        seq![]
    } else {
        match find_char(s, '\n') {
            Some(i) => {
                proof {
                    lemma_find_char(s, '\n');
                }
                seq![strip_cr(s.take(i))] + text_lines(s.skip(i + 1))
            },
            None => seq![s],
        }
    }
}

/// `c` with an ASCII upper-case letter mapped to its lower-case letter, as
/// `char::to_ascii_lowercase` returns it.
pub open spec fn ascii_lower(c: char) -> char {
    if 'A' <= c && c <= 'Z' {
        ((c as u32) + 32) as char
    } else {
        c
    }
}

/// `s` with every ASCII upper-case letter made lower case, as
/// `str::to_ascii_lowercase` returns it.
pub open spec fn ascii_lowercase(s: Seq<char>) -> Seq<char> {
    s.map_values(|c: char| ascii_lower(c))
}

// ---------------------------------------------------------------------------
// Lemmas
// ---------------------------------------------------------------------------

/// What `find_char` returns: the first position of `c`, or none when `c`
/// does not occur.
pub proof fn lemma_find_char(s: Seq<char>, c: char)
    ensures
        match find_char(s, c) {
            Some(i) => 0 <= i < s.len() && s[i] == c && forall|j: int| 0 <= j < i ==> s[j] != c,
            None => forall|j: int| 0 <= j < s.len() ==> s[j] != c,
        },
    decreases s.len(),
{
    if s.len() > 0 && s[0] != c {
        lemma_find_char(s.drop_first(), c);
        match find_char(s, c) {
            Some(i) => {
                assert forall|j: int| 0 <= j < i implies s[j] != c by {
                    if j > 0 {
                        assert(s[j] == s.drop_first()[j - 1]);
                    }
                }
            },
            None => {
                assert forall|j: int| 0 <= j < s.len() implies s[j] != c by {
                    if j > 0 {
                        assert(s[j] == s.drop_first()[j - 1]);
                    }
                }
            },
        }
    }
}

/// `find_char` is determined by the first position of `c`.
pub proof fn lemma_find_char_at(s: Seq<char>, c: char, i: int)
    requires
        0 <= i < s.len(),
        s[i] == c,
        forall|j: int| 0 <= j < i ==> s[j] != c,
    ensures
        find_char(s, c) == Some(i),
{
    lemma_find_char(s, c);
    match find_char(s, c) {
        Some(k) => {
            if k < i {
                assert(s[k] != c);
            }
            if k > i {
                assert(s[i] != c);
            }
        },
        None => {
            assert(s[i] != c);
        },
    }
}

/// `find_char` finds nothing when `c` does not occur.
pub proof fn lemma_find_char_none(s: Seq<char>, c: char)
    requires
        forall|j: int| 0 <= j < s.len() ==> s[j] != c,
    ensures
        find_char(s, c) is None,
{
    lemma_find_char(s, c);
    if let Some(k) = find_char(s, c) {
        assert(s[k] != c);
    }
}

/// Whether `l` holds no `'\n'`.
pub open spec fn no_newline(l: Seq<char>) -> bool {
    forall|j: int| 0 <= j < l.len() ==> l[j] != '\n'
}

/// `lines` joined with `'\n'` between each two, as `[..].join("\n")`
/// returns it.
pub open spec fn join_lines(lines: Seq<Seq<char>>) -> Seq<char>
    decreases lines.len(),
{
    if lines.len() == 0 {
        seq![]
    } else if lines.len() == 1 {
        lines[0]
    } else {
        lines[0] + seq!['\n'] + join_lines(lines.drop_first())
    }
}

/// No line of a text holds a `'\n'`.
pub proof fn lemma_text_lines_no_newline(s: Seq<char>)
    ensures
        forall|i: int| 0 <= i < text_lines(s).len() ==> no_newline(#[trigger] text_lines(s)[i]),
    decreases s.len(),
{
    if s.len() > 0 {
        lemma_find_char(s, '\n');
        match find_char(s, '\n') {
            Some(i) => {
                let rest = s.skip(i + 1);
                lemma_text_lines_no_newline(rest);
                let first = strip_cr(s.take(i));
                assert(no_newline(first)) by {
                    assert forall|j: int| 0 <= j < first.len() implies first[j] != '\n' by {
                        assert(first[j] == s[j]);
                    }
                }
                let all = seq![first] + text_lines(rest);
                assert forall|k: int| 0 <= k < all.len() implies no_newline(#[trigger] all[k]) by {
                    if k > 0 {
                        assert(all[k] == text_lines(rest)[k - 1]);
                    }
                }
            },
            None => {},
        }
    }
}

/// A text made of a line without `'\n'`, a `'\n'` and more text has that
/// line (without a final `'\r'`) first, then the lines of the rest.
pub proof fn lemma_text_lines_step(first: Seq<char>, rest: Seq<char>)
    requires
        no_newline(first),
    ensures
        text_lines(first + seq!['\n'] + rest) == seq![strip_cr(first)] + text_lines(rest),
{
    let s = first + seq!['\n'] + rest;
    let n = first.len() as int;
    assert(s[n] == '\n');
    assert forall|j: int| 0 <= j < n implies s[j] != '\n' by {
        assert(s[j] == first[j]);
    }
    lemma_find_char_at(s, '\n', n);
    assert(s.take(n) =~= first);
    assert(s.skip(n + 1) =~= rest);
}

/// A line without `'\n'` is the one line of its text, unless it is empty.
pub proof fn lemma_text_lines_single(line: Seq<char>)
    requires
        no_newline(line),
    ensures
        line.len() == 0 ==> text_lines(line) == Seq::<Seq<char>>::empty(),
        line.len() > 0 ==> text_lines(line) == seq![line],
{
    lemma_find_char_none(line, '\n');
}

/// White space added at the end of `s` is dropped again at its start when
/// all of `s` is white space, and kept after the rest otherwise.
proof fn lemma_trim_start_push(s: Seq<char>, c: char)
    ensures
        trim_start(s.push(c)) == if trim_start(s).len() == 0 {
            trim_start(seq![c])
        } else {
            trim_start(s).push(c)
        },
    decreases s.len(),
{
    if s.len() == 0 {
        assert(s.push(c) =~= seq![c]);
    } else if is_white_space(s[0]) {
        assert(s.push(c).drop_first() =~= s.drop_first().push(c));
        lemma_trim_start_push(s.drop_first(), c);
    }
}

/// A `'\r'` at the end makes no difference to the trimmed text.
pub proof fn lemma_trim_push_cr(s: Seq<char>)
    ensures
        trim(s.push('\r')) == trim(s),
{
    assert(is_white_space('\r'));
    lemma_trim_start_push(s, '\r');
    let t = trim_start(s);
    if t.len() == 0 {
        assert(seq!['\r'].drop_first() =~= Seq::<char>::empty());
        assert(trim_start(seq!['\r']) == trim_start(Seq::<char>::empty()));
    } else {
        assert(t.push('\r').drop_last() =~= t);
    }
}

// ---------------------------------------------------------------------------
// Executable helpers
// ---------------------------------------------------------------------------

/// The characters of `s`, in order.
pub fn chars_of(s: &str) -> (v: Vec<char>)
    ensures
        v@ == s@,
{
    broadcast use vstd::string::group_string_axioms;

    let mut v: Vec<char> = Vec::new();
    let mut it = s.chars();
    loop
        invariant
            v@ + it.remaining() == s@,
            it.decrease() is Some,
        ensures
            v@ == s@,
        decreases it.decrease()->0,
    {
        match it.next() {
            Some(c) => {
                v.push(c);
            },
            None => {
                break ;
            },
        }
    }
    v
}

/// Collects characters into a `String` with std's `FromIterator<char>` for
/// `String`; the contract claims the string holds exactly these characters,
/// in order.
#[verifier::external_body]
pub(crate) fn string_from_chars(cs: &[char]) -> (s: String)
    ensures
        s@ == cs@,
{
    cs.iter().collect()
}

/// The characters `cs[lo..hi]` as a `String`.
pub fn string_of_range(cs: &Vec<char>, lo: usize, hi: usize) -> (s: String)
    requires
        lo <= hi <= cs@.len(),
    ensures
        s@ == cs@.subrange(lo as int, hi as int),
{
    let piece = &cs.as_slice()[lo..hi];
    string_from_chars(piece)
}

/// Whether `c` is white space (see `is_white_space`).
pub fn char_is_white_space(c: char) -> (b: bool)
    ensures
        b == is_white_space(c),
{
    let u = c as u32;
    (0x09 <= u && u <= 0x0D) || u == 0x20 || u == 0x85 || u == 0xA0 || u == 0x1680 || (0x2000
        <= u && u <= 0x200A) || u == 0x2028 || u == 0x2029 || u == 0x202F || u == 0x205F || u
        == 0x3000
}

/// The bounds of `trim(cs[lo..hi])` inside `cs`.
pub fn trim_range(cs: &Vec<char>, lo: usize, hi: usize) -> (r: (usize, usize))
    requires
        lo <= hi <= cs@.len(),
    ensures
        lo <= r.0 <= r.1 <= hi,
        cs@.subrange(r.0 as int, r.1 as int) == trim(cs@.subrange(lo as int, hi as int)),
{
    let mut a = lo;
    while a < hi && char_is_white_space(cs[a])
        invariant
            lo <= a <= hi <= cs@.len(),
            trim_start(cs@.subrange(lo as int, hi as int)) == trim_start(
                cs@.subrange(a as int, hi as int),
            ),
        decreases hi - a,
    {
        assert(cs@.subrange(a as int, hi as int).drop_first() =~= cs@.subrange(
            a + 1,
            hi as int,
        ));
        a = a + 1;
    }
    assert(trim_start(cs@.subrange(a as int, hi as int)) == cs@.subrange(a as int, hi as int));
    let mut b = hi;
    while b > a && char_is_white_space(cs[b - 1])
        invariant
            lo <= a <= b <= hi <= cs@.len(),
            trim(cs@.subrange(lo as int, hi as int)) == trim_end(
                cs@.subrange(a as int, b as int),
            ),
        decreases b - a,
    {
        assert(cs@.subrange(a as int, b as int).drop_last() =~= cs@.subrange(
            a as int,
            b - 1,
        ));
        b = b - 1;
    }
    (a, b)
}

/// The first position of `c` in `cs[lo..hi]`, counted from the start of
/// `cs`.
pub fn find_in_range(cs: &Vec<char>, lo: usize, hi: usize, c: char) -> (r: Option<usize>)
    requires
        lo <= hi <= cs@.len(),
    ensures
        match r {
            Some(i) => lo <= i < hi && find_char(cs@.subrange(lo as int, hi as int), c) == Some(
                i - lo,
            ),
            None => find_char(cs@.subrange(lo as int, hi as int), c) is None,
        },
{
    let mut i = lo;
    while i < hi
        invariant
            lo <= i <= hi <= cs@.len(),
            forall|j: int| lo <= j < i ==> cs@[j] != c,
        decreases hi - i,
    {
        if cs[i] == c {
            proof {
                lemma_find_char_at(cs@.subrange(lo as int, hi as int), c, i - lo);
            }
            return Some(i);
        }
        i = i + 1;
    }
    proof {
        lemma_find_char_none(cs@.subrange(lo as int, hi as int), c);
    }
    None
}

/// The lines of `cs` (see `text_lines`) as index ranges into `cs`.
pub fn line_ranges(cs: &Vec<char>) -> (r: Vec<(usize, usize)>)
    ensures
        r@.len() == text_lines(cs@).len(),
        forall|k: int| 0 <= k < r@.len() ==> #[trigger] r@[k].0 <= r@[k].1 <= cs@.len(),
        forall|k: int|
            0 <= k < r@.len() ==> #[trigger] text_lines(cs@)[k] == cs@.subrange(
                r@[k].0 as int,
                r@[k].1 as int,
            ),
{
    let n = cs.len();
    let mut r: Vec<(usize, usize)> = Vec::new();
    let mut pos: usize = 0;
    let ghost mut done: Seq<Seq<char>> = seq![];
    assert(cs@.subrange(0, n as int) =~= cs@);
    while pos < n
        invariant
            n == cs@.len(),
            pos <= n,
            text_lines(cs@) == done + text_lines(cs@.subrange(pos as int, n as int)),
            r@.len() == done.len(),
            forall|k: int| 0 <= k < r@.len() ==> #[trigger] r@[k].0 <= r@[k].1 <= cs@.len(),
            forall|k: int|
                0 <= k < r@.len() ==> #[trigger] done[k] == cs@.subrange(
                    r@[k].0 as int,
                    r@[k].1 as int,
                ),
        decreases n - pos,
    {
        let ghost rest = cs@.subrange(pos as int, n as int);
        let (end, next) = match find_in_range(cs, pos, n, '\n') {
            Some(i) => {
                let end = if i > pos && cs[i - 1] == '\r' {
                    i - 1
                } else {
                    i
                };
                proof {
                    lemma_find_char(rest, '\n');
                    assert(rest.take(i - pos) =~= cs@.subrange(pos as int, i as int));
                    assert(strip_cr(rest.take(i - pos)) =~= cs@.subrange(pos as int, end as int));
                    assert(rest.skip(i - pos + 1) =~= cs@.subrange(i + 1, n as int));
                }
                (end, i + 1)
            },
            None => {
                proof {
                    assert(text_lines(cs@.subrange(n as int, n as int)) == Seq::<Seq<char>>::empty());
                }
                (n, n)
            },
        };
        let ghost old_r = r@;
        let ghost old_done = done;
        proof {
            done = done.push(cs@.subrange(pos as int, end as int));
        }
        r.push((pos, end));
        assert(r@ =~= old_r.push((pos, end)));
        assert(done =~= old_done.push(cs@.subrange(pos as int, end as int)));
        pos = next;
    }
    proof {
        assert(cs@.subrange(n as int, n as int).len() == 0);
        assert(done + seq![] =~= done);
        assert(text_lines(cs@) == done);
        assert forall|k: int| 0 <= k < r@.len() implies #[trigger] text_lines(cs@)[k]
            == cs@.subrange(r@[k].0 as int, r@[k].1 as int) by {
            assert(done[k] == cs@.subrange(r@[k].0 as int, r@[k].1 as int));
        }
    }
    r
}

/// `ascii_lowercase(cs)`.
pub fn ascii_lowercase_chars(cs: &Vec<char>) -> (r: Vec<char>)
    ensures
        r@ == ascii_lowercase(cs@),
{
    let mut r: Vec<char> = Vec::new();
    let n = cs.len();
    for i in 0..n
        invariant
            n == cs@.len(),
            r@ =~= ascii_lowercase(cs@.take(i as int)),
    {
        let c = cs[i];
        let l = if 'A' <= c && c <= 'Z' {
            ((c as u8) + 32) as char
        } else {
            c
        };
        assert(cs@.take(i + 1) =~= cs@.take(i as int).push(c));
        r.push(l);
    }
    assert(cs@.take(n as int) =~= cs@);
    r
}

/// Whether `a` and `b[from..]` hold the same characters.
pub fn chars_equal_suffix(a: &Vec<char>, b: &Vec<char>, from: usize) -> (r: bool)
    requires
        from <= b@.len(),
    ensures
        r == (a@ == b@.subrange(from as int, b@.len() as int)),
{
    if a.len() != b.len() - from {
        return false;
    }
    let n = a.len();
    let bl = b.len();
    for i in 0..n
        invariant
            n == a@.len(),
            bl == b@.len(),
            from + n == bl,
            forall|j: int| 0 <= j < i ==> a@[j] == b@[from + j],
    {
        if a[i] != b[from + i] {
            assert(a@[i as int] != b@.subrange(from as int, b@.len() as int)[i as int]);
            return false;
        }
    }
    assert(a@ =~= b@.subrange(from as int, b@.len() as int));
    true
}

/// Whether `pattern` occurs in `s` as a contiguous piece.
pub open spec fn contains_seq(s: Seq<char>, pattern: Seq<char>) -> bool {
    exists|i: int|
        0 <= i && i + pattern.len() <= s.len() && #[trigger] s.subrange(i, i + pattern.len())
            == pattern
}

/// Whether `a` and `b` hold the same characters.
pub fn str_equals(a: &str, b: &str) -> (r: bool)
    ensures
        r == (a@ == b@),
{
    let ac = chars_of(a);
    let bc = chars_of(b);
    let r = chars_equal_suffix(&ac, &bc, 0);
    assert(bc@.subrange(0, bc@.len() as int) =~= bc@);
    r
}

/// Whether `pattern` occurs in `s`, as `str::contains` with a `&str`
/// pattern answers.
pub fn str_contains(s: &str, pattern: &str) -> (r: bool)
    ensures
        r == contains_seq(s@, pattern@),
{
    let sc = chars_of(s);
    let pc = chars_of(pattern);
    let n = sc.len();
    let m = pc.len();
    if m > n {
        assert forall|i: int| 0 <= i && i + pc@.len() <= sc@.len() implies #[trigger] sc@.subrange(
            i,
            i + pc@.len(),
        ) != pc@ by {}
        return false;
    }
    let mut i: usize = 0;
    while i <= n - m
        invariant
            n == sc@.len(),
            m == pc@.len(),
            sc@ == s@,
            pc@ == pattern@,
            m <= n,
            i <= n - m + 1,
            forall|j: int| 0 <= j < i ==> #[trigger] sc@.subrange(j, j + m) != pc@,
        decreases n - m + 1 - i,
    {
        let mut k: usize = 0;
        let mut same = true;
        while k < m
            invariant
                n == sc@.len(),
                m == pc@.len(),
                i + m <= n,
                k <= m,
                same == (forall|t: int| 0 <= t < k ==> sc@[i + t] == pc@[t]),
            decreases m - k,
        {
            if sc[i + k] != pc[k] {
                same = false;
            }
            k = k + 1;
        }
        if same {
            assert(sc@.subrange(i as int, i + m) =~= pc@);
            assert(sc@.subrange(i as int, i + pc@.len()) == pc@);
            return true;
        }
        assert(sc@.subrange(i as int, i + m) != pc@) by {
            let t = choose|t: int| 0 <= t < m && sc@[i + t] != pc@[t];
            assert(sc@.subrange(i as int, i + m)[t] != pc@[t]);
        }
        i = i + 1;
    }
    false
}

/// The decimal digit `d` as a character.
pub open spec fn digit_char(d: nat) -> char {
    (('0' as u32) + d) as char
}

/// The decimal notation of `n`, without sign or leading zeros.
pub open spec fn decimal(n: nat) -> Seq<char>
    decreases n,
{
    if n < 10 {
        seq![digit_char(n)]
    } else {
        decimal(n / 10).push(digit_char(n % 10))
    }
}

/// The decimal notation of `n` (see `decimal`).
pub fn usize_to_decimal(n: usize) -> (s: String)
    ensures
        s@ == decimal(n as nat),
{
    let mut digits: Vec<char> = Vec::new();
    let mut m = n;
    while m >= 10
        invariant
            decimal(n as nat) == decimal(m as nat) + digits@,
        decreases m,
    {
        let d = (m % 10) as u8;
        let c = (d + 48) as char;
        assert(c == digit_char((m % 10) as nat));
        proof {
            assert(decimal(m as nat) == decimal((m / 10) as nat).push(c));
            assert(decimal((m / 10) as nat).push(c) + digits@ =~= decimal((m / 10) as nat) + (
            seq![c] + digits@));
        }
        let ghost before = digits@;
        digits.insert(0, c);
        assert(digits@ =~= seq![c] + before);
        m = m / 10;
    }
    let c = ((m as u8) + 48) as char;
    assert(c == digit_char(m as nat));
    let ghost before = digits@;
    digits.insert(0, c);
    assert(digits@ =~= seq![c] + before);
    assert(decimal(m as nat) == seq![c]);
    string_from_chars(digits.as_slice())
}

} // verus!
