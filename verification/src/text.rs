//! Character-level text helpers shared by the SQL builders, the import and
//! export formats and the error messages.
//!
//! Text is processed as `Vec<char>` and turned into a `String` at the end;
//! every helper is specified over `Seq<char>`.
use vstd::prelude::*;

verus! {

/// `str::chars` collected: the characters of `s`, in order.
#[verifier::external_body]
pub(crate) fn chars_of(s: &str) -> (v: Vec<char>)
    ensures
        v@ == s@,
{
    s.chars().collect()
}

/// `String: FromIterator<char>`: the string made of the characters of `v`.
#[verifier::external_body]
pub(crate) fn string_of(v: &Vec<char>) -> (s: String)
    ensures
        s@ == v@,
{
    v.iter().collect()
}

/// Mapping commutes with appending one element.
pub proof fn lemma_map_push<A, B>(s: Seq<A>, x: A, f: spec_fn(A) -> B)
    ensures
        s.push(x).map_values(f) == s.map_values(f).push(f(x)),
{
    assert(s.push(x).map_values(f) =~= s.map_values(f).push(f(x)));
}

/// A prefix one longer is the prefix followed by the next element.
pub proof fn lemma_take_next<A>(s: Seq<A>, i: int)
    requires
        0 <= i < s.len(),
    ensures
        s.take(i + 1) == s.take(i).push(s[i]),
{
    assert(s.take(i + 1) =~= s.take(i).push(s[i]));
}

/// Appends the characters of `s` to `out`.
pub fn push_str(out: &mut Vec<char>, s: &str)
    ensures
        final(out)@ == old(out)@ + s@,
{
    let cs = chars_of(s);
    push_chars(out, &cs);
}

/// Appends the characters of `src` to `out`.
pub fn push_chars(out: &mut Vec<char>, src: &Vec<char>)
    ensures
        final(out)@ == old(out)@ + src@,
{
    let ghost start = out@;
    let mut i: usize = 0;
    while i < src.len()
        invariant
            i <= src@.len(),
            out@ == start + src@.take(i as int),
        decreases src@.len() - i,
    {
        out.push(src[i]);
        i = i + 1;
        assert(src@.take(i as int) == src@.take(i - 1).push(src@[i - 1]));
    }
    assert(src@.take(src@.len() as int) == src@);
}

/// The text `s` as a `String`.
pub fn text_of(s: &str) -> (r: String)
    ensures
        r@ == s@,
{
    let cs = chars_of(s);
    string_of(&cs)
}

// ---------------------------------------------------------------------------
// White space (Unicode `White_Space`, as `char::is_whitespace` and
// `str::trim` use it)
// ---------------------------------------------------------------------------

/// The Unicode `White_Space` characters.
pub open spec fn is_white(c: char) -> bool {
    let u = c as u32;
    ||| 0x09 <= u <= 0x0D
    ||| u == 0x20
    ||| u == 0x85
    ||| u == 0xA0
    ||| u == 0x1680
    ||| 0x2000 <= u <= 0x200A
    ||| u == 0x2028
    ||| u == 0x2029
    ||| u == 0x202F
    ||| u == 0x205F
    ||| u == 0x3000
}

/// Every character of `s` is white space (so `s.trim()` is empty).
pub open spec fn is_blank(s: Seq<char>) -> bool {
    forall|i: int| 0 <= i < s.len() ==> is_white(#[trigger] s[i])
}

pub fn char_is_white(c: char) -> (b: bool)
    ensures
        b == is_white(c),
{
    let u = c as u32;
    (0x09 <= u && u <= 0x0D) || u == 0x20 || u == 0x85 || u == 0xA0 || u == 0x1680 || (0x2000
        <= u && u <= 0x200A) || u == 0x2028 || u == 0x2029 || u == 0x202F || u == 0x205F || u
        == 0x3000
}

pub fn chars_blank(s: &Vec<char>) -> (b: bool)
    ensures
        b == is_blank(s@),
{
    let mut i: usize = 0;
    while i < s.len()
        invariant
            i <= s@.len(),
            forall|j: int| 0 <= j < i ==> is_white(#[trigger] s@[j]),
        decreases s@.len() - i,
    {
        if !char_is_white(s[i]) {
            return false;
        }
        i = i + 1;
    }
    true
}

/// Index of the first character that is not white space at or after `from`
/// (or `s.len()`).
pub open spec fn first_nonwhite(s: Seq<char>, from: int) -> int
    decreases s.len() - from,
{
    if from >= s.len() {
        s.len() as int
    } else if !is_white(s[from]) {
        from
    } else {
        first_nonwhite(s, from + 1)
    }
}

/// One past the last character that is not white space before `to`
/// (or `lo` when there is none in `lo..to`).
pub open spec fn last_nonwhite_end(s: Seq<char>, lo: int, to: int) -> int
    decreases to - lo,
{
    if to <= lo {
        lo
    } else if !is_white(s[to - 1]) {
        to
    } else {
        last_nonwhite_end(s, lo, to - 1)
    }
}

/// `str::trim`: `s` without leading and trailing white space.
pub open spec fn trimmed(s: Seq<char>) -> Seq<char> {
    let lo = first_nonwhite(s, 0);
    s.subrange(lo, last_nonwhite_end(s, lo, s.len() as int))
}

proof fn lemma_first_nonwhite_bounds(s: Seq<char>, from: int)
    requires
        0 <= from <= s.len(),
    ensures
        from <= first_nonwhite(s, from) <= s.len(),
    decreases s.len() - from,
{
    if from < s.len() && is_white(s[from]) {
        lemma_first_nonwhite_bounds(s, from + 1);
    }
}

proof fn lemma_last_nonwhite_bounds(s: Seq<char>, lo: int, to: int)
    requires
        0 <= lo <= to <= s.len(),
    ensures
        lo <= last_nonwhite_end(s, lo, to) <= to,
    decreases to - lo,
{
    if to > lo && is_white(s[to - 1]) {
        lemma_last_nonwhite_bounds(s, lo, to - 1);
    }
}

/// `str::trim` on a character vector.
pub fn trim_chars(s: &Vec<char>) -> (r: Vec<char>)
    ensures
        r@ == trimmed(s@),
{
    let n = s.len();
    let mut lo: usize = 0;
    while lo < n && char_is_white(s[lo])
        invariant
            lo <= n,
            n == s@.len(),
            first_nonwhite(s@, 0) == first_nonwhite(s@, lo as int),
        decreases n - lo,
    {
        lo = lo + 1;
    }
    let mut hi: usize = n;
    while hi > lo && char_is_white(s[hi - 1])
        invariant
            lo <= hi <= n,
            n == s@.len(),
            last_nonwhite_end(s@, lo as int, n as int) == last_nonwhite_end(s@, lo as int, hi as int),
        decreases hi - lo,
    {
        hi = hi - 1;
    }
    let mut r: Vec<char> = Vec::new();
    let mut i: usize = lo;
    while i < hi
        invariant
            lo <= i <= hi <= n,
            n == s@.len(),
            r@ == s@.subrange(lo as int, i as int),
        decreases hi - i,
    {
        r.push(s[i]);
        i = i + 1;
        assert(s@.subrange(lo as int, i as int) == s@.subrange(lo as int, i - 1).push(s@[i - 1]));
    }
    r
}


// ---------------------------------------------------------------------------
// Pairs keyed by name
// ---------------------------------------------------------------------------

/// No name occurs twice among the pairs (as among the keys of a map).
pub open spec fn names_distinct<V>(p: Seq<(String, V)>) -> bool {
    forall|i: int, j: int| 0 <= i < j < p.len() ==> p[i].0@ != p[j].0@
}

/// Whether no name occurs twice among the pairs.
pub fn first_names_distinct<V>(p: &Vec<(String, V)>) -> (b: bool)
    ensures
        b == names_distinct(p@),
{
    let mut i: usize = 0;
    while i < p.len()
        invariant
            i <= p@.len(),
            forall|a: int, c: int| 0 <= a < c < p@.len() && a < i ==> p@[a].0@ != p@[c].0@,
        decreases p@.len() - i,
    {
        let mut j: usize = i + 1;
        while j < p.len()
            invariant
                i < p@.len(),
                i < j <= p@.len(),
                forall|a: int, c: int| 0 <= a < c < p@.len() && a < i ==> p@[a].0@ != p@[c].0@,
                forall|c: int| i < c < j ==> p@[i as int].0@ != p@[c].0@,
            decreases p@.len() - j,
        {
            if p[i].0 == p[j].0 {
                return false;
            }
            j = j + 1;
        }
        i = i + 1;
    }
    true
}

// ---------------------------------------------------------------------------
// SQL string literals
// ---------------------------------------------------------------------------

/// `s.replace('\'', "''")`: every single quote doubled.
pub open spec fn escape_quotes(s: Seq<char>) -> Seq<char>
    decreases s.len(),
{
    if s.len() == 0 {
        seq![]
    } else {
        let piece = if s.last() == '\'' {
            seq!['\'', '\'']
        } else {
            seq![s.last()]
        };
        escape_quotes(s.drop_last()) + piece
    }
}

/// `format!("'{}'", s.replace('\'', "''"))`.
pub open spec fn quoted_literal(s: Seq<char>) -> Seq<char> {
    seq!['\''] + escape_quotes(s) + seq!['\'']
}

/// How SQL reads the body of a string literal (the text after its opening
/// quote): `''` stands for one quote and a lone quote closes the literal.
/// The value read and the text after the closing quote; `None` when the
/// literal is not closed.
pub open spec fn read_literal(t: Seq<char>) -> Option<(Seq<char>, Seq<char>)>
    decreases t.len(),
{
    if t.len() == 0 {
        None
    } else if t[0] == '\'' && t.len() >= 2 && t[1] == '\'' {
        match read_literal(t.skip(2)) {
            Some(r) => Some((seq!['\''] + r.0, r.1)),
            None => None,
        }
    } else if t[0] == '\'' {
        Some((Seq::<char>::empty(), t.skip(1)))
    } else {
        match read_literal(t.skip(1)) {
            Some(r) => Some((seq![t[0]] + r.0, r.1)),
            None => None,
        }
    }
}

proof fn lemma_escape_concat(a: Seq<char>, b: Seq<char>)
    ensures
        escape_quotes(a + b) == escape_quotes(a) + escape_quotes(b),
    decreases b.len(),
{
    if b.len() == 0 {
        assert(a + b =~= a);
        assert(escape_quotes(b) =~= Seq::<char>::empty());
        assert(escape_quotes(a) + escape_quotes(b) =~= escape_quotes(a));
    } else {
        let ab = a + b;
        assert(ab.drop_last() =~= a + b.drop_last());
        assert(ab.last() == b.last());
        lemma_escape_concat(a, b.drop_last());
        let piece = if b.last() == '\'' {
            seq!['\'', '\'']
        } else {
            seq![b.last()]
        };
        assert(escape_quotes(ab) == escape_quotes(a + b.drop_last()) + piece);
        assert(escape_quotes(b) == escape_quotes(b.drop_last()) + piece);
        assert(escape_quotes(ab) =~= escape_quotes(a) + escape_quotes(b));
    }
}

/// A quoted literal reads back as its text, and ends where it was closed:
/// SQL reads `escape_quotes(s)` followed by the closing quote as exactly `s`,
/// leaving what follows (when that does not begin with a quote) untouched.
pub proof fn law_literal_reads_back(s: Seq<char>, rest: Seq<char>)
    requires
        !(rest.len() > 0 && rest[0] == '\''),
    ensures
        read_literal(escape_quotes(s) + seq!['\''] + rest) == Some((s, rest)),
    decreases s.len(),
{
    let t = escape_quotes(s) + seq!['\''] + rest;
    if s.len() == 0 {
        assert(escape_quotes(s) =~= Seq::<char>::empty());
        assert(t =~= seq!['\''] + rest);
        assert(t.skip(1) =~= rest);
        assert(s =~= Seq::<char>::empty());
    } else {
        let c = s[0];
        let tail = s.skip(1);
        assert(s =~= seq![c] + tail);
        lemma_escape_concat(seq![c], tail);
        law_literal_reads_back(tail, rest);
        let inner = escape_quotes(tail) + seq!['\''] + rest;
        assert(escape_quotes(seq![c]) == escape_quotes(Seq::<char>::empty()) + (if c == '\'' {
            seq!['\'', '\'']
        } else {
            seq![c]
        })) by {
            assert(seq![c].drop_last() =~= Seq::<char>::empty());
        }
        assert(escape_quotes(Seq::<char>::empty()) =~= Seq::<char>::empty());
        if c == '\'' {
            assert(t =~= seq!['\'', '\''] + inner);
            assert(t.skip(2) =~= inner);
            assert(seq!['\''] + tail =~= s);
        } else {
            assert(t =~= seq![c] + inner);
            assert(t.skip(1) =~= inner);
            assert(seq![c] + tail =~= s);
        }
    }
}

/// Appends `s` with its single quotes doubled.
pub fn push_escaped(out: &mut Vec<char>, s: &Vec<char>)
    ensures
        final(out)@ == old(out)@ + escape_quotes(s@),
{
    let ghost start = out@;
    let mut i: usize = 0;
    while i < s.len()
        invariant
            i <= s@.len(),
            out@ == start + escape_quotes(s@.take(i as int)),
        decreases s@.len() - i,
    {
        let c = s[i];
        if c == '\'' {
            out.push('\'');
            out.push('\'');
        } else {
            out.push(c);
        }
        i = i + 1;
        assert(s@.take(i as int).drop_last() == s@.take(i - 1));
    }
    assert(s@.take(s@.len() as int) == s@);
}

/// Appends `'s'` with the single quotes of `s` doubled.
pub fn push_quoted(out: &mut Vec<char>, s: &str)
    ensures
        final(out)@ == old(out)@ + quoted_literal(s@),
{
    let cs = chars_of(s);
    out.push('\'');
    push_escaped(out, &cs);
    out.push('\'');
}

// ---------------------------------------------------------------------------
// Decimal text of integers (as `Display` writes them)
// ---------------------------------------------------------------------------

pub open spec fn digit_char(d: nat) -> char {
    if d == 0 {
        '0'
    } else if d == 1 {
        '1'
    } else if d == 2 {
        '2'
    } else if d == 3 {
        '3'
    } else if d == 4 {
        '4'
    } else if d == 5 {
        '5'
    } else if d == 6 {
        '6'
    } else if d == 7 {
        '7'
    } else if d == 8 {
        '8'
    } else {
        '9'
    }
}

/// Decimal digits of `n`, most significant first, without leading zeros.
pub open spec fn nat_text(n: nat) -> Seq<char>
    decreases n,
{
    if n < 10 {
        seq![digit_char(n)]
    } else {
        nat_text(n / 10).push(digit_char(n % 10))
    }
}

/// Decimal text of `i`, with a leading `-` when negative.
pub open spec fn int_text(i: int) -> Seq<char> {
    if i < 0 {
        seq!['-'] + nat_text((-i) as nat)
    } else {
        nat_text(i as nat)
    }
}

fn digit(d: u64) -> (c: char)
    requires
        d < 10,
    ensures
        c == digit_char(d as nat),
{
    if d == 0 {
        '0'
    } else if d == 1 {
        '1'
    } else if d == 2 {
        '2'
    } else if d == 3 {
        '3'
    } else if d == 4 {
        '4'
    } else if d == 5 {
        '5'
    } else if d == 6 {
        '6'
    } else if d == 7 {
        '7'
    } else if d == 8 {
        '8'
    } else {
        '9'
    }
}

/// Appends the decimal text of `n`.
pub fn push_u64(out: &mut Vec<char>, n: u64)
    ensures
        final(out)@ == old(out)@ + nat_text(n as nat),
    decreases n,
{
    if n < 10 {
        out.push(digit(n));
    } else {
        push_u64(out, n / 10);
        out.push(digit(n % 10));
    }
}

/// Appends the decimal text of `n`.
pub fn push_i64(out: &mut Vec<char>, n: i64)
    ensures
        final(out)@ == old(out)@ + int_text(n as int),
{
    if n < 0 {
        let m: u64 = if n == i64::MIN {
            9223372036854775808u64
        } else {
            (-n) as u64
        };
        out.push('-');
        push_u64(out, m);
    } else {
        push_u64(out, n as u64);
    }
}

// ---------------------------------------------------------------------------
// Joining
// ---------------------------------------------------------------------------

/// `parts.join(sep)`.
pub open spec fn join(parts: Seq<Seq<char>>, sep: Seq<char>) -> Seq<char>
    decreases parts.len(),
{
    if parts.len() == 0 {
        seq![]
    } else if parts.len() == 1 {
        parts[0]
    } else {
        join(parts.drop_last(), sep) + sep + parts.last()
    }
}

/// The views of a vector of strings.
pub open spec fn views(v: Seq<String>) -> Seq<Seq<char>> {
    v.map_values(|s: String| s@)
}

/// Appends `parts.join(sep)`.
pub fn push_join(out: &mut Vec<char>, parts: &Vec<String>, sep: &str)
    ensures
        final(out)@ == old(out)@ + join(views(parts@), sep@),
{
    let ghost start = out@;
    let ghost vs = views(parts@);
    let mut i: usize = 0;
    while i < parts.len()
        invariant
            i <= parts@.len(),
            vs == views(parts@),
            out@ == start + join(vs.take(i as int), sep@),
        decreases parts@.len() - i,
    {
        assert(vs.take(i + 1).drop_last() == vs.take(i as int));
        if i > 0 {
            push_str(out, sep);
        }
        push_str(out, parts[i].as_str());
        i = i + 1;
    }
    assert(vs.take(parts@.len() as int) == vs);
}

/// `parts.join(sep)`.
pub fn join_strings(parts: &Vec<String>, sep: &str) -> (s: String)
    ensures
        s@ == join(views(parts@), sep@),
{
    let mut v: Vec<char> = Vec::new();
    push_join(&mut v, parts, sep);
    string_of(&v)
}

// ---------------------------------------------------------------------------
// Comparisons
// ---------------------------------------------------------------------------

/// ASCII lower case of a character code; other characters unchanged.
pub open spec fn ascii_lower(u: u32) -> u32 {
    if 0x41 <= u <= 0x5A {
        (u + 0x20) as u32
    } else {
        u
    }
}

/// `str::eq_ignore_ascii_case`.
pub open spec fn eq_ignore_ascii_case(a: Seq<char>, b: Seq<char>) -> bool {
    &&& a.len() == b.len()
    &&& forall|i: int| 0 <= i < a.len() ==> ascii_lower(#[trigger] a[i] as u32) == ascii_lower(b[i] as u32)
}

pub fn chars_eq_ignore_ascii_case(a: &Vec<char>, b: &Vec<char>) -> (r: bool)
    ensures
        r == eq_ignore_ascii_case(a@, b@),
{
    if a.len() != b.len() {
        return false;
    }
    let mut i: usize = 0;
    while i < a.len()
        invariant
            i <= a@.len(),
            a@.len() == b@.len(),
            forall|j: int| 0 <= j < i ==> ascii_lower(#[trigger] a@[j] as u32) == ascii_lower(b@[j] as u32),
        decreases a@.len() - i,
    {
        let x = a[i] as u32;
        let y = b[i] as u32;
        let lx = if 0x41 <= x && x <= 0x5A { x + 0x20 } else { x };
        let ly = if 0x41 <= y && y <= 0x5A { y + 0x20 } else { y };
        if lx != ly {
            return false;
        }
        i = i + 1;
    }
    true
}

/// `str::starts_with` for a string prefix.
pub open spec fn starts_with(s: Seq<char>, prefix: Seq<char>) -> bool {
    prefix.len() <= s.len() && s.take(prefix.len() as int) == prefix
}

pub fn chars_start_with(s: &Vec<char>, prefix: &str) -> (r: bool)
    ensures
        r == starts_with(s@, prefix@),
{
    let p = chars_of(prefix);
    if p.len() > s.len() {
        return false;
    }
    let mut i: usize = 0;
    while i < p.len()
        invariant
            i <= p@.len() <= s@.len(),
            p@ == prefix@,
            forall|j: int| 0 <= j < i ==> s@[j] == p@[j],
        decreases p@.len() - i,
    {
        if s[i] != p[i] {
            assert(s@.take(p@.len() as int)[i as int] != p@[i as int]);
            return false;
        }
        i = i + 1;
    }
    assert(s@.take(p@.len() as int) =~= p@);
    true
}

/// `String`'s `Ord`: lexicographic order of the characters (the same order as
/// the UTF-8 bytes).
pub open spec fn text_lt(a: Seq<char>, b: Seq<char>) -> bool
    decreases a.len(),
{
    if b.len() == 0 {
        false
    } else if a.len() == 0 {
        true
    } else if (a[0] as u32) < (b[0] as u32) {
        true
    } else if (a[0] as u32) > (b[0] as u32) {
        false
    } else {
        text_lt(a.drop_first(), b.drop_first())
    }
}

/// Distinct characters have distinct codes.
pub proof fn lemma_char_code_injective(a: char, b: char)
    requires
        a != b,
    ensures
        (a as u32) != (b as u32),
{
    vstd::utf8::char_u32_cast(a, a as u32);
    vstd::utf8::char_u32_cast(b, b as u32);
}

pub fn chars_lt(a: &Vec<char>, b: &Vec<char>) -> (r: bool)
    ensures
        r == text_lt(a@, b@),
{
    let mut i: usize = 0;
    assert(a@.skip(0) == a@);
    assert(b@.skip(0) == b@);
    while i < a.len() && i < b.len() && a[i] == b[i]
        invariant
            i <= a@.len(),
            i <= b@.len(),
            text_lt(a@, b@) == text_lt(a@.skip(i as int), b@.skip(i as int)),
        decreases a@.len() - i,
    {
        assert(a@.skip(i as int).drop_first() == a@.skip(i + 1));
        assert(b@.skip(i as int).drop_first() == b@.skip(i + 1));
        i = i + 1;
    }
    proof {
    if i < a@.len() && i < b@.len() {
        assert(a@.skip(i as int)[0] == a@[i as int]);
        assert(b@.skip(i as int)[0] == b@[i as int]);
        assert(a@[i as int] != b@[i as int]);
        lemma_char_code_injective(a@[i as int], b@[i as int]);
    }
    }
    assert(text_lt(a@.skip(i as int), b@.skip(i as int)) == if i == b@.len() {
        false
    } else if i == a@.len() {
        true
    } else {
        (a@[i as int] as u32) < (b@[i as int] as u32)
    });
    if i == b.len() {
        false
    } else if i == a.len() {
        true
    } else {
        (a[i] as u32) < (b[i] as u32)
    }
}


/// `text_lt` is irreflexive.
pub proof fn lemma_text_lt_irreflexive(a: Seq<char>)
    ensures
        !text_lt(a, a),
    decreases a.len(),
{
    if a.len() > 0 {
        lemma_text_lt_irreflexive(a.drop_first());
    }
}

/// `text_lt` is transitive.
pub proof fn lemma_text_lt_transitive(a: Seq<char>, b: Seq<char>, c: Seq<char>)
    requires
        text_lt(a, b),
        text_lt(b, c),
    ensures
        text_lt(a, c),
    decreases a.len(),
{
    if a.len() > 0 && b.len() > 0 && c.len() > 0 {
        if (a[0] as u32) == (b[0] as u32) && (b[0] as u32) == (c[0] as u32) {
            lemma_text_lt_transitive(a.drop_first(), b.drop_first(), c.drop_first());
        }
    }
}

/// Two distinct texts are ordered one way or the other.
pub proof fn lemma_text_lt_total(a: Seq<char>, b: Seq<char>)
    requires
        a != b,
    ensures
        text_lt(a, b) || text_lt(b, a),
    decreases a.len(),
{
    if a.len() > 0 && b.len() > 0 {
        if (a[0] as u32) == (b[0] as u32) {
            vstd::utf8::char_u32_cast(a[0], a[0] as u32);
            vstd::utf8::char_u32_cast(b[0], b[0] as u32);
            assert(a[0] == b[0]);
            if a.drop_first() == b.drop_first() {
                assert(a.drop_first().len() == a.len() - 1);
                assert(b.drop_first().len() == b.len() - 1);
                assert(a.len() == b.len());
                assert forall|i: int| 0 <= i < a.len() implies a[i] == b[i] by {
                    if i > 0 {
                        assert(a[i] == a.drop_first()[i - 1]);
                        assert(b[i] == b.drop_first()[i - 1]);
                    }
                }
                assert(a =~= b);
            }
            lemma_text_lt_total(a.drop_first(), b.drop_first());
        }
    } else if a.len() == 0 && b.len() == 0 {
        assert(a =~= b);
    }
}

/// `str::to_uppercase`, named: the full Unicode upper-casing of `s`.
pub uninterp spec fn upper_cased(s: Seq<char>) -> Seq<char>;

/// `str::to_uppercase` (std): Unicode upper-casing. Only the name is claimed:
/// the result is `upper_cased` of the argument's characters.
#[verifier::external_body]
pub(crate) fn to_upper(s: &str) -> (r: String)
    ensures
        r@ == upper_cased(s@),
{
    s.to_uppercase()
}

} // verus!
