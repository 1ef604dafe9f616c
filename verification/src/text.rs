//! Text operations over `&str`, stated on the sequence of characters.

use vstd::prelude::*;
use vstd::string::*;

verus! {

/// `std::string::String::push`: appends the character at the end.
pub assume_specification[ String::push ](s: &mut String, ch: char)
    ensures
        final(s)@ == old(s)@.push(ch),
;

/// `std::string::String::pop`: removes the last character and returns it, or
/// returns `None` where there is none.
pub assume_specification[ String::pop ](s: &mut String) -> (last: Option<char>)
    ensures
        old(s)@.len() == 0 ==> last is None && final(s)@ == old(s)@,
        old(s)@.len() > 0 ==> last == Some(old(s)@.last()) && final(s)@ == old(s)@.drop_last(),
;

/// The characters with the Unicode property `White_Space`.
pub open spec fn is_white_space(c: char) -> bool {
    ||| 0x9 <= c as u32 <= 0xd
    ||| c as u32 == 0x20
    ||| c as u32 == 0x85
    ||| c as u32 == 0xa0
    ||| c as u32 == 0x1680
    ||| 0x2000 <= c as u32 <= 0x200a
    ||| c as u32 == 0x2028
    ||| c as u32 == 0x2029
    ||| c as u32 == 0x202f
    ||| c as u32 == 0x205f
    ||| c as u32 == 0x3000
}

/// Whether `c` is white space.
pub fn white_space(c: char) -> (r: bool)
    ensures
        r == is_white_space(c),
{
    let u: u32 = c as u32;
    (0x9 <= u && u <= 0xd) || u == 0x20 || u == 0x85 || u == 0xa0 || u == 0x1680 || (0x2000 <= u
        && u <= 0x200a) || u == 0x2028 || u == 0x2029 || u == 0x202f || u == 0x205f || u == 0x3000
}

/// `s` without its leading white space.
pub open spec fn trim_start(s: Seq<char>) -> Seq<char>
    decreases s.len(),
{
    if s.len() > 0 && is_white_space(s.first()) {
        trim_start(s.drop_first())
    } else {
        s
    }
}

/// `s` without its trailing white space.
pub open spec fn trim_end(s: Seq<char>) -> Seq<char>
    decreases s.len(),
{
    if s.len() > 0 && is_white_space(s.last()) {
        trim_end(s.drop_last())
    } else {
        s
    }
}

/// `s` without its leading and trailing white space.
pub open spec fn trimmed(s: Seq<char>) -> Seq<char> {
    trim_end(trim_start(s))
}

/// `s` without the run of `c` at its end.
pub open spec fn without_trailing(s: Seq<char>, c: char) -> Seq<char>
    decreases s.len(),
{
    if s.len() > 0 && s.last() == c {
        without_trailing(s.drop_last(), c)
    } else {
        s
    }
}

/// What follows `prefix` in `s`, where `s` starts with it.
pub open spec fn after_prefix(s: Seq<char>, prefix: Seq<char>) -> Option<Seq<char>> {
    if prefix.is_prefix_of(s) {
        Some(s.skip(prefix.len() as int))
    } else {
        None
    }
}

/// What precedes `suffix` in `s`, where `s` ends with it.
pub open spec fn before_suffix(s: Seq<char>, suffix: Seq<char>) -> Option<Seq<char>> {
    if suffix.is_suffix_of(s) {
        Some(s.take(s.len() - suffix.len()))
    } else {
        None
    }
}

/// `part` occurs in `s` at position `i`.
pub open spec fn occurs_at(s: Seq<char>, part: Seq<char>, i: int) -> bool {
    0 <= i && i + part.len() <= s.len() && s.subrange(i, i + part.len()) == part
}

/// `part` occurs somewhere in `s`.
pub open spec fn contains_text(s: Seq<char>, part: Seq<char>) -> bool {
    exists|i: int| occurs_at(s, part, i)
}

/// The texts of a sequence of strings.
pub open spec fn texts(v: Seq<String>) -> Seq<Seq<char>> {
    v.map_values(|s: String| s@)
}

/// The text of an optional string.
pub open spec fn text_of(s: Option<String>) -> Option<Seq<char>> {
    match s {
        Some(s) => Some(s@),
        None => None,
    }
}

/// The characters of `s`.
pub fn chars_of(s: &str) -> (v: Vec<char>)
    ensures
        v@ == s@,
{
    let mut v: Vec<char> = Vec::new();
    let n: usize = s.unicode_len();
    let mut it = s.chars();
    let mut i: usize = 0;
    while i < n
        invariant
            i <= n,
            n == s@.len(),
            v@ == s@.take(i as int),
            vstd::std_specs::iter::IteratorSpec::remaining(&it) == s@.skip(i as int),
        decreases n - i,
    {
        match it.next() {
            Some(c) => {
                v.push(c);
            },
            None => {},
        }
        i = i + 1;
    }
    v
}

/// The first character of `s`.
pub fn first_char(s: &str) -> (r: Option<char>)
    ensures
        r == (if s@.len() > 0 {
            Some(s@[0])
        } else {
            None
        }),
{
    if s.is_empty() {
        None
    } else {
        Some(s.get_char(0))
    }
}

/// `s` without its first character.
pub fn tail(s: &str) -> (r: &str)
    requires
        s@.len() > 0,
    ensures
        r@ == s@.skip(1),
{
    let n: usize = s.unicode_len();
    assert(s@.subrange(1, n as int) =~= s@.skip(1));
    s.substring_char(1, n)
}

/// The string made of `v[from..to]`.
pub fn string_of(v: &Vec<char>, from: usize, to: usize) -> (r: String)
    requires
        from <= to <= v@.len(),
    ensures
        r@ == v@.subrange(from as int, to as int),
{
    let mut r = String::new();
    let mut i: usize = from;
    while i < to
        invariant
            from <= i <= to <= v@.len(),
            r@ == v@.subrange(from as int, i as int),
        decreases to - i,
    {
        r.push(v[i]);
        i = i + 1;
    }
    r
}

/// Whether the two texts are equal.
pub fn same_text(a: &str, b: &str) -> (r: bool)
    ensures
        r == (a@ == b@),
{
    let x = chars_of(a);
    let y = chars_of(b);
    if x.len() != y.len() {
        return false;
    }
    let mut i: usize = 0;
    while i < x.len()
        invariant
            i <= x@.len(),
            x@.len() == y@.len(),
            x@ == a@,
            y@ == b@,
            forall|j: int| 0 <= j < i ==> x@[j] == y@[j],
        decreases x.len() - i,
    {
        if x[i] != y[i] {
            return false;
        }
        i = i + 1;
    }
    assert(x@ =~= y@);
    true
}

/// Whether the two optional texts are equal.
pub fn same_optional_text(a: &Option<String>, b: &Option<String>) -> (r: bool)
    ensures
        r == (text_of(*a) == text_of(*b)),
{
    match (a, b) {
        (Some(x), Some(y)) => same_text(x.as_str(), y.as_str()),
        (None, None) => true,
        _ => false,
    }
}

/// A copy of an optional string.
pub fn copy_optional_text(a: &Option<String>) -> (r: Option<String>)
    ensures
        r == *a,
{
    match a {
        Some(x) => Some(x.clone()),
        None => None,
    }
}

/// A copy of a list of strings.
pub fn copy_texts(v: &Vec<String>) -> (r: Vec<String>)
    ensures
        r@ == v@,
{
    let mut r: Vec<String> = Vec::new();
    let mut i: usize = 0;
    while i < v.len()
        invariant
            i <= v@.len(),
            r@ == v@.take(i as int),
        decreases v.len() - i,
    {
        r.push(v[i].clone());
        i = i + 1;
    }
    r
}

/// Whether the two lists hold the same texts in the same order.
pub fn same_texts(a: &Vec<String>, b: &Vec<String>) -> (r: bool)
    ensures
        r == (texts(a@) == texts(b@)),
{
    if a.len() != b.len() {
        assert(texts(a@).len() != texts(b@).len());
        return false;
    }
    let mut i: usize = 0;
    while i < a.len()
        invariant
            i <= a@.len(),
            a@.len() == b@.len(),
            forall|j: int| 0 <= j < i ==> (#[trigger] a@[j])@ == b@[j]@,
        decreases a.len() - i,
    {
        if !same_text(a[i].as_str(), b[i].as_str()) {
            assert(texts(a@)[i as int] != texts(b@)[i as int]);
            return false;
        }
        i = i + 1;
    }
    assert(texts(a@) =~= texts(b@));
    true
}

/// Removes leading white space from `s[from..to]` and gives the index where the rest starts.
fn skip_white_space(v: &Vec<char>) -> (from: usize)
    ensures
        from <= v@.len(),
        trim_start(v@) == v@.skip(from as int),
{
    let mut i: usize = 0;
    assert(v@.skip(0) =~= v@);
    while i < v.len() && white_space(v[i])
        invariant
            i <= v@.len(),
            trim_start(v@) == trim_start(v@.skip(i as int)),
        decreases v.len() - i,
    {
        assert(v@.skip(i as int).drop_first() =~= v@.skip(i + 1));
        i = i + 1;
    }
    i
}

/// The text without its leading and trailing white space.
pub fn trim(s: &str) -> (r: &str)
    ensures
        r@ == trimmed(s@),
{
    let v = chars_of(s);
    let from = skip_white_space(&v);
    let mut to: usize = v.len();
    assert(v@.subrange(from as int, to as int) =~= v@.skip(from as int));
    while from < to && white_space(v[to - 1])
        invariant
            v@ == s@,
            from <= to <= v@.len(),
            trim_start(v@) == v@.skip(from as int),
            trim_end(v@.skip(from as int)) == trim_end(v@.subrange(from as int, to as int)),
        decreases to,
    {
        assert(v@.subrange(from as int, to as int).drop_last() =~= v@.subrange(
            from as int,
            to - 1,
        ));
        to = to - 1;
    }
    s.substring_char(from, to)
}

/// The text without the run of `c` at its end.
pub fn trim_end_of<'a>(s: &'a str, c: char) -> (r: &'a str)
    ensures
        r@ == without_trailing(s@, c),
{
    let v = chars_of(s);
    let mut to: usize = v.len();
    assert(v@.take(to as int) =~= v@);
    while 0 < to && v[to - 1] == c
        invariant
            v@ == s@,
            to <= v@.len(),
            without_trailing(v@, c) == without_trailing(v@.take(to as int), c),
        decreases to,
    {
        assert(v@.take(to as int).drop_last() =~= v@.take(to - 1));
        to = to - 1;
    }
    assert(s@.subrange(0, to as int) =~= v@.take(to as int));
    s.substring_char(0, to)
}

/// Whether `part` stands in `v` at position `at`.
fn stands_at(v: &Vec<char>, part: &Vec<char>, at: usize) -> (r: bool)
    requires
        at + part@.len() <= v@.len(),
    ensures
        r == occurs_at(v@, part@, at as int),
{
    let n: usize = v.len();
    let mut i: usize = 0;
    while i < part.len()
        invariant
            i <= part@.len(),
            n == v@.len(),
            at + part@.len() <= v@.len(),
            forall|j: int| 0 <= j < i ==> v@[at + j] == part@[j],
        decreases part.len() - i,
    {
        if v[at + i] != part[i] {
            assert(v@.subrange(at as int, at + part@.len())[i as int] != part@[i as int]);
            return false;
        }
        i = i + 1;
    }
    assert(v@.subrange(at as int, at + part@.len()) =~= part@);
    true
}

/// What follows `prefix` in `s`, where `s` starts with it.
pub fn strip_prefix<'a>(s: &'a str, prefix: &str) -> (r: Option<&'a str>)
    ensures
        match r {
            Some(rest) => after_prefix(s@, prefix@) == Some(rest@),
            None => after_prefix(s@, prefix@) is None,
        },
{
    let v = chars_of(s);
    let p = chars_of(prefix);
    if p.len() <= v.len() && stands_at(&v, &p, 0) {
        assert(s@.subrange(0, prefix@.len() as int) =~= s@.take(prefix@.len() as int));
        assert(s@.subrange(p@.len() as int, v@.len() as int) =~= s@.skip(prefix@.len() as int));
        assert(prefix@.is_prefix_of(s@));
        Some(s.substring_char(p.len(), v.len()))
    } else {
        assert(!prefix@.is_prefix_of(s@)) by {
            if prefix@.is_prefix_of(s@) {
                assert(s@.subrange(0, prefix@.len() as int) =~= prefix@);
            }
        }
        None
    }
}

/// What precedes `suffix` in `s`, where `s` ends with it.
pub fn strip_suffix<'a>(s: &'a str, suffix: &str) -> (r: Option<&'a str>)
    ensures
        match r {
            Some(rest) => before_suffix(s@, suffix@) == Some(rest@),
            None => before_suffix(s@, suffix@) is None,
        },
{
    let v = chars_of(s);
    let p = chars_of(suffix);
    if p.len() <= v.len() && stands_at(&v, &p, v.len() - p.len()) {
        assert(s@.subrange(s@.len() - suffix@.len(), s@.len() as int) =~= suffix@);
        assert(s@.subrange(0, s@.len() - suffix@.len()) =~= s@.take(s@.len() - suffix@.len()));
        assert(suffix@.is_suffix_of(s@));
        Some(s.substring_char(0, v.len() - p.len()))
    } else {
        assert(!suffix@.is_suffix_of(s@)) by {
            if suffix@.is_suffix_of(s@) {
                assert(s@.subrange(s@.len() - suffix@.len(), s@.len() as int) =~= suffix@);
            }
        }
        None
    }
}

/// Whether `s` starts with `prefix`.
pub fn starts_with(s: &str, prefix: &str) -> (r: bool)
    ensures
        r == prefix@.is_prefix_of(s@),
{
    strip_prefix(s, prefix).is_some()
}

/// Whether `s` ends with `suffix`.
pub fn ends_with(s: &str, suffix: &str) -> (r: bool)
    ensures
        r == suffix@.is_suffix_of(s@),
{
    strip_suffix(s, suffix).is_some()
}

/// Whether `part` occurs in `s`.
pub fn contains(s: &str, part: &str) -> (r: bool)
    ensures
        r == contains_text(s@, part@),
{
    let v = chars_of(s);
    let p = chars_of(part);
    if p.len() > v.len() {
        return false;
    }
    let last: usize = v.len() - p.len();
    let mut i: usize = 0;
    while i < last
        invariant
            v@ == s@,
            p@ == part@,
            last + p@.len() == v@.len(),
            i <= last,
            forall|j: int| 0 <= j < i ==> !occurs_at(s@, part@, j),
        decreases last - i,
    {
        if stands_at(&v, &p, i) {
            return true;
        }
        i = i + 1;
    }
    stands_at(&v, &p, last)
}

/// The position of the first line feed in `s`, or the length of `s`.
pub open spec fn first_line_feed(s: Seq<char>) -> int
    decreases s.len(),
{
    if s.len() == 0 || s.first() == '\n' {
        0
    } else {
        1 + first_line_feed(s.drop_first())
    }
}

/// `s` without one carriage return at its end.
pub open spec fn without_carriage_return(s: Seq<char>) -> Seq<char> {
    if s.len() > 0 && s.last() == '\r' {
        s.drop_last()
    } else {
        s
    }
}

/// The lines of a text. A line ends with a line feed, which may follow a
/// carriage return; the last line may go without.
pub open spec fn lines_of(s: Seq<char>) -> Seq<Seq<char>>
    decreases s.len(),
    via lines_of_decreases
{
    let k = first_line_feed(s);
    if s.len() == 0 {
        Seq::empty()
    } else if k >= s.len() {
        seq![s]
    } else {
        seq![without_carriage_return(s.take(k))] + lines_of(s.skip(k + 1))
    }
}

#[via_fn]
proof fn lines_of_decreases(s: Seq<char>) {
    lemma_first_line_feed(s);
}

/// What the first line feed is.
pub proof fn lemma_first_line_feed(s: Seq<char>)
    ensures
        0 <= first_line_feed(s) <= s.len(),
        forall|i: int| 0 <= i < first_line_feed(s) ==> s[i] != '\n',
        first_line_feed(s) < s.len() ==> s[first_line_feed(s)] == '\n',
    decreases s.len(),
{
    if s.len() > 0 && s.first() != '\n' {
        lemma_first_line_feed(s.drop_first());
        assert forall|i: int| 0 <= i < first_line_feed(s) implies s[i] != '\n' by {
            if i > 0 {
                assert(s[i] == s.drop_first()[i - 1]);
            }
        }
    }
}

/// The first line feed of a text that starts with `head`, which has none.
pub proof fn lemma_line_feed_after(head: Seq<char>, rest: Seq<char>)
    requires
        forall|i: int| 0 <= i < head.len() ==> head[i] != '\n',
        rest.len() == 0 || rest.first() == '\n',
    ensures
        first_line_feed(head + rest) == head.len(),
    decreases head.len(),
{
    lemma_first_line_feed(head + rest);
    let k = first_line_feed(head + rest);
    if k < head.len() {
        assert((head + rest)[k] == head[k]);
    } else if k > head.len() {
        assert((head + rest)[head.len() as int] == rest[0]);
    }
}

/// The lines of `s`.
pub fn lines(s: &str) -> (r: Vec<String>)
    ensures
        texts(r@) == lines_of(s@),
{
    let v = chars_of(s);
    let mut out: Vec<String> = Vec::new();
    let mut line: Vec<char> = Vec::new();
    let mut i: usize = 0;
    assert(line@ + v@.skip(0) =~= v@);
    assert(texts(out@) + lines_of(v@) =~= lines_of(v@));
    while i < v.len()
        invariant
            i <= v@.len(),
            v@ == s@,
            forall|j: int| 0 <= j < line@.len() ==> line@[j] != '\n',
            texts(out@) + lines_of(line@ + v@.skip(i as int)) == lines_of(v@),
        decreases v.len() - i,
    {
        let c = v[i];
        if c == '\n' {
            let ghost rest = v@.skip(i as int);
            let ghost whole = line@ + rest;
            let ghost before = line@;
            let ghost done = texts(out@);
            proof {
                lemma_line_feed_after(before, rest);
                assert(whole.take(before.len() as int) =~= before);
                assert(whole.skip(before.len() as int + 1) =~= v@.skip(i + 1));
            }
            let mut n: usize = line.len();
            if n > 0 && line[n - 1] == '\r' {
                n = n - 1;
            }
            let text = string_of(&line, 0, n);
            assert(text@ =~= without_carriage_return(before));
            out.push(text);
            line.clear();
            proof {
                assert(texts(out@) =~= done.push(text@));
                assert(line@ + v@.skip(i + 1) =~= v@.skip(i + 1));
                assert(done + (seq![text@] + lines_of(v@.skip(i + 1))) =~= done.push(text@)
                    + lines_of(v@.skip(i + 1)));
            }
        } else {
            let ghost before = line@;
            line.push(c);
            assert(line@ + v@.skip(i + 1) =~= before + v@.skip(i as int));
        }
        i = i + 1;
    }
    assert(line@ + v@.skip(i as int) =~= line@);
    if line.len() > 0 {
        let ghost done = texts(out@);
        let text = string_of(&line, 0, line.len());
        out.push(text);
        proof {
            lemma_line_feed_after(line@, Seq::empty());
            assert(line@ + Seq::<char>::empty() =~= line@);
            assert(text@ =~= line@);
            assert(texts(out@) =~= done + seq![text@]);
        }
    } else {
        assert(texts(out@) + Seq::<Seq<char>>::empty() =~= texts(out@));
    }
    out
}

/// The parts one after the other, with `sep` between each two.
pub open spec fn joined(parts: Seq<Seq<char>>, sep: Seq<char>) -> Seq<char>
    decreases parts.len(),
{
    if parts.len() == 0 {
        Seq::empty()
    } else if parts.len() == 1 {
        parts[0]
    } else {
        joined(parts.drop_last(), sep) + sep + parts.last()
    }
}

/// The strings one after the other, with `sep` between each two.
pub fn join(parts: &Vec<String>, sep: &str) -> (r: String)
    ensures
        r@ == joined(texts(parts@), sep@),
{
    let mut r = String::new();
    let mut i: usize = 0;
    while i < parts.len()
        invariant
            i <= parts@.len(),
            r@ == joined(texts(parts@).take(i as int), sep@),
        decreases parts.len() - i,
    {
        let ghost before = texts(parts@).take(i as int);
        let ghost after = texts(parts@).take(i + 1);
        assert(after.drop_last() =~= before);
        assert(after.last() == parts@[i as int]@);
        if i > 0 {
            r.append(sep);
            r.append(parts[i].as_str());
        } else {
            r.append(parts[i].as_str());
            assert(r@ =~= parts@[0]@);
        }
        i = i + 1;
    }
    assert(texts(parts@).take(i as int) =~= texts(parts@));
    r
}

/// The pieces of `s` between the occurrences of `c`.
pub open spec fn split_on(s: Seq<char>, c: char) -> Seq<Seq<char>>
    decreases s.len(),
{
    if s.len() == 0 {
        seq![Seq::<char>::empty()]
    } else {
        let pieces = split_on(s.drop_last(), c);
        if s.last() == c {
            pieces.push(Seq::<char>::empty())
        } else {
            pieces.drop_last().push(pieces.last().push(s.last()))
        }
    }
}

/// The pieces of `s` between the occurrences of `c`.
pub fn split(s: &str, c: char) -> (r: Vec<String>)
    ensures
        texts(r@) == split_on(s@, c),
{
    let v = chars_of(s);
    let mut out: Vec<String> = Vec::new();
    let mut piece = String::new();
    let mut i: usize = 0;
    assert(v@.take(0) =~= Seq::<char>::empty());
    assert(texts(out@).push(piece@) =~= seq![Seq::<char>::empty()]);
    while i < v.len()
        invariant
            i <= v@.len(),
            v@ == s@,
            texts(out@).push(piece@) == split_on(v@.take(i as int), c),
        decreases v.len() - i,
    {
        let ghost pieces = split_on(v@.take(i as int), c);
        let ghost done = texts(out@);
        assert(v@.take(i + 1).drop_last() =~= v@.take(i as int));
        assert(pieces.drop_last() =~= done);
        if v[i] == c {
            out.push(piece);
            piece = String::new();
            assert(texts(out@) =~= pieces);
        } else {
            piece.push(v[i]);
        }
        i = i + 1;
    }
    assert(v@.take(i as int) =~= s@);
    let ghost done = texts(out@);
    out.push(piece);
    assert(texts(out@) =~= done.push(piece@));
    out
}

/// The two texts one after the other.
pub fn concat(a: &str, b: &str) -> (r: String)
    ensures
        r@ == a@ + b@,
{
    let mut r = String::new();
    r.append(a);
    r.append(b);
    assert(r@ =~= a@ + b@);
    r
}

/// The decimal digit with the value `d`.
pub open spec fn digit(d: nat) -> char {
    ('0' as int + d) as char
}

/// `n` in decimal digits, without leading zeros.
pub open spec fn decimal(n: nat) -> Seq<char>
    decreases n,
{
    if n < 10 {
        seq![digit(n)]
    } else {
        decimal(n / 10).push(digit(n % 10))
    }
}

/// `n` in decimal digits, without leading zeros.
pub fn decimal_of(n: u64) -> (r: String)
    ensures
        r@ == decimal(n as nat),
    decreases n,
{
    let d: u8 = (n % 10) as u8;
    let c: char = (48u8 + d) as char;
    if n < 10 {
        let mut r = String::new();
        r.push(c);
        assert(r@ =~= seq![digit(n as nat)]);
        r
    } else {
        let mut r = decimal_of(n / 10);
        r.push(c);
        r
    }
}

/// Trimming the end of a text keeps its first character, if that is no white
/// space.
pub proof fn lemma_trim_end_keeps_first(s: Seq<char>)
    requires
        s.len() > 0,
        !is_white_space(s[0]),
    ensures
        trim_end(s).len() > 0,
        trim_end(s)[0] == s[0],
    decreases s.len(),
{
    if is_white_space(s.last()) {
        lemma_trim_end_keeps_first(s.drop_last());
    }
}

/// Trimming a text keeps its first character, if that is no white space.
pub proof fn lemma_trimmed_keeps_first(s: Seq<char>)
    requires
        s.len() > 0,
        !is_white_space(s[0]),
    ensures
        trimmed(s).len() > 0,
        trimmed(s)[0] == s[0],
{
    lemma_trim_end_keeps_first(s);
}

/// A run at the end of a text goes without its first character, if that is
/// another one.
pub proof fn lemma_without_trailing_keeps_first(s: Seq<char>, c: char)
    requires
        s.len() > 0,
        s[0] != c,
    ensures
        without_trailing(s, c).len() > 0,
        without_trailing(s, c)[0] == s[0],
    decreases s.len(),
{
    if s.last() == c {
        lemma_without_trailing_keeps_first(s.drop_last(), c);
    }
}

/// A text that differs from `prefix` somewhere does not start with it.
pub proof fn lemma_differs_from_prefix(s: Seq<char>, prefix: Seq<char>, i: int)
    requires
        0 <= i < prefix.len(),
        i < s.len() ==> s[i] != prefix[i],
    ensures
        !prefix.is_prefix_of(s),
        after_prefix(s, prefix) is None,
        s != prefix,
{
    if prefix.is_prefix_of(s) {
        assert(prefix[i] == s.subrange(0, prefix.len() as int)[i]);
    }
}

/// A text that starts with another character does not start with `prefix`.
pub proof fn lemma_no_prefix(s: Seq<char>, prefix: Seq<char>)
    requires
        s.len() > 0,
        prefix.len() > 0,
        s[0] != prefix[0],
    ensures
        !prefix.is_prefix_of(s),
        after_prefix(s, prefix) is None,
{
    if prefix.is_prefix_of(s) {
        assert(prefix[0] == s.subrange(0, prefix.len() as int)[0]);
    }
}

/// Nothing is trimmed from a text that no white space surrounds.
pub proof fn lemma_nothing_to_trim(s: Seq<char>)
    requires
        s.len() > 0,
        !is_white_space(s.first()),
        !is_white_space(s.last()),
    ensures
        trimmed(s) == s,
{
}

/// The text is one line.
pub open spec fn is_one_line(s: Seq<char>) -> bool {
    forall|i: int| 0 <= i < s.len() ==> s[i] != '\n'
}

/// Joining starts with the first part.
pub proof fn lemma_joined_first(parts: Seq<Seq<char>>, sep: Seq<char>)
    requires
        parts.len() > 1,
    ensures
        joined(parts, sep) == parts.first() + sep + joined(parts.drop_first(), sep),
    decreases parts.len(),
{
    let rest = parts.drop_first();
    if parts.len() == 2 {
        assert(joined(parts.drop_last(), sep) == parts[0]);
        assert(joined(rest, sep) == parts[1]);
    } else {
        lemma_joined_first(parts.drop_last(), sep);
        assert(parts.drop_last().drop_first() =~= rest.drop_last());
        assert(joined(parts, sep) =~= parts.first() + sep + joined(rest, sep));
    }
}

/// A text that is joined of lines has these lines, each without a carriage
/// return at its end. The last must not be empty, and end otherwise.
pub proof fn lemma_lines_of_joined(lines: Seq<Seq<char>>)
    requires
        lines.len() > 0,
        forall|i: int| 0 <= i < lines.len() ==> is_one_line(#[trigger] lines[i]),
        lines.last().len() > 0,
        lines.last().last() != '\r',
    ensures
        lines_of(joined(lines, "\n"@)) == lines.map_values(
            |line: Seq<char>| without_carriage_return(line),
        ),
    decreases lines.len(),
{
    reveal_strlit("\n");
    let first = lines.first();
    let strip = |line: Seq<char>| without_carriage_return(line);
    assert(is_one_line(lines[0]));
    if lines.len() == 1 {
        lemma_line_feed_after(first, Seq::empty());
        assert(first + Seq::<char>::empty() =~= first);
        assert(lines.map_values(strip) =~= seq![first]);
    } else {
        let rest = lines.drop_first();
        assert forall|i: int| 0 <= i < rest.len() implies is_one_line(#[trigger] rest[i]) by {
            assert(rest[i] == lines[i + 1]);
        }
        lemma_lines_of_joined(rest);
        lemma_joined_first(lines, "\n"@);
        let tail = "\n"@ + joined(rest, "\n"@);
        let whole = first + tail;
        assert(joined(lines, "\n"@) =~= whole);
        assert(tail.first() == '\n');
        lemma_line_feed_after(first, tail);
        assert(whole.take(first.len() as int) =~= first);
        assert(whole.skip(first.len() as int + 1) =~= joined(rest, "\n"@));
        assert(seq![without_carriage_return(first)] + rest.map_values(strip) =~= lines.map_values(
            strip,
        ));
    }
}

/// Characters that do not split a text belong to its last piece.
proof fn lemma_split_longer(s: Seq<char>, more: Seq<char>, c: char)
    requires
        forall|i: int| 0 <= i < more.len() ==> more[i] != c,
    ensures
        split_on(s, c).len() > 0,
        split_on(s + more, c) == split_on(s, c).drop_last().push(split_on(s, c).last() + more),
    decreases s.len() + more.len(),
{
    if s.len() > 0 {
        lemma_split_longer(s.drop_last(), Seq::empty(), c);
    }
    let pieces = split_on(s, c);
    if more.len() == 0 {
        assert(s + more =~= s);
        assert(pieces.last() + more =~= pieces.last());
        assert(pieces =~= pieces.drop_last().push(pieces.last()));
    } else {
        let before = more.drop_last();
        lemma_split_longer(s, before, c);
        assert((s + more).drop_last() =~= s + before);
        assert((s + more).last() == more.last());
        let longer = pieces.drop_last().push(pieces.last() + before);
        assert(longer.drop_last() =~= pieces.drop_last());
        assert((pieces.last() + before).push(more.last()) =~= pieces.last() + more);
    }
}

/// A text that is joined of lines is split into these lines.
pub proof fn lemma_split_of_joined(lines: Seq<Seq<char>>)
    requires
        lines.len() > 0,
        forall|i: int| 0 <= i < lines.len() ==> is_one_line(#[trigger] lines[i]),
    ensures
        split_on(joined(lines, "\n"@), '\n') == lines,
    decreases lines.len(),
{
    reveal_strlit("\n");
    let last = lines.last();
    assert(is_one_line(lines[lines.len() - 1]));
    if lines.len() == 1 {
        lemma_split_longer(Seq::empty(), last, '\n');
        assert(Seq::<char>::empty() + last =~= last);
        assert(lines =~= seq![last]);
        assert(split_on(Seq::empty(), '\n').drop_last().push(last) =~= seq![last]);
    } else {
        let before = lines.drop_last();
        assert forall|i: int| 0 <= i < before.len() implies is_one_line(#[trigger] before[i]) by {
            assert(before[i] == lines[i]);
        }
        lemma_split_of_joined(before);
        let head = joined(before, "\n"@) + "\n"@;
        assert(head.drop_last() =~= joined(before, "\n"@));
        assert(head.last() == '\n');
        assert(split_on(head, '\n') == before.push(Seq::empty()));
        lemma_split_longer(head, last, '\n');
        assert(before.push(Seq::empty()).drop_last() =~= before);
        assert(Seq::<char>::empty() + last =~= last);
        assert(before.push(last) =~= lines);
    }
}

/// The lines that a text is split into are each one line, the first starts as
/// the text does, and the last ends as it does.
pub proof fn lemma_split_into_lines(s: Seq<char>)
    ensures
        ({
            let lines = split_on(s, '\n');
            &&& lines.len() > 0
            &&& forall|i: int| 0 <= i < lines.len() ==> is_one_line(#[trigger] lines[i])
            &&& s.len() > 0 && s.first() != '\n' ==> lines.first().len() > 0
                && lines.first().first() == s.first()
            &&& s.len() > 0 && s.last() != '\n' ==> lines.last().len() > 0 && lines.last().last()
                == s.last()
        }),
    decreases s.len(),
{
    if s.len() > 0 {
        lemma_split_into_lines(s.drop_last());
        let before = split_on(s.drop_last(), '\n');
        let lines = split_on(s, '\n');
        assert forall|i: int| 0 <= i < lines.len() implies is_one_line(#[trigger] lines[i]) by {
            if i < before.len() {
                assert(is_one_line(before[i]));
            }
        }
        if s.len() > 1 {
            assert(s.drop_last().first() == s.first());
        }
    }
}

/// White space at the end of a text is trimmed.
pub proof fn lemma_trimmed_without_return(s: Seq<char>)
    ensures
        trimmed(without_carriage_return(s)) == trimmed(s),
{
    if s.len() > 0 && s.last() == '\r' {
        lemma_trim_start_longer(s.drop_last(), '\r');
        assert(s =~= s.drop_last().push('\r'));
        let start = trim_start(s.drop_last());
        if start.len() > 0 {
            assert(start.push('\r').drop_last() =~= start);
        }
    }
}

/// White space behind a text stays where the text holds more than white space.
proof fn lemma_trim_start_longer(s: Seq<char>, c: char)
    requires
        is_white_space(c),
    ensures
        trim_start(s.push(c)) == (if trim_start(s).len() > 0 {
            trim_start(s).push(c)
        } else {
            Seq::empty()
        }),
    decreases s.len(),
{
    if s.len() == 0 {
        assert(s.push(c).drop_first() =~= Seq::empty());
        assert(trim_start(Seq::empty()) =~= Seq::empty());
        assert(trim_start(s.push(c)) =~= Seq::empty());
    } else if is_white_space(s.first()) {
        lemma_trim_start_longer(s.drop_first(), c);
        assert(s.push(c).drop_first() =~= s.drop_first().push(c));
    }
}

/// The lines of a text are each one line.
pub proof fn lemma_lines_are_lines(s: Seq<char>)
    ensures
        forall|i: int| 0 <= i < lines_of(s).len() ==> is_one_line(#[trigger] lines_of(s)[i]),
    decreases s.len(),
{
    lemma_first_line_feed(s);
    let k = first_line_feed(s);
    if 0 < s.len() && k < s.len() {
        lemma_lines_are_lines(s.skip(k + 1));
        let rest = lines_of(s.skip(k + 1));
        assert forall|i: int| 0 <= i < lines_of(s).len() implies is_one_line(
            #[trigger] lines_of(s)[i],
        ) by {
            if i > 0 {
                assert(lines_of(s)[i] == rest[i - 1]);
            }
        }
    }
}

/// The first character of a joined text is that of the first part.
pub proof fn lemma_joined_ends(parts: Seq<Seq<char>>, sep: Seq<char>)
    requires
        parts.len() > 0,
        parts.first().len() > 0,
        parts.last().len() > 0,
    ensures
        joined(parts, sep).len() > 0,
        joined(parts, sep).first() == parts.first().first(),
        joined(parts, sep).last() == parts.last().last(),
{
    if parts.len() > 1 {
        lemma_joined_first(parts, sep);
    }
}

/// No white space is left at the ends of a trimmed text.
pub proof fn lemma_trimmed_ends(s: Seq<char>)
    ensures
        trimmed(s).len() > 0 ==> !is_white_space(trimmed(s).first()) && !is_white_space(
            trimmed(s).last(),
        ),
{
    lemma_trim_start_end(s);
    lemma_trim_end_end(trim_start(s));
}

proof fn lemma_trim_start_end(s: Seq<char>)
    ensures
        trim_start(s).len() > 0 ==> !is_white_space(trim_start(s).first()),
    decreases s.len(),
{
    if s.len() > 0 && is_white_space(s.first()) {
        lemma_trim_start_end(s.drop_first());
    }
}

proof fn lemma_trim_end_end(s: Seq<char>)
    ensures
        trim_end(s).len() > 0 ==> !is_white_space(trim_end(s).last()) && trim_end(s).first()
            == s.first(),
    decreases s.len(),
{
    if s.len() > 0 && is_white_space(s.last()) {
        lemma_trim_end_end(s.drop_last());
    }
}

/// The last line of a text that does not end with a line feed ends as the text
/// does.
proof fn lemma_last_line(s: Seq<char>)
    requires
        s.len() > 0,
        s.last() != '\n',
    ensures
        lines_of(s).len() > 0,
        lines_of(s).last().len() > 0,
        lines_of(s).last().last() == s.last(),
    decreases s.len(),
{
    lemma_first_line_feed(s);
    let k = first_line_feed(s);
    if k < s.len() {
        let rest = s.skip(k + 1);
        assert(k < s.len() - 1) by {
            assert(s[k] == '\n');
        }
        assert(rest.last() == s.last());
        lemma_last_line(rest);
    }
}

/// The lines of a trimmed text neither start nor end with white space.
pub proof fn lemma_lines_of_trimmed(s: Seq<char>)
    requires
        trimmed(s).len() > 0,
    ensures
        ({
            let lines = lines_of(trimmed(s));
            &&& lines.len() > 0
            &&& lines.first().len() > 0
            &&& !is_white_space(lines.first().first())
            &&& lines.last().len() > 0
            &&& !is_white_space(lines.last().last())
        }),
{
    let t = trimmed(s);
    lemma_trimmed_ends(s);
    lemma_last_line(t);
    lemma_first_line_feed(t);
    let k = first_line_feed(t);
    if k < t.len() {
        assert(k > 0) by {
            assert(t[0] != '\n');
        }
        assert(t.take(k).first() == t.first());
        assert(t.take(k).len() == 1 ==> t.take(k).last() == t.first());
    }
}

/// What follows the first of two texts is the second.
pub proof fn lemma_after_prefix(prefix: Seq<char>, rest: Seq<char>)
    ensures
        after_prefix(prefix + rest, prefix) == Some(rest),
{
    assert((prefix + rest).subrange(0, prefix.len() as int) =~= prefix);
    assert((prefix + rest).skip(prefix.len() as int) =~= rest);
}

/// White space around a text that starts and ends with other characters is what
/// trimming takes off.
pub proof fn law_white_space_around_is_trimmed(
    before: Seq<char>,
    s: Seq<char>,
    after: Seq<char>,
)
    requires
        forall|i: int| 0 <= i < before.len() ==> is_white_space(#[trigger] before[i]),
        forall|i: int| 0 <= i < after.len() ==> is_white_space(#[trigger] after[i]),
        s.len() > 0,
        !is_white_space(s.first()),
        !is_white_space(s.last()),
    ensures
        trimmed(before + s + after) == s,
    decreases before.len() + after.len(),
{
    let whole = before + s + after;
    if before.len() > 0 {
        assert(before[0] == whole.first());
        assert(whole.drop_first() =~= before.drop_first() + s + after);
        law_white_space_around_is_trimmed(before.drop_first(), s, after);
    } else {
        assert(whole =~= s + after);
        lemma_trim_end_of(s, after);
    }
}

proof fn lemma_trim_end_of(s: Seq<char>, after: Seq<char>)
    requires
        forall|i: int| 0 <= i < after.len() ==> is_white_space(#[trigger] after[i]),
        s.len() > 0,
        !is_white_space(s.last()),
    ensures
        trim_end(s + after) == s,
    decreases after.len(),
{
    if after.len() == 0 {
        assert(s + after =~= s);
    } else {
        assert((s + after).last() == after[after.len() - 1]);
        assert((s + after).drop_last() =~= s + after.drop_last());
        lemma_trim_end_of(s, after.drop_last());
    }
}

/// Trimming takes off white space at both ends, and nothing else.
pub proof fn law_trimmed_is_within(s: Seq<char>) -> (ends: (int, int))
    ensures
        0 <= ends.0 <= ends.1 <= s.len(),
        trimmed(s) == s.subrange(ends.0, ends.1),
        forall|i: int| 0 <= i < ends.0 || ends.1 <= i < s.len() ==> is_white_space(#[trigger] s[i]),
        trimmed(s).len() > 0 ==> !is_white_space(trimmed(s).first()) && !is_white_space(
            trimmed(s).last(),
        ),
{
    lemma_trimmed_ends(s);
    let a = lemma_trim_start_within(s);
    let b = lemma_trim_end_within(s.skip(a));
    assert(trimmed(s) =~= s.subrange(a, a + b));
    assert forall|i: int| 0 <= i < a || a + b <= i < s.len() implies is_white_space(
        #[trigger] s[i],
    ) by {
        if i >= a + b {
            assert(s.skip(a)[i - a] == s[i]);
        }
    }
    (a, a + b)
}

proof fn lemma_trim_start_within(s: Seq<char>) -> (a: int)
    ensures
        0 <= a <= s.len(),
        trim_start(s) == s.skip(a),
        forall|i: int| 0 <= i < a ==> is_white_space(#[trigger] s[i]),
    decreases s.len(),
{
    if s.len() > 0 && is_white_space(s.first()) {
        let a = lemma_trim_start_within(s.drop_first());
        assert(s.drop_first().skip(a) =~= s.skip(a + 1));
        assert forall|i: int| 0 <= i < a + 1 implies is_white_space(#[trigger] s[i]) by {
            if i > 0 {
                assert(s.drop_first()[i - 1] == s[i]);
            }
        }
        a + 1
    } else {
        assert(s.skip(0) =~= s);
        0
    }
}

proof fn lemma_trim_end_within(s: Seq<char>) -> (b: int)
    ensures
        0 <= b <= s.len(),
        trim_end(s) == s.take(b),
        forall|i: int| b <= i < s.len() ==> is_white_space(#[trigger] s[i]),
    decreases s.len(),
{
    if s.len() > 0 && is_white_space(s.last()) {
        let b = lemma_trim_end_within(s.drop_last());
        assert(s.drop_last().take(b) =~= s.take(b));
        assert forall|i: int| b <= i < s.len() implies is_white_space(#[trigger] s[i]) by {
            if i < s.len() - 1 {
                assert(s.drop_last()[i] == s[i]);
            }
        }
        b
    } else {
        assert(s.take(s.len() as int) =~= s);
        s.len() as int
    }
}

/// A text occurs in another exactly where that is made of something, the text, and
/// something.
pub proof fn law_contained_text(s: Seq<char>, part: Seq<char>)
    ensures
        contains_text(s, part) <==> exists|before: Seq<char>, after: Seq<char>|
            s == #[trigger] (before + part + after),
{
    if contains_text(s, part) {
        let i = choose|i: int| occurs_at(s, part, i);
        let before = s.take(i);
        let after = s.skip(i + part.len());
        assert(s.subrange(i, i + part.len()) == part);
        assert(s =~= before + part + after);
    }
    if exists|before: Seq<char>, after: Seq<char>| s == #[trigger] (before + part + after) {
        let (before, after) = choose|before: Seq<char>, after: Seq<char>|
            s == #[trigger] (before + part + after);
        assert(s.subrange(before.len() as int, (before.len() + part.len()) as int) =~= part);
        assert(occurs_at(s, part, before.len() as int));
    }
}

/// A text without a character at its end is what is left when all of that character
/// are taken off there.
pub proof fn law_trailing_run_is_taken_off(s: Seq<char>, c: char, n: nat)
    requires
        s.len() > 0 ==> s.last() != c,
    ensures
        without_trailing(s + Seq::new(n, |i: int| c), c) == s,
    decreases n,
{
    let run = Seq::new(n, |i: int| c);
    if n == 0 {
        assert(s + run =~= s);
    } else {
        let fewer = Seq::new((n - 1) as nat, |i: int| c);
        assert((s + run).last() == c);
        assert((s + run).drop_last() =~= s + fewer);
        law_trailing_run_is_taken_off(s, c, (n - 1) as nat);
    }
}

/// What a text is split into makes up the text again, with the character between
/// each two pieces, and no piece has the character.
pub proof fn law_pieces_make_up_the_text(s: Seq<char>, c: char)
    ensures
        split_on(s, c).len() > 0,
        joined(split_on(s, c), seq![c]) == s,
        forall|i: int, j: int|
            0 <= i < split_on(s, c).len() && 0 <= j < split_on(s, c)[i].len() ==> (
            #[trigger] split_on(s, c)[i][j]) != c,
    decreases s.len(),
{
    if s.len() == 0 {
        assert(joined(split_on(s, c), seq![c]) =~= s);
    } else {
        let before = s.drop_last();
        law_pieces_make_up_the_text(before, c);
        let pieces = split_on(before, c);
        let all = split_on(s, c);
        if s.last() == c {
            assert(all.drop_last() =~= pieces);
            assert(joined(all, seq![c]) =~= before + seq![c]);
            assert(s =~= before + seq![c]);
        } else {
            let longer = pieces.last().push(s.last());
            assert(all.drop_last() =~= pieces.drop_last());
            if pieces.len() == 1 {
                assert(joined(all, seq![c]) == longer);
                assert(before == pieces[0]);
            } else {
                assert(joined(all, seq![c]) =~= joined(pieces, seq![c]).push(s.last()));
            }
            assert(s =~= before.push(s.last()));
        }
    }
}

/// A number in decimal is its tens in decimal, and its last digit.
pub proof fn law_decimal(n: nat, d: nat)
    requires
        d < 10,
    ensures
        decimal(d).len() == 1,
        decimal(d)[0] as nat == '0' as nat + d,
        n > 0 ==> decimal(n * 10 + d) == decimal(n) + decimal(d),
{
    assert((n * 10 + d) / 10 == n);
    assert((n * 10 + d) % 10 == d);
    if n > 0 {
        assert(decimal(n * 10 + d) =~= decimal(n) + decimal(d));
    }
}

/// The characters that Unicode counts as white space: those of ASCII, and those beyond.
pub proof fn law_white_space(c: char)
    ensures
        (c as u32) < 0x80 ==> (is_white_space(c) <==> c == ' ' || c == '\t' || c == '\n' || c
            == '\u{b}' || c == '\u{c}' || c == '\r'),
        c as u32 >= 0x80 ==> (is_white_space(c) <==> c == '\u{85}' || c == '\u{a0}' || c
            == '\u{1680}' || '\u{2000}' <= c <= '\u{200a}' || c == '\u{2028}' || c == '\u{2029}'
            || c == '\u{202f}' || c == '\u{205f}' || c == '\u{3000}'),
{
}

/// What follows a prefix, and what precedes a suffix, makes up the text with it. A text
/// that is not made of the two has neither.
pub proof fn law_prefix_and_suffix(s: Seq<char>, part: Seq<char>, rest: Seq<char>)
    ensures
        after_prefix(s, part) == Some(rest) <==> s == part + rest,
        before_suffix(s, part) == Some(rest) <==> s == rest + part,
{
    if s == part + rest {
        lemma_after_prefix(part, rest);
    }
    if after_prefix(s, part) == Some(rest) {
        assert(s =~= part + rest);
    }
    if s == rest + part {
        assert(s.take(s.len() - part.len()) =~= rest);
    }
    if before_suffix(s, part) == Some(rest) {
        assert(s =~= rest + part);
    }
}

/// The lines of a text: one that ends with a line feed comes before the lines of what
/// follows, without a carriage return before the line feed; a last one without a line
/// feed is taken as it is. An empty text has no lines.
pub proof fn law_lines(line: Seq<char>, rest: Seq<char>)
    requires
        forall|i: int| 0 <= i < line.len() ==> line[i] != '\n',
    ensures
        lines_of(Seq::empty()) == Seq::<Seq<char>>::empty(),
        line.len() > 0 ==> lines_of(line) == seq![line],
        line.len() > 0 && line.last() == '\r' ==> lines_of(line + seq!['\n'] + rest) == seq![
            line.drop_last(),
        ] + lines_of(rest),
        line.len() == 0 || line.last() != '\r' ==> lines_of(line + seq!['\n'] + rest) == seq![line]
            + lines_of(rest),
{
    lemma_no_line_feed(line);
    let whole = line + seq!['\n'] + rest;
    lemma_line_feed_at(line, rest);
    assert(whole.take(line.len() as int) =~= line);
    assert(whole.skip(line.len() as int + 1) =~= rest);
}

/// Where there is no line feed, there is no first one.
proof fn lemma_no_line_feed(line: Seq<char>)
    requires
        forall|i: int| 0 <= i < line.len() ==> line[i] != '\n',
    ensures
        first_line_feed(line) == line.len(),
    decreases line.len(),
{
    if line.len() > 0 {
        assert(line[0] != '\n');
        assert forall|i: int| 0 <= i < line.drop_first().len() implies line.drop_first()[i]
            != '\n' by {
            assert(line[i + 1] != '\n');
        }
        lemma_no_line_feed(line.drop_first());
    }
}

/// The first line feed stands behind the first line.
proof fn lemma_line_feed_at(line: Seq<char>, rest: Seq<char>)
    requires
        forall|i: int| 0 <= i < line.len() ==> line[i] != '\n',
    ensures
        first_line_feed(line + seq!['\n'] + rest) == line.len(),
    decreases line.len(),
{
    let whole = line + seq!['\n'] + rest;
    if line.len() > 0 {
        assert(line[0] != '\n');
        assert(whole[0] == line[0]);
        assert forall|i: int| 0 <= i < line.drop_first().len() implies line.drop_first()[i]
            != '\n' by {
            assert(line[i + 1] != '\n');
        }
        assert(whole.drop_first() =~= line.drop_first() + seq!['\n'] + rest);
        lemma_line_feed_at(line.drop_first(), rest);
    } else {
        assert(whole[0] == '\n');
    }
}

/// Parts are joined one by one, with the separator before each but the first.
pub proof fn law_joined_part_by_part(parts: Seq<Seq<char>>, part: Seq<char>, sep: Seq<char>)
    ensures
        joined(Seq::empty(), sep) == Seq::<char>::empty(),
        joined(seq![part], sep) == part,
        parts.len() > 0 ==> joined(parts.push(part), sep) == joined(parts, sep) + sep + part,
{
    assert(parts.push(part).drop_last() =~= parts);
}

/// A text is split at each occurrence of a character: the pieces of a longer text are
/// those before the last occurrence, and what follows it.
pub proof fn law_split_at_each(s: Seq<char>, piece: Seq<char>, c: char)
    requires
        forall|i: int| 0 <= i < piece.len() ==> piece[i] != c,
    ensures
        split_on(piece, c) == seq![piece],
        split_on(s + seq![c] + piece, c) == split_on(s, c).push(piece),
    decreases piece.len(),
{
    let whole = s + seq![c] + piece;
    if piece.len() == 0 {
        assert(whole.drop_last() =~= s);
        assert(whole.last() == c);
        assert(piece =~= Seq::<char>::empty());
    } else {
        let shorter = piece.drop_last();
        assert(piece.last() != c);
        assert forall|i: int| 0 <= i < shorter.len() implies shorter[i] != c by {
            assert(shorter[i] == piece[i]);
        }
        law_split_at_each(s, shorter, c);
        assert(whole.drop_last() =~= s + seq![c] + shorter);
        assert(whole.last() == piece.last());
        assert(shorter.push(piece.last()) =~= piece);
        assert(split_on(piece, c) =~= seq![piece]);
        assert(split_on(whole, c) =~= split_on(s, c).push(piece));
    }
}

} // verus!
