//! Reading the daemon's terse output: one record per line, fields separated
//! by a colon.

use vstd::prelude::*;
use vstd::std_specs::iter::IteratorSpec;

verus! {

/// The pieces of `s` between occurrences of `d`, in order. There is always
/// at least one piece; `n` delimiters give `n + 1` pieces.
pub open spec fn split_on(s: Seq<char>, d: char) -> Seq<Seq<char>>
    decreases s.len(),
{
    if s.len() == 0 {
        seq![Seq::<char>::empty()]
    } else {
        let p = split_on(s.drop_last(), d);
        if s.last() == d {
            p.push(Seq::<char>::empty())
        } else {
            p.update(p.len() - 1, p.last().push(s.last()))
        }
    }
}

/// A line without the carriage return of a CRLF ending.
pub open spec fn strip_cr(l: Seq<char>) -> Seq<char> {
    if l.len() > 0 && l.last() == '\r' {
        l.drop_last()
    } else {
        l
    }
}

/// The lines of a text: split at each line feed, a final empty piece
/// dropped (the text's last line may or may not end in a line feed), and a
/// carriage return removed from the end of each line that a line feed ended.
pub open spec fn text_lines(s: Seq<char>) -> Seq<Seq<char>> {
    let p = split_on(s, '\n');
    let body = if p.last().len() == 0 {
        p.drop_last()
    } else {
        p
    };
    Seq::new(body.len(), |i: int| if i < p.len() - 1 { strip_cr(body[i]) } else { body[i] })
}

/// The characters of `s`, for indexed access.
pub fn char_vec(s: &str) -> (r: Vec<char>)
    ensures
        r@ == s@,
{
    let mut r: Vec<char> = Vec::new();
    for c in iter: s.chars()
        invariant
            r@ == iter.seq().take(iter.index() as int),
    {
        r.push(c);
    }
    assert(r@ == s@);
    r
}

/// The lines of `text`, as `str::lines` gives them.
pub fn split_lines(text: &str) -> (r: Vec<String>)
    ensures
        r@.len() == text_lines(text@).len(),
        forall|i: int| 0 <= i < r@.len() ==> #[trigger] r@[i]@ == text_lines(text@)[i],
{
    let cs = char_vec(text);
    let n = cs.len();
    let mut r: Vec<String> = Vec::new();
    let mut start: usize = 0;
    let mut i: usize = 0;
    let ghost mut raw: Seq<Seq<char>> = Seq::empty();
    assert(text@.subrange(0, 0) == Seq::<char>::empty());
    assert(raw.push(Seq::<char>::empty()) == seq![Seq::<char>::empty()]);
    while i < n
        invariant
            cs@ == text@,
            n == cs@.len(),
            start <= i <= n,
            split_on(text@.subrange(0, i as int), '\n') == raw.push(text@.subrange(start as int, i as int)),
            r@.len() == raw.len(),
            forall|k: int| 0 <= k < raw.len() ==> #[trigger] r@[k]@ == strip_cr(raw[k]),
        decreases n - i,
    {
        let ghost prev = text@.subrange(0, i as int);
        assert(text@.subrange(0, i + 1).drop_last() == prev);
        if cs[i] == '\n' {
            let mut end = i;
            if end > start && cs[end - 1] == '\r' {
                end = end - 1;
            }
            let piece = text.substring_char(start, end);
            r.push(String::from_str(piece));
            proof {
                let l = text@.subrange(start as int, i as int);
                if i > start && text@[i - 1] == '\r' {
                    assert(l.drop_last() == text@.subrange(start as int, end as int));
                }
                raw = raw.push(l);
                assert(text@.subrange(i + 1, i + 1) == Seq::<char>::empty());
            }
            start = i + 1;
        } else {
            proof {
                let l = text@.subrange(start as int, i as int);
                assert(l.push(text@[i as int]) == text@.subrange(start as int, i + 1));
            }
        }
        i = i + 1;
    }
    assert(text@.subrange(0, n as int) == text@);
    if start < n {
        let piece = text.substring_char(start, n);
        r.push(String::from_str(piece));
    }
    proof {
        let p = split_on(text@, '\n');
        let last = text@.subrange(start as int, n as int);
        assert(p.len() == raw.len() + 1);
        if start < n {
            assert(last.len() > 0);
            assert(r@.len() == text_lines(text@).len());
        } else {
            assert(p.drop_last() == raw);
        }
    }
    r
}

/// `i` is the position of the first `d` in `s`.
pub open spec fn first_delim_at(s: Seq<char>, d: char, i: int) -> bool {
    &&& 0 <= i < s.len()
    &&& s[i] == d
    &&& forall|j: int| 0 <= j < i ==> s[j] != d
}

/// `s` cut at its first `d` into what stands before and after it; `None`
/// where `s` holds no `d`.
pub open spec fn split_once(s: Seq<char>, d: char) -> Option<(Seq<char>, Seq<char>)> {
    if exists|i: int| first_delim_at(s, d, i) {
        let i = choose|i: int| first_delim_at(s, d, i);
        Some((s.subrange(0, i), s.subrange(i + 1, s.len() as int)))
    } else {
        None
    }
}

/// A record of three fields: cut at the first two colons, so that every
/// later colon belongs to the last field.
pub open spec fn record3(s: Seq<char>) -> Option<(Seq<char>, Seq<char>, Seq<char>)> {
    match split_once(s, ':') {
        Some((a, rest)) => match split_once(rest, ':') {
            Some((b, c)) => Some((a, b, c)),
            None => None,
        },
        None => None,
    }
}

/// `needle` occurs in `hay` as a contiguous run.
pub open spec fn contains_seq(hay: Seq<char>, needle: Seq<char>) -> bool {
    exists|i: int| 0 <= i && i + needle.len() <= hay.len() && #[trigger] hay.subrange(i, i + needle.len()) == needle
}

pub open spec fn is_digit(c: char) -> bool {
    '0' <= c && c <= '9'
}

/// The value of a run of decimal digits.
pub open spec fn digits_value(s: Seq<char>) -> nat
    decreases s.len(),
{
    if s.len() == 0 {
        0
    } else {
        digits_value(s.drop_last()) * 10 + (s.last() as nat - '0' as nat) as nat
    }
}

/// `s` without a leading `+`.
pub open spec fn unsigned_part(s: Seq<char>) -> Seq<char> {
    if s.len() > 0 && s[0] == '+' {
        s.drop_first()
    } else {
        s
    }
}

pub open spec fn all_digits(s: Seq<char>) -> bool {
    forall|i: int| 0 <= i < s.len() ==> is_digit(#[trigger] s[i])
}

/// What `str::parse::<u8>` accepts: an optional `+`, then one or more decimal
/// digits whose value fits in a byte.
pub open spec fn parse_u8(s: Seq<char>) -> Option<u8> {
    let body = unsigned_part(s);
    if body.len() > 0 && all_digits(body) && digits_value(body) <= 255 {
        Some(digits_value(body) as u8)
    } else {
        None
    }
}

proof fn lemma_first_delim_unique(s: Seq<char>, d: char, i: int, j: int)
    requires
        first_delim_at(s, d, i),
        first_delim_at(s, d, j),
    ensures
        i == j,
{
}

/// Cuts `s` at its first `d`.
pub fn split_once_at(s: &str, d: char) -> (r: Option<(String, String)>)
    ensures
        match r {
            Some((a, b)) => split_once(s@, d) == Some((a@, b@)),
            None => split_once(s@, d) is None,
        },
{
    let cs = char_vec(s);
    let n = cs.len();
    let mut i: usize = 0;
    while i < n
        invariant
            cs@ == s@,
            n == cs@.len(),
            i <= n,
            forall|j: int| 0 <= j < i ==> s@[j] != d,
        decreases n - i,
    {
        if cs[i] == d {
            let a = String::from_str(s.substring_char(0, i));
            let b = String::from_str(s.substring_char(i + 1, n));
            proof {
                assert(first_delim_at(s@, d, i as int));
                let k = choose|k: int| first_delim_at(s@, d, k);
                lemma_first_delim_unique(s@, d, i as int, k);
            }
            return Some((a, b));
        }
        i = i + 1;
    }
    proof {
        assert forall|k: int| !first_delim_at(s@, d, k) by {
            if 0 <= k < s@.len() {
                assert(s@[k] != d);
            }
        }
    }
    None
}

/// Cuts a line into three fields at its first two colons.
pub fn split_record3(line: &str) -> (r: Option<(String, String, String)>)
    ensures
        match r {
            Some((a, b, c)) => record3(line@) == Some((a@, b@, c@)),
            None => record3(line@) is None,
        },
{
    match split_once_at(line, ':') {
        Some((a, rest)) => match split_once_at(rest.as_str(), ':') {
            Some((b, c)) => Some((a, b, c)),
            None => None,
        },
        None => None,
    }
}

/// Whether two texts hold the same characters.
pub fn same_text(a: &str, b: &str) -> (r: bool)
    ensures
        r == (a@ == b@),
{
    let x = char_vec(a);
    let y = char_vec(b);
    if x.len() != y.len() {
        return false;
    }
    let mut i: usize = 0;
    while i < x.len()
        invariant
            x@ == a@,
            y@ == b@,
            x@.len() == y@.len(),
            i <= x@.len(),
            forall|j: int| 0 <= j < i ==> x@[j] == y@[j],
        decreases x@.len() - i,
    {
        if x[i] != y[i] {
            return false;
        }
        i = i + 1;
    }
    assert(x@ == y@);
    true
}

/// Whether `needle` occurs in `hay`.
pub fn contains_text(hay: &str, needle: &str) -> (r: bool)
    ensures
        r == contains_seq(hay@, needle@),
{
    let h = char_vec(hay);
    let nd = char_vec(needle);
    if nd.len() > h.len() {
        return false;
    }
    if nd.len() == 0 {
        let ghost k: int = 0;
        assert(hay@.subrange(k, k + needle@.len()) == needle@);
        return true;
    }
    let hn: usize = h.len();
    let last = hn - nd.len();
    let mut i: usize = 0;
    while i <= last
        invariant
            h@ == hay@,
            nd@ == needle@,
            last == h@.len() - nd@.len(),
            hn == h@.len(),
            nd@.len() > 0,
            i <= last + 1,
            forall|k: int| 0 <= k < i ==> #[trigger] hay@.subrange(k, k + needle@.len()) != needle@,
        decreases last + 1 - i,
    {
        let mut j: usize = 0;
        let mut same = true;
        while j < nd.len() && same
            invariant
                h@ == hay@,
                nd@ == needle@,
                i <= last,
                last == h@.len() - nd@.len(),
                nd@.len() > 0,
                i + nd@.len() <= h@.len(),
                hn == h@.len(),
                forall|k: int| 0 <= k < i ==> #[trigger] hay@.subrange(k, k + needle@.len()) != needle@,
                j <= nd@.len(),
                same ==> forall|t: int| 0 <= t < j ==> h@[i + t] == nd@[t],
                !same ==> j < nd@.len() && h@[i + j] != nd@[j as int],
            decreases nd@.len() - j + (if same { 1int } else { 0int }),
        {
            if h[i + j] != nd[j] {
                same = false;
            } else {
                j = j + 1;
            }
        }
        if same {
            assert(hay@.subrange(i as int, i + needle@.len()) == needle@);
            return true;
        }
        assert(hay@.subrange(i as int, i + needle@.len())[j as int] != needle@[j as int]);
        i = i + 1;
    }
    false
}

/// Reads a byte value as `str::parse::<u8>` does.
pub fn parse_byte(s: &str) -> (r: Option<u8>)
    ensures
        r == parse_u8(s@),
{
    let cs = char_vec(s);
    let n = cs.len();
    let mut i: usize = 0;
    if n > 0 && cs[0] == '+' {
        i = 1;
    }
    let ghost body = unsigned_part(s@);
    assert(body == s@.subrange(i as int, n as int));
    if i == n {
        return None;
    }
    let start = i;
    // The value read so far, held at 256 once it no longer fits in a byte.
    let mut v: u32 = 0;
    while i < n
        invariant
            cs@ == s@,
            n == cs@.len(),
            start < n,
            start <= i <= n,
            body == s@.subrange(start as int, n as int),
            body == unsigned_part(s@),
            forall|k: int| start <= k < i ==> is_digit(#[trigger] s@[k]),
            v as nat == if digits_value(s@.subrange(start as int, i as int)) <= 256 {
                digits_value(s@.subrange(start as int, i as int))
            } else {
                256
            },
        decreases n - i,
    {
        let c = cs[i];
        if !('0' <= c && c <= '9') {
            assert(!is_digit(body[i - start]));
            assert(!all_digits(body));
            return None;
        }
        let ghost pre = s@.subrange(start as int, i as int);
        assert(s@.subrange(start as int, i + 1).drop_last() == pre);
        let dg = (c as u32) - ('0' as u32);
        let w = v * 10 + dg;
        v = if w > 256 {
            256
        } else {
            w
        };
        i = i + 1;
    }
    assert(s@.subrange(start as int, n as int) == body);
    if v > 255 {
        None
    } else {
        Some(v as u8)
    }
}

} // verus!
