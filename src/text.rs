//! Character-level helpers: Unicode whitespace, trimming, ASCII case-insensitive
//! comparison and suffix matching, each stated over `Seq<char>`.
use vstd::prelude::*;

verus! {

/// The Unicode `White_Space` property, as `char::is_whitespace` uses it.
pub open spec fn is_ws(c: char) -> bool {
    let u = c as u32;
    (0x9 <= u && u <= 0xD) || u == 0x20 || u == 0x85 || u == 0xA0 || u == 0x1680
        || (0x2000 <= u && u <= 0x200A) || u == 0x2028 || u == 0x2029 || u == 0x202F
        || u == 0x205F || u == 0x3000
}

/// `s` without its leading whitespace.
pub open spec fn trim_start(s: Seq<char>) -> Seq<char>
    decreases s.len(),
{
    if s.len() > 0 && is_ws(s[0]) {
        trim_start(s.drop_first())
    } else {
        s
    }
}

/// `s` without its trailing whitespace.
pub open spec fn trim_end(s: Seq<char>) -> Seq<char>
    decreases s.len(),
{
    if s.len() > 0 && is_ws(s.last()) {
        trim_end(s.drop_last())
    } else {
        s
    }
}

/// `s` without leading or trailing whitespace.
pub open spec fn trim(s: Seq<char>) -> Seq<char> {
    trim_end(trim_start(s))
}

/// Whether `c` is whitespace in the sense of `is_ws`.
pub fn is_whitespace(c: char) -> (r: bool)
    ensures
        r == is_ws(c),
{
    let u = c as u32;
    (0x9 <= u && u <= 0xD) || u == 0x20 || u == 0x85 || u == 0xA0 || u == 0x1680
        || (0x2000 <= u && u <= 0x200A) || u == 0x2028 || u == 0x2029 || u == 0x202F
        || u == 0x205F || u == 0x3000
}

/// The characters of `s`, in order.
pub fn chars_of(s: &str) -> (r: Vec<char>)
    ensures
        r@ == s@,
{
    let mut r: Vec<char> = Vec::new();
    for c in it: s.chars()
        invariant
            r@ == it.seq().take(it.index() as int),
    {
        r.push(c);
    }
    r
}

/// Whether `s` ends with `suffix`, character for character.
pub open spec fn ends_with(s: Seq<char>, suffix: Seq<char>) -> bool {
    suffix.len() <= s.len() && s.subrange(s.len() - suffix.len(), s.len() as int) == suffix
}

/// Whether `c` is an ASCII capital letter.
pub open spec fn is_ascii_upper(c: char) -> bool {
    0x41 <= (c as u32) && (c as u32) <= 0x5A
}

/// Whether `x` and `y` are equal once ASCII capitals are lowered.
pub open spec fn char_eq_ignore_ascii_case(x: char, y: char) -> bool {
    x == y || (is_ascii_upper(x) && x as u32 + 32 == y as u32) || (is_ascii_upper(y) && y as u32
        + 32 == x as u32)
}

/// Whether `a` and `b` are equal once ASCII capitals are lowered in both.
pub open spec fn eq_ignore_ascii_case(a: Seq<char>, b: Seq<char>) -> bool {
    a.len() == b.len() && forall|i: int|
        0 <= i < a.len() ==> #[trigger] char_eq_ignore_ascii_case(a[i], b[i])
}

/// Whether `text`, with its trailing whitespace removed, ends with `suffix`.
pub open spec fn matches_spec(text: Seq<char>, suffix: Seq<char>) -> bool {
    ends_with(trim_end(text), suffix)
}

/// Stripping whitespace from the front of a range of `v` moves its start to the
/// first character that is not whitespace.
pub fn trim_start_range(v: &Vec<char>, start: usize, end: usize) -> (r: usize)
    requires
        start <= end <= v.len(),
    ensures
        start <= r <= end,
        v@.subrange(r as int, end as int) == trim_start(v@.subrange(start as int, end as int)),
{
    let mut a = start;
    while a < end && is_whitespace(v[a])
        invariant
            start <= a <= end <= v.len(),
            trim_start(v@.subrange(start as int, end as int)) == trim_start(
                v@.subrange(a as int, end as int),
            ),
        decreases end - a,
    {
        assert(v@.subrange(a as int, end as int).drop_first() =~= v@.subrange(
            a + 1,
            end as int,
        ));
        a = a + 1;
    }
    a
}

/// Stripping whitespace from the back of a range of `v` moves its end to just
/// after the last character that is not whitespace.
pub fn trim_end_range(v: &Vec<char>, start: usize, end: usize) -> (r: usize)
    requires
        start <= end <= v.len(),
    ensures
        start <= r <= end,
        v@.subrange(start as int, r as int) == trim_end(v@.subrange(start as int, end as int)),
{
    let mut b = end;
    while b > start && is_whitespace(v[b - 1])
        invariant
            start <= b <= end <= v.len(),
            trim_end(v@.subrange(start as int, end as int)) == trim_end(
                v@.subrange(start as int, b as int),
            ),
        decreases b - start,
    {
        assert(v@.subrange(start as int, b as int).drop_last() =~= v@.subrange(
            start as int,
            b - 1,
        ));
        b = b - 1;
    }
    b
}

/// Stripping whitespace from both ends of a range of `v`.
pub fn trim_range(v: &Vec<char>, start: usize, end: usize) -> (r: (usize, usize))
    requires
        start <= end <= v.len(),
    ensures
        start <= r.0 <= r.1 <= end,
        v@.subrange(r.0 as int, r.1 as int) == trim(v@.subrange(start as int, end as int)),
{
    let a = trim_start_range(v, start, end);
    let b = trim_end_range(v, a, end);
    (a, b)
}

/// Whether the range `start..end` of `v` equals `target` once ASCII capitals are
/// lowered in both.
pub fn range_eq_ignore_ascii_case(v: &Vec<char>, start: usize, end: usize, target: &Vec<char>) -> (r:
    bool)
    requires
        start <= end <= v.len(),
    ensures
        r == eq_ignore_ascii_case(v@.subrange(start as int, end as int), target@),
{
    if end - start != target.len() {
        return false;
    }
    let mut i: usize = 0;
    while i < target.len()
        invariant
            end - start == target.len(),
            start <= end <= v.len(),
            i <= target.len(),
            forall|k: int|
                0 <= k < i ==> #[trigger] char_eq_ignore_ascii_case(v@[start + k], target@[k]),
        decreases target.len() - i,
    {
        let x = v[start + i] as u32;
        let y = target[i] as u32;
        let same = v[start + i] == target[i] || (0x41 <= x && x <= 0x5A && x + 32 == y) || (0x41 <= y && y <= 0x5A
            && y + 32 == x);
        if !same {
            assert(!char_eq_ignore_ascii_case(
                v@.subrange(start as int, end as int)[i as int],
                target@[i as int],
            ));
            return false;
        }
        i = i + 1;
    }
    assert forall|k: int| 0 <= k < target@.len() implies #[trigger] char_eq_ignore_ascii_case(
        v@.subrange(start as int, end as int)[k],
        target@[k],
    ) by {
        assert(char_eq_ignore_ascii_case(v@[start + k], target@[k]));
    }
    true
}

/// Whether `text`, with its trailing whitespace removed, ends with `suffix`
/// (case-sensitive).
pub fn matches(text: &str, suffix: &str) -> (r: bool)
    ensures
        r == matches_spec(text@, suffix@),
{
    let t = chars_of(text);
    let s = chars_of(suffix);
    let n = trim_end_range(&t, 0, t.len());
    assert(t@.subrange(0, t@.len() as int) =~= t@);
    if s.len() > n {
        return false;
    }
    let off = n - s.len();
    let mut i: usize = 0;
    while i < s.len()
        invariant
            off + s.len() == n,
            n <= t.len(),
            t@ == text@,
            s@ == suffix@,
            t@.subrange(0, n as int) == trim_end(text@),
            i <= s.len(),
            forall|k: int| 0 <= k < i ==> t@[off + k] == s@[k],
        decreases s.len() - i,
    {
        if t[off + i] != s[i] {
            proof {
                let kept = t@.subrange(0, n as int);
                assert(kept == trim_end(text@));
                assert(kept.subrange(off as int, n as int)[i as int] != s@[i as int]);
                assert(kept.subrange(kept.len() - s@.len(), kept.len() as int) != s@);
            }
            return false;
        }
        i = i + 1;
    }
    assert(t@.subrange(0, n as int).subrange(off as int, n as int) =~= s@);
    true
}

/// Whitespace appended to a text never changes whether it matches a suffix.
pub proof fn lemma_trailing_whitespace_ignored(text: Seq<char>, ws: Seq<char>, suffix: Seq<char>)
    requires
        forall|i: int| 0 <= i < ws.len() ==> is_ws(#[trigger] ws[i]),
    ensures
        matches_spec(text + ws, suffix) == matches_spec(text, suffix),
{
    lemma_trim_end_drops_whitespace(text, ws);
}

/// Trailing whitespace is removed entirely by `trim_end`.
proof fn lemma_trim_end_drops_whitespace(text: Seq<char>, ws: Seq<char>)
    requires
        forall|i: int| 0 <= i < ws.len() ==> is_ws(#[trigger] ws[i]),
    ensures
        trim_end(text + ws) == trim_end(text),
    decreases ws.len(),
{
    if ws.len() > 0 {
        let shorter = ws.drop_last();
        assert((text + ws).drop_last() =~= text + shorter);
        assert(is_ws(ws[ws.len() - 1]));
        assert((text + ws).last() == ws.last());
        lemma_trim_end_drops_whitespace(text, shorter);
    } else {
        assert(text + ws =~= text);
    }
}

} // verus!
