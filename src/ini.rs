//! The minimal section parser: the value of `worship_suffix` under `[dot]` in
//! the text of a `.dot.ini` file.
use vstd::prelude::*;
use crate::text::{
    chars_of, eq_ignore_ascii_case, range_eq_ignore_ascii_case, trim, trim_range,
};

verus! {

/// The lines of `s`, split at each `'\n'`; the last line is what follows the
/// last `'\n'` (possibly empty).
pub open spec fn split_lines(s: Seq<char>) -> Seq<Seq<char>>
    decreases s.len(),
{
    if s.len() == 0 {
        seq![Seq::empty()]
    } else {
        let prev = split_lines(s.drop_last());
        if s.last() == '\n' {
            prev.push(Seq::empty())
        } else {
            prev.update(prev.len() - 1, prev.last().push(s.last()))
        }
    }
}

/// A trimmed line that is empty or a `;` / `#` comment.
pub open spec fn is_skipped(line: Seq<char>) -> bool {
    line.len() == 0 || line[0] == ';' || line[0] == '#'
}

/// A trimmed line of the form `[name]`.
pub open spec fn is_section_header(line: Seq<char>) -> bool {
    line.len() > 0 && line[0] == '[' && line.last() == ']'
}

/// The section name of a header line, trimmed.
pub open spec fn section_name(line: Seq<char>) -> Seq<char> {
    trim(line.subrange(1, line.len() - 1))
}

/// `k` is the position of the first `c` in `s`.
pub open spec fn is_first_index(s: Seq<char>, c: char, k: int) -> bool {
    0 <= k < s.len() && s[k] == c && forall|j: int| 0 <= j < k ==> s[j] != c
}

/// What a trimmed line inside the recognised section yields: the trimmed text
/// after its first `=`, when the trimmed text before it is `worship_suffix`
/// (ASCII case-insensitive) and the value is not empty.
pub open spec fn entry_value(line: Seq<char>) -> Option<Seq<char>> {
    if exists|k: int| is_first_index(line, '=', k) {
        let k = choose|k: int| is_first_index(line, '=', k);
        let key = trim(line.take(k));
        let value = trim(line.skip(k + 1));
        if eq_ignore_ascii_case(key, "worship_suffix"@) && value.len() > 0 {
            Some(value)
        } else {
            None
        }
    } else {
        None
    }
}

/// One step of the scan: the state is whether the open section is `dot`, and
/// the value found so far; once a value is found it stays.
pub open spec fn step(st: (bool, Option<Seq<char>>), raw: Seq<char>) -> (bool, Option<Seq<char>>) {
    let line = trim(raw);
    if st.1 is Some {
        st
    } else if is_skipped(line) {
        st
    } else if is_section_header(line) {
        (eq_ignore_ascii_case(section_name(line), "dot"@), None)
    } else if st.0 {
        (true, entry_value(line))
    } else {
        st
    }
}

/// The state after scanning `lines` in order, starting outside any section.
pub open spec fn scan(lines: Seq<Seq<char>>) -> (bool, Option<Seq<char>>)
    decreases lines.len(),
{
    if lines.len() == 0 {
        (false, None)
    } else {
        step(scan(lines.drop_last()), lines.last())
    }
}

/// The value of `worship_suffix` under `[dot]` in `content`, if one is there.
pub open spec fn ini_suffix(content: Seq<char>) -> Option<Seq<char>> {
    scan(split_lines(content)).1
}

/// An optional string, viewed as an optional sequence of characters.
pub open spec fn opt_view(r: Option<String>) -> Option<Seq<char>> {
    match r {
        Some(s) => Some(s@),
        None => None,
    }
}

/// The scan state of the executable parser: a found value is a range of `v`.
pub open spec fn state_view(v: Seq<char>, st: (bool, Option<(usize, usize)>)) -> (bool, Option<Seq<char>>) {
    match st.1 {
        Some(r) => (st.0, Some(v.subrange(r.0 as int, r.1 as int))),
        None => (st.0, None),
    }
}

/// A found range lies within `v`.
pub open spec fn state_ok(len: nat, st: (bool, Option<(usize, usize)>)) -> bool {
    match st.1 {
        Some(r) => r.0 <= r.1 <= len,
        None => true,
    }
}

proof fn lemma_split_lines_nonempty(s: Seq<char>)
    ensures
        split_lines(s).len() >= 1,
    decreases s.len(),
{
    if s.len() > 0 {
        lemma_split_lines_nonempty(s.drop_last());
    }
}

/// A value found by the scan is never empty.
pub proof fn lemma_found_value_nonempty(lines: Seq<Seq<char>>)
    ensures
        scan(lines).1 matches Some(v) ==> v.len() > 0,
    decreases lines.len(),
{
    if lines.len() > 0 {
        lemma_found_value_nonempty(lines.drop_last());
    }
}

/// A line that is blank or a comment once trimmed.
pub open spec fn is_ignorable_line(x: Seq<char>) -> bool {
    !x.contains('\n') && is_skipped(trim(x))
}

/// Inserting a blank or comment line anywhere among the lines leaves the scan
/// unchanged.
pub proof fn lemma_ignorable_line_in_scan(lines: Seq<Seq<char>>, i: int, x: Seq<char>)
    requires
        0 <= i <= lines.len(),
        is_skipped(trim(x)),
    ensures
        scan(lines.insert(i, x)) == scan(lines),
    decreases lines.len(),
{
    let longer = lines.insert(i, x);
    if i == lines.len() {
        assert(longer.drop_last() =~= lines);
    } else {
        assert(longer.drop_last() =~= lines.drop_last().insert(i, x));
        assert(longer.last() == lines.last());
        lemma_ignorable_line_in_scan(lines.drop_last(), i, x);
    }
}

/// The lines of `p + q`, where `p` ends with a line break, are the complete
/// lines of `p` followed by the lines of `q`.
proof fn lemma_split_lines_concat(p: Seq<char>, q: Seq<char>)
    requires
        p.len() > 0,
        p.last() == '\n',
    ensures
        split_lines(p + q) == split_lines(p).drop_last() + split_lines(q),
    decreases q.len(),
{
    lemma_split_lines_nonempty(p.drop_last());
    if q.len() == 0 {
        assert(p + q =~= p);
        assert(split_lines(p).drop_last() + split_lines(q) =~= split_lines(p));
    } else {
        lemma_split_lines_concat(p, q.drop_last());
        lemma_split_lines_nonempty(q.drop_last());
        assert((p + q).drop_last() =~= p + q.drop_last());
        assert((p + q).last() == q.last());
        let head = split_lines(p).drop_last();
        let prev = split_lines(q.drop_last());
        if q.last() == '\n' {
            assert((head + prev).push(Seq::empty()) =~= head + prev.push(Seq::empty()));
        } else {
            let prev_all = head + prev;
            assert(prev_all.update(prev_all.len() - 1, prev_all.last().push(q.last())) =~= head
                + prev.update(prev.len() - 1, prev.last().push(q.last())));
        }
    }
}

/// Text with no line break is a single line.
proof fn lemma_split_lines_single(x: Seq<char>)
    requires
        !x.contains('\n'),
    ensures
        split_lines(x) == seq![x],
    decreases x.len(),
{
    if x.len() == 0 {
        assert(x =~= Seq::<char>::empty());
    } else {
        assert(x.last() == x[x.len() - 1]);
        assert(!x.drop_last().contains('\n')) by {
            if x.drop_last().contains('\n') {
                let k = choose|k: int| 0 <= k < x.drop_last().len() && x.drop_last()[k] == '\n';
                assert(x[k] == '\n');
            }
        }
        lemma_split_lines_single(x.drop_last());
        assert(x.drop_last().push(x.last()) =~= x);
        assert(seq![x.drop_last()].update(0, x.drop_last().push(x.last())) =~= seq![x]);
    }
}

/// Comments and blank lines do not affect extraction: a blank or comment line
/// inserted at the start of any line of `before + after` (with `before` empty or
/// ending in a line break) leaves the extracted value unchanged.
pub proof fn lemma_ignorable_line_anywhere(before: Seq<char>, x: Seq<char>, after: Seq<char>)
    requires
        before.len() == 0 || before.last() == '\n',
        is_ignorable_line(x),
    ensures
        ini_suffix(before + x.push('\n') + after) == ini_suffix(before + after),
{
    let line = x.push('\n');
    lemma_split_lines_single(x);
    assert(line.drop_last() =~= x);
    assert(split_lines(line).drop_last() =~= seq![x]);
    lemma_split_lines_concat(line, after);
    if before.len() == 0 {
        assert(before + line + after =~= line + after);
        assert(before + after =~= after);
        assert(seq![x] + split_lines(after) =~= split_lines(after).insert(0, x));
        lemma_ignorable_line_in_scan(split_lines(after), 0, x);
    } else {
        let head = split_lines(before).drop_last();
        assert(before + line + after =~= before + (line + after));
        lemma_split_lines_concat(before, line + after);
        lemma_split_lines_concat(before, after);
        assert(head + (seq![x] + split_lines(after)) =~= (head + split_lines(after)).insert(
            head.len() as int,
            x,
        ));
        lemma_ignorable_line_in_scan(head + split_lines(after), head.len() as int, x);
    }
}

proof fn lemma_first_index_unique(s: Seq<char>, c: char, k: int)
    requires
        is_first_index(s, c, k),
    ensures
        (choose|i: int| is_first_index(s, c, i)) == k,
{
    let i = choose|i: int| is_first_index(s, c, i);
    assert(is_first_index(s, c, i));
    if i < k {
        assert(s[i] != c);
    } else if i > k {
        assert(s[k] != c);
    }
}

/// Applies one step of the scan to the line `start..end` of `v`.
fn scan_line(
    v: &Vec<char>,
    start: usize,
    end: usize,
    st: (bool, Option<(usize, usize)>),
    section: &Vec<char>,
    key: &Vec<char>,
) -> (r: (bool, Option<(usize, usize)>))
    requires
        start <= end <= v.len(),
        state_ok(v@.len(), st),
        section@ == "dot"@,
        key@ == "worship_suffix"@,
    ensures
        state_ok(v@.len(), r),
        state_view(v@, r) == step(state_view(v@, st), v@.subrange(start as int, end as int)),
{
    let ghost line = trim(v@.subrange(start as int, end as int));
    if st.1.is_some() {
        return st;
    }
    let (a, b) = trim_range(v, start, end);
    assert(v@.subrange(a as int, b as int) == line);
    if a == b || v[a] == ';' || v[a] == '#' {
        return st;
    }
    if v[a] == '[' && v[b - 1] == ']' {
        assert(line.subrange(1, line.len() - 1) =~= v@.subrange(a + 1, b - 1));
        let (na, nb) = trim_range(v, a + 1, b - 1);
        let is_dot = range_eq_ignore_ascii_case(v, na, nb, section);
        return (is_dot, None);
    }
    if !st.0 {
        return st;
    }
    let mut k = a;
    while k < b && v[k] != '='
        invariant
            a <= k <= b <= v.len(),
            forall|j: int| a <= j < k ==> v@[j] != '=',
        decreases b - k,
    {
        k = k + 1;
    }
    if k == b {
        assert forall|i: int| !is_first_index(line, '=', i) by {
            if 0 <= i < line.len() {
                assert(line[i] == v@[a + i]);
            }
        }
        return st;
    }
    proof {
        assert(is_first_index(line, '=', k - a));
        lemma_first_index_unique(line, '=', k - a);
        assert(line.take(k - a) =~= v@.subrange(a as int, k as int));
        assert(line.skip(k - a + 1) =~= v@.subrange(k + 1, b as int));
    }
    let (ka, kb) = trim_range(v, a, k);
    let (va, vb) = trim_range(v, k + 1, b);
    if range_eq_ignore_ascii_case(v, ka, kb, key) && va < vb {
        (true, Some((va, vb)))
    } else {
        st
    }
}

/// The value of `worship_suffix` under `[dot]` in the text of a `.dot.ini`
/// file: section and key names are ASCII case-insensitive, `;` and `#` start
/// comment lines, blank lines are ignored, the first non-blank value wins, and
/// a blank value counts as absent.
pub fn read_ini_suffix(content: &str) -> (r: Option<String>)
    ensures
        opt_view(r) == ini_suffix(content@),
        r matches Some(s) ==> s@.len() > 0,
{
    let v = chars_of(content);
    let section = chars_of("dot");
    let key = chars_of("worship_suffix");
    let mut st: (bool, Option<(usize, usize)>) = (false, None);
    let mut line_start: usize = 0;
    let mut i: usize = 0;
    while i < v.len()
        invariant
            v@ == content@,
            section@ == "dot"@,
            key@ == "worship_suffix"@,
            line_start <= i <= v.len(),
            state_ok(v@.len(), st),
            split_lines(v@.take(i as int)).len() >= 1,
            state_view(v@, st) == scan(split_lines(v@.take(i as int)).drop_last()),
            split_lines(v@.take(i as int)).last() == v@.subrange(line_start as int, i as int),
        decreases v.len() - i,
    {
        let ghost prev = split_lines(v@.take(i as int));
        assert(v@.take(i + 1).drop_last() =~= v@.take(i as int));
        if v[i] == '\n' {
            st = scan_line(&v, line_start, i, st, &section, &key);
            proof {
                assert(prev.drop_last().push(prev.last()) =~= prev);
                assert(split_lines(v@.take(i + 1)).drop_last() =~= prev);
                assert(v@.subrange(i + 1, i + 1) =~= Seq::<char>::empty());
            }
            line_start = i + 1;
        } else {
            proof {
                let next = split_lines(v@.take(i + 1));
                assert(next.drop_last() =~= prev.drop_last());
                assert(v@.subrange(line_start as int, i as int).push(v@[i as int]) =~= v@.subrange(
                    line_start as int,
                    i + 1,
                ));
            }
        }
        i = i + 1;
    }
    let ghost all = split_lines(v@.take(i as int));
    assert(v@.take(i as int) =~= v@);
    assert(all.drop_last().push(all.last()) =~= all);
    st = scan_line(&v, line_start, i, st, &section, &key);
    proof {
        lemma_found_value_nonempty(split_lines(content@));
    }
    match st.1 {
        Some((a, b)) => Some(String::from_str(content.substring_char(a, b))),
        None => None,
    }
}

} // verus!
