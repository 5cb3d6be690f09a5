//! File-name handling: stems of track file names.
use vstd::prelude::*;
use vstd::string::*;

verus! {

pub open spec fn is_separator(c: char) -> bool {
    c == '/' || c == '\\'
}

/// The position of the last `/` or `\` before `end`, or -1.
pub open spec fn last_separator(s: Seq<char>, end: int) -> int
    decreases end,
{
    if end <= 0 {
        -1
    } else if is_separator(s[end - 1]) {
        end - 1
    } else {
        last_separator(s, end - 1)
    }
}

/// The position of the last `.` before `end`, or -1.
pub open spec fn last_dot(s: Seq<char>, end: int) -> int
    decreases end,
{
    if end <= 0 {
        -1
    } else if s[end - 1] == '.' {
        end - 1
    } else {
        last_dot(s, end - 1)
    }
}

/// The last path segment of a Unix or Windows style file name.
pub open spec fn base_name(s: Seq<char>) -> Seq<char> {
    s.skip(last_separator(s, s.len() as int) + 1)
}

/// A file name without its directories and without its last extension.
pub open spec fn file_stem(s: Seq<char>) -> Seq<char> {
    let base = base_name(s);
    let dot = last_dot(base, base.len() as int);
    if dot >= 0 {
        base.take(dot)
    } else {
        base
    }
}

proof fn lemma_last_separator_range(s: Seq<char>, end: int)
    ensures
        -1 <= last_separator(s, end) < end || (end <= 0 && last_separator(s, end) == -1),
    decreases end,
{
    if end > 0 {
        lemma_last_separator_range(s, end - 1);
    }
}

proof fn lemma_last_dot_range(s: Seq<char>, end: int)
    ensures
        -1 <= last_dot(s, end) < end || (end <= 0 && last_dot(s, end) == -1),
    decreases end,
{
    if end > 0 {
        lemma_last_dot_range(s, end - 1);
    }
}

proof fn lemma_last_dot_shift(s: Seq<char>, start: int, end: int)
    requires
        0 <= start <= end <= s.len(),
    ensures
        last_dot(s.skip(start), end - start) == if last_dot(s, end) >= start {
            last_dot(s, end) - start
        } else {
            -1
        },
    decreases end - start,
{
    if end > start {
        lemma_last_dot_shift(s, start, end - 1);
        assert(s.skip(start)[end - start - 1] == s[end - 1]);
        lemma_last_dot_range(s, end - 1);
    } else {
        lemma_last_dot_range(s, end);
    }
}

/// Appends the characters `s[from..to]` to `out`.
pub fn push_chars(out: &mut String, s: &str, from: usize, to: usize)
    requires
        from <= to <= s@.len(),
    ensures
        final(out)@ == old(out)@ + s@.subrange(from as int, to as int),
{
    let mut i = from;
    while i < to
        invariant
            from <= i <= to <= s@.len(),
            out@ == old(out)@ + s@.subrange(from as int, i as int),
        decreases to - i,
    {
        out.push(s.get_char(i));
        assert(old(out)@ + s@.subrange(from as int, i + 1) =~= out@);
        i = i + 1;
    }
}

/// Strips the directories (`/` or `\`) and the last extension of a file
/// name: `"dir/lead.wav"` gives `"lead"`.
pub fn filename_without_extension(filename: &str) -> (res: String)
    ensures
        res@ == file_stem(filename@),
{
    let n = filename.unicode_len();
    let ghost s = filename@;
    let mut start = n;
    while start > 0 && !(filename.get_char(start - 1) == '/' || filename.get_char(start - 1) == '\\')
        invariant
            n == s.len(),
            s == filename@,
            start <= n,
            last_separator(s, n as int) == last_separator(s, start as int),
        decreases start,
    {
        start = start - 1;
    }
    assert(last_separator(s, n as int) + 1 == start);
    let mut end = n;
    while end > start && filename.get_char(end - 1) != '.'
        invariant
            n == s.len(),
            s == filename@,
            start <= end <= n,
            forall|k: int| end <= k < n ==> s[k] != '.',
        decreases end,
    {
        end = end - 1;
    }
    proof {
        lemma_last_dot_shift(s, start as int, n as int);
        lemma_last_dot_range(s, end as int);
        lemma_last_dot_range(s, start as int);
        if end > start {
            lemma_last_dot_over_nondots(s, end as int, n as int);
            assert(last_dot(s, end as int) == end - 1);
        } else {
            lemma_last_dot_below(s, start as int, n as int);
        }
    }
    let mut out = String::new();
    if end > start {
        push_chars(&mut out, filename, start, end - 1);
        assert(out@ =~= file_stem(s));
    } else {
        push_chars(&mut out, filename, start, n);
        assert(out@ =~= file_stem(s));
    }
    out
}

proof fn lemma_last_dot_over_nondots(s: Seq<char>, mid: int, end: int)
    requires
        0 <= mid <= end <= s.len(),
        forall|k: int| mid <= k < end ==> s[k] != '.',
    ensures
        last_dot(s, end) == last_dot(s, mid),
    decreases end - mid,
{
    if end > mid {
        lemma_last_dot_over_nondots(s, mid, end - 1);
    }
}

proof fn lemma_last_dot_below(s: Seq<char>, start: int, end: int)
    requires
        0 <= start <= end <= s.len(),
        forall|k: int| start <= k < end ==> s[k] != '.',
    ensures
        last_dot(s, end) < start,
    decreases end - start,
{
    if end > start {
        lemma_last_dot_below(s, start, end - 1);
    } else {
        lemma_last_dot_range(s, end);
    }
}

} // verus!

verus! {

proof fn lemma_no_separator_after_last(s: Seq<char>, end: int)
    requires
        0 <= end <= s.len(),
    ensures
        forall|k: int| last_separator(s, end) < k < end ==> !is_separator(#[trigger] s[k]),
    decreases end,
{
    if end > 0 {
        lemma_no_separator_after_last(s, end - 1);
        lemma_last_separator_range(s, end - 1);
    }
}

/// A file stem holds no directory separator: it is taken from the last path
/// segment, and it is that segment up to (not including) its last dot, or
/// the whole segment when it has no dot.
pub proof fn lemma_stem_of_last_segment(s: Seq<char>)
    ensures
        forall|k: int| 0 <= k < file_stem(s).len() ==> !is_separator(#[trigger] file_stem(s)[k]),
        ({
            let base = base_name(s);
            let dot = last_dot(base, base.len() as int);
            &&& file_stem(s) == if dot >= 0 { base.subrange(0, dot) } else { base }
            &&& dot >= 0 ==> base[dot] == '.' && forall|k: int| dot < k < base.len() ==> #[trigger] base[k] != '.'
        }),
{
    let n = s.len() as int;
    lemma_no_separator_after_last(s, n);
    lemma_last_separator_range(s, n);
    let base = base_name(s);
    let dot = last_dot(base, base.len() as int);
    lemma_last_dot_range(base, base.len() as int);
    lemma_no_dot_after_last(base, base.len() as int);
    assert forall|k: int| 0 <= k < file_stem(s).len() implies !is_separator(#[trigger] file_stem(s)[k]) by {
        assert(file_stem(s)[k] == base[k]);
        assert(base[k] == s[last_separator(s, n) + 1 + k]);
    }
}

proof fn lemma_no_dot_after_last(s: Seq<char>, end: int)
    requires
        0 <= end <= s.len(),
    ensures
        last_dot(s, end) >= 0 ==> s[last_dot(s, end)] == '.',
        forall|k: int| last_dot(s, end) < k < end ==> #[trigger] s[k] != '.',
    decreases end,
{
    if end > 0 {
        lemma_no_dot_after_last(s, end - 1);
        lemma_last_dot_range(s, end - 1);
    }
}

} // verus!
