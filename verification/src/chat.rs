use vstd::prelude::*;
use vstd::string::StrSliceExecFns;
use vstd::string::StringExecFns;

verus! {

/// Most bytes (UTF-8) kept from a client-supplied chat line; keeps a
/// misbehaving client from flooding.
pub const MAX_CHAT_LEN: usize = 240;

/// The Unicode `White_Space` property (PropList.txt), which `char::is_whitespace`
/// and `str::trim` go by.
pub open spec fn white_space(c: char) -> bool {
    let u = c as u32;
    ||| 0x09 <= u <= 0x0D
    ||| u == 0x20
    ||| u == 0x85
    ||| u == 0xA0
    ||| u == 0x1680
    ||| 0x2000 <= u <= 0x200A
    ||| u == 0x2028
    ||| u == 0x2029
    ||| u == 0x202F
    ||| u == 0x205F
    ||| u == 0x3000
}

/// Whether `c` is Unicode white space.
pub fn is_white_space(c: char) -> (b: bool)
    ensures
        b == white_space(c),
{
    let u = c as u32;
    (0x09 <= u && u <= 0x0D) || u == 0x20 || u == 0x85 || u == 0xA0 || u == 0x1680
        || (0x2000 <= u && u <= 0x200A) || u == 0x2028 || u == 0x2029 || u == 0x202F
        || u == 0x205F || u == 0x3000
}

/// Number of white-space characters at the start of `s`.
pub open spec fn leading_space(s: Seq<char>) -> nat
    decreases s.len(),
{
    if s.len() == 0 || !white_space(s[0]) {
        0
    } else {
        1 + leading_space(s.drop_first())
    }
}

/// Number of white-space characters at the end of `s`.
pub open spec fn trailing_space(s: Seq<char>) -> nat
    decreases s.len(),
{
    if s.len() == 0 || !white_space(s.last()) {
        0
    } else {
        1 + trailing_space(s.drop_last())
    }
}

/// `s` without leading and trailing white space.
pub open spec fn trimmed(s: Seq<char>) -> Seq<char> {
    let rest = s.skip(leading_space(s) as int);
    rest.take(rest.len() - trailing_space(rest))
}

/// Bytes that `c` takes in UTF-8.
pub open spec fn utf8_len(c: char) -> int {
    let u = c as u32;
    if u < 0x80 {
        1
    } else if u < 0x800 {
        2
    } else if u < 0x10000 {
        3
    } else {
        4
    }
}

/// Bytes that `s` takes in UTF-8.
pub open spec fn utf8_bytes(s: Seq<char>) -> int
    decreases s.len(),
{
    if s.len() == 0 {
        0
    } else {
        utf8_bytes(s.drop_last()) + utf8_len(s.last())
    }
}

/// Number of leading characters of `s` that fit in `budget` bytes, whole
/// characters only.
pub open spec fn fitting_chars(s: Seq<char>, budget: int) -> nat
    decreases s.len(),
{
    if s.len() == 0 || utf8_len(s[0]) > budget {
        0
    } else {
        1 + fitting_chars(s.drop_first(), budget - utf8_len(s[0]))
    }
}

/// The chat line the server relays for a client-supplied `text`: `text`
/// trimmed of white space and cut to the longest run of whole characters
/// that fits in `MAX_CHAT_LEN` bytes, or nothing when only white space was
/// sent.
pub open spec fn relayed_line(text: Seq<char>) -> Option<Seq<char>> {
    let t = trimmed(text);
    if t.len() == 0 {
        None
    } else {
        Some(t.take(fitting_chars(t, MAX_CHAT_LEN as int) as int))
    }
}

/// Bytes of one character, in UTF-8.
fn char_bytes(c: char) -> (n: usize)
    ensures
        n == utf8_len(c),
{
    let u = c as u32;
    if u < 0x80 {
        1
    } else if u < 0x800 {
        2
    } else if u < 0x10000 {
        3
    } else {
        4
    }
}

proof fn lemma_utf8_len_bounds(c: char)
    ensures
        1 <= utf8_len(c) <= 4,
{
}

/// What `fitting_chars` keeps lies within the budget, takes every character
/// when all of `s` fits, and keeps at least one character of a nonempty `s`
/// when the budget holds any character.
proof fn lemma_fitting_chars(s: Seq<char>, budget: int)
    ensures
        fitting_chars(s, budget) <= s.len(),
        utf8_bytes(s.take(fitting_chars(s, budget) as int)) <= if budget < 0 { 0 } else { budget },
        utf8_bytes(s) <= budget ==> fitting_chars(s, budget) == s.len(),
        s.len() > 0 && budget >= 4 ==> fitting_chars(s, budget) > 0,
    decreases s.len(),
{
    if s.len() > 0 {
        lemma_utf8_len_bounds(s[0]);
        let rest = s.drop_first();
        lemma_fitting_chars(rest, budget - utf8_len(s[0]));
        lemma_bytes_split(s);
        if utf8_len(s[0]) <= budget {
            let k = fitting_chars(rest, budget - utf8_len(s[0]));
            assert(s.take(k + 1int).drop_first() =~= rest.take(k as int));
            lemma_bytes_split(s.take(k + 1int));
        } else {
            assert(s.take(0) =~= Seq::<char>::empty());
        }
        lemma_bytes_nonneg(rest);
    } else {
        assert(s.take(0) =~= Seq::<char>::empty());
    }
}

proof fn lemma_bytes_nonneg(s: Seq<char>)
    ensures
        utf8_bytes(s) >= 0,
    decreases s.len(),
{
    if s.len() > 0 {
        lemma_utf8_len_bounds(s.last());
        lemma_bytes_nonneg(s.drop_last());
    }
}

/// Bytes of a nonempty sequence: its first character plus the rest.
proof fn lemma_bytes_split(s: Seq<char>)
    ensures
        s.len() > 0 ==> utf8_bytes(s) == utf8_len(s[0]) + utf8_bytes(s.drop_first()),
    decreases s.len(),
{
    if s.len() > 1 {
        lemma_bytes_split(s.drop_last());
        assert(s.drop_last().drop_first() =~= s.drop_first().drop_last());
    } else if s.len() == 1 {
        assert(s.drop_first() =~= Seq::<char>::empty());
        assert(s.drop_last() =~= Seq::<char>::empty());
    }
}

proof fn lemma_leading_space_is(s: Seq<char>, n: int)
    requires
        0 <= n <= s.len(),
        forall|i: int| 0 <= i < n ==> white_space(#[trigger] s[i]),
        n < s.len() ==> !white_space(s[n]),
    ensures
        leading_space(s) == n,
    decreases s.len(),
{
    if n > 0 {
        assert forall|i: int| 0 <= i < n - 1 implies white_space(#[trigger] s.drop_first()[i]) by {
            assert(s.drop_first()[i] == s[i + 1]);
        }
        if n - 1 < s.len() - 1 {
            assert(s.drop_first()[n - 1] == s[n]);
        }
        lemma_leading_space_is(s.drop_first(), n - 1);
    }
}

proof fn lemma_trailing_space_is(s: Seq<char>, n: int)
    requires
        0 <= n <= s.len(),
        forall|i: int| s.len() - n <= i < s.len() ==> white_space(#[trigger] s[i]),
        n < s.len() ==> !white_space(s[s.len() - n - 1]),
    ensures
        trailing_space(s) == n,
    decreases s.len(),
{
    if n > 0 {
        assert forall|i: int| s.len() - 1 - (n - 1) <= i < s.len() - 1 implies white_space(#[trigger] s.drop_last()[i]) by {
            assert(s.drop_last()[i] == s[i]);
        }
        if n - 1 < s.len() - 1 {
            assert(s.drop_last()[s.len() - 1 - (n - 1) - 1] == s[s.len() - n - 1]);
        }
        lemma_trailing_space_is(s.drop_last(), n - 1);
    }
}

proof fn lemma_leading_space_bounds(s: Seq<char>)
    ensures
        leading_space(s) <= s.len(),
        leading_space(s) < s.len() ==> !white_space(s[leading_space(s) as int]),
    decreases s.len(),
{
    if s.len() > 0 && white_space(s[0]) {
        lemma_leading_space_bounds(s.drop_first());
    }
}

proof fn lemma_trailing_space_bounds(s: Seq<char>)
    ensures
        trailing_space(s) <= s.len(),
        trailing_space(s) < s.len() ==> !white_space(s[s.len() - trailing_space(s) - 1]),
    decreases s.len(),
{
    if s.len() > 0 && white_space(s.last()) {
        lemma_trailing_space_bounds(s.drop_last());
    }
}

/// Law: a relayed line is never blank, never longer than `MAX_CHAT_LEN`
/// bytes, and never starts with white space; when nothing had to be cut it
/// also does not end with white space, and relaying it again gives it back
/// unchanged.
pub proof fn lemma_relayed_line_shape(text: Seq<char>)
    ensures
        relayed_line(text) matches Some(t) ==> {
            &&& 0 < t.len()
            &&& utf8_bytes(t) <= MAX_CHAT_LEN
            &&& !white_space(t[0])
            &&& utf8_bytes(trimmed(text)) <= MAX_CHAT_LEN ==> {
                &&& !white_space(t.last())
                &&& relayed_line(t) == Some(t)
            }
        },
{
    let a = leading_space(text);
    let rest = text.skip(a as int);
    let b = trailing_space(rest);
    lemma_leading_space_bounds(text);
    lemma_trailing_space_bounds(rest);
    let t = trimmed(text);
    if t.len() > 0 {
        lemma_fitting_chars(t, MAX_CHAT_LEN as int);
        assert(t[0] == text[a as int]);
        assert(t.last() == rest[rest.len() - b - 1]);
        if utf8_bytes(t) <= MAX_CHAT_LEN {
            assert(t.take(t.len() as int) =~= t);
            lemma_leading_space_is(t, 0);
            lemma_trailing_space_is(t, 0);
            assert(t.skip(0) =~= t);
        }
    }
}

/// The characters of `text`, in order.
fn chars_of(text: &str) -> (v: Vec<char>)
    ensures
        v@ == text@,
{
    let mut v: Vec<char> = Vec::new();
    for c in it: text.chars()
        invariant
            v@ == it.seq().take(it.index()),
    {
        v.push(c);
    }
    v
}

/// The line to relay for a client's chat `text` (see [`relayed_line`]):
/// trimmed and capped at `MAX_CHAT_LEN` bytes of whole characters, `None`
/// when blank.
pub fn chat_line(text: &str) -> (out: Option<String>)
    ensures
        match relayed_line(text@) {
            None => out is None,
            Some(t) => out matches Some(s) && s@ == t,
        },
{
    let cs = chars_of(text);
    let n = cs.len();
    let mut start: usize = 0;
    while start < n && is_white_space(cs[start])
        invariant
            start <= n,
            n == cs@.len(),
            cs@ == text@,
            forall|i: int| 0 <= i < start ==> white_space(#[trigger] text@[i]),
        decreases n - start,
    {
        start = start + 1;
    }
    proof {
        lemma_leading_space_is(text@, start as int);
    }
    let mut end: usize = n;
    while end > start && is_white_space(cs[end - 1])
        invariant
            start <= end <= n,
            n == cs@.len(),
            cs@ == text@,
            forall|i: int| end <= i < n ==> white_space(#[trigger] text@[i]),
        decreases end - start,
    {
        end = end - 1;
    }
    let ghost rest = text@.skip(start as int);
    proof {
        assert forall|i: int| rest.len() - (n - end) <= i < rest.len() implies white_space(#[trigger] rest[i]) by {
            assert(rest[i] == text@[start + i]);
        }
        if end > start {
            assert(rest[rest.len() - (n - end) - 1] == text@[end - 1]);
        }
        lemma_trailing_space_is(rest, (n - end) as int);
        assert(trimmed(text@) =~= text@.subrange(start as int, end as int));
    }
    if end == start {
        return None;
    }
    // Keep whole characters while they fit in the byte budget.
    let ghost t = text@.subrange(start as int, end as int);
    let mut keep_end: usize = start;
    let mut used: usize = 0;
    assert(t.skip(0) =~= t);
    while keep_end < end && used + char_bytes(cs[keep_end]) <= MAX_CHAT_LEN
        invariant
            start <= keep_end <= end <= n,
            n == cs@.len(),
            cs@ == text@,
            t == text@.subrange(start as int, end as int),
            used <= MAX_CHAT_LEN,
            fitting_chars(t, MAX_CHAT_LEN as int)
                == (keep_end - start) + fitting_chars(t.skip(keep_end - start), MAX_CHAT_LEN - used),
        decreases end - keep_end,
    {
        let ghost k = keep_end - start;
        let c = cs[keep_end];
        proof {
            let tail = t.skip(k);
            assert(tail[0] == c);
            assert(tail.drop_first() =~= t.skip(k + 1));
        }
        used = used + char_bytes(c);
        keep_end = keep_end + 1;
    }
    proof {
        let k = keep_end - start;
        let tail = t.skip(k);
        if keep_end < end {
            assert(tail[0] == text@[keep_end as int]);
        } else {
            assert(tail.len() == 0);
        }
        assert(t.take(k) =~= text@.subrange(start as int, keep_end as int));
    }
    let line = text.substring_char(start, keep_end);
    Some(String::from_str(line))
}

/// Members (by link id) whose group is `group`, in order.
pub open spec fn group_audience(group: u32, members: Seq<(u64, u32)>) -> Seq<u64>
    decreases members.len(),
{
    if members.len() == 0 {
        Seq::empty()
    } else {
        let rest = group_audience(group, members.drop_last());
        if members.last().1 == group {
            rest.push(members.last().0)
        } else {
            rest
        }
    }
}

/// Law: a chat line reaches every member of the sender's group and nobody
/// else, and no more recipients than there are members.
pub proof fn lemma_chat_reaches_exactly_the_group(group: u32, members: Seq<(u64, u32)>)
    ensures
        forall|i: int| 0 <= i < members.len() && (#[trigger] members[i]).1 == group
            ==> group_audience(group, members).contains(members[i].0),
        forall|x: u64| #[trigger] group_audience(group, members).contains(x) ==> exists|i: int|
            0 <= i < members.len() && #[trigger] members[i] == (x, group),
        group_audience(group, members).len() <= members.len(),
    decreases members.len(),
{
    if members.len() > 0 {
        let init = members.drop_last();
        lemma_chat_reaches_exactly_the_group(group, init);
        let rest = group_audience(group, init);
        let out = group_audience(group, members);
        let last = members.last();
        assert forall|i: int| 0 <= i < members.len() && (#[trigger] members[i]).1 == group
            implies out.contains(members[i].0) by {
            if i < members.len() - 1 {
                assert(init[i] == members[i]);
                let k = choose|k: int| 0 <= k < rest.len() && rest[k] == init[i].0;
                if last.1 == group {
                    assert(out[k] == rest[k]);
                }
            } else {
                assert(out[rest.len() as int] == last.0);
            }
        }
        assert forall|x: u64| #[trigger] out.contains(x) implies exists|i: int|
            0 <= i < members.len() && #[trigger] members[i] == (x, group) by {
            let k = choose|k: int| 0 <= k < out.len() && out[k] == x;
            if k < rest.len() {
                assert(out[k] == rest[k]);
                assert(rest.contains(x));
                let i = choose|i: int| 0 <= i < init.len() && #[trigger] init[i] == (x, group);
                assert(members[i] == init[i]);
            } else {
                assert(last.1 == group);
                assert(out[k] == last.0);
                assert(members[members.len() - 1] == (x, group));
            }
        }
    } else {
        assert(group_audience(group, members).len() == 0);
    }
}

/// Who receives a chat line from a member of `group`: every member
/// `(link, group)` of that group, the sender included, in order.
pub fn chat_recipients(group: u32, members: &Vec<(u64, u32)>) -> (out: Vec<u64>)
    ensures
        out@ == group_audience(group, members@),
{
    let mut out: Vec<u64> = Vec::new();
    let mut i: usize = 0;
    while i < members.len()
        invariant
            i <= members.len(),
            out@ == group_audience(group, members@.take(i as int)),
        decreases members.len() - i,
    {
        assert(members@.take(i as int + 1).drop_last() =~= members@.take(i as int));
        let (link, g) = members[i];
        if g == group {
            out.push(link);
        }
        i = i + 1;
    }
    assert(members@.take(members.len() as int) =~= members@);
    out
}

} // verus!
