//! The shape of a token's text: whitespace, words, sigils, call syntax.
//!
//! Every function here works on characters, not bytes: positions and lengths
//! count `char`s, and the contracts speak of the text as a `Seq<char>`.

use vstd::prelude::*;
use vstd::string::*;

verus! {

/// Whether `c` is whitespace: a character with the Unicode property
/// `White_Space`.
pub open spec fn is_space(c: char) -> bool {
    let n = c as u32;
    (0x09 <= n <= 0x0D) || n == 0x20 || n == 0x85 || n == 0xA0 || n == 0x1680 || (0x2000 <= n
        <= 0x200A) || n == 0x2028 || n == 0x2029 || n == 0x202F || n == 0x205F || n == 0x3000
}

/// How many characters at the start of `s` satisfy `p`, before the first one
/// that does not.
pub open spec fn prefix_len(s: Seq<char>, p: spec_fn(char) -> bool) -> nat
    decreases s.len(),
{
    if s.len() > 0 && p(s[0]) {
        1 + prefix_len(s.skip(1), p)
    } else {
        0
    }
}

/// How many characters at the end of `s` satisfy `p`, after the last one that
/// does not.
pub open spec fn suffix_len(s: Seq<char>, p: spec_fn(char) -> bool) -> nat
    decreases s.len(),
{
    if s.len() > 0 && p(s.last()) {
        1 + suffix_len(s.drop_last(), p)
    } else {
        0
    }
}

/// `prefix_len` never exceeds the length.
pub proof fn prefix_len_bound(s: Seq<char>, p: spec_fn(char) -> bool)
    ensures
        prefix_len(s, p) <= s.len(),
    decreases s.len(),
{
    if s.len() > 0 && p(s[0]) {
        prefix_len_bound(s.skip(1), p);
    }
}

/// `suffix_len` never exceeds the length.
pub proof fn suffix_len_bound(s: Seq<char>, p: spec_fn(char) -> bool)
    ensures
        suffix_len(s, p) <= s.len(),
    decreases s.len(),
{
    if s.len() > 0 && p(s.last()) {
        suffix_len_bound(s.drop_last(), p);
    }
}

/// `prefix_len(s, p)` is the one position `k` with `p` on everything before it
/// and not on `s[k]`.
pub proof fn prefix_len_is(s: Seq<char>, p: spec_fn(char) -> bool, k: int)
    requires
        0 <= k <= s.len(),
        forall|j: int| 0 <= j < k ==> p(#[trigger] s[j]),
        k == s.len() || !p(s[k]),
    ensures
        prefix_len(s, p) == k,
    decreases k,
{
    if k > 0 {
        let t = s.skip(1);
        assert forall|j: int| 0 <= j < k - 1 implies p(#[trigger] t[j]) by {
            assert(t[j] == s[j + 1]);
        }
        prefix_len_is(t, p, k - 1);
    }
}

/// `suffix_len(s, p)` is the one count `k` with `p` on the last `k` characters
/// and not on the one before them.
pub proof fn suffix_len_is(s: Seq<char>, p: spec_fn(char) -> bool, k: int)
    requires
        0 <= k <= s.len(),
        forall|j: int| s.len() - k <= j < s.len() ==> p(#[trigger] s[j]),
        k == s.len() || !p(s[s.len() - k - 1]),
    ensures
        suffix_len(s, p) == k,
    decreases k,
{
    if k > 0 {
        let t = s.drop_last();
        assert forall|j: int| t.len() - (k - 1) <= j < t.len() implies p(#[trigger] t[j]) by {
            assert(t[j] == s[j]);
        }
        suffix_len_is(t, p, k - 1);
    }
}

/// The test "is whitespace" (`space` set) or "is not whitespace" (`space`
/// clear), as a predicate on characters.
pub open spec fn space_is(space: bool) -> spec_fn(char) -> bool {
    |c: char| is_space(c) == space
}

/// The test "is not `c`", as a predicate on characters.
pub open spec fn differs_from(c: char) -> spec_fn(char) -> bool {
    |x: char| x != c
}

/// `s` without its leading whitespace.
pub open spec fn trim_start(s: Seq<char>) -> Seq<char> {
    s.skip(prefix_len(s, space_is(true)) as int)
}

/// `s` without its trailing whitespace.
pub open spec fn trim_end(s: Seq<char>) -> Seq<char> {
    s.take(s.len() - suffix_len(s, space_is(true)))
}

/// `s` without its leading and trailing whitespace.
pub open spec fn trimmed(s: Seq<char>) -> Seq<char> {
    trim_end(trim_start(s))
}

/// `s` with every newline character taken out.
pub open spec fn without_newlines(s: Seq<char>) -> Seq<char> {
    s.filter(differs_from('\n'))
}

/// The text that is resolved: trimmed first, then freed of newlines.
pub open spec fn normalized(s: Seq<char>) -> Seq<char> {
    without_newlines(trimmed(s))
}

/// The first word of `s`: its characters up to the first whitespace.
pub open spec fn first_word_of(s: Seq<char>) -> Seq<char> {
    s.take(prefix_len(s, space_is(false)) as int)
}

/// What follows the first word of `s` and the whitespace right after it.
pub open spec fn after_first_word(s: Seq<char>) -> Seq<char> {
    trim_start(s.skip(prefix_len(s, space_is(false)) as int))
}

/// Whether `s` starts with the sigil `$` of a memory reference.
pub open spec fn is_reference(s: Seq<char>) -> bool {
    s.len() > 0 && s[0] == '$'
}

/// The name that a memory reference `s` refers to: what follows its first
/// character, the sigil, trimmed.
pub open spec fn reference_name(s: Seq<char>) -> Seq<char> {
    if s.len() > 0 {
        trimmed(s.skip(1))
    } else {
        Seq::empty()
    }
}

/// The position of the first `c` in `s`, or the length of `s` if there is none.
pub open spec fn first_index_of(s: Seq<char>, c: char) -> nat {
    prefix_len(s, differs_from(c))
}

/// The position of the last `c` in `s`, or `-1` if there is none.
pub open spec fn last_index_of(s: Seq<char>, c: char) -> int {
    s.len() - 1 - suffix_len(s, differs_from(c))
}

/// The name and the argument text of a call `name(args)`: the name is
/// everything before the first `(`, the argument text everything between that
/// `(` and the last `)`. `None` where no `(` stands before the last `)`.
pub open spec fn call_parts(s: Seq<char>) -> Option<(Seq<char>, Seq<char>)> {
    let open = first_index_of(s, '(') as int;
    let close = last_index_of(s, ')');
    if open < close {
        Some((s.take(open), s.subrange(open + 1, close)))
    } else {
        None
    }
}

/// The pieces of `s` between the occurrences of `sep`, in order. There is
/// always at least one piece, and a piece may be empty.
pub open spec fn split_on(s: Seq<char>, sep: char) -> Seq<Seq<char>>
    decreases s.len(),
{
    let k = first_index_of(s, sep) as int;
    if k >= s.len() {
        seq![s]
    } else {
        seq![s.take(k)] + split_on(s.skip(k + 1), sep)
    }
}

/// The texts of a list of strings, one by one.
pub open spec fn texts(v: Seq<String>) -> Seq<Seq<char>> {
    Seq::new(v.len(), |i: int| v[i]@)
}

/// Whether `c` is whitespace.
pub fn is_whitespace(c: char) -> (b: bool)
    ensures
        b == is_space(c),
{
    let n: u32 = c as u32;
    (0x09 <= n && n <= 0x0D) || n == 0x20 || n == 0x85 || n == 0xA0 || n == 0x1680 || (0x2000 <= n
        && n <= 0x200A) || n == 0x2028 || n == 0x2029 || n == 0x202F || n == 0x205F || n == 0x3000
}

/// Scans `s` from position `from` over the characters that are whitespace
/// (`space` set) or that are not (`space` clear), and returns where the run
/// ends. A position behind the end of `s` is returned as it is.
pub fn run_end(s: &str, from: usize, space: bool) -> (end: usize)
    ensures
        from <= s@.len() ==> from <= end <= s@.len() && end == from + prefix_len(
            s@.skip(from as int),
            space_is(space),
        ),
        from > s@.len() ==> end == from,
{
    let n: usize = s.unicode_len();
    if from > n {
        return from;
    }
    let mut i: usize = from;
    while i < n && is_whitespace(s.get_char(i)) == space
        invariant
            n == s@.len(),
            from <= i <= n,
            forall|j: int| from <= j < i ==> is_space(#[trigger] s@[j]) == space,
        decreases n - i,
    {
        i = i + 1;
    }
    proof {
        let t = s@.skip(from as int);
        let p = space_is(space);
        assert forall|j: int| 0 <= j < i - from implies p(#[trigger] t[j]) by {
            assert(t[j] == s@[from + j]);
        }
        prefix_len_is(t, p, i - from);
    }
    i
}

/// Where the trailing whitespace of `s` begins.
pub fn trailing_space_start(s: &str) -> (start: usize)
    ensures
        start == s@.len() - suffix_len(s@, space_is(true)),
{
    let n: usize = s.unicode_len();
    let mut i: usize = n;
    while i > 0 && is_whitespace(s.get_char(i - 1))
        invariant
            n == s@.len(),
            i <= n,
            forall|j: int| i <= j < n ==> is_space(#[trigger] s@[j]),
        decreases i,
    {
        i = i - 1;
    }
    proof {
        suffix_len_is(s@, space_is(true), n - i);
    }
    i
}

/// The position of the first `c` in `s` at or after `from`, or the length of
/// `s` if there is none. A position behind the end of `s` is returned as it
/// is.
pub fn find_first(s: &str, from: usize, c: char) -> (at: usize)
    ensures
        from <= s@.len() ==> from <= at <= s@.len() && at == from + first_index_of(
            s@.skip(from as int),
            c,
        ),
        from > s@.len() ==> at == from,
{
    let n: usize = s.unicode_len();
    if from > n {
        return from;
    }
    let mut i: usize = from;
    while i < n && s.get_char(i) != c
        invariant
            n == s@.len(),
            from <= i <= n,
            forall|j: int| from <= j < i ==> #[trigger] s@[j] != c,
        decreases n - i,
    {
        i = i + 1;
    }
    proof {
        let t = s@.skip(from as int);
        let p = differs_from(c);
        assert forall|j: int| 0 <= j < i - from implies p(#[trigger] t[j]) by {
            assert(t[j] == s@[from + j]);
        }
        prefix_len_is(t, p, i - from);
    }
    i
}

/// The position of the last `c` in `s`, if there is one.
pub fn find_last(s: &str, c: char) -> (at: Option<usize>)
    ensures
        match at {
            Some(i) => i == last_index_of(s@, c),
            None => last_index_of(s@, c) == -1,
        },
{
    let n: usize = s.unicode_len();
    let mut i: usize = n;
    while i > 0 && s.get_char(i - 1) != c
        invariant
            n == s@.len(),
            i <= n,
            forall|j: int| i <= j < n ==> #[trigger] s@[j] != c,
        decreases i,
    {
        i = i - 1;
    }
    proof {
        suffix_len_is(s@, differs_from(c), n - i);
    }
    if i == 0 {
        None
    } else {
        Some(i - 1)
    }
}

/// `s` without its leading and trailing whitespace.
pub fn trim<'a>(s: &'a str) -> (r: &'a str)
    ensures
        r@ == trimmed(s@),
{
    let n: usize = s.unicode_len();
    let start: usize = run_end(s, 0, true);
    let rest: &str = s.substring_char(start, n);
    assert(s@.skip(0) =~= s@);
    assert(rest@ =~= trim_start(s@));
    let end: usize = trailing_space_start(rest);
    rest.substring_char(0, end)
}

/// Taking the newlines out of `s` followed by `c` keeps `c` unless it is a
/// newline.
pub proof fn without_newlines_push(s: Seq<char>, c: char)
    ensures
        without_newlines(s.push(c)) == if c != '\n' {
            without_newlines(s).push(c)
        } else {
            without_newlines(s)
        },
{
    reveal(Seq::filter);
    assert(s.push(c).drop_last() =~= s);
}

/// `s` with every newline character taken out.
pub fn remove_newlines(s: &str) -> (r: String)
    ensures
        r@ == without_newlines(s@),
        r@.len() <= s@.len(),
{
    let n: usize = s.unicode_len();
    let mut out: String = String::new();
    let mut i: usize = 0;
    while i < n
        invariant
            n == s@.len(),
            i <= n,
            out@ == without_newlines(s@.take(i as int)),
            out@.len() <= i,
        decreases n - i,
    {
        let c: char = s.get_char(i);
        proof {
            assert(s@.take(i + 1) =~= s@.take(i as int).push(c));
            without_newlines_push(s@.take(i as int), c);
        }
        if c != '\n' {
            let one: &str = s.substring_char(i, i + 1);
            assert(one@ =~= seq![c]);
            out.append(one);
            assert(out@ =~= without_newlines(s@.take(i as int)).push(c));
        }
        i = i + 1;
    }
    assert(s@.take(n as int) =~= s@);
    out
}

/// The text that is resolved: `s` trimmed, then freed of newlines.
pub fn normalize(s: &str) -> (r: String)
    ensures
        r@ == normalized(s@),
        r@.len() <= s@.len(),
{
    let t: &str = trim(s);
    proof {
        prefix_len_bound(s@, space_is(true));
        suffix_len_bound(trim_start(s@), space_is(true));
    }
    remove_newlines(t)
}

/// The first word of `s`: its characters up to the first whitespace.
pub fn first_word<'a>(s: &'a str) -> (r: &'a str)
    ensures
        r@ == first_word_of(s@),
{
    let end: usize = run_end(s, 0, false);
    assert(s@.skip(0) =~= s@);
    s.substring_char(0, end)
}

/// What follows the first word of `s` and the whitespace right after it.
pub fn key_content<'a>(s: &'a str) -> (r: &'a str)
    ensures
        r@ == after_first_word(s@),
{
    let n: usize = s.unicode_len();
    let word_end: usize = run_end(s, 0, false);
    assert(s@.skip(0) =~= s@);
    let start: usize = run_end(s, word_end, true);
    let r: &str = s.substring_char(start, n);
    assert(r@ =~= after_first_word(s@));
    r
}

/// Whether `s` starts with the sigil `$` of a memory reference.
pub fn starts_reference(s: &str) -> (b: bool)
    ensures
        b == is_reference(s@),
{
    s.unicode_len() > 0 && s.get_char(0) == '$'
}

/// The name that the memory reference `s` refers to.
pub fn name_of_reference<'a>(s: &'a str) -> (r: &'a str)
    ensures
        r@ == reference_name(s@),
{
    let n: usize = s.unicode_len();
    if n == 0 {
        assert(s@ =~= Seq::empty());
        return s;
    }
    let rest: &str = s.substring_char(1, n);
    assert(rest@ =~= s@.skip(1));
    trim(rest)
}

/// The name and the argument text of the call `s`, when a `(` stands before
/// its last `)`.
pub fn split_call<'a>(s: &'a str) -> (r: Option<(&'a str, &'a str)>)
    ensures
        match r {
            Some((name, args)) => call_parts(s@) == Some((name@, args@)) && args@.len() < s@.len(),
            None => call_parts(s@) is None,
        },
{
    let open: usize = find_first(s, 0, '(');
    assert(s@.skip(0) =~= s@);
    match find_last(s, ')') {
        Some(close) => {
            if open < close {
                let name: &str = s.substring_char(0, open);
                let args: &str = s.substring_char(open + 1, close);
                assert(name@ =~= s@.take(open as int));
                Some((name, args))
            } else {
                None
            }
        },
        None => None,
    }
}

/// Unfolds `split_on` once at its first separator.
pub proof fn split_on_step(s: Seq<char>, sep: char, from: int, at: int)
    requires
        0 <= from <= at <= s.len(),
        at == from + first_index_of(s.skip(from), sep),
    ensures
        split_on(s.skip(from), sep) == if at == s.len() {
            seq![s.subrange(from, at)]
        } else {
            seq![s.subrange(from, at)] + split_on(s.skip(at + 1), sep)
        },
{
    let t = s.skip(from);
    let k = at - from;
    assert(t.take(k) =~= s.subrange(from, at));
    if at < s.len() {
        assert(t.skip(k + 1) =~= s.skip(at + 1));
    } else {
        assert(t =~= s.subrange(from, at));
    }
}

/// The pieces of `s` between the occurrences of `sep`, in order.
pub fn split(s: &str, sep: char) -> (r: Vec<String>)
    ensures
        texts(r@) == split_on(s@, sep),
        forall|i: int| 0 <= i < r@.len() ==> (#[trigger] r@[i])@.len() <= s@.len(),
{
    let n: usize = s.unicode_len();
    let mut out: Vec<String> = Vec::new();
    let mut from: usize = 0;
    assert(s@.skip(0) =~= s@);
    assert(texts(out@) + split_on(s@.skip(0), sep) =~= split_on(s@, sep));
    loop
        invariant_except_break
            texts(out@) + split_on(s@.skip(from as int), sep) == split_on(s@, sep),
        invariant
            n == s@.len(),
            from <= n,
            forall|i: int| 0 <= i < out@.len() ==> (#[trigger] out@[i])@.len() <= n,
        ensures
            texts(out@) == split_on(s@, sep),
            forall|i: int| 0 <= i < out@.len() ==> (#[trigger] out@[i])@.len() <= n,
        decreases n - from,
    {
        let at: usize = find_first(s, from, sep);
        let piece: String = s.substring_char(from, at).to_owned();
        proof {
            split_on_step(s@, sep, from as int, at as int);
        }
        let ghost before = out@;
        out.push(piece);
        assert(texts(out@) =~= texts(before) + seq![s@.subrange(from as int, at as int)]);
        if at == n {
            break;
        }
        from = at + 1;
    }
    out
}

} // verus!
