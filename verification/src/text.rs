//! Character-level text helpers shared by the library: splitting into words
//! and sentences, joining, searching, trimming and decimal numbers.
use vstd::prelude::*;

verus! {

// ---------------------------------------------------------------------------
// Specifications
// ---------------------------------------------------------------------------

/// The Unicode `White_Space` property (what `char::is_whitespace` tests).
pub open spec fn is_whitespace(c: char) -> bool {
    let u = c as u32;
    ||| 0x09 <= u <= 0x0D
    ||| u == 0x20
    ||| u == 0x85
    ||| u == 0xA0
    ||| u == 0x1680
    ||| 0x2000 <= u <= 0x200A
    ||| u == 0x2028
    ||| u == 0x2029
    ||| u == 0x202F
    ||| u == 0x205F
    ||| u == 0x3000
}

/// The maximal runs of non-whitespace characters of `s`, left to right
/// (what `str::split_whitespace` yields).
pub open spec fn words(s: Seq<char>) -> Seq<Seq<char>>
    decreases s.len(),
{
    if s.len() == 0 {
        seq![]
    } else {
        let prev = words(s.drop_last());
        let c = s.last();
        if is_whitespace(c) {
            prev
        } else if s.len() >= 2 && !is_whitespace(s[s.len() - 2]) {
            prev.update(prev.len() - 1, prev.last().push(c))
        } else {
            prev.push(seq![c])
        }
    }
}

/// The pieces of `s` between the non-overlapping occurrences of `". "`,
/// taken from the left (what `str::split(". ")` yields). There is always
/// at least one piece.
pub open spec fn sentences(s: Seq<char>) -> Seq<Seq<char>>
    decreases s.len(),
{
    if s.len() == 0 {
        seq![seq![]]
    } else {
        let prev = sentences(s.drop_last());
        let cur = prev.last();
        if s.last() == ' ' && cur.len() > 0 && cur.last() == '.' {
            prev.update(prev.len() - 1, cur.drop_last()).push(seq![])
        } else {
            prev.update(prev.len() - 1, cur.push(s.last()))
        }
    }
}

/// The sentence separator `". "`.
pub open spec fn sentence_sep() -> Seq<char> {
    seq!['.', ' ']
}

/// `parts` glued together with `sep` between consecutive parts.
pub open spec fn join(parts: Seq<Seq<char>>, sep: Seq<char>) -> Seq<char>
    decreases parts.len(),
{
    if parts.len() == 0 {
        seq![]
    } else if parts.len() == 1 {
        parts[0]
    } else {
        join(parts.drop_last(), sep) + sep + parts.last()
    }
}

/// `s` holds the character `c`.
pub open spec fn has_char(s: Seq<char>, c: char) -> bool {
    exists|i: int| 0 <= i < s.len() && s[i] == c
}

/// `pat` occurs in `s` as a contiguous block.
pub open spec fn has_infix(s: Seq<char>, pat: Seq<char>) -> bool {
    exists|i: int| 0 <= i && i + pat.len() <= s.len() && #[trigger] s.subrange(i, i + pat.len()) == pat
}

/// `s` without its leading whitespace.
pub open spec fn trim_start(s: Seq<char>) -> Seq<char>
    decreases s.len(),
{
    if s.len() > 0 && is_whitespace(s[0]) {
        trim_start(s.drop_first())
    } else {
        s
    }
}

/// `s` without its trailing whitespace.
pub open spec fn trim_end(s: Seq<char>) -> Seq<char>
    decreases s.len(),
{
    if s.len() > 0 && is_whitespace(s.last()) {
        trim_end(s.drop_last())
    } else {
        s
    }
}

/// `s` without leading and trailing whitespace (what `str::trim` yields).
pub open spec fn trim(s: Seq<char>) -> Seq<char> {
    trim_end(trim_start(s))
}

pub open spec fn is_digit(c: char) -> bool {
    '0' <= c <= '9'
}

pub open spec fn digit_value(c: char) -> nat {
    (c as u32 - '0' as u32) as nat
}

pub open spec fn all_digits(s: Seq<char>) -> bool {
    forall|i: int| 0 <= i < s.len() ==> is_digit(#[trigger] s[i])
}

/// The number that the decimal digits `s` spell (most significant first).
pub open spec fn digits_value(s: Seq<char>) -> nat
    decreases s.len(),
{
    if s.len() == 0 {
        0
    } else {
        digits_value(s.drop_last()) * 10 + digit_value(s.last())
    }
}

/// What `str::parse::<u32>` accepts: an optional `+`, then one or more
/// decimal digits whose value fits in a `u32`.
pub open spec fn parse_u32(s: Seq<char>) -> Option<u32> {
    let body = if s.len() > 0 && s[0] == '+' { s.drop_first() } else { s };
    if body.len() > 0 && all_digits(body) && digits_value(body) <= u32::MAX {
        Some(digits_value(body) as u32)
    } else {
        None
    }
}

pub open spec fn digit_char(d: nat) -> char {
    ((d + 48) as u32) as char
}

/// The decimal representation of `n`, without sign or leading zeros.
pub open spec fn decimal(n: nat) -> Seq<char>
    decreases n,
{
    if n < 10 {
        seq![digit_char(n)]
    } else {
        decimal(n / 10).push(digit_char(n % 10))
    }
}

/// The views of a vector of character vectors.
pub open spec fn char_rows(v: Seq<Vec<char>>) -> Seq<Seq<char>> {
    v.map_values(|w: Vec<char>| w@)
}

/// The views of a vector of strings.
pub open spec fn string_rows(v: Seq<String>) -> Seq<Seq<char>> {
    v.map_values(|w: String| w@)
}

// ---------------------------------------------------------------------------
// Lemmas
// ---------------------------------------------------------------------------

pub proof fn lemma_sentences_nonempty(s: Seq<char>)
    ensures
        sentences(s).len() >= 1,
    decreases s.len(),
{
    if s.len() > 0 {
        lemma_sentences_nonempty(s.drop_last());
    }
}

pub proof fn lemma_take_drop_last<T>(s: Seq<T>, i: int)
    requires
        0 <= i < s.len(),
    ensures
        s.take(i + 1).drop_last() == s.take(i),
        s.take(i + 1).last() == s[i],
{
    assert(s.take(i + 1).drop_last() =~= s.take(i));
}

// ---------------------------------------------------------------------------
// Executable helpers
// ---------------------------------------------------------------------------

/// Appends one character to a string (std's `String::push`).
#[verifier::external_body]
pub(crate) fn push_char(s: &mut String, c: char)
    ensures
        final(s)@ == old(s)@.push(c),
{
    s.push(c);
}

/// The characters of a string slice, in order.
pub fn chars_of(s: &str) -> (res: Vec<char>)
    ensures
        res@ == s@,
{
    let mut res: Vec<char> = Vec::new();
    for c in it: s.chars()
        invariant
            res@ == it.seq().take(it.index() as int),
            it.seq() == s@,
    {
        res.push(c);
    }
    res
}

/// A string holding exactly the characters `cs`.
pub fn string_of(cs: &Vec<char>) -> (res: String)
    ensures
        res@ == cs@,
{
    let mut res = String::new();
    let n = cs.len();
    for i in 0..n
        invariant
            n == cs@.len(),
            res@ == cs@.take(i as int),
    {
        push_char(&mut res, cs[i]);
        assert(cs@.take(i + 1) =~= cs@.take(i as int).push(cs@[i as int]));
    }
    assert(cs@.take(n as int) =~= cs@);
    res
}

/// Appends all of `src` to `dst`.
pub fn extend_chars(dst: &mut Vec<char>, src: &Vec<char>)
    ensures
        final(dst)@ == old(dst)@ + src@,
{
    let n = src.len();
    for i in 0..n
        invariant
            n == src@.len(),
            dst@ == old(dst)@ + src@.take(i as int),
    {
        dst.push(src[i]);
        assert(src@.take(i + 1) =~= src@.take(i as int).push(src@[i as int]));
    }
    assert(src@.take(n as int) =~= src@);
}

/// `char::is_whitespace`, decided on the code point.
pub fn is_whitespace_char(c: char) -> (b: bool)
    ensures
        b == is_whitespace(c),
{
    let u = c as u32;
    (0x09 <= u && u <= 0x0D) || u == 0x20 || u == 0x85 || u == 0xA0 || u == 0x1680 || (0x2000 <= u
        && u <= 0x200A) || u == 0x2028 || u == 0x2029 || u == 0x202F || u == 0x205F || u == 0x3000
}

/// The whitespace-separated words of `cs`.
pub fn split_words(cs: &Vec<char>) -> (res: Vec<Vec<char>>)
    ensures
        char_rows(res@) == words(cs@),
{
    let mut done: Vec<Vec<char>> = Vec::new();
    let mut cur: Vec<char> = Vec::new();
    let n = cs.len();
    for i in 0..n
        invariant
            n == cs@.len(),
            words(cs@.take(i as int)) == if cur@.len() > 0 {
                char_rows(done@).push(cur@)
            } else {
                char_rows(done@)
            },
            cur@.len() > 0 <==> (i > 0 && !is_whitespace(cs@[i - 1])),
    {
        let c = cs[i];
        proof {
            lemma_take_drop_last(cs@, i as int);
        }
        let ghost prev_done = done@;
        let ghost prev_cur = cur@;
        if is_whitespace_char(c) {
            if cur.len() > 0 {
                let w = cur;
                done.push(w);
                cur = Vec::new();
                assert(char_rows(done@) =~= char_rows(prev_done).push(prev_cur));
            }
        } else {
            let had = cur.len() > 0;
            cur.push(c);
            assert(cs@.take(i + 1)[i as int] == c);
            if had {
                assert(cs@.take(i + 1)[i - 1] == cs@[i - 1]);
                assert(char_rows(prev_done).push(prev_cur).update(prev_done.len() as int, prev_cur.push(c))
                    =~= char_rows(done@).push(cur@));
            } else {
                assert(i > 0 ==> cs@.take(i + 1)[i - 1] == cs@[i - 1]);
                assert(cur@ =~= seq![c]);
            }
        }
    }
    assert(cs@.take(n as int) =~= cs@);
    if cur.len() > 0 {
        let ghost prev_done = done@;
        done.push(cur);
        assert(char_rows(done@) =~= char_rows(prev_done).push(done@.last()@));
    }
    done
}

/// The pieces of `cs` between occurrences of `". "`.
pub fn split_sentences(cs: &Vec<char>) -> (res: Vec<Vec<char>>)
    ensures
        char_rows(res@) == sentences(cs@),
        res@.len() >= 1,
{
    let mut done: Vec<Vec<char>> = Vec::new();
    let mut cur: Vec<char> = Vec::new();
    let n = cs.len();
    for i in 0..n
        invariant
            n == cs@.len(),
            sentences(cs@.take(i as int)) == char_rows(done@).push(cur@),
    {
        let c = cs[i];
        proof {
            lemma_take_drop_last(cs@, i as int);
        }
        let ghost prev_done = done@;
        let ghost prev_cur = cur@;
        let cl = cur.len();
        if c == ' ' && cl > 0 && cur[cl - 1] == '.' {
            cur.pop();
            let w = cur;
            done.push(w);
            cur = Vec::new();
            assert(char_rows(prev_done).push(prev_cur).update(prev_done.len() as int, prev_cur.drop_last()).push(seq![])
                =~= char_rows(done@).push(cur@));
        } else {
            cur.push(c);
            assert(char_rows(prev_done).push(prev_cur).update(prev_done.len() as int, prev_cur.push(c))
                =~= char_rows(done@).push(cur@));
        }
    }
    assert(cs@.take(n as int) =~= cs@);
    let ghost prev_done = done@;
    done.push(cur);
    assert(char_rows(done@) =~= char_rows(prev_done).push(done@.last()@));
    done
}

/// The first `count` of `parts` glued together with `sep` between
/// consecutive parts.
pub fn join_first(parts: &Vec<Vec<char>>, count: usize, sep: &Vec<char>) -> (res: Vec<char>)
    requires
        count <= parts@.len(),
    ensures
        res@ == join(char_rows(parts@).take(count as int), sep@),
{
    let mut res: Vec<char> = Vec::new();
    let n = count;
    for i in 0..n
        invariant
            n <= parts@.len(),
            res@ == join(char_rows(parts@).take(i as int), sep@),
    {
        proof {
            lemma_take_drop_last(char_rows(parts@), i as int);
        }
        if i > 0 {
            extend_chars(&mut res, sep);
        }
        extend_chars(&mut res, &parts[i]);
        proof {
            if i == 0 {
                assert(res@ =~= char_rows(parts@).take(1)[0]);
            }
        }
    }
    res
}

/// Whether `cs` holds the character `c`.
pub fn contains_char(cs: &Vec<char>, c: char) -> (b: bool)
    ensures
        b == has_char(cs@, c),
{
    let n = cs.len();
    for i in 0..n
        invariant
            n == cs@.len(),
            forall|j: int| 0 <= j < i ==> cs@[j] != c,
    {
        if cs[i] == c {
            return true;
        }
    }
    false
}

/// Whether `pat` occurs in `cs` as a contiguous block.
pub fn contains_infix(cs: &Vec<char>, pat: &Vec<char>) -> (b: bool)
    ensures
        b == has_infix(cs@, pat@),
{
    let n = cs.len();
    let m = pat.len();
    if m > n {
        return false;
    }
    let mut i: usize = 0;
    while i <= n - m
        invariant
            n == cs@.len(),
            m == pat@.len(),
            m <= n,
            i <= n - m + 1,
            forall|k: int| 0 <= k < i ==> #[trigger] cs@.subrange(k, k + m) != pat@,
        decreases n - m + 1 - i,
    {
        let mut j: usize = 0;
        let mut matched = true;
        while j < m
            invariant
                n == cs@.len(),
                m == pat@.len(),
                i + m <= n,
                j <= m,
                matched <==> forall|k: int| 0 <= k < j ==> cs@[i + k] == pat@[k],
            decreases m - j,
        {
            if cs[i + j] != pat[j] {
                matched = false;
            }
            j += 1;
        }
        if matched {
            assert(cs@.subrange(i as int, i + m) =~= pat@);
            return true;
        }
        proof {
            assert(exists|k: int| 0 <= k < m && cs@[i + k] != pat@[k]);
            let k = choose|k: int| 0 <= k < m && cs@[i + k] != pat@[k];
            assert(cs@.subrange(i as int, i + m)[k] == cs@[i + k]);
        }
        i += 1;
    }
    proof {
        assert forall|k: int| 0 <= k && k + pat@.len() <= cs@.len() implies #[trigger] cs@.subrange(
            k,
            k + pat@.len(),
        ) != pat@ by {
            assert(k < i);
        }
    }
    false
}

proof fn lemma_trim_start_suffix(s: Seq<char>, i: int)
    requires
        0 <= i <= s.len(),
        forall|j: int| 0 <= j < i ==> is_whitespace(s[j]),
    ensures
        trim_start(s) == trim_start(s.subrange(i, s.len() as int)),
    decreases i,
{
    if i > 0 {
        lemma_trim_start_suffix(s.drop_first(), i - 1);
        assert(s.drop_first().subrange(i - 1, s.drop_first().len() as int) =~= s.subrange(
            i,
            s.len() as int,
        ));
    } else {
        assert(s.subrange(0, s.len() as int) =~= s);
    }
}

proof fn lemma_trim_end_prefix(s: Seq<char>, e: int)
    requires
        0 <= e <= s.len(),
        forall|j: int| e <= j < s.len() ==> is_whitespace(s[j]),
    ensures
        trim_end(s) == trim_end(s.subrange(0, e)),
    decreases s.len() - e,
{
    if e < s.len() {
        lemma_trim_end_prefix(s.drop_last(), e);
        assert(s.drop_last().subrange(0, e) =~= s.subrange(0, e));
    } else {
        assert(s.subrange(0, e) =~= s);
    }
}

/// `cs` without leading and trailing whitespace.
pub fn trim_chars(cs: &Vec<char>) -> (res: Vec<char>)
    ensures
        res@ == trim(cs@),
{
    let n = cs.len();
    let mut start: usize = 0;
    while start < n && is_whitespace_char(cs[start])
        invariant
            n == cs@.len(),
            start <= n,
            forall|j: int| 0 <= j < start ==> is_whitespace(cs@[j]),
        decreases n - start,
    {
        start += 1;
    }
    let ghost rest = cs@.subrange(start as int, n as int);
    proof {
        lemma_trim_start_suffix(cs@, start as int);
        if start < n {
            assert(rest[0] == cs@[start as int]);
        }
        assert(trim_start(rest) == rest);
    }
    let mut end: usize = n;
    while end > start && is_whitespace_char(cs[end - 1])
        invariant
            n == cs@.len(),
            start <= end <= n,
            forall|j: int| end <= j < n ==> is_whitespace(cs@[j]),
        decreases end,
    {
        end -= 1;
    }
    let mut res: Vec<char> = Vec::new();
    let mut k = start;
    while k < end
        invariant
            n == cs@.len(),
            start <= k <= end <= n,
            res@ == cs@.subrange(start as int, k as int),
        decreases end - k,
    {
        res.push(cs[k]);
        assert(cs@.subrange(start as int, k + 1) =~= cs@.subrange(start as int, k as int).push(
            cs@[k as int],
        ));
        k += 1;
    }
    proof {
        let e = (end - start) as int;
        lemma_trim_end_prefix(rest, e);
        assert(rest.subrange(0, e) =~= res@);
        if e > 0 {
            assert(res@.last() == cs@[end - 1]);
        }
        assert(trim_end(res@) == res@);
    }
    res
}

/// `str::parse::<u32>` on the characters `cs`.
pub fn parse_u32_chars(cs: &Vec<char>) -> (res: Option<u32>)
    ensures
        res == parse_u32(cs@),
{
    let n = cs.len();
    let start: usize = if n > 0 && cs[0] == '+' { 1 } else { 0 };
    let ghost body = if cs@.len() > 0 && cs@[0] == '+' { cs@.drop_first() } else { cs@ };
    assert(body =~= cs@.subrange(start as int, n as int));
    if start == n {
        return None;
    }
    let mut value: u64 = 0;
    let mut i = start;
    while i < n
        invariant
            n == cs@.len(),
            start < n,
            start <= i <= n,
            body == cs@.subrange(start as int, n as int),
            body == (if cs@.len() > 0 && cs@[0] == '+' { cs@.drop_first() } else { cs@ }),
            all_digits(cs@.subrange(start as int, i as int)),
            value == digits_value(cs@.subrange(start as int, i as int)),
            value <= u32::MAX,
        decreases n - i,
    {
        let c = cs[i];
        let ghost pre = cs@.subrange(start as int, i as int);
        let ghost next = cs@.subrange(start as int, i + 1);
        assert(next.drop_last() =~= pre);
        assert(next.last() == c);
        if !('0' <= c && c <= '9') {
            proof {
                assert(body[i - start] == c);
                assert(!is_digit(body[i - start]));
            }
            return None;
        }
        let d = (c as u32 - '0' as u32) as u64;
        value = value * 10 + d;
        assert(all_digits(next)) by {
            assert forall|j: int| 0 <= j < next.len() implies is_digit(#[trigger] next[j]) by {
                if j < pre.len() {
                    assert(next[j] == pre[j]);
                }
            }
        }
        if value > 0xFFFF_FFFF {
            proof {
                assert(next =~= body.subrange(0, next.len() as int));
                lemma_digits_value_monotone(next, body);
            }
            return None;
        }
        i += 1;
    }
    assert(cs@.subrange(start as int, n as int) == body);
    Some(value as u32)
}

/// Extending a run of digits never lowers its value.
proof fn lemma_digits_value_monotone(p: Seq<char>, s: Seq<char>)
    requires
        p.len() <= s.len(),
        p == s.subrange(0, p.len() as int),
        all_digits(p),
    ensures
        all_digits(s) ==> digits_value(s) >= digits_value(p),
    decreases s.len() - p.len(),
{
    if p.len() < s.len() && all_digits(s) {
        let q = s.subrange(0, p.len() as int + 1);
        assert(q.drop_last() =~= p);
        assert(all_digits(q)) by {
            assert forall|j: int| 0 <= j < q.len() implies is_digit(#[trigger] q[j]) by {
                assert(q[j] == s[j]);
            }
        }
        assert(q == s.subrange(0, q.len() as int));
        lemma_digits_value_monotone(q, s);
    } else if p.len() == s.len() {
        assert(s.subrange(0, s.len() as int) =~= s);
    }
}

fn digit_to_char(d: usize) -> (c: char)
    requires
        d < 10,
    ensures
        c == digit_char(d as nat),
{
    match d {
        0 => '0',
        1 => '1',
        2 => '2',
        3 => '3',
        4 => '4',
        5 => '5',
        6 => '6',
        7 => '7',
        8 => '8',
        _ => '9',
    }
}

/// Appends the decimal representation of `n` to `out`.
pub fn push_decimal(out: &mut Vec<char>, n: usize)
    ensures
        final(out)@ == old(out)@ + decimal(n as nat),
    decreases n,
{
    if n >= 10 {
        push_decimal(out, n / 10);
    }
    out.push(digit_to_char(n % 10));
    proof {
        if n < 10 {
            assert(decimal(n as nat) =~= seq![digit_char(n as nat)]);
        }
    }
}

// ---------------------------------------------------------------------------
// Splitting and joining undo each other
// ---------------------------------------------------------------------------

/// Joining a sequence whose last part is replaced.
proof fn lemma_join_update_last(ps: Seq<Seq<char>>, x: Seq<char>, sep: Seq<char>)
    requires
        ps.len() >= 1,
    ensures
        join(ps.update(ps.len() - 1, x), sep) == if ps.len() == 1 {
            x
        } else {
            join(ps.drop_last(), sep) + sep + x
        },
{
    let u = ps.update(ps.len() - 1, x);
    if ps.len() >= 2 {
        assert(u.drop_last() =~= ps.drop_last());
    }
}

/// Joining the sentences of a text with `". "` gives the text back.
pub proof fn lemma_join_sentences(s: Seq<char>)
    ensures
        join(sentences(s), sentence_sep()) == s,
    decreases s.len(),
{
    if s.len() == 0 {
        assert(sentences(s) =~= seq![seq![]]);
    } else {
        let prev = sentences(s.drop_last());
        lemma_sentences_nonempty(s.drop_last());
        lemma_join_sentences(s.drop_last());
        let cur = prev.last();
        let l = prev.len() - 1;
        let j: Seq<char> = if prev.len() == 1 {
            seq![]
        } else {
            join(prev.drop_last(), sentence_sep()) + sentence_sep()
        };
        lemma_join_update_last(prev, cur, sentence_sep());
        assert(prev.update(l, cur) =~= prev);
        assert(s.drop_last() =~= j + cur);
        assert(s =~= (j + cur).push(s.last()));
        if s.last() == ' ' && cur.len() > 0 && cur.last() == '.' {
            let upd = prev.update(l, cur.drop_last());
            lemma_join_update_last(prev, cur.drop_last(), sentence_sep());
            assert(join(upd, sentence_sep()) =~= j + cur.drop_last());
            let q = upd.push(seq![]);
            assert(q.drop_last() =~= upd);
            assert(join(q, sentence_sep()) == join(upd, sentence_sep()) + sentence_sep() + seq![]);
            assert(cur =~= cur.drop_last().push('.'));
            assert(join(q, sentence_sep()) =~= s);
        } else {
            lemma_join_update_last(prev, cur.push(s.last()), sentence_sep());
            assert(join(sentences(s), sentence_sep()) =~= j + cur.push(s.last()));
            assert(join(sentences(s), sentence_sep()) =~= s);
        }
    }
}

/// No sentence of a text contains the separator `". "`.
pub proof fn lemma_sentences_have_no_sep(s: Seq<char>)
    ensures
        forall|i: int| 0 <= i < sentences(s).len() ==> !has_infix(#[trigger] sentences(s)[i], sentence_sep()),
    decreases s.len(),
{
    if s.len() > 0 {
        let prev = sentences(s.drop_last());
        lemma_sentences_nonempty(s.drop_last());
        lemma_sentences_have_no_sep(s.drop_last());
        let cur = prev.last();
        let l = prev.len() - 1;
        assert(!has_infix(cur, sentence_sep()));
        if s.last() == ' ' && cur.len() > 0 && cur.last() == '.' {
            let d = cur.drop_last();
            assert(!has_infix(d, sentence_sep())) by {
                if has_infix(d, sentence_sep()) {
                    let k = choose|k: int| 0 <= k && k + 2 <= d.len() && #[trigger] d.subrange(k, k + 2) == sentence_sep();
                    assert(cur.subrange(k, k + 2) =~= d.subrange(k, k + 2));
                }
            }
            assert(!has_infix(seq![], sentence_sep())) by {
                if has_infix(seq![], sentence_sep()) {
                    let k = choose|k: int| 0 <= k && k + 2 <= 0 && #[trigger] Seq::<char>::empty().subrange(k, k + 2) == sentence_sep();
                }
            }
        } else {
            let c = s.last();
            let e = cur.push(c);
            assert(!has_infix(e, sentence_sep())) by {
                if has_infix(e, sentence_sep()) {
                    let k = choose|k: int| 0 <= k && k + 2 <= e.len() && #[trigger] e.subrange(k, k + 2) == sentence_sep();
                    if k + 2 <= cur.len() {
                        assert(cur.subrange(k, k + 2) =~= e.subrange(k, k + 2));
                    } else {
                        assert(e.subrange(k, k + 2)[0] == cur.last());
                        assert(e.subrange(k, k + 2)[1] == c);
                    }
                }
            }
        }
    }
}

/// Appending text without `". "` to the last (open) piece extends it.
proof fn lemma_sentences_append(y: Seq<char>, qs: Seq<Seq<char>>, c: Seq<char>, p: Seq<char>)
    requires
        sentences(y) == qs.push(c),
        !has_infix(c + p, sentence_sep()),
    ensures
        sentences(y + p) == qs.push(c + p),
    decreases p.len(),
{
    if p.len() == 0 {
        assert(y + p =~= y);
        assert(c + p =~= c);
    } else {
        let pd = p.drop_last();
        assert(!has_infix(c + pd, sentence_sep())) by {
            if has_infix(c + pd, sentence_sep()) {
                let k = choose|k: int| 0 <= k && k + 2 <= (c + pd).len() && #[trigger] (c + pd).subrange(k, k + 2) == sentence_sep();
                assert((c + p).subrange(k, k + 2) =~= (c + pd).subrange(k, k + 2));
            }
        }
        lemma_sentences_append(y, qs, c, pd);
        assert((y + p).drop_last() =~= y + pd);
        assert((y + p).last() == p.last());
        let prev = qs.push(c + pd);
        let cur = c + pd;
        assert(!(p.last() == ' ' && cur.len() > 0 && cur.last() == '.')) by {
            if p.last() == ' ' && cur.len() > 0 && cur.last() == '.' {
                let n = (c + p).len() as int;
                assert((c + p)[n - 2] == cur.last());
                assert((c + p).subrange(n - 2, n - 2 + sentence_sep().len()) =~= sentence_sep());
                assert(has_infix(c + p, sentence_sep()));
            }
        }
        assert(sentences(y + p) == prev.update(prev.len() - 1, cur.push(p.last())));
        assert(p =~= pd.push(p.last()));
        assert(cur.push(p.last()) =~= c + p);
        assert(prev.update(prev.len() - 1, cur.push(p.last())) =~= qs.push(c + p));
    }
}

/// Splitting pieces glued with `". "` gives the pieces back, when no piece
/// contains `". "`.
pub proof fn lemma_sentences_join(ps: Seq<Seq<char>>)
    requires
        ps.len() >= 1,
        forall|i: int| 0 <= i < ps.len() ==> !has_infix(#[trigger] ps[i], sentence_sep()),
    ensures
        sentences(join(ps, sentence_sep())) == ps,
    decreases ps.len(),
{
    let empty: Seq<char> = seq![];
    assert(sentences(empty) =~= Seq::<Seq<char>>::empty().push(empty));
    if ps.len() == 1 {
        assert(empty + ps[0] =~= ps[0]);
        assert(!has_infix(empty + ps[0], sentence_sep()));
        lemma_sentences_append(empty, seq![], empty, ps[0]);
        assert(Seq::<Seq<char>>::empty().push(ps[0]) =~= ps);
    } else {
        let init = ps.drop_last();
        lemma_sentences_join(init);
        let x = join(init, sentence_sep());
        lemma_sentences_nonempty(x);
        // appending "." extends the last piece
        let x1 = x.push('.');
        assert(x1.drop_last() =~= x);
        let l = init.len() - 1;
        assert(sentences(x1) == init.update(l, init.last().push('.')));
        // appending " " closes it
        let x2 = x1.push(' ');
        assert(x2.drop_last() =~= x1);
        assert(init.update(l, init.last().push('.')).last() == init.last().push('.'));
        assert(init.last().push('.').drop_last() =~= init.last());
        assert(init.update(l, init.last().push('.')).update(l, init.last().push('.').drop_last())
            =~= init);
        assert(sentences(x2) == init.push(empty));
        assert(x2 =~= x + sentence_sep());
        assert(empty + ps.last() =~= ps.last());
        assert(!has_infix(empty + ps.last(), sentence_sep()));
        lemma_sentences_append(x2, init, empty, ps.last());
        assert(x2 + ps.last() =~= join(ps, sentence_sep()));
        assert(init.push(empty + ps.last()) =~= ps);
    }
}

// ---------------------------------------------------------------------------
// Words and joining with single spaces
// ---------------------------------------------------------------------------

pub open spec fn is_word(w: Seq<char>) -> bool {
    w.len() > 0 && forall|i: int| 0 <= i < w.len() ==> !is_whitespace(#[trigger] w[i])
}

/// Every word is non-empty and free of whitespace, and there are no more
/// words than characters.
pub proof fn lemma_words_are_words(s: Seq<char>)
    ensures
        forall|i: int| 0 <= i < words(s).len() ==> is_word(#[trigger] words(s)[i]),
        words(s).len() <= s.len(),
        s.len() > 0 && !is_whitespace(s.last()) ==> words(s).len() > 0,
    decreases s.len(),
{
    if s.len() > 0 {
        let prev = words(s.drop_last());
        lemma_words_are_words(s.drop_last());
        let c = s.last();
        if !is_whitespace(c) {
            if s.len() >= 2 && !is_whitespace(s[s.len() - 2]) {
                assert(s.drop_last().last() == s[s.len() - 2]);
                let w = prev.last().push(c);
                assert(is_word(w)) by {
                    assert forall|i: int| 0 <= i < w.len() implies !is_whitespace(#[trigger] w[i]) by {
                        if i < w.len() - 1 {
                            assert(w[i] == prev.last()[i]);
                        }
                    }
                }
            } else {
                assert(is_word(seq![c]));
            }
        }
    }
}

/// Appending a word after whitespace (or at the start) adds it as a word.
proof fn lemma_words_append_word(y: Seq<char>, w: Seq<char>)
    requires
        y.len() == 0 || is_whitespace(y.last()),
        is_word(w),
    ensures
        words(y + w) == words(y).push(w),
    decreases w.len(),
{
    let yw = y + w;
    assert(yw.drop_last() =~= y + w.drop_last());
    assert(yw.last() == w.last());
    if w.len() == 1 {
        assert(y + w.drop_last() =~= y);
        if yw.len() >= 2 {
            assert(yw[yw.len() - 2] == y.last());
        }
        assert(seq![w.last()] =~= w);
    } else {
        let wd = w.drop_last();
        assert(is_word(wd)) by {
            assert forall|i: int| 0 <= i < wd.len() implies !is_whitespace(#[trigger] wd[i]) by {
                assert(wd[i] == w[i]);
            }
        }
        lemma_words_append_word(y, wd);
        assert(yw[yw.len() - 2] == w[w.len() - 2]);
        let prev = words(y).push(wd);
        assert(w =~= wd.push(w.last()));
        assert(prev.last().push(w.last()) =~= w);
        assert(prev.update(prev.len() - 1, prev.last().push(w.last())) =~= words(y).push(w));
    }
}

/// Words glued with single spaces split back into the same words.
pub proof fn lemma_words_join(ws: Seq<Seq<char>>)
    requires
        forall|i: int| 0 <= i < ws.len() ==> is_word(#[trigger] ws[i]),
    ensures
        words(join(ws, seq![' '])) == ws,
    decreases ws.len(),
{
    let empty: Seq<char> = seq![];
    if ws.len() == 0 {
        assert(words(empty) =~= ws);
    } else if ws.len() == 1 {
        lemma_words_append_word(empty, ws[0]);
        assert(empty + ws[0] =~= ws[0]);
        assert(Seq::<Seq<char>>::empty().push(ws[0]) =~= ws);
    } else {
        let init = ws.drop_last();
        lemma_words_join(init);
        let x = join(init, seq![' ']);
        let x1 = x.push(' ');
        assert(x1.drop_last() =~= x);
        assert(is_whitespace(' '));
        assert(words(x1) == words(x));
        lemma_words_append_word(x1, ws.last());
        assert(x1 + ws.last() =~= join(ws, seq![' ']));
        assert(init.push(ws.last()) =~= ws);
    }
}

} // verus!
