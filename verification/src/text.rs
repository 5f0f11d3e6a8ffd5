//! Text as sequences of characters: trimming, splitting, comparing and
//! rendering numbers.

use vstd::prelude::*;
use vstd::string::*;

verus! {

/// `String::push` appends one character.
pub assume_specification[ String::push ](s: &mut String, c: char)
    ensures
        final(s)@ == old(s)@.push(c),
;

/// The text that `{:?}` renders a string as.
pub uninterp spec fn debug_text(s: Seq<char>) -> Seq<char>;

/// `format!("{:?}")` of a string: quoted and escaped, a function of the
/// characters alone.
#[verifier::external_body]
pub(crate) fn debug_string(s: &str) -> (text: String)
    ensures
        text@ == debug_text(s@),
{
    format!("{:?}", s)
}

/// The text that a byte string reads as, each ill-formed UTF-8 sequence
/// replaced by U+FFFD.
pub uninterp spec fn lossy_text(bytes: Seq<u8>) -> Seq<char>;

/// `String::from_utf8_lossy`: a function of the bytes alone.
#[verifier::external_body]
pub(crate) fn lossy_string(bytes: &[u8]) -> (text: String)
    ensures
        text@ == lossy_text(bytes@),
{
    String::from_utf8_lossy(bytes).into_owned()
}

/// The upper-case form of a text, per Unicode.
pub uninterp spec fn uppercase_text(s: Seq<char>) -> Seq<char>;

/// `str::to_uppercase`: a function of the characters alone.
#[verifier::external_body]
pub(crate) fn uppercase_string(s: &str) -> (text: String)
    ensures
        text@ == uppercase_text(s@),
{
    s.to_uppercase()
}

/// `s` without its trailing run of `c`.
pub open spec fn trim_end(s: Seq<char>, c: char) -> Seq<char>
    decreases s.len(),
{
    if s.len() > 0 && s.last() == c {
        trim_end(s.drop_last(), c)
    } else {
        s
    }
}

/// `pat` occurs in `s` at position `i`.
pub open spec fn occurs_at(s: Seq<char>, pat: Seq<char>, i: int) -> bool {
    0 <= i && i + pat.len() <= s.len() && s.subrange(i, i + pat.len()) == pat
}

/// `i` is the first position at which `pat` occurs in `s`.
pub open spec fn first_occurrence(s: Seq<char>, pat: Seq<char>, i: int) -> bool {
    occurs_at(s, pat, i) && forall|j: int| 0 <= j < i ==> !#[trigger] occurs_at(s, pat, j)
}

/// What stands before and behind the first `pat` in `s`, if it occurs.
pub open spec fn split_once_spec(s: Seq<char>, pat: Seq<char>) -> Option<(Seq<char>, Seq<char>)> {
    if exists|i: int| #[trigger] first_occurrence(s, pat, i) {
        let i = choose|i: int| #[trigger] first_occurrence(s, pat, i);
        Some((s.take(i), s.skip(i + pat.len())))
    } else {
        None
    }
}

/// `s` up to its first `c`, or all of it.
pub open spec fn before(s: Seq<char>, c: char) -> Seq<char>
    decreases s.len(),
{
    if s.len() == 0 || s[0] == c {
        Seq::empty()
    } else {
        seq![s[0]] + before(s.drop_first(), c)
    }
}

/// `s` without its leading run of `c`.
pub open spec fn trim_start(s: Seq<char>, c: char) -> Seq<char>
    decreases s.len(),
{
    if s.len() > 0 && s[0] == c {
        trim_start(s.drop_first(), c)
    } else {
        s
    }
}

/// The parts of `s` between its `c`s.
pub open spec fn split_spec(s: Seq<char>, c: char) -> Seq<Seq<char>>
    decreases s.len(),
{
    let head = before(s, c);
    if head.len() >= s.len() {
        seq![s]
    } else {
        seq![head] + split_spec(s.skip(head.len() as int + 1), c)
    }
}

/// The character of a decimal digit.
pub open spec fn digit(d: nat) -> char {
    (48 + d) as char
}

/// `n` in decimal.
pub open spec fn decimal(n: nat) -> Seq<char>
    decreases n,
{
    if n < 10 {
        seq![digit(n)]
    } else {
        decimal(n / 10).push(digit(n % 10))
    }
}

/// The texts of a list of strings.
pub open spec fn texts(v: Seq<String>) -> Seq<Seq<char>> {
    v.map_values(|s: String| s@)
}

/// The characters of `s`.
pub fn chars_of(s: &str) -> (chars: Vec<char>)
    ensures
        chars@ == s@,
{
    let mut out: Vec<char> = Vec::new();
    for c in it: s.chars()
        invariant
            out@.len() == it.index(),
            it.seq() == s@,
            forall|i: int| 0 <= i < out@.len() ==> out@[i] == it.seq()[i],
    {
        out.push(c);
    }
    out
}

/// The string made of `chars[from..to]`.
pub fn string_of(chars: &Vec<char>, from: usize, to: usize) -> (s: String)
    requires
        from <= to <= chars@.len(),
    ensures
        s@ == chars@.subrange(from as int, to as int),
{
    let mut out: String = String::new();
    let mut i: usize = from;
    while i < to
        invariant
            from <= i <= to <= chars@.len(),
            out@ == chars@.subrange(from as int, i as int),
        decreases to - i,
    {
        out.push(chars[i]);
        i = i + 1;
        assert(chars@.subrange(from as int, i as int) =~= chars@.subrange(from as int, i - 1).push(
            chars@[i - 1],
        ));
    }
    out
}

/// `a` followed by `b`.
pub fn concat(a: &str, b: &str) -> (text: String)
    ensures
        text@ == a@ + b@,
{
    let mut text: String = a.to_owned();
    text.append(b);
    text
}

/// Whether two texts are equal.
pub fn same_text(a: &str, b: &str) -> (same: bool)
    ensures
        same == (a@ == b@),
{
    let x: Vec<char> = chars_of(a);
    let y: Vec<char> = chars_of(b);
    if x.len() != y.len() {
        return false;
    }
    let mut i: usize = 0;
    while i < x.len()
        invariant
            i <= x@.len(),
            x@.len() == y@.len(),
            x@ == a@,
            y@ == b@,
            forall|j: int| 0 <= j < i ==> x@[j] == y@[j],
        decreases x@.len() - i,
    {
        if x[i] != y[i] {
            assert(a@[i as int] != b@[i as int]);
            return false;
        }
        i = i + 1;
    }
    assert(a@ =~= b@);
    true
}

/// `s` without its trailing run of `c`.
pub fn trim_end_matches(s: &str, c: char) -> (trimmed: String)
    ensures
        trimmed@ == trim_end(s@, c),
{
    let chars: Vec<char> = chars_of(s);
    let mut end: usize = chars.len();
    assert(s@.take(end as int) =~= s@);
    while end > 0 && chars[end - 1] == c
        invariant
            end <= chars@.len(),
            chars@ == s@,
            trim_end(s@, c) == trim_end(s@.take(end as int), c),
        decreases end,
    {
        assert(s@.take(end as int).drop_last() =~= s@.take(end - 1));
        end = end - 1;
    }
    assert(chars@.subrange(0, end as int) =~= s@.take(end as int));
    string_of(&chars, 0, end)
}

/// What stands before and behind the first `pat` in `s`, if it occurs.
pub fn split_once(s: &str, pat: &str) -> (parts: Option<(String, String)>)
    ensures
        match parts {
            Some((head, tail)) => split_once_spec(s@, pat@) == Some((head@, tail@)),
            None => split_once_spec(s@, pat@) is None,
        },
{
    let chars: Vec<char> = chars_of(s);
    let sep: Vec<char> = chars_of(pat);
    if chars.len() < sep.len() {
        assert(split_once_spec(s@, pat@) is None);
        return None;
    }
    let n: usize = chars.len();
    let last: usize = n - sep.len();
    let mut i: usize = 0;
    loop
        invariant
            i <= last,
            n == chars@.len(),
            last + sep@.len() == n,
            chars@ == s@,
            sep@ == pat@,
            forall|j: int| 0 <= j < i ==> !#[trigger] occurs_at(s@, pat@, j),
        decreases last - i,
    {
        let mut k: usize = 0;
        while k < sep.len() && chars[i + k] == sep[k]
            invariant
                k <= sep@.len(),
                i <= last,
                n == chars@.len(),
                last + sep@.len() == n,
                forall|j: int| 0 <= j < k ==> chars@[i + j] == sep@[j],
            decreases sep@.len() - k,
        {
            k = k + 1;
        }
        if k == sep.len() {
            assert(s@.subrange(i as int, i + pat@.len()) =~= pat@);
            assert(first_occurrence(s@, pat@, i as int));
            proof {
                let c = choose|c: int| #[trigger] first_occurrence(s@, pat@, c);
                if c < i {
                    assert(!occurs_at(s@, pat@, c));
                } else if i < c {
                    assert(!occurs_at(s@, pat@, i as int));
                }
            }
            let head: String = string_of(&chars, 0, i);
            let tail: String = string_of(&chars, i + sep.len(), n);
            assert(head@ =~= s@.take(i as int));
            assert(tail@ =~= s@.skip(i + pat@.len()));
            return Some((head, tail));
        }
        assert(!occurs_at(s@, pat@, i as int)) by {
            if occurs_at(s@, pat@, i as int) {
                assert(s@.subrange(i as int, i + pat@.len())[k as int] == chars@[i + k]);
            }
        }
        if i == last {
            assert(split_once_spec(s@, pat@) is None) by {
                if exists|j: int| #[trigger] first_occurrence(s@, pat@, j) {
                    let j = choose|j: int| #[trigger] first_occurrence(s@, pat@, j);
                    assert(occurs_at(s@, pat@, j));
                }
            }
            return None;
        }
        i = i + 1;
    }
}

/// `s` up to its first `c`, or all of it.
pub fn up_to(s: &str, c: char) -> (head: String)
    ensures
        head@ == before(s@, c),
{
    let chars: Vec<char> = chars_of(s);
    let mut i: usize = 0;
    assert(s@.skip(0) =~= s@);
    assert(s@.take(0) + before(s@, c) =~= before(s@, c));
    while i < chars.len() && chars[i] != c
        invariant
            i <= chars@.len(),
            chars@ == s@,
            before(s@, c) == s@.take(i as int) + before(s@.skip(i as int), c),
        decreases chars@.len() - i,
    {
        assert(s@.skip(i as int).drop_first() =~= s@.skip(i + 1));
        assert(s@.take(i as int) + (seq![s@[i as int]] + before(s@.skip(i + 1), c)) =~= s@.take(
            i + 1,
        ) + before(s@.skip(i + 1), c));
        i = i + 1;
    }
    assert(s@.take(i as int) + Seq::<char>::empty() =~= s@.take(i as int));
    assert(chars@.subrange(0, i as int) =~= s@.take(i as int));
    string_of(&chars, 0, i)
}

/// `s` without its leading run of `c`.
pub fn trim_start_matches(s: &str, c: char) -> (trimmed: String)
    ensures
        trimmed@ == trim_start(s@, c),
{
    let chars: Vec<char> = chars_of(s);
    let mut start: usize = 0;
    assert(s@.skip(0) =~= s@);
    while start < chars.len() && chars[start] == c
        invariant
            start <= chars@.len(),
            chars@ == s@,
            trim_start(s@, c) == trim_start(s@.skip(start as int), c),
        decreases chars@.len() - start,
    {
        assert(s@.skip(start as int).drop_first() =~= s@.skip(start + 1));
        start = start + 1;
    }
    assert(chars@.subrange(start as int, chars@.len() as int) =~= s@.skip(start as int));
    string_of(&chars, start, chars.len())
}

/// The parts of `s` between its `c`s.
pub fn split(s: &str, c: char) -> (parts: Vec<String>)
    ensures
        texts(parts@) == split_spec(s@, c),
{
    let chars: Vec<char> = chars_of(s);
    let len: usize = chars.len();
    let mut parts: Vec<String> = Vec::new();
    let mut start: usize = 0;
    assert(s@.skip(0) =~= s@);
    assert(texts(parts@) + split_spec(s@, c) =~= split_spec(s@, c));
    loop
        invariant
            start <= len == chars@.len(),
            chars@ == s@,
            split_spec(s@, c) == texts(parts@) + split_spec(s@.skip(start as int), c),
        decreases len - start,
    {
        let mut end: usize = start;
        assert(s@.subrange(start as int, start as int) + before(s@.skip(start as int), c)
            =~= before(s@.skip(start as int), c));
        while end < len && chars[end] != c
            invariant
                start <= end <= len == chars@.len(),
                chars@ == s@,
                before(s@.skip(start as int), c) == s@.subrange(start as int, end as int) + before(
                    s@.skip(end as int),
                    c,
                ),
            decreases len - end,
        {
            assert(s@.skip(end as int).drop_first() =~= s@.skip(end + 1));
            assert(s@.subrange(start as int, end as int) + (seq![s@[end as int]] + before(
                s@.skip(end + 1),
                c,
            )) =~= s@.subrange(start as int, end + 1) + before(s@.skip(end + 1), c));
            end = end + 1;
        }
        let part: String = string_of(&chars, start, end);
        let ghost rest = s@.skip(start as int);
        let ghost done = texts(parts@);
        assert(before(s@.skip(end as int), c) =~= Seq::<char>::empty());
        assert(before(rest, c) =~= part@);
        parts.push(part);
        assert(texts(parts@) =~= done.push(part@));
        if end == len {
            assert(part@ =~= rest);
            assert(done + seq![rest] =~= texts(parts@));
            return parts;
        }
        proof {
            assert(rest.skip(part@.len() as int + 1) =~= s@.skip(end + 1));
            let tail = split_spec(s@.skip(end + 1), c);
            assert(done + (seq![part@] + tail) =~= texts(parts@) + tail);
        }
        start = end + 1;
    }
}

/// The character of a decimal digit.
fn digit_char(d: u8) -> (c: char)
    requires
        d < 10,
    ensures
        c == digit(d as nat),
{
    (48 + d) as char
}

/// `n` in decimal.
pub fn decimal_string(n: u64) -> (s: String)
    ensures
        s@ == decimal(n as nat),
    decreases n,
{
    if n < 10 {
        let mut s: String = String::new();
        s.push(digit_char(n as u8));
        assert(s@ =~= decimal(n as nat));
        s
    } else {
        let mut s: String = decimal_string(n / 10);
        s.push(digit_char((n % 10) as u8));
        s
    }
}

/// Trimming an end takes off a run of the character and nothing else, and
/// leaves none of it there.
pub proof fn trimming_ends_takes_the_run(s: Seq<char>, c: char)
    ensures
        ({
            let t = trim_end(s, c);
            &&& t.len() <= s.len()
            &&& forall|i: int| 0 <= i < t.len() ==> t[i] == s[i]
            &&& forall|i: int| t.len() <= i < s.len() ==> s[i] == c
            &&& t.len() > 0 ==> t[t.len() - 1] != c
        }),
    decreases s.len(),
{
    if s.len() > 0 && s.last() == c {
        trimming_ends_takes_the_run(s.drop_last(), c);
        let t = trim_end(s, c);
        assert forall|i: int| t.len() <= i < s.len() implies s[i] == c by {
            if i < s.len() - 1 {
                assert(s.drop_last()[i] == c);
            }
        }
    }
}

/// Trimming a start takes off a run of the character and nothing else, and
/// leaves none of it there.
pub proof fn trimming_starts_takes_the_run(s: Seq<char>, c: char)
    ensures
        ({
            let t = trim_start(s, c);
            let cut = s.len() - t.len();
            &&& cut >= 0
            &&& forall|i: int| 0 <= i < t.len() ==> t[i] == s[cut + i]
            &&& forall|i: int| 0 <= i < cut ==> s[i] == c
            &&& t.len() > 0 ==> t[0] != c
        }),
    decreases s.len(),
{
    if s.len() > 0 && s[0] == c {
        let rest = s.drop_first();
        trimming_starts_takes_the_run(rest, c);
        let t = trim_start(s, c);
        let cut = s.len() - t.len();
        assert forall|i: int| 0 <= i < t.len() implies t[i] == s[cut + i] by {
            assert(t[i] == rest[cut - 1 + i]);
        }
        assert forall|i: int| 0 <= i < cut implies s[i] == c by {
            if i > 0 {
                assert(rest[i - 1] == c);
            }
        }
    }
}

/// What stands before the first `c` is the longest start without one.
pub proof fn before_is_the_longest_start(s: Seq<char>, c: char)
    ensures
        ({
            let t = before(s, c);
            &&& t.len() <= s.len()
            &&& forall|i: int| 0 <= i < t.len() ==> t[i] == s[i] && s[i] != c
            &&& t.len() < s.len() ==> s[t.len() as int] == c
        }),
    decreases s.len(),
{
    if s.len() > 0 && s[0] != c {
        let rest = s.drop_first();
        before_is_the_longest_start(rest, c);
        let t = before(s, c);
        assert forall|i: int| 0 <= i < t.len() implies t[i] == s[i] && s[i] != c by {
            if i > 0 {
                assert(t[i] == before(rest, c)[i - 1]);
                assert(rest[i - 1] == s[i]);
            }
        }
    }
}

/// The parts of a text with `c` between them.
pub open spec fn joined_by(parts: Seq<Seq<char>>, c: char) -> Seq<char>
    decreases parts.len(),
{
    if parts.len() == 0 {
        Seq::empty()
    } else if parts.len() == 1 {
        parts[0]
    } else {
        parts[0].push(c) + joined_by(parts.drop_first(), c)
    }
}

/// Splitting loses nothing: with the separator between them the parts are the
/// text again, and no part holds the separator.
pub proof fn splits_join_again(s: Seq<char>, c: char)
    ensures
        split_spec(s, c).len() > 0,
        joined_by(split_spec(s, c), c) == s,
        forall|i: int, j: int|
            0 <= i < split_spec(s, c).len() && 0 <= j < split_spec(s, c)[i].len()
                ==> #[trigger] split_spec(s, c)[i][j] != c,
    decreases s.len(),
{
    before_is_the_longest_start(s, c);
    let head = before(s, c);
    let parts = split_spec(s, c);
    if head.len() >= s.len() {
        assert(head =~= s);
        assert(parts[0] == s);
    } else {
        let rest = s.skip(head.len() as int + 1);
        splits_join_again(rest, c);
        let tail = split_spec(rest, c);
        assert(parts.drop_first() =~= tail);
        assert(parts[0] == head);
        assert(head.push(c) + rest =~= s);
        assert forall|i: int, j: int|
            0 <= i < parts.len() && 0 <= j < parts[i].len() implies #[trigger] parts[i][j] != c by {
            if i > 0 {
                assert(parts[i] == tail[i - 1]);
                assert(tail[i - 1][j] != c);
            }
        }
    }
}

/// Splitting at a pattern splits at its first occurrence, exactly where there
/// is one.
pub proof fn split_once_is_at_the_first(s: Seq<char>, pat: Seq<char>)
    ensures
        match split_once_spec(s, pat) {
            Some((a, b)) => s == a + pat + b && forall|j: int, k: int|
                0 <= j < a.len() && k == j + pat.len() ==> #[trigger] s.subrange(j, k) != pat,
            None => forall|j: int, k: int|
                0 <= j && k == j + pat.len() && k <= s.len() ==> #[trigger] s.subrange(j, k)
                    != pat,
        },
{
    match split_once_spec(s, pat) {
        Some((a, b)) => {
            let i = choose|i: int| #[trigger] first_occurrence(s, pat, i);
            assert(s =~= a + s.subrange(i, i + pat.len()) + b);
            assert forall|j: int, k: int|
                0 <= j < a.len() && k == j + pat.len() implies #[trigger] s.subrange(j, k)
                != pat by {
                assert(!occurs_at(s, pat, j));
            }
        },
        None => {
            assert forall|j: int, k: int|
                0 <= j && k == j + pat.len() && k <= s.len() implies #[trigger] s.subrange(j, k)
                != pat by {
                if occurs_at(s, pat, j) {
                    some_occurrence_is_first(s, pat, j);
                }
            }
        },
    }
}

/// Where a pattern occurs, it occurs for a first time.
proof fn some_occurrence_is_first(s: Seq<char>, pat: Seq<char>, j: int)
    requires
        occurs_at(s, pat, j),
    ensures
        exists|i: int| #[trigger] first_occurrence(s, pat, i),
    decreases j,
{
    if exists|k: int| 0 <= k < j && #[trigger] occurs_at(s, pat, k) {
        let k = choose|k: int| 0 <= k < j && #[trigger] occurs_at(s, pat, k);
        some_occurrence_is_first(s, pat, k);
    } else {
        assert(first_occurrence(s, pat, j));
    }
}

/// The number that a text of digits spells, most significant first.
pub open spec fn spelled(text: Seq<char>) -> int
    decreases text.len(),
{
    if text.len() == 0 {
        0
    } else {
        10 * spelled(text.drop_last()) + (text.last() as int - '0' as int)
    }
}

/// A number in decimal spells that number, in digits alone, and without a
/// leading zero.
pub proof fn decimals_spell_their_number(n: nat)
    ensures
        spelled(decimal(n)) == n,
        decimal(n).len() > 0,
        forall|i: int| 0 <= i < decimal(n).len() ==> '0' <= #[trigger] decimal(n)[i] <= '9',
        decimal(n).len() > 1 ==> decimal(n)[0] != '0',
    decreases n,
{
    let text = decimal(n);
    if n < 10 {
        assert(text.drop_last() =~= Seq::<char>::empty());
        assert(spelled(text.drop_last()) == 0);
    } else {
        decimals_spell_their_number(n / 10);
        let high = decimal(n / 10);
        assert(text.drop_last() =~= high);
        assert(text[0] == high[0]);
        if high.len() == 1 {
            assert(high.drop_last() =~= Seq::<char>::empty());
            assert(spelled(high) == high[0] as int - '0' as int) by {
                assert(spelled(high.drop_last()) == 0);
            }
        }
    }
}

/// A list of texts is seen whole: every text, every character, in order.
pub proof fn texts_are_seen_whole(v: Seq<String>, i: int)
    requires
        0 <= i < v.len(),
    ensures
        texts(v).len() == v.len(),
        texts(v)[i] == v[i]@,
{
}

} // verus!
