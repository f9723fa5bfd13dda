//! Whitespace-separated words, decimal AS numbers and AS paths.
use vstd::prelude::*;
use vstd::string::StrSliceExecFns;

verus! {

broadcast use vstd::string::group_string_axioms;

/// The characters that Unicode marks `White_Space`, as `char::is_whitespace` uses them.
pub open spec fn is_ws(c: char) -> bool {
    ||| ('\u{9}' <= c && c <= '\u{d}')
    ||| c == ' '
    ||| c == '\u{85}'
    ||| c == '\u{a0}'
    ||| c == '\u{1680}'
    ||| ('\u{2000}' <= c && c <= '\u{200a}')
    ||| c == '\u{2028}'
    ||| c == '\u{2029}'
    ||| c == '\u{202f}'
    ||| c == '\u{205f}'
    ||| c == '\u{3000}'
}

/// The words of `s` that follow a word in progress `cur`: maximal runs of
/// non-whitespace characters, in order.
pub open spec fn words_from(s: Seq<char>, cur: Seq<char>) -> Seq<Seq<char>>
    decreases s.len(),
{
    if s.len() == 0 {
        if cur.len() == 0 {
            seq![]
        } else {
            seq![cur]
        }
    } else if is_ws(s[0]) {
        (if cur.len() == 0 {
            Seq::<Seq<char>>::empty()
        } else {
            seq![cur]
        }) + words_from(s.drop_first(), seq![])
    } else {
        words_from(s.drop_first(), cur.push(s[0]))
    }
}

/// The whitespace-separated words of `s`, as `str::split_whitespace` yields them.
pub open spec fn words(s: Seq<char>) -> Seq<Seq<char>> {
    words_from(s, seq![])
}

/// `d` is non-empty and made of ASCII decimal digits only.
pub open spec fn all_digits(d: Seq<char>) -> bool {
    d.len() > 0 && forall|i: int| 0 <= i < d.len() ==> '0' <= #[trigger] d[i] && d[i] <= '9'
}

/// The number that the decimal digits `d` spell.
pub open spec fn digits_value(d: Seq<char>) -> int
    decreases d.len(),
{
    if d.len() == 0 {
        0
    } else {
        digits_value(d.drop_last()) * 10 + (d.last() as int - '0' as int)
    }
}

/// The `u32` that `u32::from_str` reads from `t`: an optional `+` and then decimal
/// digits whose value fits in 32 bits; anything else reads nothing.
pub open spec fn parse_u32(t: Seq<char>) -> Option<u32> {
    let d = if t.len() > 0 && t[0] == '+' {
        t.drop_first()
    } else {
        t
    };
    if all_digits(d) && digits_value(d) <= u32::MAX {
        Some(digits_value(d) as u32)
    } else {
        None
    }
}

/// The numbers read from those words that are numbers, in order.
pub open spec fn numbers_of(ws: Seq<Seq<char>>) -> Seq<u32>
    decreases ws.len(),
{
    if ws.len() == 0 {
        seq![]
    } else {
        let rest = numbers_of(ws.drop_last());
        match parse_u32(ws.last()) {
            Some(v) => rest.push(v),
            None => rest,
        }
    }
}

/// `s` with every run of equal neighbours cut to one element, as `Vec::dedup` leaves it.
pub open spec fn dedup(s: Seq<u32>) -> Seq<u32>
    decreases s.len(),
{
    if s.len() <= 1 {
        s
    } else if s.last() == s[s.len() - 2] {
        dedup(s.drop_last())
    } else {
        dedup(s.drop_last()).push(s.last())
    }
}

/// The AS numbers of a textual AS path: its numeric words, with repeated neighbours
/// (AS prepending) collapsed.
pub open spec fn path_asns(s: Seq<char>) -> Seq<u32> {
    dedup(numbers_of(words(s)))
}

/// `s` ends with `suffix`.
pub open spec fn ends_with(s: Seq<char>, suffix: Seq<char>) -> bool {
    suffix.len() <= s.len() && s.subrange(s.len() - suffix.len(), s.len() as int) == suffix
}

/// `hay` holds `needle` as a contiguous run.
pub open spec fn contains_run(hay: Seq<char>, needle: Seq<char>) -> bool {
    exists|i: int|
        0 <= i && i + needle.len() <= hay.len() && #[trigger] hay.subrange(i, i + needle.len())
            == needle
}

/// The characters of `s`.
pub fn chars_of(s: &str) -> (r: Vec<char>)
    ensures
        r@ == s@,
{
    let n = s.unicode_len();
    let mut r: Vec<char> = Vec::new();
    let mut i: usize = 0;
    while i < n
        invariant
            n == s@.len(),
            i <= n,
            r@ == s@.take(i as int),
        decreases n - i,
    {
        let c = s.get_char(i);
        r.push(c);
        assert(r@ =~= s@.take(i + 1));
        i = i + 1;
    }
    assert(s@.take(n as int) =~= s@);
    r
}

/// Whether `c` is whitespace.
pub fn char_is_ws(c: char) -> (r: bool)
    ensures
        r == is_ws(c),
{
    ('\u{9}' <= c && c <= '\u{d}') || c == ' ' || c == '\u{85}' || c == '\u{a0}' || c
        == '\u{1680}' || ('\u{2000}' <= c && c <= '\u{200a}') || c == '\u{2028}' || c
        == '\u{2029}' || c == '\u{202f}' || c == '\u{205f}' || c == '\u{3000}'
}

/// The whitespace-separated words of `s`.
pub fn split_words(s: &str) -> (r: Vec<Vec<char>>)
    ensures
        r@.len() == words(s@).len(),
        forall|i: int| 0 <= i < r@.len() ==> #[trigger] r@[i]@ == words(s@)[i],
{
    let cs = chars_of(s);
    let mut out: Vec<Vec<char>> = Vec::new();
    let mut cur: Vec<char> = Vec::new();
    let mut i: usize = 0;
    let ghost mut done: Seq<Seq<char>> = seq![];
    assert(cs@.skip(0) =~= cs@);
    assert(cur@ =~= Seq::<char>::empty());
    while i < cs.len()
        invariant
            i <= cs@.len(),
            cs@ == s@,
            out@.len() == done.len(),
            forall|k: int| 0 <= k < out@.len() ==> #[trigger] out@[k]@ == done[k],
            done + words_from(cs@.skip(i as int), cur@) == words(s@),
        decreases cs@.len() - i,
    {
        let c = cs[i];
        let ghost rest = cs@.skip(i as int);
        assert(rest[0] == c);
        assert(rest.drop_first() =~= cs@.skip(i + 1));
        if char_is_ws(c) {
            if cur.len() > 0 {
                proof {
                    done = done.push(cur@);
                }
                out.push(cur);
                cur = Vec::new();
            }
            proof {
                assert(cur@ =~= Seq::<char>::empty());
            }
            assert(done + words_from(cs@.skip(i + 1), cur@) =~= words(s@));
        } else {
            cur.push(c);
        }
        i = i + 1;
    }
    assert(cs@.skip(i as int) =~= Seq::<char>::empty());
    if cur.len() > 0 {
        proof {
            done = done.push(cur@);
        }
        out.push(cur);
    }
    assert(done =~= words(s@));
    out
}

/// The value of a digit character.
fn digit_value(c: char) -> (r: u64)
    requires
        '0' <= c && c <= '9',
    ensures
        r == c as int - '0' as int,
        r <= 9,
{
    (c as u32 - '0' as u32) as u64
}

/// A run of digits spells at least what its first part spells.
proof fn lemma_digits_monotone(d: Seq<char>, k: int)
    requires
        0 <= k <= d.len(),
        forall|i: int| 0 <= i < d.len() ==> '0' <= #[trigger] d[i] && d[i] <= '9',
    ensures
        digits_value(d.take(k)) <= digits_value(d),
        digits_value(d) >= 0,
    decreases d.len(),
{
    if d.len() == 0 {
        return ;
    }
    if k == d.len() {
        assert(d.take(k) =~= d);
        let p = d.drop_last();
        lemma_digits_monotone(p, p.len() as int);
        return ;
    }
    let p = d.drop_last();
    assert(forall|i: int| 0 <= i < p.len() ==> p[i] == d[i]);
    lemma_digits_monotone(p, k);
    assert(p.take(k) =~= d.take(k));
}

/// The number `u32::from_str` reads from the characters `t`, if any.
pub fn parse_u32_chars(t: &Vec<char>) -> (r: Option<u32>)
    ensures
        r == parse_u32(t@),
{
    let mut start: usize = 0;
    if t.len() > 0 && t[0] == '+' {
        start = 1;
    }
    let ghost d = if t@.len() > 0 && t@[0] == '+' {
        t@.drop_first()
    } else {
        t@
    };
    assert(d =~= t@.skip(start as int));
    assert(parse_u32(t@) == (if all_digits(d) && digits_value(d) <= u32::MAX {
        Some(digits_value(d) as u32)
    } else {
        None
    }));
    if start >= t.len() {
        return None;
    }
    let mut val: u64 = 0;
    let mut i: usize = start;
    while i < t.len()
        invariant
            start <= i <= t@.len(),
            start < t@.len(),
            d =~= t@.skip(start as int),
            parse_u32(t@) == (if all_digits(d) && digits_value(d) <= u32::MAX {
                Some(digits_value(d) as u32)
            } else {
                None
            }),
            forall|k: int| 0 <= k < i - start ==> '0' <= #[trigger] d[k] && d[k] <= '9',
            val == digits_value(d.take(i - start)),
            val <= u32::MAX,
        decreases t@.len() - i,
    {
        let c = t[i];
        if !('0' <= c && c <= '9') {
            assert(d[i - start] == c);
            assert(!all_digits(d));
            assert(parse_u32(t@) == None::<u32>);
            return None;
        }
        let dv = digit_value(c);
        let next = val * 10 + dv;
        assert(d.take(i + 1 - start).drop_last() =~= d.take(i - start));
        assert(d.take(i + 1 - start).last() == c);
        assert(digits_value(d.take(i + 1 - start)) == next);
        if next > 0xffff_ffff {
            proof {
                if all_digits(d) {
                    lemma_digits_monotone(d, i + 1 - start);
                }
            }
            assert(parse_u32(t@) == None::<u32>);
            return None;
        }
        val = next;
        i = i + 1;
    }
    assert(d.take(i - start) =~= d);
    Some(val as u32)
}

/// `s` with repeated neighbours cut, computed left to right, ends as `s` ends.
proof fn lemma_dedup_last(s: Seq<u32>)
    requires
        s.len() > 0,
    ensures
        dedup(s).len() > 0,
        dedup(s).last() == s.last(),
    decreases s.len(),
{
    if s.len() > 1 {
        lemma_dedup_last(s.drop_last());
    }
}

/// The AS numbers of the AS path `path_str`, with repeated neighbours collapsed.
pub fn parse_path(path_str: &str) -> (r: Vec<u32>)
    ensures
        r@ == path_asns(path_str@),
{
    let ws = split_words(path_str);
    let mut out: Vec<u32> = Vec::new();
    let ghost mut nums: Seq<u32> = seq![];
    let mut i: usize = 0;
    while i < ws.len()
        invariant
            i <= ws@.len(),
            ws@.len() == words(path_str@).len(),
            forall|k: int| 0 <= k < ws@.len() ==> #[trigger] ws@[k]@ == words(path_str@)[k],
            nums == numbers_of(words(path_str@).take(i as int)),
            out@ == dedup(nums),
        decreases ws@.len() - i,
    {
        let ghost w = words(path_str@);
        assert(w.take(i + 1).drop_last() =~= w.take(i as int));
        assert(w.take(i + 1).last() == ws@[i as int]@);
        match parse_u32_chars(&ws[i]) {
            Some(v) => {
                proof {
                    if nums.len() > 0 {
                        lemma_dedup_last(nums);
                    }
                }
                let n = out.len();
                if n == 0 || out[n - 1] != v {
                    out.push(v);
                }
                proof {
                    let old_nums = nums;
                    nums = nums.push(v);
                    assert(nums.drop_last() =~= old_nums);
                }
            },
            None => {},
        }
        i = i + 1;
    }
    assert(words(path_str@).take(i as int) =~= words(path_str@));
    out
}

/// Whether the character run `w` ends with `suffix`.
pub fn vec_ends_with(w: &Vec<char>, suffix: &Vec<char>) -> (r: bool)
    ensures
        r == ends_with(w@, suffix@),
{
    if suffix.len() > w.len() {
        return false;
    }
    let wl = w.len();
    let off = wl - suffix.len();
    let mut i: usize = 0;
    while i < suffix.len()
        invariant
            off + suffix@.len() == w@.len(),
            wl == w@.len(),
            i <= suffix@.len(),
            forall|k: int| 0 <= k < i ==> w@[off + k] == suffix@[k],
        decreases suffix@.len() - i,
    {
        assert(off + i < wl);
        if w[off + i] != suffix[i] {
            assert(w@.subrange(off as int, w@.len() as int)[i as int] != suffix@[i as int]);
            return false;
        }
        i = i + 1;
    }
    assert(w@.subrange(off as int, w@.len() as int) =~= suffix@);
    true
}

/// Whether the character run `hay` holds `needle` as a contiguous run.
pub fn vec_contains_run(hay: &Vec<char>, needle: &Vec<char>) -> (r: bool)
    ensures
        r == contains_run(hay@, needle@),
{
    if needle.len() > hay.len() {
        return false;
    }
    let hl = hay.len();
    let last = hl - needle.len();
    let mut i: usize = 0;
    loop
        invariant_except_break
            i <= last,
        invariant
            last + needle@.len() == hay@.len(),
            hl == hay@.len(),
            forall|j: int|
                0 <= j < i ==> #[trigger] hay@.subrange(j, j + needle@.len()) != needle@,
        ensures
            i == last,
            forall|j: int|
                0 <= j <= i ==> #[trigger] hay@.subrange(j, j + needle@.len()) != needle@,
        decreases last - i,
    {
        let mut k: usize = 0;
        let mut same = true;
        while k < needle.len()
            invariant
                last + needle@.len() == hay@.len(),
                hl == hay@.len(),
                i <= last,
                k <= needle@.len(),
                same ==> forall|m: int| 0 <= m < k ==> hay@[i + m] == needle@[m],
                !same ==> hay@.subrange(i as int, i + needle@.len()) != needle@,
            decreases needle@.len() - k,
        {
            assert(i + k < hl);
            if hay[i + k] != needle[k] {
                assert(hay@.subrange(i as int, i + needle@.len())[k as int] != needle@[k as int]);
                same = false;
            }
            k = k + 1;
        }
        if same {
            assert(hay@.subrange(i as int, i + needle@.len()) =~= needle@);
            return true;
        }
        if i == last {
            break ;
        }
        i = i + 1;
    }
    assert forall|j: int|
        0 <= j && j + needle@.len() <= hay@.len() implies #[trigger] hay@.subrange(
        j,
        j + needle@.len(),
    ) != needle@ by {
        assert(j <= i);
    }
    false
}

/// The words of a community list that mark a blackhole request: those ending in `:666`.
pub open spec fn has_blackhole_community(s: Seq<char>) -> bool {
    exists|i: int|
        0 <= i < words(s).len() && ends_with(#[trigger] words(s)[i], seq![':', '6', '6', '6'])
}

/// Whether the community list `comm_str` requests blackholing: some community ends in
/// `:666` (which includes `65535:666`).
pub fn is_ddos_mitigation(comm_str: &str) -> (r: bool)
    ensures
        r == has_blackhole_community(comm_str@),
{
    let ws = split_words(comm_str);
    let mut suffix: Vec<char> = Vec::new();
    suffix.push(':');
    suffix.push('6');
    suffix.push('6');
    suffix.push('6');
    assert(suffix@ =~= seq![':', '6', '6', '6']);
    let mut i: usize = 0;
    while i < ws.len()
        invariant
            i <= ws@.len(),
            suffix@ == seq![':', '6', '6', '6'],
            ws@.len() == words(comm_str@).len(),
            forall|k: int| 0 <= k < ws@.len() ==> #[trigger] ws@[k]@ == words(comm_str@)[k],
            forall|k: int|
                0 <= k < i ==> !ends_with(#[trigger] words(comm_str@)[k], seq![':', '6', '6', '6']),
        decreases ws@.len() - i,
    {
        if vec_ends_with(&ws[i], &suffix) {
            assert(ends_with(words(comm_str@)[i as int], seq![':', '6', '6', '6']));
            return true;
        }
        i = i + 1;
    }
    false
}

} // verus!
