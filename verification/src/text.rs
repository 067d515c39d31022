use vstd::prelude::*;

verus! {

/// The Unicode `White_Space` property, the notion of white space that
/// `char::is_whitespace`, `str::trim` and `str::split_whitespace` use.
pub open spec fn is_white_space(c: char) -> bool {
    let u = c as u32;
    ||| 0x9 <= u <= 0xD
    ||| u == 0x20
    ||| u == 0x85
    ||| u == 0xA0
    ||| u == 0x1680
    ||| 0x2000 <= u <= 0x200A
    ||| u == 0x2028
    ||| u == 0x2029
    ||| u == 0x202F
    ||| u == 0x205F
    ||| u == 0x3000
}

/// Whether `c` is Unicode white space.
pub fn char_is_white_space(c: char) -> (b: bool)
    ensures
        b == is_white_space(c),
{
    let u = c as u32;
    (0x9 <= u && u <= 0xD) || u == 0x20 || u == 0x85 || u == 0xA0 || u == 0x1680 || (0x2000 <= u
        && u <= 0x200A) || u == 0x2028 || u == 0x2029 || u == 0x202F || u == 0x205F || u == 0x3000
}

/// `s` without its leading white space.
pub open spec fn trim_start_spec(s: Seq<char>) -> Seq<char>
    decreases s.len(),
{
    if s.len() > 0 && is_white_space(s[0]) {
        trim_start_spec(s.drop_first())
    } else {
        s
    }
}

/// `s` without its trailing white space.
pub open spec fn trim_end_spec(s: Seq<char>) -> Seq<char>
    decreases s.len(),
{
    if s.len() > 0 && is_white_space(s.last()) {
        trim_end_spec(s.drop_last())
    } else {
        s
    }
}

/// `s` without its leading and trailing white space, as `str::trim` gives it.
pub open spec fn trim_spec(s: Seq<char>) -> Seq<char> {
    trim_end_spec(trim_start_spec(s))
}

/// Leading white space up to `i` is dropped by `trim_start_spec`.
pub proof fn lemma_trim_start_skip(s: Seq<char>, i: int)
    requires
        0 <= i <= s.len(),
        forall|k: int| 0 <= k < i ==> is_white_space(#[trigger] s[k]),
    ensures
        trim_start_spec(s) == trim_start_spec(s.skip(i)),
    decreases i,
{
    if i == 0 {
        assert(s.skip(0) =~= s);
    } else {
        let t = s.drop_first();
        assert(is_white_space(s[0]));
        assert forall|k: int| 0 <= k < i - 1 implies is_white_space(#[trigger] t[k]) by {
            assert(t[k] == s[k + 1]);
        }
        lemma_trim_start_skip(t, i - 1);
        assert(t.skip(i - 1) =~= s.skip(i));
    }
}

/// Trailing white space from `j` on is dropped by `trim_end_spec`.
pub proof fn lemma_trim_end_take(s: Seq<char>, j: int)
    requires
        0 <= j <= s.len(),
        forall|k: int| j <= k < s.len() ==> is_white_space(#[trigger] s[k]),
    ensures
        trim_end_spec(s) == trim_end_spec(s.take(j)),
    decreases s.len() - j,
{
    if j == s.len() {
        assert(s.take(j) =~= s);
    } else {
        let t = s.drop_last();
        assert(is_white_space(s[s.len() - 1]));
        assert forall|k: int| j <= k < t.len() implies is_white_space(#[trigger] t[k]) by {
            assert(t[k] == s[k]);
        }
        lemma_trim_end_take(t, j);
        assert(t.take(j) =~= s.take(j));
    }
}

/// The characters of `s`, one by one.
pub fn chars_of(s: &str) -> (v: Vec<char>)
    ensures
        v@ == s@,
{
    broadcast use vstd::string::axiom_spec_iter;

    let mut v: Vec<char> = Vec::new();
    for c in it: s.chars()
        invariant
            it.seq() == s@,
            v@ == s@.take(it.index() as int),
    {
        v.push(c);
        assert(v@ =~= s@.take(it.index() + 1));
    }
    assert(v@ =~= s@);
    v
}

/// `s` with its leading and trailing white space removed.
pub fn trim(s: &str) -> (r: &str)
    ensures
        r@ == trim_spec(s@),
{
    let cs = chars_of(s);
    let n = cs.len();
    let mut i: usize = 0;
    while i < n
        invariant
            i <= n,
            n == cs@.len(),
            forall|k: int| 0 <= k < i ==> is_white_space(#[trigger] cs@[k]),
        ensures
            i <= n,
            forall|k: int| 0 <= k < i ==> is_white_space(#[trigger] cs@[k]),
            i < n ==> !is_white_space(cs@[i as int]),
        decreases n - i,
    {
        if !char_is_white_space(cs[i]) {
            break;
        }
        i = i + 1;
    }
    let mut j: usize = n;
    while j > i
        invariant
            i <= j <= n,
            n == cs@.len(),
            forall|k: int| j <= k < n ==> is_white_space(#[trigger] cs@[k]),
        ensures
            i <= j <= n,
            forall|k: int| j <= k < n ==> is_white_space(#[trigger] cs@[k]),
            j > i ==> !is_white_space(cs@[j - 1]),
        decreases j - i,
    {
        if !char_is_white_space(cs[j - 1]) {
            break;
        }
        j = j - 1;
    }
    proof {
        let s0 = cs@;
        lemma_trim_start_skip(s0, i as int);
        let t = s0.skip(i as int);
        assert(trim_start_spec(t) == t);
        assert forall|k: int| (j - i) <= k < t.len() implies is_white_space(#[trigger] t[k]) by {
            assert(t[k] == s0[k + i]);
        }
        lemma_trim_end_take(t, j - i);
        let u = t.take(j - i);
        assert(u =~= s0.subrange(i as int, j as int));
        assert(trim_end_spec(u) == u);
    }
    s.substring_char(i, j)
}

/// Number of leading characters of `s` that are not white space.
pub open spec fn word_len(s: Seq<char>) -> nat
    decreases s.len(),
{
    if s.len() > 0 && !is_white_space(s[0]) {
        1 + word_len(s.drop_first())
    } else {
        0
    }
}

/// `trim_start_spec` keeps a suffix of its argument.
pub proof fn lemma_trim_start_suffix(s: Seq<char>)
    ensures
        trim_start_spec(s).len() <= s.len(),
        trim_start_spec(s) =~= s.skip(s.len() - trim_start_spec(s).len()),
        trim_start_spec(s).len() > 0 ==> !is_white_space(trim_start_spec(s)[0]),
    decreases s.len(),
{
    if s.len() > 0 && is_white_space(s[0]) {
        lemma_trim_start_suffix(s.drop_first());
        let t = trim_start_spec(s.drop_first());
        assert(s.drop_first().skip(s.drop_first().len() - t.len()) =~= s.skip(s.len() - t.len()));
    } else {
        assert(s.skip(0) =~= s);
    }
}

/// A word that starts the sequence and ends at `e` has length `e`.
pub proof fn lemma_word_len(s: Seq<char>, e: int)
    requires
        0 <= e <= s.len(),
        forall|k: int| 0 <= k < e ==> !is_white_space(#[trigger] s[k]),
        e < s.len() ==> is_white_space(s[e]),
    ensures
        word_len(s) == e,
        word_len(s) <= s.len(),
    decreases e,
{
    if e > 0 {
        let t = s.drop_first();
        assert forall|k: int| 0 <= k < e - 1 implies !is_white_space(#[trigger] t[k]) by {
            assert(t[k] == s[k + 1]);
        }
        if e < s.len() {
            assert(t[e - 1] == s[e]);
        }
        lemma_word_len(t, e - 1);
    }
}

/// A word never runs past the end of the sequence, and a sequence that starts
/// with a non-white-space character starts with a word of at least one character.
pub proof fn lemma_word_len_bound(s: Seq<char>)
    ensures
        word_len(s) <= s.len(),
        s.len() > 0 && !is_white_space(s[0]) ==> word_len(s) >= 1,
    decreases s.len(),
{
    if s.len() > 0 && !is_white_space(s[0]) {
        lemma_word_len_bound(s.drop_first());
    }
}

/// The value after `prefix` of the first white-space separated word of `s`
/// that starts with `prefix`, as
/// `s.split_whitespace().find_map(|w| w.strip_prefix(prefix))` finds it.
pub open spec fn prefixed_word_value(s: Seq<char>, prefix: Seq<char>) -> Option<Seq<char>>
    decreases s.len(),
{
    let t = trim_start_spec(s);
    if t.len() == 0 {
        None
    } else {
        let n = word_len(t);
        let w = t.take(n as int);
        if w.len() >= prefix.len() && w.take(prefix.len() as int) == prefix {
            Some(w.skip(prefix.len() as int))
        } else {
            proof {
                lemma_trim_start_suffix(s);
                lemma_word_len_bound(t);
            }
            prefixed_word_value(t.skip(n as int), prefix)
        }
    }
}

/// Whether `cs[start..end]` begins with `ps`.
fn has_prefix_at(cs: &Vec<char>, start: usize, end: usize, ps: &Vec<char>) -> (b: bool)
    requires
        start <= end <= cs@.len(),
    ensures
        b == (end - start >= ps@.len() && cs@.subrange(start as int, end as int).take(
            ps@.len() as int,
        ) == ps@),
{
    if end - start < ps.len() {
        return false;
    }
    let mut k: usize = 0;
    while k < ps.len()
        invariant
            start <= end <= cs@.len(),
            end - start >= ps@.len(),
            k <= ps@.len(),
            forall|m: int| 0 <= m < k ==> cs@[start + m] == ps@[m],
        decreases ps@.len() - k,
    {
        if cs[start + k] != ps[k] {
            assert(cs@.subrange(start as int, end as int).take(ps@.len() as int)[k as int]
                != ps@[k as int]);
            return false;
        }
        k = k + 1;
    }
    assert(cs@.subrange(start as int, end as int).take(ps@.len() as int) =~= ps@);
    true
}

/// The value after `prefix` of the first white-space separated word of `s`
/// that starts with `prefix`, if any word does.
pub fn prefixed_word_value_of<'a>(s: &'a str, prefix: &str) -> (r: Option<&'a str>)
    ensures
        match r {
            Some(v) => prefixed_word_value(s@, prefix@) == Some(v@),
            None => prefixed_word_value(s@, prefix@) is None,
        },
{
    let cs = chars_of(s);
    let ps = chars_of(prefix);
    let n = cs.len();
    let mut pos: usize = 0;
    assert(cs@.skip(0) =~= cs@);
    loop
        invariant
            pos <= n,
            n == cs@.len(),
            cs@ == s@,
            ps@ == prefix@,
            prefixed_word_value(s@, prefix@) == prefixed_word_value(cs@.skip(pos as int), ps@),
        decreases n - pos,
    {
        let mut start: usize = pos;
        while start < n
            invariant
                pos <= start <= n,
                n == cs@.len(),
                forall|k: int| pos <= k < start ==> is_white_space(#[trigger] cs@[k]),
            ensures
                pos <= start <= n,
                forall|k: int| pos <= k < start ==> is_white_space(#[trigger] cs@[k]),
                start < n ==> !is_white_space(cs@[start as int]),
            decreases n - start,
        {
            if !char_is_white_space(cs[start]) {
                break;
            }
            start = start + 1;
        }
        let ghost rest = cs@.skip(pos as int);
        proof {
            assert forall|k: int| 0 <= k < start - pos implies is_white_space(#[trigger] rest[k]) by {
                assert(rest[k] == cs@[k + pos]);
            }
            lemma_trim_start_skip(rest, start - pos);
            assert(rest.skip(start - pos) =~= cs@.skip(start as int));
        }
        if start == n {
            assert(trim_start_spec(rest).len() == 0);
            return None;
        }
        let mut end: usize = start;
        while end < n
            invariant
                start <= end <= n,
                n == cs@.len(),
                forall|k: int| start <= k < end ==> !is_white_space(#[trigger] cs@[k]),
            ensures
                start <= end <= n,
                forall|k: int| start <= k < end ==> !is_white_space(#[trigger] cs@[k]),
                end < n ==> is_white_space(cs@[end as int]),
            decreases n - end,
        {
            if char_is_white_space(cs[end]) {
                break;
            }
            end = end + 1;
        }
        let ghost t = cs@.skip(start as int);
        proof {
            assert(trim_start_spec(t) == t);
            assert(trim_start_spec(rest) == t);
            assert forall|k: int| 0 <= k < end - start implies !is_white_space(#[trigger] t[k]) by {
                assert(t[k] == cs@[k + start]);
            }
            if end < n {
                assert(t[end - start] == cs@[end as int]);
            }
            lemma_word_len(t, end - start);
            assert(t.take(end - start) =~= cs@.subrange(start as int, end as int));
            assert(t.skip(end - start) =~= cs@.skip(end as int));
        }
        if has_prefix_at(&cs, start, end, &ps) {
            proof {
                assert(t.take(end - start).skip(ps@.len() as int) =~= cs@.subrange(
                    start + ps@.len(),
                    end as int,
                ));
            }
            return Some(s.substring_char(start + ps.len(), end));
        }
        pos = end;
    }
}

} // verus!
