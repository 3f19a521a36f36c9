use vstd::prelude::*;

verus! {

pub assume_specification[ std::string::String::push ](s: &mut std::string::String, ch: char)
    ensures
        final(s)@ == old(s)@.push(ch),
;

/// Unicode `White_Space` property, as listed in the Unicode Character Database
/// (PropList.txt): U+0009..U+000D, U+0020, U+0085, U+00A0, U+1680,
/// U+2000..U+200A, U+2028, U+2029, U+202F, U+205F, U+3000.
pub open spec fn spec_is_whitespace(c: char) -> bool {
    let u = c as u32;
    ||| 0x9 <= u <= 0xD
    ||| u == 0x20
    ||| u == 0x85
    ||| u == 0xA0
    ||| u == 0x1680
    ||| 0x2000 <= u <= 0x200A
    ||| u == 0x2028
    ||| u == 0x2029
    ||| u == 0x202F
    ||| u == 0x205F
    ||| u == 0x3000
}

/// `char::is_whitespace` reports whether the character has the Unicode
/// `White_Space` property (its documentation says exactly this).
pub assume_specification[ char::is_whitespace ](c: char) -> (r: bool)
    ensures
        r == spec_is_whitespace(c),
;

/// The characters of `s`, in order.
pub fn chars_of(s: &str) -> (v: Vec<char>)
    ensures
        v@ == s@,
{
    let mut v: Vec<char> = Vec::new();
    for c in it: s.chars()
        invariant
            v@ == it.seq().take(it.index() as int),
            it.seq() == s@,
    {
        v.push(c);
    }
    v
}

/// A string holding the characters of `cs`, in order.
pub fn string_of(cs: &[char]) -> (s: String)
    ensures
        s@ == cs@,
{
    let mut s = String::new();
    let mut i: usize = 0;
    while i < cs.len()
        invariant
            i <= cs.len(),
            s@ == cs@.take(i as int),
        decreases cs.len() - i,
    {
        s.push(cs[i]);
        i = i + 1;
        assert(cs@.take(i as int) == cs@.take(i - 1).push(cs@[i - 1]));
    }
    assert(cs@.take(cs.len() as int) == cs@);
    s
}

/// Appends the characters of `t` to `s`.
pub fn push_all(s: &mut String, t: &str)
    ensures
        final(s)@ == old(s)@ + t@,
{
    let cs = chars_of(t);
    let mut i: usize = 0;
    while i < cs.len()
        invariant
            i <= cs.len(),
            cs@ == t@,
            s@ == old(s)@ + cs@.take(i as int),
        decreases cs.len() - i,
    {
        s.push(cs[i]);
        i = i + 1;
        assert(cs@.take(i as int) == cs@.take(i - 1).push(cs@[i - 1]));
    }
    assert(cs@.take(cs.len() as int) == cs@);
}

/// `a` followed by `b`, as a new string.
pub fn concat(a: &str, b: &str) -> (s: String)
    ensures
        s@ == a@ + b@,
{
    let mut s = String::new();
    push_all(&mut s, a);
    push_all(&mut s, b);
    s
}

/// Whether `pre` is a prefix of `s`.
pub open spec fn is_prefix(pre: Seq<char>, s: Seq<char>) -> bool {
    pre.len() <= s.len() && s.take(pre.len() as int) == pre
}

pub fn starts_with(s: &[char], pre: &str) -> (r: bool)
    ensures
        r == is_prefix(pre@, s@),
{
    let p = chars_of(pre);
    if p.len() > s.len() {
        return false;
    }
    let mut i: usize = 0;
    while i < p.len()
        invariant
            i <= p.len() <= s.len(),
            p@ == pre@,
            forall|j: int| 0 <= j < i ==> s@[j] == p@[j],
        decreases p.len() - i,
    {
        if s[i] != p[i] {
            assert(s@.take(p.len() as int)[i as int] != p@[i as int]);
            return false;
        }
        i = i + 1;
    }
    assert(s@.take(p.len() as int) == p@);
    true
}

/// Whether the sequence `needle` occurs in `hay` at some position.
pub open spec fn contains_seq(hay: Seq<char>, needle: Seq<char>) -> bool {
    exists|k: int| 0 <= k && k + needle.len() <= hay.len() && #[trigger] hay.subrange(k, k + needle.len()) == needle
}

/// Whether `needle` occurs in `hay` as a contiguous run of characters.
pub fn contains_str(hay: &str, needle: &str) -> (r: bool)
    ensures
        r == contains_seq(hay@, needle@),
{
    let h = chars_of(hay);
    let n = chars_of(needle);
    if n.len() > h.len() {
        return false;
    }
    let mut k: usize = 0;
    while k <= h.len() - n.len()
        invariant
            h@ == hay@,
            n@ == needle@,
            n.len() <= h.len(),
            k <= h.len() - n.len() + 1,
            forall|j: int| 0 <= j < k ==> #[trigger] h@.subrange(j, j + n.len()) != n@,
        decreases h.len() + 1 - n.len() - k,
    {
        let mut i: usize = 0;
        let mut same = true;
        while i < n.len()
            invariant
                i <= n.len(),
                k + n.len() <= h.len(),
                same == (forall|j: int| 0 <= j < i ==> h@[k + j] == n@[j]),
            decreases n.len() - i,
        {
            if h[k + i] != n[i] {
                same = false;
            }
            i = i + 1;
        }
        if same {
            assert(h@.subrange(k as int, k + n.len()) == n@);
            return true;
        }
        assert(h@.subrange(k as int, k + n.len())[0] == h@[k as int]);
        assert(!(forall|j: int| 0 <= j < n.len() ==> h@[k + j] == n@[j]));
        let ghost w = choose|j: int| !(0 <= j < n.len() ==> h@[k + j] == n@[j]);
        assert(h@.subrange(k as int, k + n.len())[w] != n@[w]);
        k = k + 1;
    }
    proof {
        assert forall|j: int| 0 <= j && j + n@.len() <= h@.len() implies #[trigger] h@.subrange(j, j + n@.len()) != n@ by {
            assert(j < k);
        }
    }
    false
}


/// The characters of `cs` from `lo` up to `hi`.
pub fn sub_chars(cs: &[char], lo: usize, hi: usize) -> (v: Vec<char>)
    requires
        lo <= hi <= cs.len(),
    ensures
        v@ == cs@.subrange(lo as int, hi as int),
{
    let mut v: Vec<char> = Vec::new();
    let mut i = lo;
    while i < hi
        invariant
            lo <= i <= hi <= cs.len(),
            v@ == cs@.subrange(lo as int, i as int),
        decreases hi - i,
    {
        v.push(cs[i]);
        i = i + 1;
        assert(cs@.subrange(lo as int, i as int) == cs@.subrange(lo as int, i - 1).push(cs@[i - 1]));
    }
    v
}

/// The first position of `c` in `s`, if any.
pub open spec fn first_index_of(s: Seq<char>, c: char) -> Option<int> {
    if exists|k: int| 0 <= k < s.len() && s[k] == c && forall|j: int| 0 <= j < k ==> s[j] != c {
        Some(choose|k: int| 0 <= k < s.len() && s[k] == c && forall|j: int| 0 <= j < k ==> s[j] != c)
    } else {
        None
    }
}

pub fn find_char(cs: &[char], c: char) -> (r: Option<usize>)
    ensures
        match r {
            Some(p) => first_index_of(cs@, c) == Some(p as int) && p < cs@.len() && cs@[p as int] == c,
            None => first_index_of(cs@, c) is None && forall|k: int| 0 <= k < cs@.len() ==> cs@[k] != c,
        },
{
    let mut i: usize = 0;
    while i < cs.len()
        invariant
            i <= cs.len(),
            forall|j: int| 0 <= j < i ==> cs@[j] != c,
        decreases cs.len() - i,
    {
        if cs[i] == c {
            proof {
                let s = cs@;
                assert(s[i as int] == c && forall|j: int| 0 <= j < i ==> s[j] != c);
                let k = choose|k: int| 0 <= k < s.len() && s[k] == c && forall|j: int| 0 <= j < k ==> s[j] != c;
                if k < i {
                } else if k > i {
                    assert(s[i as int] != c);
                }
            }
            return Some(i);
        }
        i = i + 1;
    }
    None
}

} // verus!
