//! Character and string helpers shared across the bridge.

use vstd::prelude::*;

verus! {

/// Relies on String::push: appends exactly the one character to the string.
#[verifier::external_body]
pub(crate) fn push_char(s: &mut String, c: char)
    ensures
        final(s)@ == old(s)@.push(c),
{
    s.push(c);
}

/// An ASCII upper-case letter mapped to its lower-case form; anything else
/// unchanged.
pub open spec fn lower_char(c: char) -> char {
    if 65 <= c as u32 <= 90 {
        ((c as u32 + 32) as u8) as char
    } else {
        c
    }
}

/// The string with every ASCII upper-case letter lowered.
pub open spec fn lower_seq(s: Seq<char>) -> Seq<char> {
    s.map_values(|c: char| lower_char(c))
}

/// Lower one character, ASCII-wise.
pub fn to_lower_char(c: char) -> (r: char)
    ensures
        r == lower_char(c),
{
    let u = c as u32;
    if 65 <= u && u <= 90 {
        ((c as u8) + 32) as char
    } else {
        c
    }
}

/// Lower a whole string, ASCII-wise.
pub fn to_lowercase_ascii(s: &str) -> (r: String)
    ensures
        r@ == lower_seq(s@),
{
    let mut out = String::new();
    let n = s.unicode_len();
    for i in 0..n
        invariant
            n == s@.len(),
            out@ == lower_seq(s@.take(i as int)),
    {
        let c = s.get_char(i);
        push_char(&mut out, to_lower_char(c));
        proof {
            assert(lower_seq(s@.take(i + 1)) =~= lower_seq(s@.take(i as int)).push(
                lower_char(s@[i as int]),
            ));
        }
    }
    proof {
        assert(s@.take(n as int) =~= s@);
    }
    out
}

/// The characters of a string, as a vector.
pub fn chars_of(s: &str) -> (r: Vec<char>)
    ensures
        r@ == s@,
{
    let mut out: Vec<char> = Vec::new();
    let n = s.unicode_len();
    for i in 0..n
        invariant
            n == s@.len(),
            out@ == s@.take(i as int),
    {
        out.push(s.get_char(i));
        proof {
            assert(s@.take(i + 1) =~= s@.take(i as int).push(s@[i as int]));
        }
    }
    proof {
        assert(s@.take(n as int) =~= s@);
    }
    out
}

/// A string built from the given characters.
pub fn string_from_chars(v: &[char]) -> (r: String)
    ensures
        r@ == v@,
{
    let mut out = String::new();
    let n = v.len();
    for i in 0..n
        invariant
            n == v@.len(),
            out@ == v@.take(i as int),
    {
        push_char(&mut out, v[i]);
        proof {
            assert(v@.take(i + 1) =~= v@.take(i as int).push(v@[i as int]));
        }
    }
    proof {
        assert(v@.take(n as int) =~= v@);
    }
    out
}

/// What lossy UTF-8 decoding yields for these bytes; it depends on the bytes
/// alone, and valid UTF-8 decodes to itself.
pub uninterp spec fn utf8_lossy_of(b: Seq<u8>) -> Seq<char>;

/// Relies on String::from_utf8_lossy: the decoded text is a function of the
/// bytes alone; an empty input decodes to the empty string.
#[verifier::external_body]
pub(crate) fn bytes_to_string_lossy(b: &[u8]) -> (r: String)
    ensures
        r@ == utf8_lossy_of(b@),
        b@.len() == 0 ==> r@.len() == 0,
{
    String::from_utf8_lossy(b).to_string()
}

/// `p` is a prefix of `s`.
pub open spec fn is_prefix(p: Seq<char>, s: Seq<char>) -> bool {
    p.len() <= s.len() && s.take(p.len() as int) == p
}

/// Prefix test, character by character.
pub fn str_starts_with(s: &str, prefix: &str) -> (r: bool)
    ensures
        r == is_prefix(prefix@, s@),
{
    let n = prefix.unicode_len();
    let m = s.unicode_len();
    if n > m {
        return false;
    }
    for i in 0..n
        invariant
            n == prefix@.len(),
            m == s@.len(),
            n <= m,
            forall|j: int| 0 <= j < i ==> s@[j] == prefix@[j],
    {
        if s.get_char(i) != prefix.get_char(i) {
            proof {
                assert(s@.take(n as int)[i as int] != prefix@[i as int]);
            }
            return false;
        }
    }
    proof {
        assert(s@.take(n as int) =~= prefix@);
    }
    true
}

/// The position of the first occurrence of `c`.
pub open spec fn first_occurrence(s: Seq<char>, c: char) -> Option<int>
    decreases s.len(),
{
    if s.len() == 0 {
        None
    } else if s[0] == c {
        Some(0)
    } else {
        match first_occurrence(s.drop_first(), c) {
            Some(i) => Some(i + 1),
            None => None,
        }
    }
}

pub proof fn lemma_first_occurrence_range(s: Seq<char>, c: char)
    ensures
        first_occurrence(s, c) matches Some(i) ==> 0 <= i < s.len() && s[i] == c,
    decreases s.len(),
{
    if s.len() > 0 && s[0] != c {
        lemma_first_occurrence_range(s.drop_first(), c);
    }
}

pub proof fn lemma_first_occurrence_at(s: Seq<char>, c: char, i: int)
    requires
        0 <= i < s.len(),
        s[i] == c,
        forall|j: int| 0 <= j < i ==> s[j] != c,
    ensures
        first_occurrence(s, c) == Some(i),
    decreases s.len(),
{
    if i > 0 {
        assert(s.drop_first()[i - 1] == s[i]);
        assert(forall|j: int| 0 <= j < i - 1 ==> #[trigger] s.drop_first()[j] == s[j + 1]);
        lemma_first_occurrence_at(s.drop_first(), c, i - 1);
    }
}

pub proof fn lemma_first_occurrence_none(s: Seq<char>, c: char)
    requires
        forall|j: int| 0 <= j < s.len() ==> s[j] != c,
    ensures
        first_occurrence(s, c) is None,
    decreases s.len(),
{
    if s.len() > 0 {
        assert(forall|j: int|
            0 <= j < s.drop_first().len() ==> #[trigger] s.drop_first()[j] == s[j + 1]);
        lemma_first_occurrence_none(s.drop_first(), c);
    }
}

#[via_fn]
proof fn split_on_decreases(s: Seq<char>, c: char) {
    lemma_first_occurrence_range(s, c);
}

/// The text split at every occurrence of `c`: the chunks between the
/// occurrences, in order. Text without one is a single chunk; a trailing
/// occurrence contributes a final empty chunk.
pub open spec fn split_on(s: Seq<char>, c: char) -> Seq<Seq<char>>
    decreases s.len() via split_on_decreases
{
    match first_occurrence(s, c) {
        None => seq![s],
        Some(i) => seq![s.take(i)] + split_on(s.skip(i + 1), c),
    }
}

/// The first occurrence of `c` at or after `from`, if any.
fn find_char(cs: &Vec<char>, from: usize, c: char) -> (r: Option<usize>)
    requires
        from <= cs@.len(),
    ensures
        match r {
            Some(i) => from <= i < cs@.len() && first_occurrence(cs@.skip(from as int), c)
                == Some(i - from),
            None => first_occurrence(cs@.skip(from as int), c) is None,
        },
{
    let n = cs.len();
    let mut i = from;
    while i < n
        invariant
            n == cs@.len(),
            from <= i <= n,
            forall|j: int| from <= j < i ==> cs@[j] != c,
        decreases n - i,
    {
        if cs[i] == c {
            proof {
                let sk = cs@.skip(from as int);
                assert(sk[i - from] == cs@[i as int]);
                assert(forall|j: int| 0 <= j < i - from ==> #[trigger] sk[j] == cs@[j + from]);
                lemma_first_occurrence_at(sk, c, i - from);
            }
            return Some(i);
        }
        i = i + 1;
    }
    proof {
        let sk = cs@.skip(from as int);
        assert(forall|j: int| 0 <= j < sk.len() ==> #[trigger] sk[j] == cs@[j + from]);
        lemma_first_occurrence_none(sk, c);
    }
    None
}

fn chunk_of(cs: &Vec<char>, from: usize, to: usize) -> (r: String)
    requires
        from <= to <= cs@.len(),
    ensures
        r@ == cs@.subrange(from as int, to as int),
{
    let mut chunk: Vec<char> = Vec::new();
    let mut i = from;
    while i < to
        invariant
            from <= i <= to <= cs@.len(),
            chunk@ == cs@.subrange(from as int, i as int),
        decreases to - i,
    {
        chunk.push(cs[i]);
        proof {
            assert(cs@.subrange(from as int, i + 1) =~= cs@.subrange(from as int, i as int).push(
                cs@[i as int],
            ));
        }
        i = i + 1;
    }
    string_from_chars(chunk.as_slice())
}

fn split_from(cs: &Vec<char>, from: usize, c: char) -> (r: Vec<String>)
    requires
        from <= cs@.len(),
    ensures
        string_views(r@) == split_on(cs@.skip(from as int), c),
    decreases cs@.len() - from,
{
    match find_char(cs, from, c) {
        None => {
            let n = cs.len();
            let chunk = chunk_of(cs, from, n);
            let mut out: Vec<String> = Vec::new();
            out.push(chunk);
            proof {
                assert(cs@.subrange(from as int, n as int) =~= cs@.skip(from as int));
                assert(string_views(out@) =~= split_on(cs@.skip(from as int), c));
            }
            out
        },
        Some(sep) => {
            let chunk = chunk_of(cs, from, sep);
            let total = cs.len();
            assert(sep < total);
            let mut rest = split_from(cs, sep + 1, c);
            rest.insert(0, chunk);
            proof {
                let sk = cs@.skip(from as int);
                assert(sk.take(sep - from) =~= cs@.subrange(from as int, sep as int));
                assert(sk.skip(sep - from + 1) =~= cs@.skip(sep + 1 as int));
                assert(string_views(rest@) =~= split_on(cs@.skip(from as int), c));
            }
            rest
        },
    }
}

/// The views of a vector of strings.
pub open spec fn string_views(ls: Seq<String>) -> Seq<Seq<char>> {
    ls.map_values(|x: String| x@)
}

/// Split text at every occurrence of `c`, exactly as `split_on` describes.
pub fn split_str(s: &str, c: char) -> (r: Vec<String>)
    ensures
        string_views(r@) == split_on(s@, c),
{
    let cs = chars_of(s);
    let r = split_from(&cs, 0, c);
    proof {
        assert(cs@.skip(0) =~= s@);
    }
    r
}

/// Split at the first occurrence of `c`: the text before it and the text
/// after it, or nothing when `c` does not occur.
pub fn split_once_str(s: &str, c: char) -> (r: Option<(String, String)>)
    ensures
        match first_occurrence(s@, c) {
            Some(i) => (r matches Some(p) && p.0@ == s@.take(i) && p.1@ == s@.skip(i + 1)),
            None => r is None,
        },
{
    let cs = chars_of(s);
    match find_char(&cs, 0, c) {
        Some(i) => {
            let n = cs.len();
            let before = chunk_of(&cs, 0, i);
            let after = chunk_of(&cs, i + 1, n);
            proof {
                assert(cs@.skip(0) =~= s@);
                assert(cs@.subrange(0, i as int) =~= s@.take(i as int));
                assert(cs@.subrange(i + 1, n as int) =~= s@.skip(i + 1));
            }
            Some((before, after))
        },
        None => {
            proof {
                assert(cs@.skip(0) =~= s@);
            }
            None
        },
    }
}

} // verus!
