//! Text helpers of the command line front end: hashtag extraction from note
//! content, and recognition of short-id prefixes.

use vstd::prelude::*;
use vstd::string::*;

verus! {

/// The Unicode `White_Space` property, which `char::is_whitespace` tests and
/// `str::split_whitespace` splits on.
pub open spec fn is_white_space(c: char) -> bool {
    let n = c as u32;
    ||| 0x09 <= n <= 0x0D
    ||| n == 0x20
    ||| n == 0x85
    ||| n == 0xA0
    ||| n == 0x1680
    ||| 0x2000 <= n <= 0x200A
    ||| n == 0x2028
    ||| n == 0x2029
    ||| n == 0x202F
    ||| n == 0x205F
    ||| n == 0x3000
}

/// Number of leading characters of `s` that are not white space.
pub open spec fn word_len(s: Seq<char>) -> nat
    decreases s.len(),
{
    if s.len() == 0 || is_white_space(s[0]) {
        0
    } else {
        1 + word_len(s.drop_first())
    }
}

/// The words of `s`: its maximal runs of non-white-space characters, in order
/// (what `str::split_whitespace` yields).
pub open spec fn words(s: Seq<char>) -> Seq<Seq<char>>
    decreases s.len(),
{
    if s.len() == 0 {
        Seq::empty()
    } else if is_white_space(s[0]) {
        words(s.drop_first())
    } else {
        let n = word_len(s);
        if n == 0 || n > s.len() {
            Seq::empty()
        } else {
            seq![s.take(n as int)] + words(s.skip(n as int))
        }
    }
}

/// The hashtags among `ws`: each word that starts with `#`, without that `#`,
/// in order.
pub open spec fn hashtags(ws: Seq<Seq<char>>) -> Seq<Seq<char>>
    decreases ws.len(),
{
    if ws.len() == 0 {
        Seq::empty()
    } else {
        let rest = hashtags(ws.drop_first());
        if ws[0].len() > 0 && ws[0][0] == '#' {
            seq![ws[0].drop_first()] + rest
        } else {
            rest
        }
    }
}

/// The tags that a note's content carries.
pub open spec fn tags_of(s: Seq<char>) -> Seq<Seq<char>> {
    hashtags(words(s))
}

proof fn lemma_word_len_bound(s: Seq<char>)
    ensures
        word_len(s) <= s.len(),
        s.len() > 0 && !is_white_space(s[0]) ==> word_len(s) >= 1,
        forall|k: int| 0 <= k < word_len(s) ==> !is_white_space(#[trigger] s[k]),
        word_len(s) < s.len() ==> is_white_space(s[word_len(s) as int]),
    decreases s.len(),
{
    if s.len() > 0 && !is_white_space(s[0]) {
        lemma_word_len_bound(s.drop_first());
        assert forall|k: int| 0 <= k < word_len(s) implies !is_white_space(#[trigger] s[k]) by {
            if k > 0 {
                assert(s[k] == s.drop_first()[k - 1]);
            }
        }
        if word_len(s) < s.len() {
            assert(s[word_len(s) as int] == s.drop_first()[word_len(s.drop_first()) as int]);
        }
    }
}

/// `word_len` is determined by the characters up to the first white space.
proof fn lemma_word_len_from(s: Seq<char>, j: int)
    requires
        0 <= j <= s.len(),
        forall|k: int| 0 <= k < j ==> !is_white_space(#[trigger] s[k]),
        j == s.len() || is_white_space(s[j]),
    ensures
        word_len(s) == j,
    decreases s.len(),
{
    if j > 0 {
        assert forall|k: int| 0 <= k < j - 1 implies !is_white_space(
            #[trigger] s.drop_first()[k],
        ) by {
            assert(s.drop_first()[k] == s[k + 1]);
        }
        if j < s.len() {
            assert(s.drop_first()[j - 1] == s[j]);
        }
        lemma_word_len_from(s.drop_first(), j - 1);
    }
}

/// True when `c` is the `White_Space` character that `char::is_whitespace` accepts.
pub fn is_white_space_char(c: char) -> (b: bool)
    ensures
        b == is_white_space(c),
{
    let n = c as u32;
    (0x09 <= n && n <= 0x0D) || n == 0x20 || n == 0x85 || n == 0xA0 || n == 0x1680 || (0x2000
        <= n && n <= 0x200A) || n == 0x2028 || n == 0x2029 || n == 0x202F || n == 0x205F || n
        == 0x3000
}

/// Extracts the `#tag` words of `content`: every white-space separated word
/// that starts with `#`, with the `#` removed (a lone `#` gives an empty tag).
pub fn extract_tags(content: &str) -> (tags: Vec<String>)
    ensures
        tags@.map_values(|t: String| t@) == tags_of(content@),
{
    let ghost s = content@;
    let n = content.unicode_len();
    let mut tags: Vec<String> = Vec::new();
    let mut i: usize = 0;
    assert(s.skip(0) =~= s);
    while i < n
        invariant
            s == content@,
            n == s.len(),
            i <= n,
            tags@.map_values(|t: String| t@) + tags_of(s.skip(i as int)) == tags_of(s),
        decreases n - i,
    {
        let c = content.get_char(i);
        if is_white_space_char(c) {
            proof {
                let t = s.skip(i as int);
                assert(t[0] == c);
                assert(t.drop_first() =~= s.skip(i + 1));
            }
            i = i + 1;
        } else {
            let mut j: usize = i + 1;
            while j < n && !is_white_space_char(content.get_char(j))
                invariant
                    s == content@,
                    n == s.len(),
                    i < j <= n,
                    forall|k: int| i <= k < j ==> !is_white_space(#[trigger] s[k]),
                decreases n - j,
            {
                j = j + 1;
            }
            proof {
                let t = s.skip(i as int);
                assert forall|k: int| 0 <= k < j - i implies !is_white_space(#[trigger] t[k]) by {
                    assert(t[k] == s[i + k]);
                }
                if j < n {
                    assert(t[j - i] == s[j as int]);
                }
                lemma_word_len_from(t, j - i);
                assert(t.take(j - i) =~= s.subrange(i as int, j as int));
                assert(t.skip(j - i) =~= s.skip(j as int));
                let w = t.take(j - i);
                assert(words(t) == seq![w] + words(s.skip(j as int)));
                assert((seq![w] + words(s.skip(j as int))).drop_first() =~= words(
                    s.skip(j as int),
                ));
            }
            if c == '#' {
                let sub = content.substring_char(i + 1, j);
                let tag = String::from_str(sub);
                let ghost before = tags@.map_values(|t: String| t@);
                tags.push(tag);
                proof {
                    let w = s.subrange(i as int, j as int);
                    assert(w[0] == c);
                    assert(w.drop_first() =~= s.subrange(i + 1, j as int));
                    assert(tags@.map_values(|t: String| t@) =~= before.push(tag@));
                    assert(before.push(tag@) + tags_of(s.skip(j as int)) =~= before + (seq![
                        w.drop_first(),
                    ] + tags_of(s.skip(j as int))));
                }
            } else {
                proof {
                    let w = s.subrange(i as int, j as int);
                    assert(w[0] == c);
                }
            }
            i = j;
        }
    }
    proof {
        assert(s.skip(n as int) =~= Seq::<char>::empty());
        assert(tags@.map_values(|t: String| t@) + Seq::<Seq<char>>::empty() =~= tags@.map_values(
            |t: String| t@,
        ));
    }
    tags
}

/// A character that may stand in a short-id prefix: an ASCII letter or digit
/// other than `i`, `l`, `o` and `u` in either case.
pub open spec fn is_prefix_char(c: char) -> bool {
    let n = c as u32;
    &&& (0x30 <= n <= 0x39 || 0x41 <= n <= 0x5A || 0x61 <= n <= 0x7A)
    &&& c != 'i' && c != 'I' && c != 'l' && c != 'L'
    &&& c != 'o' && c != 'O' && c != 'u' && c != 'U'
}

/// What `is_valid_ulid_prefix` accepts: 3 to 26 characters, each a prefix character.
pub open spec fn valid_prefix(s: Seq<char>) -> bool {
    &&& 3 <= s.len() <= 26
    &&& forall|k: int| 0 <= k < s.len() ==> is_prefix_char(#[trigger] s[k])
}

fn is_prefix_char_exec(c: char) -> (b: bool)
    ensures
        b == is_prefix_char(c),
{
    let n = c as u32;
    let alnum = (0x30 <= n && n <= 0x39) || (0x41 <= n && n <= 0x5A) || (0x61 <= n && n <= 0x7A);
    alnum && c != 'i' && c != 'I' && c != 'l' && c != 'L' && c != 'o' && c != 'O' && c != 'u' && c
        != 'U'
}

/// Whether `s` looks like the prefix of a note id (case-insensitive).
///
/// Every accepted character is ASCII, so counting characters here gives the
/// same answer as counting the bytes of `s`.
pub fn is_valid_ulid_prefix(s: &str) -> (b: bool)
    ensures
        b == valid_prefix(s@),
{
    let n = s.unicode_len();
    if n < 3 || n > 26 {
        return false;
    }
    let mut i: usize = 0;
    while i < n
        invariant
            n == s@.len(),
            i <= n,
            forall|k: int| 0 <= k < i ==> is_prefix_char(#[trigger] s@[k]),
        decreases n - i,
    {
        if !is_prefix_char_exec(s.get_char(i)) {
            return false;
        }
        i = i + 1;
    }
    true
}

/// `s` without its leading white space.
pub open spec fn trim_start_ws(s: Seq<char>) -> Seq<char>
    decreases s.len(),
{
    if s.len() > 0 && is_white_space(s[0]) {
        trim_start_ws(s.drop_first())
    } else {
        s
    }
}

/// `s` without its trailing white space.
pub open spec fn trim_end_ws(s: Seq<char>) -> Seq<char>
    decreases s.len(),
{
    if s.len() > 0 && is_white_space(s.last()) {
        trim_end_ws(s.drop_last())
    } else {
        s
    }
}

/// `s` without leading and trailing white space (what `str::trim` gives).
pub open spec fn trim_ws(s: Seq<char>) -> Seq<char> {
    trim_end_ws(trim_start_ws(s))
}

/// Removes leading and trailing white space.
pub fn trim_text(s: &str) -> (t: String)
    ensures
        t@ == trim_ws(s@),
{
    let n = s.unicode_len();
    let mut a: usize = 0;
    assert(s@.skip(0) =~= s@);
    while a < n && is_white_space_char(s.get_char(a))
        invariant
            n == s@.len(),
            a <= n,
            trim_start_ws(s@) == trim_start_ws(s@.skip(a as int)),
        decreases n - a,
    {
        proof {
            assert(s@.skip(a as int).drop_first() =~= s@.skip(a + 1));
        }
        a = a + 1;
    }
    proof {
        if a < n {
            assert(s@.skip(a as int)[0] == s@[a as int]);
        }
        assert(trim_start_ws(s@.skip(a as int)) == s@.skip(a as int));
        assert(s@.skip(a as int) =~= s@.subrange(a as int, n as int));
    }
    let mut b: usize = n;
    while b > a && is_white_space_char(s.get_char(b - 1))
        invariant
            n == s@.len(),
            a <= b <= n,
            trim_end_ws(s@.subrange(a as int, n as int)) == trim_end_ws(s@.subrange(a as int, b as int)),
        decreases b,
    {
        proof {
            assert(s@.subrange(a as int, b as int).drop_last() =~= s@.subrange(a as int, b - 1));
            assert(s@.subrange(a as int, b as int).last() == s@[b - 1]);
        }
        b = b - 1;
    }
    proof {
        if b > a {
            assert(s@.subrange(a as int, b as int).last() == s@[b - 1]);
        }
    }
    String::from_str(s.substring_char(a, b))
}

/// Splits `s` into its white-space separated words (see `words`).
pub fn split_words(s: &str) -> (ws: Vec<String>)
    ensures
        ws@.map_values(|w: String| w@) == words(s@),
{
    let ghost t = s@;
    let n = s.unicode_len();
    let mut ws: Vec<String> = Vec::new();
    let mut i: usize = 0;
    assert(t.skip(0) =~= t);
    while i < n
        invariant
            t == s@,
            n == t.len(),
            i <= n,
            ws@.map_values(|w: String| w@) + words(t.skip(i as int)) == words(t),
        decreases n - i,
    {
        let c = s.get_char(i);
        if is_white_space_char(c) {
            proof {
                let u = t.skip(i as int);
                assert(u[0] == c);
                assert(u.drop_first() =~= t.skip(i + 1));
            }
            i = i + 1;
        } else {
            let mut j: usize = i + 1;
            while j < n && !is_white_space_char(s.get_char(j))
                invariant
                    t == s@,
                    n == t.len(),
                    i < j <= n,
                    forall|k: int| i <= k < j ==> !is_white_space(#[trigger] t[k]),
                decreases n - j,
            {
                j = j + 1;
            }
            let w = String::from_str(s.substring_char(i, j));
            let ghost before = ws@.map_values(|w: String| w@);
            ws.push(w);
            proof {
                let u = t.skip(i as int);
                assert forall|k: int| 0 <= k < j - i implies !is_white_space(#[trigger] u[k]) by {
                    assert(u[k] == t[i + k]);
                }
                if j < n {
                    assert(u[j - i] == t[j as int]);
                }
                lemma_word_len_from(u, j - i);
                assert(u.take(j - i) =~= t.subrange(i as int, j as int));
                assert(u.skip(j - i) =~= t.skip(j as int));
                assert(words(u) == seq![w@] + words(t.skip(j as int)));
                assert(ws@.map_values(|w: String| w@) =~= before.push(w@));
                assert(before.push(w@) + words(t.skip(j as int)) =~= before + (seq![w@] + words(t.skip(j as int))));
            }
            i = j;
        }
    }
    proof {
        assert(t.skip(n as int) =~= Seq::<char>::empty());
        assert(ws@.map_values(|w: String| w@) + Seq::<Seq<char>>::empty() =~= ws@.map_values(|w: String| w@));
    }
    ws
}

} // verus!
