//! Verified text utilities: equality, search and splitting over `&str`.
//!
//! The manager's protocols are line- and token-oriented: names arrive as a
//! colon-separated list, properties as `KEY=VALUE` lines. These helpers give
//! the token structure a mathematical definition and verified executable
//! counterparts.

use vstd::prelude::*;

verus! {

/// Character-wise equality of two strings.
pub fn str_eq(a: &str, b: &str) -> (r: bool)
    ensures
        r == (a@ == b@),
{
    let alen = a.unicode_len();
    let blen = b.unicode_len();
    if alen != blen {
        proof {
            assert(a@ != b@) by {
                if a@ == b@ {
                    assert(a@.len() == b@.len());
                }
            }
        }
        return false;
    }
    let mut i: usize = 0;
    while i < alen
        invariant
            i <= alen,
            alen == a@.len(),
            alen == b@.len(),
            forall|j: int| 0 <= j < i ==> a@[j] == b@[j],
        decreases alen - i,
    {
        if a.get_char(i) != b.get_char(i) {
            proof {
                assert(a@ != b@) by {
                    if a@ == b@ {
                        assert(a@[i as int] == b@[i as int]);
                    }
                }
            }
            return false;
        }
        i += 1;
    }
    proof {
        assert(a@ =~= b@);
    }
    true
}

/// The index of the first occurrence of a character, or the length of the
/// sequence where it does not occur.
pub open spec fn first_index_of(s: Seq<char>, c: char) -> int
    decreases s.len(),
{
    if s.len() == 0 {
        0
    } else if s[0] == c {
        0
    } else {
        1 + first_index_of(s.skip(1), c)
    }
}

/// What `first_index_of` returns: a position in range, holding the sought
/// character where one exists, with no occurrence before it.
pub proof fn lemma_first_index_of(s: Seq<char>, c: char)
    ensures
        0 <= first_index_of(s, c) <= s.len(),
        first_index_of(s, c) < s.len() ==> s[first_index_of(s, c)] == c,
        forall|j: int| 0 <= j < first_index_of(s, c) ==> s[j] != c,
    decreases s.len(),
{
    if s.len() == 0 {
    } else if s[0] == c {
    } else {
        lemma_first_index_of(s.skip(1), c);
        let r = first_index_of(s, c);
        assert(s.skip(1).len() == s.len() - 1);
        if r < s.len() {
            assert(s.skip(1)[r - 1] == s[r]);
        }
        assert forall|j: int| 0 <= j < r implies s[j] != c by {
            if j > 0 {
                assert(s.skip(1)[j - 1] == s[j]);
            }
        }
    }
}

/// Find the first occurrence of a character in a string.
pub fn find_char(s: &str, c: char) -> (r: Option<usize>)
    ensures
        match r {
            Some(i) => first_index_of(s@, c) == i as int && i < s@.len() && s@[i as int] == c,
            None => first_index_of(s@, c) == s@.len(),
        },
{
    let len = s.unicode_len();
    let mut i: usize = 0;
    while i < len
        invariant
            i <= len,
            len == s@.len(),
            forall|j: int| 0 <= j < i ==> s@[j] != c,
        decreases len - i,
    {
        if s.get_char(i) == c {
            proof {
                lemma_first_index_of(s@, c);
            }
            return Some(i);
        }
        i += 1;
    }
    proof {
        lemma_first_index_of(s@, c);
    }
    None
}

/// The tokens of a sequence split on a separator. Splitting always yields
/// at least one token; an empty input yields one empty token.
pub open spec fn split_chars(s: Seq<char>, c: char) -> Seq<Seq<char>>
    decreases s.len(),
{
    if s.len() == 0 {
        seq![Seq::<char>::empty()]
    } else if s[0] == c {
        seq![Seq::<char>::empty()] + split_chars(s.skip(1), c)
    } else {
        let rest = split_chars(s.skip(1), c);
        seq![seq![s[0]] + rest[0]] + rest.skip(1)
    }
}

/// Splitting never yields an empty token list.
pub proof fn lemma_split_chars_len(s: Seq<char>, c: char)
    ensures
        split_chars(s, c).len() >= 1,
    decreases s.len(),
{
    if s.len() == 0 {
    } else {
        lemma_split_chars_len(s.skip(1), c);
    }
}

/// The views of a sequence of strings.
pub open spec fn views_of(v: Seq<String>) -> Seq<Seq<char>> {
    v.map_values(|t: String| t@)
}

/// Whether a character has the Unicode white-space property: the set
/// `char::is_whitespace` recognizes.
pub open spec fn is_space(c: char) -> bool {
    ||| 9 <= c as int <= 13
    ||| c as int == 32
    ||| c as int == 0x85
    ||| c as int == 0xA0
    ||| c as int == 0x1680
    ||| 0x2000 <= c as int <= 0x200A
    ||| c as int == 0x2028
    ||| c as int == 0x2029
    ||| c as int == 0x202F
    ||| c as int == 0x205F
    ||| c as int == 0x3000
}

/// Whether a character is white space, as `char::is_whitespace` decides.
pub fn is_space_char(c: char) -> (r: bool)
    ensures
        r == is_space(c),
{
    let v = c as u32;
    (9 <= v && v <= 13) || v == 32 || v == 0x85 || v == 0xA0 || v == 0x1680 || (0x2000 <= v && v
        <= 0x200A) || v == 0x2028 || v == 0x2029 || v == 0x202F || v == 0x205F || v == 0x3000
}

/// A sequence without its leading white space.
pub open spec fn trim_start(l: Seq<char>) -> Seq<char>
    decreases l.len(),
{
    if l.len() > 0 && is_space(l[0]) {
        trim_start(l.skip(1))
    } else {
        l
    }
}

/// A sequence without its trailing white space.
pub open spec fn trim_end(l: Seq<char>) -> Seq<char>
    decreases l.len(),
{
    if l.len() > 0 && is_space(l.last()) {
        trim_end(l.drop_last())
    } else {
        l
    }
}

/// A sequence without its leading and trailing white space, as
/// `str::trim` reads a string.
pub open spec fn trim_spec(l: Seq<char>) -> Seq<char> {
    trim_end(trim_start(l))
}

/// Trim leading and trailing white space, as `str::trim` does.
pub fn trim_str<'a>(s: &'a str) -> (r: &'a str)
    ensures
        r@ == trim_spec(s@),
{
    let len = s.unicode_len();
    let mut a: usize = 0;
    proof {
        assert(s@.skip(0) =~= s@);
    }
    while a < len && is_space_char(s.get_char(a))
        invariant
            a <= len,
            len == s@.len(),
            trim_start(s@) == trim_start(s@.skip(a as int)),
        decreases len - a,
    {
        proof {
            assert(s@.skip(a as int).len() == len - a);
            assert(s@.skip(a as int)[0] == s@[a as int]);
            assert(s@.skip(a as int).skip(1) =~= s@.skip(a + 1));
        }
        a += 1;
    }
    proof {
        if a < len {
            assert(s@.skip(a as int)[0] == s@[a as int]);
        } else {
            assert(s@.skip(a as int) =~= Seq::<char>::empty());
        }
        assert(trim_start(s@) == s@.skip(a as int));
        assert(s@.subrange(a as int, len as int) =~= s@.skip(a as int));
    }
    let mut e: usize = len;
    while e > a && is_space_char(s.get_char(e - 1))
        invariant
            a <= e <= len,
            len == s@.len(),
            trim_end(s@.skip(a as int)) == trim_end(s@.subrange(a as int, e as int)),
        decreases e,
    {
        proof {
            assert(s@.subrange(a as int, e as int).len() == e - a);
            assert(s@.subrange(a as int, e as int).last() == s@[e - 1]);
            assert(s@.subrange(a as int, e as int).drop_last() =~= s@.subrange(a as int, e - 1));
        }
        e -= 1;
    }
    proof {
        if e > a {
            assert(s@.subrange(a as int, e as int).last() == s@[e - 1]);
            assert(s@.subrange(a as int, e as int).len() > 0);
        } else {
            assert(s@.subrange(a as int, e as int) =~= Seq::<char>::empty());
        }
        assert(trim_end(s@.subrange(a as int, e as int)) == s@.subrange(a as int, e as int));
        assert(trim_spec(s@) == s@.subrange(a as int, e as int));
    }
    s.substring_char(a, e)
}

/// Relies on `String::push` of std: appends the given character to the
/// end of the string.
pub assume_specification[ String::push ](s: &mut String, c: char)
    ensures
        final(s)@ == old(s)@.push(c),
;

/// Split a string on a separator character, as `str::split` does.
pub fn split_str(s: &str, c: char) -> (r: Vec<String>)
    ensures
        views_of(r@) == split_chars(s@, c),
{
    let len = s.unicode_len();
    let mut done: Vec<String> = Vec::new();
    let mut cur = String::new();
    let mut i: usize = 0;
    proof {
        lemma_split_chars_len(s@, c);
        assert(s@.skip(0) =~= s@);
    }
    while i < len
        invariant
            i <= len,
            len == s@.len(),
            split_chars(s@.skip(i as int), c).len() >= 1,
            split_chars(s@, c) == views_of(done@) + seq![
                cur@ + split_chars(s@.skip(i as int), c)[0],
            ] + split_chars(s@.skip(i as int), c).skip(1),
        decreases len - i,
    {
        let ghost rem = split_chars(s@.skip(i as int), c);
        let ghost rem2 = split_chars(s@.skip(i + 1), c);
        let ghost done0 = done@;
        let ghost cur0 = cur@;
        proof {
            assert(s@.skip(i as int).len() == len - i);
            assert(s@.skip(i as int)[0] == s@[i as int]);
            assert(s@.skip(i as int).skip(1) =~= s@.skip(i + 1));
            lemma_split_chars_len(s@.skip(i + 1), c);
        }
        let ch = s.get_char(i);
        if ch == c {
            done.push(cur);
            cur = String::new();
            proof {
                assert(rem == seq![Seq::<char>::empty()] + rem2);
                assert(views_of(done@) =~= views_of(done0).push(cur0));
                assert(cur@ + rem2[0] =~= rem2[0]);
                assert(rem.skip(1) =~= rem2);
                assert(views_of(done@) + seq![cur@ + rem2[0]] + rem2.skip(1) =~= views_of(done0)
                    + seq![cur0 + rem[0]] + rem.skip(1));
            }
        } else {
            cur.push(ch);
            proof {
                assert(rem == seq![seq![s@[i as int]] + rem2[0]] + rem2.skip(1));
                assert(cur@ + rem2[0] =~= cur0 + rem[0]);
                assert(rem2.skip(1) =~= rem.skip(1));
                assert(views_of(done@) + seq![cur@ + rem2[0]] + rem2.skip(1) =~= views_of(done0)
                    + seq![cur0 + rem[0]] + rem.skip(1));
            }
        }
        i += 1;
    }
    proof {
        let rem = split_chars(s@.skip(len as int), c);
        assert(s@.skip(len as int) =~= Seq::<char>::empty());
        assert(rem =~= seq![Seq::<char>::empty()]);
        assert(cur@ + rem[0] =~= cur@);
        assert(views_of(done@) + seq![cur@ + rem[0]] + rem.skip(1) =~= views_of(done@)
            + seq![cur@]);
        assert(views_of(done@.push(cur)) =~= views_of(done@) + seq![cur@]);
    }
    done.push(cur);
    done
}

} // verus!
