//! Small verified helpers for building and inspecting strings.

use vstd::prelude::*;
use vstd::string::StringExecFns;
use vstd::string::StrSliceExecFns;

verus! {

/// The parts joined by the separator, in order.
pub open spec fn join_with(parts: Seq<Seq<char>>, sep: Seq<char>) -> Seq<char>
    decreases parts.len(),
{
    if parts.len() == 0 {
        Seq::empty()
    } else if parts.len() == 1 {
        parts[0]
    } else {
        join_with(parts.drop_last(), sep) + sep + parts.last()
    }
}

/// Join the strings with the separator, as the parts stand.
pub fn join_strings(parts: &Vec<String>, sep: &str) -> (r: String)
    ensures
        r@ == join_with(parts@.map_values(|s: String| s@), sep@),
{
    let ghost views = parts@.map_values(|s: String| s@);
    let mut r = String::new();
    let mut i: usize = 0;
    while i < parts.len()
        invariant
            i <= parts.len(),
            views == parts@.map_values(|s: String| s@),
            r@ == join_with(views.take(i as int), sep@),
        decreases parts.len() - i,
    {
        if i > 0 {
            r.append(sep);
        }
        r.append(parts[i].as_str());
        proof {
            assert(views.take(i + 1).drop_last() =~= views.take(i as int));
            assert(views.take(i + 1).last() == views[i as int]);
        }
        i = i + 1;
    }
    proof {
        assert(views.take(parts@.len() as int) =~= views);
    }
    r
}

/// The characters of the string, in order.
pub fn str_chars(s: &str) -> (r: Vec<char>)
    ensures
        r@ == s@,
{
    let n = s.unicode_len();
    let mut r: Vec<char> = Vec::new();
    let mut i: usize = 0;
    while i < n
        invariant
            n == s@.len(),
            i <= n,
            r@ == s@.take(i as int),
        decreases n - i,
    {
        r.push(s.get_char(i));
        proof {
            assert(s@.take(i + 1) =~= s@.take(i as int).push(s@[i as int]));
        }
        i = i + 1;
    }
    proof {
        assert(s@.take(n as int) =~= s@);
    }
    r
}

/// Relies on `String::push` of std: appends exactly the one character.
#[verifier::external_body]
pub(crate) fn push_char(s: &mut String, c: char)
    ensures
        final(s)@ == old(s)@.push(c),
{
    s.push(c);
}

/// The string holding exactly the given characters.
pub fn chars_to_string(chars: &Vec<char>) -> (r: String)
    ensures
        r@ == chars@,
{
    let mut r = String::new();
    let mut i: usize = 0;
    while i < chars.len()
        invariant
            i <= chars.len(),
            r@ == chars@.take(i as int),
        decreases chars.len() - i,
    {
        push_char(&mut r, chars[i]);
        proof {
            assert(chars@.take(i + 1) =~= chars@.take(i as int).push(chars@[i as int]));
        }
        i = i + 1;
    }
    proof {
        assert(chars@.take(chars@.len() as int) =~= chars@);
    }
    r
}


/// The views of the strings of a vector, in order.
pub open spec fn strings_view(s: Seq<String>) -> Seq<Seq<char>> {
    s.map_values(|x: String| x@)
}

/// Whether two strings hold the same characters.
pub fn str_eq(a: &str, b: &str) -> (r: bool)
    ensures
        r == (a@ == b@),
{
    let n = a.unicode_len();
    let m = b.unicode_len();
    if n != m {
        proof {
            assert(a@ != b@);
        }
        return false;
    }
    let mut i: usize = 0;
    while i < n
        invariant
            n == a@.len(),
            n == b@.len(),
            i <= n,
            forall|k: int| 0 <= k < i ==> a@[k] == b@[k],
        decreases n - i,
    {
        if a.get_char(i) != b.get_char(i) {
            proof {
                assert(a@ != b@);
            }
            return false;
        }
        i = i + 1;
    }
    proof {
        assert(a@ =~= b@);
    }
    true
}

/// The string with one character inserted at a character position.
pub fn insert_char_at(s: &str, i: usize, c: char) -> (r: String)
    requires
        i <= s@.len(),
    ensures
        r@ == s@.insert(i as int, c),
{
    let mut chars = str_chars(s);
    chars.insert(i, c);
    let r = chars_to_string(&chars);
    proof {
        assert(s@.insert(i as int, c) =~= s@.subrange(0, i as int).push(c) + s@.subrange(
            i as int,
            s@.len() as int,
        ));
        assert(r@ =~= s@.insert(i as int, c));
    }
    r
}

/// The string with the character at a character position removed.
pub fn remove_char_at(s: &str, i: usize) -> (r: String)
    requires
        i < s@.len(),
    ensures
        r@ == s@.remove(i as int),
{
    let mut chars = str_chars(s);
    chars.remove(i);
    let r = chars_to_string(&chars);
    proof {
        assert(r@ =~= s@.remove(i as int));
    }
    r
}


/// The string without leading spaces.
pub open spec fn trim_front(s: Seq<char>) -> Seq<char>
    decreases s.len(),
{
    if s.len() > 0 && s[0] == ' ' {
        trim_front(s.drop_first())
    } else {
        s
    }
}

/// The string without trailing spaces.
pub open spec fn trim_back(s: Seq<char>) -> Seq<char>
    decreases s.len(),
{
    if s.len() > 0 && s.last() == ' ' {
        trim_back(s.drop_last())
    } else {
        s
    }
}

/// The characters trimmed of leading and trailing spaces.
pub open spec fn spec_trim(s: Seq<char>) -> Seq<char> {
    trim_back(trim_front(s))
}

/// Trim leading and trailing spaces from the characters.
#[verifier::loop_isolation(false)]
pub fn trim_spaces(chars: &Vec<char>) -> (r: Vec<char>)
    ensures
        r@ == spec_trim(chars@),
{
    let ghost u = chars@;
    let mut start: usize = 0;
    proof {
        assert(u.skip(0) =~= u);
    }
    while start < chars.len() && chars[start] == ' '
        invariant
            start <= u.len(),
            trim_front(u) == trim_front(u.skip(start as int)),
        decreases u.len() - start,
    {
        proof {
            assert(u.skip(start as int)[0] == ' ');
            assert(u.skip(start as int).drop_first() =~= u.skip(start as int + 1));
        }
        start = start + 1;
    }
    let mut trimmed: Vec<char> = Vec::new();
    let mut k: usize = start;
    while k < chars.len()
        invariant
            start <= k <= u.len(),
            trimmed@ == u.skip(start as int).take(k - start),
        decreases u.len() - k,
    {
        trimmed.push(chars[k]);
        proof {
            assert(u.skip(start as int).take(k + 1 - start) =~= u.skip(start as int).take(
                k - start,
            ).push(u[k as int]));
        }
        k = k + 1;
    }
    proof {
        assert(u.skip(start as int).take(u.len() - start) =~= u.skip(start as int));
        assert(trimmed@ == trim_front(u));
    }
    let ghost v = trimmed@;
    while trimmed.len() > 0 && trimmed[trimmed.len() - 1] == ' '
        invariant
            trim_back(v) == trim_back(trimmed@),
        decreases trimmed.len(),
    {
        trimmed.pop();
    }
    proof {
        assert(trimmed@ == trim_back(v));
    }
    trimmed
}



/// Whether a character is ASCII whitespace.
pub open spec fn is_ws(c: char) -> bool {
    c == ' ' || c == '\t' || c == '\n' || c == '\r'
}

/// The words a string splits into at ASCII whitespace, empties dropped.
pub open spec fn split_ws_rec(s: Seq<char>, current: Seq<char>, acc: Seq<Seq<char>>) -> Seq<
    Seq<char>,
>
    decreases s.len(),
{
    if s.len() == 0 {
        if current.len() > 0 {
            acc.push(current)
        } else {
            acc
        }
    } else if is_ws(s[0]) {
        if current.len() > 0 {
            split_ws_rec(s.drop_first(), Seq::empty(), acc.push(current))
        } else {
            split_ws_rec(s.drop_first(), current, acc)
        }
    } else {
        split_ws_rec(s.drop_first(), current.push(s[0]), acc)
    }
}

/// The words of a string.
pub open spec fn spec_split_whitespace(s: Seq<char>) -> Seq<Seq<char>> {
    split_ws_rec(s, Seq::empty(), Seq::empty())
}

/// Split a string into its whitespace-separated words.
#[verifier::loop_isolation(false)]
pub fn split_whitespace_words(s: &str) -> (r: Vec<String>)
    ensures
        strings_view(r@) == spec_split_whitespace(s@),
{
    let chars = str_chars(s);
    let ghost u = s@;
    let mut words: Vec<String> = Vec::new();
    let mut current: Vec<char> = Vec::new();
    let mut i: usize = 0;
    proof {
        assert(u.skip(0) =~= u);
        assert(current@ =~= Seq::<char>::empty());
        assert(strings_view(words@) =~= Seq::<Seq<char>>::empty());
    }
    while i < chars.len()
        invariant
            i <= u.len(),
            chars@ == u,
            spec_split_whitespace(u) == split_ws_rec(
                u.skip(i as int),
                current@,
                strings_view(words@),
            ),
        decreases u.len() - i,
    {
        let c = chars[i];
        proof {
            assert(u.skip(i as int)[0] == c);
            assert(u.skip(i as int).drop_first() =~= u.skip(i as int + 1));
        }
        if c == ' ' || c == '\t' || c == '\n' || c == '\r' {
            if !current.is_empty() {
                let word = chars_to_string(&current);
                let ghost prev = words@;
                words.push(word);
                current = Vec::new();
                proof {
                    assert(strings_view(words@) =~= strings_view(prev).push(words@.last()@));
                }
            }
        } else {
            current.push(c);
        }
        i = i + 1;
    }
    proof {
        assert(u.skip(u.len() as int) =~= Seq::<char>::empty());
    }
    if !current.is_empty() {
        let word = chars_to_string(&current);
        let ghost prev = words@;
        words.push(word);
        proof {
            assert(strings_view(words@) =~= strings_view(prev).push(words@.last()@));
        }
    }
    words
}


} // verus!
