//! Verified text utilities over `Seq<char>` views: substring search, ASCII
//! whitespace trimming, splitting at a separator character, and joining.

use vstd::prelude::*;

verus! {

/// `needle` occurs contiguously somewhere inside `hay`.
/// The empty sequence is a substring of everything.
pub open spec fn is_substring(hay: Seq<char>, needle: Seq<char>) -> bool {
    exists|i: int| 0 <= i && i + needle.len() <= hay.len() && #[trigger] hay.subrange(i, i + needle.len()) == needle
}

/// Every sequence contains itself.
pub proof fn lemma_substring_refl(s: Seq<char>)
    ensures
        is_substring(s, s),
{
    assert(s.subrange(0, 0 + s.len() as int) =~= s);
}

/// The empty sequence is a substring of every sequence.
pub proof fn lemma_substring_empty(s: Seq<char>)
    ensures
        is_substring(s, Seq::<char>::empty()),
{
    assert(s.subrange(0, 0 + Seq::<char>::empty().len() as int) =~= Seq::<char>::empty());
}

/// Whether `hay` contains `needle` starting exactly at position `i`.
fn matches_at(hay: &str, needle: &str, i: usize, hay_len: usize, needle_len: usize) -> (r: bool)
    requires
        hay_len == hay@.len(),
        needle_len == needle@.len(),
        i + needle_len <= hay_len,
    ensures
        r == (hay@.subrange(i as int, i + needle@.len()) == needle@),
{
    let mut j: usize = 0;
    while j < needle_len
        invariant
            hay_len == hay@.len(),
            needle_len == needle@.len(),
            i + needle_len <= hay_len,
            j <= needle_len,
            forall|k: int| 0 <= k < j ==> hay@[i + k] == needle@[k],
        decreases needle_len - j,
    {
        if hay.get_char(i + j) != needle.get_char(j) {
            assert(hay@.subrange(i as int, i + needle@.len())[j as int] != needle@[j as int]);
            return false;
        }
        j = j + 1;
    }
    assert(hay@.subrange(i as int, i + needle@.len()) =~= needle@);
    true
}

/// Substring test: does `hay` contain `needle`?
pub fn contains_sub(hay: &str, needle: &str) -> (r: bool)
    ensures
        r == is_substring(hay@, needle@),
{
    let hay_len = hay.unicode_len();
    let needle_len = needle.unicode_len();
    if needle_len > hay_len {
        return false;
    }
    if needle_len == 0 {
        proof {
            lemma_substring_empty(hay@);
            assert(needle@ =~= Seq::<char>::empty());
        }
        return true;
    }
    let mut i: usize = 0;
    let end = hay_len - needle_len;
    while i <= end
        invariant
            hay_len == hay@.len(),
            needle_len == needle@.len(),
            1 <= needle_len <= hay_len,
            end == hay_len - needle_len,
            i <= end + 1,
            forall|k: int| 0 <= k < i ==> #[trigger] hay@.subrange(k, k + needle@.len()) != needle@,
        decreases end + 1 - i,
    {
        if matches_at(hay, needle, i, hay_len, needle_len) {
            return true;
        }
        i = i + 1;
    }
    false
}

/// Character-wise equality of two string slices.
pub fn str_eq(a: &str, b: &str) -> (r: bool)
    ensures
        r == (a@ == b@),
{
    let a_len = a.unicode_len();
    let b_len = b.unicode_len();
    if a_len != b_len {
        return false;
    }
    let mut i: usize = 0;
    while i < a_len
        invariant
            a_len == a@.len(),
            a_len == b@.len(),
            i <= a_len,
            forall|k: int| 0 <= k < i ==> a@[k] == b@[k],
        decreases a_len - i,
    {
        if a.get_char(i) != b.get_char(i) {
            return false;
        }
        i = i + 1;
    }
    proof {
        assert(a@ =~= b@);
    }
    true
}

/// Relies on `String::push`: appends the given character to the end of the string.
pub assume_specification[ String::push ](s: &mut String, ch: char)
    ensures
        final(s)@ == old(s)@.push(ch),
;

/// Builds an owned string out of a vector of characters.
pub fn string_from_chars(chars: &Vec<char>) -> (r: String)
    ensures
        r@ == chars@,
{
    let mut r = String::new();
    let mut i: usize = 0;
    while i < chars.len()
        invariant
            i <= chars.len(),
            r@ == chars@.take(i as int),
        decreases chars.len() - i,
    {
        r.push(chars[i]);
        assert(chars@.take(i as int).push(chars@[i as int]) =~= chars@.take(i + 1));
        i = i + 1;
    }
    assert(chars@.take(chars@.len() as int) =~= chars@);
    r
}

/// Collects the characters of a string slice into a vector.
pub fn chars_of_str(s: &str) -> (r: Vec<char>)
    ensures
        r@ == s@,
{
    let len = s.unicode_len();
    let mut r: Vec<char> = Vec::new();
    let mut i: usize = 0;
    while i < len
        invariant
            len == s@.len(),
            i <= len,
            r@ == s@.take(i as int),
        decreases len - i,
    {
        r.push(s.get_char(i));
        assert(s@.take(i as int).push(s@[i as int]) =~= s@.take(i + 1));
        i = i + 1;
    }
    assert(s@.take(len as int) =~= s@);
    r
}

/// The ASCII whitespace characters that trimming removes.
pub open spec fn is_space(c: char) -> bool {
    c == ' ' || c == '\t' || c == '\n' || c == '\r'
}

/// `s` without its leading whitespace.
pub open spec fn trim_start_spec(s: Seq<char>) -> Seq<char>
    decreases s.len(),
{
    if s.len() > 0 && is_space(s[0]) {
        trim_start_spec(s.drop_first())
    } else {
        s
    }
}

/// `s` without its trailing whitespace.
pub open spec fn trim_end_spec(s: Seq<char>) -> Seq<char>
    decreases s.len(),
{
    if s.len() > 0 && is_space(s.last()) {
        trim_end_spec(s.drop_last())
    } else {
        s
    }
}

/// `s` without leading and trailing whitespace.
pub open spec fn trim_spec(s: Seq<char>) -> Seq<char> {
    trim_end_spec(trim_start_spec(s))
}

fn is_space_exec(c: char) -> (r: bool)
    ensures
        r == is_space(c),
{
    c == ' ' || c == '\t' || c == '\n' || c == '\r'
}

/// Copies `s` with leading and trailing ASCII whitespace removed.
pub fn trim(s: &str) -> (r: String)
    ensures
        r@ == trim_spec(s@),
{
    let len = s.unicode_len();
    let mut start: usize = 0;
    proof {
        assert(s@.subrange(0, len as int) =~= s@);
    }
    while start < len && is_space_exec(s.get_char(start))
        invariant
            len == s@.len(),
            start <= len,
            trim_start_spec(s@) == trim_start_spec(s@.subrange(start as int, len as int)),
        decreases len - start,
    {
        proof {
            let rest = s@.subrange(start as int, len as int);
            assert(rest[0] == s@[start as int]);
            assert(rest.drop_first() =~= s@.subrange(start + 1, len as int));
        }
        start = start + 1;
    }
    proof {
        let rest = s@.subrange(start as int, len as int);
        if start < len {
            assert(rest[0] == s@[start as int]);
        }
        assert(trim_start_spec(s@) == rest);
    }
    let mut end: usize = len;
    while end > start && is_space_exec(s.get_char(end - 1))
        invariant
            len == s@.len(),
            start <= end <= len,
            trim_start_spec(s@) == s@.subrange(start as int, len as int),
            trim_end_spec(s@.subrange(start as int, len as int)) == trim_end_spec(
                s@.subrange(start as int, end as int),
            ),
        decreases end,
    {
        proof {
            let cur = s@.subrange(start as int, end as int);
            assert(cur.last() == s@[end - 1]);
            assert(cur.drop_last() =~= s@.subrange(start as int, end - 1));
        }
        end = end - 1;
    }
    proof {
        let cur = s@.subrange(start as int, end as int);
        if end > start {
            assert(cur.last() == s@[end - 1]);
        }
        assert(trim_spec(s@) == cur);
    }
    let piece = s.substring_char(start, end);
    piece.to_owned()
}

/// Splitting a sequence of characters at every occurrence of `sep`.
/// The empty input yields a single empty piece, as `str::split` does.
pub open spec fn split_spec(s: Seq<char>, sep: char) -> Seq<Seq<char>>
    decreases s.len(),
{
    if s.len() == 0 {
        seq![Seq::<char>::empty()]
    } else if s[0] == sep {
        seq![Seq::<char>::empty()] + split_spec(s.drop_first(), sep)
    } else {
        let rest = split_spec(s.drop_first(), sep);
        rest.update(0, seq![s[0]] + rest[0])
    }
}

/// Splitting never yields an empty list of pieces.
pub proof fn lemma_split_nonempty(s: Seq<char>, sep: char)
    ensures
        split_spec(s, sep).len() >= 1,
    decreases s.len(),
{
    if s.len() > 0 {
        lemma_split_nonempty(s.drop_first(), sep);
    }
}

/// Splits `s` into the pieces between occurrences of `sep`, as `str::split`
/// on a single-character pattern does: no trimming, empty pieces kept.
pub fn split(s: &str, sep: char) -> (r: Vec<String>)
    ensures
        r.deep_view() == split_spec(s@, sep),
{
    let len = s.unicode_len();
    let mut done: Vec<String> = Vec::new();
    let mut cur: Vec<char> = Vec::new();
    let mut i: usize = 0;
    proof {
        assert(s@.subrange(0, len as int) =~= s@);
        lemma_split_nonempty(s@, sep);
        assert(done.deep_view() + prepend_first(cur@, split_spec(s@, sep)) =~~= split_spec(
            s@,
            sep,
        ));
    }
    while i < len
        invariant
            len == s@.len(),
            i <= len,
            split_spec(s@, sep) == done.deep_view() + prepend_first(
                cur@,
                split_spec(s@.subrange(i as int, len as int), sep),
            ),
        decreases len - i,
    {
        let ghost rem = s@.subrange(i as int, len as int);
        let ghost rem2 = s@.subrange(i + 1, len as int);
        proof {
            assert(rem[0] == s@[i as int]);
            assert(rem.drop_first() =~= rem2);
            lemma_split_nonempty(rem2, sep);
        }
        let c = s.get_char(i);
        if c == sep {
            let ghost cur_old = cur@;
            let ghost done_old = done.deep_view();
            let piece = string_from_chars(&cur);
            done.push(piece);
            cur = Vec::new();
            proof {
                let rest = split_spec(rem2, sep);
                assert(split_spec(rem, sep) == seq![Seq::<char>::empty()] + rest);
                assert(prepend_first(cur_old, split_spec(rem, sep)) =~~= seq![cur_old] + rest);
                assert(done.deep_view() =~~= done_old + seq![cur_old]);
                assert(prepend_first(cur@, rest) =~~= rest);
                assert(done.deep_view() + prepend_first(cur@, rest) =~~= done_old + prepend_first(
                    cur_old,
                    split_spec(rem, sep),
                ));
            }
        } else {
            let ghost cur_old = cur@;
            cur.push(c);
            proof {
                let rest = split_spec(rem2, sep);
                assert(split_spec(rem, sep) == rest.update(0, seq![s@[i as int]] + rest[0]));
                assert(prepend_first(cur_old, split_spec(rem, sep)) =~~= prepend_first(
                    cur@,
                    rest,
                ));
            }
        }
        i = i + 1;
    }
    let ghost done_old = done.deep_view();
    proof {
        assert(s@.subrange(len as int, len as int) =~= Seq::<char>::empty());
        assert(prepend_first(cur@, split_spec(Seq::<char>::empty(), sep)) =~~= seq![cur@]);
    }
    let last_piece = string_from_chars(&cur);
    done.push(last_piece);
    proof {
        assert(done.deep_view() =~~= done_old + seq![cur@]);
        assert(done.deep_view() =~~= split_spec(s@, sep));
    }
    done
}

/// The first piece of `pieces` with `prefix` glued onto its front.
pub open spec fn prepend_first(prefix: Seq<char>, pieces: Seq<Seq<char>>) -> Seq<Seq<char>> {
    pieces.update(0, prefix + pieces[0])
}

/// The pieces of `pieces` glued together with `delim` between them.
pub open spec fn join_spec(pieces: Seq<Seq<char>>, delim: Seq<char>) -> Seq<char>
    decreases pieces.len(),
{
    if pieces.len() == 0 {
        Seq::<char>::empty()
    } else if pieces.len() == 1 {
        pieces[0]
    } else {
        pieces[0] + delim + join_spec(pieces.drop_first(), delim)
    }
}

/// Joins the strings of `pieces` with `delim` between consecutive entries.
pub fn join(pieces: &Vec<String>, delim: &str) -> (r: String)
    ensures
        r@ == join_spec(pieces.deep_view(), delim@),
{
    let ghost pv = pieces.deep_view();
    if pieces.len() == 0 {
        return String::new();
    }
    let mut r: String = pieces[0].clone();
    let mut i: usize = 1;
    proof {
        if pieces.len() > 1 {
            assert(pv.drop_first() =~= pv.subrange(1, pv.len() as int));
            assert(join_spec(pv, delim@) == pv[0] + delim@ + join_spec(
                pv.subrange(1, pv.len() as int),
                delim@,
            ));
        }
    }
    while i < pieces.len()
        invariant
            pv == pieces.deep_view(),
            pv.len() == pieces@.len(),
            1 <= i <= pieces.len(),
            i < pieces.len() ==> join_spec(pv, delim@) == r@ + delim@ + join_spec(
                pv.subrange(i as int, pv.len() as int),
                delim@,
            ),
            i == pieces.len() ==> join_spec(pv, delim@) == r@,
        decreases pieces.len() - i,
    {
        let ghost rem = pv.subrange(i as int, pv.len() as int);
        let ghost r_old = r@;
        proof {
            assert(rem[0] == pv[i as int]);
            assert(rem.drop_first() =~= pv.subrange(i + 1, pv.len() as int));
        }
        r.append(delim);
        r.append(pieces[i].as_str());
        proof {
            assert(r@ =~= r_old + delim@ + rem[0]);
            if i + 1 < pieces.len() {
                assert(join_spec(rem, delim@) == rem[0] + delim@ + join_spec(
                    pv.subrange(i + 1, pv.len() as int),
                    delim@,
                ));
                assert(r_old + delim@ + join_spec(rem, delim@) =~= r@ + delim@ + join_spec(
                    pv.subrange(i + 1, pv.len() as int),
                    delim@,
                ));
            } else {
                assert(rem.len() == 1);
                assert(join_spec(rem, delim@) == rem[0]);
                assert(r_old + delim@ + join_spec(rem, delim@) =~= r@);
            }
        }
        i = i + 1;
    }
    r
}

} // verus!
