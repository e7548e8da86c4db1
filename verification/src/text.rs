//! Verified text helpers: splitting on a separator character, query-string
//! parameter lookup, decimal rendering of counters, and joining lines.  The
//! session handshake reads its correlation parameters and the notification
//! messages are assembled through these.

use vstd::prelude::*;
use vstd::string::*;

verus! {

/// The index of the first `sep` in `s`, or `s.len()` if there is none.
pub open spec fn find_sep(s: Seq<char>, sep: char) -> int
    decreases s.len(),
{
    if s.len() == 0 {
        0
    } else if s[0] == sep {
        0
    } else {
        1 + find_sep(s.drop_first(), sep)
    }
}

/// If the characters before `i` differ from `sep` and `i` is either the end
/// or a separator, then `i` is where `find_sep` points.
pub proof fn lemma_find_sep_at(s: Seq<char>, sep: char, i: int)
    requires
        0 <= i <= s.len(),
        forall|j: int| 0 <= j < i ==> s[j] != sep,
        i < s.len() ==> s[i] == sep,
    ensures
        find_sep(s, sep) == i,
    decreases s.len(),
{
    if s.len() > 0 && s[0] != sep {
        lemma_find_sep_at(s.drop_first(), sep, i - 1);
    }
}

/// The pieces of `s` between separators, in order; `n + 1` pieces for `n`
/// separators, so an empty `s` yields one empty piece.
pub open spec fn split_chars(s: Seq<char>, sep: char) -> Seq<Seq<char>>
    decreases s.len(),
{
    let i = find_sep(s, sep);
    if 0 <= i < s.len() {
        seq![s.subrange(0, i)] + split_chars(s.subrange(i + 1, s.len() as int), sep)
    } else {
        seq![s]
    }
}

/// Unfolds `split_chars` at a separator position: with `s[start..i]`
/// separator-free and a separator at `i`, the split of the suffix from
/// `start` begins with the piece `s[start..i]`.
proof fn lemma_split_step(s: Seq<char>, sep: char, start: int, i: int)
    requires
        0 <= start <= i < s.len(),
        forall|j: int| start <= j < i ==> s[j] != sep,
        s[i] == sep,
    ensures
        split_chars(s.subrange(start, s.len() as int), sep) == seq![s.subrange(start, i)]
            + split_chars(s.subrange(i + 1, s.len() as int), sep),
{
    let n = s.len() as int;
    let t = s.subrange(start, n);
    lemma_find_sep_at(t, sep, i - start);
    assert(t.subrange(0, i - start) =~= s.subrange(start, i));
    assert(t.subrange(i - start + 1, t.len() as int) =~= s.subrange(i + 1, n));
}

/// A suffix with no separator splits into just itself.
proof fn lemma_split_whole(s: Seq<char>, sep: char, start: int)
    requires
        0 <= start <= s.len(),
        forall|j: int| start <= j < s.len() ==> s[j] != sep,
    ensures
        split_chars(s.subrange(start, s.len() as int), sep) == seq![
            s.subrange(start, s.len() as int),
        ],
{
    let n = s.len() as int;
    let t = s.subrange(start, n);
    lemma_find_sep_at(t, sep, n - start);
}

/// Splits `s` at every `sep`, as `split_chars` describes.
#[verifier::loop_isolation(false)]
pub fn split_str(s: &str, sep: char) -> (parts: Vec<String>)
    ensures
        parts.deep_view() == split_chars(s@, sep),
{
    let n = s.unicode_len();
    let mut parts: Vec<String> = Vec::new();
    let mut start: usize = 0;
    let mut i: usize = 0;
    proof {
        assert(s@.subrange(0, n as int) =~= s@);
    }
    while i < n
        invariant
            start <= i <= n,
            forall|j: int| start <= j < i ==> s@[j] != sep,
            parts.deep_view() + split_chars(s@.subrange(start as int, n as int), sep)
                == split_chars(s@, sep),
        decreases n - i,
    {
        let c = s.get_char(i);
        if c == sep {
            let ghost parts_before = parts.deep_view();
            let piece = s.substring_char(start, i);
            parts.push(String::from_str(piece));
            proof {
                lemma_split_step(s@, sep, start as int, i as int);
                assert(parts.deep_view() =~= parts_before.push(s@.subrange(
                    start as int,
                    i as int,
                )));
                assert(parts.deep_view() + split_chars(
                    s@.subrange(i + 1, n as int),
                    sep,
                ) =~= parts_before + (seq![s@.subrange(start as int, i as int)] + split_chars(
                    s@.subrange(i + 1, n as int),
                    sep,
                )));
            }
            start = i + 1;
        }
        i += 1;
    }
    let ghost parts_before = parts.deep_view();
    let piece = s.substring_char(start, n);
    parts.push(String::from_str(piece));
    proof {
        lemma_split_whole(s@, sep, start as int);
        assert(parts.deep_view() =~= parts_before.push(s@.subrange(start as int, n as int)));
        assert(parts.deep_view() =~= parts_before + seq![s@.subrange(start as int, n as int)]);
    }
    parts
}

/// The key/value reading of one query-string segment: the text before the
/// first `=` and the text between the first and second `=`, or nothing for a
/// segment without `=`.
pub open spec fn pair_of_segment(seg: Seq<char>) -> Option<(Seq<char>, Seq<char>)> {
    let pieces = split_chars(seg, '=');
    if pieces.len() >= 2 {
        Some((pieces[0], pieces[1]))
    } else {
        None
    }
}

/// The value for `key` among `segs`, the last matching segment deciding.
pub open spec fn lookup_segments(segs: Seq<Seq<char>>, key: Seq<char>) -> Option<Seq<char>>
    decreases segs.len(),
{
    if segs.len() == 0 {
        None
    } else {
        match pair_of_segment(segs.last()) {
            Some(p) => if p.0 == key {
                Some(p.1)
            } else {
                lookup_segments(segs.drop_last(), key)
            },
            None => lookup_segments(segs.drop_last(), key),
        }
    }
}

/// The value under `key` in the query string `q` (`a=1&b=2` style): segments
/// split on `&`, each read by `pair_of_segment`, the last match deciding.
/// Values are taken as the raw text between the separators, deliberately:
/// no percent-escape or `+` decoding is applied, so an encoded value comes
/// out still encoded.
pub open spec fn query_param(q: Seq<char>, key: Seq<char>) -> Option<Seq<char>> {
    lookup_segments(split_chars(q, '&'), key)
}

spec fn view_of_opt(o: Option<String>) -> Option<Seq<char>> {
    match o {
        Some(s) => Some(s@),
        None => None,
    }
}

/// Looks `key` up in the query string, as `query_param` describes.
#[verifier::loop_isolation(false)]
pub fn extract_query_param(query: &str, key: &str) -> (r: Option<String>)
    ensures
        match r {
            Some(v) => query_param(query@, key@) == Some(v@),
            None => query_param(query@, key@) is None,
        },
{
    let segs = split_str(query, '&');
    let ghost segs_view = segs.deep_view();
    let mut result: Option<String> = None;
    let mut i: usize = 0;
    proof {
        assert(segs_view.subrange(0, 0) =~= Seq::<Seq<char>>::empty());
    }
    while i < segs.len()
        invariant
            i <= segs@.len(),
            view_of_opt(result) == lookup_segments(segs_view.subrange(0, i as int), key@),
        decreases segs@.len() - i,
    {
        let pieces = split_str(segs[i].as_str(), '=');
        proof {
            assert(segs_view[i as int] == segs@[i as int]@);
            assert(segs_view.subrange(0, i + 1).drop_last() =~= segs_view.subrange(0, i as int));
            assert(segs_view.subrange(0, i + 1).last() == segs_view[i as int]);
        }
        if pieces.len() >= 2 {
            proof {
                assert(pieces.deep_view()[0] == pieces@[0]@);
                assert(pieces.deep_view()[1] == pieces@[1]@);
            }
            if crate::data::str_eq(pieces[0].as_str(), key) {
                result = Some(pieces[1].clone());
            }
        }
        i += 1;
    }
    proof {
        assert(segs_view.subrange(0, segs@.len() as int) =~= segs_view);
    }
    result
}

/// The decimal digit character for `d`.
pub open spec fn dec_digit(d: int) -> char {
    if d == 0 {
        '0'
    } else if d == 1 {
        '1'
    } else if d == 2 {
        '2'
    } else if d == 3 {
        '3'
    } else if d == 4 {
        '4'
    } else if d == 5 {
        '5'
    } else if d == 6 {
        '6'
    } else if d == 7 {
        '7'
    } else if d == 8 {
        '8'
    } else {
        '9'
    }
}

/// The usual decimal rendering of `n`, most significant digit first.
pub open spec fn dec_str(n: nat) -> Seq<char>
    decreases n,
{
    if n < 10 {
        seq![dec_digit(n as int)]
    } else {
        dec_str(n / 10).push(dec_digit((n % 10) as int))
    }
}

fn digit_str(d: u64) -> (r: &'static str)
    requires
        d < 10,
    ensures
        r@ == seq![dec_digit(d as int)],
{
    if d == 0 {
        proof {
            reveal_strlit("0");
            assert("0"@ =~= seq![dec_digit(0)]);
        }
        "0"
    } else if d == 1 {
        proof {
            reveal_strlit("1");
            assert("1"@ =~= seq![dec_digit(1)]);
        }
        "1"
    } else if d == 2 {
        proof {
            reveal_strlit("2");
            assert("2"@ =~= seq![dec_digit(2)]);
        }
        "2"
    } else if d == 3 {
        proof {
            reveal_strlit("3");
            assert("3"@ =~= seq![dec_digit(3)]);
        }
        "3"
    } else if d == 4 {
        proof {
            reveal_strlit("4");
            assert("4"@ =~= seq![dec_digit(4)]);
        }
        "4"
    } else if d == 5 {
        proof {
            reveal_strlit("5");
            assert("5"@ =~= seq![dec_digit(5)]);
        }
        "5"
    } else if d == 6 {
        proof {
            reveal_strlit("6");
            assert("6"@ =~= seq![dec_digit(6)]);
        }
        "6"
    } else if d == 7 {
        proof {
            reveal_strlit("7");
            assert("7"@ =~= seq![dec_digit(7)]);
        }
        "7"
    } else if d == 8 {
        proof {
            reveal_strlit("8");
            assert("8"@ =~= seq![dec_digit(8)]);
        }
        "8"
    } else {
        proof {
            reveal_strlit("9");
            assert("9"@ =~= seq![dec_digit(9)]);
        }
        "9"
    }
}

/// Renders `n` in decimal, as `dec_str` describes.
pub fn u64_to_string(n: u64) -> (s: String)
    ensures
        s@ == dec_str(n as nat),
    decreases n,
{
    if n < 10 {
        String::from_str(digit_str(n))
    } else {
        let mut s = u64_to_string(n / 10);
        s.append(digit_str(n % 10));
        proof {
            assert(dec_str((n / 10) as nat) + seq![dec_digit((n % 10) as int)] =~= dec_str(
                (n / 10) as nat,
            ).push(dec_digit((n % 10) as int)));
        }
        s
    }
}

/// `items` joined by `sep`, with no leading or trailing separator.
pub open spec fn join_with(items: Seq<Seq<char>>, sep: Seq<char>) -> Seq<char>
    decreases items.len(),
{
    if items.len() == 0 {
        Seq::empty()
    } else if items.len() == 1 {
        items[0]
    } else {
        join_with(items.drop_last(), sep) + sep + items.last()
    }
}

/// Joins `items` with a newline between them, as `join_with` describes.
#[verifier::loop_isolation(false)]
pub fn join_lines(items: &Vec<String>) -> (r: String)
    ensures
        r@ == join_with(items.deep_view(), "\n"@),
{
    let ghost items_view = items.deep_view();
    let mut out = String::new();
    let mut i: usize = 0;
    proof {
        assert(items_view.subrange(0, 0) =~= Seq::<Seq<char>>::empty());
    }
    while i < items.len()
        invariant
            i <= items@.len(),
            out@ == join_with(items_view.subrange(0, i as int), "\n"@),
        decreases items@.len() - i,
    {
        proof {
            assert(items_view[i as int] == items@[i as int]@);
            assert(items_view.subrange(0, i + 1).drop_last() =~= items_view.subrange(0, i as int));
            assert(items_view.subrange(0, i + 1).last() == items_view[i as int]);
        }
        if i > 0 {
            out.append("\n");
        }
        out.append(items[i].as_str());
        i += 1;
    }
    proof {
        assert(items_view.subrange(0, items@.len() as int) =~= items_view);
    }
    out
}

} // verus!
