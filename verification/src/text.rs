//! Characters, words and numbers: the small text vocabulary of the crate.
//!
//! Text is modelled as the sequence of its characters. Every function here
//! is stated against a specification function over `Seq<char>`.

use vstd::prelude::*;

verus! {

/// `String::push` appends one character and leaves the rest as it was.
pub assume_specification[ String::push ](s: &mut String, c: char)
    ensures
        final(s)@ == old(s)@.push(c),
;

/// The characters of `s`, in order.
pub fn chars_of(s: &str) -> (r: Vec<char>)
    ensures
        r@ == s@,
{
    let mut out: Vec<char> = Vec::new();
    for c in it: s.chars()
        invariant
            out@ == it.seq().take(it.index() as int),
    {
        out.push(c);
    }
    assert(out@ =~= s@);
    out
}

/// The string made of the characters `s[from..to]`.
pub fn string_from(s: &Vec<char>, from: usize, to: usize) -> (r: String)
    requires
        from <= to <= s@.len(),
    ensures
        r@ == s@.subrange(from as int, to as int),
{
    let mut out = String::new();
    let mut i: usize = from;
    while i < to
        invariant
            from <= i <= to <= s@.len(),
            out@ == s@.subrange(from as int, i as int),
        decreases to - i,
    {
        out.push(s[i]);
        i += 1;
        assert(out@ =~= s@.subrange(from as int, i as int));
    }
    out
}

/// Whether two texts are equal.
pub fn same(a: &str, b: &str) -> (r: bool)
    ensures
        r == (a@ == b@),
{
    a.to_owned() == b.to_owned()
}

/// The text that a C string can carry: a text with a NUL character in it
/// becomes empty.
pub open spec fn c_view(s: Seq<char>) -> Seq<char> {
    if s.contains('\0') {
        Seq::empty()
    } else {
        s
    }
}

/// What a C string carries holds no NUL character.
pub proof fn c_strings_hold_no_nul(s: Seq<char>)
    ensures
        !c_view(s).contains('\0'),
{
}

/// A text without a NUL character is carried as it is; one with it is not
/// carried at all.
pub proof fn c_strings_carry_the_text(s: Seq<char>)
    ensures
        !s.contains('\0') ==> c_view(s) == s,
        s.contains('\0') ==> c_view(s).len() == 0,
{
}

/// Makes a text fit for a C string.
pub fn c_text(s: &str) -> (r: String)
    ensures
        r@ == c_view(s@),
{
    let chars = chars_of(s);
    let at: usize = find(&chars, '\0');
    proof {
        lemma_first_at(s@, '\0');
    }
    if at < chars.len() {
        String::new()
    } else {
        s.to_owned()
    }
}

/// Text as a list of strings: the characters of each.
pub open spec fn views(v: Seq<String>) -> Seq<Seq<char>> {
    v.map_values(|s: String| s@)
}

/// The views of a list are those of its texts, each in its place.
pub proof fn views_keep_their_places(v: Seq<String>)
    ensures
        views(v).len() == v.len(),
        forall|i: int| 0 <= i < v.len() ==> #[trigger] views(v)[i] == v[i]@,
{
}

/// The pieces of `s` between the occurrences of `sep`. A text without `sep`
/// is a single piece; an empty text is a single empty piece.
pub open spec fn pieces(s: Seq<char>, sep: char) -> Seq<Seq<char>>
    decreases s.len(),
{
    if s.len() == 0 {
        seq![Seq::<char>::empty()]
    } else {
        let before = pieces(s.drop_last(), sep);
        if s.last() == sep {
            before.push(Seq::empty())
        } else {
            before.drop_last().push(before.last().push(s.last()))
        }
    }
}

/// There is always at least one piece.
pub proof fn lemma_pieces_nonempty(s: Seq<char>, sep: char)
    ensures
        pieces(s, sep).len() >= 1,
    decreases s.len(),
{
    if s.len() > 0 {
        lemma_pieces_nonempty(s.drop_last(), sep);
    }
}

/// Pieces with `sep` between them.
pub open spec fn joined_with(parts: Seq<Seq<char>>, sep: char) -> Seq<char>
    decreases parts.len(),
{
    if parts.len() == 0 {
        Seq::empty()
    } else if parts.len() == 1 {
        parts[0]
    } else {
        joined_with(parts.drop_last(), sep).push(sep) + parts.last()
    }
}

/// Joining puts the separator between the parts, in their order, and nowhere
/// else.
pub proof fn joining_keeps_the_order(parts: Seq<Seq<char>>, last: Seq<char>, sep: char)
    ensures
        joined_with(seq![last], sep) == last,
        parts.len() > 0 ==> joined_with(parts.push(last), sep) == joined_with(parts, sep) + seq![sep]
            + last,
{
    assert(parts.push(last).drop_last() =~= parts);
    let whole = joined_with(parts, sep);
    assert(whole.push(sep) + last =~= whole + seq![sep] + last);
}

/// Splitting loses nothing: the pieces with `sep` between them are the text,
/// and no piece holds `sep`.
pub proof fn pieces_make_the_text(s: Seq<char>, sep: char)
    ensures
        joined_with(pieces(s, sep), sep) == s,
        forall|i: int|
            0 <= i < pieces(s, sep).len() ==> !(#[trigger] pieces(s, sep)[i]).contains(sep),
    decreases s.len(),
{
    let all = pieces(s, sep);
    if s.len() == 0 {
        assert(joined_with(all, sep) =~= s);
    } else {
        let before = pieces(s.drop_last(), sep);
        pieces_make_the_text(s.drop_last(), sep);
        lemma_pieces_nonempty(s.drop_last(), sep);
        let c = s.last();
        assert(all.drop_last() =~= if c == sep {
            before
        } else {
            before.drop_last()
        });
        if c == sep {
            assert(joined_with(all, sep) =~= s);
        } else {
            assert(joined_with(all, sep) =~= joined_with(before, sep).push(c));
            assert(joined_with(all, sep) =~= s);
        }
        assert forall|i: int| 0 <= i < all.len() implies !(#[trigger] all[i]).contains(sep) by {
            if i < before.len() - 1 || (c == sep && i < before.len()) {
                assert(all[i] == before[i]);
            } else if c != sep {
                let grown = before.last();
                assert(grown == before[before.len() - 1]);
                assert(all[i] == grown.push(c));
                if all[i].contains(sep) {
                    let k = choose|k: int| 0 <= k < all[i].len() && all[i][k] == sep;
                    assert(grown[k] == sep);
                }
            }
        }
    }
}

proof fn lemma_pieces_push(s: Seq<char>, more: Seq<char>, sep: char)
    requires
        !more.contains(sep),
    ensures
        pieces(s + more, sep) == pieces(s, sep).drop_last().push(pieces(s, sep).last() + more),
    decreases more.len(),
{
    lemma_pieces_nonempty(s, sep);
    let before = pieces(s, sep);
    if more.len() == 0 {
        assert(s + more =~= s);
        assert(before.last() + more =~= before.last());
        assert(before =~= before.drop_last().push(before.last()));
    } else {
        let rest = more.drop_last();
        assert forall|i: int| 0 <= i < rest.len() implies rest[i] != sep by {
            assert(more[i] == rest[i]);
        }
        lemma_pieces_push(s, rest, sep);
        assert((s + more).drop_last() =~= s + rest);
        assert(more[more.len() - 1] != sep);
        let most = pieces(s + rest, sep);
        assert(most.drop_last() =~= before.drop_last());
        assert((before.last() + rest).push(more.last()) =~= before.last() + more);
    }
}

/// Joining loses nothing: texts without `sep` that are joined with it come
/// apart again.
pub proof fn splitting_undoes_joining(parts: Seq<Seq<char>>, sep: char)
    requires
        parts.len() > 0,
        forall|i: int| 0 <= i < parts.len() ==> !(#[trigger] parts[i]).contains(sep),
    ensures
        pieces(joined_with(parts, sep), sep) == parts,
    decreases parts.len(),
{
    let none = Seq::<char>::empty();
    if parts.len() == 1 {
        lemma_pieces_push(none, parts[0], sep);
        assert(none + parts[0] =~= parts[0]);
        assert(pieces(parts[0], sep) =~= parts);
    } else {
        let rest = parts.drop_last();
        assert forall|i: int| 0 <= i < rest.len() implies !(#[trigger] rest[i]).contains(sep) by {
            assert(rest[i] == parts[i]);
        }
        splitting_undoes_joining(rest, sep);
        let head = joined_with(rest, sep);
        assert(head.push(sep).drop_last() =~= head);
        assert(pieces(head.push(sep), sep) =~= rest.push(none));
        assert(!parts[parts.len() - 1].contains(sep));
        lemma_pieces_push(head.push(sep), parts.last(), sep);
        assert(none + parts.last() =~= parts.last());
        assert(pieces(joined_with(parts, sep), sep) =~= parts);
    }
}

/// Splits `s` at every `sep`.
pub fn split(s: &Vec<char>, sep: char) -> (r: Vec<String>)
    ensures
        views(r@) == pieces(s@, sep),
{
    let mut done: Vec<String> = Vec::new();
    let mut current = String::new();
    let mut i: usize = 0;
    assert(s@.take(0) =~= Seq::<char>::empty());
    assert(views(done@).push(current@) =~= pieces(s@.take(0), sep));
    while i < s.len()
        invariant
            i <= s@.len(),
            views(done@).push(current@) == pieces(s@.take(i as int), sep),
        decreases s.len() - i,
    {
        let c = s[i];
        let ghost seen = views(done@).push(current@);
        assert(s@.take(i + 1).drop_last() =~= s@.take(i as int));
        assert(seen.drop_last() =~= views(done@));
        if c == sep {
            done.push(current);
            current = String::new();
            assert(views(done@) =~= seen);
        } else {
            current.push(c);
        }
        i += 1;
    }
    assert(s@.take(s@.len() as int) =~= s@);
    let ghost seen = views(done@).push(current@);
    done.push(current);
    assert(views(done@) =~= seen);
    done
}

/// Where `c` first occurs in `s`, or the length of `s` where it does not.
pub open spec fn first_at(s: Seq<char>, c: char) -> int
    decreases s.len(),
{
    if s.len() == 0 || s[0] == c {
        0
    } else {
        1 + first_at(s.drop_first(), c)
    }
}

/// `first_at` is the least index that holds `c`.
pub proof fn lemma_first_at(s: Seq<char>, c: char)
    ensures
        0 <= first_at(s, c) <= s.len(),
        first_at(s, c) < s.len() ==> s[first_at(s, c)] == c,
        forall|j: int| 0 <= j < first_at(s, c) ==> s[j] != c,
        s.contains(c) <==> first_at(s, c) < s.len(),
    decreases s.len(),
{
    if s.len() == 0 || s[0] == c {
    } else {
        let rest = s.drop_first();
        lemma_first_at(rest, c);
        assert forall|j: int| 0 <= j < first_at(s, c) implies s[j] != c by {
            if j > 0 {
                assert(s[j] == rest[j - 1]);
            }
        }
        if s.contains(c) {
            let k = choose|k: int| 0 <= k < s.len() && s[k] == c;
            assert(rest[k - 1] == c);
            assert(rest.contains(c));
        }
    }
}

/// An index that holds `c` with no `c` before it is where `c` first occurs.
pub proof fn lemma_first_at_unique(s: Seq<char>, c: char, i: int)
    requires
        0 <= i <= s.len(),
        i < s.len() ==> s[i] == c,
        forall|j: int| 0 <= j < i ==> s[j] != c,
    ensures
        first_at(s, c) == i,
{
    lemma_first_at(s, c);
}

/// Finds the first occurrence of `c`.
pub fn find(s: &Vec<char>, c: char) -> (r: usize)
    ensures
        r == first_at(s@, c),
{
    let mut i: usize = 0;
    while i < s.len() && s[i] != c
        invariant
            i <= s@.len(),
            forall|j: int| 0 <= j < i ==> s@[j] != c,
        decreases s.len() - i,
    {
        i += 1;
    }
    proof {
        lemma_first_at_unique(s@, c, i as int);
    }
    i
}

/// The text before the first `sep` and the text after it.
pub open spec fn cut(s: Seq<char>, sep: char) -> Option<(Seq<char>, Seq<char>)> {
    let at = first_at(s, sep);
    if at < s.len() {
        Some((s.take(at), s.skip(at + 1)))
    } else {
        None
    }
}

/// A text that is cut is its two parts with `sep` between them, and the first
/// part does not hold `sep`; a text that is not cut does not hold it at all.
pub proof fn cut_parts_make_the_text(s: Seq<char>, sep: char)
    ensures
        match cut(s, sep) {
            Some(parts) => s == parts.0.push(sep) + parts.1 && !parts.0.contains(sep),
            None => !s.contains(sep),
        },
{
    lemma_first_at(s, sep);
    if let Some(parts) = cut(s, sep) {
        assert(s =~= parts.0.push(sep) + parts.1);
    }
}

/// A text without `sep`, `sep` and any text are cut into those two texts.
pub proof fn cut_undoes_joining(left: Seq<char>, right: Seq<char>, sep: char)
    requires
        !left.contains(sep),
    ensures
        cut(left.push(sep) + right, sep) == Some((left, right)),
{
    let whole = left.push(sep) + right;
    assert forall|j: int| 0 <= j < left.len() implies whole[j] != sep by {
        assert(whole[j] == left[j]);
    }
    lemma_first_at_unique(whole, sep, left.len() as int);
    assert(whole.take(left.len() as int) =~= left);
    assert(whole.skip(left.len() as int + 1) =~= right);
}

/// Cuts `s` at the first `sep`.
pub fn split_once(s: &str, sep: char) -> (r: Option<(String, String)>)
    ensures
        match r {
            Some(pair) => cut(s@, sep) == Some((pair.0@, pair.1@)),
            None => cut(s@, sep) is None,
        },
{
    let chars = chars_of(s);
    let at: usize = find(&chars, sep);
    proof {
        lemma_first_at(s@, sep);
    }
    if at < chars.len() {
        let left = string_from(&chars, 0, at);
        let right = string_from(&chars, at + 1, chars.len());
        assert(left@ =~= s@.take(at as int));
        assert(right@ =~= s@.skip(at + 1));
        Some((left, right))
    } else {
        None
    }
}

/// Whether `s` begins with `prefix`.
pub open spec fn begins(s: Seq<char>, prefix: Seq<char>) -> bool {
    prefix.len() <= s.len() && s.take(prefix.len() as int) == prefix
}

/// Whether the characters of `s` from `at` on begin with `prefix`.
pub fn matches_at(s: &Vec<char>, at: usize, prefix: &Vec<char>) -> (r: bool)
    requires
        at <= s@.len(),
    ensures
        r == begins(s@.skip(at as int), prefix@),
{
    let len: usize = s.len();
    if prefix.len() > len - at {
        return false;
    }
    let mut i: usize = 0;
    while i < prefix.len()
        invariant
            i <= prefix@.len(),
            at + prefix@.len() <= s@.len() == len,
            s@.skip(at as int).take(i as int) == prefix@.take(i as int),
        decreases prefix.len() - i,
    {
        if s[at + i] != prefix[i] {
            assert(s@.skip(at as int).take(prefix@.len() as int)[i as int] != prefix@[i as int]);
            return false;
        }
        i += 1;
        assert(s@.skip(at as int).take(i as int) =~= prefix@.take(i as int));
    }
    assert(prefix@.take(prefix@.len() as int) =~= prefix@);
    true
}

/// Whether `s` begins with `prefix`.
pub fn starts_with(s: &str, prefix: &str) -> (r: bool)
    ensures
        r == begins(s@, prefix@),
{
    let chars = chars_of(s);
    let wanted = chars_of(prefix);
    assert(chars@.skip(0) =~= s@);
    matches_at(&chars, 0, &wanted)
}

/// Whether `needle` occurs somewhere in `s`.
pub open spec fn occurs(s: Seq<char>, needle: Seq<char>) -> bool {
    exists|at: int| 0 <= at <= s.len() && begins(#[trigger] s.skip(at), needle)
}

/// A text begins with another where it is that text and something behind it, and
/// holds another where something may stand before it too.
pub proof fn texts_hold_their_parts(before: Seq<char>, needle: Seq<char>, after: Seq<char>)
    ensures
        begins(needle + after, needle),
        occurs(before + needle + after, needle),
{
    assert((needle + after).take(needle.len() as int) =~= needle);
    let whole = before + needle + after;
    assert(whole.skip(before.len() as int).take(needle.len() as int) =~= needle);
    assert(begins(whole.skip(before.len() as int), needle));
}

/// A text that holds another is that one with something before and behind it.
pub proof fn occurrences_are_parts(s: Seq<char>, needle: Seq<char>)
    ensures
        begins(s, needle) ==> s == needle + s.skip(needle.len() as int),
        occurs(s, needle) ==> exists|before: Seq<char>, after: Seq<char>|
            s == #[trigger] (before + needle + after),
{
    if begins(s, needle) {
        assert(s =~= needle + s.skip(needle.len() as int));
    }
    if occurs(s, needle) {
        let at = choose|at: int| 0 <= at <= s.len() && begins(#[trigger] s.skip(at), needle);
        let before = s.take(at);
        let after = s.skip(at + needle.len());
        assert forall|i: int| 0 <= i < needle.len() implies s[at + i] == needle[i] by {
            assert(s.skip(at).take(needle.len() as int)[i] == needle[i]);
        }
        assert(s =~= before + needle + after);
    }
}

/// Whether `needle` occurs somewhere in `s`.
pub fn contains(s: &str, needle: &str) -> (r: bool)
    ensures
        r == occurs(s@, needle@),
{
    let chars = chars_of(s);
    let wanted = chars_of(needle);
    let mut at: usize = 0;
    while at < chars.len()
        invariant
            chars@ == s@,
            wanted@ == needle@,
            at <= chars@.len(),
            forall|k: int| 0 <= k < at ==> !begins(#[trigger] s@.skip(k), needle@),
        decreases chars.len() - at,
    {
        if matches_at(&chars, at, &wanted) {
            return true;
        }
        at += 1;
    }
    matches_at(&chars, at, &wanted)
}

/// The characters with the Unicode property `White_Space`.
pub open spec fn is_space(c: char) -> bool {
    ||| '\u{9}' <= c <= '\u{d}'
    ||| c == '\u{20}'
    ||| c == '\u{85}'
    ||| c == '\u{a0}'
    ||| c == '\u{1680}'
    ||| '\u{2000}' <= c <= '\u{200a}'
    ||| c == '\u{2028}'
    ||| c == '\u{2029}'
    ||| c == '\u{202f}'
    ||| c == '\u{205f}'
    ||| c == '\u{3000}'
}

/// Whether `c` is white space.
pub fn whitespace(c: char) -> (r: bool)
    ensures
        r == is_space(c),
{
    ('\u{9}' <= c && c <= '\u{d}') || c == '\u{20}' || c == '\u{85}' || c == '\u{a0}' || c
        == '\u{1680}' || ('\u{2000}' <= c && c <= '\u{200a}') || c == '\u{2028}' || c == '\u{2029}'
        || c == '\u{202f}' || c == '\u{205f}' || c == '\u{3000}'
}

/// The words of `s`: its longest runs of characters that are not white space.
pub open spec fn words(s: Seq<char>) -> Seq<Seq<char>>
    decreases s.len(),
{
    if s.len() == 0 {
        Seq::empty()
    } else {
        let before = words(s.drop_last());
        let c = s.last();
        if is_space(c) {
            before
        } else if s.len() > 1 && !is_space(s[s.len() - 2]) {
            before.drop_last().push(before.last().push(c))
        } else {
            before.push(seq![c])
        }
    }
}

/// The characters of the words, one word after the other.
pub open spec fn run_together(list: Seq<Seq<char>>) -> Seq<char>
    decreases list.len(),
{
    if list.len() == 0 {
        Seq::empty()
    } else {
        run_together(list.drop_last()) + list.last()
    }
}

/// The text without its white space.
pub open spec fn without_space(s: Seq<char>) -> Seq<char>
    decreases s.len(),
{
    if s.len() == 0 {
        Seq::empty()
    } else if is_space(s.last()) {
        without_space(s.drop_last())
    } else {
        without_space(s.drop_last()).push(s.last())
    }
}

/// How many runs of characters that are not white space begin in the text.
pub open spec fn run_starts(s: Seq<char>) -> nat
    decreases s.len(),
{
    if s.len() == 0 {
        0
    } else if !is_space(s.last()) && (s.len() == 1 || is_space(s[s.len() - 2])) {
        run_starts(s.drop_last()) + 1
    } else {
        run_starts(s.drop_last())
    }
}

/// The words are the text without its white space, come apart at every run of
/// white space and nowhere else, and none is empty or holds white space.
pub proof fn words_make_the_text(s: Seq<char>)
    ensures
        run_together(words(s)) == without_space(s),
        words(s).len() == run_starts(s),
        forall|i: int| 0 <= i < words(s).len() ==> (#[trigger] words(s)[i]).len() > 0,
        forall|i: int, k: int|
            0 <= i < words(s).len() && 0 <= k < words(s)[i].len() ==> !is_space(
                #[trigger] words(s)[i][k],
            ),
    decreases s.len(),
{
    if s.len() > 0 {
        let before = words(s.drop_last());
        let all = words(s);
        let c = s.last();
        words_make_the_text(s.drop_last());
        lemma_open_word(s.drop_last());
        if !is_space(c) {
            if s.len() > 1 && !is_space(s[s.len() - 2]) {
                assert(s.drop_last().last() == s[s.len() - 2]);
                let grown = before.last().push(c);
                assert(all.drop_last() =~= before.drop_last());
                assert(run_together(all) =~= run_together(before).push(c));
                assert forall|i: int, k: int|
                    0 <= i < all.len() && 0 <= k < all[i].len() implies !is_space(
                    #[trigger] all[i][k],
                ) by {
                    if i < before.len() - 1 {
                        assert(all[i] == before[i]);
                        assert(!is_space(before[i][k]));
                    } else if k < grown.len() - 1 {
                        assert(all[i] == grown);
                        assert(!is_space(before[before.len() - 1][k]));
                    }
                }
                assert forall|i: int| 0 <= i < all.len() implies (#[trigger] all[i]).len() > 0 by {
                    if i < before.len() - 1 {
                        assert(all[i] == before[i]);
                    }
                }
            } else {
                assert(all.drop_last() =~= before);
                assert(run_together(all) =~= run_together(before).push(c));
                assert forall|i: int, k: int|
                    0 <= i < all.len() && 0 <= k < all[i].len() implies !is_space(
                    #[trigger] all[i][k],
                ) by {
                    if i < before.len() {
                        assert(all[i] == before[i]);
                        assert(!is_space(before[i][k]));
                    }
                }
                assert forall|i: int| 0 <= i < all.len() implies (#[trigger] all[i]).len() > 0 by {
                    if i < before.len() {
                        assert(all[i] == before[i]);
                    }
                }
            }
        }
    }
}

proof fn lemma_open_word(s: Seq<char>)
    ensures
        s.len() > 0 && !is_space(s.last()) ==> words(s).len() > 0,
    decreases s.len(),
{
    if s.len() > 1 {
        lemma_open_word(s.drop_last());
    }
}

/// The space, the tabulator and the line breaks are white space; no visible
/// ASCII character is.
pub proof fn spaces_are_white(c: char)
    ensures
        is_space(' '),
        is_space('\t'),
        is_space('\n'),
        is_space('\r'),
        '!' <= c <= '~' ==> !is_space(c),
{
}

/// Splits `s` into its words.
pub fn split_words(s: &Vec<char>) -> (r: Vec<String>)
    ensures
        views(r@) == words(s@),
{
    let mut done: Vec<String> = Vec::new();
    let mut current = String::new();
    let mut inside = false;
    let mut i: usize = 0;
    assert(s@.take(0) =~= Seq::<char>::empty());
    assert(views(done@) =~= words(s@.take(0)));
    while i < s.len()
        invariant
            i <= s@.len(),
            inside == (i > 0 && !is_space(s@[i - 1])),
            !inside ==> current@.len() == 0,
            words(s@.take(i as int)) == if inside {
                views(done@).push(current@)
            } else {
                views(done@)
            },
        decreases s.len() - i,
    {
        let c = s[i];
        let ghost seen = words(s@.take(i as int));
        let ghost next = s@.take(i + 1);
        assert(next.drop_last() =~= s@.take(i as int));
        if whitespace(c) {
            if inside {
                let ghost whole = views(done@).push(current@);
                done.push(current);
                assert(views(done@) =~= whole);
                current = String::new();
            }
            inside = false;
        } else {
            let ghost whole = current@.push(c);
            current.push(c);
            if inside {
                assert(next[next.len() - 2] == s@[i - 1]);
                assert(seen.drop_last() =~= views(done@));
                assert(seen.last() == whole.drop_last());
                assert(words(next) == views(done@).push(whole));
            } else {
                assert(whole =~= seq![c]);
                assert(words(next) == views(done@).push(whole));
            }
            inside = true;
        }
        i += 1;
    }
    assert(s@.take(s@.len() as int) =~= s@);
    if inside {
        let ghost whole = views(done@).push(current@);
        done.push(current);
        assert(views(done@) =~= whole);
    }
    done
}

/// One line without the carriage return that its line break may start with.
pub open spec fn without_return(line: Seq<char>) -> Seq<char> {
    if line.len() > 0 && line.last() == '\r' {
        line.drop_last()
    } else {
        line
    }
}

/// The lines of `s`. A line break is a line feed, together with the carriage
/// return before it where there is one; the last line needs no break, and an
/// empty text after the last break is no line.
pub open spec fn lines_of(s: Seq<char>) -> Seq<Seq<char>> {
    let parts = pieces(s, '\n');
    let ended = parts.drop_last().map_values(|line: Seq<char>| without_return(line));
    if parts.last().len() == 0 {
        ended
    } else {
        ended.push(parts.last())
    }
}

/// Lines that are written one after the other, each with a line feed behind it,
/// are read back as they were, where none holds a line feed or ends with a
/// carriage return.
pub proof fn lines_read_back(lines: Seq<Seq<char>>)
    requires
        forall|i: int| 0 <= i < lines.len() ==> !(#[trigger] lines[i]).contains('\n'),
        forall|i: int|
            0 <= i < lines.len() && (#[trigger] lines[i]).len() > 0 ==> lines[i].last() != '\r',
    ensures
        lines_of(joined_with(lines.push(Seq::empty()), '\n')) == lines,
        lines.len() > 0 && lines.last().len() > 0 ==> lines_of(joined_with(lines, '\n')) == lines,
{
    let ended = lines.push(Seq::<char>::empty());
    assert forall|i: int| 0 <= i < ended.len() implies !(#[trigger] ended[i]).contains('\n') by {
        if i < lines.len() {
            assert(ended[i] == lines[i]);
        }
    }
    splitting_undoes_joining(ended, '\n');
    assert(ended.drop_last() =~= lines);
    let kept = lines.map_values(|line: Seq<char>| without_return(line));
    assert(kept =~= lines);
    if lines.len() > 0 && lines.last().len() > 0 {
        splitting_undoes_joining(lines, '\n');
        let most = lines.drop_last();
        let kept = most.map_values(|line: Seq<char>| without_return(line));
        assert forall|i: int| 0 <= i < most.len() implies kept[i] == most[i] by {
            assert(most[i] == lines[i]);
        }
        assert(kept =~= most);
        assert(most.push(lines.last()) =~= lines);
    }
}

/// A carriage return before a line feed belongs to the line break.
pub proof fn carriage_returns_go(line: Seq<char>)
    ensures
        without_return(line.push('\r')) == line,
        line.len() > 0 && line.last() != '\r' ==> without_return(line) == line,
{
    assert(line.push('\r').drop_last() =~= line);
}

/// Splits `s` into its lines.
pub fn split_lines(s: &str) -> (r: Vec<String>)
    ensures
        views(r@) == lines_of(s@),
{
    let chars = chars_of(s);
    let parts = split(&chars, '\n');
    let ghost all = pieces(s@, '\n');
    let mut out: Vec<String> = Vec::new();
    let mut i: usize = 0;
    proof {
        lemma_pieces_nonempty(s@, '\n');
        assert(views(parts@).len() == parts@.len());
    }
    let count: usize = parts.len();
    while i < count - 1
        invariant
            count == parts@.len(),
            count >= 1,
            i <= count - 1,
            views(parts@) == all,
            views(out@) == all.take(i as int).map_values(|line: Seq<char>| without_return(line)),
        decreases count - i,
    {
        let line = chars_of(parts[i].as_str());
        assert(line@ == all[i as int]);
        let mut end: usize = line.len();
        if end > 0 && line[end - 1] == '\r' {
            end -= 1;
        }
        let kept = string_from(&line, 0, end);
        assert(kept@ =~= without_return(line@));
        let ghost before = views(out@);
        out.push(kept);
        i += 1;
        assert(views(out@) =~= before.push(without_return(line@)));
        assert(views(out@) =~= all.take(i as int).map_values(
            |line: Seq<char>| without_return(line),
        ));
    }
    assert(all.take(count - 1) =~= all.drop_last());
    let last = parts[count - 1].clone();
    assert(last@ == all.last());
    if !last.as_str().is_empty() {
        let ghost before = views(out@);
        out.push(last);
        assert(views(out@) =~= before.push(last@));
    }
    out
}

/// The text without the white space at its two ends.
pub open spec fn trimmed(s: Seq<char>) -> Seq<char>
    decreases s.len(),
{
    if s.len() > 0 && is_space(s[0]) {
        trimmed(s.drop_first())
    } else if s.len() > 0 && is_space(s.last()) {
        trimmed(s.drop_last())
    } else {
        s
    }
}

/// Whether all characters before `from` and from `to` on are white space.
pub open spec fn space_around(s: Seq<char>, from: int, to: int) -> bool {
    &&& 0 <= from <= to <= s.len()
    &&& forall|i: int| 0 <= i < from ==> is_space(#[trigger] s[i])
    &&& forall|i: int| to <= i < s.len() ==> is_space(#[trigger] s[i])
}

proof fn lemma_trimmed_ends(s: Seq<char>) -> (r: (int, int))
    ensures
        space_around(s, r.0, r.1),
        trimmed(s) == s.subrange(r.0, r.1),
        trimmed(s).len() > 0 ==> !is_space(trimmed(s)[0]) && !is_space(trimmed(s).last()),
    decreases s.len(),
{
    if s.len() > 0 && is_space(s[0]) {
        let rest = s.drop_first();
        let (from, to) = lemma_trimmed_ends(rest);
        assert(s.subrange(from + 1, to + 1) =~= rest.subrange(from, to));
        assert forall|i: int| 0 <= i < from + 1 implies is_space(#[trigger] s[i]) by {
            if i > 0 {
                assert(s[i] == rest[i - 1]);
            }
        }
        assert forall|i: int| to + 1 <= i < s.len() implies is_space(#[trigger] s[i]) by {
            assert(s[i] == rest[i - 1]);
        }
        (from + 1, to + 1)
    } else if s.len() > 0 && is_space(s.last()) {
        let rest = s.drop_last();
        let (from, to) = lemma_trimmed_ends(rest);
        assert(s.subrange(from, to) =~= rest.subrange(from, to));
        assert forall|i: int| 0 <= i < from implies is_space(#[trigger] s[i]) by {
            assert(s[i] == rest[i]);
        }
        assert forall|i: int| to <= i < s.len() implies is_space(#[trigger] s[i]) by {
            if i < rest.len() {
                assert(s[i] == rest[i]);
            }
        }
        (from, to)
    } else {
        assert(s.subrange(0, s.len() as int) =~= s);
        (0, s.len() as int)
    }
}

/// Trimming takes white space off the two ends, all of it and nothing else.
pub proof fn trimming_takes_the_ends(s: Seq<char>)
    ensures
        exists|from: int, to: int| #[trigger]
            space_around(s, from, to) && trimmed(s) == s.subrange(from, to),
        trimmed(s).len() > 0 ==> !is_space(trimmed(s)[0]) && !is_space(trimmed(s).last()),
{
    let (from, to) = lemma_trimmed_ends(s);
    assert(space_around(s, from, to));
}

/// Removes the white space at the two ends of `s`.
pub fn trim(s: &Vec<char>) -> (r: Vec<char>)
    ensures
        r@ == trimmed(s@),
{
    let mut from: usize = 0;
    let mut to: usize = s.len();
    assert(s@.subrange(0, s@.len() as int) =~= s@);
    while from < to && whitespace(s[from])
        invariant
            from <= to == s@.len(),
            trimmed(s@.subrange(from as int, to as int)) == trimmed(s@),
        decreases to - from,
    {
        assert(s@.subrange(from as int, to as int).drop_first() =~= s@.subrange(
            from + 1,
            to as int,
        ));
        from += 1;
    }
    while from < to && whitespace(s[to - 1])
        invariant
            from <= to <= s@.len(),
            from < to ==> !is_space(s@[from as int]),
            trimmed(s@.subrange(from as int, to as int)) == trimmed(s@),
        decreases to - from,
    {
        assert(s@.subrange(from as int, to as int).drop_last() =~= s@.subrange(
            from as int,
            to - 1,
        ));
        to -= 1;
    }
    let mut out: Vec<char> = Vec::new();
    let mut i: usize = from;
    while i < to
        invariant
            from <= i <= to <= s@.len(),
            out@ == s@.subrange(from as int, i as int),
        decreases to - i,
    {
        out.push(s[i]);
        i += 1;
        assert(out@ =~= s@.subrange(from as int, i as int));
    }
    out
}

/// The digit of value `d`, for `d` below sixteen.
pub open spec fn digit(d: int) -> char {
    if d < 10 {
        ('0' as int + d) as char
    } else {
        ('a' as int + d - 10) as char
    }
}

/// The number `n` written in the given radix without leading zeros.
pub open spec fn numeral(n: nat, radix: nat) -> Seq<char>
    decreases n,
{
    if radix < 2 || n < radix {
        seq![digit(n as int)]
    } else {
        proof {
            assert(n / radix < n) by (nonlinear_arith)
                requires
                    n >= radix,
                    radix >= 2,
            ;
        }
        numeral(n / radix, radix).push(digit((n % radix) as int))
    }
}

/// The decimal text of a natural number.
pub open spec fn decimal(n: nat) -> Seq<char> {
    numeral(n, 10)
}

/// The decimal text of an integer, with a minus sign where it is negative.
pub open spec fn signed_decimal(n: int) -> Seq<char> {
    if n < 0 {
        seq!['-'] + decimal((-n) as nat)
    } else {
        decimal(n as nat)
    }
}

fn digit_char(d: u64) -> (c: char)
    requires
        d < 16,
    ensures
        c == digit(d as int),
{
    if d < 10 {
        (48u8 + d as u8) as char
    } else {
        (97u8 + (d as u8 - 10)) as char
    }
}

/// Appends `n` in the given radix.
pub fn push_numeral(out: &mut String, n: u64, radix: u64)
    requires
        2 <= radix <= 16,
    ensures
        final(out)@ == old(out)@ + numeral(n as nat, radix as nat),
    decreases n,
{
    let ghost start = out@;
    if n >= radix {
        assert(n / radix < n) by (nonlinear_arith)
            requires
                n >= radix,
                radix >= 2,
        ;
        push_numeral(out, n / radix, radix);
    } else {
        proof {
            vstd::arithmetic::div_mod::lemma_small_mod(n as nat, radix as nat);
        }
    }
    out.push(digit_char(n % radix));
    assert(out@ =~= start + numeral(n as nat, radix as nat));
}

/// Appends the decimal text of `n`.
pub fn push_decimal(out: &mut String, n: u64)
    ensures
        final(out)@ == old(out)@ + decimal(n as nat),
{
    push_numeral(out, n, 10);
}

/// Appends the decimal text of a signed number.
pub fn push_signed(out: &mut String, n: i32)
    ensures
        final(out)@ == old(out)@ + signed_decimal(n as int),
{
    let ghost start = out@;
    if n < 0 {
        out.push('-');
        let magnitude: u64 = (-(n as i64)) as u64;
        push_numeral(out, magnitude, 10);
        assert(out@ =~= start + signed_decimal(n as int));
    } else {
        push_numeral(out, n as u64, 10);
    }
}

/// Why a text is not a number of the wanted type.
#[derive(Debug, Clone, Copy, PartialEq, Eq, Structural)]
pub enum ParseIntError {
    /// There is no character at all.
    Empty,
    /// A character is not a digit, or there is nothing after the sign.
    InvalidDigit,
    /// The number is above the largest value of the type.
    PosOverflow,
    /// The number is below the smallest value of the type.
    NegOverflow,
}

impl ParseIntError {
    /// What the error says to a reader.
    pub open spec fn message_spec(self) -> Seq<char> {
        match self {
            ParseIntError::Empty => "cannot parse integer from empty string"@,
            ParseIntError::InvalidDigit => "invalid digit found in string"@,
            ParseIntError::PosOverflow => "number too large to fit in target type"@,
            ParseIntError::NegOverflow => "number too small to fit in target type"@,
        }
    }

    /// The error as a sentence.
    pub fn message(&self) -> (r: String)
        ensures
            r@ == self.message_spec(),
    {
        match self {
            ParseIntError::Empty => "cannot parse integer from empty string".to_owned(),
            ParseIntError::InvalidDigit => "invalid digit found in string".to_owned(),
            ParseIntError::PosOverflow => "number too large to fit in target type".to_owned(),
            ParseIntError::NegOverflow => "number too small to fit in target type".to_owned(),
        }
    }
}

/// The value of the digit `c` in the given radix.
pub open spec fn digit_value(c: char, radix: int) -> Option<int> {
    let value = if '0' <= c <= '9' {
        c as int - '0' as int
    } else if 'a' <= c <= 'z' {
        c as int - 'a' as int + 10
    } else if 'A' <= c <= 'Z' {
        c as int - 'A' as int + 10
    } else {
        36
    };
    if value < radix {
        Some(value)
    } else {
        None
    }
}

/// The number that a run of digits stands for, negated where `negative`. The
/// digits are read from the left, and the first one that is no digit, or that
/// takes the number out of `min..=max`, decides the error.
pub open spec fn digits_value(
    s: Seq<char>,
    radix: int,
    negative: bool,
    min: int,
    max: int,
) -> Result<int, ParseIntError>
    decreases s.len(),
{
    if s.len() == 0 {
        Ok(0)
    } else {
        match digits_value(s.drop_last(), radix, negative, min, max) {
            Err(e) => Err(e),
            Ok(v) => match digit_value(s.last(), radix) {
                None => Err(ParseIntError::InvalidDigit),
                Some(d) => {
                    let next = if negative {
                        v * radix - d
                    } else {
                        v * radix + d
                    };
                    if next > max {
                        Err(ParseIntError::PosOverflow)
                    } else if next < min {
                        Err(ParseIntError::NegOverflow)
                    } else {
                        Ok(next)
                    }
                },
            },
        }
    }
}

/// The number in `min..=max` that `s` writes in the given radix. A plus sign
/// may stand in front; a minus sign may where `min` is negative.
pub open spec fn number_value(s: Seq<char>, radix: int, min: int, max: int) -> Result<
    int,
    ParseIntError,
> {
    if s.len() == 0 {
        Err(ParseIntError::Empty)
    } else if s.len() == 1 && (s[0] == '+' || s[0] == '-') {
        Err(ParseIntError::InvalidDigit)
    } else if s[0] == '+' {
        digits_value(s.drop_first(), radix, false, min, max)
    } else if s[0] == '-' && min < 0 {
        digits_value(s.drop_first(), radix, true, min, max)
    } else {
        digits_value(s, radix, false, min, max)
    }
}

proof fn lemma_digit_reads_back(d: int, radix: int)
    requires
        0 <= d < radix <= 16,
    ensures
        digit_value(digit(d), radix) == Some(d),
        digit(d) != '+',
        digit(d) != '-',
{
}

proof fn lemma_digits_read_back(n: nat, radix: nat, max: int)
    requires
        2 <= radix <= 16,
        n <= max,
    ensures
        digits_value(numeral(n, radix), radix as int, false, 0, max) == Ok::<int, ParseIntError>(
            n as int,
        ),
        numeral(n, radix).len() >= 1,
        numeral(n, radix)[0] != '+',
        numeral(n, radix)[0] != '-',
    decreases n,
{
    let text = numeral(n, radix);
    if n < radix {
        lemma_digit_reads_back(n as int, radix as int);
        assert(text.drop_last() =~= Seq::<char>::empty());
        assert(text.last() == digit(n as int));
        assert(digits_value(text.drop_last(), radix as int, false, 0, max) == Ok::<
            int,
            ParseIntError,
        >(0));
        assert(0int * (radix as int) + n as int == n as int) by (nonlinear_arith);
    } else {
        assert(n / radix < n && (n / radix) * radix + n % radix == n && 0 <= n % radix < radix)
            by (nonlinear_arith)
            requires
                n >= radix,
                radix >= 2,
        ;
        lemma_digits_read_back(n / radix, radix, max);
        lemma_digit_reads_back((n % radix) as int, radix as int);
        assert(text.drop_last() =~= numeral(n / radix, radix));
        assert(text.last() == digit((n % radix) as int));
        let head = (n / radix) as int;
        assert(head * (radix as int) + (n % radix) as int == n as int);
    }
}

/// A number that is written out reads back as itself, in every radix up to
/// sixteen.
pub proof fn numerals_read_back(n: nat, radix: nat, max: int)
    requires
        2 <= radix <= 16,
        n <= max,
    ensures
        number_value(numeral(n, radix), radix as int, 0, max) == Ok::<int, ParseIntError>(n as int),
{
    lemma_digits_read_back(n, radix, max);
}

proof fn lemma_negatives_read_back(n: nat, radix: nat, min: int, max: int)
    requires
        2 <= radix <= 16,
        min <= -n,
        0 <= max,
    ensures
        digits_value(numeral(n, radix), radix as int, true, min, max) == Ok::<int, ParseIntError>(
            -n,
        ),
        numeral(n, radix).len() >= 1,
    decreases n,
{
    let text = numeral(n, radix);
    if n < radix {
        lemma_digit_reads_back(n as int, radix as int);
        assert(text.drop_last() =~= Seq::<char>::empty());
        assert(text.last() == digit(n as int));
        assert(digits_value(text.drop_last(), radix as int, true, min, max) == Ok::<
            int,
            ParseIntError,
        >(0));
        assert(0int * (radix as int) - n as int == -n) by (nonlinear_arith);
    } else {
        assert(n / radix < n && (n / radix) * radix + n % radix == n && 0 <= n % radix < radix)
            by (nonlinear_arith)
            requires
                n >= radix,
                radix >= 2,
        ;
        lemma_negatives_read_back(n / radix, radix, min, max);
        lemma_digit_reads_back((n % radix) as int, radix as int);
        assert(text.drop_last() =~= numeral(n / radix, radix));
        assert(text.last() == digit((n % radix) as int));
        let head = (n / radix) as int;
        assert((-head) * (radix as int) == -(head * (radix as int))) by (nonlinear_arith);
        assert(head * (radix as int) + (n % radix) as int == n as int);
    }
}

proof fn lemma_positives_read_back(n: nat, radix: nat, min: int, max: int)
    requires
        2 <= radix <= 16,
        min <= 0,
        n <= max,
    ensures
        digits_value(numeral(n, radix), radix as int, false, min, max) == Ok::<int, ParseIntError>(
            n as int,
        ),
    decreases n,
{
    let text = numeral(n, radix);
    if n < radix {
        lemma_digit_reads_back(n as int, radix as int);
        assert(text.drop_last() =~= Seq::<char>::empty());
        assert(text.last() == digit(n as int));
        assert(digits_value(text.drop_last(), radix as int, false, min, max) == Ok::<
            int,
            ParseIntError,
        >(0));
        assert(0int * (radix as int) + n as int == n as int) by (nonlinear_arith);
    } else {
        assert(n / radix < n && (n / radix) * radix + n % radix == n && 0 <= n % radix < radix)
            by (nonlinear_arith)
            requires
                n >= radix,
                radix >= 2,
        ;
        lemma_positives_read_back(n / radix, radix, min, max);
        lemma_digit_reads_back((n % radix) as int, radix as int);
        assert(text.drop_last() =~= numeral(n / radix, radix));
        assert(text.last() == digit((n % radix) as int));
        let head = (n / radix) as int;
        assert(head * (radix as int) + (n % radix) as int == n as int);
    }
}

/// An integer that is written out in decimal reads back as itself, with its
/// sign; a plus sign in front changes nothing.
pub proof fn integers_read_back(n: int, min: int, max: int)
    requires
        min < 0,
        min <= n <= max,
        0 <= max,
    ensures
        number_value(signed_decimal(n), 10, min, max) == Ok::<int, ParseIntError>(n),
        n >= 0 ==> number_value(seq!['+'] + signed_decimal(n), 10, min, max) == Ok::<
            int,
            ParseIntError,
        >(n),
{
    let whole = signed_decimal(n);
    if n < 0 {
        lemma_negatives_read_back((-n) as nat, 10, min, max);
        assert(whole.drop_first() =~= decimal((-n) as nat));
    } else {
        lemma_positives_read_back(n as nat, 10, min, max);
        lemma_digits_read_back(n as nat, 10, max);
        assert((seq!['+'] + whole).drop_first() =~= whole);
    }
}

/// A number that is written in hexadecimal reads back as itself where negative
/// numbers are allowed too.
pub proof fn hexadecimals_read_back(n: nat, min: int, max: int)
    requires
        min <= 0,
        n <= max,
    ensures
        number_value(numeral(n, 16), 16, min, max) == Ok::<int, ParseIntError>(n as int),
{
    lemma_positives_read_back(n, 16, min, max);
    lemma_digits_read_back(n, 16, max);
}

/// A number is written without leading zeros; zero is one digit.
pub proof fn numerals_are_short(n: nat, radix: nat)
    requires
        2 <= radix <= 16,
    ensures
        numeral(0, radix) == seq!['0'],
        numeral(n, radix).len() > 0,
        n > 0 ==> numeral(n, radix)[0] != '0',
        n < radix ==> numeral(n, radix).len() == 1,
    decreases n,
{
    if n >= radix {
        assert(0 < n / radix < n) by (nonlinear_arith)
            requires
                n >= radix,
                radix >= 2,
        ;
        numerals_are_short(n / radix, radix);
    }
}

/// A text without a character is no number, nor is a sign alone, nor a text with
/// a first character that is neither a sign nor a digit.
pub proof fn number_errors(s: Seq<char>, radix: int, min: int, max: int)
    requires
        min <= 0 <= max,
        radix <= 36,
    ensures
        number_value(Seq::empty(), radix, min, max) == Err::<int, ParseIntError>(
            ParseIntError::Empty,
        ),
        number_value(seq!['+'], radix, min, max) == Err::<int, ParseIntError>(
            ParseIntError::InvalidDigit,
        ),
        number_value(seq!['-'], radix, min, max) == Err::<int, ParseIntError>(
            ParseIntError::InvalidDigit,
        ),
        s.len() > 0 && s[0] != '+' && s[0] != '-' && digit_value(s[0], radix) is None
            ==> number_value(s, radix, min, max) == Err::<int, ParseIntError>(
            ParseIntError::InvalidDigit,
        ),
        s.len() > 0 && s[0] == '-' && min == 0 ==> number_value(s, radix, min, max) == Err::<
            int,
            ParseIntError,
        >(ParseIntError::InvalidDigit),
{
    if s.len() > 0 && digit_value(s[0], radix) is None {
        let first = s.take(1);
        assert(first.drop_last() =~= Seq::<char>::empty());
        assert(first.last() == s[0]);
        assert(digits_value(first.drop_last(), radix, false, min, max) == Ok::<int, ParseIntError>(
            0,
        ));
        lemma_error_stays(s, 1, radix, false, min, max);
    }
}

/// A number above the greatest one is refused as too large.
pub proof fn large_numbers_are_refused(n: nat, radix: nat, min: int, max: int)
    requires
        2 <= radix <= 16,
        min <= 0 <= max < n,
    ensures
        number_value(numeral(n, radix), radix as int, min, max) == Err::<int, ParseIntError>(
            ParseIntError::PosOverflow,
        ),
{
    lemma_large_digits(n, radix, min, max);
    lemma_digits_read_back(n, radix, n as int);
}

proof fn lemma_large_digits(n: nat, radix: nat, min: int, max: int)
    requires
        2 <= radix <= 16,
        min <= 0 <= max < n,
    ensures
        digits_value(numeral(n, radix), radix as int, false, min, max) == Err::<int, ParseIntError>(
            ParseIntError::PosOverflow,
        ),
    decreases n,
{
    let text = numeral(n, radix);
    if n < radix {
        lemma_digit_reads_back(n as int, radix as int);
        assert(text.drop_last() =~= Seq::<char>::empty());
        assert(text.last() == digit(n as int));
        assert(digits_value(text.drop_last(), radix as int, false, min, max) == Ok::<
            int,
            ParseIntError,
        >(0));
        assert(0int * (radix as int) + n as int == n as int) by (nonlinear_arith);
    } else {
        assert(n / radix < n && (n / radix) * radix + n % radix == n && 0 <= n % radix < radix)
            by (nonlinear_arith)
            requires
                n >= radix,
                radix >= 2,
        ;
        lemma_digit_reads_back((n % radix) as int, radix as int);
        assert(text.drop_last() =~= numeral(n / radix, radix));
        assert(text.last() == digit((n % radix) as int));
        if n / radix > max {
            lemma_large_digits(n / radix, radix, min, max);
        } else {
            lemma_positives_read_back(n / radix, radix, min, max);
            let head = (n / radix) as int;
            assert(head * (radix as int) + (n % radix) as int == n as int);
        }
    }
}

/// What is read as a number lies between the bounds, and every character of it
/// but a sign in front is a digit.
pub proof fn numbers_are_made_of_digits(s: Seq<char>, radix: int, min: int, max: int, i: int)
    requires
        number_value(s, radix, min, max) is Ok,
        min <= 0 <= max,
        0 <= i < s.len(),
    ensures
        min <= number_value(s, radix, min, max)->Ok_0 <= max,
        digit_value(s[i], radix) is Some || (i == 0 && (s[0] == '+' || (s[0] == '-' && min < 0))),
{
    let negative = s[0] == '-' && min < 0;
    if s[0] == '+' || negative {
        lemma_digits_only(s.drop_first(), radix, negative, min, max, i - 1);
        if i > 0 {
            assert(s.drop_first()[i - 1] == s[i]);
        }
    } else {
        lemma_digits_only(s, radix, false, min, max, i);
    }
}

proof fn lemma_digits_only(s: Seq<char>, radix: int, negative: bool, min: int, max: int, i: int)
    requires
        digits_value(s, radix, negative, min, max) is Ok,
        min <= 0 <= max,
    ensures
        min <= digits_value(s, radix, negative, min, max)->Ok_0 <= max,
        0 <= i < s.len() ==> digit_value(s[i], radix) is Some,
    decreases s.len(),
{
    if s.len() > 0 {
        lemma_digits_only(s.drop_last(), radix, negative, min, max, i);
        if i < s.len() - 1 && 0 <= i {
            assert(s.drop_last()[i] == s[i]);
        }
    }
}

/// The digits and their values: `0` to `9` count from zero, and the letters from
/// ten on, in either case; a digit counts only below the radix.
pub proof fn digits_and_their_values(c: char, radix: int)
    requires
        radix <= 36,
    ensures
        '0' <= c <= '9' && c as int - 48 < radix ==> digit_value(c, radix) == Some(c as int - 48),
        'a' <= c <= 'z' && c as int - 87 < radix ==> digit_value(c, radix) == Some(c as int - 87),
        'A' <= c <= 'Z' && c as int - 55 < radix ==> digit_value(c, radix) == Some(c as int - 55),
        digit_value(c, radix) matches Some(v) ==> v < radix && (('0' <= c <= '9' && v == c as int
            - 48) || ('a' <= c <= 'z' && v == c as int - 87) || ('A' <= c <= 'Z' && v == c as int
            - 55)),
{
}

fn value_of_digit(c: char, radix: i128) -> (r: Option<i128>)
    requires
        2 <= radix <= 36,
    ensures
        match r {
            Some(v) => digit_value(c, radix as int) == Some(v as int) && 0 <= v < radix,
            None => digit_value(c, radix as int) is None,
        },
{
    let code: i128 = c as u32 as i128;
    let value: i128 = if '0' <= c && c <= '9' {
        code - 48
    } else if 'a' <= c && c <= 'z' {
        code - 97 + 10
    } else if 'A' <= c && c <= 'Z' {
        code - 65 + 10
    } else {
        36
    };
    if value < radix {
        Some(value)
    } else {
        None
    }
}

/// What an error of `digits_value` at some point says of the whole run.
proof fn lemma_error_stays(
    s: Seq<char>,
    upto: int,
    radix: int,
    negative: bool,
    min: int,
    max: int,
)
    requires
        0 <= upto <= s.len(),
        digits_value(s.take(upto), radix, negative, min, max) is Err,
    ensures
        digits_value(s, radix, negative, min, max) == digits_value(
            s.take(upto),
            radix,
            negative,
            min,
            max,
        ),
    decreases s.len() - upto,
{
    if upto == s.len() {
        assert(s.take(upto) =~= s);
    } else {
        assert(s.take(upto + 1).drop_last() =~= s.take(upto));
        lemma_error_stays(s, upto + 1, radix, negative, min, max);
    }
}

fn scan_digits(
    s: &Vec<char>,
    from: usize,
    radix: i128,
    negative: bool,
    min: i128,
    max: i128,
) -> (r: Result<i128, ParseIntError>)
    requires
        from <= s@.len(),
        2 <= radix <= 36,
        -0x1_0000_0000_0000_0000 < min <= 0 <= max < 0x1_0000_0000_0000_0000,
    ensures
        digits_value(s@.skip(from as int), radix as int, negative, min as int, max as int) == match r {
            Ok(v) => Ok(v as int),
            Err(e) => Err(e),
        },
        r matches Ok(v) ==> min <= v <= max,
{
    let ghost run = s@.skip(from as int);
    let mut total: i128 = 0;
    let mut i: usize = from;
    assert(run.take(0) =~= Seq::<char>::empty());
    while i < s.len()
        invariant
            from <= i <= s@.len(),
            run == s@.skip(from as int),
            2 <= radix <= 36,
            -0x1_0000_0000_0000_0000 < min <= 0 <= max < 0x1_0000_0000_0000_0000,
            min <= total <= max,
            digits_value(run.take(i - from), radix as int, negative, min as int, max as int) == Ok::<
                int,
                ParseIntError,
            >(total as int),
        decreases s.len() - i,
    {
        assert(run.take(i - from + 1).drop_last() =~= run.take(i - from));
        assert(run.take(i - from + 1).last() == s@[i as int]);
        match value_of_digit(s[i], radix) {
            None => {
                proof {
                    lemma_error_stays(
                        run,
                        i - from + 1,
                        radix as int,
                        negative,
                        min as int,
                        max as int,
                    );
                }
                return Err(ParseIntError::InvalidDigit);
            },
            Some(d) => {
                assert(-0x24_0000_0000_0000_0000 < total * radix < 0x24_0000_0000_0000_0000)
                    by (nonlinear_arith)
                    requires
                        2 <= radix <= 36,
                        -0x1_0000_0000_0000_0000 < total < 0x1_0000_0000_0000_0000,
                ;
                let next: i128 = if negative {
                    total * radix - d
                } else {
                    total * radix + d
                };
                if next > max || next < min {
                    proof {
                        lemma_error_stays(
                            run,
                            i - from + 1,
                            radix as int,
                            negative,
                            min as int,
                            max as int,
                        );
                    }
                    if next > max {
                        return Err(ParseIntError::PosOverflow);
                    } else {
                        return Err(ParseIntError::NegOverflow);
                    }
                }
                total = next;
            },
        }
        i += 1;
    }
    assert(run.take(run.len() as int) =~= run);
    Ok(total)
}

fn parse_number(s: &Vec<char>, radix: i128, min: i128, max: i128) -> (r: Result<
    i128,
    ParseIntError,
>)
    requires
        2 <= radix <= 36,
        -0x1_0000_0000_0000_0000 < min <= 0 <= max < 0x1_0000_0000_0000_0000,
    ensures
        number_value(s@, radix as int, min as int, max as int) == match r {
            Ok(v) => Ok(v as int),
            Err(e) => Err(e),
        },
        r matches Ok(v) ==> min <= v <= max,
{
    assert(s@.skip(0) =~= s@);
    if s.len() == 0 {
        return Err(ParseIntError::Empty);
    }
    assert(s@.skip(1) =~= s@.drop_first());
    if s.len() == 1 && (s[0] == '+' || s[0] == '-') {
        return Err(ParseIntError::InvalidDigit);
    }
    if s[0] == '+' {
        scan_digits(s, 1, radix, false, min, max)
    } else if s[0] == '-' && min < 0 {
        scan_digits(s, 1, radix, true, min, max)
    } else {
        scan_digits(s, 0, radix, false, min, max)
    }
}

/// Reads an `i64` written in the given radix.
pub fn parse_i64_radix(s: &Vec<char>, radix: u32) -> (r: Result<i64, ParseIntError>)
    requires
        2 <= radix <= 36,
    ensures
        number_value(s@, radix as int, i64::MIN as int, i64::MAX as int) == match r {
            Ok(v) => Ok(v as int),
            Err(e) => Err(e),
        },
{
    match parse_number(s, radix as i128, i64::MIN as i128, i64::MAX as i128) {
        Ok(v) => Ok(v as i64),
        Err(e) => Err(e),
    }
}

/// Reads a `u64` written in the given radix.
pub fn parse_u64_radix(s: &Vec<char>, radix: u32) -> (r: Result<u64, ParseIntError>)
    requires
        2 <= radix <= 36,
    ensures
        number_value(s@, radix as int, 0, u64::MAX as int) == match r {
            Ok(v) => Ok(v as int),
            Err(e) => Err(e),
        },
{
    match parse_number(s, radix as i128, 0, u64::MAX as i128) {
        Ok(v) => Ok(v as u64),
        Err(e) => Err(e),
    }
}

} // verus!
