//! Text as the native index hands it out: bytes that are decoded as UTF-8,
//! and a joined list of names that is split at a separator character.

use vstd::prelude::*;
use vstd::utf8::{decode_utf8, valid_utf8};

verus! {

/// `std::str::Utf8Error`, the error of `std::str::from_utf8`. It is only
/// passed on: nothing is read from it.
#[verifier::external_type_specification]
#[verifier::external_body]
pub struct ExUtf8Error(std::str::Utf8Error);

/// `std::str::from_utf8`: the bytes as a string slice where they are valid
/// UTF-8, an error where they are not. The slice holds the characters that
/// the bytes encode.
#[verifier::external_body]
fn from_utf8(bytes: &[u8]) -> (text: Result<&str, std::str::Utf8Error>)
    ensures
        text is Ok <==> valid_utf8(bytes@),
        text is Ok ==> text.unwrap()@ == decode_utf8(bytes@),
{
    std::str::from_utf8(bytes)
}

/// The text that the bytes encode, if they are valid UTF-8.
pub fn decode(bytes: &[u8]) -> (text: Option<String>)
    ensures
        text is Some <==> valid_utf8(bytes@),
        text is Some ==> text.unwrap()@ == decode_utf8(bytes@),
{
    match from_utf8(bytes) {
        Ok(slice) => Some(slice.to_owned()),
        Err(_) => None,
    }
}

/// The text that the bytes encode. The bytes are valid UTF-8.
pub fn decode_text(bytes: &[u8]) -> (text: String)
    requires
        valid_utf8(bytes@),
    ensures
        text@ == decode_utf8(bytes@),
{
    match decode(bytes) {
        Some(text) => text,
        None => vstd::pervasive::unreached(),
    }
}

/// Each of the texts is valid UTF-8.
pub open spec fn all_valid(texts: Seq<Seq<u8>>) -> bool {
    forall|i: int| 0 <= i < texts.len() ==> valid_utf8(#[trigger] texts[i])
}

/// The texts decoded one by one.
pub open spec fn decode_all(texts: Seq<Seq<u8>>) -> Seq<Seq<char>> {
    Seq::new(texts.len(), |i: int| decode_utf8(texts[i]))
}

/// Whether each of the texts is valid UTF-8.
pub fn are_all_valid(texts: &Vec<Vec<u8>>) -> (ok: bool)
    ensures
        ok == all_valid(texts.deep_view()),
{
    let n = texts.len();
    let mut i: usize = 0;
    while i < n
        invariant
            n == texts@.len(),
            i <= n,
            forall|k: int| 0 <= k < i ==> valid_utf8(#[trigger] texts@[k]@),
        decreases n - i,
    {
        if decode(texts[i].as_slice()).is_none() {
            proof {
                assert(texts.deep_view()[i as int] == texts@[i as int]@);
            }
            return false;
        }
        i += 1;
    }
    proof {
        assert forall|k: int| 0 <= k < texts.deep_view().len() implies valid_utf8(
            #[trigger] texts.deep_view()[k],
        ) by {
            assert(texts.deep_view()[k] == texts@[k]@);
        }
    }
    true
}

/// The texts decoded one by one. Each of them is valid UTF-8.
pub fn decode_each(texts: &Vec<Vec<u8>>) -> (decoded: Vec<String>)
    requires
        all_valid(texts.deep_view()),
    ensures
        decoded.deep_view() == decode_all(texts.deep_view()),
{
    let n = texts.len();
    let mut decoded: Vec<String> = Vec::new();
    let mut i: usize = 0;
    while i < n
        invariant
            n == texts@.len(),
            i <= n,
            all_valid(texts.deep_view()),
            decoded@.len() == i,
            forall|k: int| 0 <= k < i ==> decoded@[k]@ == decode_utf8(texts@[k]@),
        decreases n - i,
    {
        proof {
            assert(texts.deep_view()[i as int] == texts@[i as int]@);
        }
        decoded.push(decode_text(texts[i].as_slice()));
        i += 1;
    }
    proof {
        assert forall|k: int| 0 <= k < n implies decoded.deep_view()[k] == decode_all(
            texts.deep_view(),
        )[k] by {
            assert(texts.deep_view()[k] == texts@[k]@);
        }
        assert(decoded.deep_view() =~= decode_all(texts.deep_view()));
    }
    decoded
}

/// The separator between the names of a joined author list.
pub const AUTHOR_SEPARATOR: char = ',';

/// The pieces of `s` that lie between the occurrences of `sep`, from first to
/// last. Nothing is trimmed, and two separators in a row enclose an empty
/// piece, so there is always one piece more than there are separators.
pub open spec fn split_on(s: Seq<char>, sep: char) -> Seq<Seq<char>>
    decreases s.len(),
{
    if s.len() == 0 {
        seq![Seq::<char>::empty()]
    } else {
        let before = split_on(s.drop_last(), sep);
        if s.last() == sep {
            before.push(Seq::<char>::empty())
        } else {
            before.update(before.len() - 1, before.last().push(s.last()))
        }
    }
}

/// How often `sep` occurs in `s`.
pub open spec fn count_of(s: Seq<char>, sep: char) -> nat
    decreases s.len(),
{
    if s.len() == 0 {
        0
    } else {
        count_of(s.drop_last(), sep) + if s.last() == sep {
            1nat
        } else {
            0nat
        }
    }
}

/// The pieces written one after another with `sep` between each two.
pub open spec fn join_with(parts: Seq<Seq<char>>, sep: char) -> Seq<char>
    decreases parts.len(),
{
    if parts.len() == 0 {
        Seq::<char>::empty()
    } else if parts.len() == 1 {
        parts[0]
    } else {
        join_with(parts.drop_last(), sep).push(sep) + parts.last()
    }
}

/// No piece holds the separator.
pub open spec fn free_of(parts: Seq<Seq<char>>, sep: char) -> bool {
    forall|k: int, i: int|
        0 <= k < parts.len() && 0 <= i < parts[k].len() ==> #[trigger] parts[k][i] != sep
}

/// The names of a joined author list: its pieces between the commas.
pub open spec fn author_names(joined: Seq<char>) -> Seq<Seq<char>> {
    split_on(joined, AUTHOR_SEPARATOR)
}

/// A split has one piece more than the text has separators.
pub proof fn lemma_split_len(s: Seq<char>, sep: char)
    ensures
        split_on(s, sep).len() == count_of(s, sep) + 1,
    decreases s.len(),
{
    if s.len() > 0 {
        lemma_split_len(s.drop_last(), sep);
    }
}

/// No piece of a split holds the separator.
pub proof fn lemma_split_free(s: Seq<char>, sep: char)
    ensures
        free_of(split_on(s, sep), sep),
    decreases s.len(),
{
    if s.len() > 0 {
        lemma_split_len(s.drop_last(), sep);
        lemma_split_free(s.drop_last(), sep);
    }
}

/// Joining the pieces of a split with the separator gives the text back.
pub proof fn lemma_split_join(s: Seq<char>, sep: char)
    ensures
        join_with(split_on(s, sep), sep) == s,
    decreases s.len(),
{
    if s.len() > 0 {
        let front = s.drop_last();
        let before = split_on(front, sep);
        lemma_split_len(front, sep);
        lemma_split_join(front, sep);
        if s.last() == sep {
            let parts = before.push(Seq::<char>::empty());
            assert(parts.drop_last() =~= before);
            assert(join_with(parts, sep) =~= s);
        } else {
            let grown = before.last().push(s.last());
            let parts = before.update(before.len() - 1, grown);
            if before.len() == 1 {
                assert(join_with(parts, sep) =~= s);
            } else {
                assert(parts.drop_last() =~= before.drop_last());
                assert(join_with(parts, sep) =~= join_with(before, sep).push(s.last()));
                assert(join_with(parts, sep) =~= s);
            }
        }
    }
}

/// The split is the only way to cut a text into pieces free of the separator:
/// whatever pieces join to `s` and hold no separator are the pieces of its
/// split.
pub proof fn lemma_split_unique(parts: Seq<Seq<char>>, s: Seq<char>, sep: char)
    requires
        parts.len() >= 1,
        free_of(parts, sep),
        join_with(parts, sep) == s,
    ensures
        parts == split_on(s, sep),
    decreases s.len(),
{
    let last = parts.len() - 1;
    if parts.len() == 1 {
        if s.len() > 0 {
            assert(parts[0][s.len() - 1] != sep);
            let shorter = seq![s.drop_last()];
            assert(join_with(shorter, sep) == s.drop_last());
            lemma_split_unique(shorter, s.drop_last(), sep);
            assert(parts =~~= shorter.update(0, shorter[0].push(s.last())));
        } else {
            assert(parts =~~= seq![Seq::<char>::empty()]);
        }
    } else {
        let front = parts.drop_last();
        assert(forall|k: int| 0 <= k < front.len() ==> front[k] == parts[k]);
        if parts[last].len() == 0 {
            assert(s =~= join_with(front, sep).push(sep));
            assert(s.drop_last() =~= join_with(front, sep));
            lemma_split_unique(front, s.drop_last(), sep);
            assert(parts =~~= front.push(Seq::<char>::empty()));
        } else {
            let c = parts[last][parts[last].len() - 1];
            assert(c != sep);
            assert(s.last() == c);
            let shorter = parts.update(last, parts[last].drop_last());
            assert(shorter.drop_last() =~= front);
            assert(join_with(shorter, sep) =~= s.drop_last());
            assert(forall|k: int, i: int|
                0 <= k < shorter.len() && 0 <= i < shorter[k].len() ==> #[trigger] shorter[k][i]
                    == parts[k][i]);
            lemma_split_unique(shorter, s.drop_last(), sep);
            assert(parts =~~= shorter.update(last, shorter[last].push(c)));
        }
    }
}

/// Splits a joined author list at each comma. A name keeps the blanks around
/// it, and an empty list gives one empty name.
pub fn split_authors(joined: &str) -> (names: Vec<String>)
    ensures
        names.deep_view() == author_names(joined@),
{
    let n = joined.unicode_len();
    let mut names: Vec<String> = Vec::new();
    let mut start: usize = 0;
    let mut i: usize = 0;
    proof {
        assert(names.deep_view() =~= Seq::<Seq<char>>::empty());
        assert(joined@.subrange(0, 0) =~= Seq::<char>::empty());
        assert(joined@.take(0) =~= Seq::<char>::empty());
        assert(names.deep_view().push(joined@.subrange(0, 0)) =~= seq![Seq::<char>::empty()]);
    }
    while i < n
        invariant
            n == joined@.len(),
            start <= i <= n,
            names.deep_view().push(joined@.subrange(start as int, i as int)) == split_on(
                joined@.take(i as int),
                AUTHOR_SEPARATOR,
            ),
        decreases n - i,
    {
        let c = joined.get_char(i);
        let ghost prefix = joined@.take(i as int);
        let ghost next = joined@.take(i + 1);
        let ghost done = names.deep_view();
        let ghost piece = joined@.subrange(start as int, i as int);
        proof {
            assert(next.drop_last() =~= prefix);
            assert(next.last() == c);
        }
        if c == AUTHOR_SEPARATOR {
            let name = joined.substring_char(start, i).to_owned();
            names.push(name);
            start = i + 1;
            proof {
                assert(names.deep_view() =~= done.push(piece));
                assert(joined@.subrange(start as int, i + 1) =~= Seq::<char>::empty());
            }
        } else {
            proof {
                assert(joined@.subrange(start as int, i + 1) =~= piece.push(c));
                assert(done.push(piece.push(c)) =~= done.push(piece).update(
                    done.len() as int,
                    piece.push(c),
                ));
            }
        }
        i += 1;
    }
    let ghost done = names.deep_view();
    let last = joined.substring_char(start, n).to_owned();
    names.push(last);
    proof {
        assert(joined@.take(n as int) =~= joined@);
        assert(names.deep_view() =~= done.push(joined@.subrange(start as int, n as int)));
    }
    names
}

} // verus!
