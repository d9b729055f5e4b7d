//! Text building blocks shared by the code generators: the mathematical
//! meaning of joining and concatenating pieces of text, with the lemmas that
//! let loops build such text one piece at a time.
use vstd::prelude::*;

verus! {

/// The pieces written one after another.
pub open spec fn concat(pieces: Seq<Seq<char>>) -> Seq<char>
    decreases pieces.len(),
{
    if pieces.len() == 0 {
        Seq::empty()
    } else {
        concat(pieces.drop_last()) + pieces.last()
    }
}

/// The pieces written one after another, `sep` between each two of them.
pub open spec fn join(pieces: Seq<Seq<char>>, sep: Seq<char>) -> Seq<char>
    decreases pieces.len(),
{
    if pieces.len() == 0 {
        Seq::empty()
    } else if pieces.len() == 1 {
        pieces[0]
    } else {
        join(pieces.drop_last(), sep) + sep + pieces.last()
    }
}

/// Writing one more piece extends the concatenation by that piece.
pub proof fn lemma_concat_take(pieces: Seq<Seq<char>>, i: int)
    requires
        0 <= i < pieces.len(),
    ensures
        concat(pieces.take(i + 1)) == concat(pieces.take(i)) + pieces[i],
{
    assert(pieces.take(i + 1).drop_last() =~= pieces.take(i));
}

/// Joining one more piece appends the separator and then that piece.
pub proof fn lemma_join_take(pieces: Seq<Seq<char>>, sep: Seq<char>, i: int)
    requires
        0 < i < pieces.len(),
    ensures
        join(pieces.take(i + 1), sep) == join(pieces.take(i), sep) + sep + pieces[i],
{
    assert(pieces.take(i + 1).drop_last() =~= pieces.take(i));
}

/// Joining the first piece alone gives that piece.
pub proof fn lemma_join_first(pieces: Seq<Seq<char>>, sep: Seq<char>)
    requires
        0 < pieces.len(),
    ensures
        join(pieces.take(1), sep) == pieces[0],
{
}

/// Appends `pieces`, separated by `sep`, to `out`.
pub(crate) fn push_joined(out: &mut String, pieces: &Vec<String>, sep: &str)
    ensures
        final(out)@ == old(out)@ + join(pieces@.map_values(|p: String| p@), sep@),
{
    let ghost base = out@;
    let ghost views = pieces@.map_values(|p: String| p@);
    let n = pieces.len();
    let mut i: usize = 0;
    while i < n
        invariant
            n == pieces.len(),
            i <= n,
            views == pieces@.map_values(|p: String| p@),
            out@ == base + join(views.take(i as int), sep@),
        decreases n - i,
    {
        if i == 0 {
            out.append(pieces[i].as_str());
            proof {
                lemma_join_first(views, sep@);
                assert(views.take(0) =~= Seq::<Seq<char>>::empty());
            }
        } else {
            out.append(sep);
            out.append(pieces[i].as_str());
            proof {
                lemma_join_take(views, sep@, i as int);
            }
        }
        i = i + 1;
    }
    assert(views.take(n as int) =~= views);
}

/// `w` is a prefix of `text`.
pub open spec fn starts_with(text: Seq<char>, w: Seq<char>) -> bool {
    w.len() <= text.len() && forall|j: int| 0 <= j < w.len() ==> text[j] == w[j]
}

/// `w` occurs somewhere in `text`.
pub open spec fn contains(text: Seq<char>, w: Seq<char>) -> bool {
    exists|i: int| 0 <= i <= text.len() && #[trigger] starts_with(text.skip(i), w)
}

/// The index of the first word, from the `k`-th on, that is non-empty and
/// a prefix of `text`.
pub open spec fn first_word(text: Seq<char>, words: Seq<Seq<char>>, k: int) -> Option<int>
    decreases words.len() - k,
{
    if k < 0 || k >= words.len() {
        None
    } else if words[k].len() > 0 && starts_with(text, words[k]) {
        Some(k)
    } else {
        first_word(text, words, k + 1)
    }
}

/// `text` with every occurrence of the words replaced by `rep`, scanning
/// from the left; where several words start at one place, the first in the
/// list wins.
pub open spec fn replace_words(text: Seq<char>, words: Seq<Seq<char>>, rep: Seq<char>) -> Seq<char>
    decreases text.len(),
{
    if text.len() == 0 {
        Seq::empty()
    } else {
        match first_word(text, words, 0) {
            Some(k) => if 0 <= k < words.len() && 0 < words[k].len() <= text.len() {
                rep + replace_words(text.skip(words[k].len() as int), words, rep)
            } else {
                seq![text[0]] + replace_words(text.drop_first(), words, rep)
            },
            None => seq![text[0]] + replace_words(text.drop_first(), words, rep),
        }
    }
}

/// The word that `first_word` finds is one of the words, non-empty, and a
/// prefix of the text.
pub proof fn lemma_first_word_found(text: Seq<char>, words: Seq<Seq<char>>, k: int)
    requires
        first_word(text, words, k) is Some,
    ensures
        ({
            let j = first_word(text, words, k)->Some_0;
            &&& k <= j < words.len()
            &&& 0 <= j
            &&& words[j].len() > 0
            &&& starts_with(text, words[j])
        }),
    decreases words.len() - k,
{
    if !(k < 0 || k >= words.len()) && !(words[k].len() > 0 && starts_with(text, words[k])) {
        lemma_first_word_found(text, words, k + 1);
    }
}

/// When no word but an empty one starts the text at or after the `k`-th,
/// none is found.
pub proof fn lemma_first_word_none(text: Seq<char>, words: Seq<Seq<char>>, k: int)
    requires
        0 <= k,
        forall|j: int|
            k <= j < words.len() ==> words[j].len() == 0 || !starts_with(text, #[trigger] words[j]),
    ensures
        first_word(text, words, k) is None,
    decreases words.len() - k,
{
    if k < words.len() {
        lemma_first_word_none(text, words, k + 1);
    }
}

/// A word can start only where the text holds the word's first character
/// and enough characters are left.
pub open spec fn may_start_at(text: Seq<char>, i: int, w: Seq<char>) -> bool {
    w.len() > 0 && text[i] == w[0] && text.len() - i >= w.len()
}

/// Text where no word can start is left as it is.
pub proof fn lemma_replace_words_unchanged(text: Seq<char>, words: Seq<Seq<char>>, rep: Seq<char>)
    requires
        forall|i: int, k: int|
            0 <= i < text.len() && 0 <= k < words.len() ==> !#[trigger] may_start_at(text, i, words[k]),
    ensures
        replace_words(text, words, rep) == text,
    decreases text.len(),
{
    if text.len() > 0 {
        assert forall|j: int| 0 <= j < words.len() implies words[j].len() == 0 || !starts_with(
            text,
            #[trigger] words[j],
        ) by {
            if words[j].len() > 0 && starts_with(text, words[j]) {
                assert(text[0] == words[j][0]);
                assert(may_start_at(text, 0, words[j]));
            }
        }
        lemma_first_word_none(text, words, 0);
        let rest = text.drop_first();
        assert forall|i: int, k: int|
            0 <= i < rest.len() && 0 <= k < words.len() implies !#[trigger] may_start_at(rest, i, words[k]) by {
            assert(!may_start_at(text, i + 1, words[k]));
        }
        lemma_replace_words_unchanged(rest, words, rep);
        assert(seq![text[0]] + rest =~= text);
    }
}

/// A word that cannot start anywhere in the text does not occur in it.
pub proof fn lemma_not_contains(text: Seq<char>, w: Seq<char>)
    requires
        w.len() > 0,
        forall|i: int| 0 <= i < text.len() ==> !#[trigger] may_start_at(text, i, w),
    ensures
        !contains(text, w),
{
    assert forall|i: int| 0 <= i <= text.len() implies !#[trigger] starts_with(text.skip(i), w) by {
        if starts_with(text.skip(i), w) {
            assert(text.skip(i)[0] == w[0]);
            assert(may_start_at(text, i, w));
        }
    }
}

/// A text that is exactly the word found at its start is replaced whole.
pub proof fn lemma_replace_whole_word(text: Seq<char>, words: Seq<Seq<char>>, rep: Seq<char>, k: int)
    requires
        text.len() > 0,
        first_word(text, words, 0) == Some(k),
        0 <= k < words.len(),
        words[k] == text,
    ensures
        replace_words(text, words, rep) == rep,
{
    let rest = text.skip(words[k].len() as int);
    assert(rest =~= Seq::<char>::empty());
    assert(replace_words(rest, words, rep) == Seq::<char>::empty());
    assert(rep + replace_words(rest, words, rep) =~= rep);
}

/// The first non-empty word from the `k`-th on that starts the text is
/// the one found.
pub proof fn lemma_first_word_is(text: Seq<char>, words: Seq<Seq<char>>, k: int, j: int)
    requires
        0 <= k <= j < words.len(),
        words[j].len() > 0,
        starts_with(text, words[j]),
        forall|i: int| k <= i < j ==> words[i].len() == 0 || !starts_with(text, #[trigger] words[i]),
    ensures
        first_word(text, words, k) == Some(j),
    decreases j - k,
{
    if k < j {
        lemma_first_word_is(text, words, k + 1, j);
    }
}

/// The views of a sequence of string slices.
pub open spec fn str_views(strs: Seq<&str>) -> Seq<Seq<char>> {
    strs.map_values(|s: &str| s@)
}

/// Whether `w` is a prefix of the text after its first `i` characters.
fn starts_with_at(text: &str, n: usize, i: usize, w: &str) -> (res: bool)
    requires
        n == text@.len(),
        i <= n,
    ensures
        res == starts_with(text@.skip(i as int), w@),
{
    let m = w.unicode_len();
    if m > n - i {
        return false;
    }
    let mut j: usize = 0;
    while j < m
        invariant
            n == text@.len(),
            m == w@.len(),
            i + m <= n,
            j <= m,
            forall|jj: int| 0 <= jj < j ==> text@.skip(i as int)[jj] == w@[jj],
        decreases m - j,
    {
        if text.get_char(i + j) != w.get_char(j) {
            return false;
        }
        j = j + 1;
    }
    true
}

/// The index of the first non-empty word that starts the text after its
/// first `i` characters.
fn first_word_at(text: &str, n: usize, i: usize, words: &[&str]) -> (res: Option<usize>)
    requires
        n == text@.len(),
        i <= n,
    ensures
        res matches Some(k) ==> first_word(text@.skip(i as int), str_views(words@), 0) == Some(
            k as int,
        ),
        res is None ==> first_word(text@.skip(i as int), str_views(words@), 0) is None,
{
    let ghost t = text@.skip(i as int);
    let ghost ws = str_views(words@);
    let len = words.len();
    let mut k: usize = 0;
    while k < len
        invariant
            len == words@.len(),
            ws == str_views(words@),
            k <= len,
            n == text@.len(),
            i <= n,
            t == text@.skip(i as int),
            first_word(t, ws, 0) == first_word(t, ws, k as int),
        decreases len - k,
    {
        let w = words[k];
        if w.unicode_len() > 0 && starts_with_at(text, n, i, w) {
            return Some(k);
        }
        k = k + 1;
    }
    None
}

/// `text` with every occurrence of the words replaced by `rep`, scanning
/// from the left; where several words start at one place, the first in the
/// list wins.
pub fn replace_words_in(text: &str, words: &[&str], rep: &str) -> (res: String)
    ensures
        res@ == replace_words(text@, str_views(words@), rep@),
{
    let ghost ws = str_views(words@);
    let n = text.unicode_len();
    let mut out = String::new();
    let mut i: usize = 0;
    proof {
        assert(text@.skip(0) =~= text@);
    }
    while i < n
        invariant
            n == text@.len(),
            i <= n,
            ws == str_views(words@),
            out@ + replace_words(text@.skip(i as int), ws, rep@) == replace_words(text@, ws, rep@),
        decreases n - i,
    {
        let ghost t = text@.skip(i as int);
        match first_word_at(text, n, i, words) {
            Some(k) => {
                proof {
                    lemma_first_word_found(t, ws, 0);
                }
                let m = words[k].unicode_len();
                out.append(rep);
                proof {
                    assert(t.skip(m as int) =~= text@.skip(i + m));
                    assert(out@ + replace_words(text@.skip(i + m), ws, rep@) =~= out@ + replace_words(text@.skip(i + m), ws, rep@));
                }
                i = i + m;
            },
            None => {
                let one = text.substring_char(i, i + 1);
                out.append(one);
                proof {
                    assert(one@ =~= seq![t[0]]);
                    assert(t.drop_first() =~= text@.skip(i + 1));
                }
                i = i + 1;
            },
        }
    }
    proof {
        assert(text@.skip(n as int) =~= Seq::<char>::empty());
    }
    out
}

/// Whether `w` occurs somewhere in `text`.
pub fn contains_text(text: &str, w: &str) -> (res: bool)
    ensures
        res == contains(text@, w@),
{
    let n = text.unicode_len();
    let mut i: usize = 0;
    while i < n
        invariant
            n == text@.len(),
            i <= n,
            forall|ii: int| 0 <= ii < i ==> !#[trigger] starts_with(text@.skip(ii), w@),
        decreases n - i,
    {
        if starts_with_at(text, n, i, w) {
            return true;
        }
        i = i + 1;
    }
    starts_with_at(text, n, n, w)
}

/// `part` occurs as a contiguous piece of `whole`.
pub open spec fn appears_in(part: Seq<char>, whole: Seq<char>) -> bool {
    exists|a: Seq<char>, b: Seq<char>| whole == #[trigger] (a + part + b)
}

/// A piece occurs in what surrounds it.
pub proof fn lemma_appears_with(part: Seq<char>, a: Seq<char>, b: Seq<char>)
    ensures
        appears_in(part, a + part + b),
{
    assert(a + part + b == (a + part + b));
}

/// What occurs in a text occurs in any text around it.
pub proof fn lemma_appears_within(part: Seq<char>, mid: Seq<char>, a: Seq<char>, b: Seq<char>)
    requires
        appears_in(part, mid),
    ensures
        appears_in(part, a + mid + b),
{
    let (x, y) = choose|x: Seq<char>, y: Seq<char>| mid == #[trigger] (x + part + y);
    assert(a + mid + b =~= (a + x) + part + (y + b));
}

/// Every piece occurs in the concatenation of the pieces.
pub proof fn lemma_concat_has(pieces: Seq<Seq<char>>, k: int)
    requires
        0 <= k < pieces.len(),
    ensures
        appears_in(pieces[k], concat(pieces)),
    decreases pieces.len(),
{
    let init = pieces.drop_last();
    if k == pieces.len() - 1 {
        assert(concat(pieces) =~= concat(init) + pieces[k] + Seq::<char>::empty());
        lemma_appears_with(pieces[k], concat(init), Seq::empty());
    } else {
        lemma_concat_has(init, k);
        lemma_appears_within(pieces[k], concat(init), Seq::empty(), pieces.last());
        assert(Seq::<char>::empty() + concat(init) + pieces.last() =~= concat(pieces));
    }
}

/// Occurring is transitive: a piece of a piece is a piece of the whole.
pub proof fn lemma_appears_trans(x: Seq<char>, y: Seq<char>, z: Seq<char>)
    requires
        appears_in(x, y),
        appears_in(y, z),
    ensures
        appears_in(x, z),
{
    let (a, b) = choose|a: Seq<char>, b: Seq<char>| z == #[trigger] (a + y + b);
    lemma_appears_within(x, y, a, b);
}

/// What occurs in a text occurs in that text followed by more.
pub proof fn lemma_appears_then(part: Seq<char>, y: Seq<char>, b: Seq<char>)
    requires
        appears_in(part, y),
    ensures
        appears_in(part, y + b),
{
    let (x, z) = choose|x: Seq<char>, z: Seq<char>| y == #[trigger] (x + part + z);
    assert(y + b =~= x + part + (z + b));
}

/// What occurs in a text occurs in that text preceded by more.
pub proof fn lemma_appears_after(part: Seq<char>, a: Seq<char>, y: Seq<char>)
    requires
        appears_in(part, y),
    ensures
        appears_in(part, a + y),
{
    let (x, z) = choose|x: Seq<char>, z: Seq<char>| y == #[trigger] (x + part + z);
    assert(a + y =~= (a + x) + part + z);
}

} // verus!
