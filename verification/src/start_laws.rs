//! What the command line asks for, and which components are taken where nobody chose.
use vstd::prelude::*;
use crate::args::{default_source, files_from, is_src, parse_args, Options};
use crate::choice::{
    choose_lowered, chosen, default_chain, first_usable, first_with, lowercase_of, lowered_of,
    selftest_chain,
};
use crate::frame::texts;
use crate::text::{has_part, stands_at};

verus! {

proof fn lemma_shifted(
    v: Seq<Seq<char>>,
    w: Seq<Seq<char>>,
    a: int,
    b: int,
    src: Option<Seq<char>>,
    shot: Option<Seq<char>>,
)
    requires
        0 <= a <= v.len(),
        0 <= b <= w.len(),
        v.skip(a) == w.skip(b),
    ensures
        files_from(v, a, src, shot) == files_from(w, b, src, shot),
    decreases v.len() - a,
{
    let (x, y) = (v.skip(a), w.skip(b));
    assert(x.len() == v.len() - a && y.len() == w.len() - b);
    if a < v.len() {
        assert(x[0] == v[a] && y[0] == w[b]);
        assert(v.skip(a + 1) =~= v.skip(a).skip(1));
        assert(w.skip(b + 1) =~= w.skip(b).skip(1));
        if a + 1 < v.len() {
            assert(x[1] == v[a + 1] && y[1] == w[b + 1]);
            assert(v.skip(a + 2) =~= v.skip(a).skip(2));
            assert(w.skip(b + 2) =~= w.skip(b).skip(2));
            lemma_shifted(v, w, a + 2, b + 2, Some(v[a + 1]), shot);
            lemma_shifted(v, w, a + 2, b + 2, src, Some(v[a + 1]));
        }
        lemma_shifted(v, w, a + 1, b + 1, src, shot);
    }
}

/// What counts of an earlier and a later one: the later, where there is one.
pub open spec fn later(first: Option<Seq<char>>, second: Option<Seq<char>>) -> Option<Seq<char>> {
    if second is Some {
        second
    } else {
        first
    }
}

proof fn lemma_later(
    v: Seq<Seq<char>>,
    a: int,
    src: Option<Seq<char>>,
    shot: Option<Seq<char>>,
)
    requires
        0 <= a,
    ensures
        ({
            let fresh = files_from(v, a, None, None);
            files_from(v, a, src, shot) == (later(src, fresh.0), later(shot, fresh.1))
        }),
    decreases v.len() - a,
{
    if a < v.len() {
        if is_src(v[a]) && a + 1 < v.len() {
            lemma_later(v, a + 2, Some(v[a + 1]), shot);
            lemma_later(v, a + 2, Some(v[a + 1]), None);
        } else if v[a] == "--shot"@ && a + 1 < v.len() {
            lemma_later(v, a + 2, src, Some(v[a + 1]));
            lemma_later(v, a + 2, None, Some(v[a + 1]));
        } else {
            lemma_later(v, a + 1, src, shot);
        }
    }
}

/// `--probe` and `--selftest` count wherever they stand; without a word behind the program's name
/// no file is named.
pub proof fn law_switches(argv: &[String], o: Options)
    requires
        call_ensures(parse_args, (argv,), o),
    ensures
        o.probe <==> exists|i: int| 0 <= i < argv@.len() && (#[trigger] argv@[i])@ == "--probe"@,
        o.selftest <==> exists|i: int|
            0 <= i < argv@.len() && (#[trigger] argv@[i])@ == "--selftest"@,
        argv@.len() <= 1 ==> o.src is None && o.shot is None,
{
    let words = texts(argv@);
    assert forall|word: Seq<char>| #[trigger] words.contains(word) <==> exists|i: int|
        0 <= i < argv@.len() && (#[trigger] argv@[i])@ == word by {
        if words.contains(word) {
            let i = words.index_of(word);
            assert(argv@[i]@ == word);
        }
        if exists|i: int| 0 <= i < argv@.len() && (#[trigger] argv@[i])@ == word {
            let i = choose|i: int| 0 <= i < argv@.len() && (#[trigger] argv@[i])@ == word;
            assert(words[i] == word);
        }
    }
}

/// A word behind the program's name that is no flag, or a flag with nothing behind it, names no
/// file: the line says what it says without that word.
pub proof fn law_other_words_are_passed_over(
    argv: &[String],
    without: &[String],
    o: Options,
    p: Options,
)
    requires
        call_ensures(parse_args, (argv,), o),
        call_ensures(parse_args, (without,), p),
        argv@.len() >= 2,
        without@ == argv@.remove(1),
        argv@.len() == 2 || (argv@[1]@ != "--src"@ && argv@[1]@ != "--wav"@ && argv@[1]@
            != "--shot"@),
    ensures
        text_of(o.src) == text_of(p.src),
        text_of(o.shot) == text_of(p.shot),
{
    let (v, w) = (texts(argv@), texts(without@));
    assert(v[1] == argv@[1]@);
    assert(v.skip(2) =~= w.skip(1));
    lemma_shifted(v, w, 2, 1, None, None);
}

/// A text that may be missing.
pub open spec fn text_of(s: Option<String>) -> Option<Seq<char>> {
    match s {
        Some(s) => Some(s@),
        None => None,
    }
}

/// `--src` and `--wav` name the file to play, in the word behind them, unless a later one does;
/// `--shot` names the file for the picture in the same way. The rest of the line says what it says
/// without those two words.
pub proof fn law_flags_name_files(argv: &[String], without: &[String], o: Options, p: Options)
    requires
        call_ensures(parse_args, (argv,), o),
        call_ensures(parse_args, (without,), p),
        argv@.len() >= 3,
        without@ == argv@.remove(1).remove(1),
    ensures
        argv@[1]@ == "--src"@ || argv@[1]@ == "--wav"@ ==> {
            &&& text_of(o.src) == (if p.src is Some {
                text_of(p.src)
            } else {
                Some(argv@[2]@)
            })
            &&& text_of(o.shot) == text_of(p.shot)
        },
        argv@[1]@ == "--shot"@ ==> {
            &&& text_of(o.shot) == (if p.shot is Some {
                text_of(p.shot)
            } else {
                Some(argv@[2]@)
            })
            &&& text_of(o.src) == text_of(p.src)
        },
{
    let (v, w) = (texts(argv@), texts(without@));
    assert(v[1] == argv@[1]@ && v[2] == argv@[2]@);
    assert(v.skip(3) =~= w.skip(1));
    let file = Some(v[2]);
    lemma_shifted(v, w, 3, 1, file, None);
    lemma_shifted(v, w, 3, 1, None, file);
    lemma_later(w, 1, file, None);
    lemma_later(w, 1, None, file);
    reveal_strlit("--src");
    reveal_strlit("--wav");
    reveal_strlit("--shot");
    assert("--src"@.len() == 5 && "--wav"@.len() == 5 && "--shot"@.len() == 6);
}

/// The user's own files come first, in this order, and the project's clip last.
pub proof fn law_default_sources(i: usize, file: Option<&'static str>)
    requires
        call_ensures(default_source, (i,), file),
    ensures
        i == 0 ==> file is Some && file->0@ == "test.mp3"@,
        i == 1 ==> file is Some && file->0@ == "test.flac"@,
        i == 2 ==> file is Some && file->0@ == "test.wav"@,
        i == 3 ==> file is Some && file->0@ == "test.ogg"@,
        i == 4 ==> file is Some && file->0@ == "sample/demo.wav"@,
        i >= 5 ==> file is None,
{
}

/// Whether a text has another in it: something may stand before it and something behind.
pub open spec fn holds(text: Seq<char>, part: Seq<char>) -> bool {
    exists|before: Seq<char>, behind: Seq<char>| text == #[trigger] (before + part + behind)
}

proof fn lemma_holds(text: Seq<char>, part: Seq<char>)
    ensures
        has_part(text, part) <==> holds(text, part),
{
    if has_part(text, part) {
        let i = choose|i: int| stands_at(text, part, i);
        let (before, behind) = (text.take(i), text.skip(i + part.len()));
        assert(text =~= before + part + behind);
    }
    if holds(text, part) {
        let (before, behind) = choose|before: Seq<char>, behind: Seq<char>|
            text == #[trigger] (before + part + behind);
        let i = before.len() as int;
        assert(text.subrange(i, i + part.len()) =~= part);
        assert(stands_at(text, part, i));
    }
}

/// Whether this is the first component that may be used and has `needle` in its name; none, if there
/// is none.
pub open spec fn is_first(
    lowered: Seq<String>,
    usable: Seq<bool>,
    needle: Seq<char>,
    first: Option<usize>,
) -> bool {
    match first {
        Some(f) => {
            &&& f < lowered.len()
            &&& usable[f as int]
            &&& holds(lowered[f as int]@, needle)
            &&& forall|k: int|
                0 <= k < f ==> !(usable[k] && holds((#[trigger] lowered[k])@, needle))
        },
        None => forall|k: int|
            0 <= k < lowered.len() ==> !(usable[k] && holds((#[trigger] lowered[k])@, needle)),
    }
}

/// One thing, or none.
pub open spec fn at_most_one(first: Option<usize>) -> Seq<usize> {
    match first {
        Some(f) => seq![f],
        None => seq![],
    }
}

proof fn lemma_first_with(
    lowered: Seq<String>,
    usable: Seq<bool>,
    needle: Seq<char>,
    first: Option<usize>,
    i: int,
)
    requires
        is_first(lowered, usable, needle, first),
        0 <= i <= lowered.len(),
        first matches Some(f) ==> i <= f,
    ensures
        first_with(texts(lowered), usable, needle, i) == at_most_one(first),
    decreases lowered.len() - i,
{
    if i < lowered.len() {
        assert(texts(lowered)[i] == lowered[i]@);
        lemma_holds(lowered[i]@, needle);
        if first != Some(i as usize) {
            lemma_first_with(lowered, usable, needle, first, i + 1);
        }
    }
}

/// Whether these are the first components that may be used, three of them or all.
pub open spec fn are_first_three(picks: Seq<usize>, usable: Seq<bool>) -> bool {
    &&& picks.len() <= 3
    &&& forall|k: int|
        0 <= k < picks.len() ==> (#[trigger] picks[k]) < usable.len() && usable[picks[k] as int]
    &&& forall|i: int, j: int| 0 <= i < j < picks.len() ==> picks[i] < picks[j]
    &&& forall|u: usize|
        u < usable.len() && #[trigger] usable[u as int] && !picks.contains(u) ==> picks.len() == 3
            && picks[2] < u
}

proof fn lemma_first_three(usable: Seq<bool>, i: int, count: nat)
    requires
        0 <= i <= usable.len() <= usize::MAX,
    ensures
        ({
            let picks = first_usable(usable, i, count);
            &&& picks.len() <= count
            &&& forall|k: int|
                0 <= k < picks.len() ==> i <= (#[trigger] picks[k]) < usable.len()
                    && usable[picks[k] as int]
            &&& forall|a: int, b: int| 0 <= a < b < picks.len() ==> picks[a] < picks[b]
            &&& forall|u: usize|
                i <= u < usable.len() && #[trigger] usable[u as int] && !picks.contains(u)
                    ==> picks.len() == count && (count > 0 ==> picks[count - 1] < u)
        }),
    decreases usable.len() - i,
{
    let picks = first_usable(usable, i, count);
    if i < usable.len() && count > 0 {
        if usable[i] {
            lemma_first_three(usable, i + 1, (count - 1) as nat);
            let rest = first_usable(usable, i + 1, (count - 1) as nat);
            assert forall|k: int| 0 <= k < picks.len() implies i <= (#[trigger] picks[k])
                < usable.len() && usable[picks[k] as int] by {
                if k > 0 {
                    assert(picks[k] == rest[k - 1]);
                }
            }
            assert forall|a: int, b: int| 0 <= a < b < picks.len() implies picks[a] < picks[b] by {
                assert(picks[b] == rest[b - 1]);
                if a > 0 {
                    assert(picks[a] == rest[a - 1]);
                }
            }
            assert forall|u: usize|
                i <= u < usable.len() && #[trigger] usable[u as int] && !picks.contains(u) implies
                picks.len() == count && (count > 0 ==> picks[count - 1] < u) by {
                assert(picks[0] == i);
                if rest.contains(u) {
                    let k = rest.index_of(u);
                    assert(picks[k + 1] == u);
                }
                assert(!rest.contains(u));
                if count > 1 {
                    assert(picks[count - 1] == rest[count - 2]);
                }
            }
        } else {
            lemma_first_three(usable, i + 1, count);
        }
    }
}

/// The components that are chosen are the first whose names hold `delta`, `vlevel` and `loudness`,
/// in this order; where there are too few of them, the first three that may be used.
pub proof fn law_components_are_chosen(
    lowered: &[String],
    usable: &[bool],
    enough: usize,
    picks: Vec<usize>,
    delta: Option<usize>,
    vlevel: Option<usize>,
    loudness: Option<usize>,
)
    requires
        call_ensures(choose_lowered, (lowered, usable, enough), picks),
        lowered@.len() == usable@.len(),
        usable@.len() <= usize::MAX,
        is_first(lowered@, usable@, "delta"@, delta),
        is_first(lowered@, usable@, "vlevel"@, vlevel),
        is_first(lowered@, usable@, "loudness"@, loudness),
    ensures
        ({
            let found = at_most_one(delta) + at_most_one(vlevel) + at_most_one(loudness);
            if found.len() >= enough {
                picks@ == found
            } else {
                are_first_three(picks@, usable@)
            }
        }),
{
    lemma_first_with(lowered@, usable@, "delta"@, delta, 0);
    lemma_first_with(lowered@, usable@, "vlevel"@, vlevel, 0);
    lemma_first_with(lowered@, usable@, "loudness"@, loudness, 0);
    lemma_first_three(usable@, 0, 3);
}

/// The chain of a picture is chosen among all components, one being enough; that of a self-test
/// among the 64-bit ones, two being enough; both by the names in lower case.
pub proof fn law_chains_that_nobody_chose(
    names: &[String],
    lowered: &[String],
    all: &[bool],
    x64: &[bool],
    shown: Vec<usize>,
    tested: Vec<usize>,
    a: Vec<usize>,
    b: Vec<usize>,
)
    requires
        call_ensures(default_chain, (names,), shown),
        call_ensures(selftest_chain, (names, x64), tested),
        call_ensures(choose_lowered, (lowered, all, 1usize), a),
        call_ensures(choose_lowered, (lowered, x64, 2usize), b),
        lowered@.len() == names@.len(),
        all@.len() == names@.len(),
        x64@.len() == names@.len(),
        forall|k: int|
            0 <= k < names@.len() ==> (#[trigger] lowered@[k])@ == lowercase_of(names@[k]@),
        forall|k: int| 0 <= k < all@.len() ==> #[trigger] all@[k],
    ensures
        shown@ == a@,
        tested@ == b@,
{
    assert(texts(lowered@) =~= lowered_of(texts(names@)));
    assert(all@ =~= Seq::new(names@.len(), |i: int| true));
}

} // verus!
