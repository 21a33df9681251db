//! Which components make up a chain that nobody put together: those known to do something audible
//! at their defaults, or else the first few.
use vstd::prelude::*;
use crate::frame::texts;
use crate::text::{chars_have_part, chars_of, has_part};

verus! {

/// What [`str::to_lowercase`] gives of a text: each of its characters mapped as Unicode's lowercase
/// mapping says, which looks at a character's neighbours in places.
pub uninterp spec fn lowercase_of(s: Seq<char>) -> Seq<char>;

/// Calls [`str::to_lowercase`], whose result is a function of the text alone.
#[verifier::external_body]
fn to_lowercase(s: &str) -> (lower: String)
    ensures
        lower@ == lowercase_of(s@),
{
    s.to_lowercase()
}

/// The parts of a file name by which the components are found, in the order of the chain.
pub open spec fn needles() -> Seq<Seq<char>> {
    seq!["delta"@, "vlevel"@, "loudness"@]
}

/// The first component from `i` on that may be used and has `needle` in its name.
pub open spec fn first_with(
    lowered: Seq<Seq<char>>,
    usable: Seq<bool>,
    needle: Seq<char>,
    i: int,
) -> Seq<usize>
    decreases lowered.len() - i,
{
    if i < 0 || i >= lowered.len() {
        seq![]
    } else if usable[i] && has_part(lowered[i], needle) {
        seq![i as usize]
    } else {
        first_with(lowered, usable, needle, i + 1)
    }
}

/// For each needle the first component that may be used and has it in its name, where there is one.
pub open spec fn known(lowered: Seq<Seq<char>>, usable: Seq<bool>) -> Seq<usize> {
    first_with(lowered, usable, needles()[0], 0) + first_with(lowered, usable, needles()[1], 0)
        + first_with(lowered, usable, needles()[2], 0)
}

/// The first `count` components from `i` on that may be used.
pub open spec fn first_usable(usable: Seq<bool>, i: int, count: nat) -> Seq<usize>
    decreases usable.len() - i,
{
    if i < 0 || i >= usable.len() || count == 0 {
        seq![]
    } else if usable[i] {
        seq![i as usize] + first_usable(usable, i + 1, (count - 1) as nat)
    } else {
        first_usable(usable, i + 1, count)
    }
}

/// The known components where there are at least `enough` of them, or else the first three.
pub open spec fn chosen(lowered: Seq<Seq<char>>, usable: Seq<bool>, enough: nat) -> Seq<usize> {
    let found = known(lowered, usable);
    if found.len() >= enough {
        found
    } else {
        first_usable(usable, 0, 3)
    }
}

fn push_first_with(lowered: &[String], usable: &[bool], needle: &str, picks: &mut Vec<usize>)
    requires
        lowered@.len() == usable@.len(),
    ensures
        final(picks)@ == old(picks)@ + first_with(texts(lowered@), usable@, needle@, 0),
{
    let part: Vec<char> = chars_of(needle);
    let mut i: usize = 0;
    while i < lowered.len()
        invariant
            i <= lowered@.len(),
            lowered@.len() == usable@.len(),
            part@ == needle@,
            picks@ == old(picks)@,
            first_with(texts(lowered@), usable@, needle@, 0) == first_with(
                texts(lowered@),
                usable@,
                needle@,
                i as int,
            ),
        decreases lowered@.len() - i,
    {
        if usable[i] && chars_have_part(chars_of(lowered[i].as_str()).as_slice(), part.as_slice()) {
            picks.push(i);
            return ;
        }
        i += 1;
    }
    assert(picks@ =~= old(picks)@ + Seq::empty());
}

fn take_first_usable(usable: &[bool], count: usize) -> (picks: Vec<usize>)
    ensures
        picks@ == first_usable(usable@, 0, count as nat),
{
    let mut picks: Vec<usize> = Vec::new();
    let mut left: usize = count;
    let mut i: usize = 0;
    while i < usable.len() && left > 0
        invariant
            i <= usable@.len(),
            first_usable(usable@, 0, count as nat) == picks@ + first_usable(
                usable@,
                i as int,
                left as nat,
            ),
        decreases usable@.len() - i,
    {
        let ghost rest = first_usable(usable@, i + 1, (left - 1) as nat);
        let ghost had = picks@;
        if usable[i] {
            picks.push(i);
            left -= 1;
            assert(had + (seq![i] + rest) =~= picks@ + rest);
        }
        i += 1;
    }
    assert(picks@ + Seq::<usize>::empty() =~= picks@);
    picks
}

/// Chooses among components by their file names in lower case: those that may be used.
pub fn choose_lowered(lowered: &[String], usable: &[bool], enough: usize) -> (picks: Vec<usize>)
    requires
        lowered@.len() == usable@.len(),
    ensures
        picks@ == chosen(texts(lowered@), usable@, enough as nat),
{
    let mut picks: Vec<usize> = Vec::new();
    push_first_with(lowered, usable, "delta", &mut picks);
    push_first_with(lowered, usable, "vlevel", &mut picks);
    push_first_with(lowered, usable, "loudness", &mut picks);
    assert(picks@ =~= known(texts(lowered@), usable@));
    if picks.len() >= enough {
        picks
    } else {
        take_first_usable(usable, 3)
    }
}

/// File names in lower case.
pub open spec fn lowered_of(names: Seq<Seq<char>>) -> Seq<Seq<char>> {
    names.map_values(|name: Seq<char>| lowercase_of(name))
}

fn lower_all(names: &[String]) -> (lowered: Vec<String>)
    ensures
        texts(lowered@) == lowered_of(texts(names@)),
        lowered@.len() == names@.len(),
{
    let mut lowered: Vec<String> = Vec::new();
    let mut i: usize = 0;
    while i < names.len()
        invariant
            i <= names@.len(),
            lowered@.len() == i,
            forall|k: int| 0 <= k < i ==> (#[trigger] lowered@[k])@ == lowercase_of(names@[k]@),
        decreases names@.len() - i,
    {
        lowered.push(to_lowercase(names[i].as_str()));
        i += 1;
    }
    assert(texts(lowered@) =~= lowered_of(texts(names@)));
    lowered
}

/// The chain that a picture of the rack shows: the known components, or else the first three.
pub fn default_chain(names: &[String]) -> (picks: Vec<usize>)
    ensures
        picks@ == chosen(
            lowered_of(texts(names@)),
            Seq::new(names@.len(), |i: int| true),
            1,
        ),
{
    let lowered: Vec<String> = lower_all(names);
    let mut usable: Vec<bool> = Vec::new();
    let mut i: usize = 0;
    while i < names.len()
        invariant
            i <= names@.len(),
            usable@ == Seq::new(i as nat, |k: int| true),
        decreases names@.len() - i,
    {
        usable.push(true);
        assert(usable@ =~= Seq::new((i + 1) as nat, |k: int| true));
        i += 1;
    }
    choose_lowered(lowered.as_slice(), usable.as_slice(), 1)
}

/// The chain that a self-test runs: the known components that are 64-bit if there are two of them,
/// or else the first three that are.
pub fn selftest_chain(names: &[String], x64: &[bool]) -> (picks: Vec<usize>)
    requires
        names@.len() == x64@.len(),
    ensures
        picks@ == chosen(lowered_of(texts(names@)), x64@, 2),
{
    let lowered: Vec<String> = lower_all(names);
    choose_lowered(lowered.as_slice(), x64, 2)
}

/// Whatever is chosen may be used, is in the list, and is at most three components.
pub proof fn law_choice_is_usable(lowered: Seq<Seq<char>>, usable: Seq<bool>, enough: nat)
    requires
        lowered.len() == usable.len(),
        usable.len() <= usize::MAX,
    ensures
        chosen(lowered, usable, enough).len() <= 3,
        forall|k: int|
            0 <= k < chosen(lowered, usable, enough).len() ==> {
                let i = #[trigger] chosen(lowered, usable, enough)[k];
                i < usable.len() && usable[i as int]
            },
{
    lemma_first_with(lowered, usable, needles()[0], 0);
    lemma_first_with(lowered, usable, needles()[1], 0);
    lemma_first_with(lowered, usable, needles()[2], 0);
    lemma_first_usable(usable, 0, 3);
}

/// Where there is a component that may be used, and one is enough, at least one is chosen.
pub proof fn law_something_is_chosen(lowered: Seq<Seq<char>>, usable: Seq<bool>, enough: nat, i: int)
    requires
        lowered.len() == usable.len(),
        enough >= 1,
        0 <= i < usable.len(),
        usable[i],
    ensures
        chosen(lowered, usable, enough).len() >= 1,
{
    lemma_first_usable_found(usable, 0, 3, i);
}

proof fn lemma_first_with(lowered: Seq<Seq<char>>, usable: Seq<bool>, needle: Seq<char>, i: int)
    requires
        lowered.len() == usable.len(),
        usable.len() <= usize::MAX,
        0 <= i,
    ensures
        first_with(lowered, usable, needle, i).len() <= 1,
        first_with(lowered, usable, needle, i).len() == 1 ==> {
            let found = first_with(lowered, usable, needle, i)[0];
            found < usable.len() && usable[found as int]
        },
    decreases lowered.len() - i,
{
    if i < lowered.len() && !(usable[i] && has_part(lowered[i], needle)) {
        lemma_first_with(lowered, usable, needle, i + 1);
    }
}

proof fn lemma_first_usable(usable: Seq<bool>, i: int, count: nat)
    requires
        usable.len() <= usize::MAX,
        0 <= i,
    ensures
        first_usable(usable, i, count).len() <= count,
        forall|k: int|
            0 <= k < first_usable(usable, i, count).len() ==> {
                let found = #[trigger] first_usable(usable, i, count)[k];
                found < usable.len() && usable[found as int]
            },
    decreases usable.len() - i,
{
    if i < usable.len() && count > 0 {
        if usable[i] {
            lemma_first_usable(usable, i + 1, (count - 1) as nat);
        } else {
            lemma_first_usable(usable, i + 1, count);
        }
    }
}

proof fn lemma_first_usable_found(usable: Seq<bool>, i: int, count: nat, at: int)
    requires
        0 <= i <= at < usable.len(),
        usable[at],
        count > 0,
    ensures
        first_usable(usable, i, count).len() >= 1,
    decreases usable.len() - i,
{
    if !usable[i] {
        lemma_first_usable_found(usable, i + 1, count, at);
    }
}

} // verus!
