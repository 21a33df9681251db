//! File names: which files are components, which are companions, which preset belongs to which
//! component, and in what order components are listed.
use vstd::prelude::*;
use crate::frame::texts;
use crate::text::{
    ascii_lowered, chars_le, chars_of, chars_start_with, lower_chars, same_chars, same_text,
    starts_with, text_le,
};

verus! {

/// Where the last dot of a file name stands.
pub open spec fn last_dot(name: Seq<char>) -> Option<int>
    decreases name.len(),
{
    if name.len() == 0 {
        None
    } else if name.last() == '.' {
        Some(name.len() - 1)
    } else {
        last_dot(name.drop_last())
    }
}

/// Where a file name is parted into stem and extension: at its last dot, unless that is its
/// first character. The name `..` is not parted.
pub open spec fn parting(name: Seq<char>) -> Option<int> {
    if name == seq!['.', '.'] {
        None
    } else {
        match last_dot(name) {
            Some(k) => if k == 0 {
                None
            } else {
                Some(k)
            },
            None => None,
        }
    }
}

/// What stands behind the dot at which a file name is parted.
pub open spec fn extension_of(name: Seq<char>) -> Option<Seq<char>> {
    match parting(name) {
        Some(k) => Some(name.skip(k + 1)),
        None => None,
    }
}

/// A file name up to the dot at which it is parted.
pub open spec fn stem_of(name: Seq<char>) -> Seq<char> {
    match parting(name) {
        Some(k) => name.take(k),
        None => name,
    }
}

pub proof fn lemma_last_dot(name: Seq<char>)
    ensures
        last_dot(name) matches Some(k) ==> 0 <= k < name.len() && name[k] == '.' && forall|j: int|
            k < j < name.len() ==> name[j] != '.',
        last_dot(name) is None ==> forall|j: int| 0 <= j < name.len() ==> name[j] != '.',
    decreases name.len(),
{
    if name.len() > 0 && name.last() != '.' {
        lemma_last_dot(name.drop_last());
        assert forall|j: int| 0 <= j < name.len() - 1 implies name.drop_last()[j] == name[j] by {}
    }
}

/// Where a file name is parted into stem and extension.
fn find_parting(name: &[char]) -> (at: Option<usize>)
    ensures
        match parting(name@) {
            Some(k) => at matches Some(i) && i == k && k < name@.len(),
            None => at is None,
        },
{
    proof {
        lemma_last_dot(name@);
    }
    if name.len() == 2 && name[0] == '.' && name[1] == '.' {
        assert(name@ =~= seq!['.', '.']);
        return None;
    }
    assert(name@ != seq!['.', '.']);
    let mut i: usize = name.len();
    while i > 0
        invariant
            i <= name@.len(),
            name@ != seq!['.', '.'],
            forall|j: int| i <= j < name@.len() ==> name@[j] != '.',
            last_dot(name@) matches Some(k) ==> 0 <= k < name@.len() && name@[k] == '.' && forall|
                j: int,
            |
                k < j < name@.len() ==> name@[j] != '.',
            last_dot(name@) is None ==> forall|j: int| 0 <= j < name@.len() ==> name@[j] != '.',
        decreases i,
    {
        i -= 1;
        if name[i] == '.' {
            if i == 0 {
                return None;
            }
            return Some(i);
        }
    }
    None
}

/// Whether the extension is `dll`, in any case.
pub open spec fn is_dll_any_case(name: Seq<char>) -> bool {
    extension_of(name) matches Some(ext) && ascii_lowered(ext) == "dll"@
}

/// A companion DLL of a component: any DLL but the `foo_*` components themselves and `shared.dll`,
/// whatever the letter case.
pub open spec fn is_companion(name: Seq<char>) -> bool {
    &&& is_dll_any_case(name)
    &&& !starts_with(ascii_lowered(name), "foo_"@)
    &&& ascii_lowered(name) != "shared.dll"@
}

/// A component: its name starts with `foo` and its extension is `dll`.
pub open spec fn is_component(name: Seq<char>) -> bool {
    extension_of(name) == Some("dll"@) && starts_with(name, "foo"@)
}

fn check_companion(name: &str) -> (yes: bool)
    ensures
        yes == is_companion(name@),
{
    let chars: Vec<char> = chars_of(name);
    let at: usize = match find_parting(chars.as_slice()) {
        Some(at) => at,
        None => {
            return false;
        },
    };
    let len: usize = chars.len();
    let ext: &[char] = vstd::slice::slice_subrange(chars.as_slice(), at + 1, len);
    assert(ext@ =~= name@.skip(at + 1));
    let dll: Vec<char> = chars_of("dll");
    if !same_chars(lower_chars(ext).as_slice(), dll.as_slice()) {
        return false;
    }
    let lowered: Vec<char> = lower_chars(chars.as_slice());
    let foo: Vec<char> = chars_of("foo_");
    let shared: Vec<char> = chars_of("shared.dll");
    !chars_start_with(lowered.as_slice(), foo.as_slice()) && !same_chars(
        lowered.as_slice(),
        shared.as_slice(),
    )
}

fn check_component(name: &str) -> (yes: bool)
    ensures
        yes == is_component(name@),
{
    let chars: Vec<char> = chars_of(name);
    let at: usize = match find_parting(chars.as_slice()) {
        Some(at) => at,
        None => {
            return false;
        },
    };
    let len: usize = chars.len();
    let ext: &[char] = vstd::slice::slice_subrange(chars.as_slice(), at + 1, len);
    assert(ext@ =~= name@.skip(at + 1));
    let dll: Vec<char> = chars_of("dll");
    let foo: Vec<char> = chars_of("foo");
    same_chars(ext, dll.as_slice()) && chars_start_with(chars.as_slice(), foo.as_slice())
}

/// The numbers below `n` of which `wanted` holds, in order.
pub open spec fn picks(n: nat, wanted: spec_fn(int) -> bool) -> Seq<usize>
    decreases n,
{
    if n == 0 {
        seq![]
    } else {
        let fewer = picks((n - 1) as nat, wanted);
        if wanted(n - 1) {
            fewer.push((n - 1) as usize)
        } else {
            fewer
        }
    }
}

/// What is picked lies below the bound, and is wanted.
pub proof fn lemma_picks(n: nat, wanted: spec_fn(int) -> bool)
    requires
        n <= usize::MAX,
    ensures
        picks(n, wanted).len() <= n,
        forall|k: int|
            0 <= k < picks(n, wanted).len() ==> (#[trigger] picks(n, wanted)[k]) < n && wanted(
                picks(n, wanted)[k] as int,
            ),
    decreases n,
{
    if n > 0 {
        lemma_picks((n - 1) as nat, wanted);
    }
}

/// Which files of a component's folder are to be copied beside the worker, so that the loaded
/// component can resolve them: its companion DLLs.
pub fn stage_companion_dlls(names: &[String]) -> (copies: Vec<usize>)
    ensures
        copies@ == picks(names@.len(), |i: int| is_companion(names@[i]@)),
{
    let ghost wanted = |i: int| is_companion(names@[i]@);
    let mut copies: Vec<usize> = Vec::new();
    let mut i: usize = 0;
    while i < names.len()
        invariant
            i <= names@.len(),
            wanted == (|i: int| is_companion(names@[i]@)),
            copies@ == picks(i as nat, wanted),
        decreases names@.len() - i,
    {
        if check_companion(names[i].as_str()) {
            copies.push(i);
        }
        i += 1;
    }
    copies
}

/// Which files of a folder with these files are components.
pub open spec fn components_of(names: Seq<Seq<char>>) -> Seq<usize> {
    picks(names.len(), |i: int| is_component(names[i]))
}

/// Which files of a folder are components.
pub fn component_files(names: &[String]) -> (found: Vec<usize>)
    ensures
        found@ == components_of(texts(names@)),
{
    let ghost wanted = |i: int| is_component(texts(names@)[i]);
    let mut found: Vec<usize> = Vec::new();
    let mut i: usize = 0;
    while i < names.len()
        invariant
            i <= names@.len(),
            wanted == (|i: int| is_component(texts(names@)[i])),
            found@ == picks(i as nat, wanted),
        decreases names@.len() - i,
    {
        if check_component(names[i].as_str()) {
            found.push(i);
        }
        i += 1;
    }
    found
}

/// A 32-bit component is listed unless a component of that name is there already: a 64-bit one,
/// or an earlier 32-bit one.
pub open spec fn is_new_name(x64: Seq<Seq<char>>, x86: Seq<Seq<char>>, j: int) -> bool {
    &&& forall|k: int| 0 <= k < x64.len() ==> x64[k] != x86[j]
    &&& forall|k: int| 0 <= k < j ==> x86[k] != x86[j]
}

/// Which 32-bit components are listed behind the 64-bit ones.
pub open spec fn added_of(x64: Seq<Seq<char>>, x86: Seq<Seq<char>>) -> Seq<usize> {
    picks(x86.len(), |j: int| is_new_name(x64, x86, j))
}

fn name_among(names: &[String], count: usize, name: &str) -> (yes: bool)
    requires
        count <= names@.len(),
    ensures
        yes == exists|k: int| 0 <= k < count && texts(names@)[k] == name@,
{
    let mut i: usize = 0;
    while i < count
        invariant
            i <= count <= names@.len(),
            forall|k: int| 0 <= k < i ==> texts(names@)[k] != name@,
        decreases count - i,
    {
        if same_text(names[i].as_str(), name) {
            assert(texts(names@)[i as int] == name@);
            return true;
        }
        i += 1;
    }
    false
}

/// Which 32-bit components are listed behind the 64-bit ones.
pub fn merge_components(x64: &[String], x86: &[String]) -> (added: Vec<usize>)
    ensures
        added@ == added_of(texts(x64@), texts(x86@)),
{
    let ghost wanted = |j: int| is_new_name(texts(x64@), texts(x86@), j);
    let mut added: Vec<usize> = Vec::new();
    let mut j: usize = 0;
    while j < x86.len()
        invariant
            j <= x86@.len(),
            wanted == (|j: int| is_new_name(texts(x64@), texts(x86@), j)),
            added@ == picks(j as nat, wanted),
        decreases x86@.len() - j,
    {
        let name: &str = x86[j].as_str();
        assert(texts(x86@)[j as int] == name@);
        if !name_among(x64, x64.len(), name) && !name_among(x86, j, name) {
            assert(wanted(j as int));
            added.push(j);
        } else {
            assert(!wanted(j as int));
        }
        j += 1;
    }
    added
}

/// Whether the file numbered `a` is listed before the file numbered `b`: by name, and among
/// equal names by number.
pub open spec fn listed_before(names: Seq<Seq<char>>, a: usize, b: usize) -> bool {
    text_le(names[a as int], names[b as int]) && (names[a as int] == names[b as int] ==> a < b)
}

/// Whether `order` lists the first `n` files, each once, by name.
pub open spec fn is_listing(names: Seq<Seq<char>>, n: int, order: Seq<usize>) -> bool {
    &&& order.len() == n
    &&& forall|i: int| 0 <= i < order.len() ==> #[trigger] order[i] < n
    &&& forall|i: int, j: int|
        0 <= i < j < order.len() ==> order[i] != order[j] && listed_before(
            names,
            #[trigger] order[i],
            #[trigger] order[j],
        )
}

proof fn lemma_listing_insert(names: Seq<Seq<char>>, order: Seq<usize>, x: usize, at: int)
    requires
        is_listing(names, x as int, order),
        0 <= at <= order.len(),
        forall|i: int| 0 <= i < at ==> text_le(names[#[trigger] order[i] as int], names[x as int]),
        at < order.len() ==> !text_le(names[order[at] as int], names[x as int]),
    ensures
        is_listing(names, x + 1, order.insert(at, x)),
{
    let more = order.insert(at, x);
    assert forall|i: int| 0 <= i < more.len() implies #[trigger] more[i] < x + 1 by {
        if i < at {
            assert(more[i] == order[i]);
        } else if i > at {
            assert(more[i] == order[i - 1]);
        }
    }
    assert forall|i: int, j: int| 0 <= i < j < more.len() implies more[i] != more[j]
        && listed_before(names, #[trigger] more[i], #[trigger] more[j]) by {
        let old_i = if i < at {
            i
        } else {
            i - 1
        };
        let old_j = if j < at {
            j
        } else {
            j - 1
        };
        if j == at {
            assert(more[i] == order[i]);
        } else if i == at {
            assert(more[j] == order[old_j]);
            let next = names[order[at] as int];
            let mine = names[x as int];
            crate::text::lemma_text_order(next, mine);
            assert(text_le(mine, next));
            if old_j > at {
                assert(listed_before(names, order[at], order[old_j]));
                crate::text::lemma_text_le_transitive(mine, next, names[order[old_j] as int]);
                if mine == names[order[old_j] as int] {
                    assert(text_le(next, mine));
                }
            }
        } else {
            assert(more[i] == order[old_i]);
            assert(more[j] == order[old_j]);
        }
    }
}

/// The order in which files are listed: by name, and files of one name as they came.
pub fn listing(names: &[String]) -> (order: Vec<usize>)
    ensures
        is_listing(texts(names@), names@.len() as int, order@),
{
    let ghost all = texts(names@);
    let mut spelled: Vec<Vec<char>> = Vec::new();
    let mut order: Vec<usize> = Vec::new();
    let mut x: usize = 0;
    while x < names.len()
        invariant
            x <= names@.len(),
            all == texts(names@),
            spelled@.len() == x,
            forall|k: int| 0 <= k < x ==> (#[trigger] spelled@[k])@ == all[k],
            is_listing(all, x as int, order@),
        decreases names@.len() - x,
    {
        let mine: Vec<char> = chars_of(names[x].as_str());
        let mut at: usize = 0;
        while at < order.len() && chars_le(spelled[order[at]].as_slice(), mine.as_slice())
            invariant
                at <= order@.len(),
                x < names@.len(),
                all == texts(names@),
                mine@ == all[x as int],
                spelled@.len() == x,
                forall|k: int| 0 <= k < x ==> (#[trigger] spelled@[k])@ == all[k],
                is_listing(all, x as int, order@),
                forall|i: int|
                    0 <= i < at ==> text_le(all[#[trigger] order@[i] as int], all[x as int]),
            decreases order@.len() - at,
        {
            at += 1;
        }
        proof {
            lemma_listing_insert(all, order@, x, at as int);
        }
        order.insert(at, x);
        spelled.push(mine);
        x += 1;
    }
    order
}

pub proof fn lemma_listing_has_all(names: Seq<Seq<char>>, n: int, order: Seq<usize>, x: int)
    requires
        is_listing(names, n, order),
        0 <= x < n,
    ensures
        exists|i: int| 0 <= i < order.len() && #[trigger] order[i] == x,
{
    let ints = order.map_values(|v: usize| v as int);
    assert forall|i: int, j: int| 0 <= i < ints.len() && 0 <= j < ints.len() && i != j implies ints[i]
        != ints[j] by {
        assert(order[i] != order[j]);
    }
    ints.unique_seq_to_set();
    vstd::set_lib::lemma_int_range(0, n);
    let all = vstd::set_lib::set_int_range(0, n);
    assert forall|v: int| ints.to_set().contains(v) implies all.contains(v) by {
        let i = choose|i: int| 0 <= i < ints.len() && ints[i] == v;
        assert(order[i] < n);
    }
    vstd::seq_lib::seq_to_set_is_finite(ints);
    vstd::set_lib::lemma_subset_equality(ints.to_set(), all);
    assert(ints.to_set().contains(x));
    let i = choose|i: int| 0 <= i < ints.len() && ints[i] == x;
    assert(order[i] == x);
}

/// There is one listing of given files.
pub proof fn law_one_listing(names: Seq<Seq<char>>, n: int, a: Seq<usize>, b: Seq<usize>)
    requires
        is_listing(names, n, a),
        is_listing(names, n, b),
    ensures
        a == b,
{
    lemma_same_start(names, n, a, b, n);
    assert(a =~= b);
}

proof fn lemma_same_start(names: Seq<Seq<char>>, n: int, a: Seq<usize>, b: Seq<usize>, k: int)
    requires
        is_listing(names, n, a),
        is_listing(names, n, b),
        0 <= k <= n,
    ensures
        forall|i: int| 0 <= i < k ==> a[i] == b[i],
    decreases k,
{
    if k > 0 {
        let i = k - 1;
        lemma_same_start(names, n, a, b, i);
        lemma_listing_has_all(names, n, b, a[i] as int);
        lemma_listing_has_all(names, n, a, b[i] as int);
        let p = choose|p: int| 0 <= p < b.len() && #[trigger] b[p] == a[i];
        let q = choose|q: int| 0 <= q < a.len() && #[trigger] a[q] == b[i];
        if p < i {
            assert(a[p] == b[p]);
            assert(a[p] != a[i]);
        }
        if q < i {
            assert(a[q] == b[q]);
            assert(b[q] != b[i]);
        }
        if p > i && q > i {
            assert(listed_before(names, b[i], b[p]));
            assert(listed_before(names, a[i], a[q]));
            crate::text::lemma_text_order(names[a[i] as int], names[b[i] as int]);
        }
    }
}

/// What a stage is called before its DSP has told its real name: the stem of its file name.
pub open spec fn label_of(file_name: Option<Seq<char>>) -> Seq<char> {
    match file_name {
        Some(name) => stem_of(name),
        None => ""@,
    }
}

fn stem(name: &str) -> (s: String)
    ensures
        s@ == stem_of(name@),
{
    let chars: Vec<char> = chars_of(name);
    match find_parting(chars.as_slice()) {
        Some(at) => {
            let part: &str = name.substring_char(0, at);
            assert(part@ =~= name@.take(at as int));
            part.to_string()
        },
        None => name.to_string(),
    }
}

/// What a stage is called before its DSP has told its real name.
pub fn stage_label(file_name: Option<&str>) -> (label: String)
    ensures
        label@ == label_of(match file_name {
            Some(name) => Some(name@),
            None => None,
        }),
{
    match file_name {
        Some(name) => stem(name),
        None => "".to_string(),
    }
}

/// The name of the file that a component's preset is kept in: the component's stem with the
/// extension `preset`. Two stages of the same component share the file.
pub open spec fn preset_file_of(file_name: Option<Seq<char>>) -> Seq<char> {
    (match file_name {
        Some(name) => stem_of(name),
        None => "dsp"@,
    }) + ".preset"@
}

/// The name of the file that a component's preset is kept in.
pub fn preset_path(file_name: Option<&str>) -> (file: String)
    ensures
        file@ == preset_file_of(match file_name {
            Some(name) => Some(name@),
            None => None,
        }),
{
    let mut file: String = match file_name {
        Some(name) => stem(name),
        None => "dsp".to_string(),
    };
    file.append(".preset");
    file
}

/// A `foo_*` component is not copied beside the worker as somebody's companion.
pub proof fn law_component_is_no_companion(name: Seq<char>)
    requires
        starts_with(name, "foo_"@),
    ensures
        !is_companion(name),
{
    reveal_strlit("foo_");
    assert(ascii_lowered(name).take(4) =~= name.take(4));
}

/// Two components share a preset file exactly if their file names have one stem.
pub proof fn law_presets_are_kept_by_stem(a: Seq<char>, b: Seq<char>)
    ensures
        preset_file_of(Some(a)) == preset_file_of(Some(b)) <==> stem_of(a) == stem_of(b),
{
    let fa = preset_file_of(Some(a));
    let fb = preset_file_of(Some(b));
    if fa == fb {
        assert(stem_of(a) =~= fa.take(fa.len() - ".preset"@.len()));
        assert(stem_of(b) =~= fb.take(fb.len() - ".preset"@.len()));
    }
}

} // verus!
